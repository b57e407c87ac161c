use agogo_core::midi::{U004U008, U007U008, U4, U7};

#[test]
fn u7_new_at_boundary() {
    assert_eq!(U7::new(127), Some(U7(127)));
    assert_eq!(U7::new(128), None);
    assert_eq!(U7::new(255), None);
    assert_eq!(U7::new(0), Some(U7(0)));
}

#[test]
fn u4_new_at_boundary() {
    assert_eq!(U4::new(15), Some(U4(15)));
    assert_eq!(U4::new(16), None);
    assert_eq!(U4::new(255), None);
    assert_eq!(U4::new(0), Some(U4(0)));
}

#[test]
fn u7u8_inner_at_127() {
    assert_eq!(U007U008.inner(127), U7(127));
}

#[test]
fn u7u8_inner_at_max_u8_saturates() {
    assert_eq!(U007U008.inner(255), U7(127));
    assert_eq!(U007U008.inner(128), U7(127));
}

#[test]
fn u7u8_ceil_zero() {
    assert_eq!(U007U008.ceil(U7(0)), 0);
}

#[test]
fn u4u8_inner_at_max_u8_saturates() {
    assert_eq!(U004U008.inner(255), U4(15));
    assert_eq!(U004U008.inner(16), U4(15));
    assert_eq!(U004U008.inner(15), U4(15));
    assert_eq!(U004U008.inner(0), U4(0));
}

#[test]
fn from_impls_are_lossless() {
    assert_eq!(u8::from(U7(76)), 76);
    assert_eq!(u8::from(U4(9)), 9);
}

#[test]
fn display_forwards_to_inner_u8() {
    assert_eq!(U7(76).to_string(), "76");
    assert_eq!(U4(9).to_string(), "9");
}

#[test]
fn le_compares_inner() {
    assert!(U7(10) <= U7(20));
    assert!(U7(20) <= U7(20));
    assert!(U7(20) > U7(10));
}

#[test]
fn u7_new_iff_in_range() {
    for x in 0..=u8::MAX {
        assert_eq!(U7::new(x).is_some(), x <= U7::MAX);
    }
}

#[test]
fn u4_new_iff_in_range() {
    for x in 0..=u8::MAX {
        assert_eq!(U4::new(x).is_some(), x <= U4::MAX);
    }
}

#[test]
fn u7u8_round_trip_and_saturation() {
    for x in 0..=U7::MAX {
        assert_eq!(U007U008.inner(U007U008.ceil(U7(x))), U7(x));
    }
    for b in 0..=u8::MAX {
        assert_eq!(U007U008.ceil(U007U008.inner(b)), b.min(U7::MAX));
    }
}

#[test]
fn u7u8_galois_law() {
    for a in 0..=U7::MAX {
        for b in 0..=u8::MAX {
            assert_eq!(U007U008.ceil(U7(a)) <= b, a <= U007U008.inner(b).0);
        }
    }
}

#[test]
fn u4u8_galois_law() {
    for a in 0..=U4::MAX {
        for b in 0..=u8::MAX {
            assert_eq!(U004U008.ceil(U4(a)) <= b, a <= U004U008.inner(b).0);
        }
        assert_eq!(U004U008.inner(U004U008.ceil(U4(a))), U4(a));
    }
}
