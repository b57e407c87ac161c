//! Laws of the per-channel pipeline: a divider keeps exactly its grid's
//! share of a run of master ticks, and a swing smaller than the
//! divider's step keeps both the ticks and the samples of a sorted
//! stream in order.

use vstd::prelude::*;
use crate::channel::role::ChannelCommon;
use crate::channel::transform::{
    event_of, landing_sample, on_divider, sat_add, sat_sub, transform_spec, ScheduledEvent,
};
use crate::fxp::div_ceil;
use crate::sample_tick::{stc_inner, SampleTickConn};
use crate::swing::swung_tick;
use crate::time::{grid_n, grid_q, grid_t, grid_ticks, tbase_ticks, Grid, Tick};

verus! {

/// Every grid's step is at least one master tick.
pub proof fn lemma_grid_ticks_positive(g: Grid)
    ensures
        grid_ticks(g) >= 1,
{
    assert(tbase_ticks(grid_n(g)) >= 15);
    assert(tbase_ticks(grid_n(g)) % 15 == 0);
    let b = tbase_ticks(grid_n(g));
    let a = b / (if grid_t(g) { 3nat } else { 1nat });
    assert(a >= 5);
    assert(a / (if grid_q(g) { 5nat } else { 1nat }) >= 1);
}

/// The master ticks `0, 1, ..., n - 1`.
pub open spec fn ticks_upto(n: nat) -> Seq<Tick> {
    Seq::new(n, |i: int| Tick(i as u64))
}

/// One more tick on the divider grid adds one to the ceiling quotient.
proof fn lemma_div_ceil_step(n: nat, d: nat)
    requires
        d >= 1,
    ensures
        div_ceil(n + 1int, d as int) == div_ceil(n as int, d as int) + (if n % d == 0 {
            1int
        } else {
            0int
        }),
{
    let q = n / d;
    let r = n % d;
    vstd::arithmetic::div_mod::lemma_fundamental_div_mod(n as int, d as int);
    assert(n == d * q + r);
    if r + 1 == d {
        assert(n + 1 == (q + 1) * d + 0) by (nonlinear_arith)
            requires
                n == d * q + r,
                r + 1 == d,
        ;
        vstd::arithmetic::div_mod::lemma_fundamental_div_mod_converse(n + 1int, d as int, q + 1int, 0int);
    } else {
        assert(n + 1 == q * d + (r + 1)) by (nonlinear_arith)
            requires
                n == d * q + r,
        ;
        vstd::arithmetic::div_mod::lemma_fundamental_div_mod_converse(n + 1int, d as int, q as int, r + 1int);
    }
}

/// A divider keeps exactly the multiples of its step among the master
/// ticks `0..n`: `ceil(n / step)` events.
pub proof fn lemma_transform_rate(n: nat, common: ChannelCommon, c: SampleTickConn)
    requires
        n <= u64::MAX + 1,
    ensures
        transform_spec(ticks_upto(n), common, c).len() == div_ceil(n as int, grid_ticks(common.divider) as int),
    decreases n,
{
    let d = grid_ticks(common.divider);
    lemma_grid_ticks_positive(common.divider);
    if n == 0 {
        assert(ticks_upto(0) =~= Seq::<Tick>::empty());
    } else {
        let m = (n - 1) as nat;
        lemma_transform_rate(m, common, c);
        assert(ticks_upto(n).drop_last() =~= ticks_upto(m));
        assert(ticks_upto(n).last() == Tick(m as u64));
        lemma_div_ceil_step(m, d);
    }
}

/// Two multiples of `d` that differ are at least `d` apart.
proof fn lemma_multiples_apart(t1: nat, t2: nat, d: nat)
    requires
        d >= 1,
        t1 % d == 0,
        t2 % d == 0,
        t1 < t2,
    ensures
        t1 + d <= t2,
{
    vstd::arithmetic::div_mod::lemma_fundamental_div_mod(t1 as int, d as int);
    vstd::arithmetic::div_mod::lemma_fundamental_div_mod(t2 as int, d as int);
    let k1 = t1 / d;
    let k2 = t2 / d;
    assert(k1 < k2) by (nonlinear_arith)
        requires
            t1 == d * k1,
            t2 == d * k2,
            t1 < t2,
            d >= 1,
    ;
    assert(d * k1 + d <= d * k2) by (nonlinear_arith)
        requires
            k1 < k2,
            d >= 1,
    ;
}

/// Swing moves a tick by at most its amount, and only that way.
pub proof fn lemma_swung_shape(cfg: crate::swing::SwingConfig, t: nat)
    requires
        t <= u64::MAX,
    ensures
        swung_tick(cfg, t) == t || swung_tick(cfg, t) == (if t + cfg.amount < 0 {
            0
        } else if t + cfg.amount > u64::MAX {
            u64::MAX as int
        } else {
            t + cfg.amount
        }),
        swung_tick(cfg, t) <= u64::MAX,
{
}

/// Swing keeps two divider ticks in order when its amount is smaller
/// than the divider's step.
proof fn lemma_swung_monotone(common: ChannelCommon, t1: nat, t2: nat)
    requires
        t1 <= t2 <= u64::MAX,
        on_divider(common, t1),
        on_divider(common, t2),
        -(grid_ticks(common.divider) as int) < common.shuffle.amount < grid_ticks(common.divider),
    ensures
        swung_tick(common.shuffle, t1) <= swung_tick(common.shuffle, t2),
{
    lemma_grid_ticks_positive(common.divider);
    lemma_swung_shape(common.shuffle, t1);
    lemma_swung_shape(common.shuffle, t2);
    if t1 < t2 {
        lemma_multiples_apart(t1, t2, grid_ticks(common.divider));
    }
}

/// Converting ticks to samples keeps them in order.
proof fn lemma_stc_inner_monotone(sr: nat, bpm: nat, ppqn: nat, x: nat, y: nat)
    requires
        bpm * ppqn > 0,
        x <= y,
    ensures
        stc_inner(sr, bpm, ppqn, x) <= stc_inner(sr, bpm, ppqn, y),
{
    let d = bpm * ppqn;
    assert(x * sr * 60_000_000 <= y * sr * 60_000_000) by (nonlinear_arith)
        requires
            x <= y,
    ;
    vstd::arithmetic::div_mod::lemma_div_is_ordered(
        (x * sr * 60_000_000 + d / 2) as int,
        (y * sr * 60_000_000 + d / 2) as int,
        d as int,
    );
}

/// The landing sample of a swung tick grows with the tick.
proof fn lemma_landing_monotone(common: ChannelCommon, c: SampleTickConn, x: nat, y: nat)
    requires
        c.bpm_of() * c.ppqn_of() > 0,
        x <= y,
    ensures
        landing_sample(common, c, x) <= landing_sample(common, c, y),
{
    lemma_stc_inner_monotone(c.sr_of(), c.bpm_of(), c.ppqn_of(), x, y);
}

/// The event of a later divider tick is no earlier, in ticks and in
/// samples.
pub proof fn lemma_event_monotone(common: ChannelCommon, c: SampleTickConn, t1: nat, t2: nat)
    requires
        t1 <= t2 <= u64::MAX,
        on_divider(common, t1),
        on_divider(common, t2),
        -(grid_ticks(common.divider) as int) < common.shuffle.amount < grid_ticks(common.divider),
        c.bpm_of() * c.ppqn_of() > 0,
    ensures
        event_of(common, c, t1).tick.0 <= event_of(common, c, t2).tick.0,
        event_of(common, c, t1).sample_index <= event_of(common, c, t2).sample_index,
{
    lemma_swung_monotone(common, t1, t2);
    lemma_swung_shape(common.shuffle, t1);
    lemma_swung_shape(common.shuffle, t2);
    let s1 = swung_tick(common.shuffle, t1);
    let s2 = swung_tick(common.shuffle, t2);
    lemma_landing_monotone(common, c, s1, s2);
    lemma_landing_range(common, c, s1);
    lemma_landing_range(common, c, s2);
}

/// A landing sample fits in `u64`.
proof fn lemma_landing_range(common: ChannelCommon, c: SampleTickConn, x: nat)
    ensures
        0 <= landing_sample(common, c, x) <= u64::MAX,
{
}

/// A master tick stream in non-decreasing order.
pub open spec fn sorted_ticks(ticks: Seq<Tick>) -> bool {
    forall|i: int, j: int| 0 <= i <= j < ticks.len() ==> ticks[i].0 <= ticks[j].0
}

/// Events in order: ticks and samples both non-decreasing.
pub open spec fn events_in_order(ev: Seq<ScheduledEvent>) -> bool {
    forall|i: int, j: int|
        0 <= i <= j < ev.len() ==> ev[i].tick.0 <= ev[j].tick.0 && ev[i].sample_index
            <= ev[j].sample_index
}

/// No event of a stream whose ticks are all at most the divider tick
/// `t` comes after the event of `t`.
proof fn lemma_events_bounded(ticks: Seq<Tick>, common: ChannelCommon, c: SampleTickConn, t: nat)
    requires
        forall|i: int| 0 <= i < ticks.len() ==> ticks[i].0 <= t,
        t <= u64::MAX,
        on_divider(common, t),
        -(grid_ticks(common.divider) as int) < common.shuffle.amount < grid_ticks(common.divider),
        c.bpm_of() * c.ppqn_of() > 0,
    ensures
        forall|k: int|
            0 <= k < transform_spec(ticks, common, c).len() ==> (#[trigger] transform_spec(
                ticks,
                common,
                c,
            )[k]).tick.0 <= event_of(common, c, t).tick.0 && transform_spec(ticks, common, c)[k].sample_index
                <= event_of(common, c, t).sample_index,
    decreases ticks.len(),
{
    if ticks.len() > 0 {
        let rest = ticks.drop_last();
        assert forall|i: int| 0 <= i < rest.len() implies rest[i].0 <= t by {
            assert(rest[i] == ticks[i]);
        }
        lemma_events_bounded(rest, common, c, t);
        let u = ticks.last().0 as nat;
        assert(u <= t) by {
            assert(ticks[ticks.len() - 1].0 <= t);
        }
        let before = transform_spec(rest, common, c);
        let out = transform_spec(ticks, common, c);
        if on_divider(common, u) {
            lemma_event_monotone(common, c, u, t);
            assert(out == before.push(event_of(common, c, u)));
            assert forall|k: int| 0 <= k < out.len() implies (#[trigger] out[k]).tick.0 <= event_of(
                common,
                c,
                t,
            ).tick.0 && out[k].sample_index <= event_of(common, c, t).sample_index by {
                if k < before.len() {
                    assert(out[k] == before[k]);
                }
            }
        } else {
            assert(out == before);
        }
    }
}

/// A sorted master stream, under a swing smaller than the divider's
/// step, yields events whose ticks and samples never go backwards.
pub proof fn lemma_transform_in_order(ticks: Seq<Tick>, common: ChannelCommon, c: SampleTickConn)
    requires
        sorted_ticks(ticks),
        -(grid_ticks(common.divider) as int) < common.shuffle.amount < grid_ticks(common.divider),
        c.bpm_of() * c.ppqn_of() > 0,
    ensures
        events_in_order(transform_spec(ticks, common, c)),
    decreases ticks.len(),
{
    if ticks.len() > 0 {
        let rest = ticks.drop_last();
        assert(sorted_ticks(rest)) by {
            assert forall|i: int, j: int| 0 <= i <= j < rest.len() implies rest[i].0 <= rest[j].0 by {
                assert(rest[i] == ticks[i] && rest[j] == ticks[j]);
            }
        }
        lemma_transform_in_order(rest, common, c);
        let u = ticks.last().0 as nat;
        if on_divider(common, u) {
            assert forall|i: int| 0 <= i < rest.len() implies rest[i].0 <= u by {
                assert(rest[i] == ticks[i]);
                assert(ticks[i].0 <= ticks[ticks.len() - 1].0);
            }
            lemma_events_bounded(rest, common, c, u);
            let out = transform_spec(ticks, common, c);
            let before = transform_spec(rest, common, c);
            assert(out == before.push(event_of(common, c, u)));
            assert forall|i: int, j: int| 0 <= i <= j < out.len() implies out[i].tick.0 <= out[j].tick.0
                && out[i].sample_index <= out[j].sample_index by {
                if j < before.len() {
                    assert(out[i] == before[i] && out[j] == before[j]);
                } else if i < before.len() {
                    assert(out[i] == before[i]);
                    assert(out[j] == event_of(common, c, u));
                }
            }
        }
    }
}

} // verus!
