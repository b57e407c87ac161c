//! Laws of per-buffer scheduling: consecutive buffers over a contiguous
//! sample range yield each event once, with no gaps and no duplicates.

use vstd::prelude::*;
use crate::channel::pipeline_laws::{lemma_event_monotone, lemma_swung_shape};
use crate::channel::role::ChannelCommon;
use crate::channel::transform::{
    delay_samples, event_of, landing_sample, offset_samples, on_divider, sat_add, sat_sub,
};
use crate::event::{
    buffer_events, clamp_u64, first_tick, lands_in, last_tick, lemma_landing_in_u64, window_end,
    window_events,
};
use crate::sample_tick::{stc_ceil, stc_floor, stc_inner, SampleTickConn};
use crate::swing::swung_tick;
use crate::time::grid_ticks;

verus! {

/// The events of the master ticks `lo..=hi` landing in `[start, end)`
/// (none when `lo > hi`).
pub open spec fn range_events(
    common: ChannelCommon,
    c: SampleTickConn,
    start: int,
    end: int,
    lo: int,
    hi: int,
) -> Seq<crate::channel::transform::ScheduledEvent> {
    if lo > hi || lo < 0 {
        Seq::empty()
    } else {
        window_events(common, c, start, end, lo as nat, (hi - lo + 1) as nat)
    }
}

/// Ticks that land nowhere in the window give no events.
proof fn lemma_window_empty(common: ChannelCommon, c: SampleTickConn, start: int, end: int, lo: nat, n: nat)
    requires
        forall|t: nat| lo <= t < lo + n ==> !#[trigger] lands_in(common, c, t, start, end),
    ensures
        window_events(common, c, start, end, lo, n) == Seq::<crate::channel::transform::ScheduledEvent>::empty(),
    decreases n,
{
    if n > 0 {
        lemma_window_empty(common, c, start, end, lo, (n - 1) as nat);
        assert(!lands_in(common, c, (lo + n - 1) as nat, start, end));
    }
}

/// The events of `lo .. lo + n` are those of `lo .. lo + d`, then those
/// of `lo + d .. lo + n`.
proof fn lemma_window_split(common: ChannelCommon, c: SampleTickConn, start: int, end: int, lo: nat, d: nat, n: nat)
    requires
        d <= n,
    ensures
        window_events(common, c, start, end, lo, n) == window_events(common, c, start, end, lo, d)
            + window_events(common, c, start, end, lo + d, (n - d) as nat),
    decreases n,
{
    if n == d {
        assert(window_events(common, c, start, end, lo + d, 0) =~= Seq::empty());
        assert(window_events(common, c, start, end, lo, d) + Seq::empty() =~= window_events(
            common,
            c,
            start,
            end,
            lo,
            d,
        ));
    } else {
        lemma_window_split(common, c, start, end, lo, d, (n - 1) as nat);
        let a = window_events(common, c, start, end, lo, d);
        let b = window_events(common, c, start, end, lo + d, (n - 1 - d) as nat);
        let t = (lo + n - 1) as nat;
        assert(((lo + d) + (n - d) - 1) as nat == t);
        if lands_in(common, c, t, start, end) {
            assert((a + b).push(event_of(common, c, t)) =~= a + b.push(event_of(common, c, t)));
        }
    }
}

/// Extending a range upward by ticks that do not land changes nothing.
proof fn lemma_range_up(common: ChannelCommon, c: SampleTickConn, start: int, end: int, lo: int, hi: int, hi2: int)
    requires
        hi <= hi2,
        forall|t: nat| hi < t <= hi2 ==> !#[trigger] lands_in(common, c, t, start, end),
    ensures
        range_events(common, c, start, end, lo, hi2) == range_events(common, c, start, end, lo, hi),
{
    if lo < 0 || lo > hi2 {
    } else if lo > hi {
        lemma_window_empty(common, c, start, end, lo as nat, (hi2 - lo + 1) as nat);
    } else {
        let d = (hi - lo + 1) as nat;
        lemma_window_split(common, c, start, end, lo as nat, d, (hi2 - lo + 1) as nat);
        lemma_window_empty(common, c, start, end, (lo + d) as nat, (hi2 - hi) as nat);
        assert(window_events(common, c, start, end, lo as nat, d) + Seq::empty() =~= window_events(
            common,
            c,
            start,
            end,
            lo as nat,
            d,
        ));
    }
}

/// Starting a range later, past ticks that do not land, changes
/// nothing.
proof fn lemma_range_down(common: ChannelCommon, c: SampleTickConn, start: int, end: int, lo: int, lo2: int, hi: int)
    requires
        0 <= lo <= lo2,
        forall|t: nat| lo <= t < lo2 ==> !#[trigger] lands_in(common, c, t, start, end),
    ensures
        range_events(common, c, start, end, lo, hi) == range_events(common, c, start, end, lo2, hi),
{
    if lo > hi {
    } else if lo2 > hi {
        lemma_window_empty(common, c, start, end, lo as nat, (hi - lo + 1) as nat);
    } else {
        let d = (lo2 - lo) as nat;
        lemma_window_split(common, c, start, end, lo as nat, d, (hi - lo + 1) as nat);
        lemma_window_empty(common, c, start, end, lo as nat, d);
        assert(Seq::empty() + window_events(common, c, start, end, lo2 as nat, (hi - lo2 + 1) as nat)
            =~= window_events(common, c, start, end, lo2 as nat, (hi - lo2 + 1) as nat));
    }
}

/// Under a swing smaller than the divider's step, a divider tick lands
/// no later than any later divider tick.
proof fn lemma_landing_monotone(common: ChannelCommon, c: SampleTickConn, t1: nat, t2: nat)
    requires
        t1 <= t2 <= u64::MAX,
        on_divider(common, t1),
        on_divider(common, t2),
        -(grid_ticks(common.divider) as int) < common.shuffle.amount < grid_ticks(common.divider),
        c.bpm_of() * c.ppqn_of() > 0,
    ensures
        landing_sample(common, c, swung_tick(common.shuffle, t1)) <= landing_sample(
            common,
            c,
            swung_tick(common.shuffle, t2),
        ),
{
    lemma_event_monotone(common, c, t1, t2);
    lemma_landing_in_u64(common, c, swung_tick(common.shuffle, t1));
    lemma_landing_in_u64(common, c, swung_tick(common.shuffle, t2));
}

/// Splitting the sample window at `mid` splits its events: those
/// before `mid`, then those from `mid` on.
proof fn lemma_window_sample_split(
    common: ChannelCommon,
    c: SampleTickConn,
    s: int,
    m: int,
    e: int,
    lo: nat,
    n: nat,
)
    requires
        s <= m <= e,
        lo + n <= u64::MAX + 1,
        -(grid_ticks(common.divider) as int) < common.shuffle.amount < grid_ticks(common.divider),
        c.bpm_of() * c.ppqn_of() > 0,
    ensures
        window_events(common, c, s, m, lo, n) + window_events(common, c, m, e, lo, n) == window_events(
            common,
            c,
            s,
            e,
            lo,
            n,
        ),
    decreases n,
{
    if n == 0 {
        assert(Seq::<crate::channel::transform::ScheduledEvent>::empty() + Seq::empty() =~= Seq::empty());
    } else {
        lemma_window_sample_split(common, c, s, m, e, lo, (n - 1) as nat);
        let a = window_events(common, c, s, m, lo, (n - 1) as nat);
        let b = window_events(common, c, m, e, lo, (n - 1) as nat);
        let t = (lo + n - 1) as nat;
        let ev = event_of(common, c, t);
        let x = landing_sample(common, c, swung_tick(common.shuffle, t));
        if lands_in(common, c, t, s, e) {
            if x < m {
                assert forall|u: nat| lo <= u < lo + (n - 1) implies !#[trigger] lands_in(common, c, u, m, e) by {
                    if on_divider(common, u) {
                        lemma_landing_monotone(common, c, u, t);
                    }
                }
                lemma_window_empty(common, c, m, e, lo, (n - 1) as nat);
                assert(a.push(ev) + Seq::empty() =~= (a + b).push(ev));
            } else {
                assert(a + b.push(ev) =~= (a + b).push(ev));
            }
        }
    }
}

/// Below the tick a sample floors to, every tick lands before that
/// sample, when a tick spans at least one sample.
proof fn lemma_floor_lower(sr: nat, bpm: nat, ppqn: nat, lo: nat, x: nat)
    requires
        sr > 0,
        bpm * ppqn > 0,
        bpm * ppqn <= sr * 60_000_000,
        lo <= u64::MAX,
        x < stc_floor(sr, bpm, ppqn, lo),
    ensures
        stc_inner(sr, bpm, ppqn, x) < lo,
{
    let k = bpm * ppqn;
    let d = sr * 60_000_000;
    let n = lo * bpm * ppqn;
    assert(n == lo * k) by (nonlinear_arith)
        requires
            n == lo * bpm * ppqn,
            k == bpm * ppqn,
    ;
    let q0 = n / d;
    vstd::arithmetic::div_mod::lemma_fundamental_div_mod(n as int, d as int);
    assert(q0 * d <= n) by (nonlinear_arith)
        requires
            n == d * q0 + n % d,
            n % d >= 0,
    ;
    assert(q0 <= lo) by (nonlinear_arith)
        requires
            q0 * d <= lo * k,
            k <= d,
            d > 0,
    ;
    assert(stc_floor(sr, bpm, ppqn, lo) == q0);
    let xd = x * sr * 60_000_000;
    assert(xd == x * d) by (nonlinear_arith)
        requires
            xd == x * sr * 60_000_000,
            d == sr * 60_000_000,
    ;
    assert((x + 1) * d <= q0 * d) by (nonlinear_arith)
        requires
            x + 1 <= q0,
            d > 0,
    ;
    assert((x + 1) * d == x * d + d) by (nonlinear_arith);
    assert(k / 2 < k);
    let a = xd + k / 2;
    assert(a < lo * k);
    let q = a / k;
    vstd::arithmetic::div_mod::lemma_fundamental_div_mod(a as int, k as int);
    assert(q < lo) by (nonlinear_arith)
        requires
            a == k * q + a % k,
            a % k >= 0,
            a < lo * k,
            k > 0,
    ;
}

/// Above the tick a sample ceils to, every tick lands at or after that
/// sample.
proof fn lemma_ceil_upper(sr: nat, bpm: nat, ppqn: nat, hi: nat, x: nat)
    requires
        sr > 0,
        bpm * ppqn > 0,
        hi <= u64::MAX,
        x <= u64::MAX,
        x > stc_ceil(sr, bpm, ppqn, hi),
    ensures
        stc_inner(sr, bpm, ppqn, x) >= hi,
{
    let k = bpm * ppqn;
    let d = sr * 60_000_000;
    assert(d > 0) by (nonlinear_arith)
        requires
            sr > 0,
            d == sr * 60_000_000,
    ;
    let n = hi * bpm * ppqn;
    assert(n == hi * k) by (nonlinear_arith)
        requires
            n == hi * bpm * ppqn,
            k == bpm * ppqn,
    ;
    vstd::arithmetic::div_mod::lemma_fundamental_div_mod(n as int, d as int);
    let g0 = if n % d == 0 {
        n / d
    } else {
        n / d + 1
    };
    assert(g0 * d >= n) by (nonlinear_arith)
        requires
            n == d * (n / d) + n % d,
            0 <= n % d < d,
            g0 == (if n % d == 0 {
                n / d
            } else {
                n / d + 1
            }),
    ;
    assert(stc_ceil(sr, bpm, ppqn, hi) == g0);
    let xd = x * sr * 60_000_000;
    assert(xd == x * d) by (nonlinear_arith)
        requires
            xd == x * sr * 60_000_000,
            d == sr * 60_000_000,
    ;
    assert(x * d >= g0 * d) by (nonlinear_arith)
        requires
            x >= g0,
            d > 0,
    ;
    let a = xd + k / 2;
    assert(a >= hi * k);
    let q = a / k;
    vstd::arithmetic::div_mod::lemma_fundamental_div_mod(a as int, k as int);
    assert(q >= hi) by (nonlinear_arith)
        requires
            a == k * q + a % k,
            0 <= a % k < k,
            a >= hi * k,
            k > 0,
    ;
}

/// A landing sample is at most the sample plus delay and offset (or 0).
proof fn lemma_landing_le(common: ChannelCommon, c: SampleTickConn, x: nat, bound: int)
    requires
        stc_inner(c.sr_of(), c.bpm_of(), c.ppqn_of(), x) + delay_samples(common, c.sr_of() as int)
            + offset_samples(common, c.sr_of() as int) < bound,
        bound >= 1,
    ensures
        landing_sample(common, c, x) < bound,
{
}

/// A landing sample is at least the sample plus delay and offset, when
/// that target leaves room for the offset below `u64::MAX`.
proof fn lemma_landing_ge(common: ChannelCommon, c: SampleTickConn, x: nat, bound: int)
    requires
        stc_inner(c.sr_of(), c.bpm_of(), c.ppqn_of(), x) + delay_samples(common, c.sr_of() as int)
            + offset_samples(common, c.sr_of() as int) >= bound,
        0 <= bound,
        bound + offset_samples(common, c.sr_of() as int) <= u64::MAX,
        bound - offset_samples(common, c.sr_of() as int) <= u64::MAX,
    ensures
        landing_sample(common, c, x) >= bound,
{
}

/// Every tick before the first tick a window examines lands before the
/// window's start, when a tick spans at least one sample.
proof fn lemma_before_first(common: ChannelCommon, c: SampleTickConn, x: u64, t: nat)
    requires
        c.sr_of() > 0,
        c.bpm_of() * c.ppqn_of() > 0,
        c.bpm_of() * c.ppqn_of() <= c.sr_of() * 60_000_000,
        x >= 1,
        t < first_tick(common, c, x),
    ensures
        landing_sample(common, c, swung_tick(common.shuffle, t)) < x,
{
    let dl = delay_samples(common, c.sr_of() as int);
    let off = offset_samples(common, c.sr_of() as int);
    let delta = dl + off;
    let lo = clamp_u64(x - delta);
    let f = stc_floor(c.sr_of(), c.bpm_of(), c.ppqn_of(), lo as nat);
    let a = common.shuffle.amount as int;
    let ap = if a > 0 {
        a
    } else {
        0
    };
    assert(t + ap < f);
    lemma_swung_shape(common.shuffle, t);
    let sw = swung_tick(common.shuffle, t);
    assert(sw <= t + ap);
    lemma_floor_lower(c.sr_of(), c.bpm_of(), c.ppqn_of(), lo as nat, sw);
    let base = stc_inner(c.sr_of(), c.bpm_of(), c.ppqn_of(), sw);
    assert(base + delta < x);
    lemma_landing_le(common, c, sw, x as int);
}

/// Every tick after the last tick a window examines lands at or after
/// the window's end, when that end leaves room for the offset below
/// `u64::MAX`.
proof fn lemma_after_last(common: ChannelCommon, c: SampleTickConn, start: u64, frames: usize, t: nat)
    requires
        c.sr_of() > 0,
        c.bpm_of() * c.ppqn_of() > 0,
        t <= u64::MAX,
        t > last_tick(common, c, start, frames),
        window_end(start, frames) + offset_samples(common, c.sr_of() as int) <= u64::MAX,
        window_end(start, frames) - offset_samples(common, c.sr_of() as int) <= u64::MAX,
    ensures
        landing_sample(common, c, swung_tick(common.shuffle, t)) >= window_end(start, frames),
{
    let x = window_end(start, frames);
    let dl = delay_samples(common, c.sr_of() as int);
    let off = offset_samples(common, c.sr_of() as int);
    let delta = dl + off;
    let hi = clamp_u64(x - delta);
    let g = stc_ceil(c.sr_of(), c.bpm_of(), c.ppqn_of(), hi as nat);
    let a = common.shuffle.amount as int;
    let am = if a < 0 {
        -a
    } else {
        0
    };
    assert(t > g + am);
    lemma_swung_shape(common.shuffle, t);
    let sw = swung_tick(common.shuffle, t);
    assert(sw >= t - am);
    lemma_ceil_upper(c.sr_of(), c.bpm_of(), c.ppqn_of(), hi as nat, sw);
    let base = stc_inner(c.sr_of(), c.bpm_of(), c.ppqn_of(), sw);
    assert(base + delta >= x);
    lemma_landing_ge(common, c, sw, x);
}

/// Rounding a sample up to a tick is monotone.
proof fn lemma_stc_ceil_monotone(sr: nat, bpm: nat, ppqn: nat, s1: nat, s2: nat)
    requires
        sr > 0,
        s1 <= s2,
    ensures
        stc_ceil(sr, bpm, ppqn, s1) <= stc_ceil(sr, bpm, ppqn, s2),
{
    let d = sr * 60_000_000;
    assert(d > 0) by (nonlinear_arith)
        requires
            sr > 0,
            d == sr * 60_000_000,
    ;
    let n1 = s1 * bpm * ppqn;
    let n2 = s2 * bpm * ppqn;
    assert(n1 <= n2) by (nonlinear_arith)
        requires
            s1 <= s2,
            n1 == s1 * bpm * ppqn,
            n2 == s2 * bpm * ppqn,
    ;
    vstd::arithmetic::div_mod::lemma_fundamental_div_mod(n1 as int, d as int);
    vstd::arithmetic::div_mod::lemma_fundamental_div_mod(n2 as int, d as int);
    let c1 = if n1 % d == 0 {
        n1 / d
    } else {
        n1 / d + 1
    };
    let c2 = if n2 % d == 0 {
        n2 / d
    } else {
        n2 / d + 1
    };
    assert(c1 <= c2) by (nonlinear_arith)
        requires
            n1 <= n2,
            d > 0,
            n1 == d * (n1 / d) + n1 % d,
            n2 == d * (n2 / d) + n2 % d,
            0 <= n1 % d < d,
            0 <= n2 % d < d,
            c1 == (if n1 % d == 0 {
                n1 / d
            } else {
                n1 / d + 1
            }),
            c2 == (if n2 % d == 0 {
                n2 / d
            } else {
                n2 / d + 1
            }),
    ;
}

/// A later window start examines no earlier first tick.
proof fn lemma_first_tick_monotone(common: ChannelCommon, c: SampleTickConn, x1: u64, x2: u64)
    requires
        c.sr_of() > 0,
        x1 <= x2,
    ensures
        first_tick(common, c, x1) <= first_tick(common, c, x2),
{
    let delta = delay_samples(common, c.sr_of() as int) + offset_samples(common, c.sr_of() as int);
    crate::sample_tick::lemma_stc_floor_monotone(
        c.sr_of(),
        c.bpm_of(),
        c.ppqn_of(),
        clamp_u64(x1 - delta) as nat,
        clamp_u64(x2 - delta) as nat,
    );
}

/// A later window end examines no earlier last tick.
proof fn lemma_last_tick_monotone(
    common: ChannelCommon,
    c: SampleTickConn,
    s1: u64,
    f1: usize,
    s2: u64,
    f2: usize,
)
    requires
        c.sr_of() > 0,
        window_end(s1, f1) <= window_end(s2, f2),
    ensures
        last_tick(common, c, s1, f1) <= last_tick(common, c, s2, f2),
{
    let delta = delay_samples(common, c.sr_of() as int) + offset_samples(common, c.sr_of() as int);
    lemma_stc_ceil_monotone(
        c.sr_of(),
        c.bpm_of(),
        c.ppqn_of(),
        clamp_u64(window_end(s1, f1) - delta) as nat,
        clamp_u64(window_end(s2, f2) - delta) as nat,
    );
}

/// Consecutive buffers over a contiguous sample range yield each event
/// once, in order, with no gap and no duplicate: the events of
/// `[s, s + n1)` followed by those of `[s + n1, s + n1 + n2)` are the
/// events of `[s, s + n1 + n2)`. This holds when a tick spans at least
/// one sample, the swing is smaller than the divider's step, and the
/// range leaves room for the offset below `u64::MAX`.
pub proof fn lemma_buffers_partition(common: ChannelCommon, c: SampleTickConn, s: u64, n1: usize, n2: usize)
    requires
        c.sr_of() > 0,
        c.bpm_of() * c.ppqn_of() > 0,
        c.bpm_of() * c.ppqn_of() <= c.sr_of() * 60_000_000,
        -(grid_ticks(common.divider) as int) < common.shuffle.amount < grid_ticks(common.divider),
        n1 + n2 <= usize::MAX,
        s + n1 + n2 + offset_samples(common, c.sr_of() as int) <= u64::MAX,
        s + n1 + n2 - offset_samples(common, c.sr_of() as int) <= u64::MAX,
        s + n1 + n2 <= u64::MAX,
    ensures
        buffer_events(common, c, s, n1) + buffer_events(common, c, (s + n1) as u64, n2) == buffer_events(
            common,
            c,
            s,
            (n1 + n2) as usize,
        ),
{
    let m = (s + n1) as u64;
    let e = s + n1 + n2;
    let nn = (n1 + n2) as usize;
    if n1 == 0 {
        assert(Seq::<crate::channel::transform::ScheduledEvent>::empty() + buffer_events(common, c, m, n2)
            =~= buffer_events(common, c, s, nn));
        return;
    }
    if n2 == 0 {
        assert(buffer_events(common, c, s, n1) + Seq::<crate::channel::transform::ScheduledEvent>::empty()
            =~= buffer_events(common, c, s, nn));
        return;
    }
    assert(window_end(s, n1) == m);
    assert(window_end(m, n2) == e);
    assert(window_end(s, nn) == e);
    let fs = first_tick(common, c, s);
    let fm = first_tick(common, c, m);
    let lm = last_tick(common, c, s, n1);
    let le = last_tick(common, c, m, n2);
    assert(le == last_tick(common, c, s, nn));
    lemma_first_tick_monotone(common, c, s, m);
    lemma_last_tick_monotone(common, c, s, n1, m, n2);
    assert(0 <= fs && le <= u64::MAX);
    assert(buffer_events(common, c, s, n1) == range_events(common, c, s as int, m as int, fs, lm));
    assert(buffer_events(common, c, m, n2) == range_events(common, c, m as int, e, fm, le));
    assert(buffer_events(common, c, s, nn) == range_events(common, c, s as int, e, fs, le));
    assert forall|t: nat| lm < t <= le implies !#[trigger] lands_in(common, c, t, s as int, m as int) by {
        lemma_after_last(common, c, s, n1, t);
    }
    lemma_range_up(common, c, s as int, m as int, fs, lm, le);
    assert forall|t: nat| fs <= t < fm implies !#[trigger] lands_in(common, c, t, m as int, e) by {
        lemma_before_first(common, c, m, t);
    }
    lemma_range_down(common, c, m as int, e, fs, fm, le);
    if fs <= le {
        lemma_window_sample_split(common, c, s as int, m as int, e, fs as nat, (le - fs + 1) as nat);
    } else {
        assert(Seq::<crate::channel::transform::ScheduledEvent>::empty() + Seq::empty() =~= Seq::empty());
    }
}

/// The events of `k` consecutive buffers of `n` samples from `s`, one
/// buffer after another.
pub open spec fn buffers_events(common: ChannelCommon, c: SampleTickConn, s: u64, n: usize, k: nat) -> Seq<
    crate::channel::transform::ScheduledEvent,
>
    decreases k,
{
    if k == 0 {
        Seq::empty()
    } else {
        buffers_events(common, c, s, n, (k - 1) as nat) + buffer_events(
            common,
            c,
            (s + (k - 1) * n) as u64,
            n,
        )
    }
}

/// Running `k` consecutive buffers of `n` samples gives the events of
/// the one window they cover, each once and in order: no duplicate and
/// no gap, under the conditions of [`lemma_buffers_partition`].
pub proof fn lemma_buffers_partition_many(common: ChannelCommon, c: SampleTickConn, s: u64, n: usize, k: nat)
    requires
        c.sr_of() > 0,
        c.bpm_of() * c.ppqn_of() > 0,
        c.bpm_of() * c.ppqn_of() <= c.sr_of() * 60_000_000,
        -(grid_ticks(common.divider) as int) < common.shuffle.amount < grid_ticks(common.divider),
        k * n <= usize::MAX,
        s + k * n + offset_samples(common, c.sr_of() as int) <= u64::MAX,
        s + k * n - offset_samples(common, c.sr_of() as int) <= u64::MAX,
        s + k * n <= u64::MAX,
    ensures
        buffers_events(common, c, s, n, k) == buffer_events(common, c, s, (k * n) as usize),
    decreases k,
{
    if k == 0 {
        assert(k * n == 0) by (nonlinear_arith)
            requires
                k == 0,
        ;
        assert(buffer_events(common, c, s, 0) =~= Seq::empty());
    } else {
        let j = (k - 1) as nat;
        assert(j * n <= k * n) by (nonlinear_arith)
            requires
                j <= k,
        ;
        assert(k * n == j * n + n) by (nonlinear_arith)
            requires
                j == k - 1,
        ;
        lemma_buffers_partition_many(common, c, s, n, j);
        lemma_buffers_partition(common, c, s, (j * n) as usize, n);
        assert((k - 1) * n == j * n);
        assert(buffers_events(common, c, s, n, k) == buffers_events(common, c, s, n, j) + buffer_events(
            common,
            c,
            (s + j * n) as u64,
            n,
        ));
        assert(((j * n) as usize + n) as usize == (k * n) as usize);
        assert(buffer_events(common, c, s, (j * n) as usize) + buffer_events(common, c, (s + j * n) as u64, n)
            == buffer_events(common, c, s, (k * n) as usize));
    }
}


/// `x / g` rounded up.
pub open spec fn div_up(x: int, g: int) -> int {
    (x + g - 1) / g
}

/// `div_up(x, g)` is the least `q` with `q * g >= x`.
proof fn lemma_div_up(x: int, g: int, q: int)
    requires
        g > 0,
        x >= 0,
    ensures
        div_up(x, g) >= 0,
        div_up(x, g) * g >= x,
        q * g >= x ==> div_up(x, g) <= q,
{
    vstd::arithmetic::div_mod::lemma_fundamental_div_mod(x + g - 1, g);
    let r = (x + g - 1) % g;
    let u = div_up(x, g);
    assert(u * g >= x) by (nonlinear_arith)
        requires
            x + g - 1 == g * u + r,
            r < g,
    ;
    assert(u >= 0) by (nonlinear_arith)
        requires
            u * g >= x,
            x >= 0,
            g > 0,
            x + g - 1 == g * u + r,
            0 <= r,
    ;
    if q * g >= x {
        assert(u <= q) by (nonlinear_arith)
            requires
                x + g - 1 == g * u + r,
                0 <= r,
                q * g >= x,
                g > 0,
        ;
    }
}

/// Among the ticks `lo .. lo + n`, at most as many give events as there
/// are multiples of the channel's grid step.
proof fn lemma_window_count(common: ChannelCommon, c: SampleTickConn, start: int, end: int, lo: nat, n: nat)
    ensures
        window_events(common, c, start, end, lo, n).len() <= div_up((lo + n) as int, grid_ticks(common.divider) as int)
            - div_up(lo as int, grid_ticks(common.divider) as int),
    decreases n,
{
    let g = grid_ticks(common.divider) as int;
    crate::channel::pipeline_laws::lemma_grid_ticks_positive(common.divider);
    if n > 0 {
        lemma_window_count(common, c, start, end, lo, (n - 1) as nat);
        let t = (lo + n - 1) as int;
        lemma_div_up(t, g, div_up(t + 1, g));
        lemma_div_up(t + 1, g, div_up(t + 1, g));
        if t % g == 0 {
            let q = t / g;
            vstd::arithmetic::div_mod::lemma_fundamental_div_mod(t, g);
            lemma_div_up(t, g, q);
            assert(q * g == t);
            assert(div_up(t + 1, g) > q) by (nonlinear_arith)
                requires
                    div_up(t + 1, g) * g >= t + 1,
                    q * g == t,
                    g > 0,
            ;
            assert(div_up(t, g) <= q);
        } else {
            assert(!on_divider(common, t as nat));
        }
    }
}

/// The ticks of a window of `y - x` samples, at no more than one tick
/// per sample: the tick at or after `y` is at most `y - x + 1` past the
/// tick at or before `x`.
proof fn lemma_tick_span(c: SampleTickConn, x: nat, y: nat)
    requires
        x <= y,
        c.sr_of() > 0,
        c.bpm_of() * c.ppqn_of() <= c.sr_of() * 60_000_000,
    ensures
        stc_floor(c.sr_of(), c.bpm_of(), c.ppqn_of(), x) <= stc_ceil(c.sr_of(), c.bpm_of(), c.ppqn_of(), y),
        stc_ceil(c.sr_of(), c.bpm_of(), c.ppqn_of(), y) <= stc_floor(c.sr_of(), c.bpm_of(), c.ppqn_of(), x)
            + (y - x) + 1,
{
    let sr = c.sr_of();
    let bpm = c.bpm_of();
    let ppqn = c.ppqn_of();
    let d = (sr * 60_000_000) as int;
    let m = (bpm * ppqn) as int;
    let nx = (x * bpm * ppqn) as int;
    let ny = (y * bpm * ppqn) as int;
    assert(nx == x * m && ny == y * m) by (nonlinear_arith)
        requires
            nx == x * bpm * ppqn,
            ny == y * bpm * ppqn,
            m == bpm * ppqn,
    ;
    assert(d > 0) by (nonlinear_arith)
        requires
            sr > 0,
            d == sr * 60_000_000,
    ;
    vstd::arithmetic::div_mod::lemma_fundamental_div_mod(nx, d);
    vstd::arithmetic::div_mod::lemma_fundamental_div_mod(ny, d);
    let f = nx / d;
    let qy = ny / d;
    assert(0 <= nx <= ny) by (nonlinear_arith)
        requires
            nx == x * m,
            ny == y * m,
            x <= y,
            m >= 0,
    ;
    vstd::arithmetic::div_mod::lemma_div_is_ordered(nx, ny, d);
    assert(ny == nx + (y - x) * m) by (nonlinear_arith)
        requires
            nx == x * m,
            ny == y * m,
    ;
    assert(ny < (f + 1 + (y - x)) * d) by (nonlinear_arith)
        requires
            nx == d * f + nx % d,
            nx % d < d,
            ny == nx + (y - x) * m,
            m <= d,
            y >= x,
    ;
    assert(qy <= f + (y - x)) by (nonlinear_arith)
        requires
            ny == d * qy + ny % d,
            0 <= ny % d,
            ny < (f + 1 + (y - x)) * d,
            d > 0,
    ;
}

/// A buffer of `frames` samples holds at most `frames + 2` events when
/// the tempo gives at most one master tick per sample and the swing
/// stays within one grid step; so never more than
/// [`max_events_for_buffer`](crate::event::max_events_for_buffer)
/// reserves.
pub proof fn lemma_buffer_events_bound(common: ChannelCommon, c: SampleTickConn, start: u64, frames: usize)
    requires
        c.sr_of() > 0,
        c.bpm_of() * c.ppqn_of() <= c.sr_of() * 60_000_000,
        -(grid_ticks(common.divider) as int) < common.shuffle.amount < grid_ticks(common.divider),
    ensures
        buffer_events(common, c, start, frames).len() <= frames + 2,
        buffer_events(common, c, start, frames).len() <= frames + 16,
{
    let g = grid_ticks(common.divider) as int;
    crate::channel::pipeline_laws::lemma_grid_ticks_positive(common.divider);
    let lo = first_tick(common, c, start);
    let hi = last_tick(common, c, start, frames);
    if frames > 0 && lo <= hi {
        let delta = delay_samples(common, c.sr_of() as int) + offset_samples(common, c.sr_of() as int);
        let xs = clamp_u64(start - delta);
        let ys = clamp_u64(window_end(start, frames) - delta);
        assert(xs <= ys && ys - xs <= frames);
        lemma_tick_span(c, xs as nat, ys as nat);
        let n = (hi - lo + 1) as nat;
        assert(n <= frames + 2 + g - 1);
        lemma_window_count(common, c, start as int, window_end(start, frames), lo as nat, n);
        lemma_div_up(n as int, g, 0);
        let qa = div_up(lo, g);
        let qn = div_up(n as int, g);
        lemma_div_up(lo, g, qa);
        lemma_div_up(n as int, g, qn);
        lemma_div_up(lo + n, g, qa + qn);
        assert((qa + qn) * g >= lo + n) by (nonlinear_arith)
            requires
                qa * g >= lo,
                qn * g >= n,
        ;
        lemma_div_up(lo + n, g, qa + qn);
        lemma_div_up(n as int, g, frames + 2);
        assert((frames + 2) * g >= n) by (nonlinear_arith)
            requires
                n <= frames + 1 + g,
                g >= 1,
                frames >= 1,
        ;
    }
}

} // verus!
