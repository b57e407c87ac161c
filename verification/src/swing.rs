//! Swing: off-beat steps of a binary resolution move later by a
//! signed number of ticks (earlier when negative); on-beat steps pass
//! through unchanged.

use vstd::prelude::*;
use crate::time::{tbase_ticks, TBase, Tick};

verus! {

/// Swing at a binary resolution: every odd-numbered step of
/// `resolution` moves `amount` ticks later (earlier when negative).
#[derive(Copy, Clone, Debug, PartialEq, Eq, Structural, Hash)]
pub struct SwingConfig {
    pub resolution: TBase,
    pub amount: i8,
}

/// The tick a master tick plays at under swing `cfg`: an odd multiple
/// of the resolution's step moves to `t + amount` (kept within `u64`),
/// any other tick is unchanged.
pub open spec fn swung_tick(cfg: SwingConfig, t: nat) -> nat {
    let r = tbase_ticks(cfg.resolution);
    if t % r == 0 && (t / r) % 2 == 1 {
        let shifted = t + cfg.amount;
        if shifted < 0 {
            0
        } else if shifted > u64::MAX {
            u64::MAX as nat
        } else {
            shifted as nat
        }
    } else {
        t
    }
}

/// Apply swing to a master tick.
pub fn effective_tick(cfg: &SwingConfig, t: Tick) -> (r: Tick)
    ensures
        r.0 == swung_tick(*cfg, t.0 as nat),
{
    let r = cfg.resolution.tick_count() as u64;
    if t.0 % r == 0 && (t.0 / r) % 2 == 1 {
        let a = cfg.amount;
        if a >= 0 {
            Tick(t.0.saturating_add(a as u64))
        } else {
            let down: u64 = (-(a as i16)) as u64;
            Tick(t.0.saturating_sub(down))
        }
    } else {
        t
    }
}

/// On-beat steps (even multiples of the resolution) and ticks off the
/// resolution's grid are never moved, whatever the amount.
pub proof fn lemma_swing_identity_on_beats(cfg: SwingConfig, t: nat)
    requires
        t % tbase_ticks(cfg.resolution) != 0 || (t / tbase_ticks(cfg.resolution)) % 2 == 0,
    ensures
        swung_tick(cfg, t) == t,
{
}

/// Zero swing moves nothing.
pub proof fn lemma_swing_zero_is_identity(r: TBase, t: nat)
    requires
        t <= u64::MAX,
    ensures
        swung_tick(SwingConfig { resolution: r, amount: 0 }, t) == t,
{
}

/// Off-beat steps (odd multiples of the resolution's step) move by
/// exactly the swing amount: `amount` ticks later, or earlier when it is
/// negative, stopping at tick 0 and at `u64::MAX`.
pub proof fn lemma_swing_moves_off_beats(cfg: SwingConfig, t: nat)
    requires
        t % tbase_ticks(cfg.resolution) == 0,
        (t / tbase_ticks(cfg.resolution)) % 2 == 1,
    ensures
        0 <= t + cfg.amount <= u64::MAX ==> swung_tick(cfg, t) == t + cfg.amount,
        t + cfg.amount < 0 ==> swung_tick(cfg, t) == 0,
        t + cfg.amount > u64::MAX ==> swung_tick(cfg, t) == u64::MAX,
{
}

/// Away from the bounds, an off-beat step lands exactly `amount` ticks
/// from where it was, so two swings at one resolution place it the
/// difference of their amounts apart.
pub proof fn lemma_swing_shift_difference(r: TBase, a: i8, b: i8, t: nat)
    requires
        t % tbase_ticks(r) == 0,
        (t / tbase_ticks(r)) % 2 == 1,
        0 <= t + a <= u64::MAX,
        0 <= t + b <= u64::MAX,
    ensures
        swung_tick(SwingConfig { resolution: r, amount: a }, t) - swung_tick(
            SwingConfig { resolution: r, amount: b },
            t,
        ) == a - b,
        swung_tick(SwingConfig { resolution: r, amount: a }, t) - t == a,
{
}

} // verus!
