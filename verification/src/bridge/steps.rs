//! The decisions of the tempo hand-off, as functions of the words read
//! from the shared slot: what opening, publishing, settling, cancelling
//! and claiming do with the values they saw. The atomic operations
//! around them only read those words and apply the step.

use vstd::prelude::*;
use crate::bridge::shared::{guard_ok, SlotAttempt, TempoWriteGuard};
use crate::bridge::slot::{
    lemma_pending_word, lemma_slot_encoding, slot_of, TempoSlotState, CLAIMED_TEMPO_BIT,
    NO_PENDING_TEMPO, TEMPO_GENERATION_MASK, WRITING_TEMPO_BIT,
};
use crate::fxp::Tempo;

verus! {

/// What a producer does with the slot word it read when it opens a
/// write: wait for another write to finish, or open one over the
/// pending generation (if any).
#[derive(Copy, Clone, Debug, PartialEq, Eq)]
pub enum BeginStep {
    Spin,
    Open(TempoWriteGuard),
}

/// The generation a word leaves pending: its generation when it is a
/// pending word, else none (0).
pub open spec fn pending_generation(state: u64) -> u64 {
    if slot_of(state) == TempoSlotState::Pending {
        state & TEMPO_GENERATION_MASK
    } else {
        0
    }
}

/// Opening a write over the word `state`: spin while another write is
/// open; otherwise the guard remembers the pending generation and the
/// word to restore, and writes `WRITING | generation`.
pub open spec fn begin_step_spec(state: u64) -> BeginStep {
    if slot_of(state) == TempoSlotState::Writing {
        BeginStep::Spin
    } else {
        let g = pending_generation(state);
        BeginStep::Open(
            TempoWriteGuard {
                previous_generation: g,
                previous_state: if g == 0 {
                    NO_PENDING_TEMPO
                } else {
                    state
                },
                writing_state: WRITING_TEMPO_BIT | g,
            },
        )
    }
}

/// The step of opening a write over `state`.
pub fn begin_step(state: u64) -> (r: BeginStep)
    ensures
        r == begin_step_spec(state),
        r matches BeginStep::Open(w) ==> guard_ok(w),
{
    let s = crate::bridge::slot::tempo_slot_state(state);
    if s == TempoSlotState::Writing {
        return BeginStep::Spin;
    }
    let g = if s == TempoSlotState::Pending {
        crate::bridge::slot::tempo_state_generation(state)
    } else {
        0
    };
    proof {
        if s == TempoSlotState::Pending {
            lemma_pending_word(state);
        }
        lemma_slot_encoding(g);
    }
    let previous_state = if g == 0 {
        NO_PENDING_TEMPO
    } else {
        state
    };
    BeginStep::Open(
        TempoWriteGuard {
            previous_generation: g,
            previous_state,
            writing_state: crate::bridge::slot::writing_tempo_state(g),
        },
    )
}

/// Whether a publish goes ahead (store the tempo, then swap in the new
/// generation) or is refused.
#[derive(Copy, Clone, Debug, PartialEq, Eq)]
pub enum PublishStep {
    Refuse,
    Swap,
}

/// Publishing through the open write `write`, having read the slot word
/// `state`, the backup's deadline and the current epoch, for a tempo
/// due at `deadline`: while the write is still ours, go ahead unless
/// the backed-up previous tempo is already due; after the audio side
/// claimed the previous tempo, go ahead only if our deadline is still
/// ahead; otherwise (the write was lost) refuse.
pub open spec fn publish_step_spec(
    write: TempoWriteGuard,
    state: u64,
    backup_deadline: u64,
    epoch: u64,
    deadline: u64,
) -> PublishStep {
    if state == write.writing_state {
        if write.previous_generation != 0 && backup_deadline <= epoch {
            PublishStep::Refuse
        } else {
            PublishStep::Swap
        }
    } else if write.previous_generation != 0 && state == CLAIMED_TEMPO_BIT | write.previous_generation {
        if deadline <= epoch {
            PublishStep::Refuse
        } else {
            PublishStep::Swap
        }
    } else {
        PublishStep::Refuse
    }
}

/// The step of a publish.
pub fn publish_step(write: TempoWriteGuard, state: u64, backup_deadline: u64, epoch: u64, deadline: u64) -> (r:
    PublishStep)
    ensures
        r == publish_step_spec(write, state, backup_deadline, epoch, deadline),
{
    if state == write.writing_state {
        if write.previous_generation != 0 && backup_deadline <= epoch {
            PublishStep::Refuse
        } else {
            PublishStep::Swap
        }
    } else if write.previous_generation != 0 && state == crate::bridge::slot::claimed_tempo_state(
        write.previous_generation,
    ) {
        if deadline <= epoch {
            PublishStep::Refuse
        } else {
            PublishStep::Swap
        }
    } else {
        PublishStep::Refuse
    }
}

/// What a producer waiting on its published generation does with the
/// slot word it read.
#[derive(Copy, Clone, Debug, PartialEq, Eq)]
pub enum SettleStep {
    /// The audio side claimed the generation.
    Claimed,
    /// The generation was replaced or withdrawn.
    Gone,
    /// Still pending: withdraw it.
    Withdraw,
    /// Still pending and not yet due: wait.
    Wait,
}

/// Waiting on `generation` (due at `deadline`) after reading the slot
/// word `state` and the epoch of the audio side's last snapshot.
pub open spec fn settle_step_spec(generation: u64, state: u64, snapshot_epoch: u64, deadline: u64) -> SettleStep {
    if state == CLAIMED_TEMPO_BIT | generation {
        SettleStep::Claimed
    } else if state != generation {
        SettleStep::Gone
    } else if snapshot_epoch >= deadline {
        SettleStep::Withdraw
    } else {
        SettleStep::Wait
    }
}

/// Cancelling `generation` after reading the slot word `state`.
pub open spec fn cancel_step_spec(generation: u64, state: u64) -> SettleStep {
    if state == CLAIMED_TEMPO_BIT | generation {
        SettleStep::Claimed
    } else if state != generation {
        SettleStep::Gone
    } else {
        SettleStep::Withdraw
    }
}

/// The step of waiting on a published generation.
pub fn settle_step(generation: u64, state: u64, snapshot_epoch: u64, deadline: u64) -> (r: SettleStep)
    ensures
        r == settle_step_spec(generation, state, snapshot_epoch, deadline),
{
    if state == crate::bridge::slot::claimed_tempo_state(generation) {
        SettleStep::Claimed
    } else if state != generation {
        SettleStep::Gone
    } else if snapshot_epoch >= deadline {
        SettleStep::Withdraw
    } else {
        SettleStep::Wait
    }
}

/// The step of cancelling a published generation.
pub fn cancel_step(generation: u64, state: u64) -> (r: SettleStep)
    ensures
        r == cancel_step_spec(generation, state),
{
    if state == crate::bridge::slot::claimed_tempo_state(generation) {
        SettleStep::Claimed
    } else if state != generation {
        SettleStep::Gone
    } else {
        SettleStep::Withdraw
    }
}

/// What the audio side does with the slot word and the values it read
/// when it looks for a tempo due by its buffer.
#[derive(Copy, Clone, Debug, PartialEq, Eq)]
pub enum ClaimStep {
    /// Nothing to take: keep the stored tempo.
    Keep,
    /// The pending tempo is stale: empty the slot.
    ClearStale,
    /// Swap in this word and take this tempo.
    Claim(u64, Tempo),
    /// A write is open and its tempo would already be due: empty the
    /// slot.
    MarkEmpty,
}

/// Looking for a tempo due by buffer `epoch`, having read the slot word
/// `state`, the pending tempo and its deadline, the deadline the open
/// write staged, and the backup tempo and its deadline:
/// - empty or claimed: keep;
/// - pending: clear it when its deadline is before `epoch`, else claim
///   it (the claimed word carries its generation);
/// - being written: claim the backed-up previous tempo when there is
///   one that is not stale; otherwise empty the slot if the staged
///   deadline is already reached, else keep.
pub open spec fn claim_step_spec(
    epoch: u64,
    state: u64,
    pending_deadline: u64,
    pending_tempo: Tempo,
    staged_deadline: u64,
    backup_deadline: u64,
    backup_tempo: Tempo,
) -> ClaimStep {
    match slot_of(state) {
        TempoSlotState::Pending => if pending_deadline < epoch {
            ClaimStep::ClearStale
        } else {
            ClaimStep::Claim(CLAIMED_TEMPO_BIT | (state & TEMPO_GENERATION_MASK), pending_tempo)
        },
        TempoSlotState::Writing => {
            let prev = state & TEMPO_GENERATION_MASK;
            if prev == 0 || backup_deadline < epoch {
                if staged_deadline <= epoch {
                    ClaimStep::MarkEmpty
                } else {
                    ClaimStep::Keep
                }
            } else {
                ClaimStep::Claim(CLAIMED_TEMPO_BIT | prev, backup_tempo)
            }
        },
        _ => ClaimStep::Keep,
    }
}

/// The tempo a claim step takes, if any.
pub open spec fn claimed_tempo(s: ClaimStep) -> Option<Tempo> {
    match s {
        ClaimStep::Claim(_, t) => Some(t),
        _ => None,
    }
}

/// The step of looking for a due tempo.
pub fn claim_step(
    epoch: u64,
    state: u64,
    pending_deadline: u64,
    pending_tempo: Tempo,
    staged_deadline: u64,
    backup_deadline: u64,
    backup_tempo: Tempo,
) -> (r: ClaimStep)
    ensures
        r == claim_step_spec(
            epoch,
            state,
            pending_deadline,
            pending_tempo,
            staged_deadline,
            backup_deadline,
            backup_tempo,
        ),
{
    match crate::bridge::slot::tempo_slot_state(state) {
        TempoSlotState::Pending => if pending_deadline < epoch {
            ClaimStep::ClearStale
        } else {
            ClaimStep::Claim(
                crate::bridge::slot::claimed_tempo_state(
                    crate::bridge::slot::tempo_state_generation(state),
                ),
                pending_tempo,
            )
        },
        TempoSlotState::Writing => {
            let prev = crate::bridge::slot::tempo_state_generation(state);
            if prev == 0 || backup_deadline < epoch {
                if staged_deadline <= epoch {
                    ClaimStep::MarkEmpty
                } else {
                    ClaimStep::Keep
                }
            } else {
                ClaimStep::Claim(crate::bridge::slot::claimed_tempo_state(prev), backup_tempo)
            }
        },
        _ => ClaimStep::Keep,
    }
}

/// The tempo of a buffer: the one claimed from the slot, else the
/// stored one.
pub open spec fn buffer_tempo_spec(claimed: Option<Tempo>, stored: Tempo) -> Tempo {
    match claimed {
        Some(t) => t,
        None => stored,
    }
}

/// The generation a producer takes from the counter's previous value:
/// that value, or 1 when it was 0.
pub open spec fn generation_from(previous: u64) -> u64 {
    if previous == 0 {
        1
    } else {
        previous
    }
}


/// The outcome of one attempt to open a write: spin, or the guard when
/// the swap to the writing word succeeded, else retry.
pub open spec fn begin_outcome(step: BeginStep, swapped: bool) -> SlotAttempt<TempoWriteGuard> {
    match step {
        BeginStep::Spin => SlotAttempt::Spin,
        BeginStep::Open(w) => if swapped {
            SlotAttempt::Done(w)
        } else {
            SlotAttempt::Retry
        },
    }
}

/// The outcome of one publish attempt: refused, published when the
/// swap succeeded, else retry.
pub open spec fn publish_outcome(step: PublishStep, swapped: bool) -> SlotAttempt<bool> {
    match step {
        PublishStep::Refuse => SlotAttempt::Done(false),
        PublishStep::Swap => if swapped {
            SlotAttempt::Done(true)
        } else {
            SlotAttempt::Retry
        },
    }
}

/// What one round of waiting on a generation decides: claimed
/// (`Some(true)`), gone or withdrawn (`Some(false)`), or go on waiting
/// (`None`, also when the withdrawing swap failed).
pub open spec fn settle_result(step: SettleStep, swapped: bool) -> Option<bool> {
    match step {
        SettleStep::Claimed => Some(true),
        SettleStep::Gone => Some(false),
        SettleStep::Withdraw => if swapped {
            Some(false)
        } else {
            None
        },
        SettleStep::Wait => None,
    }
}

/// The outcome of one cancel attempt.
pub open spec fn cancel_outcome(step: SettleStep, swapped: bool) -> SlotAttempt<bool> {
    match settle_result(step, swapped) {
        Some(b) => SlotAttempt::Done(b),
        None => SlotAttempt::Retry,
    }
}

/// A tempo is one the audio side may claim for buffer `epoch`: some
/// slot word and values it can read give a claim step that takes it.
pub open spec fn claimable(epoch: u64, t: Tempo) -> bool {
    exists|state: u64, pd: u64, pt: Tempo, sd: u64, bd: u64, bt: Tempo|
        #[trigger] claimed_tempo(claim_step_spec(epoch, state, pd, pt, sd, bd, bt)) == Some(t)
}

/// What one round of waiting decides.
pub fn settle_step_result(step: SettleStep, swapped: bool) -> (r: Option<bool>)
    ensures
        r == settle_result(step, swapped),
{
    match step {
        SettleStep::Claimed => Some(true),
        SettleStep::Gone => Some(false),
        SettleStep::Withdraw => if swapped {
            Some(false)
        } else {
            None
        },
        SettleStep::Wait => None,
    }
}

/// The tempo of a buffer.
pub fn buffer_tempo(claimed: Option<Tempo>, stored: Tempo) -> (t: Tempo)
    ensures
        t == buffer_tempo_spec(claimed, stored),
{
    match claimed {
        Some(t) => t,
        None => stored,
    }
}

/// The outcome of one abort attempt: done when the word read no longer
/// shows the write, else whether the swap back succeeded.
pub open spec fn abort_result(write: TempoWriteGuard, state: u64, swapped: bool) -> bool {
    state != write.writing_state || swapped
}

} // verus!
