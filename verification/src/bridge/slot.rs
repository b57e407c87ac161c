//! The tempo hand-off slot: a four-state machine, and its encoding in
//! one 64-bit word (0 empty; a generation alone pending; the writing or
//! claimed bit over a generation).

use vstd::prelude::*;

verus! {

/// The word of an empty slot.
pub const NO_PENDING_TEMPO: u64 = 0;

/// Set while a producer is writing the slot.
pub const WRITING_TEMPO_BIT: u64 = 0x4000_0000_0000_0000;

/// Set once the audio side has taken the pending tempo.
pub const CLAIMED_TEMPO_BIT: u64 = 0x8000_0000_0000_0000;

/// The generation bits of a slot word.
pub const TEMPO_GENERATION_MASK: u64 = 0x3fff_ffff_ffff_ffff;

/// The states of the tempo slot.
#[derive(Copy, Clone, Debug, PartialEq, Eq, Structural)]
pub enum TempoSlotState {
    Empty,
    Pending,
    Writing,
    Claimed,
}

/// What can happen to the tempo slot.
#[derive(Copy, Clone, Debug, PartialEq, Eq, Structural)]
pub enum TempoSlotEvent {
    BeginWrite,
    MarkSnapshotEmpty,
    Claim,
    ClearStale,
    PublishReplacement,
    AbortToEmpty,
    AbortToPending,
    ClaimBackup,
}

/// The declared transitions of the slot; `None` where an event is not
/// declared for a state.
pub open spec fn slot_step(s: TempoSlotState, e: TempoSlotEvent) -> Option<TempoSlotState> {
    match s {
        TempoSlotState::Empty => match e {
            TempoSlotEvent::BeginWrite => Some(TempoSlotState::Writing),
            TempoSlotEvent::MarkSnapshotEmpty => Some(TempoSlotState::Empty),
            _ => None,
        },
        TempoSlotState::Pending => match e {
            TempoSlotEvent::BeginWrite => Some(TempoSlotState::Writing),
            TempoSlotEvent::Claim => Some(TempoSlotState::Claimed),
            TempoSlotEvent::ClearStale => Some(TempoSlotState::Empty),
            _ => None,
        },
        TempoSlotState::Writing => match e {
            TempoSlotEvent::PublishReplacement => Some(TempoSlotState::Pending),
            TempoSlotEvent::AbortToEmpty => Some(TempoSlotState::Empty),
            TempoSlotEvent::AbortToPending => Some(TempoSlotState::Pending),
            TempoSlotEvent::ClaimBackup => Some(TempoSlotState::Claimed),
            TempoSlotEvent::MarkSnapshotEmpty => Some(TempoSlotState::Empty),
            _ => None,
        },
        TempoSlotState::Claimed => match e {
            TempoSlotEvent::BeginWrite => Some(TempoSlotState::Writing),
            TempoSlotEvent::PublishReplacement => Some(TempoSlotState::Pending),
            TempoSlotEvent::AbortToEmpty => Some(TempoSlotState::Empty),
            _ => None,
        },
    }
}

/// The state after `event`, which must be declared for `state`.
pub fn tempo_slot_transition(state: TempoSlotState, event: TempoSlotEvent) -> (r: TempoSlotState)
    requires
        slot_step(state, event) is Some,
    ensures
        slot_step(state, event) == Some(r),
{
    match state {
        TempoSlotState::Empty => match event {
            TempoSlotEvent::BeginWrite => TempoSlotState::Writing,
            _ => TempoSlotState::Empty,
        },
        TempoSlotState::Pending => match event {
            TempoSlotEvent::BeginWrite => TempoSlotState::Writing,
            TempoSlotEvent::Claim => TempoSlotState::Claimed,
            _ => TempoSlotState::Empty,
        },
        TempoSlotState::Writing => match event {
            TempoSlotEvent::PublishReplacement => TempoSlotState::Pending,
            TempoSlotEvent::AbortToPending => TempoSlotState::Pending,
            TempoSlotEvent::ClaimBackup => TempoSlotState::Claimed,
            _ => TempoSlotState::Empty,
        },
        TempoSlotState::Claimed => match event {
            TempoSlotEvent::BeginWrite => TempoSlotState::Writing,
            TempoSlotEvent::PublishReplacement => TempoSlotState::Pending,
            _ => TempoSlotState::Empty,
        },
    }
}

/// The state a slot word encodes: zero is empty; the claimed bit wins
/// over the writing bit; a bare generation is pending.
pub open spec fn slot_of(word: u64) -> TempoSlotState {
    if word == NO_PENDING_TEMPO {
        TempoSlotState::Empty
    } else if word & CLAIMED_TEMPO_BIT != 0 {
        TempoSlotState::Claimed
    } else if word & WRITING_TEMPO_BIT != 0 {
        TempoSlotState::Writing
    } else {
        TempoSlotState::Pending
    }
}

/// The state a slot word encodes.
pub fn tempo_slot_state(word: u64) -> (s: TempoSlotState)
    ensures
        s == slot_of(word),
{
    if word == NO_PENDING_TEMPO {
        TempoSlotState::Empty
    } else if word & CLAIMED_TEMPO_BIT != 0 {
        TempoSlotState::Claimed
    } else if word & WRITING_TEMPO_BIT != 0 {
        TempoSlotState::Writing
    } else {
        TempoSlotState::Pending
    }
}

/// The generation a slot word carries.
pub fn tempo_state_generation(word: u64) -> (g: u64)
    ensures
        g == word & TEMPO_GENERATION_MASK,
        g < WRITING_TEMPO_BIT,
{
    let g = word & TEMPO_GENERATION_MASK;
    assert(word & 0x3fff_ffff_ffff_ffff < 0x4000_0000_0000_0000) by (bit_vector);
    g
}

/// The word of a slot being written over `generation` (0: nothing was
/// pending).
pub fn writing_tempo_state(generation: u64) -> (w: u64)
    ensures
        w == WRITING_TEMPO_BIT | generation,
{
    WRITING_TEMPO_BIT | generation
}

/// The word of a slot whose `generation` the audio side has taken.
pub fn claimed_tempo_state(generation: u64) -> (w: u64)
    ensures
        w == CLAIMED_TEMPO_BIT | generation,
{
    CLAIMED_TEMPO_BIT | generation
}

/// The generation after `current`: one more, wrapping to 1 before it
/// would reach the writing bit.
pub open spec fn next_generation_spec(current: u64) -> u64 {
    if current < WRITING_TEMPO_BIT - 1 {
        (current + 1) as u64
    } else {
        1
    }
}

/// The generation after `current`.
pub fn next_generation(current: u64) -> (n: u64)
    ensures
        n == next_generation_spec(current),
{
    match current.checked_add(1) {
        Some(next) => if next != 0 && next < WRITING_TEMPO_BIT {
            next
        } else {
            1
        },
        None => 1,
    }
}

/// Every generation the counter hands out is a valid pending word.
pub proof fn lemma_next_generation_pending(current: u64)
    ensures
        1 <= next_generation_spec(current) < WRITING_TEMPO_BIT,
        slot_of(next_generation_spec(current)) == TempoSlotState::Pending,
{
    lemma_slot_encoding(next_generation_spec(current));
}

/// The encoding round trip: for a generation below the writing bit,
/// its writing and claimed words decode to those states and give the
/// generation back, and a non-zero generation alone is pending.
pub proof fn lemma_slot_encoding(g: u64)
    requires
        g < WRITING_TEMPO_BIT,
    ensures
        slot_of(WRITING_TEMPO_BIT | g) == TempoSlotState::Writing,
        (WRITING_TEMPO_BIT | g) & TEMPO_GENERATION_MASK == g,
        slot_of(CLAIMED_TEMPO_BIT | g) == TempoSlotState::Claimed,
        (CLAIMED_TEMPO_BIT | g) & TEMPO_GENERATION_MASK == g,
        g != 0 ==> slot_of(g) == TempoSlotState::Pending,
        g & TEMPO_GENERATION_MASK == g,
{
    assert(g < 0x4000_0000_0000_0000 ==> {
        &&& (0x4000_0000_0000_0000u64 | g) != 0
        &&& (0x4000_0000_0000_0000u64 | g) & 0x8000_0000_0000_0000u64 == 0
        &&& (0x4000_0000_0000_0000u64 | g) & 0x4000_0000_0000_0000u64 != 0
        &&& (0x4000_0000_0000_0000u64 | g) & 0x3fff_ffff_ffff_ffffu64 == g
        &&& (0x8000_0000_0000_0000u64 | g) != 0
        &&& (0x8000_0000_0000_0000u64 | g) & 0x8000_0000_0000_0000u64 != 0
        &&& (0x8000_0000_0000_0000u64 | g) & 0x3fff_ffff_ffff_ffffu64 == g
        &&& g & 0x8000_0000_0000_0000u64 == 0
        &&& g & 0x4000_0000_0000_0000u64 == 0
        &&& g & 0x3fff_ffff_ffff_ffffu64 == g
    }) by (bit_vector);
}

/// A pending word is its own generation, non-zero and below the
/// writing bit.
pub proof fn lemma_pending_word(w: u64)
    requires
        slot_of(w) == TempoSlotState::Pending,
    ensures
        w & TEMPO_GENERATION_MASK == w,
        0 < w < WRITING_TEMPO_BIT,
{
    assert(w != 0 && w & 0x8000_0000_0000_0000u64 == 0 && w & 0x4000_0000_0000_0000u64 == 0 ==> {
        &&& w & 0x3fff_ffff_ffff_ffffu64 == w
        &&& w < 0x4000_0000_0000_0000u64
    }) by (bit_vector);
}

} // verus!
