//! The scalar controls shared between the soft side and the audio
//! thread, and the audio side's consumer. Every word here is atomic
//! and may change under any read, so the contracts state what holds of
//! every value read; what is proved is that each step follows the slot
//! machine's declared transitions and that no arithmetic overflows.
//! Steps whose retry loops have no bound are single attempts here; the
//! caller repeats them.

use std::sync::Arc;
use std::sync::atomic::{AtomicU32, AtomicU64, Ordering};
use vstd::prelude::*;
use crate::bridge::slot::{
    claimed_tempo_state, lemma_pending_word, lemma_slot_encoding, next_generation, slot_of, slot_step,
    tempo_slot_state, tempo_state_generation, writing_tempo_state, TempoSlotEvent, TempoSlotState,
    CLAIMED_TEMPO_BIT, NO_PENDING_TEMPO, TEMPO_GENERATION_MASK, WRITING_TEMPO_BIT,
};
use crate::bridge::steps::{
    abort_result, begin_outcome, begin_step, begin_step_spec, buffer_tempo, buffer_tempo_spec, cancel_outcome, cancel_step,
    cancel_step_spec, claim_step, claim_step_spec, claimed_tempo, generation_from, publish_outcome, publish_step,
    publish_step_spec, settle_result, settle_step, settle_step_result, settle_step_spec, BeginStep, ClaimStep,
    PublishStep, SettleStep,
};
use crate::bridge::{next_epoch, classify_drain, drain_for_epoch, CommandEnvelope, ControlCommand, ControlParams, RtCommandDrain};
use crate::fxp::Tempo;

verus! {

/// How many times a publishing producer waits for the audio side
/// before it withdraws its tempo.
pub const TEMPO_PRODUCER_SETTLE_SPINS: usize = 64;

/// How many times the audio side retries claiming the tempo slot
/// before it keeps the last stable tempo.
pub const TEMPO_RT_CLAIM_RETRIES: usize = 8;

/// The outcome of one attempt at a step that may have to be repeated.
#[derive(Copy, Clone, Debug, PartialEq, Eq)]
pub enum SlotAttempt<T> {
    /// The step finished with this value.
    Done(T),
    /// Another write is in progress: pause, then try again.
    Spin,
    /// The slot changed under the attempt: try again at once.
    Retry,
}

/// A write a producer has opened on the tempo slot.
#[derive(Copy, Clone, Debug, PartialEq, Eq)]
pub struct TempoWriteGuard {
    /// The generation that was pending when the write opened (0: none).
    pub previous_generation: u64,
    /// The slot word to restore if the write is abandoned.
    pub previous_state: u64,
    /// The slot word while the write is open.
    pub writing_state: u64,
}

/// A guard is consistent: the writing word carries the previous
/// generation, and the word to restore is empty exactly when nothing
/// was pending, else that pending generation.
pub open spec fn guard_ok(w: TempoWriteGuard) -> bool {
    &&& w.previous_generation < WRITING_TEMPO_BIT
    &&& w.writing_state == WRITING_TEMPO_BIT | w.previous_generation
    &&& (w.previous_generation == 0) == (w.previous_state == NO_PENDING_TEMPO)
    &&& w.previous_generation != 0 ==> w.previous_state == w.previous_generation
}

/// The shared scalar controls: the current tempo, the tempo slot with
/// its pending, staged and backup values, and the buffer epochs.
pub struct SharedControlParams {
    tempo_raw: AtomicU32,
    pending_tempo_raw: AtomicU32,
    pending_tempo_deadline: AtomicU64,
    pending_tempo_state: AtomicU64,
    staged_tempo_raw: AtomicU32,
    staged_tempo_deadline: AtomicU64,
    backup_tempo_raw: AtomicU32,
    backup_tempo_deadline: AtomicU64,
    tempo_snapshot_epoch: AtomicU64,
    next_tempo_generation: AtomicU64,
    buffer_epoch: AtomicU64,
}

/// `AtomicU64::fetch_update` with a step that always succeeds: stores
/// `step(previous)` and returns the previous word. The word depends on
/// other threads, so nothing is promised of it.
#[verifier::external_body]
fn fetch_step<F: Fn(u64) -> u64>(a: &AtomicU64, step: F) -> u64 {
    match a.fetch_update(Ordering::AcqRel, Ordering::Acquire, |c| Some(step(c))) {
        Ok(v) => v,
        Err(v) => v,
    }
}

/// `std::hint::spin_loop`: a pause hint with no effect on values.
#[verifier::external_body]
fn spin_hint() {
    std::hint::spin_loop()
}

/// The epoch after `c`, saturating.
fn epoch_after(c: u64) -> (n: u64)
    ensures
        n == next_epoch(c),
{
    c.saturating_add(1)
}

impl SharedControlParams {
    /// Fresh controls at `tempo`: nothing pending, epoch 0, the next
    /// generation 1.
    pub fn new(tempo: Tempo) -> SharedControlParams {
        SharedControlParams {
            tempo_raw: AtomicU32::new(tempo.0),
            pending_tempo_raw: AtomicU32::new(tempo.0),
            pending_tempo_deadline: AtomicU64::new(0),
            pending_tempo_state: AtomicU64::new(NO_PENDING_TEMPO),
            staged_tempo_raw: AtomicU32::new(tempo.0),
            staged_tempo_deadline: AtomicU64::new(0),
            backup_tempo_raw: AtomicU32::new(tempo.0),
            backup_tempo_deadline: AtomicU64::new(0),
            tempo_snapshot_epoch: AtomicU64::new(0),
            next_tempo_generation: AtomicU64::new(1),
            buffer_epoch: AtomicU64::new(0),
        }
    }

    /// The latest stored tempo.
    pub fn tempo(&self) -> Tempo {
        Tempo(self.tempo_raw.load(Ordering::Acquire))
    }

    /// Store the latest tempo; the audio side sees it at its next
    /// snapshot.
    pub fn set_tempo(&self, tempo: Tempo) {
        self.tempo_raw.store(tempo.0, Ordering::Release);
    }

    /// The most recent buffer epoch the audio side published.
    pub fn current_buffer_epoch(&self) -> u64 {
        self.buffer_epoch.load(Ordering::Acquire)
    }

    /// The default deadline: the buffer after the current one.
    pub fn default_deadline_buffer(&self) -> (d: u64)
        ensures
            d >= 1,
    {
        epoch_after(self.current_buffer_epoch())
    }

    /// Record the tempo and deadline a producer is about to publish.
    pub fn stage_tempo(&self, tempo: Tempo, deadline: u64) {
        self.staged_tempo_raw.store(tempo.0, Ordering::Release);
        self.staged_tempo_deadline.store(deadline, Ordering::Release);
    }

    /// Take the next tempo generation: the counter's previous value (1
    /// if it was 0), the counter moving on to the generation after it.
    pub fn next_tempo_generation(&self) -> (g: u64)
        ensures
            g >= 1,
            exists|previous: u64| g == generation_from(previous),
    {
        let previous = fetch_step(&self.next_tempo_generation, next_generation);
        let g = if previous == 0 {
            1
        } else {
            previous
        };
        assert(g == generation_from(previous));
        g
    }

    /// One attempt to open a write on the tempo slot: the step
    /// [`begin_step`] decides on the word read; a pending tempo is first
    /// copied to the backup so the audio side can still claim it while
    /// the write is open.
    pub fn try_begin_tempo_write(&self) -> (r: SlotAttempt<TempoWriteGuard>)
        ensures
            r matches SlotAttempt::Done(w) ==> guard_ok(w),
            exists|state: u64, swapped: bool| r == begin_outcome(begin_step_spec(state), swapped),
    {
        let state = self.pending_tempo_state.load(Ordering::Acquire);
        match begin_step(state) {
            BeginStep::Spin => {
                assert(SlotAttempt::<TempoWriteGuard>::Spin == begin_outcome(begin_step_spec(state), true));
                SlotAttempt::Spin
            },
            BeginStep::Open(w) => {
                if w.previous_generation != 0 {
                    self.backup_tempo_raw.store(self.pending_tempo_raw.load(Ordering::Acquire), Ordering::Release);
                    self.backup_tempo_deadline.store(
                        self.pending_tempo_deadline.load(Ordering::Acquire),
                        Ordering::Release,
                    );
                }
                proof {
                    assert(slot_step(slot_of(state), TempoSlotEvent::BeginWrite) == Some(TempoSlotState::Writing));
                    lemma_slot_encoding(w.previous_generation);
                }
                match self.pending_tempo_state.compare_exchange(
                    state,
                    w.writing_state,
                    Ordering::AcqRel,
                    Ordering::Acquire,
                ) {
                    Ok(_) => {
                        assert(SlotAttempt::Done(w) == begin_outcome(begin_step_spec(state), true));
                        SlotAttempt::Done(w)
                    },
                    Err(_) => {
                        assert(SlotAttempt::<TempoWriteGuard>::Retry == begin_outcome(begin_step_spec(state), false));
                        SlotAttempt::Retry
                    },
                }
            },
        }
    }

    /// Set the pending tempo and its deadline.
    fn store_pending_tempo(&self, tempo: Tempo, deadline: u64) {
        self.pending_tempo_raw.store(tempo.0, Ordering::Release);
        self.pending_tempo_deadline.store(deadline, Ordering::Release);
    }

    /// One attempt to publish `tempo` as generation `generation`, due at
    /// `deadline`: the step [`publish_step`] decides on the slot word,
    /// the backup's deadline and the epoch read; going ahead stores the
    /// tempo and its deadline, then swaps in the generation.
    pub fn try_publish_tempo_write(
        &self,
        write: TempoWriteGuard,
        generation: u64,
        tempo: Tempo,
        deadline: u64,
    ) -> (r: SlotAttempt<bool>)
        requires
            guard_ok(write),
        ensures
            !(r is Spin),
            exists|state: u64, backup_deadline: u64, epoch: u64, swapped: bool|
                r == publish_outcome(publish_step_spec(write, state, backup_deadline, epoch, deadline), swapped),
    {
        let state = self.pending_tempo_state.load(Ordering::Acquire);
        let backup_deadline = self.backup_tempo_deadline.load(Ordering::Acquire);
        let epoch = self.current_buffer_epoch();
        match publish_step(write, state, backup_deadline, epoch, deadline) {
            PublishStep::Refuse => {
                assert(SlotAttempt::Done(false) == publish_outcome(
                    publish_step_spec(write, state, backup_deadline, epoch, deadline),
                    true,
                ));
                SlotAttempt::Done(false)
            },
            PublishStep::Swap => {
                self.store_pending_tempo(tempo, deadline);
                proof {
                    lemma_slot_encoding(write.previous_generation);
                    assert(slot_step(slot_of(state), TempoSlotEvent::PublishReplacement) == Some(
                        TempoSlotState::Pending,
                    ));
                }
                match self.pending_tempo_state.compare_exchange(
                    state,
                    generation,
                    Ordering::AcqRel,
                    Ordering::Acquire,
                ) {
                    Ok(_) => {
                        assert(SlotAttempt::Done(true) == publish_outcome(
                            publish_step_spec(write, state, backup_deadline, epoch, deadline),
                            true,
                        ));
                        SlotAttempt::Done(true)
                    },
                    Err(_) => {
                        assert(SlotAttempt::<bool>::Retry == publish_outcome(
                            publish_step_spec(write, state, backup_deadline, epoch, deadline),
                            false,
                        ));
                        SlotAttempt::Retry
                    },
                }
            },
        }
    }

    /// One attempt to abandon an open write, restoring the word it
    /// replaced: `true` when the slot word read no longer shows this
    /// write, else whether the swap back succeeded.
    pub fn try_abort_tempo_write(&self, write: TempoWriteGuard) -> (r: bool)
        requires
            guard_ok(write),
        ensures
            exists|state: u64, swapped: bool| r == abort_result(write, state, swapped),
    {
        let state = self.pending_tempo_state.load(Ordering::Acquire);
        if state != write.writing_state {
            assert(true == abort_result(write, state, false));
            return true;
        }
        let event = if write.previous_state == NO_PENDING_TEMPO {
            TempoSlotEvent::AbortToEmpty
        } else {
            TempoSlotEvent::AbortToPending
        };
        proof {
            lemma_slot_encoding(write.previous_generation);
            assert(slot_step(slot_of(state), event) == Some(slot_of(write.previous_state)));
        }
        let swapped = self.pending_tempo_state.compare_exchange(
            state,
            write.previous_state,
            Ordering::AcqRel,
            Ordering::Acquire,
        ).is_ok();
        assert(swapped == abort_result(write, state, swapped));
        swapped
    }

    /// Wait (boundedly) for the audio side to settle a tempo published
    /// as `generation` for buffer `deadline`: each round the step
    /// [`settle_step`] decides on the slot word and snapshot epoch read;
    /// `None` when the spins ran out (the caller then cancels it).
    pub fn settle_published_tempo_spins(&self, generation: u64, deadline: u64) -> (r: Option<bool>)
        ensures
            r is Some ==> exists|state: u64, snapshot_epoch: u64, swapped: bool|
                settle_result(settle_step_spec(generation, state, snapshot_epoch, deadline), swapped) == r,
    {
        let mut i: usize = 0;
        while i < TEMPO_PRODUCER_SETTLE_SPINS
            invariant
                i <= TEMPO_PRODUCER_SETTLE_SPINS,
            decreases TEMPO_PRODUCER_SETTLE_SPINS - i,
        {
            i += 1;
            let state = self.pending_tempo_state.load(Ordering::Acquire);
            let snapshot_epoch = self.tempo_snapshot_epoch.load(Ordering::Acquire);
            let step = settle_step(generation, state, snapshot_epoch, deadline);
            let swapped = match step {
                SettleStep::Withdraw => self.pending_tempo_state.compare_exchange(
                    generation,
                    NO_PENDING_TEMPO,
                    Ordering::AcqRel,
                    Ordering::Acquire,
                ).is_ok(),
                _ => false,
            };
            let out = settle_step_result(step, swapped);
            if out.is_some() {
                assert(settle_result(settle_step_spec(generation, state, snapshot_epoch, deadline), swapped) == out);
                return out;
            }
            if let SettleStep::Wait = step {
                spin_hint();
            }
        }
        None
    }

    /// One attempt to withdraw a published tempo: the step
    /// [`cancel_step`] decides on the slot word read; `Done(true)` if
    /// the audio side had claimed it, `Done(false)` if it was replaced
    /// or is now withdrawn.
    pub fn try_cancel_published_tempo(&self, generation: u64) -> (r: SlotAttempt<bool>)
        ensures
            exists|state: u64, swapped: bool| r == cancel_outcome(cancel_step_spec(generation, state), swapped),
    {
        let state = self.pending_tempo_state.load(Ordering::Acquire);
        let step = cancel_step(generation, state);
        let swapped = match step {
            SettleStep::Withdraw => self.pending_tempo_state.compare_exchange(
                generation,
                NO_PENDING_TEMPO,
                Ordering::AcqRel,
                Ordering::Acquire,
            ).is_ok(),
            _ => false,
        };
        let r = match settle_step_result(step, swapped) {
            Some(b) => SlotAttempt::Done(b),
            None => SlotAttempt::Retry,
        };
        assert(r == cancel_outcome(cancel_step_spec(generation, state), swapped));
        r
    }

    /// Empty a slot that is being written when the snapshot passes the
    /// staged deadline.
    fn mark_writing_snapshot_empty(&self, state: u64) -> bool
        requires
            slot_of(state) == TempoSlotState::Writing,
    {
        proof {
            assert(slot_step(TempoSlotState::Writing, TempoSlotEvent::MarkSnapshotEmpty) == Some(
                TempoSlotState::Empty,
            ));
        }
        self.pending_tempo_state.compare_exchange(
            state,
            NO_PENDING_TEMPO,
            Ordering::AcqRel,
            Ordering::Acquire,
        ).is_ok()
    }

    /// The audio side's claim of a tempo due by buffer `epoch`, with a
    /// bounded number of retries: each round the step [`claim_step`]
    /// decides on the slot word and the values read. A claimed tempo
    /// becomes the stored one and is returned; a stale pending tempo,
    /// or an open write whose staged deadline is reached, empties the
    /// slot; otherwise nothing is taken.
    fn consume_pending_tempo(&self, epoch: u64) -> (r: Option<Tempo>)
        ensures
            r matches Some(t) ==> exists|state: u64, pd: u64, pt: Tempo, sd: u64, bd: u64, bt: Tempo|
                claimed_tempo(claim_step_spec(epoch, state, pd, pt, sd, bd, bt)) == Some(t),
    {
        let mut i: usize = 0;
        while i < TEMPO_RT_CLAIM_RETRIES
            invariant
                i <= TEMPO_RT_CLAIM_RETRIES,
            decreases TEMPO_RT_CLAIM_RETRIES - i,
        {
            i += 1;
            let state = self.pending_tempo_state.load(Ordering::Acquire);
            let pending_deadline = self.pending_tempo_deadline.load(Ordering::Acquire);
            let pending_tempo = Tempo(self.pending_tempo_raw.load(Ordering::Acquire));
            let staged_deadline = self.staged_tempo_deadline.load(Ordering::Acquire);
            let backup_deadline = self.backup_tempo_deadline.load(Ordering::Acquire);
            let backup_tempo = Tempo(self.backup_tempo_raw.load(Ordering::Acquire));
            let step = claim_step(
                epoch,
                state,
                pending_deadline,
                pending_tempo,
                staged_deadline,
                backup_deadline,
                backup_tempo,
            );
            match step {
                ClaimStep::Keep => {
                    return None;
                },
                ClaimStep::ClearStale => {
                    proof {
                        assert(slot_step(TempoSlotState::Pending, TempoSlotEvent::ClearStale) == Some(
                            TempoSlotState::Empty,
                        ));
                    }
                    if self.pending_tempo_state.compare_exchange(
                        state,
                        NO_PENDING_TEMPO,
                        Ordering::AcqRel,
                        Ordering::Acquire,
                    ).is_ok() {
                        return None;
                    }
                },
                ClaimStep::MarkEmpty => {
                    if self.mark_writing_snapshot_empty(state) {
                        return None;
                    }
                },
                ClaimStep::Claim(word, tempo) => {
                    proof {
                        let g = state & TEMPO_GENERATION_MASK;
                        if slot_of(state) == TempoSlotState::Pending {
                            lemma_pending_word(state);
                        }
                        assert(state & 0x3fff_ffff_ffff_ffff < 0x4000_0000_0000_0000) by (bit_vector);
                        lemma_slot_encoding(g);
                        if slot_of(state) == TempoSlotState::Pending {
                            assert(slot_step(TempoSlotState::Pending, TempoSlotEvent::Claim) == Some(slot_of(word)));
                        } else {
                            assert(slot_step(TempoSlotState::Writing, TempoSlotEvent::ClaimBackup) == Some(
                                slot_of(word),
                            ));
                        }
                    }
                    if self.pending_tempo_state.compare_exchange(
                        state,
                        word,
                        Ordering::AcqRel,
                        Ordering::Acquire,
                    ).is_ok() {
                        self.tempo_raw.store(tempo.0, Ordering::Release);
                        assert(claimed_tempo(
                            claim_step_spec(
                                epoch,
                                state,
                                pending_deadline,
                                pending_tempo,
                                staged_deadline,
                                backup_deadline,
                                backup_tempo,
                            ),
                        ) == Some(tempo));
                        return Some(tempo);
                    }
                },
            }
        }
        None
    }

    /// Advance to the next buffer epoch (saturating) and read the
    /// tempo for it once: the tempo claimed from the slot for that
    /// epoch, else the latest stored tempo.
    pub fn begin_buffer(&self) -> (p: ControlParams)
        ensures
            p.buffer_epoch >= 1,
            exists|previous: u64| p.buffer_epoch == next_epoch(previous),
            exists|claimed: Option<Tempo>, stored: Tempo|
                p.tempo == buffer_tempo_spec(claimed, stored) && (claimed matches Some(t) ==> exists|
                    state: u64,
                    pd: u64,
                    pt: Tempo,
                    sd: u64,
                    bd: u64,
                    bt: Tempo,
                | claimed_tempo(claim_step_spec(p.buffer_epoch, state, pd, pt, sd, bd, bt)) == Some(t)),
    {
        let previous = fetch_step(&self.buffer_epoch, epoch_after);
        let epoch = epoch_after(previous);
        let claimed = self.consume_pending_tempo(epoch);
        let stored = Tempo(self.tempo_raw.load(Ordering::Acquire));
        let tempo = buffer_tempo(claimed, stored);
        self.tempo_snapshot_epoch.store(epoch, Ordering::Release);
        ControlParams { tempo, buffer_epoch: epoch }
    }

    /// The latest tempo and epoch, without advancing.
    pub fn snapshot(&self) -> ControlParams {
        ControlParams {
            tempo: Tempo(self.tempo_raw.load(Ordering::Acquire)),
            buffer_epoch: self.current_buffer_epoch(),
        }
    }
}

/// The consumer half of an `rtrb` ring buffer.
#[verifier::external_type_specification]
#[verifier::external_body]
#[verifier::reject_recursive_types(T)]
pub struct ExRtrbConsumer<T>(rtrb::Consumer<T>);

/// `rtrb::Consumer::pop`, as an `Option`: the oldest queued envelope,
/// or `None` when the queue is empty. What the queue holds depends on
/// the producer thread, so nothing is promised of the result.
#[verifier::external_body]
fn queue_pop(c: &mut rtrb::Consumer<CommandEnvelope>) -> Option<CommandEnvelope> {
    c.pop().ok()
}

/// The audio thread's end of the bridge: the shared controls, the
/// ordered command queue, and an envelope held back until its buffer.
pub struct ControlConsumer {
    shared: Arc<SharedControlParams>,
    consumer: rtrb::Consumer<CommandEnvelope>,
    deferred_command: Option<CommandEnvelope>,
}

impl ControlConsumer {
    /// An envelope held back for a later buffer, if any.
    pub closed spec fn deferred(&self) -> Option<CommandEnvelope> {
        self.deferred_command
    }

    /// The shared controls this consumer reads.
    pub closed spec fn shared_params(&self) -> Arc<SharedControlParams> {
        self.shared
    }

    /// The consumer half of the ordered command queue.
    pub closed spec fn queue(&self) -> rtrb::Consumer<CommandEnvelope> {
        self.consumer
    }

    /// The consumer over `shared` and the queue's consumer half, with
    /// nothing held back.
    pub fn from_parts(shared: Arc<SharedControlParams>, consumer: rtrb::Consumer<CommandEnvelope>) -> (c:
        ControlConsumer)
        ensures
            c.deferred() is None,
            c.shared_params() == shared,
            c.queue() == consumer,
    {
        ControlConsumer { shared, consumer, deferred_command: None }
    }

    /// Advance to the next buffer and read the controls for it once.
    pub fn begin_buffer(&self) -> (p: ControlParams)
        ensures
            p.buffer_epoch >= 1,
            exists|previous: u64| p.buffer_epoch == next_epoch(previous),
            exists|claimed: Option<Tempo>, stored: Tempo|
                p.tempo == buffer_tempo_spec(claimed, stored) && (claimed matches Some(t) ==> exists|
                    state: u64,
                    pd: u64,
                    pt: Tempo,
                    sd: u64,
                    bd: u64,
                    bt: Tempo,
                | claimed_tempo(claim_step_spec(p.buffer_epoch, state, pd, pt, sd, bd, bt)) == Some(t)),
    {
        self.shared.begin_buffer()
    }

    /// The latest controls, without advancing.
    pub fn snapshot(&self) -> ControlParams {
        self.shared.snapshot()
    }

    /// The current buffer epoch.
    pub fn current_buffer_epoch(&self) -> u64 {
        self.shared.current_buffer_epoch()
    }

    /// The next ordered envelope: the held-back one first, else the
    /// queue's oldest.
    pub fn try_pop(&mut self) -> (r: Option<CommandEnvelope>)
        ensures
            final(self).deferred() is None,
            old(self).deferred() is Some ==> r == old(self).deferred(),
    {
        match self.deferred_command.take() {
            Some(e) => Some(e),
            None => queue_pop(&mut self.consumer),
        }
    }

    /// The command of the next ordered envelope.
    pub fn try_pop_command(&mut self) -> (r: Option<ControlCommand>)
        ensures
            final(self).deferred() is None,
            old(self).deferred() matches Some(e) ==> r == Some(e.command),
    {
        match self.try_pop() {
            Some(e) => Some(e.command),
            None => None,
        }
    }

    /// The next envelope that is due at the current buffer: one due now
    /// is a `Command`, one past due a `MissedDeadline`; one not yet due
    /// is held back (`None`) and reported on a later call.
    pub fn drain_due_command(&mut self) -> (r: Option<RtCommandDrain>)
        ensures
            old(self).deferred() matches Some(e) ==> exists|epoch: u64|
                r == classify_drain(e, epoch) && final(self).deferred() == (if r is None {
                    Some(e)
                } else {
                    None
                }),
            r is Some ==> final(self).deferred() is None,
            final(self).deferred() matches Some(e) ==> r is None && exists|epoch: u64|
                #[trigger] classify_drain(e, epoch) is None,
    {
        let envelope = match self.try_pop() {
            Some(e) => e,
            None => {
                return None;
            },
        };
        let current_epoch = self.current_buffer_epoch();
        let r = drain_for_epoch(envelope, current_epoch);
        if r.is_none() {
            self.deferred_command = Some(envelope);
        }
        r
    }
}

} // verus!
