use std::sync::Arc;

use agogo_core::bridge::shared::{ControlConsumer, SharedControlParams, SlotAttempt};
use agogo_core::bridge::slot::{
    claimed_tempo_state, next_generation, tempo_slot_state, tempo_slot_transition, tempo_state_generation,
    writing_tempo_state, TempoSlotEvent, TempoSlotState, WRITING_TEMPO_BIT,
};
use agogo_core::bridge::{
    bridge_result_for_outcome, drain_for_epoch, ordered_precheck, reject_if_not_admissible, tempo_admission_outcome,
    tempo_key_check, tempo_needs_settle,
    AdmissionMetadata, AdmissionOutcome, AdmissionRejectReason, AdmissionStatus, BridgeError, CoalesceKey,
    CommandDeadline, CommandEnvelope, CommandId, CommandTimeDomain, ControlCommand, RtCommandDrain, SourceId,
};
use agogo_core::fxp::Tempo;

fn metadata(id: u64, deadline: u64) -> AdmissionMetadata {
    AdmissionMetadata {
        command_id: CommandId(id),
        source_id: SourceId::default(),
        deadline: CommandDeadline::rt_buffer(deadline),
        coalesce_key: None,
    }
}

#[test]
fn fixed_texts_keep_their_characters() {
    assert_eq!(SourceId::default().as_str(), "agogo.driver");
    assert_eq!(SourceId::new("caller é").unwrap().as_str(), "caller é");
    assert!(SourceId::new(&"x".repeat(64)).is_some());
    assert!(SourceId::new(&"x".repeat(65)).is_none());
    assert!(SourceId::new(&"é".repeat(33)).is_none());
    assert_eq!(CoalesceKey::tempo().as_str(), "tempo");
    assert!(CoalesceKey::tempo().is_tempo());
    assert!(!CoalesceKey::new("transport").unwrap().is_tempo());
    assert_eq!(CommandId(7).get(), 7);
}

#[test]
fn time_domain_names_round_trip() {
    for d in [
        CommandTimeDomain::RtBuffer,
        CommandTimeDomain::HostTime,
        CommandTimeDomain::Tick,
        CommandTimeDomain::Link,
        CommandTimeDomain::Unknown,
    ] {
        assert_eq!(CommandTimeDomain::parse(d.as_str()), d);
    }
    assert_eq!(CommandTimeDomain::parse("florble"), CommandTimeDomain::Unknown);
    assert_eq!(AdmissionStatus::Late.as_str(), "late");
    assert_eq!(AdmissionRejectReason::UnsupportedTimeDomain.as_str(), "unsupported_time_domain");
}

#[test]
fn metadata_deadlines_saturate() {
    let m = AdmissionMetadata::next_buffer(CommandId(1), SourceId::default(), u64::MAX);
    assert_eq!(m.deadline.buffer, u64::MAX);
    let t = AdmissionMetadata::tempo(CommandId(1), SourceId::default(), 41);
    assert_eq!(t.deadline, CommandDeadline::rt_buffer(42));
    assert_eq!(t.coalesce_key, Some(CoalesceKey::tempo()));
}

#[test]
fn admission_checks_refuse_in_order() {
    let mut host = metadata(1, 10);
    host.deadline.time_domain = CommandTimeDomain::HostTime;
    assert_eq!(
        reject_if_not_admissible(host, 20),
        Some(AdmissionOutcome::rejected(host, AdmissionRejectReason::UnsupportedTimeDomain))
    );
    assert_eq!(reject_if_not_admissible(metadata(1, 10), 10), Some(AdmissionOutcome::late(metadata(1, 10))));
    assert_eq!(reject_if_not_admissible(metadata(1, 11), 10), None);
    let mut keyed = metadata(2, 11);
    keyed.coalesce_key = CoalesceKey::new("transport");
    assert_eq!(
        ordered_precheck(keyed, 10),
        Some(AdmissionOutcome::rejected(keyed, AdmissionRejectReason::UnsupportedCommandClass))
    );
    assert_eq!(ordered_precheck(metadata(3, 11), 10), None);
    assert!(tempo_key_check(AdmissionMetadata::tempo(CommandId(4), SourceId::default(), 0)).is_none());
    assert_eq!(tempo_key_check(keyed).unwrap().reason, Some(AdmissionRejectReason::UnsupportedCommandClass));
}

#[test]
fn outcomes_map_to_bridge_errors() {
    let m = metadata(1, 1);
    assert_eq!(bridge_result_for_outcome(AdmissionOutcome::accepted(m)), Ok(()));
    assert_eq!(bridge_result_for_outcome(AdmissionOutcome::late(m)), Err(BridgeError::Late));
    assert_eq!(
        bridge_result_for_outcome(AdmissionOutcome::rejected(m, AdmissionRejectReason::QueueFull)),
        Err(BridgeError::QueueFull)
    );
    assert_eq!(BridgeError::QueueFull.message(), "agogo control queue is full");
    assert!(AdmissionOutcome::accepted(m).is_accepted());
}

#[test]
fn drains_classify_by_deadline() {
    let e = CommandEnvelope { metadata: metadata(1, 5), command: ControlCommand::Start };
    assert_eq!(drain_for_epoch(e, 4), None);
    assert_eq!(drain_for_epoch(e, 5), Some(RtCommandDrain::Command(e)));
    assert_eq!(drain_for_epoch(e, 6), Some(RtCommandDrain::MissedDeadline(e)));
}

#[test]
fn slot_machine_and_encoding_agree() {
    for g in [0u64, 1, 17, WRITING_TEMPO_BIT - 1] {
        assert_eq!(tempo_slot_state(writing_tempo_state(g)), TempoSlotState::Writing);
        assert_eq!(tempo_state_generation(writing_tempo_state(g)), g);
        assert_eq!(tempo_slot_state(claimed_tempo_state(g)), TempoSlotState::Claimed);
        assert_eq!(tempo_state_generation(claimed_tempo_state(g)), g);
    }
    assert_eq!(tempo_slot_state(0), TempoSlotState::Empty);
    assert_eq!(tempo_slot_state(5), TempoSlotState::Pending);
    assert_eq!(tempo_slot_transition(TempoSlotState::Pending, TempoSlotEvent::Claim), TempoSlotState::Claimed);
    assert_eq!(tempo_slot_transition(TempoSlotState::Writing, TempoSlotEvent::AbortToPending), TempoSlotState::Pending);
    assert_eq!(next_generation(1), 2);
    assert_eq!(next_generation(WRITING_TEMPO_BIT - 1), 1);
    assert_eq!(next_generation(u64::MAX), 1);
}

fn pair(capacity: usize) -> (Arc<SharedControlParams>, rtrb::Producer<CommandEnvelope>, ControlConsumer) {
    let (producer, consumer) = rtrb::RingBuffer::new(capacity);
    let shared = Arc::new(SharedControlParams::new(Tempo::from_bpm_integer(120)));
    let c = ControlConsumer::from_parts(Arc::clone(&shared), consumer);
    (shared, producer, c)
}

#[test]
fn published_tempo_is_taken_at_its_buffer() {
    let (shared, _p, consumer) = pair(4);
    shared.stage_tempo(Tempo::from_bpm_integer(140), 1);
    let g = shared.next_tempo_generation();
    let write = match shared.try_begin_tempo_write() {
        SlotAttempt::Done(w) => w,
        _ => panic!("an empty slot opens at once"),
    };
    assert_eq!(shared.try_publish_tempo_write(write, g, Tempo::from_bpm_integer(140), 1), SlotAttempt::Done(true));
    let params = consumer.begin_buffer();
    assert_eq!(params.buffer_epoch, 1);
    assert_eq!(params.tempo, Tempo::from_bpm_integer(140));
    assert_eq!(shared.settle_published_tempo_spins(g, 1), Some(true));
}

#[test]
fn consumer_holds_back_future_commands() {
    let (_shared, mut producer, mut consumer) = pair(4);
    let later = CommandEnvelope { metadata: metadata(1, 2), command: ControlCommand::Stop };
    producer.push(later).unwrap();
    assert_eq!(consumer.begin_buffer().buffer_epoch, 1);
    assert_eq!(consumer.drain_due_command(), None);
    assert_eq!(consumer.begin_buffer().buffer_epoch, 2);
    assert_eq!(consumer.drain_due_command(), Some(RtCommandDrain::Command(later)));
    assert_eq!(consumer.try_pop_command(), None);
}

#[test]
fn tempo_admission_after_publish() {
    let m = metadata(7, 5);
    let late = tempo_admission_outcome(m, false, false, false);
    assert_eq!(late.status, AdmissionStatus::Late);
    assert_eq!(late.reason, Some(AdmissionRejectReason::LateDeadline));
    let unsettled = tempo_admission_outcome(m, true, true, false);
    assert_eq!(unsettled.status, AdmissionStatus::Late);
    let settled = tempo_admission_outcome(m, true, true, true);
    assert_eq!(settled.status, AdmissionStatus::Accepted);
    assert_eq!(settled.reason, None);
    let no_settle_needed = tempo_admission_outcome(m, true, false, false);
    assert_eq!(no_settle_needed.status, AdmissionStatus::Accepted);
    assert_eq!(no_settle_needed.metadata, m);
}

#[test]
fn tempo_settle_is_needed_once_the_deadline_buffer_has_come() {
    assert!(tempo_needs_settle(metadata(1, 5), 5));
    assert!(tempo_needs_settle(metadata(1, 5), 6));
    assert!(!tempo_needs_settle(metadata(1, 5), 4));
}
