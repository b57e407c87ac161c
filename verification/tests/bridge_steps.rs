use agogo_core::bridge::shared::TempoWriteGuard;
use agogo_core::bridge::slot::{CLAIMED_TEMPO_BIT, NO_PENDING_TEMPO, WRITING_TEMPO_BIT};
use agogo_core::bridge::steps::{
    begin_step, buffer_tempo, cancel_step, claim_step, publish_step, settle_step, settle_step_result, BeginStep,
    ClaimStep, PublishStep, SettleStep,
};
use agogo_core::fxp::Tempo;

fn bpm(n: u32) -> Tempo {
    Tempo::from_bpm_integer(n)
}

#[test]
fn opening_a_write_keeps_the_pending_generation() {
    assert_eq!(begin_step(WRITING_TEMPO_BIT | 3), BeginStep::Spin);
    assert_eq!(
        begin_step(7),
        BeginStep::Open(TempoWriteGuard {
            previous_generation: 7,
            previous_state: 7,
            writing_state: WRITING_TEMPO_BIT | 7,
        })
    );
    let fresh = TempoWriteGuard {
        previous_generation: 0,
        previous_state: NO_PENDING_TEMPO,
        writing_state: WRITING_TEMPO_BIT,
    };
    assert_eq!(begin_step(NO_PENDING_TEMPO), BeginStep::Open(fresh));
    assert_eq!(begin_step(CLAIMED_TEMPO_BIT | 5), BeginStep::Open(fresh));
}

#[test]
fn publishing_follows_the_write_and_the_deadlines() {
    let over = TempoWriteGuard { previous_generation: 4, previous_state: 4, writing_state: WRITING_TEMPO_BIT | 4 };
    // Our write, backup not yet due: go ahead.
    assert_eq!(publish_step(over, WRITING_TEMPO_BIT | 4, 5, 2, 9), PublishStep::Swap);
    // Our write, but the backed-up tempo is already due: refuse.
    assert_eq!(publish_step(over, WRITING_TEMPO_BIT | 4, 2, 2, 9), PublishStep::Refuse);
    // The audio side claimed the previous tempo: go ahead only before our deadline.
    assert_eq!(publish_step(over, CLAIMED_TEMPO_BIT | 4, 0, 2, 3), PublishStep::Swap);
    assert_eq!(publish_step(over, CLAIMED_TEMPO_BIT | 4, 0, 3, 3), PublishStep::Refuse);
    // The write was lost.
    assert_eq!(publish_step(over, 9, 0, 0, 9), PublishStep::Refuse);
}

#[test]
fn settling_and_cancelling_read_the_slot() {
    assert_eq!(settle_step(6, CLAIMED_TEMPO_BIT | 6, 0, 1), SettleStep::Claimed);
    assert_eq!(settle_step(6, 7, 0, 1), SettleStep::Gone);
    assert_eq!(settle_step(6, 6, 1, 1), SettleStep::Withdraw);
    assert_eq!(settle_step(6, 6, 0, 1), SettleStep::Wait);
    assert_eq!(cancel_step(6, 6), SettleStep::Withdraw);
    assert_eq!(settle_step_result(SettleStep::Withdraw, true), Some(false));
    assert_eq!(settle_step_result(SettleStep::Withdraw, false), None);
    assert_eq!(settle_step_result(SettleStep::Claimed, false), Some(true));
}

#[test]
fn audio_side_claims_the_backup_during_an_open_write() {
    // A write of 140 BPM is open over pending generation 1 (130 BPM, due at 1).
    let step = claim_step(1, WRITING_TEMPO_BIT | 1, 9, bpm(140), 1, 1, bpm(130));
    assert_eq!(step, ClaimStep::Claim(CLAIMED_TEMPO_BIT | 1, bpm(130)));
    // A pending tempo due now is claimed; a stale one is cleared.
    assert_eq!(claim_step(2, 3, 2, bpm(150), 0, 0, bpm(0)), ClaimStep::Claim(CLAIMED_TEMPO_BIT | 3, bpm(150)));
    assert_eq!(claim_step(2, 3, 1, bpm(150), 0, 0, bpm(0)), ClaimStep::ClearStale);
    // An open write with nothing backed up empties the slot once its staged deadline is reached.
    assert_eq!(claim_step(2, WRITING_TEMPO_BIT, 0, bpm(0), 2, 0, bpm(0)), ClaimStep::MarkEmpty);
    assert_eq!(claim_step(2, WRITING_TEMPO_BIT, 0, bpm(0), 3, 0, bpm(0)), ClaimStep::Keep);
    assert_eq!(claim_step(2, CLAIMED_TEMPO_BIT | 3, 9, bpm(150), 0, 0, bpm(0)), ClaimStep::Keep);
    assert_eq!(buffer_tempo(Some(bpm(130)), bpm(120)), bpm(130));
    assert_eq!(buffer_tempo(None, bpm(120)), bpm(120));
}
