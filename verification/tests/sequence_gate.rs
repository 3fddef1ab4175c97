use host::application::worker::readiness::ReadyError;
use host::application::worker::sequence_gate::{
    sequence_gate, start_check, SequenceError, SequenceRoute, StartRefusal,
};

#[test]
fn sequence_requests_follow_the_run_state() {
    assert_eq!(sequence_gate(false, "sequence_apply", true), Ok(SequenceRoute::Apply));
    assert_eq!(sequence_gate(true, "sequence_apply", true), Err(SequenceError::StopToApply));
    assert_eq!(sequence_gate(false, "sequence_apply", false), Err(SequenceError::TextRequired));
    assert_eq!(sequence_gate(true, "sequence_load", false), Err(SequenceError::ReloadAfterRun));
    assert_eq!(sequence_gate(false, "sequence_load", false), Ok(SequenceRoute::Load));
    assert_eq!(sequence_gate(true, "sequence_save", false), Ok(SequenceRoute::Save));
    assert_eq!(sequence_gate(true, "sequence_start", true), Err(SequenceError::Running));
    assert_eq!(sequence_gate(false, "sequence_start", false), Err(SequenceError::StartRequired));
    assert_eq!(sequence_gate(false, "sequence_start", true), Ok(SequenceRoute::Start));
    assert_eq!(sequence_gate(false, "sequence_stop", true), Err(SequenceError::Unsupported));
    assert_eq!(SequenceError::Running.message(), "シーケンス実行中です");
}

#[test]
fn a_run_starts_only_after_every_check() {
    let ok: Result<(), u8> = Ok(());
    assert_eq!(start_check(0, Err(ReadyError::NoAnswer), Err(1u8), true), Err(StartRefusal::NoSteps));
    assert_eq!(
        start_check(2, Err(ReadyError::NoAnswer), Err(1u8), true),
        Err(StartRefusal::NotReady(ReadyError::NoAnswer))
    );
    assert_eq!(start_check(2, Ok(()), Err(1u8), true), Err(StartRefusal::Axis(1)));
    assert_eq!(start_check(2, Ok(()), ok, true), Err(StartRefusal::Busy));
    assert_eq!(start_check(2, Ok(()), ok, false), Ok(()));
}
