use host::application::app_state::PreparationPhase;
use host::application::worker::link::{watch, LinkAction, LinkState};
use host::application::worker::DriveState;

fn answering() -> LinkState {
    LinkState {
        receiving: true,
        fresh: true,
        failed: false,
        device: true,
        expected_layout: true,
        setup: true,
        drive: DriveState::Stopped,
        preparation: PreparationPhase::Setting,
    }
}

#[test]
fn a_silent_link_is_dropped_and_recovers_when_it_answers() {
    let mut s = LinkState {
        fresh: false,
        drive: DriveState::Running,
        preparation: PreparationPhase::Waiting,
        ..answering()
    };
    assert_eq!(watch(&mut s, 1_000), [LinkAction::CommunicationFailed]);
    assert!(s.failed && !s.receiving && !s.device && !s.setup);
    assert_eq!(s.drive, DriveState::Stopped);
    assert_eq!(s.preparation, PreparationPhase::Recovery);
    assert!(watch(&mut s, 1_100).is_empty());
    s.receiving = true;
    s.fresh = true;
    s.device = true;
    assert_eq!(watch(&mut s, 1_200), [LinkAction::SetUp, LinkAction::Recovered]);
    assert!(s.setup && !s.failed);
}

#[test]
fn first_contact_sets_only_the_expected_board_safe() {
    let mut s = LinkState { setup: false, ..answering() };
    assert_eq!(watch(&mut s, 0), [LinkAction::SetUp]);
    assert!(watch(&mut s, 10).is_empty());
    let mut other = LinkState { setup: false, expected_layout: false, ..answering() };
    assert!(watch(&mut other, 0).is_empty());
    assert!(!other.setup);
}

#[test]
fn a_run_must_be_confirmed_within_500_ms() {
    let mut s = LinkState {
        drive: DriveState::AwaitingRun(1_000),
        preparation: PreparationPhase::Active,
        ..answering()
    };
    assert!(watch(&mut s, 1_500).is_empty());
    assert_eq!(s.drive, DriveState::AwaitingRun(1_000));
    assert_eq!(watch(&mut s, 1_501), [LinkAction::RunUnconfirmed]);
    assert_eq!(s.drive, DriveState::Stopped);
    assert_eq!(s.preparation, PreparationPhase::Recovery);
}
