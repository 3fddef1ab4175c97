use host::application::app_state::{
    BonusStatus, CanBusStatus, CommunicationHealth, Court, PreparationPhase, PreparationStep,
};
use host::application::command::Reply;
use host::application::sequence::{Action, Side, Stage};
use host::application::worker::pad_guide::Guide;
use host::application::worker::DriveState;

#[test]
fn labels_shown_to_the_operator() {
    assert_eq!(Court::Red.label(), "赤コート");
    assert_eq!(Court::Blue.label(), "青コート");
    assert_eq!(Stage::All.label(), "３操作を連続実行");
    assert_eq!(Side::Left.label(), "左");
    assert_eq!(Action::Close.label(), "把持閉");
    assert_eq!(Stage::ALL.len(), 4);
    assert_eq!(Action::ALL.len(), 13);
    assert_eq!(Action::ALL[0], Action::WorkPosition);
}

#[test]
fn preparation_defaults_and_locks() {
    assert_eq!(PreparationStep::default(), PreparationStep::Court);
    assert_eq!(PreparationPhase::default(), PreparationPhase::Setting);
    assert_eq!(CommunicationHealth::default(), CommunicationHealth::Unknown);
    assert!(PreparationPhase::Waiting.locked());
    assert!(PreparationPhase::Recovery.locked());
    assert!(!PreparationPhase::Setting.locked());
    assert!(!PreparationPhase::Active.locked());
    let bus = CanBusStatus::default();
    assert_eq!(bus.bus, 0);
    assert!(bus.tx_failed.is_none());
    let bonus = BonusStatus::default();
    assert!(!bonus.active);
}

#[test]
fn replies_carry_their_outcome() {
    let r = Reply::accepted();
    assert!(r.ok);
    assert_eq!(r.message, "受付済み。基板の反映はstatusで確認してください");
    let d = Reply::data("{\"x\":1}".into());
    assert!(d.ok);
    assert_eq!(d.message, "確認済み");
    assert_eq!(d.data, "{\"x\":1}");
    let e = Reply::error("no".into());
    assert!(!e.ok);
    assert_eq!(e.message, "no");
    assert!(e.data.is_empty() && e.token.is_none());
}

#[test]
fn drive_state_and_guide() {
    assert!(DriveState::Running.running());
    assert!(!DriveState::AwaitingRun(5).running());
    assert_eq!(DriveState::AwaitingRun(5).awaiting(), Some(5));
    assert_eq!(DriveState::Stopped.awaiting(), None);
    let mut guide = Guide::default();
    assert!(guide.enabled);
    assert!(!guide.restart_pending());
    guide.confirmed = true;
    guide.reset_input();
    assert!(!guide.confirmed);
    assert!(guide.enabled);
}
