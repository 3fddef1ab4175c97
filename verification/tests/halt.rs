use host::application::app_state::PreparationPhase;
use host::application::worker::halt::{
    fault_phase, halt, keep_hold_on_config_failure, log_link_loss, z_hold, HaltAction, HaltState,
    HoldError, HoldState,
};

fn running() -> HaltState {
    HaltState {
        phase: PreparationPhase::Active,
        fresh: true,
        awaiting_run: false,
        test_enabled: false,
        homing: false,
        sts_active: false,
        ee_targets: false,
        bonus_outputs: false,
        running: true,
    }
}

#[test]
fn an_ordinary_stop_holds_a_running_machine() {
    let p = halt(running(), false);
    assert!(!p.cut);
    assert_eq!(p.actions, vec![HaltAction::Hold]);
    assert_eq!(p.reason, "停止・保持中。再開操作を待っています");
    assert_eq!(p.phase, PreparationPhase::Active);
    let p = halt(HaltState { ee_targets: true, ..running() }, false);
    assert_eq!(p.actions, vec![HaltAction::Hold, HaltAction::Peripherals]);
    let p = halt(HaltState { running: false, ..running() }, false);
    assert!(p.actions.is_empty());
}

#[test]
fn a_cut_sends_stop_and_stops_the_peripherals() {
    let p = halt(running(), true);
    assert!(p.cut);
    assert_eq!(p.actions, vec![HaltAction::Cut, HaltAction::Peripherals]);
    assert_eq!(p.reason, "全トルク解除。原点と姿勢を確認して再開");
    for forced in [
        HaltState { awaiting_run: true, ..running() },
        HaltState { test_enabled: true, ..running() },
        HaltState { homing: true, ..running() },
    ] {
        let p = halt(forced, false);
        assert!(p.cut);
        assert_eq!(p.actions, vec![HaltAction::Cut, HaltAction::Peripherals]);
    }
}

#[test]
fn a_stale_report_still_sends_stop() {
    let p = halt(HaltState { fresh: false, sts_active: true, ..running() }, false);
    assert!(!p.cut);
    assert_eq!(
        p.actions,
        vec![HaltAction::Cut, HaltAction::Peripherals, HaltAction::Peripherals]
    );
}

#[test]
fn stopping_while_waiting_recovers_the_preparation() {
    let p = halt(HaltState { phase: PreparationPhase::Waiting, ..running() }, false);
    assert_eq!(p.phase, PreparationPhase::Recovery);
    assert_eq!(fault_phase(PreparationPhase::Setting), PreparationPhase::Setting);
    assert_eq!(fault_phase(PreparationPhase::Active), PreparationPhase::Recovery);
    assert_eq!(fault_phase(PreparationPhase::Waiting), PreparationPhase::Recovery);
}

#[test]
fn a_repeated_link_loss_is_logged_once() {
    let cause = "USB disconnected".to_string();
    assert!(log_link_loss(&None, &cause));
    assert!(!log_link_loss(&Some(cause.clone()), &cause));
    assert!(log_link_loss(&Some("timeout".to_string()), &cause));
}


fn holdable() -> HoldState {
    HoldState {
        emergency: false,
        fresh: true,
        report: true,
        hold_supported: true,
        stale_slots: 0,
        z_slot: Some(2),
    }
}

#[test]
fn z_hold_names_the_z_slot() {
    assert_eq!(z_hold(holdable()).unwrap(), "HOLD 4");
    assert_eq!(z_hold(HoldState { z_slot: Some(0), ..holdable() }).unwrap(), "HOLD 1");
}

#[test]
fn z_hold_refusals_come_in_order() {
    assert_eq!(z_hold(HoldState { emergency: true, fresh: false, ..holdable() }), Err(HoldError::Emergency));
    assert_eq!(HoldError::Emergency.message(), "緊停中はz保持を有効化できません");
    assert_eq!(z_hold(HoldState { fresh: false, ..holdable() }), Err(HoldError::NoAnswer));
    assert_eq!(z_hold(HoldState { hold_supported: false, ..holdable() }), Err(HoldError::Unsupported));
    assert_eq!(z_hold(HoldState { z_slot: None, ..holdable() }), Err(HoldError::NoZ));
    assert_eq!(z_hold(HoldState { stale_slots: 4, ..holdable() }), Err(HoldError::NoFeedback));
    assert_eq!(HoldError::NoFeedback.message(), "zのフィードバックがありません");
}

#[test]
fn a_config_failure_keeps_a_held_axis() {
    assert!(keep_hold_on_config_failure(Some(4)));
    assert!(!keep_hold_on_config_failure(Some(0)));
    assert!(!keep_hold_on_config_failure(None));
}
