use host::application::authority::{Authority, AuthorityError};
use host::application::worker::requests::{
    gate, input_target, GateError, GateState, InputError, InputTarget, Route,
};
use host::application::worker::DriveState;

const NOW: u64 = 5_000;

fn idle() -> GateState {
    GateState {
        emergency: false,
        test_enabled: false,
        test_active: false,
        drive: DriveState::Stopped,
        fresh: true,
    }
}

fn ask(s: GateState, a: &mut Authority, action: &str, manual: bool) -> Result<Route, GateError> {
    gate(s, a, action, None, manual, None, false, NOW)
}

#[test]
fn emergency_latches_until_a_person_resets_it() {
    let mut a = Authority::default();
    let latched = GateState { emergency: true, ..idle() };
    assert_eq!(ask(idle(), &mut a, "estop", false), Ok(Route::Emergency));
    assert_eq!(ask(latched, &mut a, "run", true), Err(GateError::Latched));
    assert_eq!(ask(latched, &mut a, "stop", true), Ok(Route::Stop));
    assert_eq!(ask(latched, &mut a, "cut", true), Ok(Route::Cut));
    assert_eq!(ask(latched, &mut a, "estop_reset", false), Err(GateError::HumanReset));
    assert_eq!(ask(latched, &mut a, "estop_reset", true), Ok(Route::ResetEmergency));
    assert_eq!(ask(idle(), &mut a, "estop_reset", true), Err(GateError::NotLatched));
}

#[test]
fn the_right_to_operate_is_claimed_from_the_api_and_taken_back_at_the_gui() {
    let mut a = Authority::default();
    assert_eq!(ask(idle(), &mut a, "claim", true), Err(GateError::InUse));
    assert_eq!(ask(idle(), &mut a, "claim", false), Ok(Route::Claim));
    let testing = GateState { test_enabled: true, ..idle() };
    assert_eq!(ask(testing, &mut a, "claim", false), Err(GateError::InUse));
    a.claim("ai".into(), NOW, 6);
    assert_eq!(ask(idle(), &mut a, "claim", false), Err(GateError::InUse));
    assert_eq!(
        ask(idle(), &mut a, "run", true),
        Err(GateError::Authority(AuthorityError::Busy))
    );
    assert_eq!(ask(idle(), &mut a, "stop", true), Ok(Route::Stop));
    assert_eq!(
        gate(idle(), &mut a, "run", Some("ai"), false, None, false, NOW + 10),
        Ok(Route::Run)
    );
    assert!(!a.expired(NOW + 10 + 30_000));
    assert_eq!(ask(idle(), &mut a, "takeover", false), Err(GateError::GuiOnly));
    assert_eq!(ask(idle(), &mut a, "takeover", true), Ok(Route::Takeover));
}

#[test]
fn settings_need_the_machine_stopped_and_tests_off() {
    let mut a = Authority::default();
    let driving = GateState { drive: DriveState::Running, ..idle() };
    let starting = GateState { drive: DriveState::AwaitingRun(1), ..idle() };
    assert_eq!(ask(driving, &mut a, "apply", true), Err(GateError::StopToApply));
    assert_eq!(ask(starting, &mut a, "save", true), Err(GateError::StopToSave));
    assert_eq!(ask(driving, &mut a, "connection", true), Err(GateError::StopToChangeConnection));
    assert_eq!(ask(idle(), &mut a, "apply", true), Ok(Route::Apply));
    let stale = GateState { fresh: false, ..idle() };
    assert_eq!(ask(stale, &mut a, "origin", true), Err(GateError::StopForOrigin));
    assert_eq!(ask(stale, &mut a, "reinit", true), Err(GateError::StopForReinit));
    let testing = GateState { test_active: true, ..idle() };
    assert_eq!(ask(testing, &mut a, "apply", true), Err(GateError::StopTestFirst));
    assert_eq!(ask(testing, &mut a, "test_output", true), Ok(Route::Test));
    assert_eq!(ask(testing, &mut a, "run", true), Ok(Route::Run));
}

#[test]
fn requests_carry_what_they_need() {
    let mut a = Authority::default();
    assert_eq!(ask(idle(), &mut a, "manual_control", true), Err(GateError::ControlRequired));
    assert_eq!(
        gate(idle(), &mut a, "manual_control", None, true, Some(true), false, NOW),
        Ok(Route::ManualControl(true))
    );
    assert_eq!(ask(idle(), &mut a, "adjustment", true), Ok(Route::Adjustment(false)));
    assert_eq!(ask(idle(), &mut a, "input", true), Err(GateError::ValueRequired));
    assert_eq!(
        gate(idle(), &mut a, "input", None, true, None, true, NOW),
        Ok(Route::Input)
    );
    assert_eq!(ask(idle(), &mut a, "dance", true), Err(GateError::Unsupported));
    assert_eq!(ask(idle(), &mut a, "heartbeat", false), Err(GateError::Authority(AuthorityError::Unauthorized)));
    assert_eq!(GateError::Latched.message(), "ソフト緊停中です。人間が解除するまで操作できません");
}

#[test]
fn input_from_the_gui_needs_screen_control_and_driving() {
    let running = DriveState::Running;
    let stopped = DriveState::Stopped;
    assert_eq!(input_target(false, Some(Some(2)), true, true, true, running), Err(InputError::OutOfRange));
    assert_eq!(input_target(true, None, true, true, true, running), Err(InputError::UnknownAxis));
    assert_eq!(input_target(true, Some(None), false, true, true, running), Err(InputError::Unassigned));
    assert_eq!(
        input_target(true, Some(Some(2)), true, false, false, running),
        Err(InputError::ScreenControlRequired)
    );
    assert_eq!(input_target(true, Some(Some(2)), true, true, true, stopped), Err(InputError::RunFirst));
    assert_eq!(input_target(true, Some(Some(2)), true, true, false, stopped), Ok(InputTarget::Screen(2)));
    assert_eq!(input_target(true, Some(Some(2)), true, true, true, running), Ok(InputTarget::Screen(2)));
    assert_eq!(input_target(true, Some(Some(4)), false, false, true, stopped), Ok(InputTarget::Lease(4)));
    assert_eq!(InputError::RunFirst.message(), "運転再開してから操作してください");
}
