use host::application::worker::health::Telemetry;
use host::application::worker::readiness::{
    axes_ready, ready, start, DeviceInfo, MachineCheck, ReadyError, StartCheck, StartError,
};

fn device() -> DeviceInfo {
    DeviceInfo {
        board: "cctl".to_string(),
        protocol: 1,
        slots: 3,
        jog: true,
        motor_layout: "el05,m3508,m3508".to_string(),
        can_buses: vec![1, 2],
    }
}

/// A configured, current machine with its three axes on slots 0 to 2.
fn machine() -> MachineCheck {
    MachineCheck {
        axis_slots: vec![0, 1, 2],
        report_age_ms: Some(20),
        telemetry: Some(Telemetry {
            buses: 3,
            stale_slots: 0,
            error_bits: vec![0, 0, 0],
            measured: vec!["0.000".to_string(); 3],
        }),
        parameters_complete: true,
        setup: true,
        setup_error: false,
        settings_ready: true,
        device: Some(device()),
        adjustment: false,
        origins_captured: true,
        needs_can_bus_2: true,
    }
}

fn idle() -> StartCheck {
    StartCheck {
        locked: false,
        homing: false,
        sts_busy: false,
        emergency: false,
        test_enabled: false,
        input_neutral: true,
        ai_active: false,
        gamepad: false,
        simulate: true,
        screen_control: false,
    }
}

#[test]
fn old_motor_layout_cannot_start_even_with_confirmed_settings() {
    let mut m = machine();
    assert!(start(idle(), &m).is_ok());
    if let Some(d) = m.device.as_mut() {
        d.motor_layout.clear();
    }
    assert_eq!(start(idle(), &m), Err(StartError::Machine(ReadyError::Firmware)));
    assert_eq!(StartError::Machine(ReadyError::Firmware).message(), "M3508×2台対応のcctl FWが必要です");
}

#[test]
fn restarting_a_subset_does_not_enable_axes_from_an_older_profile() {
    let mut m = machine();
    m.axis_slots = vec![0];
    assert_eq!(
        start(idle(), &m).unwrap(),
        vec!["ENABLE 6 0".to_string(), "ENABLE 1 1".to_string(), "RUN".to_string()]
    );
    assert_eq!(
        start(idle(), &machine()).unwrap(),
        vec!["ENABLE 7 1".to_string(), "RUN".to_string()]
    );
}

#[test]
fn machine_checks_come_in_order() {
    let mut m = machine();
    m.report_age_ms = Some(500);
    m.setup = false;
    assert_eq!(axes_ready(&m, true), Err(ReadyError::NoAnswer));
    assert_eq!(ReadyError::NoAnswer.message(), "機体の応答がありません");
    m.report_age_ms = Some(0);
    assert_eq!(axes_ready(&m, true), Err(ReadyError::Unconfirmed));
    m.setup = true;
    m.device = None;
    assert_eq!(axes_ready(&m, true), Err(ReadyError::AwaitingCapabilities));
    let mut m = machine();
    m.axis_slots.clear();
    assert_eq!(ready(&m), Err(ReadyError::NoAxes));
    let mut m = machine();
    m.parameters_complete = false;
    assert_eq!(ready(&m), Err(ReadyError::Parameters));
}

#[test]
fn motors_and_origins_block_driving() {
    let mut m = machine();
    if let Some(t) = m.telemetry.as_mut() {
        t.stale_slots = 0b100;
    }
    assert_eq!(ready(&m), Err(ReadyError::Motors));
    m.axis_slots = vec![0, 1];
    assert_eq!(ready(&m), Ok(()));
    if let Some(t) = m.telemetry.as_mut() {
        t.error_bits[1] = 4;
    }
    assert_eq!(ready(&m), Err(ReadyError::Motors));
    let mut m = machine();
    m.origins_captured = false;
    assert_eq!(ready(&m), Err(ReadyError::Origins));
    assert_eq!(axes_ready(&m, false), Ok(()));
    m.adjustment = true;
    assert_eq!(ready(&m), Ok(()));
}

#[test]
fn peripheral_bus_is_needed_only_when_configured() {
    let mut m = machine();
    if let Some(d) = m.device.as_mut() {
        d.can_buses = vec![1];
    }
    assert_eq!(ready(&m), Err(ReadyError::PeripheralBus));
    assert_eq!(ReadyError::PeripheralBus.message(), "周辺基板のCAN接続がありません");
    m.needs_can_bus_2 = false;
    assert_eq!(ready(&m), Ok(()));
}

#[test]
fn start_refusals_come_in_order() {
    let m = machine();
    let everything = StartCheck {
        locked: true,
        homing: true,
        sts_busy: true,
        emergency: true,
        test_enabled: true,
        input_neutral: false,
        ai_active: false,
        gamepad: false,
        simulate: false,
        screen_control: false,
    };
    assert_eq!(start(everything, &m), Err(StartError::Waiting));
    assert_eq!(start(StartCheck { emergency: true, test_enabled: true, ..idle() }, &m), Err(StartError::Emergency));
    assert_eq!(start(StartCheck { input_neutral: false, ..idle() }, &m), Err(StartError::Sticks));
    assert_eq!(start(StartCheck { simulate: false, ..idle() }, &m), Err(StartError::Gamepad));
    assert!(start(StartCheck { simulate: false, screen_control: true, ..idle() }, &m).is_ok());
    assert_eq!(StartError::Emergency.message(), "ソフト緊停中です");
    assert_eq!(StartError::Waiting.message(), "開始待ちです。準備画面で開始または再確認してください");
}
