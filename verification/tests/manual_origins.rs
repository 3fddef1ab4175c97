use host::application::app_state::PreparationPhase;
use host::application::worker::health::Telemetry;
use host::application::worker::manual_origins::{
    manual_origin_ready, manual_origins_done, manual_origins_idle, OriginContext, OriginError,
};
use host::application::worker::readiness::{DeviceInfo, MachineCheck, ReadyError};

fn machine() -> MachineCheck {
    MachineCheck {
        axis_slots: vec![0, 1, 2],
        report_age_ms: Some(0),
        telemetry: Some(Telemetry {
            buses: 3,
            stale_slots: 0,
            error_bits: vec![0, 0, 0],
            measured: vec!["0.000".to_string(); 3],
        }),
        parameters_complete: true,
        setup: true,
        setup_error: false,
        settings_ready: true,
        device: Some(DeviceInfo {
            board: "cctl".to_string(),
            protocol: 1,
            slots: 3,
            jog: true,
            motor_layout: "el05,m3508,m3508".to_string(),
            can_buses: vec![1, 2],
        }),
        adjustment: false,
        origins_captured: false,
        needs_can_bus_2: false,
    }
}

fn context() -> OriginContext {
    OriginContext {
        court_chosen: true,
        phase: PreparationPhase::Setting,
        ai_active: false,
        homing_idle: true,
        sequence: false,
        teaching: false,
        r_limit: true,
        z_limit: true,
        theta_front: true,
        manual_origins: false,
        released: false,
    }
}

#[test]
fn manual_origins_need_no_origin_yet() {
    assert_eq!(manual_origin_ready(context(), &machine()), Ok(()));
}

#[test]
fn manual_origins_reject_each_invalid_context() {
    let m = machine();
    assert_eq!(
        manual_origin_ready(OriginContext { court_chosen: false, ..context() }, &m),
        Err(OriginError::ChooseCourt)
    );
    assert_eq!(
        manual_origin_ready(OriginContext { phase: PreparationPhase::Waiting, ..context() }, &m),
        Err(OriginError::StopFirst)
    );
    assert_eq!(
        manual_origin_ready(OriginContext { r_limit: false, ..context() }, &m),
        Err(OriginError::RLimit)
    );
    assert_eq!(OriginError::RLimit.message(), "rのリミットスイッチを設定してください");
    assert_eq!(
        manual_origin_ready(OriginContext { theta_front: false, ..context() }, &m),
        Err(OriginError::ThetaFront)
    );
    let mut stale = machine();
    if let Some(t) = stale.telemetry.as_mut() {
        t.stale_slots = 2;
    }
    assert_eq!(
        manual_origin_ready(context(), &stale),
        Err(OriginError::Machine(ReadyError::Motors))
    );
}

#[test]
fn manual_origins_wait_for_released_outputs() {
    let m = machine();
    let on = OriginContext { manual_origins: true, ..context() };
    assert_eq!(manual_origin_ready(on, &m), Err(OriginError::AwaitRelease));
    assert_eq!(OriginError::AwaitRelease.message(), "全トルク解除の応答を待っています");
    assert!(!manual_origins_idle(on));
    let released = OriginContext { released: true, ..on };
    assert!(manual_origins_idle(released));
    assert_eq!(manual_origin_ready(released, &m), Ok(()));
    assert!(!manual_origins_done(released, &m, true, false));
    assert!(!manual_origins_done(released, &m, false, true));
    assert!(manual_origins_done(released, &m, true, true));
    assert!(!manual_origins_done(OriginContext { manual_origins: false, ..released }, &m, true, true));
}
