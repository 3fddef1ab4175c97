use host::application::app_state::CommunicationHealth;
use host::application::worker::health::{
    bus_status, bus_statuses, device_statuses, fresh, peripheral_health, servo_to_poll, AxisLink,
    ChannelLink, DeviceSnapshot, Diagnostics, Feedback, MotorIds, PollState, ServoLink, Telemetry,
};

fn diagnostics() -> Diagnostics {
    Diagnostics { started: true, bus_off: false, lec: 0, tec: 0, rec: 0, cel: 42, tx_failed: 9 }
}

/// A machine with a current report on both buses: theta on slot 1 (C620 ID 1)
/// and z on slot 2 (C620 ID 2), no peripheral board in the profile.
fn snapshot() -> DeviceSnapshot {
    DeviceSnapshot {
        report_age_ms: Some(10),
        telemetry: Some(Telemetry {
            buses: 3,
            stale_slots: 0,
            error_bits: vec![0, 0, 0],
            measured: vec!["0.000".to_string(), "1.250".to_string(), "-0.500".to_string()],
        }),
        setup: true,
        motor_diagnostics: None,
        peripheral_diagnostics: None,
        c620_scan: None,
        ids: MotorIds { el05: Some(1), c620: Some(1), c620_slot2: Some(2) },
        axes: vec![
            AxisLink { name: "theta".to_string(), slot: 1 },
            AxisLink { name: "z".to_string(), slot: 2 },
        ],
        pwm_servos: Vec::new(),
        pwm_parameters: false,
        dc_motors: Vec::new(),
        dc_parameters: false,
        sts_servos: None,
        sts_parameters: false,
        pwm_age_ms: None,
        dc_age_ms: None,
        sts_age_ms: None,
    }
}

#[test]
fn can_status_separates_bus_off_from_c620_id_mismatch() {
    let mut s = snapshot();
    s.motor_diagnostics = Some(diagnostics());
    s.c620_scan = Some((0b0000_0001, 0));
    let devices = device_statuses(&s);
    let theta = devices.iter().find(|d| d.name.starts_with("theta軸")).unwrap();
    let z = devices.iter().find(|d| d.name.starts_with("z軸")).unwrap();
    assert_eq!(theta.health, CommunicationHealth::Healthy);
    assert_eq!(z.health, CommunicationHealth::Fault);
    assert!(z.detail.contains("設定ID"));

    let mut down = diagnostics();
    down.bus_off = true;
    down.tec = 255;
    let buses = bus_statuses(Some(10), Some(3), Some((down, 5)), None);
    assert_eq!(buses[0].health, CommunicationHealth::Fault);
    assert!(buses[0].detail.contains("bus-off"));
    assert_eq!(buses[0].tec, Some(255));
}

#[test]
fn can_status_distinguishes_serial_svmd_board_from_servo_feedback() {
    let mut s = snapshot();
    s.sts_servos = Some(vec![ServoLink { name: "hand".to_string(), id: 1, feedback: None }]);
    s.sts_age_ms = Some(0);
    let waiting = device_statuses(&s);
    let board = waiting.iter().find(|d| d.name == "STS3215基板").unwrap();
    let servo = waiting
        .iter()
        .find(|d| d.name.contains("STS3215") && d.name != "STS3215基板")
        .unwrap();
    assert_eq!(board.health, CommunicationHealth::Healthy);
    assert_eq!(servo.health, CommunicationHealth::Fault);
    assert!(servo.detail.contains("サーボ個体"));

    s.sts_servos = Some(vec![ServoLink {
        name: "hand".to_string(),
        id: 1,
        feedback: Some(Feedback {
            error: 0,
            detail: "位置=2048、出力=解除、エラー=0x00".to_string(),
            age_ms: 0,
        }),
    }]);
    let responding = device_statuses(&s);
    let servo = responding
        .iter()
        .find(|d| d.name.contains("STS3215") && d.name != "STS3215基板")
        .unwrap();
    assert_eq!(servo.health, CommunicationHealth::Healthy);
    assert_eq!(servo.detail, "位置=2048、出力=解除、エラー=0x00");
    assert_eq!(servo.address, "servo ID 1");
}

#[test]
fn can_status_lists_a_detected_board_without_machine_configuration() {
    let mut s = snapshot();
    assert!(device_statuses(&s).iter().all(|d| d.name != "DCモータ基板"));
    s.dc_age_ms = Some(0);
    let devices = device_statuses(&s);
    let dcmd = devices.iter().find(|d| d.name == "DCモータ基板").unwrap();
    assert_eq!(dcmd.health, CommunicationHealth::Warning);
    assert_eq!(dcmd.detail, "状態応答あり・機体設定なし");
    assert!(dcmd.age_ms.is_some_and(|age| age < 2000));
}

#[test]
fn axis_names_addresses_and_details() {
    let mut s = snapshot();
    s.axes.push(AxisLink { name: "r".to_string(), slot: 0 });
    let devices = device_statuses(&s);
    assert_eq!(devices.len(), 3);
    assert_eq!(devices[0].name, "theta軸 · M3508 + C620");
    assert_eq!(devices[0].address, "slot 1 / ID 1");
    assert_eq!(devices[0].detail, "フィードバック正常 / 実測 1.250");
    assert_eq!(devices[0].bus, 1);
    assert_eq!(devices[0].age_ms, Some(10));
    assert_eq!(devices[2].name, "r軸 · EL05");

    let mut t = snapshot();
    if let Some(report) = t.telemetry.as_mut() {
        report.stale_slots = 0b10;
        report.error_bits[1] = 0x8A;
        report.error_bits[2] = 0x05;
    }
    let devices = device_statuses(&t);
    assert_eq!(devices[0].health, CommunicationHealth::Fault);
    assert_eq!(devices[0].detail, "フィードバック途絶 / error=0x8A");
    assert_eq!(devices[1].detail, "モータ異常 / error=0x05");

    t.axes = vec![AxisLink { name: "x".to_string(), slot: 5 }];
    let devices = device_statuses(&t);
    assert_eq!(devices[0].name, "x軸 · モータ");
    assert_eq!(devices[0].address, "slot 5");
    assert_eq!(devices[0].health, CommunicationHealth::Unknown);
    assert_eq!(devices[0].detail, "slot状態なし");
}

#[test]
fn stale_report_shows_everything_unknown() {
    let mut s = snapshot();
    s.report_age_ms = Some(201);
    s.pwm_servos = vec![ChannelLink { name: "ee_fold".to_string(), channel: 0 }];
    s.pwm_age_ms = Some(0);
    let devices = device_statuses(&s);
    assert_eq!(devices.len(), 4);
    assert!(devices.iter().all(|d| d.health == CommunicationHealth::Unknown));
    assert_eq!(devices[0].detail, "cctlの状態応答待ち");
    let bus = bus_status(2, None, Some(3), None);
    assert_eq!(bus.health, CommunicationHealth::Unknown);
    assert_eq!(bus.label, "FDCAN2（周辺基板）");
    assert!(fresh(Some(200)));
    assert!(!fresh(Some(201)));
    assert!(!fresh(None));
}

#[test]
fn channels_of_a_healthy_board_are_warnings() {
    let mut s = snapshot();
    s.pwm_servos = vec![ChannelLink { name: "ee_fold".to_string(), channel: 3 }];
    s.pwm_age_ms = Some(100);
    let devices = device_statuses(&s);
    assert_eq!(devices[2].name, "PWMサーボ基板");
    assert_eq!(devices[2].health, CommunicationHealth::Healthy);
    assert_eq!(devices[2].detail, "状態応答を受信");
    assert_eq!(devices[2].address, "応答 0x301");
    assert_eq!(devices[3].name, "ee_fold · PWMサーボ");
    assert_eq!(devices[3].address, "channel 3");
    assert_eq!(devices[3].health, CommunicationHealth::Warning);
    assert_eq!(devices[3].detail, "基板応答あり・サーボ個体の応答は取得不可");

    s.pwm_age_ms = Some(2500);
    let devices = device_statuses(&s);
    assert_eq!(devices[2].health, CommunicationHealth::Fault);
    assert_eq!(devices[2].detail, "状態応答が2秒以上ありません");
    assert_eq!(devices[3].health, CommunicationHealth::Fault);
    assert_eq!(devices[3].detail, "PWMサーボ基板の応答なし");
}

#[test]
fn bus_details_follow_the_controller() {
    let mut d = diagnostics();
    assert_eq!(bus_status(1, Some(0), Some(1), Some((d, 3))).detail, "通信可能");
    assert_eq!(bus_status(1, Some(0), Some(1), Some((d, 3))).age_ms, Some(3));
    d.rec = 96;
    assert_eq!(bus_status(1, Some(0), Some(1), Some((d, 3))).health, CommunicationHealth::Warning);
    d.started = false;
    assert_eq!(bus_status(1, Some(0), Some(1), Some((d, 3))).detail, "CANコントローラ未起動");
    assert_eq!(bus_status(2, Some(0), Some(1), None).detail, "使用不可");
    assert_eq!(bus_status(2, Some(0), Some(2), None).detail, "通信可能・詳細応答待ち");
    assert_eq!(bus_status(2, Some(0), Some(2), None).health, CommunicationHealth::Healthy);
}

#[test]
fn peripheral_health_after_setup() {
    assert_eq!(peripheral_health(true, true, Some(1999), false), CommunicationHealth::Healthy);
    assert_eq!(peripheral_health(true, true, Some(2000), false), CommunicationHealth::Unknown);
    assert_eq!(peripheral_health(true, true, None, true), CommunicationHealth::Fault);
    assert_eq!(peripheral_health(true, false, Some(0), false), CommunicationHealth::Fault);
    assert_eq!(peripheral_health(false, true, Some(0), true), CommunicationHealth::Unknown);
}

#[test]
fn servos_are_polled_in_turn() {
    let ids = vec![3u8, 7, 9];
    let p = PollState {
        report_age_ms: Some(0),
        buses: Some(2),
        sts_busy: false,
        sts_active: false,
        test_active: false,
        ee_targets: false,
        sts_age_ms: Some(100),
        last_poll_age_ms: Some(250),
    };
    assert_eq!(servo_to_poll(&ids, p, 0), Some((3, 1)));
    assert_eq!(servo_to_poll(&ids, p, 2), Some((9, 0)));
    assert_eq!(servo_to_poll(&ids, p, 4), Some((7, 2)));
    let mut recent = p;
    recent.last_poll_age_ms = Some(249);
    assert_eq!(servo_to_poll(&ids, recent, 0), None);
    let mut busy = p;
    busy.sts_busy = true;
    assert_eq!(servo_to_poll(&ids, busy, 0), None);
    assert_eq!(servo_to_poll(&Vec::new(), p, 0), None);
}
