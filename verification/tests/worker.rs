use host::application::worker::{
    configuration_state, expire_screen_inputs, keepalive_lines, operating_state, outputs_active,
    Activity, DriveState, SCREEN_INPUT_MS,
};

fn quiet() -> Activity {
    Activity {
        emergency: false,
        fresh: true,
        homing: false,
        sequence: false,
        ee_targets: false,
        bonus_active: false,
        bonus_outputs: false,
        sts_active: false,
        test_active: false,
        drive: DriveState::Stopped,
        board_driving: false,
        held: false,
    }
}

#[test]
fn keepalive_names_each_configured_board() {
    assert!(keepalive_lines(false, true, true, true).is_empty());
    assert_eq!(keepalive_lines(true, false, false, false), vec!["HEARTBEAT".to_string()]);
    assert_eq!(
        keepalive_lines(true, true, true, true),
        vec![
            "HEARTBEAT".to_string(),
            "CAN 2 768 0103000000000000".to_string(),
            "CAN 2 784 0105000000000000".to_string(),
            "CAN 2 800 0105000000000000".to_string(),
        ]
    );
}

#[test]
fn lapsed_screen_inputs_return_to_zero() {
    let mut stamps = vec![Some(1000), None, Some(1100), Some(849), Some(850), Some(1200)];
    let cleared = expire_screen_inputs(&mut stamps, 1000 + SCREEN_INPUT_MS);
    assert_eq!(cleared, vec![3, 4]);
    assert_eq!(stamps, vec![Some(1000), None, Some(1100), None, None, Some(1200)]);
    let cleared = expire_screen_inputs(&mut stamps, 1151);
    assert_eq!(cleared, vec![0]);
}

#[test]
fn operating_state_names_the_most_urgent_activity() {
    assert_eq!(operating_state(quiet()), "全トルク解除");
    assert!(!outputs_active(quiet()));
    assert_eq!(operating_state(Activity { emergency: true, homing: true, ..quiet() }), "ソフト緊停中");
    assert_eq!(operating_state(Activity { fresh: false, homing: true, ..quiet() }), "接続断 / 状態不明");
    assert_eq!(operating_state(Activity { homing: true, ..quiet() }), "r・zホーミング中");
    assert_eq!(operating_state(Activity { drive: DriveState::Running, ..quiet() }), "運転中");
    assert_eq!(operating_state(Activity { drive: DriveState::AwaitingRun(5), ..quiet() }), "運転応答待ち");
    assert_eq!(operating_state(Activity { held: true, ..quiet() }), "出力停止・z保持");
    assert_eq!(operating_state(Activity { ee_targets: true, ..quiet() }), "停止・保持");
    assert!(outputs_active(Activity { board_driving: true, ..quiet() }));
    assert_eq!(configuration_state(true, true), "反映失敗");
    assert_eq!(configuration_state(false, true), "基板で反映確認済み");
    assert_eq!(configuration_state(false, false), "反映確認待ち");
}
