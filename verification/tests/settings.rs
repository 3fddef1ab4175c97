use host::application::settings::{Settings, SettingsError};

#[test]
fn parameters_go_out_one_at_a_time_in_plan_order() {
    let mut s = Settings::new(vec!["kp", "ki", "kd"]);
    assert_eq!(s.expected, 3);
    assert!(!s.ready());
    assert_eq!(s.poll_command(0), Ok(true));
    assert_eq!(s.front(), Some(&"kp"));
    assert_eq!(s.poll_command(500), Ok(false));
    assert_eq!(s.receive(false, true), Ok(()));
    assert_eq!(s.confirmed, 0);
    assert_eq!(s.receive(true, true), Ok(()));
    assert_eq!(s.confirmed, 1);
    assert_eq!(s.front(), Some(&"ki"));
    assert_eq!(s.poll_command(600), Ok(true));
    assert_eq!(s.receive(true, true), Ok(()));
    assert_eq!(s.poll_command(700), Ok(true));
    assert_eq!(s.receive(true, true), Ok(()));
    assert!(s.ready());
    assert_eq!(s.confirmed, 3);
    assert_eq!(s.poll_command(800), Ok(false));
    assert_eq!(s.front(), None);
}

#[test]
fn a_reply_before_sending_is_ignored_and_a_mismatch_fails() {
    let mut s = Settings::new(vec![1u8, 2]);
    assert_eq!(s.receive(true, true), Ok(()));
    assert_eq!(s.confirmed, 0);
    assert_eq!(s.poll_command(10), Ok(true));
    assert_eq!(s.receive(true, false), Err(SettingsError::Mismatch));
    assert_eq!(s.confirmed, 0);
    assert_eq!(s.front(), Some(&1));
}

#[test]
fn a_missing_confirmation_times_out() {
    let mut s = Settings::new(vec![7u32]);
    assert_eq!(s.poll_command(1_000), Ok(true));
    assert_eq!(s.poll_command(2_000), Ok(false));
    assert_eq!(s.poll_command(2_001), Err(SettingsError::NoReply));
    assert_eq!(
        SettingsError::no_reply_text(),
        "設定の反映応答がありません。接続とFWを確認して再適用してください"
    );
    let empty: Settings<u8> = Settings::new(Vec::new());
    assert!(empty.ready());
}

/// One parameter planned (`PARAM 9`, sent as 1.0); a reply is described by
/// whether it answers that parameter and whether its value agrees.
#[test]
fn unrelated_ack_cannot_confirm_a_setting() {
    let mut sync = Settings::new(vec![9u8]);
    // "PARAM 9 1.0" before anything was sent.
    sync.receive(true, true).unwrap();
    assert!(!sync.ready());
    assert!(sync.poll_command(0).unwrap());
    // "OK" answers no parameter.
    sync.receive(false, false).unwrap();
    assert!(!sync.ready());
    // "PARAM 9 2.0" reads back another value.
    assert!(sync.receive(true, false).is_err());
    // "PARAM 9 1.0".
    sync.receive(true, true).unwrap();
    assert!(sync.ready());
}

#[test]
fn missing_readback_times_out_without_sending_the_next_setting() {
    let mut sync = Settings::new(vec![1u8, 2, 3]);
    assert!(sync.poll_command(10_000).unwrap());
    assert!(sync.poll_command(12_000).is_err());
    assert_eq!(sync.confirmed, 0);
    assert!(!sync.ready());
}
