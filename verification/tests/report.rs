use host::application::worker::report::{
    c620_scan, cctl_test_check, contacts_text, dcmd_status_text, drive_check, encoder_text,
    is_refusal, rebooted, scan_text, servo_detail, servo_summary, DriveCheck,
};
use host::application::worker::DriveState;
use host::dcmd::Status;

#[test]
fn c620_scan_lines_give_the_answer_mask() {
    assert_eq!(c620_scan("C620_SCAN mask=5 window=500"), Some(5));
    assert_eq!(c620_scan("C620_SCAN mask=+7"), Some(7));
    assert_eq!(c620_scan("C620_SCAN mask=256"), None);
    assert_eq!(c620_scan("C620_SCAN mask="), None);
    assert_eq!(c620_scan("STATE t=1"), None);
    assert_eq!(scan_text(0b0000_0101), "1, 3");
    assert_eq!(scan_text(0b1000_0000), "8");
    assert_eq!(scan_text(0), "応答なし（直近500ms）");
}

#[test]
fn a_smaller_uptime_is_a_restart_unless_the_counter_wrapped() {
    assert!(rebooted(Some(5000), 10));
    assert!(!rebooted(Some(5000), 6000));
    assert!(!rebooted(None, 10));
    assert!(!rebooted(Some(0xFFFF_FFF0), 5));
}

#[test]
fn reports_confirm_or_lose_driving() {
    assert_eq!(drive_check(DriveState::AwaitingRun(0), true, 7, 7, false), DriveCheck::Confirmed);
    assert_eq!(drive_check(DriveState::AwaitingRun(0), true, 3, 7, false), DriveCheck::Keep);
    assert_eq!(drive_check(DriveState::Running, true, 7, 7, false), DriveCheck::Keep);
    assert_eq!(drive_check(DriveState::Running, false, 7, 7, false), DriveCheck::Lost);
    assert_eq!(drive_check(DriveState::Running, true, 3, 7, false), DriveCheck::Lost);
    assert_eq!(drive_check(DriveState::Running, true, 7, 7, true), DriveCheck::Lost);
    assert_eq!(drive_check(DriveState::Stopped, false, 0, 7, true), DriveCheck::Keep);
}

#[test]
fn an_individual_cctl_output_must_show_and_stay() {
    assert_eq!(cctl_test_check(2, true, 4, 0, 0, false, Some(10)), (true, false));
    assert_eq!(cctl_test_check(2, true, 0, 0, 0, false, Some(100)), (false, false));
    assert_eq!(cctl_test_check(2, true, 0, 0, 0, false, Some(501)), (false, true));
    assert_eq!(cctl_test_check(2, false, 4, 0, 0, true, Some(10)), (true, true));
    assert_eq!(cctl_test_check(2, true, 4, 4, 0, true, None), (true, true));
    assert_eq!(cctl_test_check(2, true, 4, 0, 0x80, true, None), (true, true));
}

#[test]
fn peripheral_texts() {
    assert!(is_refusal("ERR drive rejected"));
    assert!(!is_refusal("ERROR"));
    assert_eq!(contacts_text(5), "SW1〜SW3（閉=1）=101");
    assert_eq!(contacts_text(1), "SW1〜SW3（閉=1）=001");
    assert_eq!(contacts_text(2), "SW1〜SW3（閉=1）=010");
    assert_eq!(contacts_text(9), "SW1〜SW3（閉=1）=1001");
    let status = Status { result: 0, mode: 2, enabled: 1, duty: [-300, 0] };
    assert_eq!(dcmd_status_text(&status), "動作モード=2 出力=1 デューティ=-300 結果コード=0");
    assert_eq!(encoder_text(-12, 3), "位置カウント=-12 原点通過回数=3");
    assert_eq!(servo_detail(2048, false, 0), "位置=2048、出力=解除、エラー=0x00");
    assert_eq!(servo_detail(-5, true, 0x2A), "位置=-5、出力=有効、エラー=0x2A");
    assert_eq!(servo_summary(2048, true, 3), "位置=2048 出力=有効 エラーコード=3");
}
