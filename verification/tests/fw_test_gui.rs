use host::diagnostics::fw_test::Board;
use host::fw_test_gui::{
    board_name, connection_hint, feature, missing_boards, output_label, push_log, rejected, Config,
    Control, Snapshot,
};

/// The worker's way of changing its report.
fn update(control: &mut Control, f: impl FnOnce(&mut Snapshot)) {
    let mut snapshot = control.snapshot();
    f(&mut snapshot);
    control.update(snapshot);
}

fn config() -> Config {
    Config {
        board: Board::Dcmd,
        device: "/dev/null".into(),
        baud: 115200,
        seconds: 5,
    }
}

#[test]
fn stop_discards_pending_output_commands() {
    let mut control = Control::default();
    control.start(config());
    update(&mut control, |s| s.ready = true);
    control.command("on motor0 10".into());
    control.command("stop".into());
    assert_eq!(control.take().as_deref(), Some("stop"));
    assert!(control.take().is_none());
}

#[test]
fn closing_session_cannot_be_replaced_until_worker_releases_port() {
    let mut control = Control::default();
    control.start(config());
    update(&mut control, |s| s.ready = true);
    control.end();
    control.start(config());
    assert!(control.enabled());
    assert!(control.config().is_none());
    control.command("on motor0 10".into());
    assert!(control.take().is_none());
    control.finish();
    assert!(!control.enabled());
    control.start(config());
    assert!(control.config().is_some());
    assert!(!control.snapshot().ready);
}

#[test]
fn handshake_and_watchdog_block_output_requests() {
    let mut control = Control::default();
    control.start(config());
    control.command("on motor0 10".into());
    assert!(control.take().is_none());
    update(&mut control, |s| {
        s.ready = true;
        s.watchdog = true;
    });
    control.command("on motor0 10".into());
    assert!(control.take().is_none());
    control.command("stop".into());
    assert_eq!(control.take().as_deref(), Some("stop"));
}

#[test]
fn queue_keeps_order_and_holds_at_most_sixteen() {
    let mut control = Control::default();
    control.start(config());
    update(&mut control, |s| s.ready = true);
    for i in 0..20 {
        control.command(format!("on motor0 {i}"));
    }
    let mut taken = Vec::new();
    while let Some(c) = control.take() {
        taken.push(c);
    }
    assert_eq!(taken.len(), 16);
    assert_eq!(taken[0], "on motor0 0");
    assert_eq!(taken[15], "on motor0 15");
    update(&mut control, |s| s.logs.push("x".into()));
    assert_eq!(control.snapshot().logs, ["x"]);
    let c = control.config().unwrap();
    assert_eq!(c.device, "/dev/null");
    assert_eq!(c.baud, 115200);
}

#[test]
fn panel_texts() {
    assert_eq!(feature(true, Board::Svmd, "motor2"), "svmd.motor2");
    assert_eq!(feature(false, Board::Svmd, "motor2"), "motor2");
    assert_eq!(board_name(Board::Dcmd), "DCMD");
    assert_eq!(board_name(Board::Network), "ネットワーク一括");
    assert_eq!(connection_hint(Board::Cctl), "USB CDCへ直接繋ぎます。");
    assert_eq!(output_label(Board::Cctl, 1), "slot 1 — M3508+C620");
    assert_eq!(output_label(Board::Cctl, 2), "slot 2 — DM-S3519");
    assert_eq!(output_label(Board::Svmd, 3), "ch 3 — PWMサーボ");
    assert_eq!(output_label(Board::SerialSvmd, 12), "ID 12 — STS3215");
    assert_eq!(output_label(Board::Network, 0), "PWM0 — DCモータ");
}

#[test]
fn worker_checks() {
    assert_eq!(missing_boards(Board::Network, &[Board::Svmd]), ["dcmd"]);
    assert_eq!(missing_boards(Board::Network, &[]), ["svmd", "dcmd"]);
    assert!(missing_boards(Board::Cctl, &[]).is_empty());
    assert!(missing_boards(Board::Dcmd, &[Board::Dcmd]).is_empty());
    assert!(rejected("ERR code=CAN_TX"));
    assert!(rejected("CAN_RX bus=2 id=785 data=0101000000000000"));
    assert!(rejected("CAN_RX bus=2 id=769 data=0101000000000000"));
    assert!(!rejected("CAN_RX bus=2 id=785 data=0100000000000000"));
    assert!(!rejected("ERROR"));
}

#[test]
fn log_keeps_the_newest_lines() {
    let mut logs = Vec::new();
    for i in 0..130 {
        push_log(&mut logs, format!("line {i}"));
    }
    assert_eq!(logs.len(), 120);
    assert_eq!(logs[0], "line 10");
    assert_eq!(logs[119], "line 129");
}
