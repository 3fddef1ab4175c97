use host::diagnostics::fw_test::{describe, Board, Session};

const NOW: u64 = 1_000_000;

fn session(board: Board) -> Session {
    Session::new(board, 5000)
}

fn strs(v: &[String]) -> Vec<&str> {
    v.iter().map(|s| s.as_str()).collect()
}

#[test]
fn defaults_are_off_for_every_board() {
    for board in [Board::Cctl, Board::Svmd, Board::SerialSvmd, Board::Dcmd] {
        assert!(session(board).tick(NOW).is_empty());
    }
}

#[test]
fn svmd_status_polls_without_enabling_outputs() {
    let mut s = session(Board::Svmd);
    let now = NOW;
    s.command("on status", now).unwrap();
    assert_eq!(strs(&s.tick(now)), ["CAN 2 768 0103000000000000"]);
    assert!(s.output_expiries().is_empty());
    s.command("off status", now).unwrap();
    assert!(s.tick(now).is_empty());
}

#[test]
fn network_drives_every_board_over_one_link() {
    let now = NOW;
    let mut s = Session::new(Board::Network, 5000);

    assert!(s.command("on motor0 0.1", now).is_err());

    let cctl = s.command("on cctl.motor0 0.1", now).unwrap();
    assert!(cctl.iter().any(|line| line == "TARGET 0 0.1"));
    let svmd = s.command("on svmd.motor2 1500", now).unwrap();
    assert!(svmd.iter().any(|line| line.starts_with("CAN 2 768 ")));
    let dcmd = s.command("on dcmd.motor0 50", now).unwrap();
    assert!(dcmd.iter().any(|line| line.starts_with("CAN 2 784 ")));

    let switches = s.switches();
    for name in ["cctl.motor0", "svmd.motor2", "dcmd.motor0"] {
        assert!(switches.contains(&name.to_owned()), "{name} がない");
    }

    let tick = s.tick(now);
    assert!(tick.iter().any(|line| line == "HEARTBEAT"));
    assert!(tick.iter().any(|line| line.starts_with("CAN 2 768 ")));
    assert!(tick.iter().any(|line| line.starts_with("CAN 2 784 ")));

    let stop = s.stop();
    assert!(stop.iter().any(|line| line == "STOP"));
    assert!(stop.iter().any(|line| line.starts_with("CAN 2 768 ")));
    assert!(stop.iter().any(|line| line.starts_with("CAN 2 784 ")));
    assert!(s.output_expiries().is_empty());
}

#[test]
fn network_drops_boards_that_did_not_answer() {
    let now = NOW;
    let mut s = Session::new(Board::Network, 5000);
    s.retain_boards(&[Board::Svmd]);

    assert!(s.command("on svmd.motor0 1500", now).is_ok());
    assert!(s.command("on dcmd.motor0 50", now).is_err());
    assert!(s.command("on cctl.motor0 0.1", now).is_ok());
}

#[test]
fn single_board_keeps_unprefixed_names() {
    let now = NOW;
    let mut s = Session::new(Board::Cctl, 5000);
    assert!(s.command("on motor0 0.1", now).is_ok());
    assert!(s.switches().contains(&"motor0".to_owned()));
    assert!(s.command("on cctl.motor0 0.1", now).is_err());
}

#[test]
fn independent_outputs_and_expiry() {
    let now = NOW;
    for board in [Board::Cctl, Board::Svmd, Board::SerialSvmd] {
        let mut s = session(board);
        if s.command("on motor1 1500", now).is_err() {
            s.command("on motor1 0", now).unwrap();
        }
        if s.command("on motor2 1500", now + 1000).is_err() {
            s.command("on motor2 0", now + 1000).unwrap();
        }
        s.tick(now + 5000);
        assert!(!s.switches().contains(&"motor1".to_owned()));
        assert!(s.switches().contains(&"motor2".to_owned()));
        s.command("off motor2", now).unwrap();
        assert!(s.output_expiries().is_empty());
    }
}

#[test]
fn dcmd_signed_target_and_stop() {
    let mut s = session(Board::Dcmd);
    let commands = s.command("on motor0 -100", NOW).unwrap();
    assert_eq!(commands[1], "CAN 2 784 01040000FF9C0000");
    assert_eq!(commands[2], "CAN 2 784 0102010000000000");
    assert_eq!(
        strs(&s.command("off motor0", NOW).unwrap()),
        ["CAN 2 784 0103000000000000"]
    );
}

#[test]
fn invalid_commands_do_not_arm() {
    for (board, commands) in [
        (Board::Cctl, vec!["on motor3 0", "on motor0 NaN", "on motor2 13"]),
        (Board::Svmd, vec!["on motor4 1500", "on motor0 499", "on motor0 1500.5"]),
        (Board::SerialSvmd, vec!["on motor0 2000", "on motor1 4096"]),
        (Board::Dcmd, vec!["on motor1 10", "on motor0 101", "on motor0"]),
    ] {
        let mut s = session(board);
        for command in commands {
            assert!(s.command(command, NOW).is_err());
        }
        assert!(s.output_expiries().is_empty());
    }
}

#[test]
fn watchdog_silences_reads_and_heartbeat_without_restarting() {
    let mut s = session(Board::SerialSvmd);
    let now = NOW;
    s.command("on motor1 2000", now).unwrap();
    s.command("on read1", now).unwrap();
    s.command("on communication", now).unwrap();
    s.command("watchdog", now).unwrap();
    assert!(s.tick(now + 400).is_empty());
    assert!(s.command("on motor2 2000", now).is_err());
    assert_eq!(strs(&s.tick(now + 500)), ["STOP"]);
    assert!(s.tick(now + 1000).is_empty());
}

#[test]
fn encoder_observation_never_enables_motor() {
    let mut s = session(Board::Dcmd);
    s.command("on encoder", NOW).unwrap();
    assert!(s.tick(NOW).is_empty());
    assert!(s.visible("CAN_RX bus=2 id=786 data=0101000000010000", &[]));
    s.command("off encoder", NOW).unwrap();
    assert!(!s.visible("CAN_RX bus=2 id=786 data=0101000000010000", &[]));
}

#[test]
fn reads_rotate_and_can_be_disabled_independently() {
    let mut s = session(Board::SerialSvmd);
    let now = NOW;
    s.command("on read1", now).unwrap();
    s.command("on read12", now).unwrap();
    assert_eq!(strs(&s.tick(now)), ["SERVO READ 1"]);
    assert_eq!(strs(&s.tick(now)), ["SERVO READ 12"]);
    s.command("off read1", now).unwrap();
    assert_eq!(strs(&s.tick(now)), ["SERVO READ 12"]);
    assert!(s.output_expiries().is_empty());
}

#[test]
fn decodes_physical_feedback() {
    assert!(describe("CAN_RX bus=2 id=786 data=0101FFFFFFFE0003", None).ends_with("[encoder=-2 index=3]"));
    assert!(describe("CAN_RX bus=2 id=785 data=01000101FF9C0000", None)
        .ends_with("[result=0 mode=1 enabled=1 duty=-100]"));
    assert!(describe("CAN_RX bus=2 id=769 data=010001020405DC00", None)
        .ends_with("[result=0 channel=2 enabled_mask=4 pulse_us=1500]"));
    assert_eq!(
        describe("CAN_RX bus=2 id=786 data=invalid", None),
        "CAN_RX bus=2 id=786 data=invalid"
    );
}

#[test]
fn input_reports_show_only_with_inputs_on() {
    let mut s = session(Board::Dcmd);
    let report = "CAN_RX bus=2 id=787 data=0100030000000000";
    assert!(!s.visible(report, &[Board::Dcmd]));
    s.command("on inputs", NOW).unwrap();
    assert!(s.visible(report, &[Board::Dcmd]));
    assert!(!s.visible(report, &[Board::Svmd]));
    assert_eq!(describe(report, Some("DCMD SW=011")), "DCMD SW=011");
    assert_eq!(describe(report, None), report);
}

#[test]
fn motor_ids_fail_as_str_parse_fails() {
    let mut s = Session::new(Board::Svmd, 5000);
    let text = |s: &mut Session, l: &str| s.command(l, 1000).unwrap_err().message();
    assert_eq!(text(&mut s, "on motor 1500"), "cannot parse integer from empty string");
    assert_eq!(text(&mut s, "on motor300 1500"), "number too large to fit in target type");
    assert_eq!(text(&mut s, "on motorx 1500"), "invalid digit found in string");
}

#[test]
fn typed_values_read_as_a_float_parser_reads_them() {
    let mut s = Session::new(Board::Cctl, 5000);
    let target = |s: &mut Session, l: &str| s.command(l, 1000).unwrap()[1].clone();
    assert_eq!(target(&mut s, "on motor0 1e1"), "TARGET 0 10");
    assert_eq!(target(&mut s, "on motor0 1.25E1"), "TARGET 0 12.5");
    assert_eq!(target(&mut s, "on motor0 5e-1"), "TARGET 0 0.5");
    assert_eq!(target(&mut s, "on motor0 -.5e+0"), "TARGET 0 -0.5");
    assert_eq!(target(&mut s, "on motor1 2.6e4"), "TARGET 1 26000");
    assert_eq!(target(&mut s, "on motor0 0e99999999999999999999999"), "TARGET 0 0");
    let text = |s: &mut Session, l: &str| s.command(l, 1000).unwrap_err().message();
    assert_eq!(text(&mut s, "on motor0 1e30"), "FWの位置上限を超えています");
    assert_eq!(text(&mut s, "on motor0 3.4028235e38"), "FWの位置上限を超えています");
    assert_eq!(text(&mut s, "on motor0 3.4028236e38"), "有限値を指定してください");
    assert_eq!(text(&mut s, "on motor0 -1e39"), "有限値を指定してください");
    assert_eq!(text(&mut s, "on motor0 1e99999999999999999999999"), "有限値を指定してください");
    assert_eq!(text(&mut s, "on motor0 inf"), "有限値を指定してください");
    assert_eq!(text(&mut s, "on motor0 1e"), "invalid float literal");
    assert_eq!(text(&mut s, "on motor0 e5"), "invalid float literal");
    assert_eq!(text(&mut s, "on motor0 1e+"), "invalid float literal");
    assert_eq!(text(&mut s, "on motor0 1.5e2.0"), "invalid float literal");
    let mut svmd = Session::new(Board::Svmd, 5000);
    assert!(svmd.command("on motor1 1.5e3", 1000).is_ok());
    assert_eq!(
        svmd.command("on motor1 100000000000000000000", 1000).unwrap_err().message(),
        "500..2500の整数を指定してください"
    );
}
