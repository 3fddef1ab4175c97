use host::diagnostics::fw_test::{Board, Session};
use host::fw_test_transport::{
    answered, capability, check_device, expected_device, output_ids, prepare, probe_reply, probe_request,
    record_probe, PrepareError,
};

#[test]
fn preparation_halts_cctl_first_and_probes_the_boards_behind_it() {
    let mut s = Session::new(Board::Network, 5000);
    s.command("on cctl.motor0 0.1", 1000).unwrap();
    let p = prepare(Board::Network, &mut s);
    assert_eq!(&p.lines[..2], ["STOP", "ENABLE 7 0"]);
    assert!(p.lines[2..].iter().any(|l| l == "STOP"));
    assert!(p.lines.iter().any(|l| l.starts_with("CAN 2 768 ")));
    assert!(p.lines.iter().any(|l| l.starts_with("CAN 2 784 ")));
    assert_eq!(p.probes, [Board::Svmd, Board::Dcmd]);
    assert!(s.output_expiries().is_empty());

    let mut single = Session::new(Board::SerialSvmd, 5000);
    let p = prepare(Board::SerialSvmd, &mut single);
    assert_eq!(p.lines, ["STOP"]);
    assert!(p.probes.is_empty());

    let mut dcmd = Session::new(Board::Dcmd, 5000);
    let p = prepare(Board::Dcmd, &mut dcmd);
    assert_eq!(
        p.lines,
        ["STOP", "ENABLE 7 0", "CAN 2 784 0103000000000000"]
    );
    assert_eq!(p.probes, [Board::Dcmd]);
}

#[test]
fn probes_ask_for_state_and_recognise_the_answer() {
    assert_eq!(probe_request(Board::Svmd), "CAN 2 768 0103000000000000");
    assert_eq!(probe_request(Board::Dcmd), "CAN 2 784 0100000000000000");
    assert_eq!(probe_reply(Board::Svmd), "CAN_RX bus=2 id=769 data=0100");
    assert_eq!(probe_reply(Board::Dcmd), "CAN_RX bus=2 id=785 data=0100");
    let lines = vec![
        "STATE 1".to_string(),
        "CAN_RX bus=2 id=785 data=0100000000000000".to_string(),
    ];
    assert!(answered(&lines, &probe_reply(Board::Dcmd)));
    assert!(!answered(&lines, &probe_reply(Board::Svmd)));
    assert!(!answered(&[], "CAN_RX"));
}

#[test]
fn silent_boards_fail_a_single_target_but_not_the_network() {
    let mut reachable = Vec::new();
    assert_eq!(record_probe(Board::Network, Board::Svmd, true, &mut reachable), Ok(()));
    assert_eq!(record_probe(Board::Network, Board::Dcmd, false, &mut reachable), Ok(()));
    assert_eq!(reachable, [Board::Svmd]);
    let mut single = Vec::new();
    assert_eq!(
        record_probe(Board::Dcmd, Board::Dcmd, false, &mut single),
        Err(PrepareError::NoReply)
    );
    assert!(single.is_empty());
}

#[test]
fn capability_report_must_match_the_target() {
    assert_eq!(expected_device(Board::SerialSvmd), "serial_svmd");
    assert_eq!(expected_device(Board::Dcmd), "cctl");
    assert_eq!(check_device(Board::Cctl, 1, "cctl", &[1]), Ok(()));
    assert_eq!(check_device(Board::Svmd, 1, "cctl", &[1, 2]), Ok(()));
    assert_eq!(
        check_device(Board::Svmd, 1, "cctl", &[1]),
        Err(PrepareError::NoGateway)
    );
    assert_eq!(
        check_device(Board::Svmd, 2, "cctl", &[2]),
        Err(PrepareError::Mismatch)
    );
    assert_eq!(
        check_device(Board::SerialSvmd, 1, "cctl", &[]),
        Err(PrepareError::Mismatch)
    );
    assert_eq!(check_device(Board::SerialSvmd, 1, "serial_svmd", &[]), Ok(()));
    assert_eq!(
        PrepareError::NoReply.message(),
        "CAN先の基板応答がありません。電源・CAN配線・終端抵抗を確認してください"
    );
}

#[test]
fn output_ids_follow_the_outputs_that_are_on() {
    let mut s = Session::new(Board::Network, 5000);
    assert!(output_ids(&s).is_empty());
    s.command("on svmd.motor2 1500", 0).unwrap();
    s.command("on cctl.motor0 0.1", 0).unwrap();
    assert_eq!(output_ids(&s), ["cctl.motor0", "svmd.motor2"]);
}

#[test]
fn capability_reports_read_their_fields() {
    assert_eq!(
        capability("DEVICE protocol=1 board=cctl can=1,2"),
        Some((1, "cctl".to_string(), vec![1, 2]))
    );
    assert_eq!(
        capability("  DEVICE board=serial_svmd protocol=+3 extra=x"),
        Some((3, "serial_svmd".to_string(), vec![]))
    );
    assert_eq!(
        capability("DEVICE protocol=1 board=cctl can=2,,x,300,7 can=5"),
        Some((1, "cctl".to_string(), vec![5]))
    );
    assert_eq!(
        capability("DEVICE protocol=1 board=cctl can=2,,x,300,7"),
        Some((1, "cctl".to_string(), vec![2, 7]))
    );
    assert_eq!(capability("DEVICE protocol=1"), None);
    assert_eq!(capability("DEVICE protocol=x board=cctl"), None);
    assert_eq!(capability("DEVICE protocol=1 board=cctl stray"), None);
    assert_eq!(capability("DEVICES protocol=1 board=cctl"), None);
    assert_eq!(capability(""), None);
    assert_eq!(capability("DEVICE protocol=18446744073709551616 board=cctl"), None);
    assert_eq!(
        capability("DEVICE protocol=18446744073709551615 board=a=b"),
        Some((u64::MAX, "a=b".to_string(), vec![]))
    );
}
