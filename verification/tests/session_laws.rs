use host::diagnostics::fw_test::{Board, Session};

const NOW: u64 = 50_000;

#[test]
fn stopping_twice_changes_nothing_more() {
    let mut s = Session::new(Board::Network, 5000);
    s.command("on cctl.motor0 0.1", NOW).unwrap();
    s.command("on svmd.status", NOW).unwrap();
    s.command("on communication", NOW).unwrap();
    s.stop();
    let switches = s.switches();
    assert_eq!(switches, ["svmd.status"]);
    s.stop();
    assert_eq!(s.switches(), switches);
    assert!(s.output_expiries().is_empty());
    assert!(!s.watchdog_running());
}

#[test]
fn refused_commands_leave_the_session_alone() {
    let mut s = Session::new(Board::Svmd, 5000);
    s.command("on motor1 1500", NOW).unwrap();
    let before = s.output_expiries();
    for bad in ["on motor9 1500", "on motor1 2600", "blink", "on", "on motor1", "off motor1 3"] {
        assert!(s.command(bad, NOW + 1).is_err(), "{bad}");
        assert_eq!(s.output_expiries(), before);
    }
}

#[test]
fn outputs_expire_exactly_at_their_time() {
    let mut s = Session::new(Board::Svmd, 1000);
    s.command("on motor0 1500", NOW).unwrap();
    s.command("on motor1 1500", NOW + 10).unwrap();
    assert_eq!(s.tick(NOW + 999).len(), 1);
    assert_eq!(s.output_expiries().len(), 2);
    let off = s.tick(NOW + 1000);
    assert_eq!(off[0], "CAN 2 768 0102000000000000");
    assert_eq!(s.switches(), ["motor1"]);
    s.tick(NOW + 1010);
    assert!(s.switches().is_empty());
}

#[test]
fn the_watchdog_refuses_all_but_stop() {
    let mut s = Session::new(Board::Cctl, 5000);
    assert!(s.command("watchdog", NOW).is_err());
    s.command("on motor0 0.1", NOW).unwrap();
    s.command("watchdog", NOW).unwrap();
    assert!(s.watchdog_running());
    assert!(s.command("off motor0", NOW).is_err());
    assert!(s.tick(NOW + 499).is_empty());
    assert_eq!(s.command("stop", NOW).unwrap(), ["STOP", "ENABLE 7 0"]);
    assert!(!s.watchdog_running());
}

#[test]
fn motor_switches_are_the_outputs_waiting_to_switch_off() {
    let mut s = Session::new(Board::Network, 5000);
    s.command("on svmd.motor1 1500", NOW).unwrap();
    s.command("on cctl.motor0 0.1", NOW).unwrap();
    s.command("on svmd.status", NOW).unwrap();
    s.command("on communication", NOW).unwrap();
    let motors: Vec<String> = s
        .switches()
        .into_iter()
        .filter(|n| n.split('.').nth(1).is_some_and(|f| f.starts_with("motor")))
        .collect();
    let names: Vec<String> = s.output_expiries().into_iter().map(|(n, _)| n).collect();
    assert_eq!(motors, names);
    assert_eq!(names, ["cctl.motor0", "svmd.motor1"]);
}

#[test]
fn a_network_session_always_stops_with_the_same_lines() {
    let mut s = Session::new(Board::Network, 1000);
    s.command("on svmd.motor1 1500", NOW).unwrap();
    s.tick(NOW + 10);
    s.command("on communication", NOW + 20).unwrap();
    s.command("watchdog", NOW + 30).unwrap();
    s.tick(NOW + 100);
    let expected = ["STOP", "ENABLE 7 0", "CAN 2 768 0100000000000000", "CAN 2 784 0103000000000000"];
    assert_eq!(s.stop(), expected);
    assert!(s.output_expiries().is_empty());
    assert!(!s.watchdog_running());
    assert!(!s.switches().iter().any(|n| n == "communication"));
    assert_eq!(s.stop(), expected);
}

#[test]
fn a_tick_keeps_the_live_outputs_in_order_and_switches_off_the_rest() {
    let mut s = Session::new(Board::Svmd, 1000);
    s.command("on motor0 1500", NOW).unwrap();
    s.command("on motor1 1500", NOW + 500).unwrap();
    s.command("on motor2 1500", NOW + 600).unwrap();
    let lines = s.tick(NOW + 1000);
    assert!(lines.iter().any(|l| l == "CAN 2 768 0102000000000000"));
    assert_eq!(
        s.output_expiries(),
        [("motor1".to_string(), NOW + 1500), ("motor2".to_string(), NOW + 1600)]
    );
}

#[test]
fn the_watchdog_holds_the_session_until_it_ends() {
    let mut s = Session::new(Board::Svmd, 5000);
    s.command("on motor1 1500", NOW).unwrap();
    s.command("watchdog", NOW).unwrap();
    let before = (s.switches(), s.output_expiries());
    assert!(s.command("on motor2 1500", NOW + 100).is_err());
    assert!(s.command("watchdog", NOW + 100).is_err());
    assert!(s.tick(NOW + 499).is_empty());
    assert_eq!((s.switches(), s.output_expiries()), before);
    assert!(s.watchdog_running());
    assert_eq!(s.tick(NOW + 500), ["CAN 2 768 0100000000000000"]);
    assert!(!s.watchdog_running());
    assert!(s.output_expiries().is_empty());
    assert!(s.command("watchdog", NOW + 600).is_err());
}
