use host::application::sts::{Operation, Step, Target};
use host::application::worker::sts_control::{
    confirmation_message, Control, Rename, StsError, TickRequest,
};

const NOW: u64 = 1_000_000;

fn reply(data: &str) -> String {
    format!("CAN_RX bus=2 id=806 data={data}")
}

#[test]
fn a_register_read_is_sent_confirmed_and_reported() {
    let mut c = Control::default();
    let out = c.request(&Operation::Read { id: 12, address: 56, width: 2 }, true, true, NOW);
    assert_eq!(out.lines, ["CAN 2 800 0100000000000000"]);
    assert_eq!(out.result, Ok(()));
    assert!(c.busy());
    let tick = c.tick(NOW + 10, true);
    assert_eq!(tick.lines, ["CAN 2 800 01140C0138020000"]);
    // One operation in flight: nothing more is sent until it is confirmed.
    assert!(c.tick(NOW + 20, true).lines.is_empty());
    let seen = c.observe(&reply("01140C0100D20400"), NOW + 30).unwrap();
    let confirmation = seen.confirmation.unwrap();
    assert_eq!((confirmation.register, confirmation.value), (56, 1234));
    assert_eq!(confirmation_message(confirmation, 0), "ID 12 レジスタ56 = 1234");
    assert!(!c.busy());
}

#[test]
fn requests_are_exclusive_and_checked() {
    let mut c = Control::default();
    let read = Operation::Read { id: 1, address: 0, width: 1 };
    assert_eq!(c.request(&read, false, true, NOW).result, Err(StsError::WaitForConnection));
    assert_eq!(c.request(&read, true, false, NOW).result, Err(StsError::EndDriving));
    assert!(c.request(&read, true, true, NOW).result.is_ok());
    let busy = c.request(&read, true, true, NOW);
    assert_eq!(busy.result, Err(StsError::Busy));
    assert!(busy.lines.is_empty());
    let mut c = Control::default();
    let bad = Operation::Read { id: 1, address: 70, width: 2 };
    let refused = c.request(&bad, true, true, NOW);
    assert_eq!(refused.result, Err(StsError::ReadRange));
    assert_eq!(refused.lines, ["CAN 2 800 0100000000000000"]);
    let monitor = Operation::Monitor { ids: vec![0] };
    assert_eq!(c.request(&monitor, true, true, NOW).result, Err(StsError::MonitorRange));
    let config = Operation::Configure { id: 1, address: 5, width: 1, value: 2, single_servo: false };
    assert_eq!(c.request(&config, true, true, NOW).result, Err(StsError::SingleServo));
}

#[test]
fn stale_acknowledgements_cannot_complete_a_request() {
    let mut c = Control::default();
    c.request(&Operation::Read { id: 12, address: 56, width: 2 }, true, true, NOW);
    c.tick(NOW, true);
    // Same operation and servo, another tag.
    let seen = c.observe(&reply("01140C0900D20400"), NOW + 5).unwrap();
    assert!(seen.confirmation.is_none());
    assert!(c.busy());
    assert_eq!(c.tick(NOW + 1499, true).result, Ok(()));
    assert_eq!(c.tick(NOW + 1500, true).result, Err(StsError::NoAck));
}

#[test]
fn a_motion_checks_modes_and_a_wheel_lease_expires() {
    let mut c = Control::default();
    let wheel = Target { id: 3, mode: 1, value: -100, ..Target::default() };
    let out = c.request(&Operation::Move { targets: vec![wheel] }, true, true, NOW);
    assert_eq!(out.result, Ok(()));
    assert!(c.active());
    let first = c.tick(NOW + 1, true);
    assert_eq!(first.lines, ["CAN 2 800 0105000000000000", "CAN 2 800 011B000100000000"]);
    c.observe(&reply("011B000100000000"), NOW + 2).unwrap();
    let mode_read = c.tick(NOW + 3, true);
    assert_eq!(mode_read.lines[1], "CAN 2 800 0114030221010000");
    // The servo reports position mode, not wheel mode.
    assert_eq!(
        c.observe(&reply("0114030200000000"), NOW + 4),
        Err(StsError::ModeMismatch(3, 0, 1))
    );
    let expired = c.tick(NOW + 151, true);
    assert_eq!(expired.request, TickRequest::Stop);
    assert!(expired.lines.is_empty());
}

#[test]
fn a_sequence_runs_its_motions_then_stops() {
    let mut c = Control::default();
    let step = |id: u8| Step { wait_ms: 100, targets: vec![Target { id, ..Target::default() }] };
    let out = c.request(&Operation::Sequence { steps: vec![step(5), step(2), step(5)] }, true, true, NOW);
    assert_eq!(out.result, Ok(()));
    let too_short = Operation::Sequence { steps: vec![Step { wait_ms: 99, ..step(1) }] };
    assert_eq!(
        Control::default().request(&too_short, true, true, NOW).result,
        Err(StsError::WaitRange)
    );
    let many: Vec<Step> = (1..=17).map(step).collect();
    assert_eq!(
        Control::default().request(&Operation::Sequence { steps: many }, true, true, NOW).result,
        Err(StsError::TooManyServos)
    );
    // Drain the queue by confirming each extended operation.
    let mut now = NOW;
    let mut sent = 0;
    loop {
        now += 10;
        let tick = c.tick(now, true);
        if tick.request == TickRequest::SequenceDone {
            break;
        }
        if let Some(frame) = tick.lines.iter().find(|l| l.starts_with("CAN 2 800 01") && !l.ends_with("0105000000000000")) {
            sent += 1;
            let data = &frame["CAN 2 800 ".len()..];
            let op = u8::from_str_radix(&data[2..4], 16).unwrap();
            if op >= 20 {
                let mut ack = data[..8].to_string();
                ack.push_str(if op == 20 { "00000000" } else { "00000000" });
                let seen = c.observe(&reply(&ack), now);
                assert!(seen.is_ok(), "{frame}");
            }
            now += 100;
        }
        assert!(sent < 100);
    }
    assert_eq!(sent, 3 * 5);
}

#[test]
fn scans_and_renames_are_reported() {
    let mut c = Control::default();
    let out = c.request(&Operation::Scan { first: 1, last: 3 }, true, true, NOW);
    assert!(out.clear_discovered);
    assert_eq!(out.lines, ["CAN 2 800 0100000000000000", "CAN 2 800 0103000000000000"]);
    assert_eq!(c.tick(NOW, true).lines, ["CAN 2 800 0119010100000000"]);
    let found = c.observe(&reply("0119010100000000"), NOW).unwrap();
    assert_eq!(found.discovered, Some(1));
    assert_eq!(c.tick(NOW, true).lines, ["CAN 2 800 0119020200000000"]);
    let none = c.observe(&reply("0119020203000000"), NOW).unwrap();
    assert_eq!(none.discovered, None);
    assert_eq!(
        confirmation_message(none.confirmation.unwrap(), 1),
        "ID 2 まで探索中・1台検出"
    );
    let mut c = Control::default();
    let rename = Operation::Configure { id: 1, address: 5, width: 1, value: 9, single_servo: true };
    c.request(&rename, true, true, NOW);
    c.tick(NOW, true);
    let seen = c.observe(&reply("0115010100000000"), NOW).unwrap();
    assert_eq!(seen.renamed, Some(Rename { from: 1, to: 9 }));
    assert_eq!(
        StsError::Failed(3, 21, 2, 10).message(),
        "STS ID 3 op=21 result=2 flags=0x0A。設定変更中なら新旧ID/baudを確認してください"
    );
}
