use host::application::sts;
use host::application::sts::{decode_signed, frame, signed, validate_targets, Target, TargetError};

#[test]
fn wheel_and_step_use_sign_magnitude_and_reject_duplicates() {
    assert_eq!(signed(-100), 0x8064);
    assert_eq!(decode_signed(signed(-100), 15), -100);
    let t = Target::default();
    assert!(validate_targets(&[t.clone(), t]).is_err());
    assert!(validate_targets(&[Target {
        mode: 3,
        value: -28672,
        ..Target::default()
    }])
    .is_ok());
    assert!(validate_targets(&[Target {
        mode: 0,
        value: -28673,
        ..Target::default()
    }])
    .is_err());
}

#[test]
fn sign_magnitude_round_trips_across_the_range() {
    for v in [-32767i16, -1000, -1, 0, 1, 1000, 32767] {
        assert_eq!(decode_signed(signed(v), 15), i32::from(v));
    }
    assert_eq!(signed(1000), 1000);
    assert_eq!(signed(-32768), 0x8000);
    assert_eq!(decode_signed(0x0C05, 10), -5);
    assert_eq!(decode_signed(0x0405, 11), 1029);
}

#[test]
fn target_errors_name_their_cause() {
    assert_eq!(validate_targets(&[]), Err(TargetError::Count));
    let many = vec![Target::default(); 17];
    assert_eq!(validate_targets(&many), Err(TargetError::Count));
    assert_eq!(
        validate_targets(&[Target { id: 0, ..Target::default() }]),
        Err(TargetError::Id)
    );
    assert_eq!(
        validate_targets(&[Target { speed: 1001, ..Target::default() }]),
        Err(TargetError::Motion)
    );
    assert_eq!(
        validate_targets(&[Target { mode: 2, ..Target::default() }]),
        Err(TargetError::Value)
    );
    assert_eq!(
        validate_targets(&[Target { mode: 1, value: 1001, ..Target::default() }]),
        Err(TargetError::Value)
    );
    let distinct: Vec<Target> = (1..=16).map(|id| Target { id, ..Target::default() }).collect();
    assert!(validate_targets(&distinct).is_ok());
}

#[test]
fn frames_to_the_servo_board_are_upper_case_hex() {
    assert_eq!(
        sts::line([1, 2, 0xAB, 0, 0xFF, 0x10, 0, 9]),
        "CAN 2 800 0102AB00FF100009"
    );
    assert_eq!(
        frame("CAN_RX bus=2 id=801 data=0102AB00FF100009", 801),
        Some([1, 2, 0xAB, 0, 0xFF, 0x10, 0, 9])
    );
    assert_eq!(frame("CAN_RX bus=2 id=801 data=0202AB00FF100009", 801), None);
    assert_eq!(frame("CAN_RX bus=2 id=802 data=0102AB00FF100009", 801), None);
    assert_eq!(frame("CAN_RX bus=2 id=801 data=0102AB00FF1000", 801), None);
    assert_eq!(frame("CAN_RX bus=2 id=801 data=0102AB00FF10000G", 801), None);
}

#[test]
fn frame_reads_hex_pairs_as_u8_from_str_radix_does() {
    assert_eq!(
        frame("CAN_RX bus=2 id=801 data=+10203040506070F", 801),
        Some([1, 2, 3, 4, 5, 6, 7, 15])
    );
    assert_eq!(
        frame("CAN_RX bus=2 id=801 data=01020304050607ff", 801),
        Some([1, 2, 3, 4, 5, 6, 7, 255])
    );
    assert_eq!(frame("CAN_RX bus=2 id=801 data=01020304050607FF", 80), None);
    assert_eq!(frame("CAN_RX bus=2 id=801 data=-102030405060708", 801), None);
    assert_eq!(frame("CAN_RX bus=2 id=801 data=02020304050607FF", 801), None);
}

#[test]
fn formatted_frames_read_back() {
    let d: [u8; 8] = [1, 0xab, 0, 0x7f, 0x80, 0xff, 0x10, 0x09];
    let upper: String = d.iter().map(|b| format!("{b:02X}")).collect();
    let lower: String = d.iter().map(|b| format!("{b:02x}")).collect();
    for hex in [upper, lower] {
        let text = format!("CAN_RX bus=2 id=801 data={hex}");
        assert_eq!(frame(&text, 801), Some(d));
        assert_eq!(frame(&text, 802), None);
    }
    let mut other = d;
    other[0] = 2;
    let hex: String = other.iter().map(|b| format!("{b:02X}")).collect();
    assert_eq!(frame(&format!("CAN_RX bus=2 id=801 data={hex}"), 801), None);
    assert_eq!(frame("CAN_RX bus=2 id=801 data=01AB007F80FF10", 801), None);
    assert_eq!(frame("CAN_RX bus=2 id=801 data=01AB007F80FF10G9", 801), None);
    assert_eq!(frame("CAN_RX bus=2 id=801 data=01AB007F80FF1+09", 801), None);
}
