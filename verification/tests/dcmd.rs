use host::dcmd;
use host::dcmd::{parse_status, validate, MotorCheck, ProfileError};

#[test]
fn encodes_negative_duty_and_decodes_status() {
    assert_eq!(dcmd::line(4, 1, -900), "CAN 2 784 01040100FC7C0000");
    let status = parse_status("CAN_RX bus=2 id=785 data=010001030064FC7C").unwrap();
    assert_eq!(status.duty, [100, -900]);
    assert!(parse_status("CAN_RX bus=2 id=769 data=010001030064FC7C").is_none());
}

#[test]
fn status_fields_and_their_limits() {
    let status = parse_status("CAN_RX bus=2 id=785 data=0102020300000001").unwrap();
    assert_eq!((status.result, status.mode, status.enabled), (2, 2, 3));
    assert_eq!(status.duty, [0, 1]);
    // Version, result, mode and enable mask are checked.
    assert!(parse_status("CAN_RX bus=2 id=785 data=0202020300000001").is_none());
    assert!(parse_status("CAN_RX bus=2 id=785 data=0103020300000001").is_none());
    assert!(parse_status("CAN_RX bus=2 id=785 data=0102030300000001").is_none());
    assert!(parse_status("CAN_RX bus=2 id=785 data=0102020400000001").is_none());
    // Other buses, malformed fields and short payloads are not a status.
    assert!(parse_status("CAN_RX bus=1 id=785 data=0102020300000001").is_none());
    assert!(parse_status("CAN_RX bus=2 id=785 junk data=0102020300000001").is_none());
    assert!(parse_status("CAN_RX bus=2 id=785 data=01020203000000").is_none());
    assert!(parse_status("CAN bus=2 id=785 data=0102020300000001").is_none());
    assert!(parse_status("").is_none());
}

fn motor(channel: u8) -> MotorCheck {
    MotorCheck {
        channel,
        input_axis: 1,
        unit_sign: true,
        maximum_duty: 100,
        named: true,
    }
}

#[test]
fn profile_check_rejects_duplicates_and_out_of_range_motors() {
    assert!(validate(&[]).is_ok());
    assert!(validate(&[motor(0), motor(1)]).is_ok());
    assert_eq!(validate(&[motor(0), motor(0)]), Err(ProfileError::Invalid));
    assert_eq!(validate(&[motor(2)]), Err(ProfileError::Invalid));
    assert!(validate(&[MotorCheck { input_axis: 6, ..motor(0) }]).is_err());
    assert!(validate(&[MotorCheck { unit_sign: false, ..motor(0) }]).is_err());
    assert!(validate(&[MotorCheck { maximum_duty: 901, ..motor(0) }]).is_err());
    assert!(validate(&[MotorCheck { maximum_duty: 900, ..motor(0) }]).is_ok());
    assert!(validate(&[MotorCheck { named: false, ..motor(0) }]).is_err());
    assert_eq!(
        ProfileError::Invalid.message(),
        "DCMDのchannel、入力、Duty上限が不正です"
    );
}
