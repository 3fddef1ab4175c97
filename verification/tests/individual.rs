use host::diagnostics::individual::{IndividualError, Kind, Target};
use host::text::IntError;

#[test]
fn every_target_key_parses_back() {
    let targets = [
        Target::Cctl(0),
        Target::Cctl(2),
        Target::Pwm(0),
        Target::Pwm(3),
        Target::Sts(1),
        Target::Sts(253),
        Target::Dc,
    ];
    for t in targets {
        assert_eq!(Target::parse(&t.key()), Ok(t));
    }
    assert_eq!(Target::Sts(12).key(), "sts:12");
    assert_eq!(Target::Dc.key(), "dc:0");
}

#[test]
fn target_errors_follow_the_parse_order() {
    assert_eq!(Target::parse("cctl0"), Err(IndividualError::Format));
    assert_eq!(Target::parse("cctl:x"), Err(IndividualError::InvalidInteger(IntError::InvalidDigit)));
    assert_eq!(Target::parse("cctl:256"), Err(IndividualError::InvalidInteger(IntError::PosOverflow)));
    assert_eq!(Target::parse("cctl:"), Err(IndividualError::InvalidInteger(IntError::Empty)));
    assert_eq!(Target::parse("cctl:3"), Err(IndividualError::Unsupported));
    assert_eq!(Target::parse("pwm:4"), Err(IndividualError::Unsupported));
    assert_eq!(Target::parse("sts:0"), Err(IndividualError::Unsupported));
    assert_eq!(Target::parse("sts:254"), Err(IndividualError::Unsupported));
    assert_eq!(Target::parse("dc:1"), Err(IndividualError::Unsupported));
    assert_eq!(Target::parse("can:1"), Err(IndividualError::Unsupported));
    assert_eq!(Target::parse("sts:+7"), Ok(Target::Sts(7)));
    assert_eq!(Target::parse("pwm:a:1"), Err(IndividualError::InvalidInteger(IntError::InvalidDigit)));
}

#[test]
fn modes_parse_and_name_themselves() {
    for k in [Kind::Position, Kind::Velocity, Kind::Duty] {
        assert_eq!(Kind::parse(k.key()), Ok(k));
    }
    assert_eq!(Kind::parse("torque"), Err(IndividualError::Kind));
    assert!(!Kind::Position.momentary());
    assert!(Kind::Velocity.momentary());
    assert!(Kind::Duty.momentary());
}

#[test]
fn boards_and_heartbeats() {
    assert_eq!(Target::Cctl(1).board(), "cctl");
    assert_eq!(Target::Pwm(1).board(), "pwm");
    assert_eq!(Target::Sts(1).board(), "sts");
    assert_eq!(Target::Dc.board(), "dc");
    assert_eq!(Target::Cctl(1).heartbeat(), "HEARTBEAT");
    assert_eq!(Target::Pwm(2).heartbeat(), "CAN 2 768 0103000000000000");
    assert_eq!(Target::Sts(9).heartbeat(), "CAN 2 800 0105000000000000");
    assert_eq!(Target::Dc.heartbeat(), "CAN 2 784 0105000000000000");
    assert_eq!(IndividualError::Format.message(), "基板:チャネルを指定してください");
}

#[test]
fn beginning_a_test_prepares_the_board() {
    assert_eq!(Target::Cctl(0).begin(), ["ENABLE 7 0", "ENABLE 1 1", "RUN"]);
    assert_eq!(Target::Cctl(2).begin(), ["ENABLE 7 0", "ENABLE 4 1", "RUN"]);
    assert_eq!(Target::Sts(5).begin(), ["CAN 2 800 0103000000000000"]);
    assert_eq!(Target::Dc.begin(), ["CAN 2 784 0100000000000000"]);
    assert!(Target::Pwm(1).begin().is_empty());
}

#[test]
fn channel_errors_read_as_str_parse_writes_them() {
    let text = |t: &str| Target::parse(t).unwrap_err().message();
    assert_eq!(text("cctl:"), "cannot parse integer from empty string");
    assert_eq!(text("cctl:300"), "number too large to fit in target type");
    assert_eq!(text("cctl:3x"), "invalid digit found in string");
    assert_eq!(text("cctl:+"), "invalid digit found in string");
    assert_eq!(text("cctl:-1"), "invalid digit found in string");
    assert_eq!(text("sts:2560"), "number too large to fit in target type");
    assert_eq!(text("sts:26x"), "invalid digit found in string");
}
