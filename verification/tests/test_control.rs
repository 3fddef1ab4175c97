use host::application::worker::test_control::{
    output_disabled, poll_due, reply_faults, state_reply, test_tick, TestTick, TestTickError,
};
use host::diagnostics::individual::{Kind, Target};

const NOW: u64 = 100_000;

#[test]
fn state_replies_of_the_test_boards() {
    assert_eq!(
        state_reply("CAN_RX bus=2 id=769 data=0100000004000000"),
        Some((769, [1, 0, 0, 0, 4, 0, 0, 0]))
    );
    assert_eq!(
        state_reply("CAN_RX bus=2 id=801 data=0100010000000000"),
        Some((801, [1, 0, 1, 0, 0, 0, 0, 0]))
    );
    assert!(state_reply("CAN_RX bus=2 id=786 data=0100000000000000").is_none());
    assert!(state_reply("CAN_RX bus=2 id=785 data=0200000000000000").is_none());
}

#[test]
fn a_released_or_refused_output_is_a_fault_once_settled() {
    let pwm2 = Some(Target::Pwm(2));
    let on = [1, 0, 0, 0, 4, 0, 0, 0];
    let off = [1, 0, 0, 0, 0, 0, 0, 0];
    let refused = [1, 1, 0, 0, 4, 0, 0, 0];
    assert!(!output_disabled(Target::Pwm(2), &on));
    assert!(output_disabled(Target::Pwm(2), &off));
    // Before the start settles, an output still off is no fault.
    assert!(!reply_faults(true, pwm2, Some(NOW - 400), NOW, 769, &off));
    assert!(reply_faults(true, pwm2, Some(NOW - 501), NOW, 769, &off));
    assert!(reply_faults(true, pwm2, Some(NOW), NOW, 769, &refused));
    // Replies of other boards, or with no test on, never fault.
    assert!(!reply_faults(true, pwm2, Some(NOW - 1000), NOW, 785, &refused));
    assert!(!reply_faults(false, pwm2, Some(NOW - 1000), NOW, 769, &refused));
    assert!(output_disabled(Target::Dc, &[1, 0, 1, 0, 0, 0, 0, 0]));
    assert!(!output_disabled(Target::Dc, &[1, 0, 1, 1, 0, 0, 0, 0]));
    assert!(output_disabled(Target::Sts(3), &[1, 0, 0, 0, 0, 0, 0, 0]));
    assert!(!output_disabled(Target::Cctl(0), &[0; 8]));
}

#[test]
fn held_outputs_need_renewal_and_boards_must_answer() {
    let velocity = Some((Target::Cctl(1), Kind::Velocity));
    let position = Some((Target::Dc, Kind::Position));
    assert_eq!(test_tick(false, None, None, None, NOW), Ok(TestTick::Idle));
    assert_eq!(test_tick(true, None, None, None, NOW), Err(TestTickError::NoTarget));
    assert_eq!(test_tick(true, velocity, Some(NOW - 150), None, NOW), Ok(TestTick::Heartbeat));
    assert_eq!(test_tick(true, velocity, Some(NOW - 151), None, NOW), Ok(TestTick::Stop));
    assert_eq!(test_tick(true, velocity, None, None, NOW), Ok(TestTick::Stop));
    assert_eq!(test_tick(true, position, None, Some(NOW - 1999), NOW), Ok(TestTick::Heartbeat));
    assert_eq!(test_tick(true, position, None, Some(NOW - 2000), NOW), Ok(TestTick::Fault));
    assert_eq!(test_tick(true, position, None, None, NOW), Ok(TestTick::Fault));
    assert!(poll_due(true, None, NOW));
    assert!(!poll_due(true, Some(NOW - 500), NOW));
    assert!(poll_due(true, Some(NOW - 501), NOW));
    assert!(!poll_due(false, None, NOW));
}
