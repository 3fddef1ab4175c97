use host::application::worker::bonus::{
    pad_steps_exec, Bonus, BonusAction, BonusError, BonusGate, BonusProfile, BonusReply,
    BonusRequest, BonusServo, PadStep, Phase, Servo, ServoReading,
};

fn profile() -> BonusProfile {
    BonusProfile {
        capacity: 6,
        box_offsets: vec![1000, 2000],
        selector_duty: 120,
        selector_slow_duty: 40,
        selector_tolerance_counts: 10,
        selector_slow_zone_counts: 200,
        handoff_direction: None,
        align_servo: Some(BonusServo { name: "bonus_align".to_string(), enabled: true }),
        lid_servo: Some(BonusServo { name: "bonus_lid".to_string(), enabled: true }),
        align_position: 2500,
        align_home_position: 2000,
        lid_open_position: 2600,
        lid_closed_position: 2100,
        servo_tolerance_counts: 20,
        dwell_ms: 500,
        cycle_timeout_ms: 10_000,
    }
}

fn gate() -> BonusGate {
    BonusGate { fresh: true, setup: true, emergency: false, other_motion: false }
}

/// The hand with its handoff at count 100, the selector there.
fn hand(now: u64) -> Bonus {
    let mut b = Bonus::new();
    b.handoff = Some(100);
    b.observe_encoder(100, now);
    b
}

fn reading(position: i32, seen_ms: u64) -> Option<ServoReading> {
    Some(ServoReading { seen_ms, error: 0, position })
}

#[test]
fn semi_auto_runs_box_alignment_lid_and_return_sequence() {
    let p = profile();
    let start = 1_000;
    let mut b = hand(start);
    b.semi_auto = true;
    let (actions, r) = b.request(Some(&p), gate(), BonusRequest::Receive(Some(6)), start);
    assert_eq!(r, Ok(BonusReply::Accepted));
    assert_eq!(b.phase, Phase::ToBox(1100));
    assert_eq!(actions[0], BonusAction::Dc(0, 0, 0));
    assert_eq!(actions[1], BonusAction::Dc(4, 0, 120));
    assert_eq!(actions[2], BonusAction::Dc(2, 1, 0));
    b.observe_encoder(1100, start);
    let (actions, r) = b.tick(Some(&p), None, None, start);
    assert!(r.is_ok());
    assert_eq!(b.phase, Phase::AlignOut);
    assert!(actions.contains(&BonusAction::Target(Servo::Align, 2500)));
    let (_, r) = b.tick(Some(&p), reading(2500, start), None, start);
    assert!(r.is_ok());
    assert_eq!(b.phase, Phase::AlignHome);
    let (_, r) = b.tick(Some(&p), reading(2000, start), None, start);
    assert!(r.is_ok());
    assert_eq!(b.phase, Phase::LidOpen);
    let after_dwell = start + 1_000;
    let (_, r) = b.tick(Some(&p), None, reading(2600, after_dwell), after_dwell);
    assert!(r.is_ok());
    assert_eq!(b.phase, Phase::LidClose);
    let (_, r) = b.tick(Some(&p), None, reading(2100, after_dwell), after_dwell);
    assert!(r.is_ok());
    assert_eq!(b.phase, Phase::Return(100));
    b.observe_encoder(100, after_dwell);
    let (actions, r) = b.tick(Some(&p), None, None, after_dwell);
    assert!(r.is_ok());
    assert!(!b.active());
    assert_eq!(b.loaded, 0);
    assert!(actions.contains(&BonusAction::Dc(3, 0, 0)));
}

#[test]
fn manual_selector_expires_and_capture_uses_current_encoder() {
    let p = profile();
    let now = 5_000;
    let mut b = hand(now);
    b.handoff = None;
    let (_, r) = b.request(Some(&p), gate(), BonusRequest::Capture, now);
    assert_eq!(r, Ok(BonusReply::Captured(100)));
    assert_eq!(b.handoff, Some(100));
    let (actions, r) = b.request(Some(&p), gate(), BonusRequest::Jog(Some(120)), now);
    assert_eq!(r, Ok(BonusReply::Accepted));
    assert_eq!(
        actions,
        vec![BonusAction::Dc(0, 0, 0), BonusAction::Dc(4, 0, 120), BonusAction::Dc(2, 1, 0)]
    );
    let deadline = b.manual_until.unwrap();
    assert_eq!(deadline, now + 200);
    let (actions, r) = b.tick(Some(&p), None, None, deadline);
    assert!(r.is_ok());
    assert!(b.manual_until.is_none());
    assert_eq!(b.last_dc.unwrap().0, 0);
    assert_eq!(actions, vec![BonusAction::Dc(4, 0, 0), BonusAction::Dc(3, 0, 0)]);
}

#[test]
fn manual_selector_stops_toward_handoff_limit_and_allows_retreat() {
    let mut p = profile();
    p.handoff_direction = Some(-1);
    let now = 7_000;
    let mut b = hand(now);
    b.observe_limit(true, now);
    let (_, r) = b.request(Some(&p), gate(), BonusRequest::Jog(Some(-120)), now);
    assert_eq!(r, Ok(BonusReply::LimitStop));
    assert!(b.manual_until.is_none());
    assert_eq!(b.last_dc.unwrap().0, 0);
    let (_, r) = b.request(Some(&p), gate(), BonusRequest::Jog(Some(120)), now);
    assert_eq!(r, Ok(BonusReply::Accepted));
    assert!(b.manual_until.is_some());
    assert!(b.last_dc.unwrap().0 > 0);
}

#[test]
fn return_limit_finishes_cycle_and_refreshes_handoff_count() {
    let mut p = profile();
    p.handoff_direction = Some(-1);
    let now = 9_000;
    let mut b = hand(now);
    b.observe_encoder(123, now);
    b.observe_limit(true, now);
    b.loaded = 6;
    b.phase = Phase::Return(100);
    b.cycle_started = Some(now);
    let (_, r) = b.tick(Some(&p), None, None, now);
    assert!(r.is_ok());
    assert!(!b.active());
    assert_eq!(b.handoff, Some(123));
    assert_eq!(b.loaded, 0);
}

#[test]
fn return_with_limit_keeps_seeking_slowly_after_encoder_reference() {
    let mut p = profile();
    p.handoff_direction = Some(-1);
    let now = 11_000;
    let mut b = hand(now);
    b.observe_encoder(100, now);
    b.observe_limit(false, now);
    b.phase = Phase::Return(100);
    b.cycle_started = Some(now);
    let (_, r) = b.tick(Some(&p), None, None, now);
    assert!(r.is_ok());
    assert!(b.active());
    assert_eq!(b.last_dc.unwrap().0, -40);
}

#[test]
fn a_cycle_never_starts_into_the_limit() {
    let mut p = profile();
    p.handoff_direction = Some(1);
    let now = 2_000;
    let mut b = hand(now);
    b.observe_limit(true, now);
    let (actions, r) = b.begin_cycle(&p, 0, now);
    assert_eq!(r, Err(BonusError::IntoLimit));
    assert!(actions.is_empty());
    assert_eq!(BonusError::IntoLimit.message(&p), "受け渡し側リミットへ押し込む向きには開始できません");
    let mut moving = hand(now);
    moving.observe_limit(true, now);
    moving.phase = Phase::ToBox(1100);
    moving.cycle_started = Some(now);
    let (actions, r) = moving.tick(Some(&p), None, None, now);
    assert_eq!(r, Err(BonusError::LimitWhileMoving));
    assert_eq!(actions, vec![BonusAction::Dc(6, 0, 0)]);
    assert_eq!(moving.phase, Phase::Idle);
}

#[test]
fn a_cycle_times_out_and_stale_readings_stop_it() {
    let p = profile();
    let now = 20_000;
    let mut b = hand(now);
    b.phase = Phase::ToBox(1100);
    b.cycle_started = Some(now - 10_001);
    let (_, r) = b.tick(Some(&p), None, None, now);
    assert_eq!(r, Err(BonusError::Timeout));
    let mut b = hand(now - 300);
    b.phase = Phase::ToBox(1100);
    b.cycle_started = Some(now);
    let (_, r) = b.tick(Some(&p), None, None, now);
    assert_eq!(r, Err(BonusError::EncoderStalled));
    assert_eq!(b.phase, Phase::Idle);
    assert_eq!(BonusError::EncoderStalled.message(&p), "AMT102-Vの更新が停止しました");
    let mut active = hand(now);
    active.phase = Phase::AlignOut;
    active.cycle_started = Some(now);
    let (_, r) = active.tick(None, None, None, now);
    assert_eq!(r, Err(BonusError::NotConfigured));
}

#[test]
fn requests_are_gated_and_manual_only_where_needed() {
    let p = profile();
    let now = 3_000;
    let mut b = hand(now);
    let (_, r) = b.request(Some(&p), BonusGate { emergency: true, ..gate() }, BonusRequest::Reset, now);
    assert_eq!(r, Err(BonusError::Unavailable));
    let (_, r) = b.request(Some(&p), BonusGate { other_motion: true, ..gate() }, BonusRequest::Reset, now);
    assert_eq!(r, Err(BonusError::OtherMotion));
    let (_, r) = b.request(None, gate(), BonusRequest::Reset, now);
    assert_eq!(r, Err(BonusError::NotConfigured));
    let (_, r) = b.request(Some(&p), gate(), BonusRequest::Select(Some(2)), now);
    assert_eq!(r, Err(BonusError::BadBox));
    let (_, r) = b.request(Some(&p), gate(), BonusRequest::Select(Some(1)), now);
    assert_eq!(r, Ok(BonusReply::Accepted));
    assert_eq!(b.selected_box, 1);
    let (_, r) = b.request(Some(&p), gate(), BonusRequest::Mode(Some(true)), now);
    assert_eq!(r, Ok(BonusReply::Accepted));
    let (_, r) = b.request(Some(&p), gate(), BonusRequest::Lid(Some(true)), now);
    assert_eq!(r, Err(BonusError::ManualOnly));
    let (_, r) = b.request(Some(&p), gate(), BonusRequest::Receive(Some(2)), now);
    assert_eq!(r, Ok(BonusReply::Accepted));
    assert_eq!(b.loaded, 2);
    let (_, r) = b.request(Some(&p), gate(), BonusRequest::Receive(Some(99)), now);
    assert_eq!(b.loaded, 6);
    assert_eq!(r, Ok(BonusReply::Accepted));
    assert_eq!(b.phase, Phase::ToBox(2100));
    let mut disabled = profile();
    disabled.lid_servo = Some(BonusServo { name: "bonus_lid".to_string(), enabled: false });
    let mut m = hand(now);
    let (_, r) = m.request(Some(&disabled), gate(), BonusRequest::Lid(None), now);
    assert_eq!(r, Err(BonusError::ServoDisabled(Servo::Lid)));
    assert_eq!(
        BonusError::ServoDisabled(Servo::Lid).message(&disabled),
        "bonus_lidの通常出力が許可されていません"
    );
    let (actions, r) = m.request(Some(&p), gate(), BonusRequest::Align(Some(true)), now);
    assert_eq!(r, Ok(BonusReply::Accepted));
    assert_eq!(actions, vec![BonusAction::Target(Servo::Align, 2500)]);
    assert!(m.outputs_active());
    assert_eq!(m.label(), "待機");
    m.cancel();
    assert!(!m.outputs_active());
}

fn press(indices: &[usize]) -> [u8; 17] {
    let mut b = [0u8; 17];
    for &i in indices {
        b[i] = 1;
    }
    b
}

#[test]
fn pad_buttons_map_to_bonus_steps_in_order() {
    let none = [0u8; 17];
    assert_eq!(
        pad_steps_exec(&press(&[0, 3, 6, 14]), &none, 2),
        vec![PadStep::Mode, PadStep::Receive, PadStep::Shoot, PadStep::Jog(1)]
    );
    assert_eq!(pad_steps_exec(&press(&[7, 8]), &none, 0), Vec::<PadStep>::new());
    assert_eq!(pad_steps_exec(&press(&[7]), &none, 3), vec![PadStep::PrevBox]);
    assert_eq!(pad_steps_exec(&none, &press(&[13]), 3), vec![PadStep::Jog(0)]);
    assert_eq!(pad_steps_exec(&press(&[13, 14]), &none, 3), Vec::<PadStep>::new());
    assert_eq!(pad_steps_exec(&press(&[4]), &press(&[4]), 3), Vec::<PadStep>::new());
    assert_eq!(
        pad_steps_exec(&press(&[1, 2, 11, 12]), &none, 1),
        vec![PadStep::Align(true), PadStep::Align(false), PadStep::Lid(true), PadStep::Lid(false)]
    );
}

#[test]
fn pad_layer_chooses_boxes_and_drives_by_hand() {
    let p = profile();
    let now = 40_000;
    let none = [0u8; 17];
    let mut b = hand(now);
    let (actions, r) = b.pad_layer(&p, gate(), &press(&[7]), &none, now);
    assert!(r.is_ok() && actions.is_empty());
    assert_eq!(b.selected_box, 1);
    let (_, r) = b.pad_layer(&p, gate(), &press(&[8]), &none, now);
    assert!(r.is_ok());
    assert_eq!(b.selected_box, 0);
    let (actions, r) = b.pad_layer(&p, gate(), &press(&[13]), &none, now);
    assert!(r.is_ok());
    assert_eq!(
        actions,
        vec![BonusAction::Dc(0, 0, 0), BonusAction::Dc(4, 0, -120), BonusAction::Dc(2, 1, 0)]
    );
    let (actions, r) = b.pad_layer(&p, gate(), &none, &press(&[13]), now + 10);
    assert!(r.is_ok());
    assert_eq!(actions, vec![BonusAction::Dc(4, 0, 0), BonusAction::Dc(3, 0, 0)]);
    assert!(b.manual_until.is_none());
}

#[test]
fn pad_layer_stops_at_the_first_refusal() {
    let p = profile();
    let now = 50_000;
    let none = [0u8; 17];
    let mut b = hand(now);
    b.handoff = None;
    let (actions, r) = b.pad_layer(&p, gate(), &press(&[3, 1]), &none, now);
    assert_eq!(r, Err(BonusError::NoHandoff));
    assert!(actions.is_empty());
    assert!(!b.sts_holding);
    let mut semi = hand(now);
    semi.semi_auto = true;
    let (actions, r) = semi.pad_layer(&p, gate(), &press(&[1, 14]), &none, now);
    assert!(r.is_ok() && actions.is_empty());
    let (_, r) = semi.pad_layer(&p, gate(), &press(&[6]), &none, now);
    assert!(r.is_ok());
    assert!(!semi.semi_auto);
}
