use host::application::intake::{
    log, triage, Intake, IntakeError, Offer, Query, Triage, DEADLINE_MS, PENDING_LIMIT,
    STATUS_LOG_LIMIT,
};

fn queued_len(offer: Offer<String>) -> usize {
    match offer {
        Offer::Queued(v) => v.len(),
        _ => panic!("not queued"),
    }
}

#[test]
fn emergency_cancels_queued_motion_and_signals_before_worker_execution() {
    let mut intake: Intake<String> = Intake::new();
    assert_eq!(queued_len(intake.offer("run", "run".to_string(), true, 0)), 0);
    let dropped = match intake.offer("estop", "estop".to_string(), false, 0) {
        Offer::Queued(v) => v,
        _ => panic!("estop refused"),
    };
    assert_eq!(dropped.len(), 1);
    assert_eq!(dropped[0].request, "run");
    assert_eq!(IntakeError::Preempted.message(), "停止要求により取消");
    assert!(intake.take_emergency());
    assert!(!intake.take_emergency());
    let pending = intake.take();
    assert_eq!(pending.len(), 1);
    assert_eq!(pending[0].request, "estop");
    assert!(intake.take().is_empty());
}

#[test]
fn queries_are_answered_without_queueing() {
    let mut intake: Intake<String> = Intake::new();
    assert!(matches!(intake.offer("status", String::new(), false, 5), Offer::Query(Query::Status)));
    assert!(matches!(intake.offer("config", String::new(), false, 5), Offer::Query(Query::Config)));
    assert!(intake.take().is_empty());
}

#[test]
fn a_full_queue_refuses_all_but_stop() {
    let mut intake: Intake<u32> = Intake::new();
    for i in 0..PENDING_LIMIT {
        assert_eq!(queued_len_u32(intake.offer("run", i as u32, false, 10)), 0);
    }
    assert!(matches!(intake.offer("run", 99, false, 10), Offer::Busy));
    assert_eq!(IntakeError::Busy.message(), "操作受付が混雑しています");
    assert_eq!(queued_len_u32(intake.offer("stop", 100, true, 20)), PENDING_LIMIT);
    assert!(!intake.take_emergency());
    let pending = intake.take();
    assert_eq!(pending.len(), 1);
    assert_eq!(pending[0].request, 100);
    assert!(pending[0].manual);
    assert_eq!(pending[0].deadline_ms, 20 + DEADLINE_MS);
}

fn queued_len_u32(offer: Offer<u32>) -> usize {
    match offer {
        Offer::Queued(v) => v.len(),
        _ => panic!("not queued"),
    }
}

#[test]
fn requests_keep_their_order_and_deadline() {
    let mut intake: Intake<u32> = Intake::new();
    intake.offer("claim", 1, false, 100);
    intake.offer("run", 2, true, 150);
    let pending = intake.take();
    assert_eq!(pending.len(), 2);
    assert_eq!(pending[0].request, 1);
    assert_eq!(pending[0].deadline_ms, 1100);
    assert_eq!(pending[1].request, 2);
    assert_eq!(pending[1].deadline_ms, 1150);
}

#[test]
fn worker_triage_follows_emergency_and_deadline() {
    assert_eq!(triage("run", false, 1000, 1000), Triage::Run);
    assert_eq!(triage("run", false, 1001, 1000), Triage::Refuse(IntakeError::Expired));
    assert_eq!(triage("run", true, 0, 1000), Triage::Refuse(IntakeError::Emergency));
    assert_eq!(triage("estop", true, 0, 1000), Triage::Run);
    assert_eq!(triage("estop", true, 2000, 1000), Triage::Refuse(IntakeError::Expired));
    assert_eq!(IntakeError::Emergency.message(), "緊停により取消");
    assert_eq!(IntakeError::Expired.message(), "要求の実行期限切れ");
    assert_eq!(IntakeError::NoAnswer.message(), "応答期限切れ。状態を確認してください");
}

#[test]
fn status_log_keeps_the_newest_lines() {
    let mut logs: Vec<String> = Vec::new();
    for i in 0..STATUS_LOG_LIMIT {
        log(&mut logs, format!("line {i}"));
    }
    assert_eq!(logs.len(), STATUS_LOG_LIMIT);
    log(&mut logs, "last".to_string());
    assert_eq!(logs.len(), STATUS_LOG_LIMIT);
    assert_eq!(logs[0], "line 1");
    assert_eq!(logs[STATUS_LOG_LIMIT - 1], "last");
}
