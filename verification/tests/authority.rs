use host::application::authority::{Authority, AuthorityError};

const NOW: u64 = 10_000;
const INPUT_TTL: u64 = 150;
const LEASE_TTL: u64 = 30_000;

#[test]
fn heartbeat_renews_ownership_but_not_stick_input() {
    let now = NOW;
    let mut authority = Authority::default();
    authority.claim("test".into(), now, 6);
    authority.set_input(0, now);
    authority.set_input(1, now + INPUT_TTL);
    let later = now + INPUT_TTL + 1;
    authority.authorize(Some("test"), false, false, later).unwrap();
    assert_eq!(authority.expire_inputs(later), [0]);
    assert!(authority.expire_inputs(later).is_empty());
    assert!(!authority.expired(later + LEASE_TTL));
    assert!(authority.expired(later + LEASE_TTL + 1));
}

#[test]
fn stop_is_unconditional_and_clearing_input_keeps_ownership() {
    let now = NOW;
    let mut authority = Authority::default();
    authority.claim("test".into(), now, 6);
    assert_eq!(
        authority.authorize(None, true, false, now),
        Err(AuthorityError::Busy)
    );
    assert_eq!(
        authority.authorize(Some("wrong"), false, false, now),
        Err(AuthorityError::Unauthorized)
    );
    assert!(authority.authorize(None, true, true, now).is_ok());
    assert!(authority.authorize(None, false, true, now).is_ok());
    authority.set_input(0, now);
    authority.clear_input();
    assert!(authority.active());
    assert!(authority.expire_inputs(now + 1000).is_empty());
    authority.release();
    assert!(!authority.active());
    assert!(authority.authorize(None, true, false, now).is_ok());
    assert_eq!(
        authority.authorize(Some("test"), false, false, now),
        Err(AuthorityError::Unauthorized)
    );
    assert!(!authority.expired(now + 10 * LEASE_TTL));
}

#[test]
fn time_never_runs_backwards_for_a_lease() {
    let mut authority = Authority::default();
    authority.claim("ai".into(), NOW, 2);
    assert!(!authority.expired(0));
    authority.set_input(1, NOW);
    assert!(authority.expire_inputs(NOW - 1000).is_empty());
    assert_eq!(AuthorityError::Busy.message(), "AI操作中です。停止は常に操作できます");
}
