use iplayer_catalog::model::FetchErrorKind;
use iplayer_catalog::retry::{backoff_delay, decide_retry, RetryDecision, RetryPolicy};

fn policy() -> RetryPolicy {
    RetryPolicy { max_attempts: 4, base_delay_ms: 100, max_delay_ms: 450 }
}

#[test]
fn transient_errors_back_off_doubling() {
    let p = policy();
    assert_eq!(
        decide_retry(&p, FetchErrorKind::Transient, 0),
        RetryDecision::RetryAfterMs(100)
    );
    assert_eq!(
        decide_retry(&p, FetchErrorKind::Transient, 1),
        RetryDecision::RetryAfterMs(200)
    );
    assert_eq!(
        decide_retry(&p, FetchErrorKind::Transient, 2),
        RetryDecision::RetryAfterMs(400)
    );
}

#[test]
fn attempts_are_bounded() {
    let p = policy();
    assert_eq!(decide_retry(&p, FetchErrorKind::Transient, 3), RetryDecision::GiveUp);
    assert_eq!(decide_retry(&p, FetchErrorKind::Transient, 100), RetryDecision::GiveUp);
}

#[test]
fn permanent_errors_never_retry() {
    let p = policy();
    assert_eq!(decide_retry(&p, FetchErrorKind::Permanent, 0), RetryDecision::GiveUp);
}

#[test]
fn backoff_saturates_at_the_cap() {
    let p = policy();
    assert_eq!(backoff_delay(&p, 0), 100);
    assert_eq!(backoff_delay(&p, 1), 200);
    assert_eq!(backoff_delay(&p, 2), 400);
    assert_eq!(backoff_delay(&p, 3), 450);
    assert_eq!(backoff_delay(&p, 10), 450);
    let tiny = RetryPolicy { max_attempts: 2, base_delay_ms: 500, max_delay_ms: 450 };
    assert_eq!(backoff_delay(&tiny, 0), 450);
}
