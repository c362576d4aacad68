use isuride_core::broker::Broker;
use isuride_core::payment::{
    classify_status, AttemptOutcome, NextStep, PaymentGatewayError, PaymentGatewayPostPaymentRequest,
    PaymentSession, RetryPolicy, MAX_RETRIES, RETRY_DELAY_MS,
};
use isuride_core::status::RideStatus;

#[test]
fn waiter_wakes_once_per_burst() {
    let mut b = Broker::new();
    let id = "chair-1".to_string();
    let mut w = b.subscribe(&id);
    assert!(!b.poll(&mut w));
    b.signal(&id);
    b.signal(&id);
    b.signal(&id);
    assert!(b.poll(&mut w));
    assert!(!b.poll(&mut w));
    b.signal(&id);
    assert!(b.poll(&mut w));
}

#[test]
fn signals_are_per_entity() {
    let mut b = Broker::new();
    let a = "a".to_string();
    let other = "b".to_string();
    let mut wa = b.subscribe(&a);
    let mut wb = b.subscribe(&other);
    b.signal(&a);
    assert!(b.poll(&mut wa));
    assert!(!b.poll(&mut wb));
    assert_eq!(b.version(&a), 1);
    assert_eq!(b.version(&other), 0);
}

#[test]
fn several_waiters_on_one_entity() {
    let mut b = Broker::new();
    let id = "u".to_string();
    let mut w1 = b.subscribe(&id);
    let mut w2 = b.subscribe(&id);
    b.signal(&id);
    assert!(b.poll(&mut w1));
    assert!(b.poll(&mut w2));
}

fn drive(session: &mut PaymentSession, outcomes: &[AttemptOutcome]) -> NextStep {
    let mut last = NextStep::RetryAfter(0);
    for o in outcomes {
        last = session.record(*o);
        if !matches!(last, NextStep::RetryAfter(_)) {
            break;
        }
    }
    last
}

#[test]
fn payment_succeeds_on_fifth_attempt() {
    let req = PaymentGatewayPostPaymentRequest { amount: 1200 };
    let mut s = PaymentSession::new(req, "token-1".to_string(), RetryPolicy::standard());
    let outcomes = [
        AttemptOutcome::TransportFailed,
        AttemptOutcome::TransportFailed,
        AttemptOutcome::TransportFailed,
        AttemptOutcome::TransportFailed,
        AttemptOutcome::Accepted,
    ];
    assert_eq!(drive(&mut s, &outcomes), NextStep::Settled);
    assert_eq!(s.attempts, 5);
    assert_eq!(s.token, "token-1");
    assert_eq!(s.request, req);
}

#[test]
fn payment_gives_up_after_six_failures() {
    let req = PaymentGatewayPostPaymentRequest { amount: 1 };
    let mut s = PaymentSession::new(req, "token-2".to_string(), RetryPolicy::standard());
    let outcomes = [AttemptOutcome::TransportFailed; 6];
    assert_eq!(drive(&mut s, &outcomes), NextStep::GiveUp(PaymentGatewayError::Transport));
    assert_eq!(s.attempts, 6);
    assert!(s.finished);
    assert_eq!(s.token, "token-2");
}

#[test]
fn retry_waits_the_configured_delay() {
    let mut s = PaymentSession::new(
        PaymentGatewayPostPaymentRequest { amount: 1 },
        "t".to_string(),
        RetryPolicy { max_retries: 1, delay_ms: 7 },
    );
    assert_eq!(s.record(AttemptOutcome::Rejected(500)), NextStep::RetryAfter(7));
    assert_eq!(
        s.record(AttemptOutcome::Rejected(503)),
        NextStep::GiveUp(PaymentGatewayError::UnexpectedStatus(503))
    );
}

#[test]
fn standard_policy() {
    let p = RetryPolicy::standard();
    assert_eq!(p.max_retries, MAX_RETRIES);
    assert_eq!(p.max_retries, 5);
    assert_eq!(p.delay_ms, RETRY_DELAY_MS);
    assert_eq!(p.delay_ms, 100);
}

#[test]
fn only_no_content_is_success() {
    assert_eq!(classify_status(204), AttemptOutcome::Accepted);
    assert_eq!(classify_status(200), AttemptOutcome::Rejected(200));
    assert_eq!(classify_status(500), AttemptOutcome::Rejected(500));
}

#[test]
fn fresh_token_is_a_ulid() {
    let s = PaymentSession::with_fresh_token(PaymentGatewayPostPaymentRequest { amount: 3 });
    assert_eq!(s.token.len(), 26);
    assert!(s.token.chars().all(|c| c.is_ascii_alphanumeric()));
    let t = PaymentSession::with_fresh_token(PaymentGatewayPostPaymentRequest { amount: 3 });
    assert_ne!(s.token, t.token);
}

#[test]
fn status_names_round_trip() {
    let all = [
        RideStatus::Matching,
        RideStatus::Enroute,
        RideStatus::Pickup,
        RideStatus::Carrying,
        RideStatus::Arrived,
        RideStatus::Completed,
        RideStatus::Canceled,
    ];
    for s in all {
        assert_eq!(RideStatus::parse(&s.as_str().to_string()), Some(s));
    }
    assert_eq!(RideStatus::parse(&"DONE".to_string()), None);
    assert_eq!(RideStatus::Carrying.as_str(), "CARRYING");
    assert!(RideStatus::Completed.is_terminal());
    assert!(!RideStatus::Arrived.is_terminal());
}
