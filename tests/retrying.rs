use otlp_pipeline::export::{classify, ExportGate, ExportResult, FailureReason, TransportOutcome};
use otlp_pipeline::retry::{backoff_delay, capped_backoff_ms, BatchState, BatchTracker, RetryPolicy};

#[test]
fn backoff_doubles_up_to_the_cap() {
    assert_eq!(capped_backoff_ms(100, 10_000, 0), 100);
    assert_eq!(capped_backoff_ms(100, 10_000, 3), 800);
    assert_eq!(capped_backoff_ms(100, 10_000, 7), 10_000);
    assert_eq!(capped_backoff_ms(100, 10_000, u32::MAX), 10_000);
    assert_eq!(capped_backoff_ms(0, 10_000, 40), 0);
    assert_eq!(capped_backoff_ms(100, 50, 0), 50);
    assert_eq!(capped_backoff_ms(3, u64::MAX, 62), 3u64 << 62);
}

#[test]
fn jitter_moves_the_delay_within_its_span() {
    let p = RetryPolicy { base_delay_ms: 100, max_delay_ms: 1000, jitter_ms: 10, max_retries: 3 };
    assert_eq!(backoff_delay(&p, 2, 0), 390);
    assert_eq!(backoff_delay(&p, 2, 20), 410);
    assert_eq!(backoff_delay(&p, 2, 21), 390);
    assert_eq!(backoff_delay(&p, 9, 10), 1000);
    let flat = RetryPolicy { jitter_ms: 0, ..p };
    assert_eq!(backoff_delay(&flat, 2, 12345), 400);
    let wide = RetryPolicy { base_delay_ms: 5, max_delay_ms: 5, jitter_ms: 100, max_retries: 1 };
    assert_eq!(backoff_delay(&wide, 0, 0), 0);
}

#[test]
fn tracker_abandons_once_after_its_retries() {
    let mut t = BatchTracker::new(2);
    let fail = ExportResult::RetryableFailure(FailureReason::Timeout);
    t.mark_sent();
    assert_eq!(t.state(), BatchState::Sent);
    assert!(!t.on_result(fail));
    assert_eq!((t.state(), t.retries()), (BatchState::Retrying, 1));
    t.mark_sent();
    assert!(!t.on_result(fail));
    assert_eq!((t.state(), t.retries()), (BatchState::Retrying, 2));
    t.mark_sent();
    assert!(t.on_result(fail));
    assert_eq!((t.state(), t.retries()), (BatchState::Abandoned, 2));
    assert!(!t.on_result(fail));
    t.mark_sent();
    assert_eq!(t.state(), BatchState::Abandoned);
}

#[test]
fn tracker_success_and_fatal_are_final() {
    let mut t = BatchTracker::new(5);
    assert!(!t.on_result(ExportResult::Success));
    assert_eq!(t.state(), BatchState::Acked);
    assert!(!t.on_result(ExportResult::FatalFailure(FailureReason::Rejected(400))));
    assert_eq!(t.state(), BatchState::Acked);
    let mut f = BatchTracker::new(5);
    assert!(f.on_result(ExportResult::FatalFailure(FailureReason::Rejected(400))));
    assert_eq!((f.state(), f.retries()), (BatchState::Abandoned, 0));
}

#[test]
fn transport_outcomes_are_classified() {
    assert_eq!(classify(TransportOutcome::Delivered), ExportResult::Success);
    assert_eq!(classify(TransportOutcome::Status(204)), ExportResult::Success);
    assert_eq!(
        classify(TransportOutcome::ConnectionFailed),
        ExportResult::RetryableFailure(FailureReason::Connection)
    );
    assert_eq!(classify(TransportOutcome::TimedOut), ExportResult::RetryableFailure(FailureReason::Timeout));
    assert_eq!(
        classify(TransportOutcome::Status(503)),
        ExportResult::RetryableFailure(FailureReason::Unavailable(503))
    );
    assert_eq!(classify(TransportOutcome::Status(400)), ExportResult::FatalFailure(FailureReason::Rejected(400)));
    assert_eq!(classify(TransportOutcome::Status(302)), ExportResult::FatalFailure(FailureReason::Rejected(302)));
}

#[test]
fn gate_admits_up_to_its_limit() {
    let mut g = ExportGate::new(2);
    assert!(g.try_acquire());
    assert!(g.try_acquire());
    assert!(g.is_saturated());
    assert!(!g.try_acquire());
    g.release();
    assert_eq!(g.in_flight(), 1);
    assert!(g.try_acquire());
    let mut none = ExportGate::new(0);
    assert!(!none.try_acquire());
}
