use otlp_pipeline::config::{otlp_endpoint, ConfigError, ExportConfig, TransportKind, DEFAULT_OTLP_ENDPOINT};
use otlp_pipeline::controller::{Completion, Handoff, PipelineController, ShutdownStatus, SubmitError};
use otlp_pipeline::export::TransportOutcome;
use otlp_pipeline::retry::RetryPolicy;
use otlp_pipeline::sampler::{Decision, RATIO_SCALE};
use otlp_pipeline::span::Span;

fn span(id: u64) -> Span {
    Span::new(5, id, format!("op-{id}"), 0, 1)
}

fn config() -> ExportConfig {
    ExportConfig {
        service_name: "checkout".to_string(),
        resource_attributes: Vec::new(),
        transport: TransportKind::Otlp { endpoint: None },
        sampling_ratio: RATIO_SCALE,
        buffer_capacity: 8,
        max_batch_size: 2,
        max_batch_delay_ms: 100,
        retry: RetryPolicy { base_delay_ms: 50, max_delay_ms: 1000, jitter_ms: 0, max_retries: 1 },
        retry_queue_bound: 4,
        max_concurrent_exports: 2,
        shutdown_deadline_ms: 500,
    }
}

fn take(h: Handoff) -> otlp_pipeline::controller::Batch {
    match h {
        Handoff::Export(b) => b,
        other => panic!("expected a batch, got {:?}", other),
    }
}

#[test]
fn validation_names_each_problem() {
    assert!(config().validate().is_ok());
    let mut c = config();
    c.service_name = String::new();
    assert_eq!(c.validate(), Err(ConfigError::EmptyServiceName));
    let mut c = config();
    c.transport = TransportKind::Otlp { endpoint: Some(String::new()) };
    assert_eq!(c.validate(), Err(ConfigError::EmptyEndpoint));
    let mut c = config();
    c.transport = TransportKind::Jaeger { agent_endpoint: String::new() };
    assert_eq!(c.validate(), Err(ConfigError::EmptyEndpoint));
    let mut c = config();
    c.buffer_capacity = 0;
    assert_eq!(c.validate(), Err(ConfigError::ZeroBufferCapacity));
    let mut c = config();
    c.max_batch_size = 0;
    assert_eq!(c.validate(), Err(ConfigError::ZeroBatchSize));
    let mut c = config();
    c.retry_queue_bound = 0;
    assert_eq!(c.validate(), Err(ConfigError::ZeroRetryQueueBound));
    let mut c = config();
    c.max_concurrent_exports = 0;
    assert_eq!(c.validate(), Err(ConfigError::ZeroConcurrencyLimit));
    let mut c = config();
    c.retry.max_delay_ms = 10;
    assert_eq!(c.validate(), Err(ConfigError::BackoffCapBelowBase));
    let mut c = config();
    c.transport = TransportKind::Console;
    assert!(PipelineController::start(&c).is_ok());
    c.max_batch_size = 0;
    assert_eq!(PipelineController::start(&c).err(), Some(ConfigError::ZeroBatchSize));
}

#[test]
fn otlp_endpoint_falls_back_to_the_default() {
    assert_eq!(otlp_endpoint(&None), DEFAULT_OTLP_ENDPOINT);
    assert_eq!(otlp_endpoint(&Some("http://collector:4317".to_string())), "http://collector:4317");
}

#[test]
fn controller_samples_with_its_clamped_ratio() {
    let mut c = config();
    c.sampling_ratio = -3;
    let p = PipelineController::start(&c).unwrap();
    assert_eq!(p.sample(0), Decision::Drop);
    let mut c = config();
    c.sampling_ratio = RATIO_SCALE * 9;
    let p = PipelineController::start(&c).unwrap();
    assert_eq!(p.sample(u128::MAX), Decision::Sample);
}

#[test]
fn full_buffer_refuses_and_counts() {
    let mut c = config();
    c.buffer_capacity = 2;
    let mut p = PipelineController::start(&c).unwrap();
    assert_eq!(p.submit(span(1)), Ok(()));
    assert_eq!(p.submit(span(2)), Ok(()));
    assert_eq!(p.submit(span(3)), Err(SubmitError::BufferFull));
    assert_eq!(p.stats().accepted, 2);
    assert_eq!(p.stats().dropped_buffer_full, 1);
    assert_eq!(p.buffer_depth(), 2);
}

#[test]
fn delivered_batch_is_acked() {
    let mut p = PipelineController::start(&config()).unwrap();
    p.submit(span(1)).unwrap();
    p.submit(span(2)).unwrap();
    let b = take(p.poll_batch(0));
    assert_eq!(b.spans.iter().map(|s| s.span_id).collect::<Vec<_>>(), vec![1, 2]);
    assert_eq!(p.stats().batches_sent, 1);
    assert_eq!(p.complete(b, TransportOutcome::Delivered, 5, 0), Completion::Acked);
    assert_eq!(p.stats().exported, 2);
    assert_eq!(p.stats().batches_acked, 1);
}

#[test]
fn lone_span_waits_for_the_delay() {
    let mut p = PipelineController::start(&config()).unwrap();
    p.submit(span(1)).unwrap();
    assert!(matches!(p.poll_batch(0), Handoff::Idle));
    assert!(matches!(p.poll_batch(99), Handoff::Idle));
    let b = take(p.poll_batch(100));
    assert_eq!(b.spans.len(), 1);
}

#[test]
fn retryable_failure_is_retried_then_abandoned() {
    let mut p = PipelineController::start(&config()).unwrap();
    p.submit(span(1)).unwrap();
    p.submit(span(2)).unwrap();
    let b = take(p.poll_batch(0));
    let id = b.id;
    assert_eq!(
        p.complete(b, TransportOutcome::Status(503), 10, 0),
        Completion::RetryScheduled { due_at: 60 }
    );
    assert!(p.poll_retry(59).is_none());
    let again = p.poll_retry(60).expect("due");
    assert_eq!(again.id, id);
    assert_eq!(p.complete(again, TransportOutcome::TimedOut, 70, 0), Completion::Abandoned);
    let s = p.stats();
    assert_eq!(s.dropped_retries_exhausted, 2);
    assert_eq!(s.batches_abandoned, 1);
    assert_eq!(s.batches_sent, 2);
}

#[test]
fn fatal_failure_is_not_retried() {
    let mut p = PipelineController::start(&config()).unwrap();
    p.submit(span(1)).unwrap();
    p.submit(span(2)).unwrap();
    let b = take(p.poll_batch(0));
    assert_eq!(p.complete(b, TransportOutcome::Status(400), 1, 0), Completion::Abandoned);
    assert_eq!(p.stats().dropped_fatal, 2);
    assert!(p.poll_retry(u64::MAX).is_none());
}

#[test]
fn unknown_batch_changes_nothing() {
    let mut p = PipelineController::start(&config()).unwrap();
    let stray = otlp_pipeline::controller::Batch { id: 77, spans: vec![span(1)] };
    assert_eq!(p.complete(stray, TransportOutcome::Delivered, 0, 0), Completion::Unknown);
    assert_eq!(p.stats().exported, 0);
}

#[test]
fn full_retry_queue_abandons_its_oldest() {
    let mut c = config();
    c.retry_queue_bound = 1;
    let mut p = PipelineController::start(&c).unwrap();
    for i in 0..4 {
        p.submit(span(i)).unwrap();
    }
    let first = take(p.poll_batch(0));
    let second = take(p.poll_batch(0));
    assert!(matches!(p.complete(first, TransportOutcome::ConnectionFailed, 0, 0), Completion::RetryScheduled { .. }));
    assert!(matches!(p.complete(second, TransportOutcome::ConnectionFailed, 0, 0), Completion::RetryScheduled { .. }));
    assert_eq!(p.stats().dropped_retry_evicted, 2);
    let left = p.poll_retry(1000).unwrap();
    assert_eq!(left.spans.iter().map(|s| s.span_id).collect::<Vec<_>>(), vec![2, 3]);
}

#[test]
fn saturated_gate_holds_batches_and_shedding_counts_them() {
    let mut c = config();
    c.max_concurrent_exports = 1;
    let mut p = PipelineController::start(&c).unwrap();
    for i in 0..4 {
        p.submit(span(i)).unwrap();
    }
    let _held = take(p.poll_batch(0));
    assert!(matches!(p.poll_batch(0), Handoff::Saturated));
    assert_eq!(p.shed_batch(0), 2);
    assert_eq!(p.stats().dropped_backpressure, 2);
    assert_eq!(p.shed_batch(0), 0);
}

#[test]
fn shutdown_refuses_spans_flushes_and_accounts_for_all() {
    let mut p = PipelineController::start(&config()).unwrap();
    for i in 0..3 {
        p.submit(span(i)).unwrap();
    }
    assert_eq!(p.shutdown_step(0), ShutdownStatus::Running);
    p.begin_shutdown(1000);
    assert!(p.is_shutting_down_now());
    assert_eq!(p.submit(span(9)), Err(SubmitError::ShuttingDown));
    assert_eq!(p.stats().rejected_after_shutdown, 1);
    assert_eq!(p.buffer_depth(), 0);
    p.begin_shutdown(2000);
    let a = take(p.poll_batch(1001));
    let b = take(p.poll_batch(1001));
    assert_eq!(a.spans.len() + b.spans.len(), 3);
    assert_eq!(p.complete(a, TransportOutcome::Delivered, 1002, 0), Completion::Acked);
    assert_eq!(p.shutdown_step(1200), ShutdownStatus::Draining);
    assert_eq!(p.shutdown_step(1500), ShutdownStatus::Finished);
    let s = p.stats();
    assert_eq!(s.accepted, 3);
    assert_eq!(s.exported + s.dropped_shutdown, 3);
    assert_eq!(p.complete(b, TransportOutcome::Delivered, 1600, 0), Completion::Unknown);
}

#[test]
fn drained_shutdown_finishes_early() {
    let mut p = PipelineController::start(&config()).unwrap();
    p.submit(span(1)).unwrap();
    p.submit(span(2)).unwrap();
    let b = take(p.poll_batch(0));
    p.begin_shutdown(10);
    assert_eq!(p.shutdown_step(11), ShutdownStatus::Draining);
    p.complete(b, TransportOutcome::Delivered, 12, 0);
    assert_eq!(p.shutdown_step(13), ShutdownStatus::Finished);
    assert_eq!(p.stats().exported, 2);
    assert_eq!(p.stats().dropped_shutdown, 0);
}
