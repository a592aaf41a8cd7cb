use otlp_pipeline::buffer::{BufferFull, SpanBuffer};
use otlp_pipeline::span::{Span, SpanStatus};

fn span(id: u64) -> Span {
    Span::new(1, id, format!("op-{id}"), 10, 20)
}

fn ids(spans: &[Span]) -> Vec<u64> {
    spans.iter().map(|s| s.span_id).collect()
}

#[test]
fn new_span_is_a_bare_root() {
    let s = span(9);
    assert_eq!(s.trace_id, 1);
    assert_eq!(s.span_id, 9);
    assert_eq!(s.parent_span_id, None);
    assert_eq!(s.name, "op-9");
    assert_eq!(s.status, SpanStatus::Unset);
    assert!(s.attributes.is_empty() && s.events.is_empty());
}

#[test]
fn capacity_two_refuses_the_third_span() {
    let mut b = SpanBuffer::new(2);
    assert_eq!(b.push(span(1)), Ok(()));
    assert_eq!(b.push(span(2)), Ok(()));
    assert_eq!(b.push(span(3)), Err(BufferFull));
    assert_eq!(b.len(), 2);
    let out = b.drain(10);
    assert_eq!(ids(&out), vec![1, 2]);
    assert!(b.is_empty());
}

#[test]
fn drain_takes_the_oldest_first() {
    let mut b = SpanBuffer::new(5);
    for i in 0..5 {
        b.push(span(i)).unwrap();
    }
    assert!(b.is_full());
    assert_eq!(ids(&b.drain(2)), vec![0, 1]);
    assert_eq!(ids(&b.drain(0)), Vec::<u64>::new());
    assert_eq!(ids(&b.drain(10)), vec![2, 3, 4]);
    assert_eq!(ids(&b.drain(10)), Vec::<u64>::new());
    assert_eq!(b.capacity(), 5);
}

#[test]
fn zero_capacity_buffer_takes_nothing() {
    let mut b = SpanBuffer::new(0);
    assert_eq!(b.push(span(1)), Err(BufferFull));
    assert!(b.is_empty());
}

#[test]
fn builders_fill_in_a_span() {
    let mut s = span(3).with_parent(1).with_status(SpanStatus::Failed);
    s.add_attribute("http.method".to_string(), "GET".to_string());
    s.add_event("retry".to_string(), 15);
    assert_eq!(s.parent_span_id, Some(1));
    assert_eq!(s.status, SpanStatus::Failed);
    assert_eq!(s.attributes.len(), 1);
    assert_eq!(s.attributes[0].key, "http.method");
    assert_eq!(s.attributes[0].value, "GET");
    assert_eq!(s.events[0].name, "retry");
    assert_eq!(s.events[0].time_unix_nano, 15);
    assert_eq!(s.span_id, 3);
}
