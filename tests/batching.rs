use otlp_pipeline::batch::BatchAssembler;
use otlp_pipeline::buffer::SpanBuffer;
use otlp_pipeline::span::Span;

fn span(id: u64) -> Span {
    Span::new(1, id, format!("op-{id}"), 0, 1)
}

fn ids(spans: &[Span]) -> Vec<u64> {
    spans.iter().map(|s| s.span_id).collect()
}

#[test]
fn full_batch_is_emitted_at_once() {
    let mut buf = SpanBuffer::new(10);
    let mut a = BatchAssembler::new(3, 1000);
    for i in 0..3 {
        buf.push(span(i)).unwrap();
    }
    let batch = a.poll(&mut buf, 0).expect("a full batch");
    assert_eq!(ids(&batch), vec![0, 1, 2]);
    assert!(a.poll(&mut buf, 1).is_none());
    assert_eq!(a.pending_len(), 0);
}

#[test]
fn lone_span_is_emitted_after_the_delay() {
    let mut buf = SpanBuffer::new(10);
    let mut a = BatchAssembler::new(1000, 100);
    buf.push(span(7)).unwrap();
    assert!(a.poll(&mut buf, 0).is_none());
    assert_eq!(a.due_at(), Some(100));
    assert_eq!(a.idle_wait(50, 1000), 50);
    assert_eq!(a.idle_wait(50, 20), 20);
    assert!(a.poll(&mut buf, 99).is_none());
    let batch = a.poll(&mut buf, 100).expect("delay passed");
    assert_eq!(ids(&batch), vec![7]);
    assert_eq!(a.due_at(), None);
    assert_eq!(a.idle_wait(100, 250), 250);
}

#[test]
fn size_limit_splits_a_long_buffer() {
    let mut buf = SpanBuffer::new(10);
    let mut a = BatchAssembler::new(2, 1000);
    for i in 0..5 {
        buf.push(span(i)).unwrap();
    }
    assert_eq!(ids(&a.poll(&mut buf, 0).unwrap()), vec![0, 1]);
    assert_eq!(ids(&a.poll(&mut buf, 0).unwrap()), vec![2, 3]);
    assert!(a.poll(&mut buf, 0).is_none());
    assert_eq!(a.pending_len(), 1);
    assert_eq!(ids(&a.poll(&mut buf, 1000).unwrap()), vec![4]);
}

#[test]
fn flush_empties_everything_in_order() {
    let mut buf = SpanBuffer::new(10);
    let mut a = BatchAssembler::new(2, 1000);
    buf.push(span(0)).unwrap();
    assert!(a.poll(&mut buf, 0).is_none());
    for i in 1..4 {
        buf.push(span(i)).unwrap();
    }
    let batches = a.flush(&mut buf);
    let shapes: Vec<Vec<u64>> = batches.iter().map(|b| ids(b)).collect();
    assert_eq!(shapes, vec![vec![0, 1], vec![2, 3]]);
    assert!(buf.is_empty());
    assert_eq!(a.pending_len(), 0);
    assert!(a.flush(&mut buf).is_empty());
}
