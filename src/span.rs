//! The finished span record that flows through the pipeline.
use vstd::prelude::*;

verus! {

/// One key/value attribute of a span.
#[derive(Clone, Debug, PartialEq, Eq)]
pub struct Attribute {
    pub key: String,
    pub value: String,
}

/// A timestamped event recorded on a span.
#[derive(Clone, Debug, PartialEq, Eq)]
pub struct SpanEvent {
    pub name: String,
    pub time_unix_nano: u64,
}

/// The final status of a span.
#[derive(Clone, Copy, Debug, PartialEq, Eq, Structural)]
pub enum SpanStatus {
    Unset,
    Succeeded,
    Failed,
}

/// A finished span. It is not changed once handed to the pipeline.
#[derive(Clone, Debug, PartialEq, Eq)]
pub struct Span {
    pub trace_id: u128,
    pub span_id: u64,
    pub parent_span_id: Option<u64>,
    pub name: String,
    pub start_time_unix_nano: u64,
    pub end_time_unix_nano: u64,
    pub status: SpanStatus,
    pub attributes: Vec<Attribute>,
    pub events: Vec<SpanEvent>,
}

impl Span {
    /// A root span with no attributes or events and an unset status.
    pub fn new(trace_id: u128, span_id: u64, name: String, start: u64, end: u64) -> (s: Span)
        ensures
            s.trace_id == trace_id,
            s.span_id == span_id,
            s.parent_span_id.is_none(),
            s.name@ == name@,
            s.start_time_unix_nano == start,
            s.end_time_unix_nano == end,
            s.status == SpanStatus::Unset,
            s.attributes@.len() == 0,
            s.events@.len() == 0,
    {
        Span {
            trace_id,
            span_id,
            parent_span_id: None,
            name,
            start_time_unix_nano: start,
            end_time_unix_nano: end,
            status: SpanStatus::Unset,
            attributes: Vec::new(),
            events: Vec::new(),
        }
    }

    /// The same span as a child of `parent`.
    pub fn with_parent(self, parent: u64) -> (s: Span)
        ensures
            s == (Span { parent_span_id: Some(parent), ..self }),
    {
        Span { parent_span_id: Some(parent), ..self }
    }

    /// The same span with its final status set.
    pub fn with_status(self, status: SpanStatus) -> (s: Span)
        ensures
            s == (Span { status, ..self }),
    {
        Span { status, ..self }
    }

    /// Appends an attribute, after those already recorded.
    pub fn add_attribute(&mut self, key: String, value: String)
        ensures
            final(self).attributes@ == old(self).attributes@.push(Attribute { key, value }),
            *final(self) == (Span { attributes: final(self).attributes, ..*old(self) }),
    {
        self.attributes.push(Attribute { key, value });
    }

    /// Appends an event, after those already recorded.
    pub fn add_event(&mut self, name: String, time_unix_nano: u64)
        ensures
            final(self).events@ == old(self).events@.push(SpanEvent { name, time_unix_nano }),
            *final(self) == (Span { events: final(self).events, ..*old(self) }),
    {
        self.events.push(SpanEvent { name, time_unix_nano });
    }
}

} // verus!
