//! The bounded FIFO buffer between span producers and the batch assembler.
use std::collections::VecDeque;
use vstd::prelude::*;

use crate::span::Span;

verus! {

/// The buffer is at capacity and the span was not taken.
#[derive(Clone, Copy, Debug, PartialEq, Eq, Structural)]
pub struct BufferFull;

/// A queue of finished spans with a capacity fixed at construction.
#[derive(Debug)]
pub struct SpanBuffer {
    items: VecDeque<Span>,
    capacity: usize,
}

/// The smaller of two integers.
pub open spec fn min_int(a: int, b: int) -> int {
    if a < b {
        a
    } else {
        b
    }
}

impl View for SpanBuffer {
    type V = Seq<Span>;

    /// The buffered spans, oldest first.
    closed spec fn view(&self) -> Seq<Span> {
        self.items@
    }
}

impl SpanBuffer {
    /// The capacity that the buffer was built with.
    pub closed spec fn cap(&self) -> nat {
        self.capacity as nat
    }

    /// The buffer holds no more spans than its capacity.
    pub open spec fn inv(&self) -> bool {
        self@.len() <= self.cap()
    }

    /// An empty buffer that holds at most `capacity` spans.
    pub fn new(capacity: usize) -> (b: SpanBuffer)
        ensures
            b.inv(),
            b@ == Seq::<Span>::empty(),
            b.cap() == capacity,
    {
        SpanBuffer { items: VecDeque::new(), capacity }
    }

    /// The capacity that the buffer was built with.
    pub fn capacity(&self) -> (c: usize)
        ensures
            c == self.cap(),
    {
        self.capacity
    }

    /// The number of buffered spans.
    pub fn len(&self) -> (n: usize)
        ensures
            n == self@.len(),
    {
        self.items.len()
    }

    /// Whether no span is buffered.
    pub fn is_empty(&self) -> (e: bool)
        ensures
            e == (self@.len() == 0),
    {
        self.items.len() == 0
    }

    /// Whether the next push would fail.
    pub fn is_full(&self) -> (f: bool)
        ensures
            f == (self@.len() >= self.cap()),
    {
        self.items.len() >= self.capacity
    }

    /// Appends `span` at the back, or fails with `BufferFull` and leaves the
    /// contents as they were when the buffer is at capacity. Never blocks.
    pub fn push(&mut self, span: Span) -> (r: Result<(), BufferFull>)
        requires
            old(self).inv(),
        ensures
            final(self).inv(),
            final(self).cap() == old(self).cap(),
            old(self)@.len() < old(self).cap() ==> r is Ok && final(self)@ == old(self)@.push(span),
            old(self)@.len() >= old(self).cap() ==> r is Err && final(self)@ == old(self)@,
    {
        if self.items.len() >= self.capacity {
            Err(BufferFull)
        } else {
            self.items.push_back(span);
            Ok(())
        }
    }

    /// Removes and returns the oldest `min(max_n, len)` spans, oldest first.
    pub fn drain(&mut self, max_n: usize) -> (out: Vec<Span>)
        requires
            old(self).inv(),
        ensures
            final(self).inv(),
            final(self).cap() == old(self).cap(),
            out@ == old(self)@.take(min_int(max_n as int, old(self)@.len() as int)),
            final(self)@ == old(self)@.skip(min_int(max_n as int, old(self)@.len() as int)),
    {
        let mut out: Vec<Span> = Vec::new();
        let ghost start = self.items@;
        let ghost k = min_int(max_n as int, start.len() as int);
        let mut i: usize = 0;
        while i < max_n && self.items.len() > 0
            invariant
                i <= max_n,
                i <= k,
                self.capacity == old(self).capacity,
                start == old(self)@,
                k == min_int(max_n as int, start.len() as int),
                out@ == start.take(i as int),
                self.items@ == start.skip(i as int),
            decreases self.items@.len(),
        {
            let s = self.items.pop_front().unwrap();
            proof {
                assert(start.take(i as int + 1) =~= start.take(i as int).push(start[i as int]));
                assert(start.skip(i as int + 1) =~= start.skip(i as int).drop_first());
            }
            out.push(s);
            i = i + 1;
        }
        assert(i == k);
        out
    }
}

} // verus!
