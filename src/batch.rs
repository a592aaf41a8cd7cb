//! Turns the span buffer into size- and time-bounded batches.
use vstd::prelude::*;

use crate::buffer::{min_int, SpanBuffer};
use crate::span::Span;

verus! {

/// Views each batch as its sequence of spans.
pub open spec fn batch_views(bs: Seq<Vec<Span>>) -> Seq<Seq<Span>> {
    bs.map_values(|b: Vec<Span>| b@)
}

/// Every batch holds between one and `max` spans.
pub open spec fn batches_bounded(bs: Seq<Seq<Span>>, max: nat) -> bool {
    forall|i: int| 0 <= i < bs.len() ==> 0 < #[trigger] bs[i].len() <= max
}

/// Collects buffered spans into batches of at most `max_batch_size` spans,
/// closing a batch early once `max_batch_delay` has passed since its first
/// span arrived. Times are in milliseconds on a clock the caller supplies.
#[derive(Debug)]
pub struct BatchAssembler {
    pending: Vec<Span>,
    first_arrival: Option<u64>,
    max_batch_size: usize,
    max_batch_delay: u64,
}

impl BatchAssembler {
    /// The spans of the batch being filled, in arrival order.
    pub closed spec fn pending_spec(&self) -> Seq<Span> {
        self.pending@
    }

    /// When the first span of the pending batch arrived, if any is pending.
    pub closed spec fn first_arrival_spec(&self) -> Option<u64> {
        self.first_arrival
    }

    /// The largest batch.
    pub closed spec fn size_limit(&self) -> nat {
        self.max_batch_size as nat
    }

    /// The longest a span waits for its batch to fill.
    pub closed spec fn delay_limit(&self) -> nat {
        self.max_batch_delay as nat
    }

    /// The pending batch is never over size, and has an arrival time exactly
    /// when it holds a span.
    pub open spec fn inv(&self) -> bool {
        &&& self.size_limit() > 0
        &&& self.pending_spec().len() <= self.size_limit()
        &&& (self.pending_spec().len() > 0 <==> self.first_arrival_spec().is_some())
    }

    /// Whether a batch of `len` spans whose first span arrived at `first` is
    /// closed at time `now`.
    pub open spec fn is_due(&self, len: nat, first: u64, now: u64) -> bool {
        len >= self.size_limit() || (len > 0 && now as int >= first as int + self.delay_limit())
    }

    /// How many spans a poll takes from a buffer holding `buf`.
    pub open spec fn taken(&self, buf: Seq<Span>) -> int {
        min_int(self.size_limit() - self.pending_spec().len(), buf.len() as int)
    }

    /// The pending batch after a poll takes its spans from `buf`.
    pub open spec fn gathered(&self, buf: Seq<Span>) -> Seq<Span> {
        self.pending_spec() + buf.take(self.taken(buf))
    }

    /// When the batch being filled was opened, if a poll at `now` opens it.
    pub open spec fn opened_at(&self, now: u64) -> u64 {
        if self.pending_spec().len() == 0 {
            now
        } else {
            self.first_arrival_spec().unwrap()
        }
    }

    /// Whether a poll at `now` over a buffer holding `buf` hands a batch out.
    pub open spec fn poll_emits(&self, buf: Seq<Span>, now: u64) -> bool {
        self.is_due(self.gathered(buf).len(), self.opened_at(now), now)
    }

    /// An assembler with nothing pending.
    pub fn new(max_batch_size: usize, max_batch_delay: u64) -> (a: BatchAssembler)
        requires
            max_batch_size > 0,
        ensures
            a.inv(),
            a.pending_spec() == Seq::<Span>::empty(),
            a.size_limit() == max_batch_size,
            a.delay_limit() == max_batch_delay,
    {
        BatchAssembler { pending: Vec::new(), first_arrival: None, max_batch_size, max_batch_delay }
    }

    /// The number of spans waiting in the pending batch.
    pub fn pending_len(&self) -> (n: usize)
        ensures
            n == self.pending_spec().len(),
    {
        self.pending.len()
    }

    /// The time at which the pending batch is closed by the delay, if any is pending.
    pub fn due_at(&self) -> (t: Option<u64>)
        requires
            self.inv(),
        ensures
            self.pending_spec().len() == 0 ==> t.is_none(),
            self.pending_spec().len() > 0 ==> t == Some(
                min_int(
                    self.first_arrival_spec().unwrap() as int + self.delay_limit(),
                    u64::MAX as int,
                ) as u64,
            ),
    {
        match self.first_arrival {
            None => None,
            Some(f) => Some(f.saturating_add(self.max_batch_delay)),
        }
    }

    /// The sleep after an empty poll at `now`: `idle_cap` with nothing
    /// pending, else the time left until the pending batch is due (the due
    /// time saturating at `u64::MAX`), at most `idle_cap`.
    pub open spec fn wait_spec(&self, now: u64, idle_cap: u64) -> int {
        if self.pending_spec().len() == 0 {
            idle_cap as int
        } else {
            let due = min_int(
                self.first_arrival_spec().unwrap() as int + self.delay_limit(),
                u64::MAX as int,
            );
            min_int(idle_cap as int, if now >= due { 0 } else { due - now })
        }
    }

    /// How long to sleep before the next poll after a poll at `now` that
    /// produced nothing: until the pending batch is due, and never longer than
    /// `idle_cap`.
    pub fn idle_wait(&self, now: u64, idle_cap: u64) -> (w: u64)
        requires
            self.inv(),
        ensures
            w == self.wait_spec(now, idle_cap),
            w <= idle_cap,
    {
        match self.first_arrival {
            None => idle_cap,
            Some(f) => {
                let due: u64 = f.saturating_add(self.max_batch_delay);
                let left: u64 = if now >= due {
                    0
                } else {
                    due - now
                };
                if left < idle_cap {
                    left
                } else {
                    idle_cap
                }
            },
        }
    }

    /// Moves spans from `buffer` into the pending batch, up to the size limit,
    /// then hands the batch out if it is full or its delay has passed at `now`.
    pub fn poll(&mut self, buffer: &mut SpanBuffer, now: u64) -> (r: Option<Vec<Span>>)
        requires
            old(self).inv(),
            old(buffer).inv(),
        ensures
            final(self).inv(),
            final(buffer).inv(),
            final(buffer).cap() == old(buffer).cap(),
            final(self).size_limit() == old(self).size_limit(),
            final(self).delay_limit() == old(self).delay_limit(),
            ({
                let k = old(self).taken(old(buffer)@);
                let all = old(self).gathered(old(buffer)@);
                let first = old(self).opened_at(now);
                &&& final(buffer)@ == old(buffer)@.skip(k)
                &&& old(self).is_due(all.len(), first, now) ==> {
                    &&& r is Some
                    &&& r.unwrap()@ == all
                    &&& final(self).pending_spec().len() == 0
                }
                &&& !old(self).is_due(all.len(), first, now) ==> {
                    &&& r is None
                    &&& final(self).pending_spec() == all
                    &&& all.len() > 0 ==> final(self).first_arrival_spec() == Some(first)
                }
            }),
    {
        let room: usize = self.max_batch_size - self.pending.len();
        let mut fresh = buffer.drain(room);
        if self.pending.len() == 0 && fresh.len() > 0 {
            self.first_arrival = Some(now);
        }
        self.pending.append(&mut fresh);
        let n: usize = self.pending.len();
        let due = match self.first_arrival {
            None => false,
            Some(f) => n >= self.max_batch_size || (now as u128) >= (f as u128) + (self.max_batch_delay as u128),
        };
        if due {
            let mut batch: Vec<Span> = Vec::new();
            std::mem::swap(&mut batch, &mut self.pending);
            self.first_arrival = None;
            Some(batch)
        } else {
            None
        }
    }

    /// Hands out everything pending and everything in `buffer` at once, as
    /// batches of at most the size limit, in buffer order, whatever their age.
    pub fn flush(&mut self, buffer: &mut SpanBuffer) -> (out: Vec<Vec<Span>>)
        requires
            old(self).inv(),
            old(buffer).inv(),
        ensures
            final(self).inv(),
            final(buffer).inv(),
            final(buffer).cap() == old(buffer).cap(),
            final(self).size_limit() == old(self).size_limit(),
            final(self).delay_limit() == old(self).delay_limit(),
            final(self).pending_spec().len() == 0,
            final(buffer)@.len() == 0,
            batch_views(out@).flatten() == old(self).pending_spec() + old(buffer)@,
            batches_bounded(batch_views(out@), old(self).size_limit()),
    {
        let ghost total = self.pending@ + buffer@;
        let mut out: Vec<Vec<Span>> = Vec::new();
        let room: usize = self.max_batch_size - self.pending.len();
        let mut fresh = buffer.drain(room);
        self.pending.append(&mut fresh);
        if self.pending.len() > 0 {
            let mut first: Vec<Span> = Vec::new();
            std::mem::swap(&mut first, &mut self.pending);
            out.push(first);
        }
        self.first_arrival = None;
        proof {
            let k = min_int(room as int, old(buffer)@.len() as int);
            assert(batch_views(out@).flatten() + buffer@ =~= total) by {
                if out@.len() > 0 {
                    assert(batch_views(out@) =~= seq![out@[0]@]);
                    seq![out@[0]@].lemma_flatten_one_element();
                } else {
                    assert(batch_views(out@) =~= Seq::<Seq<Span>>::empty());
                }
                assert(old(buffer)@ =~= old(buffer)@.take(k) + old(buffer)@.skip(k));
            }
        }
        while buffer.len() > 0
            invariant
                self.inv(),
                buffer.inv(),
                buffer.cap() == old(buffer).cap(),
                self.size_limit() == old(self).size_limit(),
                self.delay_limit() == old(self).delay_limit(),
                self.pending_spec().len() == 0,
                batch_views(out@).flatten() + buffer@ == total,
                batches_bounded(batch_views(out@), self.size_limit()),
                self.max_batch_size == self.size_limit(),
            decreases buffer@.len(),
        {
            let ghost before = out@;
            let ghost rest = buffer@;
            let batch = buffer.drain(self.max_batch_size);
            out.push(batch);
            proof {
                assert(batch_views(out@) =~= batch_views(before).push(batch@));
                batch_views(before).lemma_flatten_push(batch@);
                assert(rest =~= batch@ + buffer@);
            }
        }
        proof {
            assert(buffer@ =~= Seq::<Span>::empty());
            assert(batch_views(out@).flatten() + buffer@ =~= batch_views(out@).flatten());
        }
        out
    }
}

/// A pending batch is handed out by the first poll at or after its first
/// span's arrival plus the delay limit, however few spans it holds.
pub proof fn lemma_delay_closes_batch(a: BatchAssembler, buf: Seq<Span>, now: u64)
    requires
        a.inv(),
        a.pending_spec().len() > 0,
        now as int >= a.first_arrival_spec().unwrap() as int + a.delay_limit(),
    ensures
        a.poll_emits(buf, now),
{
}

/// With no delay limit, a poll that opens a batch hands it out at once.
pub proof fn lemma_zero_delay_closes_at_once(a: BatchAssembler, buf: Seq<Span>, now: u64)
    requires
        a.inv(),
        a.delay_limit() == 0,
        a.pending_spec().len() == 0,
        buf.len() > 0,
    ensures
        a.poll_emits(buf, now),
{
    assert(a.gathered(buf).len() == a.pending_spec().len() + a.taken(buf));
}

} // verus!
