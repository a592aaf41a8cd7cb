//! Sorting transport outcomes into success, retryable and fatal results, and
//! the admission gate that bounds how many exports run at once.
use vstd::prelude::*;

verus! {

/// What the transport reported for one send of a serialized batch.
#[derive(Clone, Copy, Debug, PartialEq, Eq, Structural)]
pub enum TransportOutcome {
    /// The collector took the batch.
    Delivered,
    /// No connection could be made, or it broke during the call.
    ConnectionFailed,
    /// The per-call timeout ran out.
    TimedOut,
    /// The collector answered with an HTTP-style status code.
    Status(u16),
}

/// Why an export failed.
#[derive(Clone, Copy, Debug, PartialEq, Eq, Structural)]
pub enum FailureReason {
    Connection,
    Timeout,
    /// A 5xx-style answer: the collector could not take the batch now.
    Unavailable(u16),
    /// Any other non-success answer: the batch itself was refused.
    Rejected(u16),
}

/// The outcome of exporting one batch.
#[derive(Clone, Copy, Debug, PartialEq, Eq, Structural)]
pub enum ExportResult {
    Success,
    RetryableFailure(FailureReason),
    FatalFailure(FailureReason),
}

/// Connection trouble, timeouts and 5xx answers may pass; 2xx is success;
/// every other status means the batch is refused for good.
pub open spec fn classification(o: TransportOutcome) -> ExportResult {
    match o {
        TransportOutcome::Delivered => ExportResult::Success,
        TransportOutcome::ConnectionFailed => ExportResult::RetryableFailure(FailureReason::Connection),
        TransportOutcome::TimedOut => ExportResult::RetryableFailure(FailureReason::Timeout),
        TransportOutcome::Status(c) => if 200 <= c < 300 {
            ExportResult::Success
        } else if 500 <= c < 600 {
            ExportResult::RetryableFailure(FailureReason::Unavailable(c))
        } else {
            ExportResult::FatalFailure(FailureReason::Rejected(c))
        },
    }
}

/// Classifies what the transport reported.
pub fn classify(o: TransportOutcome) -> (r: ExportResult)
    ensures
        r == classification(o),
{
    match o {
        TransportOutcome::Delivered => ExportResult::Success,
        TransportOutcome::ConnectionFailed => ExportResult::RetryableFailure(FailureReason::Connection),
        TransportOutcome::TimedOut => ExportResult::RetryableFailure(FailureReason::Timeout),
        TransportOutcome::Status(c) => {
            if 200 <= c && c < 300 {
                ExportResult::Success
            } else if 500 <= c && c < 600 {
                ExportResult::RetryableFailure(FailureReason::Unavailable(c))
            } else {
                ExportResult::FatalFailure(FailureReason::Rejected(c))
            }
        },
    }
}

/// An admission gate: at most `limit` exports hold a permit at once.
#[derive(Clone, Copy, Debug)]
pub struct ExportGate {
    in_flight: usize,
    limit: usize,
}

impl ExportGate {
    /// Permits held now.
    pub closed spec fn held(&self) -> nat {
        self.in_flight as nat
    }

    /// The most permits that can be held at once.
    pub closed spec fn bound(&self) -> nat {
        self.limit as nat
    }

    pub open spec fn inv(&self) -> bool {
        self.held() <= self.bound()
    }

    /// A gate with no permit held.
    pub fn new(limit: usize) -> (g: ExportGate)
        ensures
            g.inv(),
            g.held() == 0,
            g.bound() == limit,
    {
        ExportGate { in_flight: 0, limit }
    }

    /// Permits held now.
    pub fn in_flight(&self) -> (n: usize)
        ensures
            n == self.held(),
    {
        self.in_flight
    }

    /// Whether every permit is held.
    pub fn is_saturated(&self) -> (s: bool)
        ensures
            s == (self.held() >= self.bound()),
    {
        self.in_flight >= self.limit
    }

    /// Takes a permit if one is free.
    pub fn try_acquire(&mut self) -> (ok: bool)
        requires
            old(self).inv(),
        ensures
            final(self).inv(),
            final(self).bound() == old(self).bound(),
            ok == (old(self).held() < old(self).bound()),
            final(self).held() == old(self).held() + if ok { 1nat } else { 0nat },
    {
        if self.in_flight < self.limit {
            self.in_flight = self.in_flight + 1;
            true
        } else {
            false
        }
    }

    /// Gives a permit back.
    pub fn release(&mut self)
        requires
            old(self).inv(),
            old(self).held() > 0,
        ensures
            final(self).inv(),
            final(self).bound() == old(self).bound(),
            final(self).held() == old(self).held() - 1,
    {
        self.in_flight = self.in_flight - 1;
    }
}

} // verus!
