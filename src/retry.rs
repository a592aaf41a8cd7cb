//! Backoff between export attempts and the per-batch retry state machine.
use vstd::arithmetic::power2::{
    lemma_pow2_pos, lemma_pow2_strictly_increases, lemma_pow2_unfold, pow2,
};
use vstd::prelude::*;

use crate::buffer::min_int;
use crate::export::ExportResult;

verus! {

/// Retry tuning: the first backoff, its cap, the jitter span around it, and
/// the most retries a batch gets.
#[derive(Clone, Copy, Debug, PartialEq, Eq, Structural)]
pub struct RetryPolicy {
    pub base_delay_ms: u64,
    pub max_delay_ms: u64,
    pub jitter_ms: u64,
    pub max_retries: u32,
}

/// `base * 2^attempt`, capped at `cap`.
pub open spec fn capped_backoff(base: int, cap: int, attempt: nat) -> int {
    min_int(base * pow2(attempt), cap)
}

/// `delay` moved by a jitter in `[-jitter, +jitter]` picked by `draw`, kept
/// within `[0, u64::MAX]`.
pub open spec fn jittered(delay: int, jitter: int, draw: int) -> int {
    let moved = delay + draw % (2 * jitter + 1) - jitter;
    if moved < 0 {
        0
    } else {
        min_int(moved, u64::MAX as int)
    }
}

/// The wait before retry number `attempt + 1`, for a random `draw`.
pub open spec fn backoff_spec(policy: RetryPolicy, attempt: nat, draw: int) -> int {
    jittered(
        capped_backoff(policy.base_delay_ms as int, policy.max_delay_ms as int, attempt),
        policy.jitter_ms as int,
        draw,
    )
}

/// `base * 2^attempt`, capped at `cap`, without overflow.
pub fn capped_backoff_ms(base: u64, cap: u64, attempt: u32) -> (d: u64)
    ensures
        d == capped_backoff(base as int, cap as int, attempt as nat),
{
    let mut d: u64 = if base < cap {
        base
    } else {
        cap
    };
    let mut i: u32 = 0;
    proof {
        vstd::arithmetic::power2::lemma2_to64();
    }
    while i < attempt && d < cap && d > 0
        invariant
            i <= attempt,
            d == capped_backoff(base as int, cap as int, i as nat),
        decreases attempt - i,
    {
        proof {
            lemma_pow2_unfold((i + 1) as nat);
            assert(base * pow2((i + 1) as nat) == 2 * (base * pow2(i as nat))) by (nonlinear_arith)
                requires
                    pow2((i + 1) as nat) == 2 * pow2(i as nat),
            ;
        }
        d = if d > cap / 2 {
            cap
        } else {
            d * 2
        };
        i = i + 1;
    }
    proof {
        if i < attempt {
            if d == 0 {
                lemma_pow2_pos(i as nat);
                lemma_pow2_pos(attempt as nat);
                if cap > 0 {
                    assert(base == 0) by (nonlinear_arith)
                        requires
                            base * pow2(i as nat) == 0,
                            pow2(i as nat) > 0,
                    ;
                }
                assert(base * pow2(attempt as nat) >= 0) by (nonlinear_arith)
                    requires
                        pow2(attempt as nat) > 0,
                ;
                assert(base == 0 ==> base * pow2(attempt as nat) == 0) by (nonlinear_arith);
            } else {
                lemma_pow2_strictly_increases(i as nat, attempt as nat);
                assert(base * pow2(attempt as nat) >= base * pow2(i as nat)) by (nonlinear_arith)
                    requires
                        pow2(attempt as nat) > pow2(i as nat),
                        base >= 0,
                ;
            }
        }
    }
    d
}

/// The jittered backoff before retry number `attempt + 1`; `jitter_draw` is a
/// random value supplied by the caller.
pub fn backoff_delay(policy: &RetryPolicy, attempt: u32, jitter_draw: u64) -> (d: u64)
    ensures
        d == backoff_spec(*policy, attempt as nat, jitter_draw as int),
{
    let base: u64 = capped_backoff_ms(policy.base_delay_ms, policy.max_delay_ms, attempt);
    let j: u128 = policy.jitter_ms as u128;
    let offset: u128 = (jitter_draw as u128) % (2 * j + 1);
    let up: u128 = base as u128 + offset;
    if up < j {
        0
    } else {
        let moved: u128 = up - j;
        if moved > u64::MAX as u128 {
            u64::MAX
        } else {
            moved as u64
        }
    }
}

/// Where a batch stands in its export life.
#[derive(Clone, Copy, Debug, PartialEq, Eq, Structural)]
pub enum BatchState {
    Pending,
    Sent,
    Acked,
    Retrying,
    Abandoned,
}

/// Whether no further result changes the state.
pub open spec fn is_terminal(s: BatchState) -> bool {
    s == BatchState::Acked || s == BatchState::Abandoned
}

/// State and retry count after an export result, with `max` retries allowed.
/// A result that reaches a finished batch changes nothing.
pub open spec fn step(s: BatchState, retries: nat, max: nat, r: ExportResult) -> (BatchState, nat) {
    if is_terminal(s) {
        (s, retries)
    } else {
        match r {
            ExportResult::Success => (BatchState::Acked, retries),
            ExportResult::FatalFailure(_) => (BatchState::Abandoned, retries),
            ExportResult::RetryableFailure(_) => if retries < max {
                (BatchState::Retrying, retries + 1)
            } else {
                (BatchState::Abandoned, retries)
            },
        }
    }
}

/// State, retry count and number of moves into `Abandoned` after a run of
/// results.
pub open spec fn replay(s: BatchState, retries: nat, max: nat, rs: Seq<ExportResult>) -> (
    BatchState,
    nat,
    nat,
)
    decreases rs.len(),
{
    if rs.len() == 0 {
        (s, retries, 0)
    } else {
        let (s2, r2) = step(s, retries, max, rs[0]);
        let rest = replay(s2, r2, max, rs.drop_first());
        let moved: nat = if s2 == BatchState::Abandoned && s != BatchState::Abandoned {
            1
        } else {
            0
        };
        (rest.0, rest.1, rest.2 + moved)
    }
}

/// Whether a result is a retryable failure.
pub open spec fn is_retryable(r: ExportResult) -> bool {
    r is RetryableFailure
}

/// The export state of one batch and the retries it has used.
#[derive(Clone, Copy, Debug)]
pub struct BatchTracker {
    state: BatchState,
    retries: u32,
    max_retries: u32,
}

impl BatchTracker {
    pub closed spec fn state_spec(&self) -> BatchState {
        self.state
    }

    pub closed spec fn retries_spec(&self) -> nat {
        self.retries as nat
    }

    pub closed spec fn max_spec(&self) -> nat {
        self.max_retries as nat
    }

    /// Never more retries than allowed.
    pub open spec fn inv(&self) -> bool {
        self.retries_spec() <= self.max_spec()
    }

    /// A batch that has not been sent yet.
    pub fn new(max_retries: u32) -> (t: BatchTracker)
        ensures
            t.inv(),
            t.state_spec() == BatchState::Pending,
            t.retries_spec() == 0,
            t.max_spec() == max_retries,
    {
        BatchTracker { state: BatchState::Pending, retries: 0, max_retries }
    }

    pub fn state(&self) -> (s: BatchState)
        ensures
            s == self.state_spec(),
    {
        self.state
    }

    pub fn retries(&self) -> (n: u32)
        ensures
            n == self.retries_spec(),
    {
        self.retries
    }

    /// Records that an attempt went out; a finished batch stays finished.
    pub fn mark_sent(&mut self)
        requires
            old(self).inv(),
        ensures
            final(self).inv(),
            final(self).retries_spec() == old(self).retries_spec(),
            final(self).max_spec() == old(self).max_spec(),
            final(self).state_spec() == if is_terminal(old(self).state_spec()) {
                old(self).state_spec()
            } else {
                BatchState::Sent
            },
    {
        if self.state != BatchState::Acked && self.state != BatchState::Abandoned {
            self.state = BatchState::Sent;
        }
    }

    /// Applies an export result; returns whether this call moved the batch
    /// into `Abandoned`.
    pub fn on_result(&mut self, r: ExportResult) -> (abandoned_now: bool)
        requires
            old(self).inv(),
        ensures
            final(self).inv(),
            final(self).max_spec() == old(self).max_spec(),
            (final(self).state_spec(), final(self).retries_spec()) == step(
                old(self).state_spec(),
                old(self).retries_spec(),
                old(self).max_spec(),
                r,
            ),
            abandoned_now == (final(self).state_spec() == BatchState::Abandoned
                && old(self).state_spec() != BatchState::Abandoned),
    {
        if self.state == BatchState::Acked || self.state == BatchState::Abandoned {
            return false;
        }
        match r {
            ExportResult::Success => {
                self.state = BatchState::Acked;
                false
            },
            ExportResult::FatalFailure(_) => {
                self.state = BatchState::Abandoned;
                true
            },
            ExportResult::RetryableFailure(_) => {
                if self.retries < self.max_retries {
                    self.retries = self.retries + 1;
                    self.state = BatchState::Retrying;
                    false
                } else {
                    self.state = BatchState::Abandoned;
                    true
                }
            },
        }
    }
}

/// Over any run of results, a batch never uses more than `max` retries, is
/// moved into `Abandoned` at most once, and ends `Abandoned` exactly when it
/// was moved there.
pub proof fn lemma_retries_bounded(s: BatchState, retries: nat, max: nat, rs: Seq<ExportResult>)
    requires
        retries <= max,
        s != BatchState::Abandoned,
    ensures
        replay(s, retries, max, rs).1 <= max,
        replay(s, retries, max, rs).2 <= 1,
        (replay(s, retries, max, rs).0 == BatchState::Abandoned) == (replay(s, retries, max, rs).2
            == 1),
    decreases rs.len(),
{
    if rs.len() > 0 {
        let (s2, r2) = step(s, retries, max, rs[0]);
        if s2 == BatchState::Abandoned {
            lemma_abandoned_stays(r2, max, rs.drop_first());
        } else {
            lemma_retries_bounded(s2, r2, max, rs.drop_first());
        }
    }
}

/// Once abandoned, a batch stays so, with no further move counted.
pub proof fn lemma_abandoned_stays(retries: nat, max: nat, rs: Seq<ExportResult>)
    ensures
        replay(BatchState::Abandoned, retries, max, rs) == (BatchState::Abandoned, retries, 0nat),
    decreases rs.len(),
{
    if rs.len() > 0 {
        lemma_abandoned_stays(retries, max, rs.drop_first());
    }
}

/// A batch that keeps failing with retryable errors is abandoned, exactly
/// once, after its retries run out: `max - retries + 1` failures suffice.
pub proof fn lemma_exhaustion_abandons(s: BatchState, retries: nat, max: nat, rs: Seq<ExportResult>)
    requires
        retries <= max,
        !is_terminal(s),
        rs.len() > max - retries,
        forall|i: int| 0 <= i < rs.len() ==> is_retryable(#[trigger] rs[i]),
    ensures
        replay(s, retries, max, rs).0 == BatchState::Abandoned,
        replay(s, retries, max, rs).1 == max,
        replay(s, retries, max, rs).2 == 1,
    decreases rs.len(),
{
    assert(is_retryable(rs[0]));
    let (s2, r2) = step(s, retries, max, rs[0]);
    if retries < max {
        let tail = rs.drop_first();
        assert forall|i: int| 0 <= i < tail.len() implies is_retryable(#[trigger] tail[i]) by {
            assert(tail[i] == rs[i + 1]);
        }
        lemma_exhaustion_abandons(s2, r2, max, tail);
    } else {
        lemma_abandoned_stays(r2, max, rs.drop_first());
    }
}

} // verus!
