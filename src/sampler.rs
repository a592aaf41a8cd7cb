//! Trace-id ratio sampling.
//!
//! A sampling ratio is a fixed-point number: `RATIO_SCALE` stands for 1.0, so
//! `RATIO_SCALE / 4` is a quarter of all traces. The decision depends on the
//! trace id and the ratio alone, so every span of a trace gets the same answer.
use vstd::prelude::*;

verus! {

/// The fixed-point value that stands for a ratio of 1.0 (one billionth steps).
pub const RATIO_SCALE: i64 = 1_000_000_000;

/// Whether a trace is kept.
#[derive(Clone, Copy, Debug, PartialEq, Eq, Structural)]
pub enum Decision {
    Sample,
    Drop,
}

/// The uniform draw taken from a trace id: its low 64 bits, shifted right by one,
/// so a value in `[0, 2^63)`.
pub open spec fn trace_draw(trace_id: u128) -> int {
    (trace_id as int % 0x1_0000_0000_0000_0000) / 2
}

/// The number of draws out of `2^63` that a ratio keeps.
pub open spec fn sample_bound(ratio: int) -> int {
    ratio * 0x8000_0000_0000_0000 / (RATIO_SCALE as int)
}

/// The decision for a trace id at a ratio.
pub open spec fn decision_of(trace_id: u128, ratio: int) -> Decision {
    if ratio >= RATIO_SCALE as int {
        Decision::Sample
    } else if ratio <= 0 {
        Decision::Drop
    } else if trace_draw(trace_id) < sample_bound(ratio) {
        Decision::Sample
    } else {
        Decision::Drop
    }
}

/// The ratio clamped to `[0, RATIO_SCALE]`.
pub open spec fn clamp_ratio(ratio: int) -> int {
    if ratio < 0 {
        0
    } else if ratio > RATIO_SCALE as int {
        RATIO_SCALE as int
    } else {
        ratio
    }
}

/// Decides whether the trace `trace_id` is kept at `ratio`.
pub fn decide(trace_id: u128, ratio: i64) -> (d: Decision)
    ensures
        d == decision_of(trace_id, ratio as int),
{
    if ratio >= RATIO_SCALE {
        Decision::Sample
    } else if ratio <= 0 {
        Decision::Drop
    } else {
        let low: u64 = (trace_id % 0x1_0000_0000_0000_0000u128) as u64;
        let draw: u64 = low / 2;
        let r: u128 = ratio as u128;
        assert(r * 0x8000_0000_0000_0000 < 0x1_0000_0000_0000_0000_0000_0000_0000) by (nonlinear_arith)
            requires
                r < 1_000_000_000,
        ;
        let bound: u128 = r * 0x8000_0000_0000_0000u128 / (RATIO_SCALE as u128);
        if (draw as u128) < bound {
            Decision::Sample
        } else {
            Decision::Drop
        }
    }
}

/// A sampler with its ratio fixed at construction.
#[derive(Clone, Copy, Debug)]
pub struct Sampler {
    ratio: i64,
}

impl Sampler {
    /// The ratio that the sampler applies.
    pub closed spec fn ratio_spec(&self) -> int {
        self.ratio as int
    }

    /// A sampler at `ratio`, clamped to `[0, RATIO_SCALE]`.
    pub fn new(ratio: i64) -> (s: Sampler)
        ensures
            s.ratio_spec() == clamp_ratio(ratio as int),
    {
        let r: i64 = if ratio < 0 {
            0
        } else if ratio > RATIO_SCALE {
            RATIO_SCALE
        } else {
            ratio
        };
        Sampler { ratio: r }
    }

    /// The ratio that the sampler applies.
    pub fn ratio(&self) -> (r: i64)
        ensures
            r as int == self.ratio_spec(),
    {
        self.ratio
    }

    /// Decides whether the trace `trace_id` is kept.
    pub fn decide(&self, trace_id: u128) -> (d: Decision)
        ensures
            d == decision_of(trace_id, self.ratio_spec()),
    {
        decide(trace_id, self.ratio)
    }
}

/// A ratio of 1.0 or more keeps every trace.
pub proof fn lemma_full_ratio_always_samples(trace_id: u128, ratio: int)
    requires
        ratio >= RATIO_SCALE as int,
    ensures
        decision_of(trace_id, ratio) == Decision::Sample,
{
}

/// A ratio of 0.0 or less drops every trace.
pub proof fn lemma_zero_ratio_always_drops(trace_id: u128, ratio: int)
    requires
        ratio <= 0,
    ensures
        decision_of(trace_id, ratio) == Decision::Drop,
{
}

/// Two decisions taken for the same trace id at the same ratio agree.
pub proof fn lemma_decision_deterministic(trace_id: u128, ratio: int, first: Decision, second: Decision)
    requires
        first == decision_of(trace_id, ratio),
        second == decision_of(trace_id, ratio),
    ensures
        first == second,
{
}

/// A trace kept at one ratio is kept at every higher ratio, so raising the
/// ratio never breaks up a trace that was whole.
pub proof fn lemma_sampling_monotone(trace_id: u128, low: int, high: int)
    requires
        low <= high,
        decision_of(trace_id, low) == Decision::Sample,
    ensures
        decision_of(trace_id, high) == Decision::Sample,
{
    if 0 < low && high < RATIO_SCALE as int {
        assert(low * 0x8000_0000_0000_0000 <= high * 0x8000_0000_0000_0000) by (nonlinear_arith)
            requires
                low <= high,
        ;
        vstd::arithmetic::div_mod::lemma_div_is_ordered(
            low * 0x8000_0000_0000_0000,
            high * 0x8000_0000_0000_0000,
            RATIO_SCALE as int,
        );
    }
}

} // verus!
