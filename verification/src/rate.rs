//! Two-sample delta-over-time rate windows.
//!
//! A rate window consumes two readings of a cumulative OS counter taken a
//! known interval apart and yields a per-second rate in the caller's display
//! unit, as an integer count of tenths. The delta floors at zero, so a
//! counter that wrapped or was reset yields a zero rate, never a negative
//! or huge one.

use crate::rounding::{spec_round_tenths, spec_sat_sub};
use vstd::arithmetic::div_mod::{
    lemma_basic_div, lemma_div_is_ordered, lemma_div_is_ordered_by_denominator,
};
use vstd::prelude::*;

verus! {

/// The display unit a rate is converted into.
#[derive(Clone, Copy, PartialEq, Eq, Structural)]
pub enum RateUnit {
    /// `bytes * 8 / 1_000_000` per second: network throughput.
    MegabitsPerSecond,
    /// `bytes / 1_048_576` per second: disk throughput.
    MebibytesPerSecond,
}

/// Multiplier applied to the byte delta for a unit.
pub open spec fn spec_unit_mul(unit: RateUnit) -> int {
    match unit {
        RateUnit::MegabitsPerSecond => 8,
        RateUnit::MebibytesPerSecond => 1,
    }
}

/// Divisor taking the scaled delta into the unit.
pub open spec fn spec_unit_div(unit: RateUnit) -> int {
    match unit {
        RateUnit::MegabitsPerSecond => 1_000_000,
        RateUnit::MebibytesPerSecond => 1_048_576,
    }
}

/// The rate in tenths of a unit: the floored delta, scaled into the unit,
/// divided by the elapsed seconds, rounded half away from zero at one
/// decimal place.
pub open spec fn spec_rate_tenths(prev: int, curr: int, elapsed_secs: int, unit: RateUnit) -> int
    recommends
        elapsed_secs >= 1,
{
    spec_round_tenths(spec_sat_sub(curr, prev) * spec_unit_mul(unit), spec_unit_div(unit) * elapsed_secs)
}

/// Stateless two-sample rate computation.
pub struct RateWindow;

impl RateWindow {
    /// Rate between two counter readings taken `elapsed_secs` apart, in
    /// tenths of `unit`. A counter that decreased yields 0.
    pub fn compute(prev: u64, curr: u64, elapsed_secs: u64, unit: RateUnit) -> (r: u64)
        requires
            elapsed_secs >= 1,
        ensures
            r == spec_rate_tenths(prev as int, curr as int, elapsed_secs as int, unit),
            r >= 0,
            curr <= prev ==> r == 0,
    {
        let delta: u64 = curr.saturating_sub(prev);
        let (mul, div): (u128, u128) = match unit {
            RateUnit::MegabitsPerSecond => (8, 1_000_000),
            RateUnit::MebibytesPerSecond => (1, 1_048_576),
        };
        let n: u128 = delta as u128 * mul;
        let d: u128 = div * elapsed_secs as u128;
        let t: u128 = 20 * n + d;
        let q: u128 = t / (2 * d);
        proof {
            let ni = n as int;
            let di = d as int;
            let ti = t as int;
            // q is at most t / (2 * div), which for the largest possible
            // delta and elapsed time still fits in u64.
            if curr <= prev {
                // delta 0: the rounded rate is d / (2 * d) == 0.
                lemma_basic_div(di, 2 * di);
            }
            if unit == RateUnit::MegabitsPerSecond {
                let tmax: int = (160 + 1_000_000) * (u64::MAX as int);
                lemma_div_is_ordered_by_denominator(ti, 2int * 1_000_000, 2 * di);
                assert(ti <= tmax);
                lemma_div_is_ordered(ti, tmax, 2int * 1_000_000);
                assert(tmax / (2int * 1_000_000) <= u64::MAX as int);
            } else {
                let tmax: int = (20 + 1_048_576) * (u64::MAX as int);
                lemma_div_is_ordered_by_denominator(ti, 2int * 1_048_576, 2 * di);
                assert(ti <= tmax);
                lemma_div_is_ordered(ti, tmax, 2int * 1_048_576);
                assert(tmax / (2int * 1_048_576) <= u64::MAX as int);
            }
        }
        q as u64
    }
}

} // verus!
