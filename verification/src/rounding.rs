//! Round-half-away-from-zero at one decimal place.
//!
//! Every display value of the engine (CPU percent, memory percent and GiB,
//! network Mbps, disk MiB/s, process MB) is a non-negative ratio rounded to
//! one decimal place with the same rule: round to the nearest tenth, ties
//! away from zero. A value is represented as an integer count of tenths.

use vstd::arithmetic::div_mod::{
    lemma_fundamental_div_mod, lemma_mod_division_less_than_divisor, lemma_multiply_divide_lt,
};
use vstd::prelude::*;

verus! {

/// Floor-at-zero subtraction: a decreasing counter yields 0, never a
/// negative or wrapped value.
pub open spec fn spec_sat_sub(curr: int, prev: int) -> int {
    if curr >= prev {
        curr - prev
    } else {
        0
    }
}

/// Addition capped at `u64::MAX`.
pub open spec fn spec_sat_add_u64(a: int, b: int) -> int {
    if a + b <= u64::MAX {
        a + b
    } else {
        u64::MAX as int
    }
}

/// The ratio `numer / denom`, scaled to tenths and rounded half away from
/// zero: the nearest integer to `10 * numer / denom`, ties rounded up
/// (both arguments are non-negative, so up is away from zero).
pub open spec fn spec_round_tenths(numer: int, denom: int) -> int
    recommends
        denom >= 1,
        numer >= 0,
{
    (20 * numer + denom) / (2 * denom)
}

/// The rounded value is within half a tenth of the exact ratio, and a tie
/// goes upward: `20 * numer - denom < 2 * denom * r <= 20 * numer + denom`.
pub proof fn lemma_round_tenths_is_nearest(numer: int, denom: int)
    requires
        denom >= 1,
        numer >= 0,
    ensures
        20 * numer - denom < 2 * denom * spec_round_tenths(numer, denom),
        2 * denom * spec_round_tenths(numer, denom) <= 20 * numer + denom,
{
    let t = 20 * numer + denom;
    let m = 2 * denom;
    lemma_fundamental_div_mod(t, m);
    lemma_mod_division_less_than_divisor(t, m);
}

/// Rounding never loses more than one tenth of headroom: the result is at
/// most `10 * numer + 1`.
pub proof fn lemma_round_tenths_upper(numer: int, denom: int)
    requires
        denom >= 1,
        numer >= 0,
    ensures
        spec_round_tenths(numer, denom) < 10 * numer + 2,
{
    assert(20 * numer + denom < (2 * denom) * (10 * numer + 2)) by (nonlinear_arith)
        requires
            denom >= 1,
            numer >= 0,
    ;
    lemma_multiply_divide_lt(20 * numer + denom, 2 * denom, 10 * numer + 2);
}

/// Rounds `numer / denom` to tenths, half away from zero.
///
/// The bound on `numer` keeps the result (at most `10 * numer + 1`)
/// within `u64`.
pub fn round_ratio_tenths(numer: u64, denom: u64) -> (r: u64)
    requires
        denom >= 1,
        numer <= 1_000_000_000_000_000_000,
    ensures
        r == spec_round_tenths(numer as int, denom as int),
{
    let n: u128 = numer as u128;
    let d: u128 = denom as u128;
    let q: u128 = (20 * n + d) / (2 * d);
    proof {
        lemma_round_tenths_upper(numer as int, denom as int);
    }
    q as u64
}

/// Rounds `numer / denom` to tenths, half away from zero, with headroom
/// for numerators far beyond `u64`. The caller bounds the result.
pub fn round_wide_tenths(numer: u128, denom: u128) -> (r: u128)
    requires
        1 <= denom <= u64::MAX as u128,
        numer <= 128 * (u64::MAX as u128),
    ensures
        r == spec_round_tenths(numer as int, denom as int),
{
    (20 * numer + denom) / (2 * denom)
}

} // verus!
