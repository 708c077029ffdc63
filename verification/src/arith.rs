//! Exact fixed-point fraction arithmetic used by the charge and reward
//! formulas: fractions are held as integer parts per quintillion (or per
//! hundred), and every product is an exact integer computation.

use vstd::prelude::*;

verus! {

/// Number of parts that make up the whole of a parts-per-quintillion fraction.
pub const PERQUINTILL_ACCURACY: u64 = 1_000_000_000_000_000_000;

/// Number of parts that make up the whole of a percentage.
pub const PERCENT_ACCURACY: u8 = 100;

/// The parts-per-quintillion fraction closest to `p / q` from below:
/// `floor(p * 10^18 / q)`, saturated to one when `q` is zero or `p > q`.
pub open spec fn perquintill_from_rational_spec(p: int, q: int) -> int {
    if q == 0 || p > q {
        PERQUINTILL_ACCURACY as int
    } else {
        (PERQUINTILL_ACCURACY * p) / q
    }
}

/// A parts-per-quintillion fraction times an integer, rounded to the nearest
/// whole number preferring down: `round(parts/10^18 * x)`.
pub open spec fn perquintill_mul_spec(parts: int, x: int) -> int {
    let clamped = if parts <= PERQUINTILL_ACCURACY { parts } else { PERQUINTILL_ACCURACY as int };
    let prod = clamped * x;
    prod / (PERQUINTILL_ACCURACY as int) + if prod % (PERQUINTILL_ACCURACY as int) > (
    PERQUINTILL_ACCURACY as int) / 2 {
        1int
    } else {
        0int
    }
}

/// A percentage times an integer, rounded to the nearest whole number
/// preferring down: `round(parts/100 * x)`.
pub open spec fn percent_mul_spec(parts: int, x: int) -> int {
    let clamped = if parts <= PERCENT_ACCURACY { parts } else { PERCENT_ACCURACY as int };
    let prod = clamped * x;
    prod / (PERCENT_ACCURACY as int) + if prod % (PERCENT_ACCURACY as int) > (
    PERCENT_ACCURACY as int) / 2 {
        1int
    } else {
        0int
    }
}

/// Relies on `sp_arithmetic::Perquintill::from_rational` (rounding down,
/// saturating to one when the numerator exceeds the denominator or the
/// denominator is zero) and `deconstruct`, which returns the raw parts.
#[verifier::external_body]
pub fn perquintill_from_rational(p: u128, q: u128) -> (r: u64)
    ensures
        r == perquintill_from_rational_spec(p as int, q as int),
        r <= PERQUINTILL_ACCURACY,
{
    sp_arithmetic::Perquintill::from_rational(p, q).deconstruct()
}

/// Relies on `sp_arithmetic::Perquintill`'s multiplication by an integer
/// (`overflow_prune_mul` with nearest-preferring-down rounding) together
/// with `from_parts`, which clamps the parts at one.
#[verifier::external_body]
pub fn perquintill_mul(parts: u64, x: u128) -> (r: u128)
    ensures
        r == perquintill_mul_spec(parts as int, x as int),
        r <= x,
{
    sp_arithmetic::Perquintill::from_parts(parts) * x
}

/// Relies on `sp_arithmetic::Percent`'s multiplication by an integer
/// (`overflow_prune_mul` with nearest-preferring-down rounding) together
/// with `from_parts`, which clamps the parts at one hundred.
#[verifier::external_body]
pub fn percent_mul(parts: u8, x: u64) -> (r: u64)
    ensures
        r == percent_mul_spec(parts as int, x as int),
        r <= x,
{
    sp_arithmetic::Percent::from_parts(parts) * x
}

/// The fraction of one left after deducting three fee shares, as the ledger
/// computes it: the shares are added with each partial sum clamped at one,
/// and the clamped total is subtracted from one.
pub open spec fn left_from_one_spec(t: int, v: int, c: int) -> int {
    let a = PERQUINTILL_ACCURACY as int;
    let tv = if t + v <= a { t + v } else { a };
    let tvc = if tv + c <= a { tv + c } else { a };
    a - tvc
}

/// Parts per quintillion left from one after deducting the three fee shares.
pub fn fee_parts_left_from_one(t: u64, v: u64, c: u64) -> (r: u64)
    requires
        t <= PERQUINTILL_ACCURACY,
        v <= PERQUINTILL_ACCURACY,
        c <= PERQUINTILL_ACCURACY,
    ensures
        r == left_from_one_spec(t as int, v as int, c as int),
        r <= PERQUINTILL_ACCURACY,
{
    let tv: u64 = if t + v <= PERQUINTILL_ACCURACY {
        t + v
    } else {
        PERQUINTILL_ACCURACY
    };
    let tvc: u64 = if tv + c <= PERQUINTILL_ACCURACY {
        tv + c
    } else {
        PERQUINTILL_ACCURACY
    };
    PERQUINTILL_ACCURACY - tvc
}

} // verus!
