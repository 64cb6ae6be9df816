//! From a raw sample to the number of sub-units that a column fills.

use vstd::prelude::*;
use vstd::arithmetic::div_mod::{lemma_div_is_ordered, lemma_fundamental_div_mod_converse};
use crate::ratio::Ratio;

verus! {

/// A sample held between zero and the maximum.
pub open spec fn clamped(sample: i64, max: i64) -> int {
    if sample < 0 {
        0
    } else if sample > max {
        max as int
    } else {
        sample as int
    }
}

/// A sample as a share of the maximum, held between zero and one.
pub open spec fn normalized(sample: i64, max: i64) -> Ratio {
    Ratio { num: clamped(sample, max) as u64, den: max as u64 }
}

/// `val * total`, rounded to the nearest integer, a half rounded up.
pub open spec fn rounded(val: Ratio, total: int) -> int {
    (2 * val.num * total + val.den) / (2 * val.den)
}

/// Divides a sample by the maximum of its series and clamps the result to
/// the interval from zero to one.
pub fn normalize(sample: i64, max: i64) -> (val: Ratio)
    requires
        max > 0,
    ensures
        val == normalized(sample, max),
        val.at_most_one(),
        sample <= 0 ==> val.num == 0,
        sample >= max ==> val.is_one(),
{
    let held: i64 = if sample < 0 {
        0
    } else if sample > max {
        max
    } else {
        sample
    };
    Ratio { num: held as u64, den: max as u64 }
}

/// The number of units, of `total`, that a normalised value fills:
/// `val * total` rounded to the nearest integer.
pub fn quantize(val: Ratio, total: u32) -> (units: u32)
    requires
        val.at_most_one(),
    ensures
        units == rounded(val, total as int),
        units <= total,
        val.num == 0 ==> units == 0,
        val.is_one() ==> units == total,
{
    proof {
        lemma_rounded_bounds(val, total as int);
        assert(2 * val.num * total <= 2 * 0xffff_ffff_ffff_ffff * 0xffff_ffff) by (nonlinear_arith)
            requires
                0 <= val.num <= 0xffff_ffff_ffff_ffff,
                0 <= total <= 0xffff_ffff,
        ;
    }
    let twice: u128 = 2 * (val.num as u128) * (total as u128) + (val.den as u128);
    let units: u128 = twice / (2 * (val.den as u128));
    units as u32
}

/// A value between zero and one fills between none and all of the units:
/// none at zero, all at one.
pub proof fn lemma_rounded_bounds(val: Ratio, total: int)
    requires
        val.at_most_one(),
        0 <= total,
    ensures
        0 <= rounded(val, total) <= total,
        val.num == 0 ==> rounded(val, total) == 0,
        val.is_one() ==> rounded(val, total) == total,
{
    let n = val.num as int;
    let d = val.den as int;
    assert(0 <= 2 * n * total <= 2 * d * total) by (nonlinear_arith)
        requires
            0 <= n <= d,
            0 <= total,
    ;
    assert(2 * d * total + d == total * (2 * d) + d) by (nonlinear_arith);
    lemma_fundamental_div_mod_converse(2 * d * total + d, 2 * d, total, d);
    lemma_fundamental_div_mod_converse(d, 2 * d, 0, d);
    lemma_div_is_ordered(d, 2 * n * total + d, 2 * d);
    lemma_div_is_ordered(2 * n * total + d, 2 * d * total + d, 2 * d);
    if n == 0 {
        assert(2 * n * total == 0) by (nonlinear_arith)
            requires
                n == 0,
        ;
    }
}

/// The units filled never fall when the value rises.
pub proof fn lemma_rounded_monotone(low: Ratio, high: Ratio, total: int)
    requires
        low.wf(),
        high.wf(),
        low.le(high),
        0 <= total,
    ensures
        rounded(low, total) <= rounded(high, total),
{
    let a = low.num as int;
    let b = low.den as int;
    let c = high.num as int;
    let d = high.den as int;
    let q = rounded(low, total);
    // q is the floor of (2at + b) / 2b; show that q * 2d <= 2ct + d.
    vstd::arithmetic::div_mod::lemma_fundamental_div_mod(2 * a * total + b, 2 * b);
    vstd::arithmetic::div_mod::lemma_mod_bound(2 * a * total + b, 2 * b);
    assert(q * (2 * b) <= 2 * a * total + b) by (nonlinear_arith)
        requires
            2 * a * total + b == (2 * b) * q + (2 * a * total + b) % (2 * b),
            0 <= (2 * a * total + b) % (2 * b),
    ;
    assert(q * (2 * d) <= 2 * c * total + d) by (nonlinear_arith)
        requires
            q * (2 * b) <= 2 * a * total + b,
            a * d <= c * b,
            0 < b,
            0 < d,
            0 <= total,
    ;
    vstd::arithmetic::div_mod::lemma_div_is_ordered(q * (2 * d), 2 * c * total + d, 2 * d);
    vstd::arithmetic::div_mod::lemma_div_multiples_vanish(q, 2 * d);
    assert(q * (2 * d) == (2 * d) * q) by (nonlinear_arith);
}

/// A larger sample never fills fewer units than a smaller one of the same
/// series.
pub proof fn lemma_units_monotone(smaller: i64, larger: i64, max: i64, total: int)
    requires
        smaller <= larger,
        max > 0,
        0 <= total,
    ensures
        rounded(normalized(smaller, max), total) <= rounded(normalized(larger, max), total),
{
    let low = normalized(smaller, max);
    let high = normalized(larger, max);
    assert(low.num * high.den <= high.num * low.den) by (nonlinear_arith)
        requires
            0 <= low.num <= high.num,
            low.den == high.den,
            0 < low.den,
    ;
    lemma_rounded_monotone(low, high, total);
}

} // verus!
