//! Exact ratios of two integers: brightness factors and normalised samples.

use vstd::prelude::*;

verus! {

/// The ratio `num / den`. A ratio is well formed when `den` is positive.
#[derive(Debug, Clone, Copy, PartialEq, Eq)]
pub struct Ratio {
    pub num: u64,
    pub den: u64,
}

impl Ratio {
    /// A ratio has a value when its denominator is positive.
    pub open spec fn wf(self) -> bool {
        self.den > 0
    }

    /// The ratio is exactly one.
    pub open spec fn is_one(self) -> bool {
        self.wf() && self.num == self.den
    }

    /// The ratio lies in the closed interval from zero to one.
    pub open spec fn at_most_one(self) -> bool {
        self.wf() && self.num <= self.den
    }

    /// `self <= other` as numbers, for well-formed ratios.
    pub open spec fn le(self, other: Ratio) -> bool {
        self.num * other.den <= other.num * self.den
    }

    /// `self == other` as numbers, for well-formed ratios.
    pub open spec fn same(self, other: Ratio) -> bool {
        self.num * other.den == other.num * self.den
    }

    /// The ratio `num / den`.
    pub fn new(num: u64, den: u64) -> (ratio: Ratio)
        requires
            den > 0,
        ensures
            ratio == (Ratio { num, den }),
            ratio.wf(),
    {
        Ratio { num, den }
    }

    /// The ratio one.
    pub fn one() -> (ratio: Ratio)
        ensures
            ratio == (Ratio { num: 1, den: 1 }),
            ratio.is_one(),
    {
        Ratio { num: 1, den: 1 }
    }
}

/// `value * num / den`, rounded down. For a well-formed ratio and a
/// non-negative value this is the floor of the exact product.
pub open spec fn floor_of(value: int, num: int, den: int) -> int {
    (value * num) / den
}

/// The floor of a product is monotone in the numerator of the ratio.
pub proof fn lemma_floor_monotone(value: int, num_a: int, num_b: int, den: int)
    requires
        0 <= value,
        0 <= num_a <= num_b,
        0 < den,
    ensures
        0 <= floor_of(value, num_a, den) <= floor_of(value, num_b, den),
{
    assert(0 <= value * num_a <= value * num_b) by (nonlinear_arith)
        requires
            0 <= value,
            0 <= num_a <= num_b,
    ;
    vstd::arithmetic::div_mod::lemma_div_is_ordered(value * num_a, value * num_b, den);
    vstd::arithmetic::div_mod::lemma_div_pos_is_pos(value * num_a, den);
}

/// The floor of a product never falls when the ratio rises.
pub proof fn lemma_floor_ordered(value: int, num_a: int, den_a: int, num_b: int, den_b: int)
    requires
        0 <= value,
        0 <= num_a,
        0 <= num_b,
        0 < den_a,
        0 < den_b,
        num_a * den_b <= num_b * den_a,
    ensures
        floor_of(value, num_a, den_a) <= floor_of(value, num_b, den_b),
{
    let q = floor_of(value, num_a, den_a);
    vstd::arithmetic::div_mod::lemma_fundamental_div_mod(value * num_a, den_a);
    vstd::arithmetic::div_mod::lemma_mod_bound(value * num_a, den_a);
    assert(q * den_a <= value * num_a) by (nonlinear_arith)
        requires
            value * num_a == den_a * q + (value * num_a) % den_a,
            0 <= (value * num_a) % den_a,
    ;
    assert(q * den_b <= value * num_b) by (nonlinear_arith)
        requires
            q * den_a <= value * num_a,
            num_a * den_b <= num_b * den_a,
            0 <= value,
            0 < den_a,
            0 < den_b,
    ;
    vstd::arithmetic::div_mod::lemma_div_is_ordered(q * den_b, value * num_b, den_b);
    vstd::arithmetic::div_mod::lemma_div_multiples_vanish(q, den_b);
    assert(q * den_b == den_b * q) by (nonlinear_arith);
}

/// A ratio of one leaves the value as it is; a ratio of at most one gives
/// at most the value.
pub proof fn lemma_floor_bounds(value: int, num: int, den: int)
    requires
        0 <= value,
        0 <= num <= den,
        0 < den,
    ensures
        0 <= floor_of(value, num, den) <= value,
        num == den ==> floor_of(value, num, den) == value,
        num == 0 ==> floor_of(value, num, den) == 0,
{
    lemma_floor_monotone(value, num, den, den);
    vstd::arithmetic::div_mod::lemma_div_multiples_vanish(value, den);
    assert(value * den == den * value) by (nonlinear_arith);
    assert(value * 0 == 0);
}

} // verus!
