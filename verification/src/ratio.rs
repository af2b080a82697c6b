//! Exact fractions for lengths that are not whole pixels.
//!
//! A display scale such as 1.25 is carried as 5/4, so every length derived
//! from it is an exact rational and rounding happens once, where a whole
//! number is needed.

use vstd::prelude::*;

verus! {

/// The non-negative fraction `numer / denom`. It denotes a number only when
/// `denom` is not zero; functions that take one say what they do otherwise.
#[derive(Clone, Copy, Debug, PartialEq, Eq, Structural)]
pub struct Ratio {
    pub numer: u16,
    pub denom: u16,
}

impl Ratio {
    /// Whether the fraction denotes a number.
    pub open spec fn is_valid(self) -> bool {
        self.denom > 0
    }

    /// Whether the fraction denotes a number greater than zero.
    pub open spec fn is_positive(self) -> bool {
        self.denom > 0 && self.numer > 0
    }

    /// `k` times the fraction, rounded down.
    pub open spec fn floor_times(self, k: int) -> int {
        (k * self.numer) / (self.denom as int)
    }

    /// `k` times the fraction, rounded up.
    pub open spec fn ceil_times(self, k: int) -> int {
        (k * self.numer + self.denom - 1) / (self.denom as int)
    }

    /// The whole number `n`.
    pub fn whole(n: u16) -> (r: Ratio)
        ensures
            r == (Ratio { numer: n, denom: 1 }),
    {
        Ratio { numer: n, denom: 1 }
    }

    /// `k` times the fraction, rounded down; `None` when the fraction
    /// denotes no number.
    pub fn times_floor(&self, k: u32) -> (r: Option<u64>)
        ensures
            r == if self.is_valid() {
                Some(self.floor_times(k as int) as u64)
            } else {
                None
            },
            self.is_valid() ==> 0 <= self.floor_times(k as int) <= u64::MAX,
    {
        if self.denom == 0 {
            return None;
        }
        proof {
            lemma_product_fits(k, self.numer as u32);
            lemma_quotient_bounds(k as int * self.numer as int, self.denom as int);
        }
        let product: u64 = (k as u64) * (self.numer as u64);
        Some(product / (self.denom as u64))
    }

    /// `k` times the fraction, rounded up; `None` when the fraction denotes
    /// no number.
    pub fn times_ceil(&self, k: u32) -> (r: Option<u64>)
        ensures
            r == if self.is_valid() {
                Some(self.ceil_times(k as int) as u64)
            } else {
                None
            },
            self.is_valid() ==> 0 <= self.ceil_times(k as int) <= u64::MAX,
    {
        if self.denom == 0 {
            return None;
        }
        proof {
            lemma_product_fits(k, self.numer as u32);
            lemma_quotient_bounds(
                k as int * self.numer as int + self.denom as int - 1,
                self.denom as int,
            );
        }
        let product: u64 = (k as u64) * (self.numer as u64);
        let padded: u64 = product + (self.denom as u64 - 1);
        Some(padded / (self.denom as u64))
    }
}

/// `a / b` rounded towards zero, for positive `b`.
pub open spec fn toward_zero(a: int, b: int) -> int {
    if a >= 0 {
        a / b
    } else {
        -((-a) / b)
    }
}

/// Rounding towards zero never moves a quotient away from zero or past the
/// number that is divided.
pub proof fn lemma_toward_zero_bounds(a: int, b: int)
    requires
        b > 0,
    ensures
        a >= 0 ==> 0 <= toward_zero(a, b) <= a,
        a <= 0 ==> a <= toward_zero(a, b) <= 0,
{
    if a >= 0 {
        lemma_quotient_bounds(a, b);
    } else {
        lemma_quotient_bounds(-a, b);
    }
}

/// The product of two 32-bit numbers leaves room for a third below the
/// 64-bit limit.
pub proof fn lemma_product_fits(a: u32, b: u32)
    ensures
        0 <= a * b <= 0xFFFF_FFFE_0000_0001,
{
    assert(0 <= a * b <= 0xFFFF_FFFF * 0xFFFF_FFFF) by (nonlinear_arith)
        requires
            0 <= a <= 0xFFFF_FFFF,
            0 <= b <= 0xFFFF_FFFF,
    ;
}

/// The quotient of a non-negative number by a positive one lies between
/// zero and that number.
pub proof fn lemma_quotient_bounds(n: int, d: int)
    requires
        n >= 0,
        d > 0,
    ensures
        0 <= n / d <= n,
{
    vstd::arithmetic::div_mod::lemma_div_pos_is_pos(n, d);
    vstd::arithmetic::div_mod::lemma_div_is_ordered_by_denominator(n, 1, d);
    vstd::arithmetic::div_mod::lemma_div_basics(n);
}

} // verus!
