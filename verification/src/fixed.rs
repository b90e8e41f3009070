//! The scalar type of this crate: a non-negative fixed-point number.
//!
//! Every matrix entry is a `Fixed`: a value `raw / 2^32` stored as a `u64`.
//! The factorization only ever needs non-negative numbers, so the type is
//! non-negative by construction, and all arithmetic saturates at the largest
//! representable value instead of overflowing.

use vstd::prelude::*;

verus! {

/// The denominator of the fixed-point representation: `Fixed` values are
/// multiples of `1 / SCALE`.
pub const SCALE: u64 = 0x1_0000_0000;

/// A non-negative fixed-point number with 32 fractional bits.
#[derive(Clone, Copy, PartialEq, Eq, Structural, Debug)]
pub struct Fixed {
    raw: u64,
}

impl View for Fixed {
    type V = int;

    /// The mathematical model of a `Fixed` is its raw numerator, so the
    /// value it stands for is `self@ / SCALE`.
    closed spec fn view(&self) -> int {
        self.raw as int
    }
}

/// Clamp an (always non-negative) exact result to the largest raw value.
pub open spec fn sat(x: int) -> int {
    if x > u64::MAX {
        u64::MAX as int
    } else {
        x
    }
}

/// Exact model of fixed-point addition: saturating integer addition.
pub open spec fn fx_add(a: int, b: int) -> int {
    sat(a + b)
}

/// Exact model of fixed-point multiplication: the raw product rescaled by
/// `SCALE`, rounded toward zero, then saturated.
pub open spec fn fx_mul(a: int, b: int) -> int {
    sat((a * b) / (SCALE as int))
}

/// Exact model of fixed-point division (for a non-zero divisor): the
/// quotient rescaled by `SCALE`, rounded toward zero, then saturated.
pub open spec fn fx_div(a: int, b: int) -> int {
    sat((a * (SCALE as int)) / b)
}

/// The divisor actually used by the elementwise update: an exact zero is
/// replaced by the smallest positive value, so no division by zero occurs.
pub open spec fn safe_divisor(d: int) -> int {
    if d == 0 {
        1
    } else {
        d
    }
}

/// Exact model of one cell of the multiplicative update:
/// `result * (multiplier / divisor)`, with the zero-divisor substitution.
pub open spec fn fx_update(r: int, m: int, d: int) -> int {
    fx_mul(r, fx_div(m, safe_divisor(d)))
}

/// Exact model of one updated factor cell: the multiplicative update, with
/// a result that would be exactly zero lifted to the smallest positive
/// value, so factor entries stay reachable by later multiplicative updates.
pub open spec fn fx_update_clamped(r: int, m: int, d: int) -> int {
    if fx_update(r, m, d) == 0 {
        1
    } else {
        fx_update(r, m, d)
    }
}

/// The clamped update always yields a positive representable value.
pub proof fn lemma_fx_update_clamped_pos(r: int, m: int, d: int)
    requires
        0 <= r,
        0 <= m,
        0 <= d,
    ensures
        1 <= fx_update_clamped(r, m, d) <= u64::MAX,
{
    let sd = safe_divisor(d);
    assert(0 <= m * (SCALE as int)) by (nonlinear_arith)
        requires
            0 <= m,
    ;
    assert(0 <= (m * (SCALE as int)) / sd) by (nonlinear_arith)
        requires
            0 <= m * (SCALE as int),
            0 < sd,
    ;
    lemma_fx_mul_bounds(r, fx_div(m, sd));
}

/// The model of any `Fixed` value is a representable non-negative integer.
pub proof fn lemma_view_bounds(x: Fixed)
    ensures
        0 <= x@ <= u64::MAX,
{
}

/// Multiplying by one (`SCALE / SCALE`) is the identity on representable values.
pub proof fn lemma_fx_mul_one(x: int)
    requires
        0 <= x <= u64::MAX,
    ensures
        fx_mul(SCALE as int, x) == x,
{
    assert((SCALE as int) * x / (SCALE as int) == x) by (nonlinear_arith)
        requires
            0 <= x,
    ;
}

/// Multiplying by zero gives zero.
pub proof fn lemma_fx_mul_zero(x: int)
    requires
        0 <= x,
    ensures
        fx_mul(0, x) == 0,
{
    assert(0 * x == 0) by (nonlinear_arith);
}

/// A product of non-negative values is a representable non-negative value.
pub proof fn lemma_fx_mul_bounds(a: int, b: int)
    requires
        0 <= a,
        0 <= b,
    ensures
        0 <= fx_mul(a, b) <= u64::MAX,
{
    assert(0 <= a * b) by (nonlinear_arith)
        requires
            0 <= a,
            0 <= b,
    ;
}

impl Fixed {
    /// The additive identity.
    pub fn zero() -> (r: Fixed)
        ensures
            r@ == 0,
    {
        Fixed { raw: 0 }
    }

    /// The multiplicative identity, `SCALE / SCALE = 1`.
    pub fn one() -> (r: Fixed)
        ensures
            r@ == SCALE,
    {
        Fixed { raw: SCALE }
    }

    /// The smallest representable positive value, `1 / SCALE`; it is
    /// substituted for exact-zero divisors.
    pub fn min_positive() -> (r: Fixed)
        ensures
            r@ == 1,
    {
        Fixed { raw: 1 }
    }

    /// Build a value directly from its raw numerator.
    pub fn from_bits(bits: u64) -> (r: Fixed)
        ensures
            r@ == bits,
    {
        Fixed { raw: bits }
    }

    /// The raw numerator of this value.
    pub fn to_bits(&self) -> (r: u64)
        ensures
            r == self@,
    {
        self.raw
    }

    /// The closest representable value at or below `num / den`.
    pub fn from_ratio(num: u64, den: u64) -> (r: Fixed)
        requires
            den > 0,
        ensures
            r@ == sat((num * SCALE) / (den as int)),
    {
        proof {
            assert((num as int) * (SCALE as int) <= u128::MAX) by (nonlinear_arith)
                requires
                    num <= u64::MAX,
            ;
        }
        let wide: u128 = (num as u128) * (SCALE as u128);
        let q: u128 = wide / (den as u128);
        if q > u64::MAX as u128 {
            Fixed { raw: u64::MAX }
        } else {
            Fixed { raw: q as u64 }
        }
    }

    /// True exactly when this value is zero.
    pub fn is_zero(&self) -> (r: bool)
        ensures
            r == (self@ == 0),
    {
        self.raw == 0
    }

    /// Saturating addition.
    pub fn add(self, other: Fixed) -> (r: Fixed)
        ensures
            r@ == fx_add(self@, other@),
    {
        if u64::MAX - self.raw < other.raw {
            Fixed { raw: u64::MAX }
        } else {
            Fixed { raw: self.raw + other.raw }
        }
    }

    /// Saturating fixed-point multiplication.
    pub fn mul(self, other: Fixed) -> (r: Fixed)
        ensures
            r@ == fx_mul(self@, other@),
    {
        proof {
            assert((self.raw as int) * (other.raw as int) <= u128::MAX) by (nonlinear_arith)
                requires
                    self.raw <= u64::MAX,
                    other.raw <= u64::MAX,
            ;
        }
        let wide: u128 = (self.raw as u128) * (other.raw as u128);
        let q: u128 = wide / (SCALE as u128);
        if q > u64::MAX as u128 {
            Fixed { raw: u64::MAX }
        } else {
            Fixed { raw: q as u64 }
        }
    }

    /// Saturating fixed-point division by a non-zero divisor.
    pub fn div(self, other: Fixed) -> (r: Fixed)
        requires
            other@ != 0,
        ensures
            r@ == fx_div(self@, other@),
    {
        proof {
            assert((self.raw as int) * (SCALE as int) <= u128::MAX) by (nonlinear_arith)
                requires
                    self.raw <= u64::MAX,
            ;
        }
        let wide: u128 = (self.raw as u128) * (SCALE as u128);
        let q: u128 = wide / (other.raw as u128);
        if q > u64::MAX as u128 {
            Fixed { raw: u64::MAX }
        } else {
            Fixed { raw: q as u64 }
        }
    }

    /// Comparison on the underlying values.
    pub fn lt(self, other: Fixed) -> (r: bool)
        ensures
            r == (self@ < other@),
    {
        self.raw < other.raw
    }

    /// Comparison on the underlying values.
    pub fn le(self, other: Fixed) -> (r: bool)
        ensures
            r == (self@ <= other@),
    {
        self.raw <= other.raw
    }
}

} // verus!
