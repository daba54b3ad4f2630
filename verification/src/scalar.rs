//! Real numbers as the renderer stores them: IEEE 754 binary64 values held by
//! their bit patterns.
//!
//! What the scene logic asks of a number is a comparison, a change of sign or
//! the whole number below it, and these are exact functions of the bit
//! pattern. Arithmetic that rounds is left to the caller, who hands the result
//! back as bits.

use vstd::prelude::*;
use vstd::arithmetic::div_mod::lemma_fundamental_div_mod;
use vstd::arithmetic::div_mod::lemma_fundamental_div_mod_converse;
use vstd::arithmetic::power2::lemma2_to64;
use vstd::arithmetic::power2::lemma2_to64_rest;
use vstd::arithmetic::power2::lemma_pow2_adds;
use vstd::arithmetic::power2::lemma_pow2_pos;
use vstd::arithmetic::power2::lemma_pow2_strictly_increases;
use vstd::arithmetic::power2::pow2;
use vstd::bits::lemma_u64_shl_is_mul;

verus! {

/// The sign bit of a binary64 number.
pub const SIGN_BIT: u64 = 0x8000_0000_0000_0000;

/// The bit pattern of positive infinity. A larger magnitude is a NaN.
pub const INFINITY_BITS: u64 = 0x7FF0_0000_0000_0000;

/// The bit pattern of the number one.
pub const ONE_BITS: u64 = 0x3FF0_0000_0000_0000;

/// A binary64 number, held by its bit pattern.
#[derive(Clone, Copy, Debug)]
pub struct Scalar {
    pub bits: u64,
}

impl Scalar {
    /// The bit pattern with the sign bit cleared.
    pub open spec fn magnitude(self) -> int {
        if self.bits >= SIGN_BIT {
            self.bits - SIGN_BIT
        } else {
            self.bits as int
        }
    }

    /// Whether the sign bit is set.
    pub open spec fn sign_bit(self) -> bool {
        self.bits >= SIGN_BIT
    }

    /// Whether the value is not a number.
    pub open spec fn spec_is_nan(self) -> bool {
        self.magnitude() > INFINITY_BITS
    }

    /// Whether the value is positive or negative zero.
    pub open spec fn spec_is_zero(self) -> bool {
        self.magnitude() == 0
    }

    /// An integer that orders the numbers as their values do: for two values
    /// that are not NaN, the one with the smaller rank is the smaller number,
    /// and equal ranks mean equal numbers. Both zeros have rank 0.
    pub open spec fn rank(self) -> int {
        if self.sign_bit() {
            -self.magnitude()
        } else {
            self.magnitude()
        }
    }

    /// `self < other` as binary64 numbers. False when either is a NaN.
    pub open spec fn spec_lt(self, other: Scalar) -> bool {
        !self.spec_is_nan() && !other.spec_is_nan() && self.rank() < other.rank()
    }

    /// `self <= other` as binary64 numbers. False when either is a NaN.
    pub open spec fn spec_le(self, other: Scalar) -> bool {
        !self.spec_is_nan() && !other.spec_is_nan() && self.rank() <= other.rank()
    }

    /// `self > other` as binary64 numbers. False when either is a NaN.
    pub open spec fn spec_gt(self, other: Scalar) -> bool {
        other.spec_lt(self)
    }

    /// `self >= other` as binary64 numbers. False when either is a NaN.
    pub open spec fn spec_ge(self, other: Scalar) -> bool {
        other.spec_le(self)
    }

    /// `self == other` as binary64 numbers: a NaN equals nothing, and the two
    /// zeros equal each other.
    pub open spec fn same_number(self, other: Scalar) -> bool {
        !self.spec_is_nan() && !other.spec_is_nan() && self.rank() == other.rank()
    }

    /// The value `self >= 0.0` has: true of both zeros, false of a NaN.
    pub open spec fn spec_is_non_negative(self) -> bool {
        !self.spec_is_nan() && self.rank() >= 0
    }

    /// The negated number: the same magnitude with the sign bit flipped.
    pub open spec fn spec_neg(self) -> Scalar {
        if self.bits >= SIGN_BIT {
            Scalar { bits: (self.bits - SIGN_BIT) as u64 }
        } else {
            Scalar { bits: (self.bits + SIGN_BIT) as u64 }
        }
    }

    /// The absolute value: the same magnitude with the sign bit cleared.
    pub open spec fn spec_abs(self) -> Scalar {
        Scalar { bits: self.magnitude() as u64 }
    }

    pub fn from_bits(bits: u64) -> (s: Scalar)
        ensures
            s.bits == bits,
    {
        Scalar { bits }
    }

    pub fn to_bits(self) -> (bits: u64)
        ensures
            bits == self.bits,
    {
        self.bits
    }

    /// Positive zero.
    pub fn zero() -> (s: Scalar)
        ensures
            s.bits == 0,
    {
        Scalar { bits: 0 }
    }

    /// The number one.
    pub fn one() -> (s: Scalar)
        ensures
            s.bits == ONE_BITS,
    {
        Scalar { bits: ONE_BITS }
    }

    fn magnitude_bits(self) -> (m: u64)
        ensures
            m == self.magnitude(),
            m < SIGN_BIT,
    {
        if self.bits >= SIGN_BIT {
            self.bits - SIGN_BIT
        } else {
            self.bits
        }
    }

    #[verifier::when_used_as_spec(spec_is_nan)]
    pub fn is_nan(self) -> (b: bool)
        ensures
            b == self.spec_is_nan(),
    {
        self.magnitude_bits() > INFINITY_BITS
    }

    #[verifier::when_used_as_spec(spec_is_zero)]
    pub fn is_zero(self) -> (b: bool)
        ensures
            b == self.spec_is_zero(),
    {
        self.magnitude_bits() == 0
    }

    #[verifier::when_used_as_spec(spec_is_non_negative)]
    pub fn is_non_negative(self) -> (b: bool)
        ensures
            b == self.spec_is_non_negative(),
    {
        let m: u64 = self.magnitude_bits();
        m <= INFINITY_BITS && (self.bits < SIGN_BIT || m == 0)
    }

    #[verifier::when_used_as_spec(spec_lt)]
    pub fn lt(self, other: Scalar) -> (b: bool)
        ensures
            b == self.spec_lt(other),
    {
        let a: u64 = self.magnitude_bits();
        let c: u64 = other.magnitude_bits();
        if a > INFINITY_BITS || c > INFINITY_BITS {
            false
        } else if self.bits >= SIGN_BIT {
            if other.bits >= SIGN_BIT {
                a > c
            } else {
                a > 0 || c > 0
            }
        } else {
            other.bits < SIGN_BIT && a < c
        }
    }

    #[verifier::when_used_as_spec(spec_le)]
    pub fn le(self, other: Scalar) -> (b: bool)
        ensures
            b == self.spec_le(other),
    {
        let a: u64 = self.magnitude_bits();
        let c: u64 = other.magnitude_bits();
        if a > INFINITY_BITS || c > INFINITY_BITS {
            false
        } else if self.bits >= SIGN_BIT {
            other.bits < SIGN_BIT || a >= c
        } else if other.bits >= SIGN_BIT {
            a == 0 && c == 0
        } else {
            a <= c
        }
    }

    #[verifier::when_used_as_spec(spec_gt)]
    pub fn gt(self, other: Scalar) -> (b: bool)
        ensures
            b == self.spec_gt(other),
    {
        other.lt(self)
    }

    #[verifier::when_used_as_spec(spec_ge)]
    pub fn ge(self, other: Scalar) -> (b: bool)
        ensures
            b == self.spec_ge(other),
    {
        other.le(self)
    }

    #[verifier::when_used_as_spec(spec_neg)]
    pub fn neg(self) -> (s: Scalar)
        ensures
            s == self.spec_neg(),
            s.magnitude() == self.magnitude(),
            s.sign_bit() != self.sign_bit(),
    {
        if self.bits >= SIGN_BIT {
            Scalar { bits: self.bits - SIGN_BIT }
        } else {
            Scalar { bits: self.bits + SIGN_BIT }
        }
    }

    #[verifier::when_used_as_spec(spec_abs)]
    pub fn abs(self) -> (s: Scalar)
        ensures
            s == self.spec_abs(),
            s.magnitude() == self.magnitude(),
            !s.sign_bit(),
    {
        Scalar { bits: self.magnitude_bits() }
    }
}

/// The weight of the lowest exponent bit: 2 to the power 52.
pub const FRACTION_UNIT: u64 = 0x10_0000_0000_0000;

impl Scalar {
    /// The exponent field of the bit pattern.
    pub open spec fn biased_exponent(self) -> int {
        self.magnitude() / (FRACTION_UNIT as int)
    }

    /// The fraction field of the bit pattern.
    pub open spec fn fraction(self) -> int {
        self.magnitude() % (FRACTION_UNIT as int)
    }

    /// Whether the value is neither infinite nor a NaN.
    pub open spec fn spec_is_finite(self) -> bool {
        self.magnitude() < INFINITY_BITS
    }

    /// The whole number `m` for which a finite value is `m` times 2 to the
    /// power `scale()`, with the sign of the value.
    pub open spec fn significand(self) -> int {
        let m = if self.biased_exponent() == 0 {
            self.fraction()
        } else {
            FRACTION_UNIT + self.fraction()
        };
        if self.sign_bit() {
            -m
        } else {
            m
        }
    }

    /// The power of two by which the significand is scaled.
    pub open spec fn scale(self) -> int {
        if self.biased_exponent() == 0 {
            -1074
        } else {
            self.biased_exponent() - 1075
        }
    }

    /// The greatest whole number that is not above a finite value.
    pub open spec fn spec_floor(self) -> int {
        if self.scale() >= 0 {
            self.significand() * pow2(self.scale() as nat)
        } else {
            self.significand() / (pow2((-self.scale()) as nat) as int)
        }
    }

    /// Whether the greatest whole number not above a finite value is even.
    pub open spec fn spec_floor_is_even(self) -> bool {
        self.spec_floor() % 2 == 0
    }

    #[verifier::when_used_as_spec(spec_is_finite)]
    pub fn is_finite(self) -> (b: bool)
        ensures
            b == self.spec_is_finite(),
    {
        self.magnitude_bits() < INFINITY_BITS
    }

    /// Whether the greatest whole number not above the value is even.
    #[verifier::when_used_as_spec(spec_floor_is_even)]
    pub fn floor_is_even(self) -> (even: bool)
        requires
            self.spec_is_finite(),
        ensures
            even == self.spec_floor_is_even(),
    {
        let m: u64 = self.magnitude_bits();
        let e: u64 = m / FRACTION_UNIT;
        let f: u64 = m % FRACTION_UNIT;
        let negative: bool = self.bits >= SIGN_BIT;
        proof {
            lemma2_to64();
            lemma2_to64_rest();
        }
        if e >= 1076 {
            proof {
                let k: nat = (e - 1076) as nat;
                lemma_pow2_adds(1, k);
                let s = self.significand();
                let half = s * pow2(k);
                assert(s * (2 * pow2(k)) == 2 * half) by (nonlinear_arith)
                    requires
                        half == s * pow2(k),
                ;
                assert(self.spec_floor() == 2 * half);
            }
            true
        } else if e == 1075 {
            proof {
                let s = self.significand();
                assert(s * pow2(0) == s) by (nonlinear_arith)
                    requires
                        pow2(0) == 1,
                ;
            }
            f % 2 == 0
        } else if e < 1023 {
            proof {
                let shift: nat = (-self.scale()) as nat;
                let d: int = pow2(shift) as int;
                if shift > 53 {
                    lemma_pow2_strictly_increases(53, shift);
                }
                let s = self.significand();
                if negative && m != 0 {
                    lemma_fundamental_div_mod_converse(s, d, -1, d + s);
                } else {
                    lemma_fundamental_div_mod_converse(s, d, 0, s);
                }
            }
            !negative || m == 0
        } else {
            let shift: u64 = 1075 - e;
            proof {
                lemma_pow2_strictly_increases(shift as nat, 53);
                lemma_u64_shl_is_mul(1, shift);
            }
            let d: u64 = 1u64 << shift;
            let sig: u64 = FRACTION_UNIT + f;
            let q: u64 = sig / d;
            let r: u64 = sig % d;
            proof {
                let s = self.significand();
                lemma_fundamental_div_mod(sig as int, d as int);
                if negative {
                    if r == 0 {
                        assert((-(q as int)) * d == -(d * q)) by (nonlinear_arith);
                        lemma_fundamental_div_mod_converse(s, d as int, -(q as int), 0);
                    } else {
                        assert((-(q as int) - 1) * d == -(d * q) - d) by (nonlinear_arith);
                        lemma_fundamental_div_mod_converse(s, d as int, -(q as int) - 1, d - r);
                    }
                }
            }
            if negative && r != 0 {
                q % 2 == 1
            } else {
                q % 2 == 0
            }
        }
    }
}

impl PartialEq for Scalar {
    /// Equality of the numbers, not of the bit patterns.
    fn eq(&self, other: &Scalar) -> (b: bool) {
        let a: u64 = self.magnitude_bits();
        let c: u64 = other.magnitude_bits();
        a <= INFINITY_BITS && c <= INFINITY_BITS && (self.bits == other.bits || (a == 0 && c == 0))
    }
}

impl vstd::std_specs::cmp::PartialEqSpecImpl for Scalar {
    open spec fn obeys_eq_spec() -> bool {
        true
    }

    open spec fn eq_spec(&self, other: &Scalar) -> bool {
        self.same_number(*other)
    }
}

/// The floor of a finite value is the greatest whole number not above it:
/// scaled like the significand, it is at most the significand, and the next
/// whole number is above it. A value whose scale is not negative is whole.
pub proof fn lemma_floor_bounds(x: Scalar)
    requires
        x.spec_is_finite(),
    ensures
        x.scale() < 0 ==> {
            let unit = pow2((-x.scale()) as nat) as int;
            x.spec_floor() * unit <= x.significand() < (x.spec_floor() + 1) * unit
        },
        x.scale() >= 0 ==> x.spec_floor() == x.significand() * pow2(x.scale() as nat),
{
    if x.scale() < 0 {
        let unit = pow2((-x.scale()) as nat) as int;
        lemma_pow2_pos((-x.scale()) as nat);
        lemma_fundamental_div_mod(x.significand(), unit);
        let q = x.significand() / unit;
        assert(unit * q == q * unit) by (nonlinear_arith);
        assert((q + 1) * unit == q * unit + unit) by (nonlinear_arith);
    }
}

/// Negating twice gives the bit pattern back.
pub proof fn lemma_neg_involution(x: Scalar)
    ensures
        x.spec_neg().spec_neg() == x,
{
}

/// Negation reverses the order of two numbers.
pub proof fn lemma_neg_reverses_order(x: Scalar, y: Scalar)
    ensures
        x.spec_lt(y) <==> y.spec_neg().spec_lt(x.spec_neg()),
        x.same_number(y) <==> x.spec_neg().same_number(y.spec_neg()),
{
}

/// Of two numbers neither of which is a NaN, exactly one of less, equal and
/// greater holds.
pub proof fn lemma_trichotomy(x: Scalar, y: Scalar)
    requires
        !x.spec_is_nan(),
        !y.spec_is_nan(),
    ensures
        x.spec_lt(y) || x.same_number(y) || y.spec_lt(x),
        !(x.spec_lt(y) && x.same_number(y)),
        !(x.spec_lt(y) && y.spec_lt(x)),
        !(x.same_number(y) && y.spec_lt(x)),
        x.spec_le(y) <==> x.spec_lt(y) || x.same_number(y),
{
}

} // verus!
