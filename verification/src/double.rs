//! Double-precision numbers held by their IEEE 754 bit pattern.
//!
//! Sign, class, order and whole part are read off the pattern and verified
//! here, against the value that the pattern stands for. Rounded arithmetic
//! is delegated to a software implementation and appears in contracts under
//! a name, with the few facts about zeros and NaNs that the laws of the
//! materials rest on.

use const_soft_float::soft_f64::SoftF64;
use vstd::arithmetic::div_mod::{
    lemma_basic_div, lemma_div_by_multiple, lemma_div_is_ordered,
    lemma_div_is_ordered_by_denominator, lemma_div_multiples_vanish_quotient,
};
use vstd::arithmetic::power2::{
    lemma2_to64, lemma2_to64_rest, lemma_pow2_adds, lemma_pow2_pos,
    lemma_pow2_strictly_increases, lemma_pow2_unfold, pow2,
};
use vstd::bits::lemma_u64_shr_is_div;
use vstd::prelude::*;

verus! {

/// The sign bit of a pattern.
pub const SIGN_BIT: u64 = 0x8000_0000_0000_0000;

/// The pattern of positive infinity; every larger magnitude is a NaN.
pub const INFINITY_BITS: u64 = 0x7FF0_0000_0000_0000;

/// The pattern of 1.0.
pub const ONE: u64 = 0x3FF0_0000_0000_0000;

/// The pattern of 2.0.
pub const TWO: u64 = 0x4000_0000_0000_0000;

/// The pattern of 0.5.
pub const HALF: u64 = 0x3FE0_0000_0000_0000;

/// The pattern of 0.7.
pub const SEVEN_TENTHS: u64 = 0x3FE6_6666_6666_6666;

/// The pattern of -1.0.
pub const MINUS_ONE: u64 = 0xBFF0_0000_0000_0000;

/// The pattern of the gap between 1.0 and the next double, two to the -52nd.
pub const EPSILON: u64 = 0x3CB0_0000_0000_0000;

/// The pattern of two to the 20th, the magnitude from which on no sine or
/// cosine is computed.
pub const TRIG_LIMIT: u64 = 0x4130_0000_0000_0000;

/// The pattern of two to the -32nd.
pub const TWO_TO_MINUS_32: u64 = 0x3DF0_0000_0000_0000;

/// Two to the 52nd: the place of the leading bit of a normal double's
/// significand, which the pattern leaves out.
pub const HIDDEN_BIT: u64 = 0x0010_0000_0000_0000;

/// The pattern of the sum of the doubles with the patterns `a` and `b`, as
/// the software arithmetic rounds it.
pub uninterp spec fn double_sum(a: u64, b: u64) -> u64;

/// The pattern of the product of the doubles with the patterns `a` and `b`,
/// as the software arithmetic rounds it.
pub uninterp spec fn double_product(a: u64, b: u64) -> u64;

/// The pattern of the quotient of the doubles with the patterns `a` and `b`,
/// as the software arithmetic rounds it.
pub uninterp spec fn double_quotient(a: u64, b: u64) -> u64;

/// The pattern of the square root of the double with the pattern `a`, as
/// the software arithmetic rounds it.
pub uninterp spec fn double_root(a: u64) -> u64;

/// The pattern of the sine of the double with the pattern `a`, an angle in
/// radians, as the software arithmetic approximates it.
pub uninterp spec fn double_sine(a: u64) -> u64;

/// The pattern of the cosine of the double with the pattern `a`, an angle in
/// radians, as the software arithmetic approximates it.
pub uninterp spec fn double_cosine(a: u64) -> u64;

/// Calls `SoftF64::add` of `const_soft_float`. The sum is computed from the
/// two patterns alone, and the contract gives it a name. Of the cases that
/// the function settles before it adds anything, the contract states three:
/// a NaN gives a NaN; a zero added to a number leaves it as it is, and two
/// zeros give a zero; a finite number and its opposite give the positive
/// zero.
#[verifier::external_body]
fn soft_add(a: Double, b: Double) -> (r: Double)
    ensures
        r.bits == double_sum(a.bits, b.bits),
        a.is_nan() || b.is_nan() ==> r.is_nan(),
        !a.is_nan() && b.is_zero() ==> if a.is_zero() {
            r.is_zero()
        } else {
            r == a
        },
        a.is_finite() && b == a.neg() ==> r.bits == 0,
{
    Double { bits: SoftF64::from_bits(a.bits).add(SoftF64::from_bits(b.bits)).to_bits() }
}

/// Calls `SoftF64::mul` of `const_soft_float`. The product is computed from
/// the two patterns alone, and the contract gives it a name. Of the cases
/// that the function settles before it multiplies anything, the contract
/// states two: a NaN gives a NaN, and a zero times a finite number is a
/// zero. How a product is rounded is no part of the contract; a subnormal
/// product can come out one unit in the last place beside the nearest
/// double.
#[verifier::external_body]
fn soft_mul(a: Double, b: Double) -> (r: Double)
    ensures
        r.bits == double_product(a.bits, b.bits),
        a.is_nan() || b.is_nan() ==> r.is_nan(),
        (a.is_zero() && b.is_finite()) || (a.is_finite() && b.is_zero()) ==> r.is_zero(),
{
    Double { bits: SoftF64::from_bits(a.bits).mul(SoftF64::from_bits(b.bits)).to_bits() }
}

/// Calls `SoftF64::div` of `const_soft_float`. The quotient is computed from
/// the two patterns alone, a zero divisor included, and the contract gives
/// it a name. Of the cases that the function settles before it divides
/// anything, the contract states two: a NaN gives a NaN, and a zero over a
/// number that is not a zero is a zero.
#[verifier::external_body]
fn soft_div(a: Double, b: Double) -> (r: Double)
    ensures
        r.bits == double_quotient(a.bits, b.bits),
        a.is_nan() || b.is_nan() ==> r.is_nan(),
        a.is_zero() && !b.is_zero() && !b.is_nan() ==> r.is_zero(),
{
    Double { bits: SoftF64::from_bits(a.bits).div(SoftF64::from_bits(b.bits)).to_bits() }
}

/// Calls `SoftF64::sqrt` of `const_soft_float`. The root is computed from the
/// pattern alone, and the contract gives it a name. Of the cases that the
/// function settles before it computes anything, the contract states two: a
/// zero gives itself, and a negative argument gives a NaN. The positive
/// subnormals are left out, all of them: the function brings them to a
/// normal form of its own, and in doing so shifts a word by a count that,
/// for some of them, is the width of the word where addresses have 32
/// bits.
#[verifier::external_body]
fn soft_sqrt(a: Double) -> (r: Double)
    requires
        a.bits == 0 || a.bits >= HIDDEN_BIT,
    ensures
        r.bits == double_root(a.bits),
        a.is_zero() ==> r == a,
        a.is_sign_negative() && !a.is_zero() ==> r.is_nan(),
{
    Double { bits: SoftF64::from_bits(a.bits).sqrt().to_bits() }
}

/// Calls `SoftF64::sin` of `const_soft_float`. Below `2^20` in magnitude the
/// argument is reduced by a few rounded steps, and the sine is computed from
/// the pattern alone; the contract gives it a name and claims nothing else.
/// Larger arguments take another path there, which is left out.
#[verifier::external_body]
fn soft_sin(a: Double) -> (r: Double)
    requires
        a.magnitude() < TRIG_LIMIT,
    ensures
        r.bits == double_sine(a.bits),
{
    Double { bits: SoftF64::from_bits(a.bits).sin().to_bits() }
}

/// Calls `SoftF64::cos` of `const_soft_float`. Below `2^20` in magnitude the
/// argument is reduced by a few rounded steps, and the cosine is computed
/// from the pattern alone; the contract gives it a name and claims nothing
/// else. Larger arguments take another path there, which is left out.
#[verifier::external_body]
fn soft_cos(a: Double) -> (r: Double)
    requires
        a.magnitude() < TRIG_LIMIT,
    ensures
        r.bits == double_cosine(a.bits),
{
    Double { bits: SoftF64::from_bits(a.bits).cos().to_bits() }
}

/// An IEEE 754 double, held by its 64-bit pattern.
#[derive(Clone, Copy, Debug)]
pub struct Double {
    pub bits: u64,
}

impl Double {
    pub open spec fn spec_from_bits(bits: u64) -> Double {
        Double { bits }
    }

    /// The double with the given pattern.
    #[verifier::when_used_as_spec(spec_from_bits)]
    pub fn from_bits(bits: u64) -> (r: Double)
        ensures
            r == Double::from_bits(bits),
    {
        Double { bits }
    }

    /// The pattern of this double.
    pub fn to_bits(self) -> (r: u64)
        ensures
            r == self.bits,
    {
        self.bits
    }

    /// The pattern with its sign bit cleared.
    pub open spec fn spec_magnitude(self) -> u64 {
        if self.bits >= SIGN_BIT {
            (self.bits - SIGN_BIT) as u64
        } else {
            self.bits
        }
    }

    #[verifier::when_used_as_spec(spec_magnitude)]
    pub fn magnitude(self) -> (r: u64)
        ensures
            r == self.magnitude(),
            r < SIGN_BIT,
    {
        if self.bits >= SIGN_BIT {
            self.bits - SIGN_BIT
        } else {
            self.bits
        }
    }

    pub open spec fn spec_is_sign_negative(self) -> bool {
        self.bits >= SIGN_BIT
    }

    /// Whether the sign bit is set, which it may be on a zero or a NaN too.
    #[verifier::when_used_as_spec(spec_is_sign_negative)]
    pub fn is_sign_negative(self) -> (r: bool)
        ensures
            r == self.is_sign_negative(),
    {
        self.bits >= SIGN_BIT
    }

    pub open spec fn spec_is_nan(self) -> bool {
        self.magnitude() > INFINITY_BITS
    }

    #[verifier::when_used_as_spec(spec_is_nan)]
    pub fn is_nan(self) -> (r: bool)
        ensures
            r == self.is_nan(),
    {
        self.magnitude() > INFINITY_BITS
    }

    pub open spec fn spec_is_finite(self) -> bool {
        self.magnitude() < INFINITY_BITS
    }

    /// Whether this is neither an infinity nor a NaN.
    #[verifier::when_used_as_spec(spec_is_finite)]
    pub fn is_finite(self) -> (r: bool)
        ensures
            r == self.is_finite(),
    {
        self.magnitude() < INFINITY_BITS
    }

    pub open spec fn spec_is_zero(self) -> bool {
        self.magnitude() == 0
    }

    /// Whether this is one of the two zeros.
    #[verifier::when_used_as_spec(spec_is_zero)]
    pub fn is_zero(self) -> (r: bool)
        ensures
            r == self.is_zero(),
    {
        self.magnitude() == 0
    }

    /// The value of a double that is not a NaN, counted in units of two to
    /// the -1074th, the smallest positive double: every finite double is a
    /// whole number of these. A subnormal double counts as many as its
    /// magnitude says; a normal one counts its 53-bit significand, doubled
    /// once for each step of its exponent above 1. An infinity counts what
    /// the next exponent would start with.
    pub open spec fn units(self) -> int {
        let m = self.magnitude();
        let count = if m < HIDDEN_BIT {
            m as int
        } else {
            (HIDDEN_BIT + m % HIDDEN_BIT) * pow2((m / HIDDEN_BIT - 1) as nat)
        };
        if self.is_sign_negative() {
            -count
        } else {
            count
        }
    }

    /// Whether this double is exactly `numerator / 2^shift`; for zero, the
    /// positive zero.
    pub open spec fn is_dyadic(self, numerator: int, shift: nat) -> bool {
        if numerator == 0 {
            self.bits == 0
        } else {
            self.is_finite() && self.units() * pow2(shift) == numerator * pow2(1074)
        }
    }

    /// The double that is exactly `numerator / 2^shift`, where there is one.
    pub open spec fn dyadic(numerator: int, shift: nat) -> Double {
        choose|r: Double| r.is_dyadic(numerator, shift)
    }

    /// What is left of a double that is not a NaN when its fractional part is
    /// dropped. For an infinity it lies beyond every machine integer.
    pub open spec fn whole_part(self) -> int {
        if self.is_sign_negative() {
            -(self.abs().units() / (pow2(1074) as int))
        } else {
            self.units() / (pow2(1074) as int)
        }
    }

    /// Whether this double lies in `[0, 1)`.
    pub open spec fn in_unit_interval(self) -> bool {
        self.bits < ONE
    }

    /// Where a double that is not a NaN stands in the order of the doubles:
    /// its magnitude, counted below zero when the sign bit is set. Both zeros
    /// stand at 0 and the infinities at either end.
    pub open spec fn rank(self) -> int {
        if self.is_sign_negative() {
            -(self.magnitude() as int)
        } else {
            self.magnitude() as int
        }
    }

    /// `self < rhs` as IEEE 754 orders them: false when either is a NaN.
    pub open spec fn spec_lt(self, rhs: Double) -> bool {
        !self.is_nan() && !rhs.is_nan() && self.rank() < rhs.rank()
    }

    #[verifier::when_used_as_spec(spec_lt)]
    pub fn lt(self, rhs: Double) -> (r: bool)
        ensures
            r == self.lt(rhs),
    {
        if self.is_nan() || rhs.is_nan() {
            false
        } else if self.is_sign_negative() {
            if rhs.is_sign_negative() {
                rhs.magnitude() < self.magnitude()
            } else {
                self.magnitude() > 0 || rhs.magnitude() > 0
            }
        } else {
            !rhs.is_sign_negative() && self.magnitude() < rhs.magnitude()
        }
    }

    /// `self <= rhs` as IEEE 754 orders them: false when either is a NaN.
    pub open spec fn spec_le(self, rhs: Double) -> bool {
        !self.is_nan() && !rhs.is_nan() && self.rank() <= rhs.rank()
    }

    #[verifier::when_used_as_spec(spec_le)]
    pub fn le(self, rhs: Double) -> (r: bool)
        ensures
            r == self.le(rhs),
    {
        if self.is_nan() || rhs.is_nan() {
            false
        } else if self.is_sign_negative() {
            if rhs.is_sign_negative() {
                rhs.magnitude() <= self.magnitude()
            } else {
                true
            }
        } else if rhs.is_sign_negative() {
            self.magnitude() == 0 && rhs.magnitude() == 0
        } else {
            self.magnitude() <= rhs.magnitude()
        }
    }

    /// `self > rhs` as IEEE 754 orders them: false when either is a NaN.
    pub open spec fn spec_gt(self, rhs: Double) -> bool {
        rhs.lt(self)
    }

    #[verifier::when_used_as_spec(spec_gt)]
    pub fn gt(self, rhs: Double) -> (r: bool)
        ensures
            r == self.gt(rhs),
    {
        rhs.lt(self)
    }

    /// `self >= rhs` as IEEE 754 orders them: false when either is a NaN.
    pub open spec fn spec_ge(self, rhs: Double) -> bool {
        rhs.le(self)
    }

    #[verifier::when_used_as_spec(spec_ge)]
    pub fn ge(self, rhs: Double) -> (r: bool)
        ensures
            r == self.ge(rhs),
    {
        rhs.le(self)
    }

    /// The lesser of two doubles; where one is a NaN, the other.
    pub open spec fn spec_min(self, other: Double) -> Double {
        if self.lt(other) || other.is_nan() {
            self
        } else {
            other
        }
    }

    #[verifier::when_used_as_spec(spec_min)]
    pub fn min(self, other: Double) -> (r: Double)
        ensures
            r == self.min(other),
    {
        if self.lt(other) || other.is_nan() {
            self
        } else {
            other
        }
    }

    /// This double held between two bounds; a NaN stays a NaN.
    pub open spec fn spec_clamp(self, low: Double, high: Double) -> Double {
        if self.lt(low) {
            low
        } else if self.gt(high) {
            high
        } else {
            self
        }
    }

    #[verifier::when_used_as_spec(spec_clamp)]
    pub fn clamp(self, low: Double, high: Double) -> (r: Double)
        requires
            low.le(high),
        ensures
            r == self.clamp(low, high),
            self.is_nan() ==> r.is_nan(),
            !self.is_nan() ==> low.le(r) && r.le(high),
    {
        if self.lt(low) {
            low
        } else if self.gt(high) {
            high
        } else {
            self
        }
    }

    pub open spec fn spec_neg(self) -> Double {
        Double {
            bits: if self.bits >= SIGN_BIT {
                (self.bits - SIGN_BIT) as u64
            } else {
                (self.bits + SIGN_BIT) as u64
            },
        }
    }

    /// Flips the sign bit, of a zero, an infinity or a NaN too.
    #[verifier::when_used_as_spec(spec_neg)]
    pub fn neg(self) -> (r: Double)
        ensures
            r == self.neg(),
    {
        if self.bits >= SIGN_BIT {
            Double { bits: self.bits - SIGN_BIT }
        } else {
            Double { bits: self.bits + SIGN_BIT }
        }
    }

    pub open spec fn spec_abs(self) -> Double {
        Double { bits: self.magnitude() }
    }

    /// The double with the sign bit cleared.
    #[verifier::when_used_as_spec(spec_abs)]
    pub fn abs(self) -> (r: Double)
        ensures
            r == self.abs(),
    {
        Double { bits: self.magnitude() }
    }

    pub open spec fn spec_add(self, rhs: Double) -> Double {
        Double { bits: double_sum(self.bits, rhs.bits) }
    }

    /// Subtraction is the sum with the negated right-hand side.
    pub open spec fn spec_sub(self, rhs: Double) -> Double {
        self + rhs.neg()
    }

    pub open spec fn spec_mul(self, rhs: Double) -> Double {
        Double { bits: double_product(self.bits, rhs.bits) }
    }

    /// What `/` between two doubles means in a specification.
    pub open spec fn spec_euclidean_or_real_div(self, rhs: Double) -> Double {
        Double { bits: double_quotient(self.bits, rhs.bits) }
    }

    pub open spec fn spec_is_raised_for_root(self) -> bool {
        0 < self.bits < HIDDEN_BIT
    }

    /// Whether this is a positive subnormal, whose root is taken of two to
    /// the 64th times the number.
    #[verifier::when_used_as_spec(spec_is_raised_for_root)]
    pub fn is_raised_for_root(self) -> (r: bool)
        ensures
            r == self.is_raised_for_root(),
    {
        0 < self.bits && self.bits < HIDDEN_BIT
    }

    /// Two to the 64th times a positive subnormal: its units over two to
    /// the 1010th, which is a normal double.
    pub open spec fn spec_raised(self) -> Double {
        Double::dyadic(self.bits as int, 1010)
    }

    /// Two to the 64th times this double, which is exact and normal.
    #[verifier::when_used_as_spec(spec_raised)]
    pub fn raised(self) -> (r: Double)
        requires
            self.is_raised_for_root(),
        ensures
            r == self.raised(),
            r.is_dyadic(self.bits as int, 1010),
            r.units() == self.units() * pow2(64),
            HIDDEN_BIT <= r.bits < INFINITY_BITS,
    {
        let r = from_scaled(false, self.bits, 1010);
        proof {
            lemma_dyadic_is_unique(r, Double::dyadic(self.bits as int, 1010), self.bits as int, 1010);
            lemma_pow2_adds(64, 1010);
            lemma_pow2_pos(1010);
            assert(r.units() == self.bits * pow2(64)) by (nonlinear_arith)
                requires
                    r.units() * pow2(1010) == self.bits * pow2(1074),
                    pow2(1074) == pow2(64) * pow2(1010),
                    pow2(1010) > 0,
            ;
        }
        r
    }

    pub open spec fn spec_sqrt(self) -> Double {
        if self.is_raised_for_root() {
            Double { bits: double_root(self.raised().bits) } * Double::from_bits(TWO_TO_MINUS_32)
        } else {
            Double { bits: double_root(self.bits) }
        }
    }

    /// The square root: a zero for a zero, a NaN for a negative argument.
    /// Of a positive subnormal it is two to the -32nd times the root of two
    /// to the 64th times the number, which is the same number.
    #[verifier::when_used_as_spec(spec_sqrt)]
    pub fn sqrt(self) -> (r: Double)
        ensures
            r == self.sqrt(),
            self.is_zero() ==> r == self,
            self.is_sign_negative() && !self.is_zero() ==> r.is_nan(),
    {
        if self.is_raised_for_root() {
            soft_sqrt(self.raised()) * Double::from_bits(TWO_TO_MINUS_32)
        } else {
            soft_sqrt(self)
        }
    }

    pub open spec fn spec_sin(self) -> Double {
        Double { bits: double_sine(self.bits) }
    }

    /// The sine of an angle in radians that is below `2^20` in magnitude.
    #[verifier::when_used_as_spec(spec_sin)]
    pub fn sin(self) -> (r: Double)
        requires
            self.magnitude() < TRIG_LIMIT,
        ensures
            r == self.sin(),
    {
        soft_sin(self)
    }

    pub open spec fn spec_cos(self) -> Double {
        Double { bits: double_cosine(self.bits) }
    }

    /// The cosine of an angle in radians that is below `2^20` in magnitude.
    #[verifier::when_used_as_spec(spec_cos)]
    pub fn cos(self) -> (r: Double)
        requires
            self.magnitude() < TRIG_LIMIT,
        ensures
            r == self.cos(),
    {
        soft_cos(self)
    }

    pub open spec fn spec_tan(self) -> Double {
        self.sin() / self.cos()
    }

    /// The tangent of an angle in radians that is below `2^20` in magnitude:
    /// its sine over its cosine.
    #[verifier::when_used_as_spec(spec_tan)]
    pub fn tan(self) -> (r: Double)
        requires
            self.magnitude() < TRIG_LIMIT,
        ensures
            r == self.tan(),
    {
        self.sin() / self.cos()
    }

    /// A power by repeated squaring: `so_far` times `base^pow`, where each
    /// bit of `pow`, from the lowest up, decides whether the square reached
    /// so far is multiplied in.
    pub open spec fn power_by_squaring(so_far: Double, base: Double, pow: nat) -> Double
        decreases pow,
    {
        let taken = if pow % 2 == 1 {
            so_far * base
        } else {
            so_far
        };
        if pow / 2 == 0 {
            taken
        } else {
            Double::power_by_squaring(taken, base * base, pow / 2)
        }
    }

    pub open spec fn spec_powi(self, n: i32) -> Double {
        if n < 0 {
            Double::from_bits(ONE) / Double::power_by_squaring(
                Double::from_bits(ONE),
                self,
                (-n) as nat,
            )
        } else {
            Double::power_by_squaring(Double::from_bits(ONE), self, n as nat)
        }
    }

    /// This double raised to an integer power, by repeated squaring; for a
    /// negative power, 1 over that. A positive power of a zero is a zero.
    #[verifier::when_used_as_spec(spec_powi)]
    pub fn powi(self, n: i32) -> (r: Double)
        ensures
            r == self.powi(n),
            self.is_zero() && n > 0 ==> r.is_zero(),
    {
        let mut a = self;
        let mut pow: u32 = if n < 0 {
            (-(n as i64)) as u32
        } else {
            n as u32
        };
        let mut so_far = Double::from_bits(ONE);
        loop
            invariant_except_break
                n != 0 ==> pow >= 1,
            invariant
                self.is_zero() ==> a.is_zero() && (so_far.is_zero() || so_far == Double::from_bits(
                    ONE,
                )),
                Double::power_by_squaring(so_far, a, pow as nat) == Double::power_by_squaring(
                    Double::from_bits(ONE),
                    self,
                    if n < 0 {
                        (-n) as nat
                    } else {
                        n as nat
                    },
                ),
            ensures
                so_far == Double::power_by_squaring(
                    Double::from_bits(ONE),
                    self,
                    if n < 0 {
                        (-n) as nat
                    } else {
                        n as nat
                    },
                ),
                self.is_zero() && n != 0 ==> so_far.is_zero(),
            decreases pow,
        {
            if pow % 2 != 0 {
                so_far = so_far * a;
            }
            pow = pow / 2;
            if pow == 0 {
                break ;
            }
            a = a * a;
        }
        if n < 0 {
            Double::from_bits(ONE) / so_far
        } else {
            so_far
        }
    }

    /// Whether two doubles are the same number, the two zeros being one
    /// number, or are both no number.
    pub open spec fn same_value(self, other: Double) -> bool {
        ||| self.is_nan() && other.is_nan()
        ||| self.le(other) && other.le(self)
    }
}

impl core::ops::Neg for Double {
    type Output = Double;

    fn neg(self) -> (r: Double) {
        if self.bits >= SIGN_BIT {
            Double { bits: self.bits - SIGN_BIT }
        } else {
            Double { bits: self.bits + SIGN_BIT }
        }
    }
}

impl vstd::std_specs::ops::NegSpecImpl for Double {
    open spec fn obeys_neg_spec() -> bool {
        true
    }

    open spec fn neg_req(self) -> bool {
        true
    }

    open spec fn neg_spec(self) -> Double {
        self.spec_neg()
    }
}

impl core::ops::Add for Double {
    type Output = Double;

    /// The sum. Adding a zero changes no number, and a NaN gives a NaN.
    fn add(self, rhs: Double) -> (r: Double)
        ensures
            rhs.is_zero() ==> r.same_value(self),
            self.is_nan() || rhs.is_nan() ==> r.is_nan(),
    {
        soft_add(self, rhs)
    }
}

impl vstd::std_specs::ops::AddSpecImpl for Double {
    open spec fn obeys_add_spec() -> bool {
        true
    }

    open spec fn add_req(self, rhs: Double) -> bool {
        true
    }

    open spec fn add_spec(self, rhs: Double) -> Double {
        self + rhs
    }
}

impl core::ops::Sub for Double {
    type Output = Double;

    /// The difference. Taking a zero away changes no number, and a finite
    /// number less itself is the positive zero.
    fn sub(self, rhs: Double) -> (r: Double)
        ensures
            rhs.is_zero() ==> r.same_value(self),
            self.is_finite() && rhs == self ==> r.bits == 0,
    {
        soft_add(self, rhs.neg())
    }
}

impl vstd::std_specs::ops::SubSpecImpl for Double {
    open spec fn obeys_sub_spec() -> bool {
        true
    }

    open spec fn sub_req(self, rhs: Double) -> bool {
        true
    }

    open spec fn sub_spec(self, rhs: Double) -> Double {
        self - rhs
    }
}

impl core::ops::Mul for Double {
    type Output = Double;

    /// The product. A NaN gives a NaN, and a zero times a finite number is a
    /// zero.
    fn mul(self, rhs: Double) -> (r: Double)
        ensures
            self.is_nan() || rhs.is_nan() ==> r.is_nan(),
            (self.is_zero() && rhs.is_finite()) || (self.is_finite() && rhs.is_zero())
                ==> r.is_zero(),
    {
        soft_mul(self, rhs)
    }
}

impl vstd::std_specs::ops::MulSpecImpl for Double {
    open spec fn obeys_mul_spec() -> bool {
        true
    }

    open spec fn mul_req(self, rhs: Double) -> bool {
        true
    }

    open spec fn mul_spec(self, rhs: Double) -> Double {
        self * rhs
    }
}

impl core::ops::Div for Double {
    type Output = Double;

    /// The quotient. A NaN gives a NaN, and a zero over a number that is not
    /// a zero is a zero.
    fn div(self, rhs: Double) -> (r: Double)
        ensures
            self.is_nan() || rhs.is_nan() ==> r.is_nan(),
            self.is_zero() && !rhs.is_zero() && !rhs.is_nan() ==> r.is_zero(),
    {
        soft_div(self, rhs)
    }
}

impl vstd::std_specs::ops::DivSpecImpl for Double {
    open spec fn obeys_div_spec() -> bool {
        true
    }

    open spec fn div_req(self, rhs: Double) -> bool {
        true
    }

    open spec fn div_spec(self, rhs: Double) -> Double {
        self / rhs
    }
}

/// The larger of two magnitudes counts more units.
proof fn lemma_units_increase(a: Double, b: Double)
    requires
        a.magnitude() < b.magnitude(),
    ensures
        a.abs().units() < b.abs().units(),
{
    let m1 = a.magnitude();
    let m2 = b.magnitude();
    assert(a.abs().magnitude() == m1 && b.abs().magnitude() == m2);
    if m2 >= HIDDEN_BIT {
        let s2 = HIDDEN_BIT + m2 % HIDDEN_BIT;
        let k2 = (m2 / HIDDEN_BIT - 1) as nat;
        lemma_pow2_pos(k2);
        if m1 < HIDDEN_BIT {
            assert(s2 * pow2(k2) >= s2) by (nonlinear_arith)
                requires
                    s2 >= 0,
                    pow2(k2) >= 1,
            ;
        } else {
            let s1 = HIDDEN_BIT + m1 % HIDDEN_BIT;
            let k1 = (m1 / HIDDEN_BIT - 1) as nat;
            lemma_pow2_pos(k1);
            if k1 == k2 {
                assert(s1 * pow2(k1) < s2 * pow2(k1)) by (nonlinear_arith)
                    requires
                        s1 < s2,
                        pow2(k1) > 0,
                ;
            } else {
                lemma_pow2_unfold(k1 + 1);
                if k1 + 1 < k2 {
                    lemma_pow2_strictly_increases(k1 + 1, k2);
                }
                assert(s1 * pow2(k1) < s2 * pow2(k2)) by (nonlinear_arith)
                    requires
                        s1 < 2 * HIDDEN_BIT,
                        s2 >= HIDDEN_BIT,
                        pow2(k1) > 0,
                        2 * pow2(k1) <= pow2(k2),
                ;
            }
        }
    }
}

/// The order of the doubles is the order of their values: one that is not a
/// NaN is less than another exactly if it counts fewer units.
pub proof fn lemma_order_is_by_value(a: Double, b: Double)
    requires
        !a.is_nan(),
        !b.is_nan(),
    ensures
        a.lt(b) <==> a.units() < b.units(),
        a.le(b) <==> a.units() <= b.units(),
        a.units() == b.units() <==> a.rank() == b.rank(),
{
    let zero = Double { bits: 0 };
    assert(a.abs().units() >= 0 && b.abs().units() >= 0) by {
        if a.magnitude() > 0 {
            lemma_units_increase(zero, a);
        }
        if b.magnitude() > 0 {
            lemma_units_increase(zero, b);
        }
    }
    assert(a.magnitude() == 0 <==> a.abs().units() == 0) by {
        if a.magnitude() > 0 {
            lemma_units_increase(zero, a);
        }
    }
    assert(b.magnitude() == 0 <==> b.abs().units() == 0) by {
        if b.magnitude() > 0 {
            lemma_units_increase(zero, b);
        }
    }
    if a.magnitude() < b.magnitude() {
        lemma_units_increase(a, b);
    } else if b.magnitude() < a.magnitude() {
        lemma_units_increase(b, a);
    }
}

/// No two doubles are the same dyadic number: a number that a double
/// represents at all has one pattern, but for the two zeros.
pub proof fn lemma_dyadic_is_unique(a: Double, b: Double, numerator: int, shift: nat)
    requires
        a.is_dyadic(numerator, shift),
        b.is_dyadic(numerator, shift),
    ensures
        a == b,
{
    if numerator != 0 {
        lemma_pow2_pos(shift);
        lemma_pow2_pos(1074);
        assert(a.units() == b.units() && a.units() != 0) by (nonlinear_arith)
            requires
                a.units() * pow2(shift) == numerator * pow2(1074),
                b.units() * pow2(shift) == numerator * pow2(1074),
                pow2(shift) > 0,
                pow2(1074) > 0,
                numerator != 0,
        ;
        lemma_order_is_by_value(a, b);
    }
}

/// The double `whole / 2^shift`, with the sign asked for.
fn from_scaled(negative: bool, whole: u64, shift: u64) -> (r: Double)
    requires
        0 < whole < 2 * HIDDEN_BIT,
        shift <= 1022,
    ensures
        r.is_dyadic(if negative { -(whole as int) } else { whole as int }, shift as nat),
        r.is_sign_negative() == negative,
        HIDDEN_BIT <= r.magnitude() < (1076 - shift) * HIDDEN_BIT,
{
    let mut sig: u64 = whole;
    let mut field: u64 = 1075 - shift;
    let ghost mut doublings: nat = 0;
    proof {
        lemma2_to64();
    }
    while sig < HIDDEN_BIT
        invariant
            0 < whole,
            shift <= 1022,
            0 < sig < 2 * HIDDEN_BIT,
            doublings <= 52,
            field + doublings + shift == 1075,
            sig == whole * pow2(doublings),
        decreases 2 * HIDDEN_BIT - sig,
    {
        proof {
            lemma_pow2_unfold(doublings + 1);
            assert(whole * (2 * pow2(doublings)) == 2 * (whole * pow2(doublings)))
                by (nonlinear_arith);
            if doublings >= 52 {
                lemma2_to64_rest();
                if doublings > 52 {
                    lemma_pow2_strictly_increases(52, doublings);
                }
                assert(whole * pow2(doublings) >= pow2(doublings)) by (nonlinear_arith)
                    requires
                        whole >= 1,
                ;
            }
        }
        sig = sig * 2;
        field = field - 1;
        proof {
            doublings = doublings + 1;
        }
    }
    let magnitude: u64 = field * HIDDEN_BIT + (sig - HIDDEN_BIT);
    let r = if negative {
        Double { bits: magnitude + SIGN_BIT }
    } else {
        Double { bits: magnitude }
    };
    proof {
        assert(r.magnitude() == magnitude);
        assert(magnitude / HIDDEN_BIT == field);
        assert(magnitude % HIDDEN_BIT == sig - HIDDEN_BIT);
        let steps = (field - 1) as nat;
        assert(r.abs().units() == sig * pow2(steps));
        // sig * 2^steps * 2^shift == whole * 2^doublings * 2^steps * 2^shift == whole * 2^1074
        lemma_pow2_adds(doublings, steps);
        lemma_pow2_adds(doublings + steps, shift as nat);
        assert(sig * pow2(steps) * pow2(shift as nat) == whole * pow2(1074)) by (nonlinear_arith)
            requires
                sig == whole * pow2(doublings),
                pow2(doublings + steps) == pow2(doublings) * pow2(steps),
                pow2(1074) == pow2(doublings + steps) * pow2(shift as nat),
        ;
        if negative {
            assert((-(sig * pow2(steps))) * pow2(shift as nat) == (-(whole as int)) * pow2(1074))
                by (nonlinear_arith)
                requires
                    sig * pow2(steps) * pow2(shift as nat) == whole * pow2(1074),
            ;
        }
    }
    r
}

impl Double {
    pub open spec fn spec_from_unit_fraction(numerator: u64) -> Double {
        Double::dyadic(numerator as int, 53)
    }

    /// The double `numerator / 2^53`, for a numerator below `2^53`. These are
    /// the values that a uniform draw from `[0, 1)` takes.
    #[verifier::when_used_as_spec(spec_from_unit_fraction)]
    pub fn from_unit_fraction(numerator: u64) -> (r: Double)
        requires
            numerator < 2 * HIDDEN_BIT,
        ensures
            r == Double::from_unit_fraction(numerator),
            r.is_dyadic(numerator as int, 53),
            r.in_unit_interval(),
    {
        let r = if numerator == 0 {
            Double { bits: 0 }
        } else {
            from_scaled(false, numerator, 53)
        };
        proof {
            assert(r.is_dyadic(numerator as int, 53));
            lemma_dyadic_is_unique(r, Double::dyadic(numerator as int, 53), numerator as int, 53);
        }
        r
    }

    pub open spec fn spec_from_i32(n: i32) -> Double {
        Double::dyadic(n as int, 0)
    }

    /// The double that equals a 32-bit integer, which every such integer has
    /// and gives back as its whole part.
    #[verifier::when_used_as_spec(spec_from_i32)]
    pub fn from_i32(n: i32) -> (r: Double)
        ensures
            r == Double::from_i32(n),
            r.is_dyadic(n as int, 0),
            r.to_i32() == n,
    {
        let r = if n == 0 {
            Double { bits: 0 }
        } else if n < 0 {
            from_scaled(true, (-(n as i64)) as u64, 0)
        } else {
            from_scaled(false, n as u64, 0)
        };
        proof {
            assert(r.is_dyadic(n as int, 0));
            lemma_dyadic_is_unique(r, Double::dyadic(n as int, 0), n as int, 0);
            let unit = pow2(1074) as int;
            lemma_pow2_pos(1074);
            lemma2_to64();
            if n > 0 {
                lemma_div_by_multiple(n as int, unit);
            } else if n < 0 {
                assert(r.abs().units() == -r.units());
                assert(r.abs().units() == (-n) * unit) by (nonlinear_arith)
                    requires
                        r.abs().units() == -r.units(),
                        r.units() * 1 == n * unit,
                ;
                lemma_div_by_multiple(-(n as int), unit);
            } else {
                lemma_basic_div(0, unit);
            }
        }
        r
    }

    /// The 32-bit integer nearest to this double among those that are not
    /// larger in magnitude; 0 for a NaN.
    pub open spec fn spec_to_i32(self) -> i32 {
        if self.is_nan() {
            0
        } else if self.whole_part() <= i32::MIN {
            i32::MIN
        } else if self.whole_part() >= i32::MAX {
            i32::MAX
        } else {
            self.whole_part() as i32
        }
    }

    /// Drops the fractional part and saturates at the bounds of `i32`.
    #[verifier::when_used_as_spec(spec_to_i32)]
    pub fn to_i32(self) -> (r: i32)
        ensures
            r == self.to_i32(),
    {
        let magnitude = self.magnitude();
        if magnitude > INFINITY_BITS {
            return 0;
        }
        let field: u64 = magnitude / HIDDEN_BIT;
        let sig: u64 = HIDDEN_BIT + magnitude % HIDDEN_BIT;
        proof {
            lemma2_to64();
            lemma2_to64_rest();
            lemma_whole_part(self);
            assert(self.abs().bits == magnitude);
        }
        if field < 1023 {
            0
        } else if field >= 1054 {
            proof {
                // at least 2^52 over 2^21
                if field <= 1075 {
                    let down = (1075 - field) as nat;
                    lemma_pow2_pos(down);
                    if down < 21 {
                        lemma_pow2_strictly_increases(down, 21);
                    }
                    lemma_div_is_ordered_by_denominator(
                        sig as int,
                        pow2(down) as int,
                        pow2(21) as int,
                    );
                } else {
                    let up = (field - 1075) as nat;
                    lemma_pow2_pos(up);
                    assert(sig * pow2(up) >= sig) by (nonlinear_arith)
                        requires
                            sig >= 0,
                            pow2(up) >= 1,
                    ;
                }
            }
            if self.is_sign_negative() {
                i32::MIN
            } else {
                i32::MAX
            }
        } else {
            let shift: u64 = 1075 - field;
            let whole: u64 = sig >> shift;
            proof {
                // less than 2^53 over 2^22
                lemma_u64_shr_is_div(sig, shift);
                lemma_pow2_pos(shift as nat);
                if shift > 22 {
                    lemma_pow2_strictly_increases(22, shift as nat);
                }
                lemma_div_is_ordered_by_denominator(
                    sig as int,
                    pow2(22) as int,
                    pow2(shift as nat) as int,
                );
            }
            if self.is_sign_negative() {
                -(whole as i32)
            } else {
                whole as i32
            }
        }
    }
}

/// The whole part of a magnitude, read off the pattern: none below 1, where
/// the exponent field is under 1023; else the 53-bit significand, cut by as
/// many bits as the field is short of 1075, or doubled once for each step
/// of the field beyond it.
pub proof fn lemma_whole_part(a: Double)
    requires
        !a.is_nan(),
    ensures
        ({
            let field = a.magnitude() / HIDDEN_BIT;
            let sig = HIDDEN_BIT + a.magnitude() % HIDDEN_BIT;
            a.abs().whole_part() == if field < 1023 {
                0
            } else if field <= 1075 {
                sig / (pow2((1075 - field) as nat) as int)
            } else {
                sig * pow2((field - 1075) as nat)
            }
        }),
{
    let magnitude = a.magnitude();
    let field = magnitude / HIDDEN_BIT;
    let sig = HIDDEN_BIT + magnitude % HIDDEN_BIT;
    let count = a.abs().units();
    let unit = pow2(1074) as int;
    lemma2_to64();
    lemma2_to64_rest();
    lemma_pow2_pos(1074);
    assert(a.abs().magnitude() == magnitude && !a.abs().is_sign_negative());
    if field < 1 {
        lemma_pow2_strictly_increases(52, 1074);
        lemma_basic_div(count, unit);
    } else {
        let steps = (field - 1) as nat;
        lemma_pow2_pos(steps);
        assert(count == pow2(steps) * sig) by (nonlinear_arith)
            requires
                count == sig * pow2(steps),
        ;
        if field < 1023 {
            // fewer than 2^53 * 2^1021 units
            lemma_pow2_adds(53, 1021);
            if steps < 1021 {
                lemma_pow2_strictly_increases(steps, 1021);
            }
            assert(count < unit) by (nonlinear_arith)
                requires
                    count == pow2(steps) * sig,
                    0 < sig < pow2(53),
                    0 < pow2(steps) <= pow2(1021),
                    unit == pow2(53) * pow2(1021),
            ;
            lemma_basic_div(count, unit);
        } else if field <= 1075 {
            // sig * 2^steps units over 2^steps * 2^down is sig over 2^down
            let down = (1075 - field) as nat;
            lemma_pow2_pos(down);
            lemma_pow2_adds(steps, down);
            lemma_div_multiples_vanish_quotient(pow2(steps) as int, sig as int, pow2(down) as int);
        } else {
            // sig * 2^up * 2^1074 units
            let up = (field - 1075) as nat;
            lemma_pow2_adds(up, 1074);
            assert(count == (sig * pow2(up)) * unit) by (nonlinear_arith)
                requires
                    count == pow2(steps) * sig,
                    pow2(steps) == pow2(up) * unit,
            ;
            lemma_pow2_pos(up);
            assert(sig * pow2(up) >= 0) by (nonlinear_arith)
                requires
                    sig >= 0,
                    pow2(up) >= 0,
            ;
            lemma_div_by_multiple(sig * pow2(up), unit);
        }
    }
}

} // verus!
