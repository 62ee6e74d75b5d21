//! Real numbers as IEEE-754 binary64 bit patterns.
//!
//! Order, sign, and the passage to and from whole numbers are computed on
//! the bits and proved against a sign-magnitude model. Arithmetic is left to
//! software implementations of the format, and appears in contracts under
//! the names declared below: of a sum, say, the contracts know that it is a
//! function of its two terms, and no more.

use vstd::prelude::*;
use vstd::arithmetic::power2::{pow2, lemma2_to64, lemma2_to64_rest, lemma_pow2_strictly_increases,
    lemma_pow2_unfold};
use vstd::bits::{lemma_u64_shl_is_mul, lemma_u64_shr_is_div};

verus! {

/// The sign bit of a binary64 pattern.
pub const SIGN_BIT: u64 = 0x8000_0000_0000_0000;

/// Positive infinity: every pattern of greater magnitude is a NaN.
pub const INFINITY_BITS: u64 = 0x7FF0_0000_0000_0000;

/// Negative infinity.
pub const NEG_INFINITY_BITS: u64 = 0xFFF0_0000_0000_0000;

/// The number 1.
pub const ONE_BITS: u64 = 0x3FF0_0000_0000_0000;

/// The number -1.
pub const MINUS_ONE_BITS: u64 = 0xBFF0_0000_0000_0000;

/// The pattern that stands for what is not a number where the library itself
/// has to name one.
pub const NAN_BITS: u64 = 0x7FF8_0000_0000_0000;

/// The number 2.
pub const TWO_BITS: u64 = 0x4000_0000_0000_0000;

/// The number 3.
pub const THREE_BITS: u64 = 0x4008_0000_0000_0000;

/// The number 1/2.
pub const HALF_BITS: u64 = 0x3FE0_0000_0000_0000;

/// The number 10.
pub const TEN_BITS: u64 = 0x4024_0000_0000_0000;

/// The number 180.
pub const STRAIGHT_ANGLE_BITS: u64 = 0x4066_8000_0000_0000;

/// The binary64 number nearest to pi.
pub const PI_BITS: u64 = 0x4009_21FB_5444_2D18;

/// Two to the power 52: the weight of the hidden bit of the significand.
pub const HIDDEN_BIT: u64 = 0x0010_0000_0000_0000;

// The sum of two numbers, as the software arithmetic computes it.
pub uninterp spec fn float_sum(a: u64, b: u64) -> u64;

// The product of two numbers, as the software arithmetic computes it.
pub uninterp spec fn float_product(a: u64, b: u64) -> u64;

// The quotient of two numbers, as the software arithmetic computes it.
pub uninterp spec fn float_quotient(a: u64, b: u64) -> u64;

// The square root of a number, as the software arithmetic computes it.
pub uninterp spec fn float_sqrt(a: u64) -> u64;

// The sine of a number of radians, as the software arithmetic computes it.
pub uninterp spec fn float_sin(a: u64) -> u64;

// The cosine of a number of radians, as the software arithmetic computes it.
pub uninterp spec fn float_cos(a: u64) -> u64;

// The natural logarithm of a number, as the software arithmetic computes it.
pub uninterp spec fn float_ln(a: u64) -> u64;

// The arc cosine of a number from -1 to 1, in radians, as the mathematics
// library computes it.
pub uninterp spec fn float_acos(a: u64) -> u64;

// The angle in radians of the point (x, y) whose coordinates are numbers, as
// the mathematics library computes it.
pub uninterp spec fn float_atan2(y: u64, x: u64) -> u64;

/// The sum of two `rustc_apfloat::ieee::Double`, rounded to the nearest
/// number with ties to even, on two bit patterns. The contract claims only
/// that the sum is a function of the two patterns.
#[verifier::external_body]
fn soft_add(a: u64, b: u64) -> (r: u64)
    ensures
        r == float_sum(a, b),
{
    let x = <rustc_apfloat::ieee::Double as rustc_apfloat::Float>::from_bits(a as u128);
    let y = <rustc_apfloat::ieee::Double as rustc_apfloat::Float>::from_bits(b as u128);
    rustc_apfloat::Float::to_bits((x + y).value) as u64
}

/// The product of two `rustc_apfloat::ieee::Double`, rounded to the nearest
/// number with ties to even, on two bit patterns. The contract claims only
/// that the product is a function of the two patterns.
#[verifier::external_body]
fn soft_mul(a: u64, b: u64) -> (r: u64)
    ensures
        r == float_product(a, b),
{
    let x = <rustc_apfloat::ieee::Double as rustc_apfloat::Float>::from_bits(a as u128);
    let y = <rustc_apfloat::ieee::Double as rustc_apfloat::Float>::from_bits(b as u128);
    rustc_apfloat::Float::to_bits((x * y).value) as u64
}

/// The quotient of two `rustc_apfloat::ieee::Double`, rounded to the nearest
/// number with ties to even, on two bit patterns. The contract claims only
/// that the quotient is a function of the two patterns.
#[verifier::external_body]
fn soft_div(a: u64, b: u64) -> (r: u64)
    ensures
        r == float_quotient(a, b),
{
    let x = <rustc_apfloat::ieee::Double as rustc_apfloat::Float>::from_bits(a as u128);
    let y = <rustc_apfloat::ieee::Double as rustc_apfloat::Float>::from_bits(b as u128);
    rustc_apfloat::Float::to_bits((x / y).value) as u64
}

/// `softfloat::F64::sqrt` on a bit pattern. The contract claims only that the
/// root is a function of the pattern.
#[verifier::external_body]
fn soft_sqrt(a: u64) -> (r: u64)
    ensures
        r == float_sqrt(a),
{
    softfloat::F64::from_bits(a).sqrt().to_bits()
}

/// `softfloat::F64::sin` on a bit pattern. The contract claims only that the
/// result is a function of the pattern.
#[verifier::external_body]
fn soft_sin(a: u64) -> (r: u64)
    ensures
        r == float_sin(a),
{
    softfloat::F64::from_bits(a).sin().to_bits()
}

/// `softfloat::F64::cos` on a bit pattern. The contract claims only that the
/// result is a function of the pattern.
#[verifier::external_body]
fn soft_cos(a: u64) -> (r: u64)
    ensures
        r == float_cos(a),
{
    softfloat::F64::from_bits(a).cos().to_bits()
}

/// `softfloat::F64::ln` on a bit pattern. The contract claims only that the
/// result is a function of the pattern.
#[verifier::external_body]
fn soft_ln(a: u64) -> (r: u64)
    ensures
        r == float_ln(a),
{
    softfloat::F64::from_bits(a).ln().to_bits()
}

/// `libm::acos` on the bit pattern of a number from -1 to 1. The contract
/// claims only that the result is a function of the pattern. Other patterns
/// are left out: for them the function makes what is not a number, whose
/// pattern is the machine's choice.
#[verifier::external_body]
fn soft_acos(a: u64) -> (r: u64)
    requires
        a <= ONE_BITS || SIGN_BIT <= a <= MINUS_ONE_BITS,
    ensures
        r == float_acos(a),
{
    let x = softfloat::F64::from_bits(a).to_native_f64();
    softfloat::F64::from_native_f64(libm::acos(x)).to_bits()
}

/// `libm::atan2` on the bit patterns of two numbers. The contract claims only
/// that the result is a function of the two patterns. Patterns that are not
/// numbers are left out: for them the function makes what is not a number,
/// whose pattern is the machine's choice.
#[verifier::external_body]
fn soft_atan2(y: u64, x: u64) -> (r: u64)
    requires
        !(Real { bits: y }).spec_is_nan(),
        !(Real { bits: x }).spec_is_nan(),
    ensures
        r == float_atan2(y, x),
{
    let y = softfloat::F64::from_bits(y).to_native_f64();
    let x = softfloat::F64::from_bits(x).to_native_f64();
    softfloat::F64::from_native_f64(libm::atan2(y, x)).to_bits()
}

/// The place of the highest binary digit of a positive whole number, the
/// lowest place being 0.
pub open spec fn top_digit(n: nat) -> nat
    decreases n,
{
    if n < 2 {
        0
    } else {
        1 + top_digit(n / 2)
    }
}

/// A whole number from two to the power `k` up to the next power of two has
/// its highest binary digit at the place `k`.
pub proof fn lemma_top_digit(n: nat, k: nat)
    requires
        pow2(k) <= n < 2 * pow2(k),
    ensures
        top_digit(n) == k,
    decreases k,
{
    if k == 0 {
        assert(pow2(0) == 1) by {
            lemma2_to64();
        }
    } else {
        lemma_pow2_unfold(k);
        lemma_top_digit(n / 2, (k - 1) as nat);
    }
}

/// A positive whole number lies from two to the power of the place of its
/// highest binary digit up to the next power of two.
pub proof fn lemma_top_digit_bounds(n: nat)
    requires
        n >= 1,
    ensures
        pow2(top_digit(n)) <= n < 2 * pow2(top_digit(n)),
    decreases n,
{
    if n < 2 {
        assert(pow2(0) == 1) by {
            lemma2_to64();
        }
    } else {
        lemma_top_digit_bounds(n / 2);
        lemma_pow2_unfold(top_digit(n));
    }
}

/// A binary64 number, held as its bit pattern.
#[derive(Clone, Copy, Debug)]
pub struct Real {
    pub bits: u64,
}

impl Real {
    /// The pattern without its sign bit.
    pub open spec fn magnitude(self) -> int {
        if self.bits >= SIGN_BIT {
            self.bits - SIGN_BIT
        } else {
            self.bits as int
        }
    }

    /// Whether the sign bit is set.
    pub open spec fn spec_is_negative(self) -> bool {
        self.bits >= SIGN_BIT
    }

    /// Whether the pattern is not a number.
    pub open spec fn spec_is_nan(self) -> bool {
        self.magnitude() > INFINITY_BITS
    }

    /// Whether the pattern is a number other than the two infinities.
    pub open spec fn spec_is_finite(self) -> bool {
        self.magnitude() < INFINITY_BITS
    }

    /// The place of a number in the order of the numbers: binary64 is a
    /// sign-magnitude format, so numbers compare as their magnitudes do, with
    /// the sign applied. The two zeros share the place 0.
    pub open spec fn rank(self) -> int {
        if self.spec_is_negative() {
            -self.magnitude()
        } else {
            self.magnitude()
        }
    }

    /// `self < rhs` as numbers; false when either is not a number.
    pub open spec fn spec_lt(self, rhs: Real) -> bool {
        !self.spec_is_nan() && !rhs.spec_is_nan() && self.rank() < rhs.rank()
    }

    /// `self <= rhs` as numbers; false when either is not a number.
    pub open spec fn spec_le(self, rhs: Real) -> bool {
        !self.spec_is_nan() && !rhs.spec_is_nan() && self.rank() <= rhs.rank()
    }

    /// `self > rhs` as numbers; false when either is not a number.
    pub open spec fn spec_gt(self, rhs: Real) -> bool {
        rhs.spec_lt(self)
    }

    /// `self >= rhs` as numbers; false when either is not a number.
    pub open spec fn spec_ge(self, rhs: Real) -> bool {
        rhs.spec_le(self)
    }

    /// The number with the opposite sign.
    pub open spec fn spec_neg(self) -> Real {
        if self.bits >= SIGN_BIT {
            Real { bits: (self.bits - SIGN_BIT) as u64 }
        } else {
            Real { bits: (self.bits + SIGN_BIT) as u64 }
        }
    }

    /// The number without its sign.
    pub open spec fn spec_abs(self) -> Real {
        Real { bits: self.magnitude() as u64 }
    }

    /// The smaller of two numbers; the other one when one is not a number.
    pub open spec fn spec_min(self, rhs: Real) -> Real {
        if self.spec_is_nan() {
            rhs
        } else if rhs.spec_lt(self) {
            rhs
        } else {
            self
        }
    }

    /// The larger of two numbers; the other one when one is not a number.
    pub open spec fn spec_max(self, rhs: Real) -> Real {
        if self.spec_is_nan() {
            rhs
        } else if self.spec_lt(rhs) {
            rhs
        } else {
            self
        }
    }

    /// The exponent field: the magnitude without its lower 52 bits.
    pub open spec fn exponent_field(self) -> int {
        self.magnitude() / (HIDDEN_BIT as int)
    }

    /// The significand of a normal number: the lower 52 bits of the
    /// magnitude under the hidden bit.
    pub open spec fn significand(self) -> int {
        HIDDEN_BIT + self.magnitude() % (HIDDEN_BIT as int)
    }

    /// The whole part of the absolute value of a normal number, which is its
    /// significand times two to the power of its exponent field less 1075.
    /// Numbers below 1 have the whole part 0.
    pub open spec fn whole_part(self) -> int {
        let e = self.exponent_field();
        if e < 1023 {
            0
        } else if e <= 1075 {
            self.significand() / (pow2((1075 - e) as nat) as int)
        } else {
            self.significand() * pow2((e - 1075) as nat)
        }
    }

    /// The number cut to a whole number and brought into the range of `u64`:
    /// 0 for what is not a number and for what is negative, the greatest
    /// `u64` for what lies above it.
    pub open spec fn spec_to_u64(self) -> u64 {
        if self.spec_is_nan() || self.spec_is_negative() {
            0
        } else if self.whole_part() > u64::MAX {
            u64::MAX
        } else {
            self.whole_part() as u64
        }
    }

    /// The number cut to a whole number and brought into the range of `i64`:
    /// 0 for what is not a number, the least and the greatest `i64` for what
    /// lies beyond them.
    pub open spec fn spec_to_i64(self) -> i64 {
        if self.spec_is_nan() {
            0
        } else if self.spec_is_negative() {
            if self.whole_part() > -(i64::MIN as int) {
                i64::MIN
            } else {
                (-self.whole_part()) as i64
            }
        } else {
            if self.whole_part() > i64::MAX {
                i64::MAX
            } else {
                self.whole_part() as i64
            }
        }
    }

    pub open spec fn spec_add(self, rhs: Real) -> Real {
        Real { bits: float_sum(self.bits, rhs.bits) }
    }

    /// Subtraction is addition of the negated subtrahend.
    pub open spec fn spec_sub(self, rhs: Real) -> Real {
        self.spec_add(rhs.spec_neg())
    }

    pub open spec fn spec_mul(self, rhs: Real) -> Real {
        Real { bits: float_product(self.bits, rhs.bits) }
    }

    pub open spec fn spec_div(self, rhs: Real) -> Real {
        Real { bits: float_quotient(self.bits, rhs.bits) }
    }

    pub open spec fn spec_sqrt(self) -> Real {
        Real { bits: float_sqrt(self.bits) }
    }

    /// The weight of the last binary digit before the point in the magnitude
    /// of a number whose exponent field lies from 1023 to 1075: below it
    /// stand the digits behind the point.
    pub open spec fn unit_weight(self) -> int {
        pow2((1075 - self.exponent_field()) as nat) as int
    }

    /// Whether a number is whole or infinite: it is 0, or its exponent field
    /// is 1075 or more, or it is at least 1 in absolute value and its
    /// magnitude has no digits behind the point.
    pub open spec fn is_whole(self) -> bool {
        &&& !self.spec_is_nan()
        &&& {
            ||| self.magnitude() == 0
            ||| self.exponent_field() >= 1075
            ||| self.exponent_field() >= 1023 && self.magnitude() % self.unit_weight() == 0
        }
    }

    /// The greatest whole number not above a number. What is whole, infinite
    /// or not a number stays as it is. Below 1 in absolute value, a negative
    /// number gives -1 and a positive one 0. Otherwise the digits behind the
    /// point are taken off the magnitude, and a negative number gets one
    /// more in the last place before the point.
    pub open spec fn spec_floor(self) -> Real {
        let e = self.exponent_field();
        let behind = self.magnitude() % self.unit_weight();
        if e >= 1075 || self.magnitude() == 0 {
            self
        } else if e < 1023 {
            if self.spec_is_negative() {
                Real { bits: MINUS_ONE_BITS }
            } else {
                Real { bits: 0 }
            }
        } else if behind == 0 {
            self
        } else if self.spec_is_negative() {
            Real { bits: (SIGN_BIT + self.magnitude() - behind + self.unit_weight()) as u64 }
        } else {
            Real { bits: (self.magnitude() - behind) as u64 }
        }
    }

    pub open spec fn spec_sin(self) -> Real {
        Real { bits: float_sin(self.bits) }
    }

    pub open spec fn spec_cos(self) -> Real {
        Real { bits: float_cos(self.bits) }
    }

    pub open spec fn spec_ln(self) -> Real {
        Real { bits: float_ln(self.bits) }
    }

    /// The arc cosine of a number from -1 to 1; of every other pattern, what
    /// is not a number.
    pub open spec fn spec_acos(self) -> Real {
        if self.magnitude() <= ONE_BITS {
            Real { bits: float_acos(self.bits) }
        } else {
            Real { bits: NAN_BITS }
        }
    }

    /// The angle of the point whose ordinate is `self` and whose abscissa is
    /// `x`; what is not a number where one of the two is not.
    pub open spec fn spec_atan2(self, x: Real) -> Real {
        if self.spec_is_nan() || x.spec_is_nan() {
            Real { bits: NAN_BITS }
        } else {
            Real { bits: float_atan2(self.bits, x.bits) }
        }
    }

    /// The number equal to a signed 32-bit integer.
    pub open spec fn spec_from_i32(n: i32) -> Real {
        if n < 0 {
            Real::spec_from_u32((-n) as u32).spec_neg()
        } else {
            Real::spec_from_u32(n as u32)
        }
    }

    /// The tangent, as the quotient of the sine by the cosine.
    pub open spec fn spec_tan(self) -> Real {
        self.spec_sin().spec_div(self.spec_cos())
    }

    /// The number equal to an unsigned 32-bit integer.
    pub open spec fn spec_from_u32(n: u32) -> Real {
        Real::spec_from_u64(n as u64)
    }

    /// The number nearest to an unsigned 64-bit integer `n`, where `p` is
    /// the place of the highest binary digit of a positive `n`.
    ///
    /// Below two to the power 53 the number equals `n`: the exponent field is
    /// 1023 + p and the significand is n times two to the power 52 - p.
    /// From there on the p - 52 lowest digits of `n` are cut off; what is
    /// kept is the significand, raised by one where what was cut is more
    /// than half of the last place kept, or is half of it while the last
    /// digit kept is odd. The exponent field is again 1023 + p, and one more
    /// where the raised significand reaches two to the power 53.
    pub open spec fn spec_from_u64(n: u64) -> Real {
        if n == 0 {
            Real { bits: 0 }
        } else if n < 2 * HIDDEN_BIT {
            let p = top_digit(n as nat);
            Real {
                bits: ((1023 + p) * HIDDEN_BIT + (n * pow2((52 - p) as nat) - HIDDEN_BIT)) as u64,
            }
        } else {
            let k = (top_digit(n as nat) - 52) as nat;
            let unit = pow2(k) as int;
            let kept = (n as int) / unit;
            let cut = (n as int) % unit;
            let up: int = if 2 * cut > unit || (2 * cut == unit && kept % 2 == 1) {
                1
            } else {
                0
            };
            Real { bits: ((1075 + k) * HIDDEN_BIT + (kept + up - HIDDEN_BIT)) as u64 }
        }
    }

    pub open spec fn spec_from_bits(bits: u64) -> Real {
        Real { bits }
    }

    #[verifier::when_used_as_spec(spec_from_bits)]
    pub fn from_bits(bits: u64) -> (r: Real)
        ensures
            r == Real::spec_from_bits(bits),
    {
        Real { bits }
    }

    pub fn to_bits(self) -> (r: u64)
        ensures
            r == self.bits,
    {
        self.bits
    }

    pub fn zero() -> (r: Real)
        ensures
            r.bits == 0,
    {
        Real { bits: 0 }
    }

    pub fn one() -> (r: Real)
        ensures
            r.bits == ONE_BITS,
    {
        Real { bits: ONE_BITS }
    }

    pub fn infinity() -> (r: Real)
        ensures
            r.bits == INFINITY_BITS,
    {
        Real { bits: INFINITY_BITS }
    }

    pub fn neg_infinity() -> (r: Real)
        ensures
            r.bits == NEG_INFINITY_BITS,
    {
        Real { bits: NEG_INFINITY_BITS }
    }

    #[verifier::when_used_as_spec(spec_is_negative)]
    pub fn is_negative(self) -> (r: bool)
        ensures
            r == self.spec_is_negative(),
    {
        self.bits >= SIGN_BIT
    }

    #[verifier::when_used_as_spec(spec_is_nan)]
    pub fn is_nan(self) -> (r: bool)
        ensures
            r == self.spec_is_nan(),
    {
        self.abs().bits > INFINITY_BITS
    }

    #[verifier::when_used_as_spec(spec_is_finite)]
    pub fn is_finite(self) -> (r: bool)
        ensures
            r == self.spec_is_finite(),
    {
        self.abs().bits < INFINITY_BITS
    }

    #[verifier::when_used_as_spec(spec_abs)]
    pub fn abs(self) -> (r: Real)
        ensures
            r == self.spec_abs(),
    {
        if self.bits >= SIGN_BIT {
            Real { bits: self.bits - SIGN_BIT }
        } else {
            self
        }
    }

    #[verifier::when_used_as_spec(spec_neg)]
    pub fn neg(self) -> (r: Real)
        ensures
            r == self.spec_neg(),
    {
        if self.bits >= SIGN_BIT {
            Real { bits: self.bits - SIGN_BIT }
        } else {
            Real { bits: self.bits + SIGN_BIT }
        }
    }

    /// The place of the number in the order of the numbers.
    pub fn order_key(self) -> (r: i64)
        ensures
            r == self.rank(),
    {
        let mag: u64 = self.abs().bits;
        if self.is_negative() {
            -(mag as i64)
        } else {
            mag as i64
        }
    }

    #[verifier::when_used_as_spec(spec_lt)]
    pub fn lt(self, rhs: Real) -> (r: bool)
        ensures
            r == self.spec_lt(rhs),
    {
        if self.is_nan() || rhs.is_nan() {
            return false;
        }
        let a: u64 = self.abs().bits;
        let b: u64 = rhs.abs().bits;
        if self.is_negative() {
            if rhs.is_negative() {
                b < a
            } else {
                a > 0 || b > 0
            }
        } else {
            if rhs.is_negative() {
                false
            } else {
                a < b
            }
        }
    }

    #[verifier::when_used_as_spec(spec_le)]
    pub fn le(self, rhs: Real) -> (r: bool)
        ensures
            r == self.spec_le(rhs),
    {
        if self.is_nan() || rhs.is_nan() {
            return false;
        }
        !rhs.lt(self)
    }

    #[verifier::when_used_as_spec(spec_gt)]
    pub fn gt(self, rhs: Real) -> (r: bool)
        ensures
            r == self.spec_gt(rhs),
    {
        rhs.lt(self)
    }

    #[verifier::when_used_as_spec(spec_ge)]
    pub fn ge(self, rhs: Real) -> (r: bool)
        ensures
            r == self.spec_ge(rhs),
    {
        rhs.le(self)
    }

    #[verifier::when_used_as_spec(spec_min)]
    pub fn min(self, rhs: Real) -> (r: Real)
        ensures
            r == self.spec_min(rhs),
    {
        if self.is_nan() {
            rhs
        } else if rhs.lt(self) {
            rhs
        } else {
            self
        }
    }

    #[verifier::when_used_as_spec(spec_max)]
    pub fn max(self, rhs: Real) -> (r: Real)
        ensures
            r == self.spec_max(rhs),
    {
        if self.is_nan() {
            rhs
        } else if self.lt(rhs) {
            rhs
        } else {
            self
        }
    }

    #[verifier::when_used_as_spec(spec_add)]
    pub fn add(self, rhs: Real) -> (r: Real)
        ensures
            r == self.spec_add(rhs),
    {
        Real { bits: soft_add(self.bits, rhs.bits) }
    }

    #[verifier::when_used_as_spec(spec_sub)]
    pub fn sub(self, rhs: Real) -> (r: Real)
        ensures
            r == self.spec_sub(rhs),
    {
        self.add(rhs.neg())
    }

    #[verifier::when_used_as_spec(spec_mul)]
    pub fn mul(self, rhs: Real) -> (r: Real)
        ensures
            r == self.spec_mul(rhs),
    {
        Real { bits: soft_mul(self.bits, rhs.bits) }
    }

    #[verifier::when_used_as_spec(spec_div)]
    pub fn div(self, rhs: Real) -> (r: Real)
        ensures
            r == self.spec_div(rhs),
    {
        Real { bits: soft_div(self.bits, rhs.bits) }
    }

    #[verifier::when_used_as_spec(spec_sqrt)]
    pub fn sqrt(self) -> (r: Real)
        ensures
            r == self.spec_sqrt(),
    {
        Real { bits: soft_sqrt(self.bits) }
    }

    #[verifier::when_used_as_spec(spec_floor)]
    pub fn floor(self) -> (r: Real)
        ensures
            r == self.spec_floor(),
    {
        let mag: u64 = self.abs().bits;
        let e: u64 = mag / HIDDEN_BIT;
        if e >= 1075 || mag == 0 {
            return self;
        }
        if e < 1023 {
            if self.is_negative() {
                return Real { bits: MINUS_ONE_BITS };
            }
            return Real::zero();
        }
        let k: u64 = 1075 - e;
        proof {
            lemma2_to64();
            lemma2_to64_rest();
            if k < 52 {
                lemma_pow2_strictly_increases(k as nat, 52);
            }
            lemma_u64_shl_is_mul(1, k);
        }
        let unit: u64 = 1u64 << k;
        let behind: u64 = mag % unit;
        if behind == 0 {
            self
        } else if self.is_negative() {
            Real { bits: SIGN_BIT + (mag - behind + unit) }
        } else {
            Real { bits: mag - behind }
        }
    }

    #[verifier::when_used_as_spec(spec_sin)]
    pub fn sin(self) -> (r: Real)
        ensures
            r == self.spec_sin(),
    {
        Real { bits: soft_sin(self.bits) }
    }

    #[verifier::when_used_as_spec(spec_cos)]
    pub fn cos(self) -> (r: Real)
        ensures
            r == self.spec_cos(),
    {
        Real { bits: soft_cos(self.bits) }
    }

    #[verifier::when_used_as_spec(spec_ln)]
    pub fn ln(self) -> (r: Real)
        ensures
            r == self.spec_ln(),
    {
        Real { bits: soft_ln(self.bits) }
    }

    /// The whole part of the absolute value where it fits into `u64`, and
    /// nothing where it does not.
    fn whole_part_checked(self) -> (r: Option<u64>)
        ensures
            r matches Some(w) ==> w == self.whole_part(),
            r.is_none() ==> self.whole_part() > u64::MAX,
    {
        let mag: u64 = self.abs().bits;
        let e: u64 = mag / HIDDEN_BIT;
        let m: u64 = HIDDEN_BIT + mag % HIDDEN_BIT;
        proof {
            lemma2_to64();
        }
        if e < 1023 {
            Some(0)
        } else if e <= 1075 {
            let k: u64 = 1075 - e;
            proof {
                lemma_u64_shr_is_div(m, k);
            }
            Some(m >> k)
        } else if e <= 1086 {
            let k: u64 = e - 1075;
            proof {
                if k < 11 {
                    lemma_pow2_strictly_increases(k as nat, 11);
                }
                assert(pow2(11) == 0x800) by {
                    lemma2_to64();
                }
                let p = pow2(k as nat);
                assert(m * p <= u64::MAX) by (nonlinear_arith)
                    requires
                        m < 0x20_0000_0000_0000,
                        p <= 0x800,
                ;
                lemma_u64_shl_is_mul(m, k);
            }
            Some(m << k)
        } else {
            proof {
                let k = (e - 1075) as nat;
                if k > 12 {
                    lemma_pow2_strictly_increases(12, k);
                }
                let p = pow2(k);
                assert(m * p > u64::MAX) by (nonlinear_arith)
                    requires
                        m >= 0x10_0000_0000_0000,
                        p >= 0x1000,
                ;
            }
            None
        }
    }

    #[verifier::when_used_as_spec(spec_to_u64)]
    pub fn to_u64(self) -> (r: u64)
        ensures
            r == self.spec_to_u64(),
    {
        if self.is_nan() || self.is_negative() {
            return 0;
        }
        match self.whole_part_checked() {
            Some(w) => w,
            None => u64::MAX,
        }
    }

    #[verifier::when_used_as_spec(spec_to_i64)]
    pub fn to_i64(self) -> (r: i64)
        ensures
            r == self.spec_to_i64(),
    {
        if self.is_nan() {
            return 0;
        }
        match self.whole_part_checked() {
            Some(w) => {
                if self.is_negative() {
                    if w > 0x8000_0000_0000_0000 {
                        i64::MIN
                    } else if w == 0x8000_0000_0000_0000 {
                        i64::MIN
                    } else {
                        -(w as i64)
                    }
                } else {
                    if w > 0x7FFF_FFFF_FFFF_FFFF {
                        i64::MAX
                    } else {
                        w as i64
                    }
                }
            },
            None => {
                if self.is_negative() {
                    i64::MIN
                } else {
                    i64::MAX
                }
            },
        }
    }

    #[verifier::when_used_as_spec(spec_acos)]
    pub fn acos(self) -> (r: Real)
        ensures
            r == self.spec_acos(),
    {
        if self.abs().bits <= ONE_BITS {
            Real { bits: soft_acos(self.bits) }
        } else {
            Real { bits: NAN_BITS }
        }
    }

    #[verifier::when_used_as_spec(spec_atan2)]
    pub fn atan2(self, x: Real) -> (r: Real)
        ensures
            r == self.spec_atan2(x),
    {
        if self.is_nan() || x.is_nan() {
            Real { bits: NAN_BITS }
        } else {
            Real { bits: soft_atan2(self.bits, x.bits) }
        }
    }

    #[verifier::when_used_as_spec(spec_tan)]
    pub fn tan(self) -> (r: Real)
        ensures
            r == self.spec_tan(),
    {
        self.sin().div(self.cos())
    }

    #[verifier::when_used_as_spec(spec_from_u32)]
    pub fn from_u32(n: u32) -> (r: Real)
        ensures
            r == Real::spec_from_u32(n),
    {
        Real::from_u64(n as u64)
    }

    /// The number nearest to a whole number from two to the power 53 on.
    fn from_large(n: u64) -> (r: Real)
        requires
            n >= 2 * HIDDEN_BIT,
        ensures
            r == Real::spec_from_u64(n),
    {
        let mut kept: u64 = n;
        let mut unit: u64 = 1;
        let mut k: u64 = 0;
        proof {
            lemma2_to64();
            lemma2_to64_rest();
        }
        while kept >= 2 * HIDDEN_BIT
            invariant
                kept >= HIDDEN_BIT,
                unit >= 1,
                kept == n / unit,
                unit == pow2(k as nat),
                k <= 11,
                top_digit(n as nat) == k + top_digit(kept as nat),
                pow2(52) == HIDDEN_BIT,
                pow2(11) == 0x800,
            decreases kept,
        {
            proof {
                vstd::arithmetic::div_mod::lemma_fundamental_div_mod(n as int, unit as int);
                vstd::arithmetic::div_mod::lemma_mod_bound(n as int, unit as int);
                assert(unit < 0x800) by (nonlinear_arith)
                    requires
                        kept >= 0x20_0000_0000_0000,
                        unit * kept <= n,
                        n <= 0xFFFF_FFFF_FFFF_FFFF,
                        unit >= 1,
                ;
                if k >= 11 {
                    if k > 11 {
                        lemma_pow2_strictly_increases(11, k as nat);
                    }
                }
                lemma_pow2_unfold((k + 1) as nat);
                vstd::arithmetic::div_mod::lemma_div_denominator(n as int, unit as int, 2);
            }
            kept = kept / 2;
            unit = unit * 2;
            k = k + 1;
        }
        proof {
            lemma_top_digit(kept as nat, 52);
            assert(k == top_digit(n as nat) - 52);
        }
        let cut: u64 = n % unit;
        let up: u64 = if cut > unit - cut || (cut == unit - cut && kept % 2 == 1) {
            1
        } else {
            0
        };
        Real { bits: (1075 + k) * HIDDEN_BIT + (kept + up - HIDDEN_BIT) }
    }

    #[verifier::when_used_as_spec(spec_from_u64)]
    pub fn from_u64(n: u64) -> (r: Real)
        ensures
            r == Real::spec_from_u64(n),
    {
        if n == 0 {
            return Real::zero();
        }
        if n >= 2 * HIDDEN_BIT {
            return Real::from_large(n);
        }
        let mut m: u64 = n;
        let mut e: u64 = 1075;
        proof {
            lemma2_to64();
            lemma2_to64_rest();
            assert(n * pow2(0) == n) by (nonlinear_arith)
                requires
                    pow2(0) == 1,
            ;
        }
        while m < HIDDEN_BIT
            invariant
                1023 <= e <= 1075,
                1 <= m < 2 * HIDDEN_BIT,
                m == n * pow2((1075 - e) as nat),
                top_digit(m as nat) == top_digit(n as nat) + (1075 - e),
                pow2(52) == HIDDEN_BIT,
            decreases e,
        {
            proof {
                let k = (1075 - e) as nat;
                let scale = pow2(k);
                if k == 52 {
                    assert(n * scale >= HIDDEN_BIT) by (nonlinear_arith)
                        requires
                            n >= 1,
                            scale == HIDDEN_BIT,
                    ;
                }
                lemma_pow2_unfold(k + 1);
                assert(n * (2 * scale) == 2 * (n * scale)) by (nonlinear_arith);
                assert((2 * m) as nat / 2 == m);
            }
            m = m * 2;
            e = e - 1;
        }
        proof {
            lemma_top_digit(m as nat, 52);
        }
        Real { bits: e * HIDDEN_BIT + (m - HIDDEN_BIT) }
    }

    #[verifier::when_used_as_spec(spec_from_i32)]
    pub fn from_i32(n: i32) -> (r: Real)
        ensures
            r == Real::spec_from_i32(n),
    {
        if n < 0 {
            let positive: i64 = -(n as i64);
            Real::from_u32(positive as u32).neg()
        } else {
            Real::from_u32(n as u32)
        }
    }
}

/// The numbers are in one line: of two of them one is less than the other,
/// or they have the same place; what is not above a second that is not above
/// a third is not above the third; and the two zeros are the only two
/// numbers that share their place.
pub proof fn lemma_numbers_are_in_line(a: Real, b: Real, c: Real)
    requires
        !a.spec_is_nan(),
        !b.spec_is_nan(),
        !c.spec_is_nan(),
    ensures
        a.spec_lt(b) || b.spec_lt(a) || a.rank() == b.rank(),
        a.spec_le(b) <==> !b.spec_lt(a),
        a.spec_le(b) && b.spec_le(c) ==> a.spec_le(c),
        a.spec_lt(b) && b.spec_le(c) ==> a.spec_lt(c),
        a.rank() == b.rank() ==> a == b || a.magnitude() == 0 && b.magnitude() == 0,
        a.spec_neg().rank() == -a.rank(),
        a.spec_abs().rank() == a.magnitude(),
{
}

/// A whole number that was turned into a number of the line comes back when
/// that number is cut to a whole number.
pub proof fn lemma_from_u32_comes_back(n: u32)
    ensures
        Real::spec_from_u32(n).spec_to_u64() == n,
        !Real::spec_from_u32(n).spec_is_nan(),
        !Real::spec_from_u32(n).spec_is_negative(),
{
    lemma2_to64();
    lemma2_to64_rest();
    if n > 0 {
        let p = top_digit(n as nat);
        lemma_top_digit_bounds(n as nat);
        if p >= 32 {
            if p > 32 {
                lemma_pow2_strictly_increases(32, p);
            }
            assert(pow2(32) == 0x1_0000_0000);
        }
        assert(p <= 31);
        let low = pow2(p);
        let high = pow2((52 - p) as nat);
        assert(low * high == pow2(52)) by {
            vstd::arithmetic::power2::lemma_pow2_adds(p, (52 - p) as nat);
        }
        assert(high > 0) by {
            vstd::arithmetic::power2::lemma_pow2_pos((52 - p) as nat);
        }
        let s = n * high;
        assert(HIDDEN_BIT <= s < 2 * HIDDEN_BIT) by (nonlinear_arith)
            requires
                low <= n < 2 * low,
                low * high == HIDDEN_BIT,
                s == n * high,
                high > 0,
        ;
        assert((1023 + p) * HIDDEN_BIT <= 1054 * HIDDEN_BIT) by (nonlinear_arith)
            requires
                p <= 31,
        ;
        let r = Real::spec_from_u32(n);
        assert(r.bits == (1023 + p) * HIDDEN_BIT + (s - HIDDEN_BIT));
        assert(r.magnitude() == (1023 + p) * HIDDEN_BIT + (s - HIDDEN_BIT));
        assert(r.exponent_field() == 1023 + p && r.magnitude() % (HIDDEN_BIT as int) == s
            - HIDDEN_BIT) by {
            vstd::arithmetic::div_mod::lemma_fundamental_div_mod_converse(
                r.magnitude(),
                HIDDEN_BIT as int,
                (1023 + p) as int,
                s - HIDDEN_BIT,
            );
        }
        assert(r.significand() == s);
        assert(r.whole_part() == s / (high as int));
        assert((n * high) / (high as int) == n) by {
            vstd::arithmetic::div_mod::lemma_div_by_multiple(n as int, high as int);
        }
    }
}

/// A multiple of a unit that is not above a whole number is not above the
/// greatest multiple under that number.
proof fn lemma_multiple_below(a: int, m: int, unit: int)
    requires
        unit > 0,
        a % unit == 0,
        a <= m,
    ensures
        a <= m - m % unit,
        (m - m % unit) % unit == 0,
{
    vstd::arithmetic::div_mod::lemma_fundamental_div_mod(a, unit);
    vstd::arithmetic::div_mod::lemma_fundamental_div_mod(m, unit);
    vstd::arithmetic::div_mod::lemma_mod_bound(m, unit);
    let qa = a / unit;
    let qm = m / unit;
    let r = m % unit;
    assert(unit * qa <= unit * qm) by (nonlinear_arith)
        requires
            unit > 0,
            unit * qa <= unit * qm + r,
            0 <= r < unit,
    ;
    assert((qm * unit) % unit == 0) by {
        vstd::arithmetic::div_mod::lemma_mod_multiples_basic(qm, unit);
    }
    assert(qm * unit == unit * qm) by (nonlinear_arith);
}

/// A multiple of a unit that is not below a whole number which is itself no
/// multiple is not below the least multiple over that number.
proof fn lemma_multiple_above(a: int, m: int, unit: int)
    requires
        unit > 0,
        a % unit == 0,
        a >= m,
        m % unit != 0,
    ensures
        a >= m - m % unit + unit,
        (m - m % unit + unit) % unit == 0,
{
    vstd::arithmetic::div_mod::lemma_fundamental_div_mod(a, unit);
    vstd::arithmetic::div_mod::lemma_fundamental_div_mod(m, unit);
    vstd::arithmetic::div_mod::lemma_mod_bound(m, unit);
    let qa = a / unit;
    let qm = m / unit;
    let r = m % unit;
    assert(unit * qa >= unit * qm + unit) by (nonlinear_arith)
        requires
            unit > 0,
            unit * qa >= unit * qm + r,
            0 < r < unit,
    ;
    assert(((qm + 1) * unit) % unit == 0) by {
        vstd::arithmetic::div_mod::lemma_mod_multiples_basic(qm + 1, unit);
    }
    assert((qm + 1) * unit == unit * qm + unit) by (nonlinear_arith);
}

/// The least magnitude with a given exponent field is a multiple of two to
/// any power up to 52.
proof fn lemma_binade_is_multiple(e: int, k: nat)
    requires
        k <= 52,
    ensures
        (e * HIDDEN_BIT) % (pow2(k) as int) == 0,
        pow2(k) > 0,
{
    lemma2_to64_rest();
    vstd::arithmetic::power2::lemma_pow2_adds(k, (52 - k) as nat);
    vstd::arithmetic::power2::lemma_pow2_pos(k);
    let unit = pow2(k) as int;
    let rest = pow2((52 - k) as nat) as int;
    assert(e * HIDDEN_BIT == (e * rest) * unit) by (nonlinear_arith)
        requires
            unit * rest == HIDDEN_BIT,
    ;
    vstd::arithmetic::div_mod::lemma_mod_multiples_basic(e * rest, unit);
}

/// The floor of a number is whole and not above the number, and no whole
/// number that is not above the number is above its floor: the floor is the
/// greatest whole number not above the number.
pub proof fn lemma_floor_is_greatest_whole_below(x: Real, w: Real)
    requires
        !x.spec_is_nan(),
    ensures
        x.spec_floor().is_whole(),
        x.spec_floor().spec_le(x),
        w.is_whole() && w.spec_le(x) ==> w.spec_le(x.spec_floor()),
{
    lemma2_to64();
    lemma2_to64_rest();
    let e = x.exponent_field();
    let mag = x.magnitude();
    let f = x.spec_floor();
    let ew = w.exponent_field();
    let mw = w.magnitude();
    if e >= 1075 || mag == 0 {
        assert(f.is_whole());
    } else if e < 1023 {
        if x.spec_is_negative() {
            assert(f.magnitude() == 1023 * HIDDEN_BIT);
            assert(f.exponent_field() == 1023);
            assert(f.unit_weight() == HIDDEN_BIT);
            assert(f.is_whole());
        } else {
            assert(f.is_whole());
        }
    } else {
        let k = (1075 - e) as nat;
        let unit = x.unit_weight();
        let behind = mag % unit;
        lemma_binade_is_multiple(e, k);
        lemma_binade_is_multiple(e + 1, k);
        vstd::arithmetic::div_mod::lemma_mod_bound(mag, unit);
        if behind == 0 {
            assert(f.is_whole());
        } else if x.spec_is_negative() {
            let mf = mag - behind + unit;
            lemma_multiple_above((e + 1) * HIDDEN_BIT, mag, unit);
            assert(f.magnitude() == mf);
            if mf < (e + 1) * HIDDEN_BIT {
                assert(f.exponent_field() == e);
                assert(f.is_whole());
            } else {
                assert(f.exponent_field() == e + 1);
                if e + 1 < 1075 {
                    lemma_binade_is_multiple(e + 1, (k - 1) as nat);
                }
                assert(f.is_whole());
            }
            if w.is_whole() && w.spec_le(x) {
                if ew == e {
                    lemma_multiple_above(mw, mag, unit);
                }
            }
        } else {
            let mf = mag - behind;
            lemma_multiple_below(e * HIDDEN_BIT, mag, unit);
            assert(f.magnitude() == mf);
            assert(f.exponent_field() == e);
            assert(f.is_whole());
            if w.is_whole() && w.spec_le(x) && !w.spec_is_negative() && mw != 0 {
                if ew == e {
                    lemma_multiple_below(mw, mag, unit);
                }
            }
        }
    }
}

} // verus!
