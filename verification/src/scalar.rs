//! Binary32 numbers by their bit patterns.

use vstd::arithmetic::power2::{
    lemma2_to64, lemma_pow2_pos, lemma_pow2_strictly_increases, lemma_pow2_unfold, pow2,
};
use vstd::prelude::*;

verus! {

/// The sign bit of a binary32 pattern.
pub const SIGN_BIT: u32 = 0x8000_0000;

/// The pattern of positive infinity; every larger magnitude is a NaN.
pub const INFINITY_BITS: u32 = 0x7f80_0000;

/// The weight of the lowest exponent bit.
pub const EXPONENT_UNIT: u32 = 0x0080_0000;

/// The pattern of 1.0.
pub const ONE_BITS: u32 = 0x3f80_0000;

/// A binary32 number, held as its 32 bits: sign, eight exponent bits,
/// twenty-three fraction bits.
///
/// `==` compares patterns, not numbers: it tells the two zeros apart and
/// finds a NaN equal to itself. For the order of numbers see `less` and
/// `at_most`.
#[derive(Clone, Copy, Debug, PartialEq, Eq, Structural)]
pub struct Scalar {
    pub bits: u32,
}

impl Scalar {
    /// The pattern without its sign bit.
    pub open spec fn magnitude(self) -> int {
        self.bits as int % 0x8000_0000
    }

    /// Whether the sign bit is set (true of -0.0 and of some NaNs too).
    pub open spec fn sign(self) -> bool {
        self.bits >= SIGN_BIT
    }

    /// Whether the pattern is one of the NaNs.
    pub open spec fn nan(self) -> bool {
        self.magnitude() > INFINITY_BITS
    }

    /// The place of the number on the number line, as an integer that grows
    /// with the number: both zeros have rank 0, and `a < b` holds of two
    /// numbers exactly when neither is a NaN and `a.rank() < b.rank()`.
    pub open spec fn rank(self) -> int {
        if self.sign() {
            -self.magnitude()
        } else {
            self.magnitude()
        }
    }

    /// The IEEE-754 `<`: false whenever a NaN takes part.
    pub open spec fn less(self, other: Scalar) -> bool {
        !self.nan() && !other.nan() && self.rank() < other.rank()
    }

    /// The IEEE-754 `<=`: false whenever a NaN takes part.
    pub open spec fn at_most(self, other: Scalar) -> bool {
        !self.nan() && !other.nan() && self.rank() <= other.rank()
    }

    /// The number with the sign bit flipped.
    pub open spec fn negated(self) -> Scalar {
        if self.sign() {
            Scalar { bits: (self.bits - SIGN_BIT) as u32 }
        } else {
            Scalar { bits: (self.bits + SIGN_BIT) as u32 }
        }
    }

    /// The number without its sign.
    pub open spec fn absolute(self) -> Scalar {
        Scalar { bits: self.magnitude() as u32 }
    }

    /// The eight exponent bits, as a number from 0 to 255.
    pub open spec fn exponent(self) -> int {
        self.magnitude() / 0x0080_0000
    }

    /// The digits of the number as an integer below 2^24: the fraction
    /// bits, under a leading one unless the number is zero or subnormal.
    pub open spec fn significand(self) -> int {
        if self.exponent() == 0 {
            self.magnitude() % 0x0080_0000
        } else {
            0x0080_0000 + self.magnitude() % 0x0080_0000
        }
    }

    /// The number of binary places of the significand: a number that is
    /// neither infinite nor a NaN has the absolute value
    /// `significand() / 2^places()`. Numbers from 2^24 on have none, and
    /// `places()` is negative.
    pub open spec fn places(self) -> int {
        if self.exponent() == 0 {
            149
        } else {
            150 - self.exponent()
        }
    }

    /// Whether the number is neither infinite nor a NaN.
    pub open spec fn finite(self) -> bool {
        self.magnitude() < INFINITY_BITS
    }

    /// The absolute value of a finite number, counted in units of 2^-149,
    /// the least positive number: an integer.
    pub open spec fn size(self) -> int {
        self.significand() * pow2((149 - self.places()) as nat)
    }

    /// The value of a finite number, counted in units of 2^-149.
    pub open spec fn value(self) -> int {
        if self.sign() {
            -self.size()
        } else {
            self.size()
        }
    }

    /// `self` brought into the range from `lo` to `hi`; a NaN stays a NaN.
    pub open spec fn clamped(self, lo: Scalar, hi: Scalar) -> Scalar {
        if self.less(lo) {
            lo
        } else if hi.less(self) {
            hi
        } else {
            self
        }
    }

    /// The lesser of two numbers. A NaN is passed over for the other
    /// number; of two equal numbers, which only two zeros of different
    /// sign can be without being the same, it is `self`.
    pub open spec fn lesser(self, other: Scalar) -> Scalar {
        if other.nan() {
            self
        } else if self.nan() || other.less(self) {
            other
        } else {
            self
        }
    }

    pub fn from_bits(bits: u32) -> (s: Scalar)
        ensures
            s.bits == bits,
    {
        Scalar { bits }
    }

    pub fn to_bits(self) -> (bits: u32)
        ensures
            bits == self.bits,
    {
        self.bits
    }

    /// Positive zero.
    pub fn zero() -> (s: Scalar)
        ensures
            s.bits == 0,
    {
        Scalar { bits: 0 }
    }

    /// The number 1.0.
    pub fn one() -> (s: Scalar)
        ensures
            s.bits == ONE_BITS,
    {
        Scalar { bits: ONE_BITS }
    }

    /// Positive infinity.
    pub fn infinity() -> (s: Scalar)
        ensures
            s.bits == INFINITY_BITS,
    {
        Scalar { bits: INFINITY_BITS }
    }

    fn magnitude_bits(self) -> (m: u32)
        ensures
            m == self.magnitude(),
    {
        if self.bits >= SIGN_BIT {
            self.bits - SIGN_BIT
        } else {
            self.bits
        }
    }

    pub fn is_nan(self) -> (b: bool)
        ensures
            b == self.nan(),
    {
        self.magnitude_bits() > INFINITY_BITS
    }

    fn rank_of(self) -> (r: i64)
        ensures
            r == self.rank(),
    {
        let m: i64 = self.magnitude_bits() as i64;
        if self.bits >= SIGN_BIT {
            -m
        } else {
            m
        }
    }

    /// `self < other` as binary32 numbers.
    pub fn lt(self, other: Scalar) -> (b: bool)
        ensures
            b == self.less(other),
    {
        !self.is_nan() && !other.is_nan() && self.rank_of() < other.rank_of()
    }

    /// `self <= other` as binary32 numbers.
    pub fn le(self, other: Scalar) -> (b: bool)
        ensures
            b == self.at_most(other),
    {
        !self.is_nan() && !other.is_nan() && self.rank_of() <= other.rank_of()
    }

    /// `self > other` as binary32 numbers.
    pub fn gt(self, other: Scalar) -> (b: bool)
        ensures
            b == other.less(self),
    {
        other.lt(self)
    }

    /// `self >= other` as binary32 numbers.
    pub fn ge(self, other: Scalar) -> (b: bool)
        ensures
            b == other.at_most(self),
    {
        other.le(self)
    }

    /// `-self`: the same magnitude under the other sign, NaNs included.
    /// Negation mirrors the number line.
    pub fn neg(self) -> (s: Scalar)
        ensures
            s == self.negated(),
            s.rank() == -self.rank(),
            s.nan() == self.nan(),
    {
        if self.bits >= SIGN_BIT {
            Scalar { bits: self.bits - SIGN_BIT }
        } else {
            Scalar { bits: self.bits + SIGN_BIT }
        }
    }

    /// `self` without its sign.
    pub fn abs(self) -> (s: Scalar)
        ensures
            s == self.absolute(),
    {
        Scalar { bits: self.magnitude_bits() }
    }

    /// The exponent bits.
    pub fn exponent_bits(self) -> (e: u32)
        ensures
            e == self.exponent(),
            e <= 255,
    {
        self.magnitude_bits() / EXPONENT_UNIT
    }

    /// The significand, leading one included.
    pub fn significand_bits(self) -> (m: u32)
        ensures
            m == self.significand(),
            m < 0x0100_0000,
    {
        let low: u32 = self.magnitude_bits() % EXPONENT_UNIT;
        if self.exponent_bits() == 0 {
            low
        } else {
            low + EXPONENT_UNIT
        }
    }

    /// The lesser of `self` and `other`, ignoring a NaN.
    pub fn min(self, other: Scalar) -> (s: Scalar)
        ensures
            s == self.lesser(other),
            !self.nan() && !other.nan() ==> s.at_most(self) && s.at_most(other),
    {
        if other.is_nan() {
            self
        } else if self.is_nan() || other.lt(self) {
            other
        } else {
            self
        }
    }

    /// `self` restricted to the range from `lo` to `hi`: `lo` where `self`
    /// is less, `hi` where it is greater, otherwise `self` as it is, which
    /// keeps a NaN and the sign of a zero.
    pub fn clamp(self, lo: Scalar, hi: Scalar) -> (s: Scalar)
        requires
            lo.at_most(hi),
        ensures
            s == self.clamped(lo, hi),
            !self.nan() ==> lo.at_most(s) && s.at_most(hi),
    {
        if self.lt(lo) {
            lo
        } else if self.gt(hi) {
            hi
        } else {
            self
        }
    }
}

/// Among finite numbers of one sign, the greater pattern is the greater
/// absolute value.
proof fn lemma_size_grows_with_magnitude(a: Scalar, b: Scalar)
    requires
        a.finite(),
        b.finite(),
        a.magnitude() < b.magnitude(),
    ensures
        0 <= a.size() < b.size(),
{
    let ea = a.exponent();
    let eb = b.exponent();
    let pa = pow2((149 - a.places()) as nat) as int;
    let pb = pow2((149 - b.places()) as nat) as int;
    lemma_pow2_pos((149 - a.places()) as nat);
    lemma_pow2_pos((149 - b.places()) as nat);
    assert(0 <= a.significand() * pa) by (nonlinear_arith)
        requires
            0 <= a.significand(),
            0 < pa,
    ;
    if ea == eb {
        assert(a.significand() * pa < b.significand() * pa) by (nonlinear_arith)
            requires
                a.significand() < b.significand(),
                0 < pa,
        ;
    } else {
        assert(ea < eb);
        assert(0x0080_0000 * pb <= b.significand() * pb) by (nonlinear_arith)
            requires
                0x0080_0000 <= b.significand(),
                0 < pb,
        ;
        if ea == 0 {
            lemma2_to64();
            assert(a.significand() * pa < 0x0080_0000 * pb) by (nonlinear_arith)
                requires
                    0 <= a.significand() < 0x0080_0000,
                    pa == 1,
                    1 <= pb,
            ;
        } else {
            lemma_pow2_unfold(ea as nat);
            if ea < eb - 1 {
                lemma_pow2_strictly_increases(ea as nat, (eb - 1) as nat);
            }
            let twice = pow2(ea as nat) as int;
            assert(a.significand() * pa < 0x0080_0000 * pb) by (nonlinear_arith)
                requires
                    0 <= a.significand() < 0x0100_0000,
                    twice == 2 * pa,
                    twice <= pb,
                    0 < pa,
            ;
        }
    }
}

/// A zero of either sign has the value 0.
proof fn lemma_zero_has_no_size(a: Scalar)
    requires
        a.magnitude() == 0,
    ensures
        a.size() == 0,
{
    assert(a.significand() * pow2((149 - a.places()) as nat) == 0) by (nonlinear_arith)
        requires
            a.significand() == 0,
    ;
}

/// The order of the patterns is the order of the numbers: of two finite
/// numbers the one of lesser value is the lesser. Infinity stands above
/// every finite number and its negation below, by their patterns.
pub proof fn lemma_order_is_by_value(a: Scalar, b: Scalar)
    requires
        a.finite(),
        b.finite(),
    ensures
        a.less(b) == (a.value() < b.value()),
        a.at_most(b) == (a.value() <= b.value()),
{
    let zero = Scalar { bits: 0 };
    assert(a.absolute().size() == a.size());
    assert(b.absolute().size() == b.size());
    lemma_zero_has_no_size(zero);
    if a.magnitude() > 0 {
        lemma_size_grows_with_magnitude(zero, a.absolute());
    } else {
        lemma_zero_has_no_size(a);
    }
    if b.magnitude() > 0 {
        lemma_size_grows_with_magnitude(zero, b.absolute());
    } else {
        lemma_zero_has_no_size(b);
    }
    if a.magnitude() < b.magnitude() {
        lemma_size_grows_with_magnitude(a.absolute(), b.absolute());
    }
    if b.magnitude() < a.magnitude() {
        lemma_size_grows_with_magnitude(b.absolute(), a.absolute());
    }
}

} // verus!
