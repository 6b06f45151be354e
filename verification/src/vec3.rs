//! Triples of binary32 numbers: vectors, points and colours.

use vstd::arithmetic::div_mod::{lemma_basic_div, lemma_div_multiples_vanish_quotient};
use vstd::arithmetic::power2::{
    lemma2_to64, lemma_pow2_adds, lemma_pow2_pos, lemma_pow2_strictly_increases,
    lemma_pow2_unfold, pow2,
};
use vstd::prelude::*;
use vstd::string::StringExecFns;
use crate::decimal::{numeral, push_numeral};
use crate::scalar::{Scalar, ONE_BITS};

verus! {

/// The pattern of 1e-8, below which a component counts as zero.
pub const NEAR_ZERO_BITS: u32 = 0x322b_cc77;

/// The pattern of 0.999, the brightest value a colour channel keeps.
pub const BRIGHTEST_BITS: u32 = 0x3f7f_be77;

/// A vector of three binary32 numbers.
#[derive(Clone, Copy, Debug, PartialEq, Eq, Structural)]
pub struct Vec3 {
    pub x: Scalar,
    pub y: Scalar,
    pub z: Scalar,
}

/// A point in space.
pub type Point3D = Vec3;

/// A colour: red, green and blue.
pub type Color = Vec3;

/// The display value of one colour channel: the channel is clamped to the
/// range from 0 to 0.999, multiplied by 256 and cut to its integer part. A
/// NaN gives 0.
pub open spec fn channel_value(value: Scalar) -> int {
    let c = value.clamped(Scalar { bits: 0 }, Scalar { bits: BRIGHTEST_BITS });
    if c.nan() {
        0
    } else {
        (256 * c.size()) / (pow2(149) as int)
    }
}

/// The integer part of 256 times a number below 2^24, read off its digits.
proof fn lemma_integer_part(c: Scalar)
    requires
        c.places() >= 8,
    ensures
        (256 * c.size()) / (pow2(149) as int) == c.significand() / (pow2(
            (c.places() - 8) as nat,
        ) as int),
{
    let up = pow2((149 - c.places()) as nat) as int;
    let down = pow2(c.places() as nat) as int;
    let rest = pow2((c.places() - 8) as nat) as int;
    lemma2_to64();
    lemma_pow2_pos((149 - c.places()) as nat);
    lemma_pow2_pos((c.places() - 8) as nat);
    lemma_pow2_adds((149 - c.places()) as nat, c.places() as nat);
    lemma_pow2_adds(8, (c.places() - 8) as nat);
    lemma_div_multiples_vanish_quotient(up, 256 * c.significand(), down);
    lemma_div_multiples_vanish_quotient(256, c.significand(), rest);
    assert(up * (256 * c.significand()) == 256 * (c.significand() * up)) by (nonlinear_arith);
}

/// Computes 2^n.
fn power_of_two(n: u32) -> (power: u32)
    requires
        n < 32,
    ensures
        power == pow2(n as nat),
{
    let mut power: u32 = 1;
    let mut doubled: u32 = 0;
    proof {
        lemma2_to64();
    }
    while doubled < n
        invariant
            doubled <= n < 32,
            power == pow2(doubled as nat),
            pow2(31) == 0x8000_0000,
        decreases n - doubled,
    {
        proof {
            lemma_pow2_unfold((doubled + 1) as nat);
            if doubled + 1 < 31 {
                lemma_pow2_strictly_increases((doubled + 1) as nat, 31);
            }
        }
        power = power * 2;
        doubled = doubled + 1;
    }
    power
}

/// Computes the display value of one colour channel.
pub fn channel(value: Scalar) -> (level: u32)
    ensures
        level == channel_value(value),
        level <= 255,
{
    let c = value.clamp(Scalar::zero(), Scalar::from_bits(BRIGHTEST_BITS));
    if c.is_nan() {
        return 0;
    }
    let exponent: u32 = c.exponent_bits();
    let significand: u32 = c.significand_bits();
    assert(c.magnitude() <= BRIGHTEST_BITS);
    assert(exponent <= 126);
    // 256 times the number is the significand with eight binary places
    // fewer, of which at least 16 are left.
    let shift: u32 = if exponent == 0 {
        141
    } else {
        142 - exponent
    };
    proof {
        lemma_integer_part(c);
        lemma2_to64();
        if shift > 24 {
            lemma_pow2_strictly_increases(24, shift as nat);
        }
        if shift > 16 {
            lemma_pow2_strictly_increases(16, shift as nat);
        }
    }
    if shift >= 24 {
        proof {
            lemma_basic_div(significand as int, pow2(shift as nat) as int);
        }
        return 0;
    }
    let divisor: u32 = power_of_two(shift);
    assert(significand as int / divisor as int <= 255) by (nonlinear_arith)
        requires
            0 <= significand < 0x0100_0000,
            divisor >= 0x1_0000,
    ;
    significand / divisor
}

impl Vec3 {
    pub fn new(x: Scalar, y: Scalar, z: Scalar) -> (v: Vec3)
        ensures
            v == (Vec3 { x, y, z }),
    {
        Vec3 { x, y, z }
    }

    /// The vector with every component negated.
    pub open spec fn negated(self) -> Vec3 {
        Vec3 { x: self.x.negated(), y: self.y.negated(), z: self.z.negated() }
    }

    /// Whether every component is closer to zero than 1e-8.
    pub open spec fn nearly_zero(self) -> bool {
        let eps = Scalar { bits: NEAR_ZERO_BITS };
        self.x.absolute().less(eps) && self.y.absolute().less(eps) && self.z.absolute().less(eps)
    }

    /// Whether every component is a zero of either sign.
    pub open spec fn is_zero(self) -> bool {
        self.x.magnitude() == 0 && self.y.magnitude() == 0 && self.z.magnitude() == 0
    }

    /// Whether a vector of the given length lies strictly inside the unit
    /// ball.
    pub open spec fn within_unit_sphere(length: Scalar) -> bool {
        length.less(Scalar { bits: ONE_BITS })
    }

    /// The text of the colour as three display values.
    pub open spec fn color_text(self) -> Seq<char> {
        numeral(channel_value(self.x) as nat) + seq![' '] + numeral(channel_value(self.y) as nat)
            + seq![' '] + numeral(channel_value(self.z) as nat)
    }

    /// `-self`.
    pub fn neg(self) -> (v: Vec3)
        ensures
            v == self.negated(),
    {
        Vec3 { x: self.x.neg(), y: self.y.neg(), z: self.z.neg() }
    }

    /// Whether the vector is too short to serve as a direction: every
    /// component lies within 1e-8 of zero.
    pub fn near_zero(self) -> (b: bool)
        ensures
            b == self.nearly_zero(),
    {
        let eps = Scalar::from_bits(NEAR_ZERO_BITS);
        self.x.abs().lt(eps) && self.y.abs().lt(eps) && self.z.abs().lt(eps)
    }

    /// Whether a vector drawn from the cube around the unit ball may stay
    /// as a sample of the ball: its length, given here, must be below 1.
    /// Sampling draws again until this holds.
    pub fn in_unit_sphere(length: Scalar) -> (keep: bool)
        ensures
            keep == Self::within_unit_sphere(length),
    {
        length.lt(Scalar::one())
    }

    /// Turns a sample of the unit ball into the hemisphere around a
    /// normal. `alignment` is the dot product of the sample with the
    /// normal: a sample on the normal's side stays, any other is negated.
    pub fn random_in_hemisphere(in_unit_sphere: Vec3, alignment: Scalar) -> (v: Vec3)
        ensures
            v == if (Scalar { bits: 0 }).less(alignment) {
                in_unit_sphere
            } else {
                in_unit_sphere.negated()
            },
    {
        if alignment.gt(Scalar::zero()) {
            in_unit_sphere
        } else {
            in_unit_sphere.neg()
        }
    }

    /// The colour as a line of a plain-text image: red, green and blue
    /// display values in decimal, separated by single spaces. `self` holds
    /// the gamma-corrected channels, the square roots of the averaged
    /// samples.
    pub fn format_color(self) -> (line: String)
        ensures
            line@ == self.color_text(),
    {
        let mut line = String::new();
        push_numeral(&mut line, channel(self.x));
        line.append(" ");
        push_numeral(&mut line, channel(self.y));
        line.append(" ");
        push_numeral(&mut line, channel(self.z));
        proof {
            reveal_strlit(" ");
            assert(" "@ =~= seq![' ']);
        }
        line
    }
}

} // verus!
