//! Numbers as the rules see them.
//!
//! Positions, speeds and masses are computed by the host's physics, in single
//! precision. The rules pass such numbers on untouched and ask only a few
//! questions about them, so a number is kept here as the 32 bits of its IEEE
//! 754 encoding: one sign bit, eight exponent bits, twenty-three fraction
//! bits.
//!
//! What the bits mean is said in whole numbers. The smallest positive number
//! of the format is 2^-149, and every finite number is a whole multiple of
//! it: `value` gives that multiple. So the number one has the value 2^149.

use vstd::prelude::*;
use vstd::arithmetic::power2::{
    lemma2_to64, lemma_pow2_adds, lemma_pow2_pos, lemma_pow2_strictly_increases, lemma_pow2_unfold,
    pow2,
};

verus! {

/// A single-precision number, held by its bit pattern.
///
/// Two scalars are equal when their bits are: zero and negative zero differ,
/// and a NaN equals itself.
#[derive(Clone, Copy, Debug, PartialEq, Eq, Structural)]
pub struct Scalar {
    pub bits: u32,
}

/// A point or a direction in space.
#[derive(Clone, Copy, Debug, PartialEq, Eq, Structural)]
pub struct Vector3 {
    pub x: Scalar,
    pub y: Scalar,
    pub z: Scalar,
}

/// A point of the plane in which the game is played.
#[derive(Clone, Copy, Debug, PartialEq, Eq, Structural)]
pub struct Point2 {
    pub x: Scalar,
    pub y: Scalar,
}

/// A rotation in space, as a unit quaternion.
#[derive(Clone, Copy, Debug, PartialEq, Eq, Structural)]
pub struct Quaternion {
    pub w: Scalar,
    pub i: Scalar,
    pub j: Scalar,
    pub k: Scalar,
}

/// Bit pattern of the number zero.
pub const ZERO_BITS: u32 = 0;

/// Bit pattern of the number one.
pub const ONE_BITS: u32 = 0x3f80_0000;

impl Scalar {
    /// The eight exponent bits.
    pub open spec fn exponent_field(self) -> u32 {
        (self.bits >> 23) & 0xff
    }

    /// The twenty-three fraction bits.
    pub open spec fn fraction_field(self) -> u32 {
        self.bits & 0x7f_ffff
    }

    /// The sign bit is set.
    pub open spec fn is_sign_negative(self) -> bool {
        self.bits >> 31 == 1
    }

    /// The number is neither infinite nor NaN: its exponent bits are not all
    /// ones.
    pub open spec fn finite(self) -> bool {
        self.exponent_field() != 0xff
    }

    /// The number is a NaN: exponent bits all ones, fraction not zero.
    pub open spec fn nan(self) -> bool {
        self.exponent_field() == 0xff && self.fraction_field() != 0
    }

    /// The number is zero or negative zero.
    pub open spec fn zero(self) -> bool {
        self.bits & 0x7fff_ffff == 0
    }

    /// The digits of the number: the fraction bits, with a one in front of
    /// them unless the exponent bits are all zero.
    pub open spec fn significand(self) -> nat {
        if self.exponent_field() == 0 {
            self.fraction_field() as nat
        } else {
            (self.fraction_field() + 0x80_0000) as nat
        }
    }

    /// The power of two that the digits are multiplied by, on top of 2^-149.
    pub open spec fn scale(self) -> nat {
        if self.exponent_field() == 0 {
            0
        } else {
            (self.exponent_field() - 1) as nat
        }
    }

    /// The size of a finite number without its sign, in units of 2^-149.
    pub open spec fn magnitude(self) -> nat
        recommends
            self.finite(),
    {
        self.significand() * pow2(self.scale())
    }

    /// A finite number, in units of 2^-149.
    pub open spec fn value(self) -> int
        recommends
            self.finite(),
    {
        if self.is_sign_negative() {
            -(self.magnitude() as int)
        } else {
            self.magnitude() as int
        }
    }

    /// The value of the whole number `number`.
    pub open spec fn whole(number: nat) -> int {
        (number * pow2(149)) as int
    }

    /// The number is finite and `0 <= self <= limit`, for a `limit` that is
    /// finite and not below zero.
    pub open spec fn between_zero_and(self, limit: Scalar) -> bool
        recommends
            limit.finite(),
            !limit.is_sign_negative(),
    {
        self.finite() && 0 <= self.value() <= limit.value()
    }

    pub fn from_bits(bits: u32) -> (scalar: Scalar)
        ensures
            scalar == (Scalar { bits }),
    {
        Scalar { bits }
    }

    pub fn to_bits(self) -> (bits: u32)
        ensures
            bits == self.bits,
    {
        self.bits
    }

    /// The number zero.
    pub fn zero_value() -> (scalar: Scalar)
        ensures
            scalar == (Scalar { bits: ZERO_BITS }),
    {
        Scalar { bits: ZERO_BITS }
    }

    /// The number one.
    pub fn one() -> (scalar: Scalar)
        ensures
            scalar == (Scalar { bits: ONE_BITS }),
    {
        Scalar { bits: ONE_BITS }
    }

    /// Whether the number is neither infinite nor NaN.
    pub fn is_finite(self) -> (finite: bool)
        ensures
            finite == self.finite(),
            finite <==> self.bits & 0x7f80_0000 != 0x7f80_0000,
    {
        let bits: u32 = self.bits;
        assert(((bits >> 23) & 0xff != 0xff) <==> (bits & 0x7f80_0000 != 0x7f80_0000))
            by (bit_vector);
        bits & 0x7f80_0000 != 0x7f80_0000
    }

    /// Whether the number is a NaN.
    pub fn is_nan(self) -> (nan: bool)
        ensures
            nan == self.nan(),
            nan <==> self.bits & 0x7fff_ffff > 0x7f80_0000,
    {
        let bits: u32 = self.bits;
        assert(((bits >> 23) & 0xff == 0xff && bits & 0x7f_ffff != 0) <==> (bits & 0x7fff_ffff
            > 0x7f80_0000)) by (bit_vector);
        bits & 0x7fff_ffff > 0x7f80_0000
    }

    /// Whether the number is finite and `0 <= self <= limit`.
    ///
    /// Both zeros pass. Any other number passes if it is positive and its
    /// bits, read as a whole number, are at most those of `limit`: among the
    /// numbers that are not negative, the larger one has the larger bits.
    pub fn is_between_zero_and(self, limit: Scalar) -> (within: bool)
        requires
            limit.finite(),
            !limit.is_sign_negative(),
        ensures
            within == self.between_zero_and(limit),
    {
        let bits: u32 = self.bits;
        let top: u32 = limit.bits;
        proof {
            assert((bits >> 31 == 1) <==> bits >= 0x8000_0000) by (bit_vector);
            assert(bits & 0x7fff_ffff == 0 <==> ((bits >> 23) & 0xff == 0 && bits & 0x7f_ffff
                == 0)) by (bit_vector);
            assert(bits < 0x8000_0000 && top < 0x8000_0000 && bits <= top && (top >> 23) & 0xff
                != 0xff ==> (bits >> 23) & 0xff != 0xff) by (bit_vector);
            assert((top >> 31 == 1) <==> top >= 0x8000_0000) by (bit_vector);
            lemma_pow2_pos(self.scale());
            if self.zero() {
                assert(self.magnitude() == 0) by (nonlinear_arith)
                    requires
                        self.magnitude() == self.significand() * pow2(self.scale()),
                        self.significand() == 0,
                ;
            } else {
                assert(self.significand() > 0);
                assert(self.magnitude() > 0) by (nonlinear_arith)
                    requires
                        self.magnitude() == self.significand() * pow2(self.scale()),
                        self.significand() > 0,
                        pow2(self.scale()) > 0,
                ;
                if bits < 0x8000_0000 {
                    if self.finite() {
                        lemma_bits_order_is_value_order(self, limit);
                    }
                }
            }
        }
        bits & 0x7fff_ffff == 0 || (bits < 0x8000_0000 && bits <= top)
    }
}

/// The size, in units of 2^-149, of the number with exponent bits `exponent`
/// and fraction bits `fraction`.
pub open spec fn magnitude_of(exponent: nat, fraction: nat) -> nat {
    if exponent == 0 {
        fraction * pow2(0)
    } else {
        (fraction + 0x80_0000) * pow2((exponent - 1) as nat)
    }
}

/// A number with larger exponent bits, or with the same exponent bits and
/// larger fraction bits, is the larger number.
pub proof fn lemma_magnitude_increases(
    exponent_a: nat,
    fraction_a: nat,
    exponent_b: nat,
    fraction_b: nat,
)
    requires
        fraction_a < 0x80_0000,
        fraction_b < 0x80_0000,
        exponent_a < exponent_b || (exponent_a == exponent_b && fraction_a < fraction_b),
    ensures
        magnitude_of(exponent_a, fraction_a) < magnitude_of(exponent_b, fraction_b),
{
    lemma2_to64();
    if exponent_a == exponent_b {
        let power = pow2(
            if exponent_a == 0 {
                0
            } else {
                (exponent_a - 1) as nat
            },
        );
        lemma_pow2_pos(
            if exponent_a == 0 {
                0
            } else {
                (exponent_a - 1) as nat
            },
        );
        assert(fraction_a * power < fraction_b * power && (fraction_a + 0x80_0000) * power < (
        fraction_b + 0x80_0000) * power) by (nonlinear_arith)
            requires
                fraction_a < fraction_b,
                power > 0,
        ;
    } else {
        let power_b = pow2((exponent_b - 1) as nat);
        lemma_pow2_pos((exponent_b - 1) as nat);
        assert(0x80_0000 * power_b <= (fraction_b + 0x80_0000) * power_b) by (nonlinear_arith)
            requires
                power_b > 0,
        ;
        if exponent_a == 0 {
            assert(0x80_0000 <= 0x80_0000 * power_b) by (nonlinear_arith)
                requires
                    power_b > 0,
            ;
        } else {
            let power_a = pow2((exponent_a - 1) as nat);
            lemma_pow2_pos((exponent_a - 1) as nat);
            lemma_pow2_unfold(exponent_a);
            assert(pow2(exponent_a) <= power_b) by {
                if exponent_a < exponent_b - 1 {
                    lemma_pow2_strictly_increases(exponent_a, (exponent_b - 1) as nat);
                }
            }
            assert((fraction_a + 0x80_0000) * power_a < 0x80_0000 * (2 * power_a))
                by (nonlinear_arith)
                requires
                    fraction_a < 0x80_0000,
                    power_a > 0,
            ;
            assert(0x80_0000 * pow2(exponent_a) <= 0x80_0000 * power_b) by (nonlinear_arith)
                requires
                    pow2(exponent_a) <= power_b,
            ;
        }
    }
}

/// Among the numbers that are not negative, the order of the numbers is the
/// order of their bits read as whole numbers.
pub proof fn lemma_bits_order_is_value_order(a: Scalar, b: Scalar)
    requires
        !a.is_sign_negative(),
        !b.is_sign_negative(),
    ensures
        a.bits <= b.bits <==> a.magnitude() <= b.magnitude(),
        a.bits == b.bits <==> a.magnitude() == b.magnitude(),
{
    let x: u32 = a.bits;
    let y: u32 = b.bits;
    assert(!(x >> 31 == 1) ==> x == ((x >> 23) & 0xff) * 0x80_0000 + (x & 0x7f_ffff) && (x
        & 0x7f_ffff) < 0x80_0000) by (bit_vector);
    assert(!(y >> 31 == 1) ==> y == ((y >> 23) & 0xff) * 0x80_0000 + (y & 0x7f_ffff) && (y
        & 0x7f_ffff) < 0x80_0000) by (bit_vector);
    let exponent_a = a.exponent_field() as nat;
    let fraction_a = a.fraction_field() as nat;
    let exponent_b = b.exponent_field() as nat;
    let fraction_b = b.fraction_field() as nat;
    lemma2_to64();
    assert(a.magnitude() == magnitude_of(exponent_a, fraction_a));
    assert(b.magnitude() == magnitude_of(exponent_b, fraction_b));
    if exponent_a < exponent_b || (exponent_a == exponent_b && fraction_a < fraction_b) {
        lemma_magnitude_increases(exponent_a, fraction_a, exponent_b, fraction_b);
    } else if exponent_b < exponent_a || (exponent_b == exponent_a && fraction_b < fraction_a) {
        lemma_magnitude_increases(exponent_b, fraction_b, exponent_a, fraction_a);
    }
}

/// The bit patterns `ZERO_BITS`, `ONE_BITS` and `0x4120_0000` are the numbers
/// zero, one and ten.
pub proof fn lemma_values_of_one_and_ten()
    ensures
        (Scalar { bits: ZERO_BITS }).finite(),
        (Scalar { bits: ZERO_BITS }).value() == Scalar::whole(0),
        (Scalar { bits: ONE_BITS }).finite(),
        (Scalar { bits: ONE_BITS }).value() == Scalar::whole(1),
        (Scalar { bits: 0x4120_0000 }).finite(),
        !(Scalar { bits: 0x4120_0000 }).is_sign_negative(),
        (Scalar { bits: 0x4120_0000 }).value() == Scalar::whole(10),
{
    assert((0x3f80_0000u32 >> 23) & 0xff == 127 && 0x3f80_0000u32 & 0x7f_ffff == 0 && !(
    0x3f80_0000u32 >> 31 == 1)) by (bit_vector);
    assert((0x4120_0000u32 >> 23) & 0xff == 130 && 0x4120_0000u32 & 0x7f_ffff == 0x20_0000 && !(
    0x4120_0000u32 >> 31 == 1)) by (bit_vector);
    assert((0u32 >> 23) & 0xff == 0 && 0u32 & 0x7f_ffff == 0 && !(0u32 >> 31 == 1))
        by (bit_vector);
    lemma2_to64();
    lemma_pow2_adds(23, 126);
    lemma_pow2_adds(20, 129);
    assert(0xa0_0000 * pow2(129) == 10 * (0x10_0000 * pow2(129))) by (nonlinear_arith);
    assert(0 * pow2(0) == 0) by (nonlinear_arith);
    assert(0 * pow2(149) == 0) by (nonlinear_arith);
}

impl Vector3 {
    pub fn new(x: Scalar, y: Scalar, z: Scalar) -> (vector: Vector3)
        ensures
            vector == (Vector3 { x, y, z }),
    {
        Vector3 { x, y, z }
    }

    /// The origin.
    pub fn zeros() -> (vector: Vector3)
        ensures
            vector == (Vector3 {
                x: Scalar { bits: ZERO_BITS },
                y: Scalar { bits: ZERO_BITS },
                z: Scalar { bits: ZERO_BITS },
            }),
    {
        Vector3 { x: Scalar::zero_value(), y: Scalar::zero_value(), z: Scalar::zero_value() }
    }
}

impl Point2 {
    pub fn new(x: Scalar, y: Scalar) -> (point: Point2)
        ensures
            point == (Point2 { x, y }),
    {
        Point2 { x, y }
    }
}

impl Quaternion {
    /// The rotation that turns nothing: one, and no part along any axis.
    pub open spec fn unit() -> Quaternion {
        Quaternion {
            w: Scalar { bits: ONE_BITS },
            i: Scalar { bits: ZERO_BITS },
            j: Scalar { bits: ZERO_BITS },
            k: Scalar { bits: ZERO_BITS },
        }
    }

    /// The rotation that turns nothing.
    pub fn identity() -> (rotation: Quaternion)
        ensures
            rotation == Quaternion::unit(),
    {
        Quaternion {
            w: Scalar::one(),
            i: Scalar::zero_value(),
            j: Scalar::zero_value(),
            k: Scalar::zero_value(),
        }
    }
}

} // verus!
