//! Single-precision numbers held by their bit patterns.
//!
//! The tracer leaves the arithmetic of geometry to the shapes and the camera
//! it is given. What it does with a number itself is to order it against
//! another, to hold it against a fixed threshold, and to weigh a colour
//! channel by it. All three are decided on the bit pattern alone: one sign
//! bit, eight exponent bits and twenty-three fraction bits, in that order
//! from the top.

use vstd::prelude::*;
use vstd::arithmetic::power2::pow2;
use vstd::arithmetic::power2::lemma2_to64;
use vstd::arithmetic::power2::lemma2_to64_rest;
use vstd::arithmetic::power2::lemma_pow2_pos;
use vstd::arithmetic::power2::lemma_pow2_strictly_increases;
use vstd::bits::lemma_u64_shl_is_mul;
use vstd::bits::lemma_u64_pow2_no_overflow;

verus! {

/// The sign bit of a pattern.
pub const SIGN_BIT: u32 = 0x8000_0000;

/// The pattern of positive infinity; every larger magnitude is not a number.
pub const INFINITY_BITS: u32 = 0x7f80_0000;

/// The pattern of 1.
pub const ONE_BITS: u32 = 0x3f80_0000;

/// The weight of the lowest exponent bit: two to the power 23.
pub const HIDDEN_BIT: u32 = 0x0080_0000;

/// `n / d` rounded to the nearest whole number, a tie going to the even one.
pub open spec fn round_half_even(n: int, d: int) -> int {
    let q = n / d;
    let r = n % d;
    if 2 * r < d || (2 * r == d && q % 2 == 0) {
        q
    } else {
        q + 1
    }
}

/// How many low bits `p` must shed to fit the 24 bits of a significand,
/// for `p` below two to the power 32.
pub open spec fn surplus_bits(p: int) -> nat {
    if p < 0x0100_0000 {
        0
    } else if p < 0x0200_0000 {
        1
    } else if p < 0x0400_0000 {
        2
    } else if p < 0x0800_0000 {
        3
    } else if p < 0x1000_0000 {
        4
    } else if p < 0x2000_0000 {
        5
    } else if p < 0x4000_0000 {
        6
    } else if p < 0x8000_0000 {
        7
    } else {
        8
    }
}

/// A single-precision number, held by its bit pattern.
///
/// `==` on this type compares patterns, so it tells the two zeros apart.
#[derive(Clone, Copy, Debug, PartialEq, Eq, Structural)]
pub struct Scalar {
    pub bits: u32,
}

impl Scalar {
    /// The pattern without its sign bit.
    pub open spec fn magnitude(self) -> int {
        if self.bits >= SIGN_BIT {
            self.bits - SIGN_BIT
        } else {
            self.bits as int
        }
    }

    /// Whether the sign bit is set.
    pub open spec fn negative(self) -> bool {
        self.bits >= SIGN_BIT
    }

    /// Whether the pattern encodes no number at all.
    pub open spec fn nan(self) -> bool {
        self.magnitude() > INFINITY_BITS
    }

    /// An integer that orders the numbers as their values do: among patterns
    /// of one sign the magnitude grows with the value, and both zeros get 0.
    pub open spec fn rank(self) -> int {
        if self.negative() {
            -self.magnitude()
        } else {
            self.magnitude()
        }
    }

    /// `self < other`: false whenever either side is not a number.
    pub open spec fn below(self, other: Scalar) -> bool {
        !self.nan() && !other.nan() && self.rank() < other.rank()
    }

    /// `self > other`: false whenever either side is not a number.
    pub open spec fn above(self, other: Scalar) -> bool {
        other.below(self)
    }

    /// `self >= other`: false whenever either side is not a number.
    pub open spec fn at_least(self, other: Scalar) -> bool {
        !self.nan() && !other.nan() && self.rank() >= other.rank()
    }

    /// The number with its sign cleared.
    pub open spec fn cleared(self) -> Scalar {
        Scalar { bits: self.magnitude() as u32 }
    }

    /// Zero, with a clear sign bit.
    pub open spec fn zero_spec() -> Scalar {
        Scalar { bits: 0 }
    }

    /// Whether the number is greater than zero.
    pub open spec fn positive(self) -> bool {
        self.above(Scalar::zero_spec())
    }

    /// The eight exponent bits.
    pub open spec fn exponent_field(self) -> int {
        self.magnitude() / (HIDDEN_BIT as int)
    }

    /// The twenty-three fraction bits.
    pub open spec fn fraction(self) -> int {
        self.magnitude() % (HIDDEN_BIT as int)
    }

    /// The whole number `m` for which a finite pattern stands for
    /// `m * 2^unit_exponent`, up to sign.
    pub open spec fn significand(self) -> int {
        if self.exponent_field() == 0 {
            self.fraction()
        } else {
            self.fraction() + HIDDEN_BIT
        }
    }

    /// The power of two that one unit of the significand is worth.
    pub open spec fn unit_exponent(self) -> int {
        if self.exponent_field() == 0 {
            -149
        } else {
            self.exponent_field() - 150
        }
    }

    /// The whole part of `channel * self`, the product taken in single
    /// precision: exact while it fits 24 bits, else rounded to 24 bits with a
    /// tie going to even. What is negative or not a number gives 0; what
    /// exceeds 64 bits gives the largest 64-bit value.
    pub open spec fn scaled(self, channel: u8) -> int {
        if self.nan() || self.negative() || channel == 0 || self.magnitude() == 0 {
            0
        } else if self.magnitude() == INFINITY_BITS {
            u64::MAX as int
        } else {
            let product = channel * self.significand();
            let shed = surplus_bits(product);
            let kept = round_half_even(product, pow2(shed) as int);
            let exponent = self.unit_exponent() + shed;
            let whole = if exponent >= 0 {
                kept * pow2(exponent as nat)
            } else {
                kept / (pow2((-exponent) as nat) as int)
            };
            if whole > u64::MAX {
                u64::MAX as int
            } else {
                whole
            }
        }
    }

    pub fn from_bits(bits: u32) -> (out: Scalar)
        ensures
            out.bits == bits,
    {
        Scalar { bits }
    }

    pub fn to_bits(&self) -> (out: u32)
        ensures
            out == self.bits,
    {
        self.bits
    }

    pub fn zero() -> (out: Scalar)
        ensures
            out == Scalar::zero_spec(),
    {
        Scalar { bits: 0 }
    }

    fn magnitude_bits(&self) -> (out: u32)
        ensures
            out == self.magnitude(),
    {
        if self.bits >= SIGN_BIT {
            self.bits - SIGN_BIT
        } else {
            self.bits
        }
    }

    pub fn is_nan(&self) -> (out: bool)
        ensures
            out == self.nan(),
    {
        self.magnitude_bits() > INFINITY_BITS
    }

    /// `self < other` as single precision decides it.
    pub fn lt(&self, other: Scalar) -> (out: bool)
        ensures
            out == self.below(other),
    {
        if self.is_nan() || other.is_nan() {
            return false;
        }
        let a: u32 = self.magnitude_bits();
        let b: u32 = other.magnitude_bits();
        if self.bits >= SIGN_BIT {
            if other.bits >= SIGN_BIT {
                b < a
            } else {
                a > 0 || b > 0
            }
        } else {
            if other.bits >= SIGN_BIT {
                false
            } else {
                a < b
            }
        }
    }

    /// `self > other` as single precision decides it.
    pub fn gt(&self, other: Scalar) -> (out: bool)
        ensures
            out == self.above(other),
    {
        other.lt(*self)
    }

    /// `self >= other` as single precision decides it.
    pub fn ge(&self, other: Scalar) -> (out: bool)
        ensures
            out == self.at_least(other),
    {
        if self.is_nan() || other.is_nan() {
            false
        } else {
            !self.lt(other)
        }
    }

    /// The absolute value: the same pattern with the sign bit cleared.
    pub fn abs(&self) -> (out: Scalar)
        ensures
            out == self.cleared(),
            !out.negative(),
            out.nan() == self.nan(),
    {
        Scalar { bits: self.magnitude_bits() }
    }

    /// `below` orders the numbers strictly: nothing is below itself, and
    /// what is below something that is below a third is below the third.
    pub proof fn below_is_a_strict_order(a: Scalar, b: Scalar, c: Scalar)
        ensures
            !a.below(a),
            a.below(b) ==> !b.below(a),
            a.below(b) && b.below(c) ==> a.below(c),
            a.at_least(b) <==> !a.nan() && !b.nan() && !a.below(b),
    {
    }

    /// The two zeros are equal as numbers, and what is not a number stands
    /// in no order to anything.
    pub proof fn zeros_and_nans(a: Scalar, b: Scalar)
        ensures
            !(Scalar { bits: 0 }).below(Scalar { bits: SIGN_BIT }),
            !(Scalar { bits: SIGN_BIT }).below(Scalar { bits: 0 }),
            a.nan() ==> !a.below(b) && !b.below(a) && !a.at_least(b) && !b.at_least(a),
            a.positive() <==> 0 < a.bits <= INFINITY_BITS,
    {
    }

    /// Scaling by one leaves a channel as it is; scaling by zero, by a
    /// negative number or by what is no number leaves nothing of it.
    pub proof fn scaling_by_one_and_by_nothing(k: Scalar, channel: u8)
        ensures
            (Scalar { bits: ONE_BITS }).scaled(channel) == channel,
            k.nan() || k.negative() || k.bits == 0 ==> k.scaled(channel) == 0,
    {
        let one = Scalar { bits: ONE_BITS };
        lemma2_to64();
        assert(one.exponent_field() == 127);
        assert(one.significand() == 0x80_0000);
        if channel > 0 {
            let product = channel * one.significand();
            assert(product == channel * 0x80_0000);
            let shed = surplus_bits(product);
            let unit = pow2(shed) as int;
            let down = pow2((23 - shed) as nat) as int;
            assert(one.unit_exponent() + shed == -(23 - shed));
            assert(product % unit == 0 && product / unit / down == channel) by {
                if shed == 0 {
                    assert(unit == 1 && down == 0x80_0000);
                    assert(product % 1 == 0 && product / 1 / 0x80_0000 == channel);
                } else if shed == 1 {
                    assert(unit == 2 && down == 0x40_0000);
                    assert(product % 2 == 0 && product / 2 / 0x40_0000 == channel);
                } else if shed == 2 {
                    assert(unit == 4 && down == 0x20_0000);
                    assert(product % 4 == 0 && product / 4 / 0x20_0000 == channel);
                } else if shed == 3 {
                    assert(unit == 8 && down == 0x10_0000);
                    assert(product % 8 == 0 && product / 8 / 0x10_0000 == channel);
                } else if shed == 4 {
                    assert(unit == 16 && down == 0x8_0000);
                    assert(product % 16 == 0 && product / 16 / 0x8_0000 == channel);
                } else if shed == 5 {
                    assert(unit == 32 && down == 0x4_0000);
                    assert(product % 32 == 0 && product / 32 / 0x4_0000 == channel);
                } else if shed == 6 {
                    assert(unit == 64 && down == 0x2_0000);
                    assert(product % 64 == 0 && product / 64 / 0x2_0000 == channel);
                } else {
                    assert(shed == 7);
                    assert(unit == 128 && down == 0x1_0000);
                    assert(product % 128 == 0 && product / 128 / 0x1_0000 == channel);
                }
            }
            assert(round_half_even(product, unit) == product / unit);
        }
    }

    /// A scaled channel fits 64 bits and is never negative.
    pub proof fn scaled_is_bounded(self, channel: u8)
        ensures
            0 <= self.scaled(channel) <= u64::MAX,
    {
        if !(self.nan() || self.negative() || channel == 0 || self.magnitude() == 0)
            && self.magnitude() != INFINITY_BITS {
            let product = channel * self.significand();
            let shed = surplus_bits(product);
            let exponent = self.unit_exponent() + shed;
            let kept = round_half_even(product, pow2(shed) as int);
            lemma_pow2_pos(shed);
            assert(0 <= product) by (nonlinear_arith)
                requires
                    product == channel * self.significand(),
                    0 <= self.significand(),
            ;
            assert(0 <= product / (pow2(shed) as int)) by (nonlinear_arith)
                requires
                    0 <= product,
                    0 < pow2(shed),
            ;
            assert(kept >= 0);
            if exponent >= 0 {
                lemma_pow2_pos(exponent as nat);
                assert(0 <= kept * pow2(exponent as nat)) by (nonlinear_arith)
                    requires
                        0 <= kept,
                        0 < pow2(exponent as nat),
                ;
            } else {
                lemma_pow2_pos((-exponent) as nat);
                assert(0 <= kept / (pow2((-exponent) as nat) as int)) by (nonlinear_arith)
                    requires
                        0 <= kept,
                        0 < pow2((-exponent) as nat),
                ;
            }
        }
    }

    /// The whole part of `channel * self`, as `scaled` defines it.
    pub fn scale_channel(&self, channel: u8) -> (out: u64)
        ensures
            out == self.scaled(channel),
    {
        let magnitude: u32 = self.magnitude_bits();
        if magnitude > INFINITY_BITS || self.bits >= SIGN_BIT || channel == 0 || magnitude == 0 {
            return 0;
        }
        if magnitude == INFINITY_BITS {
            return u64::MAX;
        }
        let field: u32 = magnitude / HIDDEN_BIT;
        let fraction: u32 = magnitude % HIDDEN_BIT;
        let significand: u64 = if field == 0 {
            fraction as u64
        } else {
            fraction as u64 + HIDDEN_BIT as u64
        };
        assert(0 < channel * significand < 0x1_0000_0000) by (nonlinear_arith)
            requires
                0 < channel <= 255,
                0 < significand < 0x0100_0000,
        ;
        let product: u64 = channel as u64 * significand;
        let (shed, unit) = shed_count(product);
        let floor: u64 = product / unit;
        assert(1 <= floor < 0x0100_0000) by (nonlinear_arith)
            requires
                floor == product / unit,
                0 < unit <= product,
                product < unit * 0x0100_0000,
        ;
        let rest: u64 = product % unit;
        let kept: u64 = if 2 * rest < unit || (2 * rest == unit && floor % 2 == 0) {
            floor
        } else {
            floor + 1
        };
        assert(kept == round_half_even(product as int, pow2(shed as nat) as int));
        assert(1 <= kept <= 0x0100_0000);
        if field as u64 + shed >= 150 {
            let exponent: u64 = field as u64 + shed - 150;
            assert(exponent as int == self.unit_exponent() + shed);
            if exponent >= 64 {
                proof {
                    lemma2_to64_rest();
                    if exponent > 64 {
                        lemma_pow2_strictly_increases(64, exponent as nat);
                    }
                    assert(kept * pow2(exponent as nat) > u64::MAX) by (nonlinear_arith)
                        requires
                            kept >= 1,
                            pow2(exponent as nat) > u64::MAX,
                    ;
                }
                return u64::MAX;
            }
            let factor: u64 = power_of_two(exponent);
            assert(kept * factor <= 0x0100_0000 * 0x8000_0000_0000_0000) by (nonlinear_arith)
                requires
                    kept <= 0x0100_0000,
                    factor <= 0x8000_0000_0000_0000,
            ;
            let whole: u128 = kept as u128 * factor as u128;
            if whole > u64::MAX as u128 {
                u64::MAX
            } else {
                whole as u64
            }
        } else {
            let down: u64 = if field == 0 {
                149 - shed
            } else {
                150 - field as u64 - shed
            };
            assert(-(down as int) == self.unit_exponent() + shed);
            if down >= 25 {
                proof {
                    lemma2_to64();
                    if down > 25 {
                        lemma_pow2_strictly_increases(25, down as nat);
                    }
                    assert(kept as int / (pow2(down as nat) as int) == 0) by (nonlinear_arith)
                        requires
                            0 <= kept < pow2(down as nat),
                    ;
                }
                return 0;
            }
            let divisor: u64 = power_of_two(down);
            kept / divisor
        }
    }

    /// Whether the number is greater than zero.
    pub fn is_positive(&self) -> (out: bool)
        ensures
            out == self.positive(),
            out == (0 < self.bits <= INFINITY_BITS),
    {
        self.gt(Scalar::zero())
    }
}

/// The count `surplus_bits` gives for `p`, and two to that power.
fn shed_count(p: u64) -> (out: (u64, u64))
    requires
        0 < p < 0x1_0000_0000,
    ensures
        out.0 == surplus_bits(p as int),
        out.0 <= 8,
        out.1 == pow2(out.0 as nat),
        0 < out.1 <= p < out.1 * 0x0100_0000,
{
    proof {
        lemma2_to64();
    }
    if p < 0x0100_0000 {
        (0, 1)
    } else if p < 0x0200_0000 {
        (1, 2)
    } else if p < 0x0400_0000 {
        (2, 4)
    } else if p < 0x0800_0000 {
        (3, 8)
    } else if p < 0x1000_0000 {
        (4, 16)
    } else if p < 0x2000_0000 {
        (5, 32)
    } else if p < 0x4000_0000 {
        (6, 64)
    } else if p < 0x8000_0000 {
        (7, 128)
    } else {
        (8, 256)
    }
}

/// Two to the power `e`.
fn power_of_two(e: u64) -> (out: u64)
    requires
        e < 64,
    ensures
        out == pow2(e as nat),
        0 < out <= 0x8000_0000_0000_0000,
{
    proof {
        lemma_u64_pow2_no_overflow(e as nat);
        lemma_u64_shl_is_mul(1, e);
        lemma2_to64_rest();
        if e < 63 {
            lemma_pow2_strictly_increases(e as nat, 63);
        }
    }
    1u64 << e
}

} // verus!
