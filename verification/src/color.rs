//! Eight-bit colours and the blends the tracer applies to them.

use vstd::prelude::*;
use crate::scalar::Scalar;

verus! {

/// A colour with an alpha channel, eight bits per channel.
#[derive(Clone, Copy, Debug, PartialEq, Eq, Structural)]
pub struct Col4 {
    pub r: u8,
    pub g: u8,
    pub b: u8,
    pub a: u8,
}

/// A colour, eight bits per channel.
#[derive(Clone, Copy, Debug, PartialEq, Eq, Structural)]
pub struct Col3 {
    pub r: u8,
    pub g: u8,
    pub b: u8,
}

/// The channel value nearest to `v` within `0..=255`.
pub open spec fn saturate(v: int) -> u8 {
    if v < 0 {
        0u8
    } else if v > 255 {
        255u8
    } else {
        v as u8
    }
}

/// How much of incoming light `b` a surface of reflectance `a` lets through.
pub open spec fn absorb(a: u8, b: u8) -> u8 {
    ((a * b) / 255) as u8
}

impl Col4 {
    /// The four bytes of the colour: red, green, blue, alpha.
    pub open spec fn bytes(self) -> Seq<u8> {
        seq![self.r, self.g, self.b, self.a]
    }

    /// `color` at full opacity.
    pub fn opaque(color: Col3) -> (out: Col4)
        ensures
            out == (Col4 { r: color.r, g: color.g, b: color.b, a: 255 }),
    {
        Col4 { r: color.r, g: color.g, b: color.b, a: 0xff }
    }
}

impl Col3 {
    pub fn new(r: u8, g: u8, b: u8) -> (out: Col3)
        ensures
            out == (Col3 { r, g, b }),
    {
        Col3 { r, g, b }
    }

    pub fn white() -> (out: Col3)
        ensures
            out == Col3::white_spec(),
    {
        Col3::new(0xff, 0xff, 0xff)
    }

    pub fn black() -> (out: Col3)
        ensures
            out == Col3::black_spec(),
    {
        Col3::new(0x00, 0x00, 0x00)
    }

    /// The channel-wise sum, each channel held at 255.
    pub open spec fn plus(self, rh: Col3) -> Col3 {
        Col3 {
            r: saturate(self.r + rh.r),
            g: saturate(self.g + rh.g),
            b: saturate(self.b + rh.b),
        }
    }

    /// The channel-wise difference, each channel held at 0.
    pub open spec fn minus(self, rh: Col3) -> Col3 {
        Col3 {
            r: saturate(self.r - rh.r),
            g: saturate(self.g - rh.g),
            b: saturate(self.b - rh.b),
        }
    }

    /// The light `rh` as a surface of reflectance `self` passes it on:
    /// every channel is attenuated by its own counterpart.
    pub open spec fn times(self, rh: Col3) -> Col3 {
        Col3 { r: absorb(self.r, rh.r), g: absorb(self.g, rh.g), b: absorb(self.b, rh.b) }
    }

    /// Every channel multiplied by `k` in single precision and brought back
    /// to eight bits, held at 255.
    pub open spec fn scaled_by(self, k: Scalar) -> Col3 {
        Col3 {
            r: saturate(k.scaled(self.r)),
            g: saturate(k.scaled(self.g)),
            b: saturate(k.scaled(self.b)),
        }
    }

    /// White less this colour.
    pub open spec fn complement(self) -> Col3 {
        Col3 { r: (255 - self.r) as u8, g: (255 - self.g) as u8, b: (255 - self.b) as u8 }
    }

    /// White less this colour: the complement of its absorption spectrum.
    pub fn inverse(&self) -> (out: Col3)
        ensures
            out == self.complement(),
            out == Col3::white_spec().minus(*self),
    {
        Col3::white() - *self
    }

    /// The colour seen when `to_reflect` strikes a surface of this colour.
    pub fn reflect(&self, to_reflect: Col3) -> (out: Col3)
        ensures
            out == self.complement().times(to_reflect),
    {
        self.inverse() * to_reflect
    }

    pub open spec fn white_spec() -> Col3 {
        Col3 { r: 255, g: 255, b: 255 }
    }

    pub open spec fn black_spec() -> Col3 {
        Col3 { r: 0, g: 0, b: 0 }
    }
}

/// White lets every colour through as it is.
pub proof fn white_is_neutral(c: Col3)
    ensures
        Col3::white_spec().times(c) == c,
        c.times(Col3::white_spec()) == c,
{
}

/// Black lets nothing through.
pub proof fn black_absorbs(c: Col3)
    ensures
        Col3::black_spec().times(c) == Col3::black_spec(),
        c.times(Col3::black_spec()) == Col3::black_spec(),
{
}

/// It does not matter which of two colours is the surface and which the light.
pub proof fn times_commutes(a: Col3, b: Col3)
    ensures
        a.times(b) == b.times(a),
{
    assert(a.r * b.r == b.r * a.r) by (nonlinear_arith);
    assert(a.g * b.g == b.g * a.g) by (nonlinear_arith);
    assert(a.b * b.b == b.b * a.b) by (nonlinear_arith);
}

/// A surface never passes on more of a channel than falls on it.
pub proof fn times_never_brightens(a: Col3, b: Col3)
    ensures
        a.times(b).r <= b.r,
        a.times(b).g <= b.g,
        a.times(b).b <= b.b,
{
    assert forall|x: u8, y: u8| absorb(x, y) <= y by {
        assert(x * y <= 255 * y) by (nonlinear_arith)
            requires
                0 <= x <= 255,
                0 <= y,
        ;
    }
}

/// The complement of the complement is the colour itself.
pub proof fn complement_twice(c: Col3)
    ensures
        c.complement().complement() == c,
{
}

/// Adding and then taking away never leaves more than there was; taking
/// away and then adding never leaves less.
pub proof fn plus_minus_bounds(a: Col3, b: Col3)
    ensures
        a.plus(b).minus(b).r <= a.r,
        a.plus(b).minus(b).g <= a.g,
        a.plus(b).minus(b).b <= a.b,
        a.minus(b).plus(b).r >= a.r,
        a.minus(b).plus(b).g >= a.g,
        a.minus(b).plus(b).b >= a.b,
{
}

fn add_channel(a: u8, b: u8) -> (out: u8)
    ensures
        out == saturate(a + b),
{
    let sum: u16 = a as u16 + b as u16;
    if sum > 0xff {
        0xff
    } else {
        sum as u8
    }
}

fn sub_channel(a: u8, b: u8) -> (out: u8)
    ensures
        out == saturate(a - b),
{
    if a < b {
        0
    } else {
        a - b
    }
}

fn mul_channel(a: u8, b: u8) -> (out: u8)
    ensures
        out == absorb(a, b),
{
    assert(a * b <= 255 * 255) by (nonlinear_arith)
        requires
            a <= 255,
            b <= 255,
    ;
    let product: u16 = a as u16 * b as u16;
    (product / 255) as u8
}

fn scale_channel(a: u8, k: Scalar) -> (out: u8)
    ensures
        out == saturate(k.scaled(a)),
{
    let wide: u64 = k.scale_channel(a);
    if wide > 0xff {
        0xff
    } else {
        wide as u8
    }
}

impl core::ops::Mul<Scalar> for Col3 {
    type Output = Col3;

    fn mul(self, rh: Scalar) -> (out: Col3)
        ensures
            out == self.scaled_by(rh),
    {
        Col3::new(scale_channel(self.r, rh), scale_channel(self.g, rh), scale_channel(self.b, rh))
    }
}

impl vstd::std_specs::ops::MulSpecImpl<Scalar> for Col3 {
    open spec fn obeys_mul_spec() -> bool {
        true
    }

    open spec fn mul_req(self, rh: Scalar) -> bool {
        true
    }

    open spec fn mul_spec(self, rh: Scalar) -> Col3 {
        self.scaled_by(rh)
    }
}

impl core::ops::Mul<Col3> for Scalar {
    type Output = Col3;

    fn mul(self, rh: Col3) -> (out: Col3)
        ensures
            out == rh.scaled_by(self),
    {
        rh * self
    }
}

impl vstd::std_specs::ops::MulSpecImpl<Col3> for Scalar {
    open spec fn obeys_mul_spec() -> bool {
        true
    }

    open spec fn mul_req(self, rh: Col3) -> bool {
        true
    }

    open spec fn mul_spec(self, rh: Col3) -> Col3 {
        rh.scaled_by(self)
    }
}

impl core::ops::Add<Col3> for Col3 {
    type Output = Col3;

    fn add(self, rh: Col3) -> (out: Col3)
        ensures
            out == self.plus(rh),
    {
        Col3::new(add_channel(self.r, rh.r), add_channel(self.g, rh.g), add_channel(self.b, rh.b))
    }
}

impl vstd::std_specs::ops::AddSpecImpl<Col3> for Col3 {
    open spec fn obeys_add_spec() -> bool {
        true
    }

    open spec fn add_req(self, rh: Col3) -> bool {
        true
    }

    open spec fn add_spec(self, rh: Col3) -> Col3 {
        self.plus(rh)
    }
}

impl core::ops::Sub<Col3> for Col3 {
    type Output = Col3;

    fn sub(self, rh: Col3) -> (out: Col3)
        ensures
            out == self.minus(rh),
    {
        Col3::new(sub_channel(self.r, rh.r), sub_channel(self.g, rh.g), sub_channel(self.b, rh.b))
    }
}

impl vstd::std_specs::ops::SubSpecImpl<Col3> for Col3 {
    open spec fn obeys_sub_spec() -> bool {
        true
    }

    open spec fn sub_req(self, rh: Col3) -> bool {
        true
    }

    open spec fn sub_spec(self, rh: Col3) -> Col3 {
        self.minus(rh)
    }
}

impl core::ops::Mul<Col3> for Col3 {
    type Output = Col3;

    fn mul(self, rh: Col3) -> (out: Col3)
        ensures
            out == self.times(rh),
    {
        Col3::new(mul_channel(self.r, rh.r), mul_channel(self.g, rh.g), mul_channel(self.b, rh.b))
    }
}

impl vstd::std_specs::ops::MulSpecImpl<Col3> for Col3 {
    open spec fn obeys_mul_spec() -> bool {
        true
    }

    open spec fn mul_req(self, rh: Col3) -> bool {
        true
    }

    open spec fn mul_spec(self, rh: Col3) -> Col3 {
        self.times(rh)
    }
}

} // verus!
