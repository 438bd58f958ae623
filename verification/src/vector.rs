//! Three-component vectors as the tracer carries them.

use vstd::prelude::*;
use crate::scalar::Scalar;
use crate::scalar::INFINITY_BITS;

verus! {

/// The pattern of 0.0001: a vector whose squared length is smaller gives no
/// direction to project onto.
pub const NEGLIGIBLE_BITS: u32 = 0x38d1_b717;

/// A point or a direction in space. The tracer stores and hands on vectors;
/// it does no arithmetic on them.
#[derive(Clone, Copy, Debug, PartialEq, Eq, Structural)]
pub struct V3 {
    pub x: Scalar,
    pub y: Scalar,
    pub z: Scalar,
}

impl V3 {
    pub fn new(x: Scalar, y: Scalar, z: Scalar) -> (out: V3)
        ensures
            out == (V3 { x, y, z }),
    {
        V3 { x, y, z }
    }

    /// The vector whose components are all zero.
    pub open spec fn zero_spec() -> V3 {
        V3 { x: Scalar::zero_spec(), y: Scalar::zero_spec(), z: Scalar::zero_spec() }
    }

    pub fn zero() -> (out: V3)
        ensures
            out == V3::zero_spec(),
    {
        V3::new(Scalar::zero(), Scalar::zero(), Scalar::zero())
    }

    /// Whether a vector of the given length has a direction: whether the
    /// length is a number greater than zero and not infinite. A vector
    /// without one is normalized to the zero vector.
    pub open spec fn directed(length: Scalar) -> bool {
        length.positive() && length.bits != INFINITY_BITS
    }

    /// Whether a vector of the given squared length can be projected onto:
    /// whether that is a number and at least 0.0001. The projection onto any
    /// other vector is the zero vector.
    pub open spec fn spanning(squared_length: Scalar) -> bool {
        squared_length.at_least(Scalar { bits: NEGLIGIBLE_BITS })
    }

    /// Decides whether a vector of this length can be normalized.
    pub fn has_direction(length: Scalar) -> (out: bool)
        ensures
            out == V3::directed(length),
    {
        length.is_positive() && length.to_bits() != INFINITY_BITS
    }

    /// Decides whether a vector of this squared length can be projected onto.
    pub fn spans(squared_length: Scalar) -> (out: bool)
        ensures
            out == V3::spanning(squared_length),
    {
        squared_length.ge(Scalar::from_bits(NEGLIGIBLE_BITS))
    }
}

} // verus!
