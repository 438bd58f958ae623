//! Flat surfaces.

use vstd::prelude::*;
use crate::material::Material;
use crate::scalar::Scalar;
use crate::vector::V3;

verus! {

/// The pattern of 0.0001: below it in absolute value, the cosine between a
/// ray and the plane's normal counts as zero.
pub const PARALLEL_BITS: u32 = 0x38d1_b717;

/// The pattern of 0.001, the least distance at which a hit counts.
pub const NEAREST_BITS: u32 = 0x3a83_126f;

/// A plane through `origin`, spanned by `base_one` and `base_two`; its
/// normal is their cross product.
#[derive(Clone, Copy, Debug, PartialEq, Eq, Structural)]
pub struct Plane {
    pub origin: V3,
    pub base_one: V3,
    pub base_two: V3,
    pub material: Material,
}

impl Plane {
    /// Where a ray meets the plane, from `facing`, the dot product of the
    /// normal with the ray's direction, and `t`, the solution of the plane
    /// equation along the ray: nowhere if the ray runs along the plane or
    /// if `t` lies behind the ray's origin or on it.
    pub open spec fn crossing_at(facing: Scalar, t: Scalar) -> Option<Scalar> {
        if facing.cleared().below(Scalar { bits: PARALLEL_BITS }) {
            None
        } else if t.above(Scalar { bits: NEAREST_BITS }) {
            Some(t)
        } else {
            None
        }
    }

    /// Decides the hit of a ray on the plane; see `crossing_at`.
    pub fn hit_distance(facing: Scalar, t: Scalar) -> (out: Option<Scalar>)
        ensures
            out == Plane::crossing_at(facing, t),
            out matches Some(d) ==> d.positive(),
    {
        if facing.abs().lt(Scalar::from_bits(PARALLEL_BITS)) {
            return None;
        }
        if t.gt(Scalar::from_bits(NEAREST_BITS)) {
            Some(t)
        } else {
            None
        }
    }
}

} // verus!
