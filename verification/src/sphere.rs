//! Round surfaces.

use vstd::prelude::*;
use crate::material::Material;
use crate::plane::NEAREST_BITS;
use crate::scalar::Scalar;
use crate::vector::V3;

verus! {

/// The pattern of 0.01: a ray whose discriminant is smaller only grazes the
/// sphere, or passes it by.
pub const GRAZING_BITS: u32 = 0x3c23_d70a;

#[derive(Clone, Copy, Debug, PartialEq, Eq, Structural)]
pub struct Sphere {
    pub origin: V3,
    pub radius: Scalar,
    pub material: Material,
}

impl Sphere {
    /// Whether a root of the ray's equation lies far enough ahead of the
    /// ray's origin to count as a hit.
    pub open spec fn ahead(t: Scalar) -> bool {
        t.above(Scalar { bits: NEAREST_BITS })
    }

    /// Where a ray meets the sphere, from the discriminant of the ray's
    /// quadratic equation (for a direction of length one) and its two roots,
    /// in either order: at the smaller of the roots that lie ahead, if the
    /// discriminant reaches the grazing threshold and a root lies ahead.
    pub open spec fn crossing_at(discriminant: Scalar, first: Scalar, second: Scalar) -> Option<
        Scalar,
    > {
        if !discriminant.at_least(Scalar { bits: GRAZING_BITS }) {
            None
        } else if Sphere::ahead(first) && Sphere::ahead(second) {
            if second.below(first) {
                Some(second)
            } else {
                Some(first)
            }
        } else if Sphere::ahead(first) {
            Some(first)
        } else if Sphere::ahead(second) {
            Some(second)
        } else {
            None
        }
    }

    /// Decides the hit of a ray on the sphere; see `crossing_at`.
    pub fn hit_distance(discriminant: Scalar, first: Scalar, second: Scalar) -> (out: Option<
        Scalar,
    >)
        ensures
            out == Sphere::crossing_at(discriminant, first, second),
            out matches Some(d) ==> d.positive() && (d == first || d == second),
    {
        if !discriminant.ge(Scalar::from_bits(GRAZING_BITS)) {
            return None;
        }
        let cutoff = Scalar::from_bits(NEAREST_BITS);
        let first_ahead = first.gt(cutoff);
        let second_ahead = second.gt(cutoff);
        if first_ahead && second_ahead {
            if second.lt(first) {
                Some(second)
            } else {
                Some(first)
            }
        } else if first_ahead {
            Some(first)
        } else if second_ahead {
            Some(second)
        } else {
            None
        }
    }
}

} // verus!
