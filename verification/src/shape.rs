//! What the tracer asks of a piece of geometry.

use vstd::prelude::*;
use crate::material::Material;
use crate::ray::Ray;
use crate::scalar::Scalar;
use crate::vector::V3;

verus! {

/// A surface that rays can meet and bounce off.
///
/// An implementation supplies the geometry. The shading of the ray and the
/// count of its bounces are `reflect`'s, for every shape alike.
pub trait RayTraceShape {
    /// The distance along `ray` at which it meets this shape, if it does.
    fn intersect(&self, ray: Ray) -> Option<Scalar>;

    /// The material of this shape.
    fn material(&self) -> Material;

    /// For a ray that meets this shape at `distance`: the point where it
    /// lands and the direction in which it leaves, mirrored about the normal
    /// there and scattered as the material's smoothness allows.
    fn deflect(&self, ray: Ray, distance: Scalar) -> (V3, V3);
}

/// The ray after a bounce off a surface of material `m` that sends it from
/// `point` in direction `scattered`: shaded by `m`, with one bounce less.
pub open spec fn bounced(m: Material, ray: Ray, point: V3, scattered: V3) -> Ray {
    let shaded = m.shaded(ray, scattered);
    Ray { origin: point, bounces_remaining: (shaded.bounces_remaining - 1) as u16, ..shaded }
}

/// Whether a bounce off `shape`, met at `distance`, may turn the ray
/// `before` into `after`: `after` is `before`, `bounced` with the material
/// that the shape names, from the point and in the direction that the shape
/// gives.
pub open spec fn reflected<S: RayTraceShape>(
    shape: &S,
    before: Ray,
    distance: Scalar,
    after: Ray,
) -> bool {
    exists|m: Material, point: V3, scattered: V3|
        {
            &&& call_ensures(S::material, (shape,), m)
            &&& call_ensures(S::deflect, (shape, before, distance), (point, scattered))
            &&& after == #[trigger] bounced(m, before, point, scattered)
        }
}

/// A bounce costs a ray at least one of its bounces, and leaves its steps
/// alone.
pub proof fn bounce_is_counted<S: RayTraceShape>(
    shape: &S,
    before: Ray,
    distance: Scalar,
    after: Ray,
)
    requires
        before.bounces_remaining > 0,
        reflected(shape, before, distance, after),
    ensures
        after.bounces_remaining < before.bounces_remaining,
        after.steps_remaining == before.steps_remaining,
{
}

/// Bounces `ray` off `shape`, which it meets at `distance`.
pub fn reflect<S: RayTraceShape>(shape: &S, ray: &mut Ray, distance: Scalar)
    requires
        old(ray).bounces_remaining > 0,
    ensures
        reflected(shape, *old(ray), distance, *final(ray)),
{
    let (point, scattered) = shape.deflect(*ray, distance);
    let material = shape.material();
    ray.origin = point;
    material.shade_ray_reflection(ray, scattered);
    ray.bounces_remaining = ray.bounces_remaining - 1;
    assert(*ray == bounced(material, *old(ray), point, scattered));
}

} // verus!
