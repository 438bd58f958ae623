//! The shading a surface applies to a ray that bounces off it.

use vstd::prelude::*;
use crate::color::Col3;
use crate::ray::Ray;
use crate::scalar::Scalar;
use crate::vector::V3;

verus! {

/// The pattern of 1.9, the brightness above which a surface counts as a light.
pub const EMISSIVE_BITS: u32 = 0x3ff3_3333;

#[derive(Clone, Copy, Debug, PartialEq, Eq, Structural)]
pub struct Material {
    /// Nominal reflectivity; carried, not yet part of the blend.
    pub albedo: Scalar,
    /// From 0, fully diffuse, to 1, a mirror.
    pub smoothness: Scalar,
    pub color: Col3,
    /// The gain a ray leaves with.
    pub brightness: Scalar,
}

impl Material {
    /// Whether the surface is a light: a ray that reaches one ends there.
    pub open spec fn emissive(self) -> bool {
        self.brightness.above(Scalar { bits: EMISSIVE_BITS })
    }

    /// The ray as it leaves this surface in direction `scattered`: tinted by
    /// the surface colour, carrying the surface's brightness as its gain, and
    /// with a single bounce left if the surface is a light.
    pub open spec fn shaded(self, ray: Ray, scattered: V3) -> Ray {
        Ray {
            dir: scattered,
            color: ray.color.times(self.color),
            gamma: self.brightness,
            bounces_remaining: if self.emissive() {
                1
            } else {
                ray.bounces_remaining
            },
            ..ray
        }
    }

    pub fn new(albedo: Scalar, smoothness: Scalar, color: Col3, brightness: Scalar) -> (out: Material)
        ensures
            out == (Material { albedo, smoothness, color, brightness }),
    {
        Material { albedo, smoothness, color, brightness }
    }

    /// Shades `ray` at a reflection. `scattered` is the mirrored direction
    /// after the surface's roughness has perturbed it.
    pub fn shade_ray_reflection(&self, ray: &mut Ray, scattered: V3)
        ensures
            *final(ray) == self.shaded(*old(ray), scattered),
    {
        ray.dir = scattered;
        self.shade_color(ray);
        self.shade_lighting(ray);
    }

    fn shade_lighting(&self, ray: &mut Ray)
        ensures
            *final(ray) == (Ray {
                gamma: self.brightness,
                bounces_remaining: if self.emissive() {
                    1
                } else {
                    old(ray).bounces_remaining
                },
                ..*old(ray)
            }),
    {
        ray.gamma = self.brightness;
        if self.brightness.gt(Scalar::from_bits(EMISSIVE_BITS)) {
            ray.bounces_remaining = 1;
        }
    }

    fn shade_color(&self, ray: &mut Ray)
        ensures
            *final(ray) == (Ray { color: old(ray).color.times(self.color), ..*old(ray) }),
    {
        ray.color = ray.color * self.color;
    }
}

} // verus!
