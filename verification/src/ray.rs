//! The state a traced ray carries from bounce to bounce.

use vstd::prelude::*;
use crate::color::Col3;
use crate::scalar::Scalar;
use crate::vector::V3;

verus! {

/// The pattern of 0.2, the gain every ray of the camera sets out with.
pub const AMBIENT_BITS: u32 = 0x3e4c_cccd;

/// A ray on its way through the scene.
#[derive(Clone, Copy, Debug, PartialEq, Eq, Structural)]
pub struct Ray {
    pub origin: V3,
    pub dir: V3,
    /// The tint accumulated over the bounces so far.
    pub color: Col3,
    pub bounces_remaining: u16,
    pub steps_remaining: u16,
    /// The brightness gain set by the surface hit last.
    pub gamma: Scalar,
}

impl Ray {
    /// What a ray contributes once its path has ended on a surface: its
    /// accumulated colour if its gain is positive, black otherwise.
    pub open spec fn terminal(self) -> Col3 {
        if self.gamma.positive() {
            self.color
        } else {
            Col3::black_spec()
        }
    }

    /// A fresh ray with the given budgets and no gain yet.
    pub fn new(origin: V3, dir: V3, color: Col3, bounce_depth: u16, step_timeout: u16) -> (out: Ray)
        ensures
            out == (Ray {
                origin,
                dir,
                color,
                bounces_remaining: bounce_depth,
                steps_remaining: step_timeout,
                gamma: Scalar::zero_spec(),
            }),
    {
        Ray {
            origin,
            dir,
            color,
            bounces_remaining: bounce_depth,
            steps_remaining: step_timeout,
            gamma: Scalar::zero(),
        }
    }

    /// The colour this ray contributes when its path ends here.
    pub fn terminal_color(&self) -> (out: Col3)
        ensures
            out == self.terminal(),
    {
        if self.gamma.is_positive() {
            self.color
        } else {
            Col3::black()
        }
    }
}

} // verus!
