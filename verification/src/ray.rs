//! A ray: the points `origin + t * direction`.

use crate::double::Double;
use crate::vec3::{Point3, Vec3};
use vstd::prelude::*;

verus! {

#[derive(Debug, Copy, Clone)]
pub struct Ray {
    pub origin: Point3,
    pub direction: Vec3,
}

impl Ray {
    pub open spec fn spec_new(origin: Point3, direction: Vec3) -> Ray {
        Ray { origin, direction }
    }

    /// The ray from `origin` along `direction`, which need not have length 1.
    #[verifier::when_used_as_spec(spec_new)]
    pub fn new(origin: Point3, direction: Vec3) -> (r: Ray)
        ensures
            r == Ray::new(origin, direction),
    {
        Ray { origin, direction }
    }

    pub open spec fn spec_at(&self, t: Double) -> Point3 {
        self.origin + self.direction.scaled_by(t)
    }

    /// The point of the ray at parameter `t`, whatever `t` is.
    #[verifier::when_used_as_spec(spec_at)]
    pub fn at(&self, t: Double) -> (p: Point3)
        ensures
            p == self.at(t),
    {
        self.origin + t * self.direction
    }
}

} // verus!
