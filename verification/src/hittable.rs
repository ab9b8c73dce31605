//! What a ray can meet, and what is recorded of the meeting.

use crate::double::{Double, MINUS_ONE};
use crate::material::Material;
use crate::ray::Ray;
use crate::sphere::{admits, Sphere};
use crate::vec3::{Point3, Vec3};
use vstd::prelude::*;

verus! {

/// A ray's meeting with a surface.
#[derive(Debug, Clone, Copy)]
pub struct HitRecord {
    /// Where the ray meets the surface.
    pub p: Point3,
    /// The surface normal there, turned against the ray.
    pub normal: Vec3,
    /// The ray's parameter there.
    pub t: Double,
    /// Whether the ray comes from outside the surface.
    pub front_face: bool,
    pub material: Material,
}

impl HitRecord {
    pub open spec fn spec_turned_against(along: Double, outward_normal: &Vec3) -> (bool, Vec3) {
        (
            along.lt(Double::from_bits(0)),
            if along.lt(Double::from_bits(0)) {
                *outward_normal
            } else {
                outward_normal.times(Double::from_bits(MINUS_ONE))
            },
        )
    }

    /// The facing rule, for a ray that runs `along` the outward normal by
    /// that much, which is their dot product: a ray that runs against the
    /// normal comes from outside and meets the normal as it is; any other
    /// comes from inside and meets the normal times -1.
    #[verifier::when_used_as_spec(spec_turned_against)]
    pub fn turned_against(along: Double, outward_normal: &Vec3) -> (r: (bool, Vec3))
        ensures
            r == HitRecord::turned_against(along, outward_normal),
            r.0 == along.lt(Double::from_bits(0)),
            r.0 ==> r.1 == *outward_normal,
    {
        let front_face = along.lt(Double::from_bits(0));
        let normal = if front_face {
            *outward_normal
        } else {
            *outward_normal * Double::from_bits(MINUS_ONE)
        };
        (front_face, normal)
    }

    pub open spec fn spec_get_face_normal(ray: &Ray, outward_normal: &Vec3) -> (bool, Vec3) {
        HitRecord::turned_against(ray.direction.dot(outward_normal), outward_normal)
    }

    /// Whether a ray comes from the side into which `outward_normal` points,
    /// which is when the two make a negative dot product, and the normal
    /// turned against the ray: the outward one seen from outside, its
    /// opposite seen from inside.
    #[verifier::when_used_as_spec(spec_get_face_normal)]
    pub fn get_face_normal(ray: &Ray, outward_normal: &Vec3) -> (r: (bool, Vec3))
        ensures
            r == HitRecord::get_face_normal(ray, outward_normal),
    {
        HitRecord::turned_against(ray.direction.dot(outward_normal), outward_normal)
    }

    /// Whether the record lies on the ray at its parameter and its normal is
    /// turned against the ray: for some outward normal, the record holds what
    /// `get_face_normal` makes of it.
    pub open spec fn is_oriented(&self, ray: &Ray) -> bool {
        &&& self.p == ray.at(self.t)
        &&& exists|outward_normal: Vec3|
            (self.front_face, self.normal) == #[trigger] HitRecord::get_face_normal(
                ray,
                &outward_normal,
            )
    }
}

/// The shapes that a scene is made of.
#[derive(Debug, Clone, Copy)]
pub enum Hittable {
    Sphere { center: Point3, radius: Double, material: Material },
}

impl Hittable {
    pub open spec fn spec_new_sphere(center: Point3, radius: Double, material: Material) -> Hittable {
        Hittable::Sphere { center, radius, material }
    }

    #[verifier::when_used_as_spec(spec_new_sphere)]
    pub fn new_sphere(center: Point3, radius: Double, material: Material) -> (r: Hittable)
        ensures
            r == Hittable::new_sphere(center, radius, material),
    {
        Hittable::Sphere { center, radius, material }
    }

    /// The sphere that this shape is.
    pub open spec fn as_sphere(&self) -> Sphere {
        match self {
            Hittable::Sphere { center, radius, material } => Sphere::new(
                *center,
                *radius,
                *material,
            ),
        }
    }

    /// Whether the parameters at which the ray can meet the shape are
    /// numbers.
    pub open spec fn has_definite_roots(&self, ray: &Ray) -> bool {
        self.as_sphere().has_definite_roots(ray)
    }

    /// Whether the parameters at which the ray can meet the shape are
    /// numbers in their order.
    pub open spec fn has_ordered_roots(&self, ray: &Ray) -> bool {
        self.as_sphere().has_ordered_roots(ray)
    }

    /// Tests whether the parameters at which the ray can meet the shape are
    /// numbers.
    pub fn has_definite_roots_at(&self, ray: &Ray) -> (r: bool)
        ensures
            r == self.has_definite_roots(ray),
    {
        match self {
            Hittable::Sphere { center, radius, material } => Sphere::new(
                *center,
                *radius,
                *material,
            ).has_definite_roots_at(ray),
        }
    }

    /// Tests whether the parameters at which the ray can meet the shape are
    /// numbers in their order.
    pub fn has_ordered_roots_at(&self, ray: &Ray) -> (r: bool)
        ensures
            r == self.has_ordered_roots(ray),
    {
        match self {
            Hittable::Sphere { center, radius, material } => Sphere::new(
                *center,
                *radius,
                *material,
            ).has_ordered_roots_at(ray),
        }
    }

    /// Whether the ray meets the shape at parameter `t`, and `rec` is what is
    /// recorded of that.
    pub open spec fn meets_at(&self, ray: &Ray, t: Double, rec: HitRecord) -> bool {
        &&& !self.as_sphere().discriminant(ray).lt(Double::from_bits(0))
        &&& t == self.as_sphere().near_root(ray) || t == self.as_sphere().far_root(ray)
        &&& rec == self.as_sphere().record_at(ray, t)
    }

    pub open spec fn spec_hit(&self, ray: &Ray, t_min: Double, t_max: Double) -> Option<HitRecord> {
        match self {
            Hittable::Sphere { center, radius, material } => Sphere::new(
                *center,
                *radius,
                *material,
            ).hit(ray, t_min, t_max),
        }
    }

    /// The nearest meeting of the ray with the shape at a parameter that the
    /// interval from `t_min` to `t_max` admits, if there is one.
    #[verifier::when_used_as_spec(spec_hit)]
    pub fn hit(&self, ray: &Ray, t_min: Double, t_max: Double) -> (r: Option<HitRecord>)
        ensures
            r == self.hit(ray, t_min, t_max),
            r matches Some(rec) ==> admits(t_min, t_max, rec.t) && rec.is_oriented(ray),
    {
        match self {
            Hittable::Sphere { center, radius, material } => Sphere::new(
                *center,
                *radius,
                *material,
            ).hit(ray, t_min, t_max),
        }
    }
}

} // verus!
