//! The sphere, and where a ray meets it.

use crate::double::Double;
use crate::hittable::HitRecord;
use crate::material::Material;
use crate::ray::Ray;
use crate::vec3::Point3;
use vstd::prelude::*;

verus! {

/// A sphere. A negative radius keeps the surface and turns the normals
/// inward, which makes the inner wall of a hollow shell.
#[derive(Debug, Copy, Clone)]
pub struct Sphere {
    pub center: Point3,
    pub radius: Double,
    pub material: Material,
}

/// Whether `t` is admitted by the interval from `t_min` to `t_max`, both ends
/// included: it is neither below the one nor above the other. A NaN is
/// admitted, since it is neither.
pub open spec fn admits(t_min: Double, t_max: Double, t: Double) -> bool {
    !t.lt(t_min) && !t_max.lt(t)
}

pub open spec fn spec_admitted_root(near: Double, far: Double, t_min: Double, t_max: Double) -> Option<
    Double,
> {
    if admits(t_min, t_max, near) {
        Some(near)
    } else if admits(t_min, t_max, far) {
        Some(far)
    } else {
        None
    }
}

/// The root at which a ray is taken to meet a surface: the smaller if the
/// interval admits it, else the larger if the interval admits that, else
/// none.
#[verifier::when_used_as_spec(spec_admitted_root)]
pub fn admitted_root(near: Double, far: Double, t_min: Double, t_max: Double) -> (r: Option<Double>)
    ensures
        r == admitted_root(near, far, t_min, t_max),
        r matches Some(t) ==> admits(t_min, t_max, t) && (t == near || t == far),
{
    if !(near.lt(t_min) || t_max.lt(near)) {
        Some(near)
    } else if !(far.lt(t_min) || t_max.lt(far)) {
        Some(far)
    } else {
        None
    }
}

impl Sphere {
    pub open spec fn spec_new(center: Point3, radius: Double, material: Material) -> Sphere {
        Sphere { center, radius, material }
    }

    #[verifier::when_used_as_spec(spec_new)]
    pub fn new(center: Point3, radius: Double, material: Material) -> (r: Sphere)
        ensures
            r == Sphere::new(center, radius, material),
    {
        Sphere { center, radius, material }
    }

    /// A quarter of the discriminant of the quadratic
    /// `|direction|^2 t^2 + 2 ((origin - center) . direction) t
    /// + |origin - center|^2 - radius^2 = 0`,
    /// whose roots are the parameters at which the ray meets the sphere.
    pub open spec fn discriminant(&self, ray: &Ray) -> Double {
        let oc = ray.origin - self.center;
        let a = ray.direction.squared_length();
        let half_b = oc.dot(&ray.direction);
        let c = oc.squared_length() - self.radius * self.radius;
        half_b * half_b - a * c
    }

    /// The smaller root of the quadratic.
    pub open spec fn near_root(&self, ray: &Ray) -> Double {
        let oc = ray.origin - self.center;
        let a = ray.direction.squared_length();
        let half_b = oc.dot(&ray.direction);
        (half_b.neg() - self.discriminant(ray).sqrt()) / a
    }

    /// The larger root of the quadratic.
    pub open spec fn far_root(&self, ray: &Ray) -> Double {
        let oc = ray.origin - self.center;
        let a = ray.direction.squared_length();
        let half_b = oc.dot(&ray.direction);
        (half_b.neg() + self.discriminant(ray).sqrt()) / a
    }

    /// Whether the parameters at which the ray can meet the sphere are
    /// numbers: the discriminant is negative, so that no root is looked at,
    /// or neither root is a NaN.
    pub open spec fn has_definite_roots(&self, ray: &Ray) -> bool {
        ||| self.discriminant(ray).lt(Double::from_bits(0))
        ||| !self.near_root(ray).is_nan() && !self.far_root(ray).is_nan()
    }

    /// Whether the smaller root is at most the larger, which takes both to be
    /// numbers, or the discriminant is negative, so that no root is looked
    /// at.
    pub open spec fn has_ordered_roots(&self, ray: &Ray) -> bool {
        ||| self.discriminant(ray).lt(Double::from_bits(0))
        ||| self.near_root(ray).le(self.far_root(ray))
    }

    /// The discriminant and the two roots, the smaller first.
    pub fn roots(&self, ray: &Ray) -> (r: (Double, Double, Double))
        ensures
            r == (self.discriminant(ray), self.near_root(ray), self.far_root(ray)),
    {
        let oc = ray.origin - self.center;
        let a = ray.direction.squared_length();
        let half_b = oc.dot(&ray.direction);
        let c = oc.squared_length() - self.radius * self.radius;
        let discriminant = half_b * half_b - a * c;
        let sqrtd = discriminant.sqrt();
        (discriminant, (half_b.neg() - sqrtd) / a, (half_b.neg() + sqrtd) / a)
    }

    /// Tests whether the parameters at which the ray can meet the sphere are
    /// numbers.
    pub fn has_definite_roots_at(&self, ray: &Ray) -> (r: bool)
        ensures
            r == self.has_definite_roots(ray),
    {
        let (discriminant, near, far) = self.roots(ray);
        discriminant.lt(Double::from_bits(0)) || (!near.is_nan() && !far.is_nan())
    }

    /// Tests whether the parameters at which the ray can meet the sphere are
    /// numbers in their order.
    pub fn has_ordered_roots_at(&self, ray: &Ray) -> (r: bool)
        ensures
            r == self.has_ordered_roots(ray),
    {
        let (discriminant, near, far) = self.roots(ray);
        discriminant.lt(Double::from_bits(0)) || near.le(far)
    }

    /// What is recorded of the meeting at parameter `t`: the point, the
    /// normal `(point - center) / radius` turned against the ray, and the
    /// sphere's material.
    pub open spec fn record_at(&self, ray: &Ray, t: Double) -> HitRecord {
        let outward_normal = (ray.at(t) - self.center) / self.radius;
        let (front_face, normal) = HitRecord::get_face_normal(ray, &outward_normal);
        HitRecord { p: ray.at(t), normal, t, front_face, material: self.material }
    }

    /// The nearest meeting of the ray with the sphere that the interval
    /// admits: none where the discriminant is negative; else at the smaller
    /// root if the interval admits it; else at the larger if it admits that;
    /// else none.
    pub open spec fn spec_hit(&self, ray: &Ray, t_min: Double, t_max: Double) -> Option<HitRecord> {
        if self.discriminant(ray).lt(Double::from_bits(0)) {
            None
        } else {
            match admitted_root(self.near_root(ray), self.far_root(ray), t_min, t_max) {
                Some(root) => Some(self.record_at(ray, root)),
                None => None,
            }
        }
    }

    #[verifier::when_used_as_spec(spec_hit)]
    pub fn hit(&self, ray: &Ray, t_min: Double, t_max: Double) -> (r: Option<HitRecord>)
        ensures
            r == self.hit(ray, t_min, t_max),
            r matches Some(rec) ==> admits(t_min, t_max, rec.t) && rec.is_oriented(ray),
    {
        let oc = ray.origin - self.center;
        let a = ray.direction.squared_length();
        let half_b = oc.dot(&ray.direction);
        let c = oc.squared_length() - self.radius * self.radius;
        let discriminant = half_b * half_b - a * c;
        if discriminant.lt(Double::from_bits(0)) {
            return None;
        }
        // Find the nearest root that lies in the acceptable range.
        let sqrtd = discriminant.sqrt();
        let near = (half_b.neg() - sqrtd) / a;
        let far = (half_b.neg() + sqrtd) / a;
        let root = match admitted_root(near, far, t_min, t_max) {
            Some(root) => root,
            None => {
                return None;
            },
        };
        let outward_normal = (ray.at(root) - self.center) / self.radius;
        let (front_face, normal) = HitRecord::get_face_normal(ray, &outward_normal);
        Some(HitRecord { t: root, p: ray.at(root), normal, material: self.material, front_face })
    }
}

} // verus!
