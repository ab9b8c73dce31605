//! The camera: from a place on the picture to a ray into the scene.

use crate::double::{Double, TRIG_LIMIT, TWO};
use crate::ray::Ray;
use crate::rtweekend::degrees_to_radius;
use crate::vec3::{Point3, Vec3};
use vstd::prelude::*;

verus! {

/// Why a camera cannot be set up.
#[derive(Debug, Clone, Copy, PartialEq, Eq, Structural)]
pub enum CameraError {
    /// The up vector runs along the line of sight, or the camera looks at the
    /// place where it stands: no sideways direction can be told.
    DegenerateBasis,
    /// Half the field of view is an angle of `2^20` radians or more, or no
    /// number: its tangent is not computed.
    FieldOfView,
}

/// A camera with a thin lens. What the constructor derives is kept and never
/// changed.
#[derive(Debug, Clone, Copy)]
pub struct Camera {
    pub origin: Point3,
    pub lower_left_corner: Point3,
    pub horizontal: Vec3,
    pub vertical: Vec3,
    pub u: Vec3,
    pub v: Vec3,
    pub w: Vec3,
    pub lens_radius: Double,
}

impl Camera {
    /// Half the vertical field of view, in radians.
    pub open spec fn half_angle(vfov: Double) -> Double {
        degrees_to_radius(vfov) / Double::from_bits(TWO)
    }

    /// The unit vector from the point looked at back to the camera.
    pub open spec fn backward(lookfrom: Point3, lookat: Point3) -> Vec3 {
        (lookfrom - lookat).unit_vector()
    }

    /// Whether no sideways direction can be told: the cross product of the up
    /// vector and the backward direction is all but zero, as it is where the
    /// up vector runs along the line of sight, or its length is infinite or
    /// no number.
    pub open spec fn is_degenerate(lookfrom: Point3, lookat: Point3, vup: Vec3) -> bool {
        let sideways = vup.cross(&Camera::backward(lookfrom, lookat));
        sideways.near_zero() || !sideways.length().is_finite()
    }

    /// The camera that stands at `lookfrom`, looks at `lookat` with `vup`
    /// upward, sees a picture `aspect_ratio` times as wide as high whose
    /// half height is `half_height` at distance 1, and focuses at
    /// `focus_dist` through a lens of diameter `aperture`.
    pub open spec fn spec_with_half_height(
        lookfrom: Point3,
        lookat: Point3,
        vup: Vec3,
        half_height: Double,
        aspect_ratio: Double,
        aperture: Double,
        focus_dist: Double,
    ) -> Camera {
        let two = Double::from_bits(TWO);
        let viewport_height = two * half_height;
        let viewport_width = aspect_ratio * viewport_height;
        let w = Camera::backward(lookfrom, lookat);
        let u = vup.cross(&w).unit_vector();
        let v = w.cross(&u);
        let horizontal = u.scaled_by(focus_dist * viewport_width);
        let vertical = v.scaled_by(focus_dist * viewport_height);
        Camera {
            origin: lookfrom,
            lower_left_corner: lookfrom - horizontal / two - vertical / two - w.scaled_by(
                focus_dist,
            ),
            horizontal,
            vertical,
            u,
            v,
            w,
            lens_radius: aperture / two,
        }
    }

    /// Sets up the camera from the half height of its picture at distance 1.
    /// Fails exactly where no sideways direction can be told.
    pub fn with_half_height(
        lookfrom: Point3,
        lookat: Point3,
        vup: Vec3,
        half_height: Double,
        aspect_ratio: Double,
        aperture: Double,
        focus_dist: Double,
    ) -> (r: Result<Camera, CameraError>)
        ensures
            Camera::is_degenerate(lookfrom, lookat, vup) ==> r == Err::<Camera, CameraError>(
                CameraError::DegenerateBasis,
            ),
            !Camera::is_degenerate(lookfrom, lookat, vup) ==> r == Ok::<Camera, CameraError>(
                Camera::spec_with_half_height(
                    lookfrom,
                    lookat,
                    vup,
                    half_height,
                    aspect_ratio,
                    aperture,
                    focus_dist,
                ),
            ),
    {
        let two = Double::from_bits(TWO);
        let viewport_height = two * half_height;
        let viewport_width = aspect_ratio * viewport_height;

        let w = (lookfrom - lookat).unit_vector();
        let sideways = vup.cross(&w);
        if sideways.near_zero() || !sideways.length().is_finite() {
            return Err(CameraError::DegenerateBasis);
        }
        let u = sideways.unit_vector();
        let v = w.cross(&u);

        let origin = lookfrom;
        let horizontal = focus_dist * viewport_width * u;
        let vertical = focus_dist * viewport_height * v;
        let lower_left_corner = origin - horizontal / two - vertical / two - focus_dist * w;
        let lens_radius = aperture / two;
        Ok(Camera { origin, lower_left_corner, horizontal, vertical, u, v, w, lens_radius })
    }

    /// Sets up the camera from its vertical field of view in degrees. Fails
    /// where half that angle is out of reach of the tangent, and else exactly
    /// where no sideways direction can be told.
    pub fn new(
        lookfrom: Point3,
        lookat: Point3,
        vup: Vec3,
        vfov: Double,
        aspect_ratio: Double,
        aperture: Double,
        focus_dist: Double,
    ) -> (r: Result<Camera, CameraError>)
        ensures
            !Camera::half_angle(vfov).abs().lt(Double::from_bits(TRIG_LIMIT)) ==> r == Err::<
                Camera,
                CameraError,
            >(CameraError::FieldOfView),
            Camera::half_angle(vfov).abs().lt(Double::from_bits(TRIG_LIMIT))
                && Camera::is_degenerate(lookfrom, lookat, vup) ==> r == Err::<Camera, CameraError>(
                CameraError::DegenerateBasis,
            ),
            Camera::half_angle(vfov).abs().lt(Double::from_bits(TRIG_LIMIT))
                && !Camera::is_degenerate(lookfrom, lookat, vup) ==> r == Ok::<Camera, CameraError>(
                Camera::spec_with_half_height(
                    lookfrom,
                    lookat,
                    vup,
                    Camera::half_angle(vfov).tan(),
                    aspect_ratio,
                    aperture,
                    focus_dist,
                ),
            ),
    {
        let theta = degrees_to_radius(vfov);
        let half = theta / Double::from_bits(TWO);
        if !half.abs().lt(Double::from_bits(TRIG_LIMIT)) {
            return Err(CameraError::FieldOfView);
        }
        let h = half.tan();
        Camera::with_half_height(lookfrom, lookat, vup, h, aspect_ratio, aperture, focus_dist)
    }

    pub open spec fn spec_get_ray_through(&self, s: Double, t: Double, lens: Vec3) -> Ray {
        let rd = lens.scaled_by(self.lens_radius);
        let offset = self.u.times(rd.x) + self.v.times(rd.y);
        Ray::new(
            self.origin + offset,
            self.lower_left_corner + self.horizontal.scaled_by(s) + self.vertical.scaled_by(t)
                - self.origin - offset,
        )
    }

    /// The ray towards the place `(s, t)` of the picture, both from 0 to 1,
    /// that leaves the lens at the point for which `lens`, a point of the
    /// unit disk, stands.
    #[verifier::when_used_as_spec(spec_get_ray_through)]
    pub fn get_ray_through(&self, s: Double, t: Double, lens: Vec3) -> (r: Ray)
        ensures
            r == self.get_ray_through(s, t, lens),
    {
        let rd = self.lens_radius * lens;
        let offset = self.u * rd.x + self.v * rd.y;
        Ray::new(
            self.origin + offset,
            self.lower_left_corner + s * self.horizontal + t * self.vertical - self.origin
                - offset,
        )
    }

    /// The ray towards the place `(s, t)` of the picture that leaves the
    /// lens at a random point.
    pub fn get_ray(&self, s: Double, t: Double) -> (r: Ray)
        ensures
            exists|lens: Vec3|
                lens.is_disk_sample() && r == #[trigger] self.get_ray_through(s, t, lens),
    {
        self.get_ray_through(s, t, Vec3::random_in_unit_disk())
    }
}

} // verus!
