//! How a surface sends on the light that reaches it.

use crate::double::{Double, ONE};
use crate::hittable::HitRecord;
use crate::ray::Ray;
use crate::rtweekend::{is_unit_draw, random_double};
use crate::vec3::{Color, Vec3};
use vstd::prelude::*;

verus! {

#[derive(Debug, Clone, Copy)]
pub enum Material {
    /// A matt surface that scatters around the normal.
    Lambertian { albedo: Color },
    /// A mirror, blurred by `fuzz` times a random offset.
    Metal { albedo: Color, fuzz: Double },
    /// A clear solid with the refractive index `ir`.
    Dielectric { ir: Double },
}

impl Material {
    /// The share of light that a clear surface reflects head on:
    /// `((1 - ref_idx) / (1 + ref_idx))^2`.
    pub open spec fn r0(ref_idx: Double) -> Double {
        let one = Double::from_bits(ONE);
        (one - ref_idx) / (one + ref_idx) * ((one - ref_idx) / (one + ref_idx))
    }

    pub open spec fn spec_reflectance(cosine: Double, ref_idx: Double) -> Double {
        let one = Double::from_bits(ONE);
        Material::r0(ref_idx) + (one - Material::r0(ref_idx)) * (one - cosine).powi(5)
    }

    /// Schlick's approximation of the share of light that a clear surface
    /// reflects: `r0 + (1 - r0) (1 - cosine)^5` with
    /// `r0 = ((1 - ref_idx) / (1 + ref_idx))^2`. At the cosine 1 that is
    /// `r0` itself, wherever `r0` and `1 - r0` are numbers, and a zero for
    /// the index 1, as long as 1 + 1 is a number other than zero.
    #[verifier::when_used_as_spec(spec_reflectance)]
    pub fn reflectance(cosine: Double, ref_idx: Double) -> (r: Double)
        ensures
            r == Material::reflectance(cosine, ref_idx),
            cosine == Double::from_bits(ONE) && (Double::from_bits(ONE) - Material::r0(
                ref_idx,
            )).is_finite() ==> r.same_value(Material::r0(ref_idx)),
            cosine == Double::from_bits(ONE) && ref_idx == Double::from_bits(ONE) && !(
            Double::from_bits(ONE) + Double::from_bits(ONE)).is_nan() && !(Double::from_bits(ONE)
                + Double::from_bits(ONE)).is_zero() ==> r.is_zero(),
    {
        let one = Double::from_bits(ONE);
        let mut r0 = (one - ref_idx) / (one + ref_idx);
        r0 = r0 * r0;
        r0 + (one - r0) * (one - cosine).powi(5)
    }

    pub open spec fn spec_refraction_ratio(rec: &HitRecord, ir: Double) -> Double {
        if rec.front_face {
            Double::from_bits(ONE) / ir
        } else {
            ir
        }
    }

    /// The refractive index on the side the ray comes from over that on the
    /// side it goes to, the outside being empty space.
    #[verifier::when_used_as_spec(spec_refraction_ratio)]
    pub fn refraction_ratio(rec: &HitRecord, ir: Double) -> (r: Double)
        ensures
            r == Material::refraction_ratio(rec, ir),
    {
        if rec.front_face {
            Double::from_bits(ONE) / ir
        } else {
            ir
        }
    }

    /// The cosine of the angle between the incoming ray and the normal, held
    /// to at most 1.
    pub open spec fn cos_theta(unit_direction: Vec3, rec: &HitRecord) -> Double {
        unit_direction.neg().dot(&rec.normal).min(Double::from_bits(ONE))
    }

    /// The sine that the refracted angle would have by Snell's law: the
    /// ratio of the indices times the sine of the incoming angle.
    pub open spec fn refracted_sine(unit_direction: Vec3, rec: &HitRecord, ir: Double) -> Double {
        let one = Double::from_bits(ONE);
        let cos_theta = Material::cos_theta(unit_direction, rec);
        let sin_theta = (one - cos_theta * cos_theta).sqrt();
        Material::refraction_ratio(rec, ir) * sin_theta
    }

    pub open spec fn spec_cannot_refract(unit_direction: Vec3, rec: &HitRecord, ir: Double) -> bool {
        Material::refracted_sine(unit_direction, rec, ir).gt(Double::from_bits(ONE))
    }

    /// Whether Snell's law has no solution, so that all light is reflected:
    /// the sine of the refracted angle would exceed 1.
    #[verifier::when_used_as_spec(spec_cannot_refract)]
    pub fn cannot_refract(unit_direction: Vec3, rec: &HitRecord, ir: Double) -> (r: bool)
        ensures
            r == Material::cannot_refract(unit_direction, rec, ir),
    {
        let one = Double::from_bits(ONE);
        let cos_theta = unit_direction.neg().dot(&rec.normal).min(one);
        let sin_theta = (one - cos_theta * cos_theta).sqrt();
        (Material::refraction_ratio(rec, ir) * sin_theta).gt(one)
    }

    pub open spec fn spec_sent_outward(albedo: Color, scattered: Ray, along: Double) -> Option<
        (Color, Ray),
    > {
        if along.gt(Double::from_bits(0)) {
            Some((albedo, scattered))
        } else {
            None
        }
    }

    /// What a mirror makes of a ray that it would send on `along` its
    /// normal by that much, which is their dot product: it sends the ray on,
    /// dimmed by its colour, if that is more than zero, and absorbs it
    /// otherwise.
    #[verifier::when_used_as_spec(spec_sent_outward)]
    pub fn sent_outward(albedo: Color, scattered: Ray, along: Double) -> (r: Option<(Color, Ray)>)
        ensures
            r == Material::sent_outward(albedo, scattered, along),
            r.is_some() <==> along.gt(Double::from_bits(0)),
    {
        if along.gt(Double::from_bits(0)) {
            Some((albedo, scattered))
        } else {
            None
        }
    }

    pub open spec fn spec_reflects_given(sine: Double, reflectance: Double, coin: Double) -> bool {
        sine.gt(Double::from_bits(ONE)) || reflectance.gt(coin)
    }

    /// Whether a clear surface reflects rather than refracts, given the sine
    /// that the refracted angle would have, the share of light that is
    /// reflected, and the draw that decides: always where the sine would
    /// exceed 1, else where the share exceeds the draw.
    #[verifier::when_used_as_spec(spec_reflects_given)]
    pub fn reflects_given(sine: Double, reflectance: Double, coin: Double) -> (r: bool)
        ensures
            r == Material::reflects_given(sine, reflectance, coin),
    {
        sine.gt(Double::from_bits(ONE)) || reflectance.gt(coin)
    }

    /// Whether a clear surface reflects rather than refracts: always where
    /// Snell's law has no solution, else with the probability that Schlick's
    /// approximation gives, decided by `coin`.
    pub open spec fn reflects(unit_direction: Vec3, rec: &HitRecord, ir: Double, coin: Double) -> bool {
        Material::reflects_given(
            Material::refracted_sine(unit_direction, rec, ir),
            Material::reflectance(
                Material::cos_theta(unit_direction, rec),
                Material::refraction_ratio(rec, ir),
            ),
            coin,
        )
    }

    /// What `scatter` returns when its random draws come out as `sample` and
    /// `coin`. A matt surface sends the ray on along `normal + sample`, or
    /// along the normal where the two all but cancel. A mirror sends it along
    /// the reflection plus `fuzz * sample`, and absorbs it where that points
    /// into the surface. A clear solid reflects or refracts it as `coin`
    /// decides.
    pub open spec fn spec_scatter_with(
        ray: &Ray,
        rec: &HitRecord,
        sample: Vec3,
        coin: Double,
    ) -> Option<(Color, Ray)> {
        match rec.material {
            Material::Lambertian { albedo } => {
                let direction = rec.normal + sample;
                Some(
                    (
                        albedo,
                        Ray::new(
                            rec.p,
                            if direction.near_zero() {
                                rec.normal
                            } else {
                                direction
                            },
                        ),
                    ),
                )
            },
            Material::Metal { albedo, fuzz } => {
                let reflected = ray.direction.unit_vector().reflect(&rec.normal);
                let scattered = Ray::new(rec.p, reflected + sample.scaled_by(fuzz));
                Material::sent_outward(albedo, scattered, scattered.direction.dot(&rec.normal))
            },
            Material::Dielectric { ir } => {
                let one = Double::from_bits(ONE);
                let unit_direction = ray.direction.unit_vector();
                let direction = if Material::reflects(unit_direction, rec, ir, coin) {
                    unit_direction.reflect(&rec.normal)
                } else {
                    unit_direction.refract(&rec.normal, Material::refraction_ratio(rec, ir))
                };
                Some((Color::new(one, one, one), Ray::new(rec.p, direction)))
            },
        }
    }

    /// Scatters with the random draws given: `sample` stands for the random
    /// direction of a matt surface or the random offset of a mirror, `coin`
    /// for the draw that decides between reflection and refraction. A mirror
    /// without fuzz takes nothing from a finite sample: where it scatters, it
    /// does so along the mirror image of the incoming direction.
    #[verifier::when_used_as_spec(spec_scatter_with)]
    pub fn scatter_with(ray: &Ray, rec: &HitRecord, sample: Vec3, coin: Double) -> (r: Option<
        (Color, Ray),
    >)
        ensures
            r == Material::scatter_with(ray, rec, sample, coin),
            rec.material matches Material::Metal { fuzz, .. } ==> fuzz.is_zero()
                && sample.is_finite() ==> (r matches Some((_, scattered))
                ==> scattered.direction.same_value(
                ray.direction.unit_vector().reflect(&rec.normal),
            )),
    {
        match rec.material {
            Material::Lambertian { albedo } => {
                let mut scatter_direction = rec.normal + sample;
                // Catch degenerate scatter direction
                if scatter_direction.near_zero() {
                    scatter_direction = rec.normal;
                }
                let scattered = Ray::new(rec.p, scatter_direction);
                Some((albedo, scattered))
            },
            Material::Metal { albedo, fuzz } => {
                let reflected = ray.direction.unit_vector().reflect(&rec.normal);
                let scattered = Ray::new(rec.p, reflected + fuzz * sample);
                Material::sent_outward(albedo, scattered, scattered.direction.dot(&rec.normal))
            },
            Material::Dielectric { ir } => {
                let one = Double::from_bits(ONE);
                let attenuation = Color::new(one, one, one);
                let refraction_ratio = if rec.front_face {
                    one / ir
                } else {
                    ir
                };
                let unit_direction = ray.direction.unit_vector();
                // Total internal reflection handling
                let cos_theta = unit_direction.neg().dot(&rec.normal).min(one);
                let sin_theta = (one - cos_theta * cos_theta).sqrt();
                let direction = if Material::reflects_given(
                    refraction_ratio * sin_theta,
                    Material::reflectance(cos_theta, refraction_ratio),
                    coin,
                ) {
                    unit_direction.reflect(&rec.normal)
                } else {
                    unit_direction.refract(&rec.normal, refraction_ratio)
                };
                Some((attenuation, Ray::new(rec.p, direction)))
            },
        }
    }

    /// Whether a material is a mirror without fuzz.
    pub open spec fn is_clear_mirror(material: Material) -> bool {
        material matches Material::Metal { fuzz, .. } && fuzz.is_zero()
    }

    /// Whether `sample` and `coin` can be the draws that `scatter` makes at a
    /// hit: a random direction for a matt surface, a point of the unit ball
    /// for a mirror, and for a clear solid a draw from `[0, 1)`, which is made
    /// only where Snell's law leaves a choice.
    pub open spec fn draws_for(ray: &Ray, rec: &HitRecord, sample: Vec3, coin: Double) -> bool {
        match rec.material {
            Material::Lambertian { .. } => exists|p: Vec3|
                p.is_ball_sample() && sample == #[trigger] p.unit_vector(),
            Material::Metal { .. } => sample.is_ball_sample(),
            Material::Dielectric { ir } => is_unit_draw(coin) || Material::cannot_refract(
                ray.direction.unit_vector(),
                rec,
                ir,
            ),
        }
    }

    /// The colour by which the struck surface dims the light and the ray
    /// along which the light arrives, or none where the surface absorbs it.
    /// A matt surface and a clear solid never absorb, and dim by their own
    /// colour and not at all. A matt surface sends the light on along its
    /// normal or along a direction that is not all but zero. A mirror sends
    /// it on only along a direction that points out of the surface; without
    /// fuzz that is the mirror image of the incoming direction, as long as
    /// the point of the ball that is drawn is finite.
    pub fn scatter(ray: &Ray, rec: &HitRecord) -> (r: Option<(Color, Ray)>)
        ensures
            exists|sample: Vec3, coin: Double|
                {
                    &&& Material::draws_for(ray, rec, sample, coin)
                    &&& r == #[trigger] Material::scatter_with(ray, rec, sample, coin)
                    &&& Material::is_clear_mirror(rec.material) && sample.is_finite() ==> (
                    r matches Some((_, scattered)) ==> scattered.direction.same_value(
                        ray.direction.unit_vector().reflect(&rec.normal),
                    ))
                },
            rec.material matches Material::Lambertian { albedo } ==> r.is_some() && r.unwrap().0
                == albedo,
            rec.material matches Material::Dielectric { .. } ==> r.is_some() && r.unwrap().0
                == Color::new(Double::from_bits(ONE), Double::from_bits(ONE), Double::from_bits(ONE)),
            rec.material matches Material::Metal { albedo, .. } ==> r.is_some() ==> r.unwrap().0
                == albedo && r.unwrap().1.direction.dot(&rec.normal).gt(Double::from_bits(0)),
            rec.material is Lambertian ==> r.unwrap().1.direction == rec.normal
                || !r.unwrap().1.direction.near_zero(),
            r matches Some((_, scattered)) ==> scattered.origin == rec.p,
    {
        let zero = Double::from_bits(0);
        match rec.material {
            Material::Lambertian { .. } => Material::scatter_with(
                ray,
                rec,
                Vec3::random_unit_vector(),
                zero,
            ),
            Material::Metal { .. } => {
                let sample = Vec3::random_in_unit_sphere();
                assert(sample.is_ball_sample());
                Material::scatter_with(ray, rec, sample, zero)
            },
            Material::Dielectric { ir } => {
                let coin = if Material::cannot_refract(ray.direction.unit_vector(), rec, ir) {
                    zero
                } else {
                    random_double()
                };
                Material::scatter_with(ray, rec, Vec3::default(), coin)
            },
        }
    }
}

} // verus!
