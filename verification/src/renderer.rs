//! The light that arrives along a ray, and the colour of a pixel.

use crate::camera::Camera;
use crate::double::{Double, HALF, INFINITY_BITS, ONE, SEVEN_TENTHS};
use crate::hittable_list::HittableList;
use crate::material::Material;
use crate::ray::Ray;
use crate::rtweekend::{is_unit_draw, random_double};
use crate::vec3::{Color, Vec3};
use vstd::prelude::*;

verus! {

/// The pattern of 0.001: meetings nearer than this to a ray's origin are
/// passed over, so that a scattered ray does not meet the surface it leaves.
pub const T_MIN: u64 = 0x3F50_624D_D2F1_A9FC;

/// No light.
pub open spec fn black() -> Color {
    Color::new(Double::from_bits(0), Double::from_bits(0), Double::from_bits(0))
}

pub open spec fn spec_sky(ray: &Ray) -> Color {
    let one = Double::from_bits(ONE);
    let t = Double::from_bits(HALF) * (ray.direction.unit_vector().y + one);
    Color::new(one, one, one).scaled_by(one - t) + Color::new(
        Double::from_bits(HALF),
        Double::from_bits(SEVEN_TENTHS),
        one,
    ).scaled_by(t)
}

/// The light of the sky along a ray that meets nothing: white straight
/// down, sky blue straight up, and between them blended by the height of
/// the ray's unit direction brought from `[-1, 1]` to `[0, 1]`.
#[verifier::when_used_as_spec(spec_sky)]
pub fn sky(ray: &Ray) -> (c: Color)
    ensures
        c == sky(ray),
{
    let one = Double::from_bits(ONE);
    let unit_direction = ray.direction.unit_vector();
    let t = Double::from_bits(HALF) * (unit_direction.y + one);
    (one - t) * Color::new(one, one, one) + t * Color::new(
        Double::from_bits(HALF),
        Double::from_bits(SEVEN_TENTHS),
        one,
    )
}

/// The light that arrives along a ray when at most `depth` bounces are
/// followed and the random draws of the bounces come out as `draws`, the
/// first bounce taking the first pair. At depth zero there is none. A ray
/// that meets nothing brings the light of the sky. A ray that meets a
/// surface brings what arrives along the scattered ray, dimmed by the
/// surface's colour, and nothing where the surface absorbs it or the draws
/// have run out.
pub open spec fn radiance(ray: Ray, world: &HittableList, depth: int, draws: Seq<(Vec3, Double)>) -> Color
    decreases depth,
{
    if depth <= 0 {
        black()
    } else {
        match world.hit(&ray, Double::from_bits(T_MIN), Double::from_bits(INFINITY_BITS)) {
            None => sky(&ray),
            Some(rec) => if draws.len() == 0 {
                black()
            } else {
                match Material::scatter_with(&ray, &rec, draws[0].0, draws[0].1) {
                    None => black(),
                    Some((attenuation, scattered)) => attenuation * radiance(
                        scattered,
                        world,
                        depth - 1,
                        draws.drop_first(),
                    ),
                }
            },
        }
    }
}

/// Whether `draws` can be the random draws made while a ray is followed:
/// each bounce that is taken finds a pair, and the pair is one that
/// `scatter` can draw at that hit.
pub open spec fn follows(ray: Ray, world: &HittableList, depth: int, draws: Seq<(Vec3, Double)>) -> bool
    decreases depth,
{
    if depth <= 0 {
        true
    } else {
        match world.hit(&ray, Double::from_bits(T_MIN), Double::from_bits(INFINITY_BITS)) {
            None => true,
            Some(rec) => {
                &&& draws.len() > 0
                &&& Material::draws_for(&ray, &rec, draws[0].0, draws[0].1)
                &&& match Material::scatter_with(&ray, &rec, draws[0].0, draws[0].1) {
                    None => true,
                    Some((_, scattered)) => follows(scattered, world, depth - 1, draws.drop_first()),
                }
            },
        }
    }
}

/// Light dimmed by the colours of the surfaces that a ray has met, in the
/// order in which it met them: `a[0] * (a[1] * (... * light))`.
pub open spec fn dimmed(attenuations: Seq<Color>, light: Color) -> Color
    decreases attenuations.len(),
{
    if attenuations.len() == 0 {
        light
    } else {
        attenuations.first() * dimmed(attenuations.drop_first(), light)
    }
}

/// The surface met last dims the light before all the others do.
proof fn lemma_dimmed_push(attenuations: Seq<Color>, last: Color, light: Color)
    ensures
        dimmed(attenuations.push(last), light) == dimmed(attenuations, last * light),
    decreases attenuations.len(),
{
    let longer = attenuations.push(last);
    if attenuations.len() == 0 {
        assert(longer.first() == last);
        assert(longer.drop_first().len() == 0);
        assert(dimmed(longer.drop_first(), light) == light);
    } else {
        assert(longer.first() == attenuations.first());
        assert(longer.drop_first() =~= attenuations.drop_first().push(last));
        lemma_dimmed_push(attenuations.drop_first(), last, light);
    }
}

/// The light dimmed by each of the colours in turn, from the last to the
/// first.
fn dim(attenuations: &Vec<Color>, light: Color) -> (c: Color)
    ensures
        c == dimmed(attenuations@, light),
{
    let mut dim_light = light;
    let mut k = attenuations.len();
    proof {
        assert(attenuations@.take(k as int) =~= attenuations@);
    }
    while k > 0
        invariant
            k <= attenuations.len(),
            dimmed(attenuations@.take(k as int), dim_light) == dimmed(attenuations@, light),
        decreases k,
    {
        k = k - 1;
        proof {
            assert(attenuations@.take(k + 1) =~= attenuations@.take(k as int).push(
                attenuations@[k as int],
            ));
            lemma_dimmed_push(attenuations@.take(k as int), attenuations@[k as int], dim_light);
        }
        dim_light = attenuations[k] * dim_light;
    }
    proof {
        assert(attenuations@.take(0).len() == 0);
    }
    dim_light
}

/// The light that arrives along a ray when the random draws of the bounces
/// are given, the first bounce taking the first pair of `draws`.
pub fn ray_color_with(r: &Ray, world: &HittableList, depth: i32, draws: &Vec<(Vec3, Double)>) -> (c:
    Color)
    ensures
        c == radiance(*r, world, depth as int, draws@),
{
    let zero = Double::from_bits(0);
    let mut attenuations: Vec<Color> = Vec::new();
    let mut current = *r;
    let mut left = depth;
    let mut next: usize = 0;
    let mut light = Color::new(zero, zero, zero);
    proof {
        assert(draws@.skip(0) =~= draws@);
    }
    loop
        invariant_except_break
            light == black(),
        invariant
            next <= draws.len(),
            radiance(*r, world, depth as int, draws@) == dimmed(
                attenuations@,
                radiance(current, world, left as int, draws@.skip(next as int)),
            ),
        ensures
            light == radiance(current, world, left as int, draws@.skip(next as int)),
        decreases left,
    {
        if left <= 0 {
            break ;
        }
        match world.hit(&current, Double::from_bits(T_MIN), Double::from_bits(INFINITY_BITS)) {
            None => {
                light = sky(&current);
                break ;
            },
            Some(rec) => {
                if next >= draws.len() {
                    break ;
                }
                let (sample, coin) = draws[next];
                proof {
                    assert(draws@.skip(next as int)[0] == draws@[next as int]);
                    assert(draws@.skip(next as int).drop_first() =~= draws@.skip(next + 1));
                }
                match Material::scatter_with(&current, &rec, sample, coin) {
                    None => {
                        break ;
                    },
                    Some((attenuation, scattered)) => {
                        proof {
                            lemma_dimmed_push(
                                attenuations@,
                                attenuation,
                                radiance(scattered, world, left - 1, draws@.skip(next + 1)),
                            );
                        }
                        attenuations.push(attenuation);
                        current = scattered;
                        left = left - 1;
                        next = next + 1;
                    },
                }
            },
        }
    }
    dim(&attenuations, light)
}

/// The light that arrives along a ray when at most `depth` bounces are
/// followed. With no bounce left there is none, whatever the scene holds.
///
/// The ray is followed in a loop that keeps the colours of the surfaces it
/// has left; the light found at the end is then dimmed by them from the last
/// to the first, so that no call is nested however many bounces there are.
pub fn ray_color(r: &Ray, world: &HittableList, depth: i32) -> (c: Color)
    ensures
        depth <= 0 ==> c == black(),
        depth > 0 && world.hit(r, Double::from_bits(T_MIN), Double::from_bits(INFINITY_BITS))
            is None ==> c == sky(r),
        exists|draws: Seq<(Vec3, Double)>|
            follows(*r, world, depth as int, draws) && c == #[trigger] radiance(
                *r,
                world,
                depth as int,
                draws,
            ),
{
    let zero = Double::from_bits(0);
    let mut attenuations: Vec<Color> = Vec::new();
    let mut current = *r;
    let mut left = depth;
    let mut light = Color::new(zero, zero, zero);
    let ghost mut used = Seq::<(Vec3, Double)>::empty();
    let ghost mut rest = Seq::<(Vec3, Double)>::empty();
    proof {
        assert forall|tail: Seq<(Vec3, Double)>| used + tail == tail by {
            assert(used + tail =~= tail);
        }
    }
    loop
        invariant_except_break
            light == black(),
            forall|tail: Seq<(Vec3, Double)>|
                radiance(*r, world, depth as int, used + tail) == dimmed(
                    attenuations@,
                    #[trigger] radiance(current, world, left as int, tail),
                ),
            forall|tail: Seq<(Vec3, Double)>| #[trigger]
                follows(current, world, left as int, tail) ==> follows(
                    *r,
                    world,
                    depth as int,
                    used + tail,
                ),
        ensures
            follows(*r, world, depth as int, used + rest),
            radiance(*r, world, depth as int, used + rest) == dimmed(attenuations@, light),
        decreases left,
    {
        if left <= 0 {
            proof {
                rest = Seq::empty();
                assert(follows(current, world, left as int, rest));
                assert(light == radiance(current, world, left as int, rest));
            }
            break ;
        }
        match world.hit(&current, Double::from_bits(T_MIN), Double::from_bits(INFINITY_BITS)) {
            None => {
                light = sky(&current);
                proof {
                    rest = Seq::empty();
                    assert(follows(current, world, left as int, rest));
                    assert(light == radiance(current, world, left as int, rest));
                }
                break ;
            },
            Some(rec) => {
                let scattering = Material::scatter(&current, &rec);
                let ghost (sample, coin) = choose|sample: Vec3, coin: Double|
                    Material::draws_for(&current, &rec, sample, coin) && scattering
                        == #[trigger] Material::scatter_with(&current, &rec, sample, coin);
                let ghost drawn = seq![(sample, coin)];
                match scattering {
                    None => {
                        proof {
                            rest = drawn;
                            assert(follows(current, world, left as int, rest));
                            assert(light == radiance(current, world, left as int, rest));
                        }
                        break ;
                    },
                    Some((attenuation, scattered)) => {
                        proof {
                            assert forall|tail: Seq<(Vec3, Double)>|
                                radiance(*r, world, depth as int, used.push((sample, coin)) + tail)
                                    == dimmed(
                                    attenuations@.push(attenuation),
                                    #[trigger] radiance(scattered, world, left - 1, tail),
                                ) by {
                                let longer = drawn + tail;
                                assert(longer.drop_first() =~= tail);
                                assert(used.push((sample, coin)) + tail =~= used + longer);
                                assert(radiance(current, world, left as int, longer) == attenuation
                                    * radiance(scattered, world, left - 1, tail));
                                lemma_dimmed_push(
                                    attenuations@,
                                    attenuation,
                                    radiance(scattered, world, left - 1, tail),
                                );
                            }
                            assert forall|tail: Seq<(Vec3, Double)>| #[trigger]
                                follows(scattered, world, left - 1, tail) implies follows(
                                *r,
                                world,
                                depth as int,
                                used.push((sample, coin)) + tail,
                            ) by {
                                let longer = drawn + tail;
                                assert(longer.drop_first() =~= tail);
                                assert(used.push((sample, coin)) + tail =~= used + longer);
                                assert(follows(current, world, left as int, longer));
                            }
                            used = used.push((sample, coin));
                        }
                        attenuations.push(attenuation);
                        current = scattered;
                        left = left - 1;
                    },
                }
            },
        }
    }
    let c = dim(&attenuations, light);
    proof {
        assert(c == radiance(*r, world, depth as int, used + rest));
    }
    c
}

pub open spec fn spec_pixel_coordinate(index: i32, jitter: Double, extent: i32) -> Double {
    (Double::from_i32(index) + jitter) / (Double::from_i32(extent) - Double::from_bits(ONE))
}

/// Where across the picture a sample of the pixel in column or row `index`
/// lies, as a share of the extent of the picture in pixels: the pixel's
/// index plus the jitter within it, over the extent less one.
#[verifier::when_used_as_spec(spec_pixel_coordinate)]
pub fn pixel_coordinate(index: i32, jitter: Double, extent: i32) -> (r: Double)
    ensures
        r == pixel_coordinate(index, jitter, extent),
{
    (Double::from_i32(index) + jitter) / (Double::from_i32(extent) - Double::from_bits(ONE))
}

/// Whether `c` can be one sample of the pixel in column `i` of row `j`: the
/// light along a ray that the camera sends through a jittered place within
/// the pixel.
pub open spec fn is_pixel_sample(
    c: Color,
    cam: &Camera,
    world: &HittableList,
    i: i32,
    j: i32,
    image_width: i32,
    image_height: i32,
    max_depth: i32,
) -> bool {
    exists|du: Double, dv: Double, lens: Vec3, draws: Seq<(Vec3, Double)>|
        {
            let ray = cam.get_ray_through(
                pixel_coordinate(i, du, image_width),
                pixel_coordinate(j, dv, image_height),
                lens,
            );
            &&& is_unit_draw(du)
            &&& is_unit_draw(dv)
            &&& lens.is_disk_sample()
            &&& follows(ray, world, max_depth as int, draws)
            &&& c == #[trigger] radiance(
                cam.get_ray_through(
                    pixel_coordinate(i, du, image_width),
                    pixel_coordinate(j, dv, image_height),
                    lens,
                ),
                world,
                max_depth as int,
                draws,
            )
        }
}

/// One sample of the pixel in column `i` of row `j`.
pub fn pixel_sample(
    cam: &Camera,
    world: &HittableList,
    i: i32,
    j: i32,
    image_width: i32,
    image_height: i32,
    max_depth: i32,
) -> (c: Color)
    ensures
        is_pixel_sample(c, cam, world, i, j, image_width, image_height, max_depth),
        max_depth <= 0 ==> c == black(),
{
    let du = random_double();
    let u = pixel_coordinate(i, du, image_width);
    let dv = random_double();
    let v = pixel_coordinate(j, dv, image_height);
    let r = cam.get_ray(u, v);
    let c = ray_color(&r, world, max_depth);
    proof {
        let lens = choose|lens: Vec3|
            lens.is_disk_sample() && r == #[trigger] cam.get_ray_through(u, v, lens);
        let draws = choose|draws: Seq<(Vec3, Double)>|
            follows(r, world, max_depth as int, draws) && c == #[trigger] radiance(
                r,
                world,
                max_depth as int,
                draws,
            );
        assert(c == radiance(
            cam.get_ray_through(
                pixel_coordinate(i, du, image_width),
                pixel_coordinate(j, dv, image_height),
                lens,
            ),
            world,
            max_depth as int,
            draws,
        ));
    }
    c
}

/// The colour of the pixel in column `i` of row `j` before it is averaged:
/// the sum of `samples_per_pixel` samples, added one by one onto black.
pub fn pixel_color(
    cam: &Camera,
    world: &HittableList,
    i: i32,
    j: i32,
    image_width: i32,
    image_height: i32,
    samples_per_pixel: i32,
    max_depth: i32,
) -> (c: Color)
    ensures
        exists|samples: Seq<Color>|
            {
                &&& samples.len() == if samples_per_pixel > 0 {
                    samples_per_pixel as int
                } else {
                    0
                }
                &&& forall|k: int|
                    0 <= k < samples.len() ==> is_pixel_sample(
                        #[trigger] samples[k],
                        cam,
                        world,
                        i,
                        j,
                        image_width,
                        image_height,
                        max_depth,
                    )
                &&& c == #[trigger] Vec3::spec_sum(samples)
            },
{
    let mut total = Vec3::default();
    let ghost mut samples = Seq::<Color>::empty();
    let mut taken: i32 = 0;
    while taken < samples_per_pixel
        invariant
            0 <= taken,
            taken <= samples_per_pixel || taken == 0,
            samples.len() == taken,
            forall|k: int|
                0 <= k < samples.len() ==> is_pixel_sample(
                    #[trigger] samples[k],
                    cam,
                    world,
                    i,
                    j,
                    image_width,
                    image_height,
                    max_depth,
                ),
            total == Vec3::spec_sum(samples),
        decreases samples_per_pixel - taken,
    {
        let sample = pixel_sample(cam, world, i, j, image_width, image_height, max_depth);
        proof {
            assert(samples.push(sample).drop_last() =~= samples);
            samples = samples.push(sample);
        }
        total = total + sample;
        taken = taken + 1;
    }
    proof {
        assert(samples.len() == if samples_per_pixel > 0 {
            samples_per_pixel as int
        } else {
            0
        });
        assert(total == Vec3::spec_sum(samples));
    }
    total
}

} // verus!
