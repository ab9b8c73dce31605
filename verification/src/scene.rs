//! The scene of many small spheres scattered round three large ones.

use crate::double::{Double, HALF, ONE, SEVEN_TENTHS};
use crate::hittable::Hittable;
use crate::hittable_list::HittableList;
use crate::material::Material;
use crate::rtweekend::{is_unit_draw, lerp, random_double, random_double_range};
use crate::vec3::{Color, Point3, Vec3};
use vstd::prelude::*;

verus! {

/// The pattern of 0.9.
pub const NINE_TENTHS: u64 = 0x3FEC_CCCC_CCCC_CCCD;

/// The pattern of 0.2.
pub const ONE_FIFTH: u64 = 0x3FC9_9999_9999_999A;

/// The pattern of 0.8.
pub const FOUR_FIFTHS: u64 = 0x3FE9_9999_9999_999A;

/// The pattern of 0.95.
pub const NINETEEN_TWENTIETHS: u64 = 0x3FEE_6666_6666_6666;

/// The pattern of 1.5, the refractive index of glass.
pub const GLASS: u64 = 0x3FF8_0000_0000_0000;

/// The pattern of 4.0.
pub const FOUR: u64 = 0x4010_0000_0000_0000;

/// The pattern of -4.0.
pub const MINUS_FOUR: u64 = 0xC010_0000_0000_0000;

/// The pattern of 1000.0.
pub const THOUSAND: u64 = 0x408F_4000_0000_0000;

/// The pattern of -1000.0.
pub const MINUS_THOUSAND: u64 = 0xC08F_4000_0000_0000;

/// The pattern of 0.4.
pub const TWO_FIFTHS: u64 = 0x3FD9_9999_9999_999A;

/// The pattern of 0.1.
pub const ONE_TENTH: u64 = 0x3FB9_9999_9999_999A;

/// The pattern of 0.6.
pub const THREE_FIFTHS: u64 = 0x3FE3_3333_3333_3333;

/// The small spheres stand on a grid of this many cells a side.
pub const GRID: i32 = 22;

pub open spec fn spec_point(x: u64, y: u64, z: u64) -> Vec3 {
    Vec3::new(Double::from_bits(x), Double::from_bits(y), Double::from_bits(z))
}

/// The vector whose components have the given patterns.
#[verifier::when_used_as_spec(spec_point)]
pub fn point(x: u64, y: u64, z: u64) -> (p: Vec3)
    ensures
        p == point(x, y, z),
{
    Vec3::new(Double::from_bits(x), Double::from_bits(y), Double::from_bits(z))
}

pub open spec fn spec_ground() -> Hittable {
    Hittable::Sphere {
        center: point(0, MINUS_THOUSAND, 0),
        radius: Double::from_bits(THOUSAND),
        material: Material::Lambertian { albedo: point(HALF, HALF, HALF) },
    }
}

/// The grey sphere of radius 1000 on whose top the scene stands.
#[verifier::when_used_as_spec(spec_ground)]
pub fn ground() -> (r: Hittable)
    ensures
        r == ground(),
{
    Hittable::Sphere {
        center: point(0, MINUS_THOUSAND, 0),
        radius: Double::from_bits(THOUSAND),
        material: Material::Lambertian { albedo: point(HALF, HALF, HALF) },
    }
}

/// The three large spheres in the middle of the scene: one of glass, one
/// matt and brown, one a clear mirror.
pub open spec fn centerpieces() -> Seq<Hittable> {
    seq![
        Hittable::Sphere {
            center: point(0, ONE, 0),
            radius: Double::from_bits(ONE),
            material: Material::Dielectric { ir: Double::from_bits(GLASS) },
        },
        Hittable::new_sphere(
            point(MINUS_FOUR, ONE, 0),
            Double::from_bits(ONE),
            Material::Lambertian { albedo: point(TWO_FIFTHS, ONE_FIFTH, ONE_TENTH) },
        ),
        Hittable::new_sphere(
            point(FOUR, ONE, 0),
            Double::from_bits(ONE),
            Material::Metal {
                albedo: point(SEVEN_TENTHS, THREE_FIFTHS, HALF),
                fuzz: Double::from_bits(0),
            },
        ),
    ]
}

pub open spec fn spec_cell_center(a: i32, b: i32, dx: Double, dz: Double) -> Point3 {
    Vec3::new(
        Double::from_i32(a) + Double::from_bits(NINE_TENTHS) * dx,
        Double::from_bits(ONE_FIFTH),
        Double::from_i32(b) + Double::from_bits(NINE_TENTHS) * dz,
    )
}

/// Where the small sphere of the cell `(a, b)` stands when its two draws
/// from `[0, 1)` come out as `dx` and `dz`: on the ground, up to 0.9 from
/// the cell's corner along either axis.
#[verifier::when_used_as_spec(spec_cell_center)]
pub fn cell_center(a: i32, b: i32, dx: Double, dz: Double) -> (center: Point3)
    ensures
        center == cell_center(a, b, dx, dz),
{
    Vec3::new(
        Double::from_i32(a) + Double::from_bits(NINE_TENTHS) * dx,
        Double::from_bits(ONE_FIFTH),
        Double::from_i32(b) + Double::from_bits(NINE_TENTHS) * dz,
    )
}

pub open spec fn spec_is_clear(center: Point3) -> bool {
    (center - point(FOUR, ONE_FIFTH, 0)).length().gt(Double::from_bits(NINE_TENTHS))
}

/// Whether a small sphere at `center` keeps clear of the large sphere at
/// `(4, 1, 0)`: it stands more than 0.9 from the point `(4, 0.2, 0)`.
#[verifier::when_used_as_spec(spec_is_clear)]
pub fn is_clear(center: Point3) -> (r: bool)
    ensures
        r == is_clear(center),
{
    (center - point(FOUR, ONE_FIFTH, 0)).length().gt(Double::from_bits(NINE_TENTHS))
}

/// Whether `material` can be drawn for a small sphere when the draw that
/// chooses its kind comes out as `choose_mat`: below 0.8 a matt surface
/// whose colour is the product of two random colours; from there to below
/// 0.95 a mirror with a random colour from `[0.5, 1)^3` and a fuzz from
/// `[0, 0.5)`; else glass.
pub open spec fn is_small_material(choose_mat: Double, material: Material) -> bool {
    if choose_mat.lt(Double::from_bits(FOUR_FIFTHS)) {
        exists|p: Color, q: Color|
            p.is_unit_draws() && q.is_unit_draws() && material == (Material::Lambertian {
                albedo: #[trigger] (p * q),
            })
    } else if choose_mat.lt(Double::from_bits(NINETEEN_TWENTIETHS)) {
        exists|u: Vec3, f: Double|
            u.is_unit_draws() && is_unit_draw(f) && material == (Material::Metal {
                albedo: #[trigger] Vec3::lerp(Double::from_bits(HALF), Double::from_bits(ONE), u),
                fuzz: #[trigger] lerp(Double::from_bits(0), Double::from_bits(HALF), f),
            })
    } else {
        material == (Material::Dielectric { ir: Double::from_bits(GLASS) })
    }
}

/// Draws the material of a small sphere whose kind `choose_mat` decides.
pub fn small_material(choose_mat: Double) -> (material: Material)
    ensures
        is_small_material(choose_mat, material),
{
    if choose_mat.lt(Double::from_bits(FOUR_FIFTHS)) {
        // diffuse
        let p = Color::random();
        let q = Color::random();
        let albedo = p * q;
        proof {
            assert(p.is_unit_draws() && q.is_unit_draws() && albedo == p * q);
        }
        Material::Lambertian { albedo }
    } else if choose_mat.lt(Double::from_bits(NINETEEN_TWENTIETHS)) {
        // metal
        let albedo = Color::random_range(Double::from_bits(HALF), Double::from_bits(ONE));
        let fuzz = random_double_range(Double::from_bits(0), Double::from_bits(HALF));
        proof {
            let u = choose|u: Vec3|
                u.is_unit_draws() && albedo == #[trigger] Vec3::lerp(
                    Double::from_bits(HALF),
                    Double::from_bits(ONE),
                    u,
                );
            let f = choose|f: Double|
                is_unit_draw(f) && fuzz == #[trigger] lerp(
                    Double::from_bits(0),
                    Double::from_bits(HALF),
                    f,
                );
            assert(albedo == Vec3::lerp(Double::from_bits(HALF), Double::from_bits(ONE), u));
            assert(fuzz == lerp(Double::from_bits(0), Double::from_bits(HALF), f));
        }
        Material::Metal { albedo, fuzz }
    } else {
        // glass
        Material::Dielectric { ir: Double::from_bits(GLASS) }
    }
}

/// Whether `outcome` can be what the cell `(a, b)` adds to the scene: a
/// sphere of radius 0.2 at a random place within the cell with a random
/// material, or nothing where that place does not keep clear.
pub open spec fn is_cell_outcome(a: i32, b: i32, outcome: Option<Hittable>) -> bool {
    exists|dx: Double, dz: Double|
        {
            &&& is_unit_draw(dx)
            &&& is_unit_draw(dz)
            &&& if is_clear(#[trigger] cell_center(a, b, dx, dz)) {
                &&& outcome matches Some(Hittable::Sphere { center, radius, material })
                &&& center == cell_center(a, b, dx, dz)
                &&& radius == Double::from_bits(ONE_FIFTH)
                &&& exists|choose_mat: Double|
                    is_unit_draw(choose_mat) && #[trigger] is_small_material(choose_mat, material)
            } else {
                outcome is None
            }
        }
}

/// Draws what the cell `(a, b)` adds to the scene.
pub fn random_cell(a: i32, b: i32) -> (outcome: Option<Hittable>)
    ensures
        is_cell_outcome(a, b, outcome),
{
    let choose_mat = random_double();
    let dx = random_double();
    let dz = random_double();
    let center = cell_center(a, b, dx, dz);
    if is_clear(center) {
        let sphere_material = small_material(choose_mat);
        proof {
            assert(is_unit_draw(choose_mat) && is_small_material(choose_mat, sphere_material));
            assert(is_clear(cell_center(a, b, dx, dz)));
        }
        Some(
            Hittable::Sphere {
                center,
                radius: Double::from_bits(ONE_FIFTH),
                material: sphere_material,
            },
        )
    } else {
        proof {
            assert(!is_clear(cell_center(a, b, dx, dz)));
        }
        None
    }
}

/// The shapes that a row of cells adds, in the order of the cells.
pub open spec fn placed(outcomes: Seq<Option<Hittable>>) -> Seq<Hittable>
    decreases outcomes.len(),
{
    if outcomes.len() == 0 {
        Seq::empty()
    } else {
        match outcomes.last() {
            Some(shape) => placed(outcomes.drop_last()).push(shape),
            None => placed(outcomes.drop_last()),
        }
    }
}

/// Whether `outcomes` can be what the cells of the grid add, row by row:
/// the cell `(a, b)`, both from -11 to 10, comes at `(a + 11) * 22 + b + 11`.
pub open spec fn is_grid_outcome(outcomes: Seq<Option<Hittable>>) -> bool {
    &&& outcomes.len() == GRID * GRID
    &&& forall|k: int|
        0 <= k < outcomes.len() ==> is_cell_outcome(
            (k / (GRID as int) - 11) as i32,
            (k % (GRID as int) - 11) as i32,
            #[trigger] outcomes[k],
        )
}

/// Builds the scene: the ground, then for each cell of the grid a small
/// sphere with a random place and material, unless it would touch the
/// large mirror, then a large sphere each of glass, of matt brown and of
/// mirror.
pub fn random_scene() -> (world: HittableList)
    ensures
        exists|outcomes: Seq<Option<Hittable>>|
            is_grid_outcome(outcomes) && world@ == seq![ground()] + #[trigger] placed(outcomes)
                + centerpieces(),
{
    let mut world = HittableList::new(Vec::new());
    world.add(ground());
    let ghost mut outcomes = Seq::<Option<Hittable>>::empty();
    let mut a: i32 = -11;
    while a < 11
        invariant
            -11 <= a <= 11,
            outcomes.len() == (a + 11) * GRID,
            forall|k: int|
                0 <= k < outcomes.len() ==> is_cell_outcome(
                    (k / (GRID as int) - 11) as i32,
                    (k % (GRID as int) - 11) as i32,
                    #[trigger] outcomes[k],
                ),
            world@ == seq![ground()] + placed(outcomes),
        decreases 11 - a,
    {
        let mut b: i32 = -11;
        while b < 11
            invariant
                -11 <= a < 11,
                -11 <= b <= 11,
                outcomes.len() == (a + 11) * GRID + (b + 11),
                forall|k: int|
                    0 <= k < outcomes.len() ==> is_cell_outcome(
                        (k / (GRID as int) - 11) as i32,
                        (k % (GRID as int) - 11) as i32,
                        #[trigger] outcomes[k],
                    ),
                world@ == seq![ground()] + placed(outcomes),
            decreases 11 - b,
        {
            let outcome = random_cell(a, b);
            proof {
                let k = outcomes.len() as int;
                assert(k / (GRID as int) == a + 11 && k % (GRID as int) == b + 11);
                assert(outcomes.push(outcome).drop_last() =~= outcomes);
                if let Some(shape) = outcome {
                    assert((seq![ground()] + placed(outcomes)).push(shape) =~= seq![ground()]
                        + placed(outcomes).push(shape));
                }
                outcomes = outcomes.push(outcome);
            }
            if let Some(shape) = outcome {
                world.add(shape);
            }
            b = b + 1;
        }
        a = a + 1;
    }
    let material1 = Material::Dielectric { ir: Double::from_bits(GLASS) };
    world.add(
        Hittable::Sphere {
            center: point(0, ONE, 0),
            radius: Double::from_bits(ONE),
            material: material1,
        },
    );
    let material2 = Material::Lambertian { albedo: point(TWO_FIFTHS, ONE_FIFTH, ONE_TENTH) };
    world.add(Hittable::new_sphere(point(MINUS_FOUR, ONE, 0), Double::from_bits(ONE), material2));
    let material3 = Material::Metal {
        albedo: point(SEVEN_TENTHS, THREE_FIFTHS, HALF),
        fuzz: Double::from_bits(0),
    };
    world.add(Hittable::new_sphere(point(FOUR, ONE, 0), Double::from_bits(ONE), material3));
    proof {
        assert(world@ =~= seq![ground()] + placed(outcomes) + centerpieces());
        assert(is_grid_outcome(outcomes));
    }
    world
}

} // verus!
