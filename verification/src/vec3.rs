//! Three doubles, read as a point, a direction or a colour.

use crate::double::{Double, EPSILON, MINUS_ONE, ONE, TWO};
use crate::rtweekend::{is_unit_draw, lerp, random_double, random_double_range};
use vstd::prelude::*;

verus! {

pub type Color = Vec3;

pub type Point3 = Vec3;

#[derive(Debug, Copy, Clone)]
pub struct Vec3 {
    pub x: Double,
    pub y: Double,
    pub z: Double,
}

impl Default for Vec3 {
    /// The vector of three positive zeros.
    fn default() -> (r: Vec3)
        ensures
            r == Vec3::zero(),
    {
        Vec3 { x: Double::from_bits(0), y: Double::from_bits(0), z: Double::from_bits(0) }
    }
}

impl Vec3 {
    /// The vector of three positive zeros.
    pub open spec fn zero() -> Vec3 {
        Vec3 { x: Double::from_bits(0), y: Double::from_bits(0), z: Double::from_bits(0) }
    }

    /// Whether every component is one of the two zeros.
    pub open spec fn is_zero(self) -> bool {
        self.x.is_zero() && self.y.is_zero() && self.z.is_zero()
    }

    /// Whether no component is an infinity or a NaN.
    pub open spec fn is_finite(self) -> bool {
        self.x.is_finite() && self.y.is_finite() && self.z.is_finite()
    }

    /// Whether two vectors agree component by component in the number they
    /// hold, or in holding none.
    pub open spec fn same_value(self, other: Vec3) -> bool {
        &&& self.x.same_value(other.x)
        &&& self.y.same_value(other.y)
        &&& self.z.same_value(other.z)
    }

    pub open spec fn spec_new(x: Double, y: Double, z: Double) -> Vec3 {
        Vec3 { x, y, z }
    }

    #[verifier::when_used_as_spec(spec_new)]
    pub fn new(x: Double, y: Double, z: Double) -> (r: Vec3)
        ensures
            r == Vec3::new(x, y, z),
    {
        Vec3 { x, y, z }
    }

    pub open spec fn spec_add(self, other: Vec3) -> Vec3 {
        Vec3 { x: self.x + other.x, y: self.y + other.y, z: self.z + other.z }
    }

    pub open spec fn spec_sub(self, other: Vec3) -> Vec3 {
        Vec3 { x: self.x - other.x, y: self.y - other.y, z: self.z - other.z }
    }

    /// The product component by component, as a colour tints another.
    pub open spec fn spec_mul(self, other: Vec3) -> Vec3 {
        Vec3 { x: self.x * other.x, y: self.y * other.y, z: self.z * other.z }
    }

    /// What `/` between a vector and a double means in a specification.
    pub open spec fn spec_euclidean_or_real_div(self, other: Double) -> Vec3 {
        Vec3 { x: self.x / other, y: self.y / other, z: self.z / other }
    }

    /// Each component times `k`, the component on the left.
    pub open spec fn times(self, k: Double) -> Vec3 {
        Vec3 { x: self.x * k, y: self.y * k, z: self.z * k }
    }

    /// Each component times `k`, the component on the right.
    pub open spec fn scaled_by(self, k: Double) -> Vec3 {
        Vec3 { x: k * self.x, y: k * self.y, z: k * self.z }
    }

    pub open spec fn spec_neg(self) -> Vec3 {
        Vec3 { x: self.x.neg(), y: self.y.neg(), z: self.z.neg() }
    }

    /// The vector with the sign of each component flipped.
    #[verifier::when_used_as_spec(spec_neg)]
    pub fn neg(self) -> (r: Vec3)
        ensures
            r == self.neg(),
    {
        Vec3 { x: self.x.neg(), y: self.y.neg(), z: self.z.neg() }
    }

    pub open spec fn spec_dot(&self, other: &Vec3) -> Double {
        self.x * other.x + self.y * other.y + self.z * other.z
    }

    #[verifier::when_used_as_spec(spec_dot)]
    pub fn dot(&self, other: &Vec3) -> (r: Double)
        ensures
            r == self.dot(other),
            (self.is_zero() && other.is_finite()) || (self.is_finite() && other.is_zero())
                ==> r.is_zero(),
    {
        self.x * other.x + self.y * other.y + self.z * other.z
    }

    pub open spec fn spec_squared_length(&self) -> Double {
        self.dot(self)
    }

    #[verifier::when_used_as_spec(spec_squared_length)]
    pub fn squared_length(&self) -> (r: Double)
        ensures
            r == self.squared_length(),
            self.is_zero() ==> r.is_zero(),
    {
        self.dot(self)
    }

    pub open spec fn spec_length(&self) -> Double {
        self.dot(self).sqrt()
    }

    /// The length, which is a zero for a vector of zeros.
    #[verifier::when_used_as_spec(spec_length)]
    pub fn length(&self) -> (r: Double)
        ensures
            r == self.length(),
            self.is_zero() ==> r.is_zero(),
    {
        self.dot(self).sqrt()
    }

    pub open spec fn spec_unit_vector(&self) -> Vec3 {
        self.times(Double::from_bits(ONE) / self.length())
    }

    /// This vector scaled by the inverse of its length. Of a vector of length
    /// zero the components come out as NaN.
    #[verifier::when_used_as_spec(spec_unit_vector)]
    pub fn unit_vector(&self) -> (r: Vec3)
        ensures
            r == self.unit_vector(),
    {
        let k = Double::from_bits(ONE) / self.length();
        Vec3 { x: self.x * k, y: self.y * k, z: self.z * k }
    }

    pub open spec fn spec_cross(&self, other: &Vec3) -> Vec3 {
        Vec3 {
            x: self.y * other.z - self.z * other.y,
            y: self.z * other.x - self.x * other.z,
            z: self.x * other.y - self.y * other.x,
        }
    }

    #[verifier::when_used_as_spec(spec_cross)]
    pub fn cross(&self, other: &Vec3) -> (r: Vec3)
        ensures
            r == self.cross(other),
    {
        Vec3 {
            x: self.y * other.z - self.z * other.y,
            y: self.z * other.x - self.x * other.z,
            z: self.x * other.y - self.y * other.x,
        }
    }

    pub open spec fn spec_near_zero(&self) -> bool {
        &&& self.x.abs().lt(Double::from_bits(EPSILON))
        &&& self.y.abs().lt(Double::from_bits(EPSILON))
        &&& self.z.abs().lt(Double::from_bits(EPSILON))
    }

    /// Whether every component is smaller in magnitude than the gap between
    /// 1.0 and the next double.
    #[verifier::when_used_as_spec(spec_near_zero)]
    pub fn near_zero(&self) -> (r: bool)
        ensures
            r == self.near_zero(),
    {
        let s = Double::from_bits(EPSILON);
        self.x.abs().lt(s) && self.y.abs().lt(s) && self.z.abs().lt(s)
    }

    pub open spec fn spec_reflect(&self, n: &Vec3) -> Vec3 {
        *self - n.scaled_by(Double::from_bits(TWO) * self.dot(n))
    }

    /// This vector mirrored at the plane whose normal is `n`:
    /// `v - 2 (v . n) n`.
    #[verifier::when_used_as_spec(spec_reflect)]
    pub fn reflect(&self, n: &Vec3) -> (r: Vec3)
        ensures
            r == self.reflect(n),
    {
        *self - Double::from_bits(TWO) * self.dot(n) * *n
    }

    /// The part of the refracted direction that lies across the normal.
    pub open spec fn refract_perpendicular(&self, n: &Vec3, etai_over_etat: Double) -> Vec3 {
        let cos_theta = self.neg().dot(n).min(Double::from_bits(ONE));
        (*self + n.scaled_by(cos_theta)).scaled_by(etai_over_etat)
    }

    pub open spec fn spec_refract(&self, n: &Vec3, etai_over_etat: Double) -> Vec3 {
        let perpendicular = self.refract_perpendicular(n, etai_over_etat);
        let parallel = n.scaled_by(
            (Double::from_bits(ONE) - perpendicular.squared_length()).abs().sqrt().neg(),
        );
        perpendicular + parallel
    }

    /// This unit direction bent on entering a surface with unit normal `n`,
    /// by Snell's law with the given ratio of refractive indices.
    #[verifier::when_used_as_spec(spec_refract)]
    pub fn refract(&self, n: &Vec3, etai_over_etat: Double) -> (r: Vec3)
        ensures
            r == self.refract(n, etai_over_etat),
    {
        let cos_theta = self.neg().dot(n).min(Double::from_bits(ONE));
        let r_out_perp = etai_over_etat * (*self + cos_theta * *n);
        let r_out_parallel = (Double::from_bits(ONE) - r_out_perp.squared_length()).abs().sqrt().neg()
            * *n;
        r_out_perp + r_out_parallel
    }
}

impl Vec3 {
    /// Whether each component is a value that a uniform draw from `[0, 1)`
    /// can take.
    pub open spec fn is_unit_draws(self) -> bool {
        is_unit_draw(self.x) && is_unit_draw(self.y) && is_unit_draw(self.z)
    }

    /// A vector of three uniform draws from `[0, 1)`.
    pub fn random() -> (r: Vec3)
        ensures
            r.is_unit_draws(),
    {
        Vec3 { x: random_double(), y: random_double(), z: random_double() }
    }

    /// The point of the box `[min, max)^3` that three draws from `[0, 1)`
    /// stand for.
    pub open spec fn spec_lerp(min: Double, max: Double, u: Vec3) -> Vec3 {
        Vec3 { x: lerp(min, max, u.x), y: lerp(min, max, u.y), z: lerp(min, max, u.z) }
    }

    #[verifier::when_used_as_spec(spec_lerp)]
    pub fn lerp(min: Double, max: Double, u: Vec3) -> (r: Vec3)
        ensures
            r == Vec3::lerp(min, max, u),
    {
        Vec3 { x: lerp(min, max, u.x), y: lerp(min, max, u.y), z: lerp(min, max, u.z) }
    }

    /// A vector of three uniform draws from `[min, max)`.
    pub fn random_range(min: Double, max: Double) -> (r: Vec3)
        ensures
            exists|u: Vec3| u.is_unit_draws() && r == #[trigger] Vec3::lerp(min, max, u),
    {
        let r = Vec3 {
            x: random_double_range(min, max),
            y: random_double_range(min, max),
            z: random_double_range(min, max),
        };
        proof {
            let ux = choose|u: Double| is_unit_draw(u) && r.x == #[trigger] lerp(min, max, u);
            let uy = choose|u: Double| is_unit_draw(u) && r.y == #[trigger] lerp(min, max, u);
            let uz = choose|u: Double| is_unit_draw(u) && r.z == #[trigger] lerp(min, max, u);
            let u = Vec3 { x: ux, y: uy, z: uz };
            assert(u.is_unit_draws() && r == Vec3::lerp(min, max, u));
        }
        r
    }

    pub open spec fn spec_inside_unit_ball(&self) -> bool {
        !self.squared_length().ge(Double::from_bits(ONE))
    }

    /// Whether rejection sampling keeps this candidate: its squared length is
    /// not 1 or more.
    #[verifier::when_used_as_spec(spec_inside_unit_ball)]
    pub fn inside_unit_ball(&self) -> (r: bool)
        ensures
            r == self.inside_unit_ball(),
    {
        !self.squared_length().ge(Double::from_bits(ONE))
    }

    /// Whether a vector can come out of `random_in_unit_sphere`: a candidate
    /// that rejection sampling keeps, or the zero vector, which stands in
    /// only where `u64::MAX` candidates have been drawn and every one of
    /// them has been rejected.
    pub open spec fn is_ball_sample(self) -> bool {
        ||| self.is_ball_candidate() && self.inside_unit_ball()
        ||| self == Vec3::zero() && exists|rejected: Seq<Vec3>|
            #[trigger] rejected.len() == u64::MAX && forall|i: int|
                0 <= i < rejected.len() ==> {
                    &&& (#[trigger] rejected[i]).is_ball_candidate()
                    &&& !rejected[i].inside_unit_ball()
                }
    }

    /// A uniform point of the unit ball, by rejection from the cube around
    /// it: candidates are drawn from `[-1, 1)^3`, one after the other, and
    /// the first whose squared length is not 1 or more is returned. Should
    /// `u64::MAX` candidates in a row be rejected, the zero vector stands in.
    pub fn random_in_unit_sphere() -> (p: Vec3)
        ensures
            p.is_ball_sample(),
    {
        let mut attempts_left: u64 = u64::MAX;
        let ghost mut rejected = Seq::<Vec3>::empty();
        while attempts_left > 0
            invariant
                rejected.len() + attempts_left == u64::MAX,
                forall|i: int|
                    0 <= i < rejected.len() ==> {
                        &&& (#[trigger] rejected[i]).is_ball_candidate()
                        &&& !rejected[i].inside_unit_ball()
                    },
            decreases attempts_left,
        {
            let p = Vec3::random_range(Double::from_bits(MINUS_ONE), Double::from_bits(ONE));
            if p.inside_unit_ball() {
                return p;
            }
            proof {
                rejected = rejected.push(p);
            }
            attempts_left = attempts_left - 1;
        }
        Vec3::default()
    }

    /// Whether a vector can be a candidate of `random_in_unit_sphere`: three
    /// uniform draws from `[-1, 1)`.
    pub open spec fn is_ball_candidate(self) -> bool {
        exists|u: Vec3|
            u.is_unit_draws() && self == #[trigger] Vec3::lerp(
                Double::from_bits(MINUS_ONE),
                Double::from_bits(ONE),
                u,
            )
    }

    /// A random direction: a point of the unit ball, scaled to length 1.
    pub fn random_unit_vector() -> (r: Vec3)
        ensures
            exists|p: Vec3| p.is_ball_sample() && r == #[trigger] p.unit_vector(),
    {
        Vec3::random_in_unit_sphere().unit_vector()
    }

    /// A uniform point of the unit disk in the plane `z = 0`, by rejection:
    /// candidates are drawn from `[-1, 1)^2`, one after the other, and the
    /// first whose squared length is not 1 or more is returned. Should
    /// `u64::MAX` candidates in a row be rejected, the zero vector stands in.
    pub fn random_in_unit_disk() -> (p: Vec3)
        ensures
            p.is_disk_sample(),
    {
        let mut attempts_left: u64 = u64::MAX;
        let ghost mut rejected = Seq::<Vec3>::empty();
        while attempts_left > 0
            invariant
                rejected.len() + attempts_left == u64::MAX,
                forall|i: int|
                    0 <= i < rejected.len() ==> {
                        &&& (#[trigger] rejected[i]).is_disk_candidate()
                        &&& !rejected[i].inside_unit_ball()
                    },
            decreases attempts_left,
        {
            let p = Vec3::new(
                random_double_range(Double::from_bits(MINUS_ONE), Double::from_bits(ONE)),
                random_double_range(Double::from_bits(MINUS_ONE), Double::from_bits(ONE)),
                Double::from_bits(0),
            );
            if p.inside_unit_ball() {
                return p;
            }
            proof {
                rejected = rejected.push(p);
            }
            attempts_left = attempts_left - 1;
        }
        Vec3::default()
    }

    /// Whether a vector can be a candidate of `random_in_unit_disk`: two
    /// uniform draws from `[-1, 1)` beside a zero.
    pub open spec fn is_disk_candidate(self) -> bool {
        &&& self.z == Double::from_bits(0)
        &&& exists|u: Double|
            is_unit_draw(u) && self.x == #[trigger] lerp(
                Double::from_bits(MINUS_ONE),
                Double::from_bits(ONE),
                u,
            )
        &&& exists|u: Double|
            is_unit_draw(u) && self.y == #[trigger] lerp(
                Double::from_bits(MINUS_ONE),
                Double::from_bits(ONE),
                u,
            )
    }

    /// Whether a vector can come out of `random_in_unit_disk`: a candidate
    /// that rejection sampling keeps, or the zero vector, which stands in
    /// only where `u64::MAX` candidates have been drawn and every one of
    /// them has been rejected.
    pub open spec fn is_disk_sample(self) -> bool {
        ||| self.is_disk_candidate() && self.inside_unit_ball()
        ||| self == Vec3::zero() && exists|rejected: Seq<Vec3>|
            #[trigger] rejected.len() == u64::MAX && forall|i: int|
                0 <= i < rejected.len() ==> {
                    &&& (#[trigger] rejected[i]).is_disk_candidate()
                    &&& !rejected[i].inside_unit_ball()
                }
    }

    /// The sum of a sequence of vectors, added from the left onto the zero
    /// vector.
    pub open spec fn spec_sum(items: Seq<Vec3>) -> Vec3
        decreases items.len(),
    {
        if items.len() == 0 {
            Vec3::zero()
        } else {
            Vec3::spec_sum(items.drop_last()) + items.last()
        }
    }

    pub fn sum(items: &Vec<Vec3>) -> (r: Vec3)
        ensures
            r == Vec3::spec_sum(items@),
    {
        let mut total = Vec3::default();
        let mut i: usize = 0;
        while i < items.len()
            invariant
                i <= items.len(),
                total == Vec3::spec_sum(items@.take(i as int)),
            decreases items.len() - i,
        {
            proof {
                assert(items@.take(i + 1).drop_last() =~= items@.take(i as int));
            }
            total = total + items[i];
            i = i + 1;
        }
        proof {
            assert(items@.take(i as int) =~= items@);
        }
        total
    }
}

impl core::ops::Neg for Vec3 {
    type Output = Vec3;

    fn neg(self) -> (r: Vec3) {
        Vec3 { x: self.x.neg(), y: self.y.neg(), z: self.z.neg() }
    }
}

impl vstd::std_specs::ops::NegSpecImpl for Vec3 {
    open spec fn obeys_neg_spec() -> bool {
        true
    }

    open spec fn neg_req(self) -> bool {
        true
    }

    open spec fn neg_spec(self) -> Vec3 {
        self.spec_neg()
    }
}

impl core::ops::Add for Vec3 {
    type Output = Vec3;

    /// The sum, component by component. Adding a vector of zeros changes no
    /// component's number.
    fn add(self, other: Vec3) -> (r: Vec3)
        ensures
            other.is_zero() ==> r.same_value(self),
    {
        Vec3 { x: self.x + other.x, y: self.y + other.y, z: self.z + other.z }
    }
}

impl vstd::std_specs::ops::AddSpecImpl for Vec3 {
    open spec fn obeys_add_spec() -> bool {
        true
    }

    open spec fn add_req(self, other: Vec3) -> bool {
        true
    }

    open spec fn add_spec(self, other: Vec3) -> Vec3 {
        self + other
    }
}

impl core::ops::Sub for Vec3 {
    type Output = Vec3;

    fn sub(self, other: Vec3) -> (r: Vec3) {
        Vec3 { x: self.x - other.x, y: self.y - other.y, z: self.z - other.z }
    }
}

impl vstd::std_specs::ops::SubSpecImpl for Vec3 {
    open spec fn obeys_sub_spec() -> bool {
        true
    }

    open spec fn sub_req(self, other: Vec3) -> bool {
        true
    }

    open spec fn sub_spec(self, other: Vec3) -> Vec3 {
        self - other
    }
}

impl core::ops::Mul for Vec3 {
    type Output = Vec3;

    fn mul(self, other: Vec3) -> (r: Vec3) {
        Vec3 { x: self.x * other.x, y: self.y * other.y, z: self.z * other.z }
    }
}

impl vstd::std_specs::ops::MulSpecImpl for Vec3 {
    open spec fn obeys_mul_spec() -> bool {
        true
    }

    open spec fn mul_req(self, other: Vec3) -> bool {
        true
    }

    open spec fn mul_spec(self, other: Vec3) -> Vec3 {
        self * other
    }
}

impl core::ops::Mul<Double> for Vec3 {
    type Output = Vec3;

    fn mul(self, other: Double) -> (r: Vec3) {
        Vec3 { x: self.x * other, y: self.y * other, z: self.z * other }
    }
}

impl vstd::std_specs::ops::MulSpecImpl<Double> for Vec3 {
    open spec fn obeys_mul_spec() -> bool {
        true
    }

    open spec fn mul_req(self, other: Double) -> bool {
        true
    }

    open spec fn mul_spec(self, other: Double) -> Vec3 {
        self.times(other)
    }
}

impl core::ops::Mul<Vec3> for Double {
    type Output = Vec3;

    /// The vector scaled by this double. A zero times a finite vector is a
    /// vector of zeros.
    fn mul(self, other: Vec3) -> (r: Vec3)
        ensures
            self.is_zero() && other.is_finite() ==> r.is_zero(),
    {
        Vec3 { x: self * other.x, y: self * other.y, z: self * other.z }
    }
}

impl vstd::std_specs::ops::MulSpecImpl<Vec3> for Double {
    open spec fn obeys_mul_spec() -> bool {
        true
    }

    open spec fn mul_req(self, other: Vec3) -> bool {
        true
    }

    open spec fn mul_spec(self, other: Vec3) -> Vec3 {
        other.scaled_by(self)
    }
}

impl core::ops::Div<Double> for Vec3 {
    type Output = Vec3;

    fn div(self, other: Double) -> (r: Vec3) {
        Vec3 { x: self.x / other, y: self.y / other, z: self.z / other }
    }
}

impl vstd::std_specs::ops::DivSpecImpl<Double> for Vec3 {
    open spec fn obeys_div_spec() -> bool {
        true
    }

    open spec fn div_req(self, other: Double) -> bool {
        true
    }

    open spec fn div_spec(self, other: Double) -> Vec3 {
        self / other
    }
}

} // verus!
