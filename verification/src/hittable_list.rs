//! A scene: shapes in the order in which they were added.

use crate::double::Double;
use crate::hittable::{HitRecord, Hittable};
use crate::ray::Ray;
use crate::sphere::admits;
use vstd::prelude::*;

verus! {

pub struct HittableList {
    objects: Vec<Hittable>,
}

impl View for HittableList {
    type V = Seq<Hittable>;

    closed spec fn view(&self) -> Seq<Hittable> {
        self.objects@
    }
}

impl Default for HittableList {
    /// The empty scene.
    fn default() -> (r: HittableList)
        ensures
            r@ == Seq::<Hittable>::empty(),
    {
        HittableList { objects: Vec::new() }
    }
}

/// How far a ray has been followed through a row of shapes, each tried only
/// up to the nearest meeting before it: the parameter of the nearest meeting
/// so far, or `t_max` where there is none yet, and its record.
pub open spec fn sweep(objects: Seq<Hittable>, ray: &Ray, t_min: Double, t_max: Double) -> (
    Double,
    Option<HitRecord>,
)
    decreases objects.len(),
{
    if objects.len() == 0 {
        (t_max, None)
    } else {
        let (closest_so_far, rec) = sweep(objects.drop_last(), ray, t_min, t_max);
        match objects.last().hit(ray, t_min, closest_so_far) {
            Some(hit) => (hit.t, Some(hit)),
            None => (closest_so_far, rec),
        }
    }
}

impl HittableList {
    /// The scene of the given shapes, in their order.
    pub fn new(objects: Vec<Hittable>) -> (r: HittableList)
        ensures
            r@ == objects@,
    {
        HittableList { objects }
    }

    /// The shapes of the scene, in their order.
    pub fn objects(&self) -> (r: &Vec<Hittable>)
        ensures
            r@ == self@,
    {
        &self.objects
    }

    /// Adds a shape behind those that are there.
    pub fn add(&mut self, hittable: Hittable)
        ensures
            final(self)@ == old(self)@.push(hittable),
    {
        self.objects.push(hittable);
    }

    /// Removes every shape.
    pub fn clear(&mut self)
        ensures
            final(self)@ == Seq::<Hittable>::empty(),
    {
        self.objects.clear();
    }

    /// Whether the parameters at which the ray can meet any shape of the
    /// scene are numbers.
    pub open spec fn has_definite_roots(&self, ray: &Ray) -> bool {
        forall|k: int| 0 <= k < self@.len() ==> (#[trigger] self@[k]).has_definite_roots(ray)
    }

    /// Tests whether the parameters at which the ray can meet any shape of
    /// the scene are numbers.
    pub fn has_definite_roots_at(&self, ray: &Ray) -> (r: bool)
        ensures
            r == self.has_definite_roots(ray),
    {
        let mut i: usize = 0;
        while i < self.objects.len()
            invariant
                i <= self.objects.len(),
                forall|k: int| 0 <= k < i ==> (#[trigger] self@[k]).has_definite_roots(ray),
            decreases self.objects.len() - i,
        {
            if !self.objects[i].has_definite_roots_at(ray) {
                assert(!self@[i as int].has_definite_roots(ray));
                return false;
            }
            i = i + 1;
        }
        true
    }

    /// Whether the parameters at which the ray can meet any shape of the
    /// scene are numbers in their order.
    pub open spec fn has_ordered_roots(&self, ray: &Ray) -> bool {
        forall|k: int| 0 <= k < self@.len() ==> (#[trigger] self@[k]).has_ordered_roots(ray)
    }

    /// Tests whether the parameters at which the ray can meet any shape of
    /// the scene are numbers in their order.
    pub fn has_ordered_roots_at(&self, ray: &Ray) -> (r: bool)
        ensures
            r == self.has_ordered_roots(ray),
    {
        let mut i: usize = 0;
        while i < self.objects.len()
            invariant
                i <= self.objects.len(),
                forall|k: int| 0 <= k < i ==> (#[trigger] self@[k]).has_ordered_roots(ray),
            decreases self.objects.len() - i,
        {
            if !self.objects[i].has_ordered_roots_at(ray) {
                assert(!self@[i as int].has_ordered_roots(ray));
                return false;
            }
            i = i + 1;
        }
        true
    }

    /// Whether no two different shapes of the scene, each tried alone, meet
    /// the ray in the interval at the same parameter.
    pub open spec fn meets_apart(&self, ray: &Ray, t_min: Double, t_max: Double) -> bool {
        forall|i: int, j: int|
            0 <= i < self@.len() && 0 <= j < self@.len() && (#[trigger] self@[i])
                != (#[trigger] self@[j]) ==> (self@[i].hit(ray, t_min, t_max) matches Some(one)
                ==> (self@[j].hit(ray, t_min, t_max) matches Some(two) ==> !one.t.same_value(
                two.t,
            )))
    }

    pub open spec fn spec_hit(&self, ray: &Ray, t_min: Double, t_max: Double) -> Option<HitRecord> {
        sweep(self@, ray, t_min, t_max).1
    }

    /// The meeting of the ray with the scene that is nearest to the ray's
    /// origin among those at a parameter that the interval from `t_min` to
    /// `t_max` admits, if there is one.
    #[verifier::when_used_as_spec(spec_hit)]
    pub fn hit(&self, ray: &Ray, t_min: Double, t_max: Double) -> (r: Option<HitRecord>)
        ensures
            r == self.hit(ray, t_min, t_max),
            self@.len() == 0 ==> r.is_none(),
            r matches Some(rec) ==> rec.is_oriented(ray),
    {
        let mut closest_so_far = t_max;
        let mut rec: Option<HitRecord> = None;
        let mut i: usize = 0;
        while i < self.objects.len()
            invariant
                i <= self.objects.len(),
                (closest_so_far, rec) == sweep(self@.take(i as int), ray, t_min, t_max),
                rec matches Some(found) ==> found.is_oriented(ray),
            decreases self.objects.len() - i,
        {
            proof {
                assert(self@.take(i + 1).drop_last() =~= self@.take(i as int));
            }
            match self.objects[i].hit(ray, t_min, closest_so_far) {
                Some(hit) => {
                    closest_so_far = hit.t;
                    rec = Some(hit);
                },
                None => {},
            }
            i = i + 1;
        }
        proof {
            assert(self@.take(i as int) =~= self@);
        }
        rec
    }
}

/// What following a ray through a row of shapes keeps true, where no bound
/// and no root is a NaN.
proof fn lemma_sweep(objects: Seq<Hittable>, ray: &Ray, t_min: Double, t_max: Double)
    requires
        !t_min.is_nan(),
        !t_max.is_nan(),
        forall|j: int| 0 <= j < objects.len() ==> (#[trigger] objects[j]).has_definite_roots(ray),
    ensures
        ({
            let (closest, best) = sweep(objects, ray, t_min, t_max);
            &&& !closest.is_nan()
            &&& closest.le(t_max)
            &&& best is None ==> closest == t_max
            &&& best matches Some(rec) ==> rec.t == closest
            &&& forall|j: int|
                0 <= j < objects.len() ==> ((#[trigger] objects[j]).hit(ray, t_min, t_max) matches Some(
                    alone,
                ) ==> best is Some && closest.le(alone.t))
        }),
    decreases objects.len(),
{
    if objects.len() > 0 {
        let before = objects.drop_last();
        assert forall|j: int| 0 <= j < before.len() implies (#[trigger] before[j]).has_definite_roots(
            ray,
        ) by {
            assert(before[j] == objects[j]);
        }
        lemma_sweep(before, ray, t_min, t_max);
        let (closest, best) = sweep(objects, ray, t_min, t_max);
        assert forall|j: int| 0 <= j < objects.len() implies ((#[trigger] objects[j]).hit(
            ray,
            t_min,
            t_max,
        ) matches Some(alone) ==> best is Some && closest.le(alone.t)) by {
            if j < before.len() {
                assert(before[j] == objects[j]);
            }
        }
    }
}

/// Where a shape of the scene, tried alone, reports a meeting with the ray
/// in an interval, the scene reports one too, and at a parameter that is not
/// larger: no shape hides a nearer meeting, whatever the order of the shapes.
/// This is stated for bounds and roots that are numbers; a NaN compares as
/// neither smaller nor larger, and nothing is nearest then.
pub proof fn lemma_hit_is_nearest(
    world: &HittableList,
    ray: &Ray,
    t_min: Double,
    t_max: Double,
    j: int,
)
    requires
        !t_min.is_nan(),
        !t_max.is_nan(),
        world.has_definite_roots(ray),
        0 <= j < world@.len(),
        world@[j].hit(ray, t_min, t_max) is Some,
    ensures
        world.hit(ray, t_min, t_max) is Some,
        world.hit(ray, t_min, t_max).unwrap().t.le(world@[j].hit(ray, t_min, t_max).unwrap().t),
{
    lemma_sweep(world@, ray, t_min, t_max);
}

/// What the scene reports is a meeting of the ray with one of its shapes, at
/// a root of that shape's quadratic which the interval admits.
pub proof fn lemma_hit_is_a_meeting(world: &HittableList, ray: &Ray, t_min: Double, t_max: Double)
    requires
        !t_min.is_nan(),
        !t_max.is_nan(),
        world.has_definite_roots(ray),
    ensures
        world.hit(ray, t_min, t_max) matches Some(rec) ==> admits(t_min, t_max, rec.t) && exists|
            j: int,
        |
            0 <= j < world@.len() && (#[trigger] world@[j]).meets_at(ray, rec.t, rec),
{
    lemma_sweep_is_a_meeting(world@, ray, t_min, t_max);
}

proof fn lemma_sweep_is_a_meeting(objects: Seq<Hittable>, ray: &Ray, t_min: Double, t_max: Double)
    requires
        !t_min.is_nan(),
        !t_max.is_nan(),
        forall|k: int| 0 <= k < objects.len() ==> (#[trigger] objects[k]).has_definite_roots(ray),
    ensures
        sweep(objects, ray, t_min, t_max).1 matches Some(rec) ==> admits(t_min, t_max, rec.t)
            && exists|j: int|
            0 <= j < objects.len() && (#[trigger] objects[j]).meets_at(ray, rec.t, rec),
    decreases objects.len(),
{
    if objects.len() > 0 {
        let before = objects.drop_last();
        assert forall|k: int| 0 <= k < before.len() implies (#[trigger] before[k]).has_definite_roots(
            ray,
        ) by {
            assert(before[k] == objects[k]);
        }
        lemma_sweep(before, ray, t_min, t_max);
        lemma_sweep_is_a_meeting(before, ray, t_min, t_max);
        let (closest_so_far, found) = sweep(before, ray, t_min, t_max);
        match objects.last().hit(ray, t_min, closest_so_far) {
            Some(hit) => {
                let last = objects.len() - 1;
                assert(objects[last].meets_at(ray, hit.t, hit));
            },
            None => {
                if let Some(rec) = found {
                    let j = choose|j: int|
                        0 <= j < before.len() && (#[trigger] before[j]).meets_at(ray, rec.t, rec);
                    assert(before[j] == objects[j]);
                    assert(objects[j].meets_at(ray, rec.t, rec));
                }
            },
        }
    }
}

/// What the scene reports is what one of its shapes reports when tried
/// alone in the whole interval, where the roots of each shape are numbers in
/// their order.
proof fn lemma_sweep_is_own_hit(objects: Seq<Hittable>, ray: &Ray, t_min: Double, t_max: Double)
    requires
        !t_min.is_nan(),
        !t_max.is_nan(),
        forall|k: int| 0 <= k < objects.len() ==> (#[trigger] objects[k]).has_ordered_roots(ray),
    ensures
        sweep(objects, ray, t_min, t_max).1 matches Some(rec) ==> exists|j: int|
            0 <= j < objects.len() && (#[trigger] objects[j]).hit(ray, t_min, t_max) == Some(rec),
    decreases objects.len(),
{
    if objects.len() > 0 {
        let before = objects.drop_last();
        assert forall|k: int| 0 <= k < before.len() implies (#[trigger] before[k]).has_ordered_roots(
            ray,
        ) && before[k].has_definite_roots(ray) by {
            assert(before[k] == objects[k]);
        }
        lemma_sweep(before, ray, t_min, t_max);
        lemma_sweep_is_own_hit(before, ray, t_min, t_max);
        let (closest_so_far, found) = sweep(before, ray, t_min, t_max);
        match objects.last().hit(ray, t_min, closest_so_far) {
            Some(hit) => {
                let last = objects.len() - 1;
                assert(objects[last].hit(ray, t_min, t_max) == Some(hit));
            },
            None => {
                if let Some(rec) = found {
                    let j = choose|j: int|
                        0 <= j < before.len() && (#[trigger] before[j]).hit(ray, t_min, t_max)
                            == Some(rec);
                    assert(before[j] == objects[j]);
                    assert(objects[j].hit(ray, t_min, t_max) == Some(rec));
                }
            },
        }
    }
}

/// Two scenes of the same shapes in another order report a meeting with a
/// ray in an interval together or not at all, and at the same parameter.
/// Where no two shapes meet the ray at the same parameter they report the
/// same meeting altogether. This is stated for bounds that are numbers and
/// for shapes whose roots are numbers in their order.
pub proof fn lemma_hit_is_order_independent(
    world: &HittableList,
    other: &HittableList,
    ray: &Ray,
    t_min: Double,
    t_max: Double,
)
    requires
        !t_min.is_nan(),
        !t_max.is_nan(),
        world.has_ordered_roots(ray),
        forall|k: int| 0 <= k < world@.len() ==> other@.contains(#[trigger] world@[k]),
        forall|k: int| 0 <= k < other@.len() ==> world@.contains(#[trigger] other@[k]),
    ensures
        world.hit(ray, t_min, t_max) is Some <==> other.hit(ray, t_min, t_max) is Some,
        world.hit(ray, t_min, t_max) matches Some(rec) ==> rec.t.same_value(
            other.hit(ray, t_min, t_max).unwrap().t,
        ),
        world.meets_apart(ray, t_min, t_max) ==> world.hit(ray, t_min, t_max) == other.hit(
            ray,
            t_min,
            t_max,
        ),
{
    assert forall|k: int| 0 <= k < other@.len() implies (#[trigger] other@[k]).has_ordered_roots(
        ray,
    ) by {
        let i = choose|i: int| 0 <= i < world@.len() && world@[i] == other@[k];
        assert(world@[i].has_ordered_roots(ray));
    }
    lemma_sweep(world@, ray, t_min, t_max);
    lemma_sweep(other@, ray, t_min, t_max);
    lemma_sweep_is_own_hit(world@, ray, t_min, t_max);
    lemma_sweep_is_own_hit(other@, ray, t_min, t_max);
    if let Some(rec) = world.hit(ray, t_min, t_max) {
        let j = choose|j: int|
            0 <= j < world@.len() && (#[trigger] world@[j]).hit(ray, t_min, t_max) == Some(rec);
        let k = choose|k: int| 0 <= k < other@.len() && other@[k] == world@[j];
        assert(other@[k].hit(ray, t_min, t_max) == Some(rec));
    }
    if let Some(rec) = other.hit(ray, t_min, t_max) {
        let j = choose|j: int|
            0 <= j < other@.len() && (#[trigger] other@[j]).hit(ray, t_min, t_max) == Some(rec);
        let k = choose|k: int| 0 <= k < world@.len() && world@[k] == other@[j];
        assert(world@[k].hit(ray, t_min, t_max) == Some(rec));
        if world.meets_apart(ray, t_min, t_max) {
            let mine = world.hit(ray, t_min, t_max).unwrap();
            let i = choose|i: int|
                0 <= i < world@.len() && (#[trigger] world@[i]).hit(ray, t_min, t_max) == Some(
                    mine,
                );
            assert(mine.t.same_value(rec.t));
            assert(world@[i] == world@[k]);
        }
    }
}

} // verus!
