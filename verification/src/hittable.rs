//! Surfaces that a ray can hit, and the scene that holds them.

use crate::fixed::Fixed;
use crate::material::{non_amplifying, Material};
use crate::ray::Ray;
use crate::vec3::Vec3;
use vstd::prelude::*;

verus! {

/// Where and how a ray meets a surface.
///
/// `normal` always points away from the surface's own centre; a material
/// tells the two sides apart by the sign of its dot product with the ray.
pub struct HitRecord<'a, M> {
    pub t: Fixed,
    pub normal: Vec3,
    pub point: Vec3,
    pub material: &'a M,
}

impl<'a, M> HitRecord<'a, M> {
    pub open spec fn spec_with_material<'b, N>(self, material: &'b N) -> HitRecord<'b, N> {
        HitRecord { t: self.t, normal: self.normal, point: self.point, material }
    }

    /// The same hit on a surface of another material.
    #[verifier::when_used_as_spec(spec_with_material)]
    pub fn with_material<'b, N>(self, material: &'b N) -> (r: HitRecord<'b, N>)
        ensures
            r == self.spec_with_material(material),
    {
        HitRecord { t: self.t, normal: self.normal, point: self.point, material }
    }
}

/// What is left of a hit once the far end of the range moves in to `bound`.
pub open spec fn narrowed<'a, M>(hit: Option<HitRecord<'a, M>>, bound: Fixed) -> Option<
    HitRecord<'a, M>,
> {
    match hit {
        Some(rec) => if rec.t@ < bound@ {
            Some(rec)
        } else {
            None
        },
        None => None,
    }
}

/// A surface that can be tested against a ray.
pub trait Hittable {
    /// The material that the surface's hits carry.
    type Mat: Material;

    /// The hit of `ray` with parameter strictly between `t_min` and
    /// `t_max`, if there is one.
    spec fn hit_spec(&self, ray: Ray, t_min: Fixed, t_max: Fixed) -> Option<
        HitRecord<'_, Self::Mat>,
    >;

    /// Tests `ray` against the surface.
    fn hit(&self, ray: Ray, t_min: Fixed, t_max: Fixed) -> (r: Option<HitRecord<'_, Self::Mat>>)
        ensures
            r == self.hit_spec(ray, t_min, t_max),
    ;

    /// A hit lies strictly inside the range that was asked for.
    proof fn hit_within_range(&self, ray: Ray, t_min: Fixed, t_max: Fixed)
        ensures
            self.hit_spec(ray, t_min, t_max) matches Some(rec) ==> t_min@ < rec.t@ < t_max@,
    ;

    /// Moving the far end of the range in keeps the hit if it is still
    /// inside, and otherwise leaves none: a surface never answers a
    /// narrower question with a hit it had passed over.
    proof fn hit_narrowed(&self, ray: Ray, t_min: Fixed, t_max: Fixed, bound: Fixed)
        requires
            bound@ <= t_max@,
        ensures
            self.hit_spec(ray, t_min, bound) == narrowed(self.hit_spec(ray, t_min, t_max), bound),
    ;
}

/// Whatever the surface is hit on never amplifies.
pub open spec fn passive<H: Hittable>(world: &H) -> bool {
    forall|ray: Ray, t_min: Fixed, t_max: Fixed|
        (#[trigger] world.hit_spec(ray, t_min, t_max)) matches Some(rec) ==> non_amplifying(
            rec.material,
        )
}

/// The best hit after the members of `list` were tried one by one, each
/// against the range that ends at the best hit so far.
pub open spec fn scan<'a, H: Hittable>(list: Seq<H>, ray: Ray, t_min: Fixed, t_max: Fixed) -> Option<
    HitRecord<'a, H::Mat>,
>
    decreases list.len(),
{
    if list.len() == 0 {
        None
    } else {
        let before = scan(list.drop_last(), ray, t_min, t_max);
        match list.last().hit_spec(ray, t_min, closest_so_far(before, t_max)) {
            Some(rec) => Some(rec),
            None => before,
        }
    }
}

/// The far end of the range that is left to search once `best` was found.
pub open spec fn closest_so_far<'a, M>(best: Option<HitRecord<'a, M>>, t_max: Fixed) -> Fixed {
    match best {
        Some(rec) => rec.t,
        None => t_max,
    }
}

/// `result` is what the members of `list` answer at their nearest: no hit
/// where no member has one in the range, and otherwise the hit of the
/// first member that no other member's hit lies nearer than.
pub open spec fn is_nearest_hit<'a, H: Hittable>(
    list: Seq<H>,
    ray: Ray,
    t_min: Fixed,
    t_max: Fixed,
    result: Option<HitRecord<'a, H::Mat>>,
) -> bool {
    match result {
        None => forall|i: int|
            0 <= i < list.len() ==> (#[trigger] list[i].hit_spec(ray, t_min, t_max)) is None,
        Some(rec) => exists|i: int|
            {
                &&& 0 <= i < list.len()
                &&& #[trigger] list[i].hit_spec(ray, t_min, t_max) == Some(rec)
                &&& forall|j: int|
                    0 <= j < list.len() ==> (#[trigger] list[j].hit_spec(ray, t_min, t_max) matches Some(
                        other,
                    ) ==> rec.t@ <= other.t@ && (j < i ==> rec.t@ < other.t@))
            },
    }
}

/// Scanning finds the nearest hit among the members.
pub proof fn lemma_scan_nearest<H: Hittable>(list: Seq<H>, ray: Ray, t_min: Fixed, t_max: Fixed)
    ensures
        is_nearest_hit(list, ray, t_min, t_max, scan(list, ray, t_min, t_max)),
        scan(list, ray, t_min, t_max) matches Some(rec) ==> t_min@ < rec.t@ < t_max@,
    decreases list.len(),
{
    if list.len() > 0 {
        let front = list.drop_last();
        let last = list.last();
        let before = scan(front, ray, t_min, t_max);
        let bound = closest_so_far(before, t_max);
        let result = scan(list, ray, t_min, t_max);
        lemma_scan_nearest(front, ray, t_min, t_max);
        last.hit_within_range(ray, t_min, t_max);
        last.hit_narrowed(ray, t_min, t_max, bound);
        assert forall|j: int| 0 <= j < front.len() implies list[j] == front[j] by {}
        assert(list[list.len() - 1] == last);
        match result {
            None => {
                assert forall|i: int| 0 <= i < list.len() implies (#[trigger] list[i].hit_spec(
                    ray,
                    t_min,
                    t_max,
                )) is None by {
                    if i < front.len() {
                        assert(front[i].hit_spec(ray, t_min, t_max) is None);
                    }
                }
            },
            Some(rec) => {
                let i = if last.hit_spec(ray, t_min, bound) is Some {
                    list.len() - 1
                } else {
                    choose|i: int|
                        {
                            &&& 0 <= i < front.len()
                            &&& #[trigger] front[i].hit_spec(ray, t_min, t_max) == Some(rec)
                            &&& forall|j: int|
                                0 <= j < front.len() ==> (#[trigger] front[j].hit_spec(
                                    ray,
                                    t_min,
                                    t_max,
                                ) matches Some(other) ==> rec.t@ <= other.t@ && (j < i ==> rec.t@
                                    < other.t@))
                        }
                };
                assert(list[i].hit_spec(ray, t_min, t_max) == Some(rec));
                assert forall|j: int| 0 <= j < list.len() implies (#[trigger] list[j].hit_spec(
                    ray,
                    t_min,
                    t_max,
                ) matches Some(other) ==> rec.t@ <= other.t@ && (j < i ==> rec.t@ < other.t@)) by {
                    if j < front.len() {
                        assert(front[j].hit_spec(ray, t_min, t_max) == list[j].hit_spec(
                            ray,
                            t_min,
                            t_max,
                        ));
                    }
                }
            },
        }
    }
}

/// Scanning a narrower range finds what scanning the wider one found, if
/// that is still inside.
pub proof fn lemma_scan_narrowed<H: Hittable>(
    list: Seq<H>,
    ray: Ray,
    t_min: Fixed,
    t_max: Fixed,
    bound: Fixed,
)
    requires
        bound@ <= t_max@,
    ensures
        scan(list, ray, t_min, bound) == narrowed(scan(list, ray, t_min, t_max), bound),
    decreases list.len(),
{
    if list.len() > 0 {
        let front = list.drop_last();
        let last = list.last();
        let wide = scan(front, ray, t_min, t_max);
        let narrow = scan(front, ray, t_min, bound);
        lemma_scan_narrowed(front, ray, t_min, t_max, bound);
        lemma_scan_nearest(front, ray, t_min, t_max);
        let wide_end = closest_so_far(wide, t_max);
        let narrow_end = closest_so_far(narrow, bound);
        last.hit_within_range(ray, t_min, t_max);
        last.hit_narrowed(ray, t_min, t_max, wide_end);
        last.hit_narrowed(ray, t_min, t_max, narrow_end);
    }
}

/// Every member of `part` is a member of `whole`.
pub open spec fn members_within<H>(part: Seq<H>, whole: Seq<H>) -> bool {
    forall|i: int| 0 <= i < part.len() ==> whole.contains(#[trigger] part[i])
}

/// The order of the members does not matter to how far the nearest hit
/// lies: two scenes of the same members are hit at the same distance, or
/// both not at all.
pub proof fn lemma_order_is_irrelevant<H: Hittable>(
    one: Seq<H>,
    other: Seq<H>,
    ray: Ray,
    t_min: Fixed,
    t_max: Fixed,
)
    requires
        members_within(one, other),
        members_within(other, one),
    ensures
        scan(one, ray, t_min, t_max) is Some <==> scan(other, ray, t_min, t_max) is Some,
        scan(one, ray, t_min, t_max) is Some ==> scan(one, ray, t_min, t_max)->0.t == scan(
            other,
            ray,
            t_min,
            t_max,
        )->0.t,
{
    lemma_no_farther_than_members(one, other, ray, t_min, t_max);
    lemma_no_farther_than_members(other, one, ray, t_min, t_max);
}

/// Where a scene is hit, a scene that has all its members is hit too, and
/// no farther away.
proof fn lemma_no_farther_than_members<H: Hittable>(
    part: Seq<H>,
    whole: Seq<H>,
    ray: Ray,
    t_min: Fixed,
    t_max: Fixed,
)
    requires
        members_within(part, whole),
    ensures
        scan(part, ray, t_min, t_max) matches Some(rec) ==> scan(whole, ray, t_min, t_max) is Some
            && scan(whole, ray, t_min, t_max)->0.t@ <= rec.t@,
{
    lemma_scan_nearest(part, ray, t_min, t_max);
    lemma_scan_nearest(whole, ray, t_min, t_max);
    if let Some(rec) = scan(part, ray, t_min, t_max) {
        let i = choose|i: int|
            0 <= i < part.len() && #[trigger] part[i].hit_spec(ray, t_min, t_max) == Some(rec);
        assert(whole.contains(part[i]));
        let j = choose|j: int| 0 <= j < whole.len() && whole[j] == part[i];
        assert(whole[j].hit_spec(ray, t_min, t_max) == Some(rec));
    }
}

/// A scene: surfaces in the order in which they were added.
pub struct HittableList<H: Hittable> {
    pub list: Vec<H>,
}

impl<H: Hittable> View for HittableList<H> {
    type V = Seq<H>;

    open spec fn view(&self) -> Seq<H> {
        self.list@
    }
}

impl<H: Hittable> Default for HittableList<H> {
    /// The empty scene.
    fn default() -> (r: HittableList<H>)
        ensures
            r@ == Seq::<H>::empty(),
    {
        HittableList { list: Vec::new() }
    }
}

impl<H: Hittable> HittableList<H> {
    /// A scene whose members never amplify never amplifies.
    pub proof fn lemma_passive(&self)
        requires
            forall|i: int| 0 <= i < self@.len() ==> passive(&#[trigger] self@[i]),
        ensures
            passive(self),
    {
        assert forall|ray: Ray, t_min: Fixed, t_max: Fixed|
            (#[trigger] self.hit_spec(ray, t_min, t_max)) is Some implies non_amplifying(
            self.hit_spec(ray, t_min, t_max)->0.material,
        ) by {
            lemma_scan_nearest(self@, ray, t_min, t_max);
            let rec = self.hit_spec(ray, t_min, t_max)->0;
            let i = choose|i: int|
                0 <= i < self@.len() && #[trigger] self@[i].hit_spec(ray, t_min, t_max) == Some(rec);
            assert(passive(&self@[i]));
        }
    }

    /// Adds `hittable` behind the surfaces that the scene already holds.
    pub fn push(&mut self, hittable: H)
        ensures
            final(self)@ == old(self)@.push(hittable),
    {
        self.list.push(hittable);
    }
}

impl<H: Hittable> Hittable for HittableList<H> {
    type Mat = H::Mat;

    open spec fn hit_spec(&self, ray: Ray, t_min: Fixed, t_max: Fixed) -> Option<
        HitRecord<'_, H::Mat>,
    > {
        scan(self@, ray, t_min, t_max)
    }

    /// Tests `ray` against every member and keeps the nearest hit.
    fn hit(&self, ray: Ray, t_min: Fixed, t_max: Fixed) -> (r: Option<HitRecord<'_, H::Mat>>)
        ensures
            is_nearest_hit(self@, ray, t_min, t_max, r),
    {
        let mut closest_so_far = t_max;
        let mut hit_anything: Option<HitRecord<'_, H::Mat>> = None;
        let mut i: usize = 0;
        while i < self.list.len()
            invariant
                i <= self.list.len(),
                hit_anything == scan(self@.take(i as int), ray, t_min, t_max),
                closest_so_far == self::closest_so_far(hit_anything, t_max),
            decreases self.list.len() - i,
        {
            assert(self@.take(i + 1).drop_last() == self@.take(i as int));
            if let Some(hit) = self.list[i].hit(ray, t_min, closest_so_far) {
                closest_so_far = hit.t;
                hit_anything = Some(hit);
            }
            i += 1;
        }
        proof {
            assert(self@.take(i as int) == self@);
            lemma_scan_nearest(self@, ray, t_min, t_max);
        }
        hit_anything
    }

    proof fn hit_within_range(&self, ray: Ray, t_min: Fixed, t_max: Fixed) {
        lemma_scan_nearest(self@, ray, t_min, t_max);
    }

    proof fn hit_narrowed(&self, ray: Ray, t_min: Fixed, t_max: Fixed, bound: Fixed) {
        lemma_scan_narrowed(self@, ray, t_min, t_max, bound);
    }
}

} // verus!
