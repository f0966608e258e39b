//! Spheres that carry a material.

use crate::fixed::{
    lemma_div_monotone, lemma_sqrt_nonnegative, lemma_square_nonnegative, Fixed,
};
use crate::hittable::{passive, HitRecord, Hittable};
use crate::material::{non_amplifying, Material};
use crate::ray::Ray;
use crate::vec3::Vec3;
use vstd::prelude::*;

verus! {

/// A sphere and the material of its surface.
pub struct Sphere<M: Material> {
    pub pos: Vec3,
    pub radius: Fixed,
    pub material: M,
}

impl<M: Material> Sphere<M> {
    pub open spec fn spec_new(position: Vec3, radius: Fixed, material: M) -> Sphere<M> {
        Sphere { pos: position, radius, material }
    }

    /// The sphere of the given radius around `position`.
    #[verifier::when_used_as_spec(spec_new)]
    pub fn new(position: Vec3, radius: Fixed, material: M) -> (r: Sphere<M>)
        ensures
            r == Sphere::spec_new(position, radius, material),
    {
        Sphere { pos: position, radius, material }
    }

    pub open spec fn spec_pos(&self) -> Vec3 {
        self.pos
    }

    /// The centre.
    #[verifier::when_used_as_spec(spec_pos)]
    pub fn pos(&self) -> (r: Vec3)
        ensures
            r == self.pos,
    {
        self.pos
    }

    pub open spec fn spec_radius(&self) -> Fixed {
        self.radius
    }

    /// The radius.
    #[verifier::when_used_as_spec(spec_radius)]
    pub fn radius(&self) -> (r: Fixed)
        ensures
            r == self.radius,
    {
        self.radius
    }

    /// The two parameters at which `ray` crosses the sphere, nearer
    /// first: the roots of `a t^2 + 2 b t + c = 0`.  `None` where the
    /// discriminant is negative, and for a direction too short to have
    /// a squared length.
    pub open spec fn roots(&self, ray: Ray) -> Option<(Fixed, Fixed)> {
        let oc = ray.origin.sub(self.pos);
        let a = ray.direction.dot(ray.direction);
        let b = oc.dot(ray.direction);
        let c = oc.dot(oc).sub(self.radius.mul(self.radius));
        let discriminant = b.mul(b).sub(a.mul(c));
        if a@ == 0 || discriminant@ < 0 {
            None
        } else {
            let root = discriminant.sqrt();
            Some((b.neg().sub(root).div(a), b.neg().add(root).div(a)))
        }
    }

    /// The nearer root is not beyond the farther one.
    pub proof fn roots_ordered(&self, ray: Ray)
        ensures
            self.roots(ray) matches Some((near, far)) ==> near@ <= far@,
    {
        let d = ray.direction;
        let oc = ray.origin.sub(self.pos);
        let a = d.dot(d);
        let b = oc.dot(d);
        let c = oc.dot(oc).sub(self.radius.mul(self.radius));
        let discriminant = b.mul(b).sub(a.mul(c));
        if a@ != 0 && discriminant@ >= 0 {
            lemma_square_nonnegative(d.x);
            lemma_square_nonnegative(d.y);
            lemma_square_nonnegative(d.z);
            lemma_sqrt_nonnegative(discriminant);
            let root = discriminant.sqrt();
            lemma_div_monotone(b.neg().sub(root), b.neg().add(root), a);
        }
    }

    /// Of the two crossings the nearer one inside the range is hit: the
    /// nearer root if it lies inside, else the farther root if that does,
    /// and else nothing.  The hit lies on the ray, and its normal points
    /// from the centre to it.
    pub proof fn lemma_nearest_root(&self, ray: Ray, t_min: Fixed, t_max: Fixed)
        ensures
            match self.hit_spec(ray, t_min, t_max) {
                Some(rec) => {
                    &&& self.roots(ray) matches Some((near, far))
                    &&& rec.t == near || rec.t == far
                    &&& t_min@ < rec.t@ < t_max@
                    &&& t_min@ < near@ < t_max@ ==> rec.t == near
                    &&& rec.point == ray.point_when_at(rec.t)
                    &&& rec.normal == rec.point.sub(self.pos).unscale(self.radius)
                    &&& rec.material == &self.material
                },
                None => self.roots(ray) matches Some((near, far)) ==> !(t_min@ < near@ < t_max@) && !(
                t_min@ < far@ < t_max@),
            },
    {
    }

    /// A sphere of a material that never amplifies never amplifies.
    pub proof fn lemma_passive(&self)
        requires
            non_amplifying(&self.material),
        ensures
            passive(self),
    {
    }

    /// The record of a hit at parameter `t`.
    pub open spec fn record_at(&self, ray: Ray, t: Fixed) -> HitRecord<'_, M> {
        let point = ray.point_when_at(t);
        HitRecord { t, normal: point.sub(self.pos).unscale(self.radius), point, material: &self.material }
    }
}

impl<M: Material> Hittable for Sphere<M> {
    type Mat = M;

    open spec fn hit_spec(&self, ray: Ray, t_min: Fixed, t_max: Fixed) -> Option<
        HitRecord<'_, M>,
    > {
        match self.roots(ray) {
            Some((near, far)) => {
                if t_min@ < near@ < t_max@ {
                    Some(self.record_at(ray, near))
                } else if t_min@ < far@ < t_max@ {
                    Some(self.record_at(ray, far))
                } else {
                    None
                }
            },
            None => None,
        }
    }

    fn hit(&self, ray: Ray, t_min: Fixed, t_max: Fixed) -> (r: Option<HitRecord<'_, M>>) {
        let oc = ray.origin().sub(self.pos());
        let a = ray.direction().dot(ray.direction());
        let b = oc.dot(ray.direction());
        let c = oc.dot(oc).sub(self.radius().mul(self.radius()));
        let discriminant = b.mul(b).sub(a.mul(c));
        if a.raw != 0 && discriminant.raw >= 0 {
            let root = discriminant.sqrt();
            let t = b.neg().sub(root).div(a);
            if t.raw < t_max.raw && t.raw > t_min.raw {
                let point = ray.point_when_at(t);
                let normal = point.sub(self.pos()).unscale(self.radius);
                return Some(HitRecord { t, point, normal, material: &self.material });
            }
            let t = b.neg().add(root).div(a);
            if t.raw < t_max.raw && t.raw > t_min.raw {
                let point = ray.point_when_at(t);
                let normal = point.sub(self.pos()).unscale(self.radius);
                return Some(HitRecord { t, point, normal, material: &self.material });
            }
        }
        None
    }

    proof fn hit_within_range(&self, ray: Ray, t_min: Fixed, t_max: Fixed) {
    }

    proof fn hit_narrowed(&self, ray: Ray, t_min: Fixed, t_max: Fixed, bound: Fixed) {
        self.roots_ordered(ray);
    }
}

} // verus!
