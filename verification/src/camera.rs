//! The camera: from a place on the image to a ray into the scene.

use crate::fixed::{lemma_mul_one, lemma_mul_zero, Fixed};
use crate::random::{in_unit_disk, random_in_unit_disk};
use crate::ray::Ray;
use crate::vec3::Vec3;
use rand::rngs::StdRng;
use vstd::prelude::*;

verus! {

/// A thin-lens camera.
///
/// `u`, `v` and `w` span the camera's frame: `w` points from the scene to
/// the eye, `u` to the right and `v` up.  The viewport lies in the plane
/// of focus; `lower_left_corner` is its corner and `horizontal` and
/// `vertical` are its edges.
#[derive(Clone, Copy, Debug, PartialEq, Eq, Structural)]
pub struct Camera {
    pub origin: Vec3,
    pub lower_left_corner: Vec3,
    pub horizontal: Vec3,
    pub vertical: Vec3,
    pub u: Vec3,
    pub v: Vec3,
    pub w: Vec3,
    pub lens_radius: Fixed,
}

impl Camera {
    pub open spec fn spec_new(
        look_from: Vec3,
        look_at: Vec3,
        view_up: Vec3,
        half_fov_tangent: Fixed,
        aspect: Fixed,
        aperture: Fixed,
        focus_dist: Fixed,
    ) -> Camera {
        let half_height = half_fov_tangent.mul(focus_dist);
        let half_width = half_height.mul(aspect);
        let w = look_from.sub(look_at).normalize();
        let u = view_up.cross(w).normalize();
        let v = w.cross(u);
        Camera {
            origin: look_from,
            lower_left_corner: look_from.sub(u.scale(half_width)).sub(v.scale(half_height)).sub(
                w.scale(focus_dist),
            ),
            horizontal: u.scale(half_width.add(half_width)),
            vertical: v.scale(half_height.add(half_height)),
            u,
            v,
            w,
            lens_radius: aperture.div(Fixed::from_int(2)),
        }
    }

    /// The camera at `look_from` that looks at `look_at`, with `view_up`
    /// upwards in the image.
    ///
    /// `half_fov_tangent` is the tangent of half the vertical field of
    /// view, `aspect` the image's width over its height, `aperture` the
    /// diameter of the lens and `focus_dist` the distance of the plane
    /// that is in focus.
    #[verifier::when_used_as_spec(spec_new)]
    pub fn new(
        look_from: Vec3,
        look_at: Vec3,
        view_up: Vec3,
        half_fov_tangent: Fixed,
        aspect: Fixed,
        aperture: Fixed,
        focus_dist: Fixed,
    ) -> (r: Camera)
        ensures
            r == Camera::spec_new(
                look_from,
                look_at,
                view_up,
                half_fov_tangent,
                aspect,
                aperture,
                focus_dist,
            ),
    {
        let half_height = half_fov_tangent.mul(focus_dist);
        let half_width = half_height.mul(aspect);
        let w = look_from.sub(look_at).normalize();
        let u = view_up.cross(w).normalize();
        let v = w.cross(u);
        Camera {
            origin: look_from,
            lower_left_corner: look_from.sub(u.scale(half_width)).sub(v.scale(half_height)).sub(
                w.scale(focus_dist),
            ),
            horizontal: u.scale(half_width.add(half_width)),
            vertical: v.scale(half_height.add(half_height)),
            u,
            v,
            w,
            lens_radius: aperture.div(Fixed::from_int(2)),
        }
    }

    /// How far from the eye the ray through the point `lens` of the unit
    /// disk starts.
    pub open spec fn lens_offset(&self, lens: Vec3) -> Vec3 {
        let rd = lens.scale(self.lens_radius);
        self.u.scale(rd.x).add(self.v.scale(rd.y))
    }

    pub open spec fn spec_ray_through(&self, s: Fixed, t: Fixed, lens: Vec3) -> Ray {
        let offset = self.lens_offset(lens);
        Ray::new(
            self.origin.add(offset),
            self.lower_left_corner.add(self.horizontal.scale(s)).add(self.vertical.scale(t)).sub(
                self.origin,
            ).sub(offset),
        )
    }

    /// The ray towards the place `(s, t)` of the viewport, both in
    /// `[0, 1]` and counted from its lower left corner, that starts at
    /// the point `lens` of the lens.
    #[verifier::when_used_as_spec(spec_ray_through)]
    pub fn ray_through(&self, s: Fixed, t: Fixed, lens: Vec3) -> (r: Ray)
        ensures
            r == self.spec_ray_through(s, t, lens),
    {
        let rd = lens.scale(self.lens_radius);
        let offset = self.u.scale(rd.x).add(self.v.scale(rd.y));
        Ray::new(
            self.origin.add(offset),
            self.lower_left_corner.add(self.horizontal.scale(s)).add(self.vertical.scale(t)).sub(
                self.origin,
            ).sub(offset),
        )
    }

    /// A ray towards the place `(s, t)` of the viewport that starts at a
    /// point of the lens drawn from `rng`.  With no aperture every such
    /// ray starts at the eye.
    pub fn get_ray(&self, s: Fixed, t: Fixed, rng: &mut StdRng) -> (r: Ray)
        ensures
            exists|lens: Vec3| in_unit_disk(lens) && r == #[trigger] self.ray_through(s, t, lens),
            self.lens_radius@ == 0 ==> r == self.ray_through(s, t, Vec3::zeros()),
    {
        let lens = random_in_unit_disk(rng);
        proof {
            if self.lens_radius@ == 0 {
                self.lemma_pinhole(s, t, lens);
            }
        }
        self.ray_through(s, t, lens)
    }

    /// The point of the plane of focus that the rays towards `(s, t)` aim
    /// at.
    pub open spec fn target(&self, s: Fixed, t: Fixed) -> Vec3 {
        self.lower_left_corner.add(self.horizontal.scale(s)).add(self.vertical.scale(t))
    }

    /// Wherever on the lens a ray towards `(s, t)` starts, it passes
    /// through the same point of the plane of focus, and reaches it at
    /// parameter one; so what lies in that plane is sharp.  This holds
    /// while the eye, the point and the way across the lens are small
    /// enough for their sums to stay in range.
    pub proof fn lemma_rays_meet_in_focus(&self, s: Fixed, t: Fixed, lens: Vec3)
        requires
            self.origin.is_moderate(),
            self.target(s, t).is_moderate(),
            self.lens_offset(lens).is_moderate(),
        ensures
            self.ray_through(s, t, lens).point_when_at(Fixed::one()) == self.target(s, t),
    {
        let direction = self.ray_through(s, t, lens).direction;
        lemma_mul_one(direction.x);
        lemma_mul_one(direction.y);
        lemma_mul_one(direction.z);
    }

    /// Without a lens the camera is a pinhole: every ray starts at the
    /// eye, wherever on the lens it was meant to start.
    pub proof fn lemma_pinhole(&self, s: Fixed, t: Fixed, lens: Vec3)
        requires
            self.lens_radius@ == 0,
        ensures
            self.lens_offset(lens) == Vec3::zeros(),
            self.ray_through(s, t, lens) == self.ray_through(s, t, Vec3::zeros()),
            self.ray_through(s, t, lens).origin == self.origin,
    {
        lemma_mul_zero(lens.x);
        lemma_mul_zero(lens.y);
        lemma_mul_zero(lens.z);
        lemma_mul_zero(self.u.x);
        lemma_mul_zero(self.u.y);
        lemma_mul_zero(self.u.z);
        lemma_mul_zero(self.v.x);
        lemma_mul_zero(self.v.y);
        lemma_mul_zero(self.v.z);
        lemma_mul_zero(Fixed::zero());
    }
}

} // verus!
