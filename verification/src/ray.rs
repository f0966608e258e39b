//! Rays: half-lines along which light is traced.

use crate::fixed::Fixed;
use crate::vec3::Vec3;
use vstd::prelude::*;

verus! {

/// A parametric line `origin + t * direction`.  The direction need not be
/// of unit length.
#[derive(Clone, Copy, Debug, PartialEq, Eq, Structural)]
pub struct Ray {
    pub origin: Vec3,
    pub direction: Vec3,
}

impl Ray {
    pub open spec fn spec_new(origin: Vec3, direction: Vec3) -> Ray {
        Ray { origin, direction }
    }

    /// The ray that leaves `origin` along `direction`.
    #[verifier::when_used_as_spec(spec_new)]
    pub fn new(origin: Vec3, direction: Vec3) -> (r: Ray)
        ensures
            r == Ray::spec_new(origin, direction),
    {
        Ray { origin, direction }
    }

    pub open spec fn spec_origin(&self) -> Vec3 {
        self.origin
    }

    /// Where the ray starts.
    #[verifier::when_used_as_spec(spec_origin)]
    pub fn origin(&self) -> (r: Vec3)
        ensures
            r == self.origin,
    {
        self.origin
    }

    pub open spec fn spec_direction(&self) -> Vec3 {
        self.direction
    }

    /// The displacement covered per unit of the parameter.
    #[verifier::when_used_as_spec(spec_direction)]
    pub fn direction(&self) -> (r: Vec3)
        ensures
            r == self.direction,
    {
        self.direction
    }

    pub open spec fn spec_point_when_at(&self, t: Fixed) -> Vec3 {
        self.origin.add(self.direction.scale(t))
    }

    /// The point reached at parameter `t`.
    #[verifier::when_used_as_spec(spec_point_when_at)]
    pub fn point_when_at(&self, t: Fixed) -> (r: Vec3)
        ensures
            r == self.spec_point_when_at(t),
    {
        self.origin.add(self.direction.scale(t))
    }
}

} // verus!
