//! Bare shapes, with no material.

use crate::fixed::Fixed;
use crate::vec3::Vec3;
use vstd::prelude::*;

verus! {

/// A sphere as a shape alone: a centre and a radius.
#[derive(Clone, Copy, Debug, PartialEq, Eq, Structural)]
pub struct Sphere {
    pub pos: Vec3,
    pub radius: Fixed,
}

impl Sphere {
    pub open spec fn spec_new(position: Vec3, radius: Fixed) -> Sphere {
        Sphere { pos: position, radius }
    }

    /// The sphere of the given radius around `position`.
    #[verifier::when_used_as_spec(spec_new)]
    pub fn new(position: Vec3, radius: Fixed) -> (r: Sphere)
        ensures
            r == Sphere::spec_new(position, radius),
    {
        Sphere { pos: position, radius }
    }

    pub open spec fn spec_pos(&self) -> Vec3 {
        self.pos
    }

    /// The centre.
    #[verifier::when_used_as_spec(spec_pos)]
    pub fn pos(&self) -> (r: Vec3)
        ensures
            r == self.pos,
    {
        self.pos
    }

    pub open spec fn spec_radius(&self) -> Fixed {
        self.radius
    }

    /// The radius.
    #[verifier::when_used_as_spec(spec_radius)]
    pub fn radius(&self) -> (r: Fixed)
        ensures
            r == self.radius,
    {
        self.radius
    }
}

} // verus!
