//! Three-component vectors of fixed-point scalars: points, directions and
//! colours.

use crate::fixed::{
    floor_sqrt, is_floor_sqrt, isqrt, lemma_floor_sqrt_is, lemma_floor_sqrt_monotone, magnitude,
    magnitude_of, saturate, Fixed, SCALE,
};
use vstd::prelude::*;

verus! {

/// A vector, a point or an RGB colour.
#[derive(Clone, Copy, Debug, PartialEq, Eq, Structural)]
pub struct Vec3 {
    pub x: Fixed,
    pub y: Fixed,
    pub z: Fixed,
}

/// Sum of the squares of three raw components.
pub open spec fn sum_of_squares(x: int, y: int, z: int) -> int {
    x * x + y * y + z * z
}

impl Vec3 {
    pub open spec fn spec_new(x: Fixed, y: Fixed, z: Fixed) -> Vec3 {
        Vec3 { x, y, z }
    }

    /// The vector with the given components.
    #[verifier::when_used_as_spec(spec_new)]
    pub fn new(x: Fixed, y: Fixed, z: Fixed) -> (r: Vec3)
        ensures
            r == Vec3::spec_new(x, y, z),
    {
        Vec3 { x, y, z }
    }

    pub open spec fn spec_from_raw(x: i64, y: i64, z: i64) -> Vec3 {
        Vec3 { x: Fixed { raw: x }, y: Fixed { raw: y }, z: Fixed { raw: z } }
    }

    /// The vector whose components are the given numbers of millionths.
    #[verifier::when_used_as_spec(spec_from_raw)]
    pub fn from_raw(x: i64, y: i64, z: i64) -> (r: Vec3)
        ensures
            r == Vec3::spec_from_raw(x, y, z),
    {
        Vec3 { x: Fixed { raw: x }, y: Fixed { raw: y }, z: Fixed { raw: z } }
    }

    pub open spec fn spec_zeros() -> Vec3 {
        Vec3::spec_from_raw(0, 0, 0)
    }

    /// The zero vector; as a colour, black.
    #[verifier::when_used_as_spec(spec_zeros)]
    pub fn zeros() -> (r: Vec3)
        ensures
            r == Vec3::spec_zeros(),
    {
        Vec3::from_raw(0, 0, 0)
    }

    pub open spec fn spec_ones() -> Vec3 {
        Vec3::spec_from_raw(SCALE, SCALE, SCALE)
    }

    /// The vector of ones; as a colour, white.
    #[verifier::when_used_as_spec(spec_ones)]
    pub fn ones() -> (r: Vec3)
        ensures
            r == Vec3::spec_ones(),
    {
        Vec3::from_raw(SCALE, SCALE, SCALE)
    }

    pub open spec fn spec_add(self, rhs: Vec3) -> Vec3 {
        Vec3 { x: self.x.add(rhs.x), y: self.y.add(rhs.y), z: self.z.add(rhs.z) }
    }

    /// Component-wise sum.
    #[verifier::when_used_as_spec(spec_add)]
    pub fn add(self, rhs: Vec3) -> (r: Vec3)
        ensures
            r == self.spec_add(rhs),
    {
        Vec3 { x: self.x.add(rhs.x), y: self.y.add(rhs.y), z: self.z.add(rhs.z) }
    }

    pub open spec fn spec_sub(self, rhs: Vec3) -> Vec3 {
        Vec3 { x: self.x.sub(rhs.x), y: self.y.sub(rhs.y), z: self.z.sub(rhs.z) }
    }

    /// Component-wise difference.
    #[verifier::when_used_as_spec(spec_sub)]
    pub fn sub(self, rhs: Vec3) -> (r: Vec3)
        ensures
            r == self.spec_sub(rhs),
    {
        Vec3 { x: self.x.sub(rhs.x), y: self.y.sub(rhs.y), z: self.z.sub(rhs.z) }
    }

    pub open spec fn spec_neg(self) -> Vec3 {
        Vec3 { x: self.x.neg(), y: self.y.neg(), z: self.z.neg() }
    }

    /// The opposite vector.
    #[verifier::when_used_as_spec(spec_neg)]
    pub fn neg(self) -> (r: Vec3)
        ensures
            r == self.spec_neg(),
    {
        Vec3 { x: self.x.neg(), y: self.y.neg(), z: self.z.neg() }
    }

    pub open spec fn spec_scale(self, k: Fixed) -> Vec3 {
        Vec3 { x: self.x.mul(k), y: self.y.mul(k), z: self.z.mul(k) }
    }

    /// Each component multiplied by `k`.
    #[verifier::when_used_as_spec(spec_scale)]
    pub fn scale(self, k: Fixed) -> (r: Vec3)
        ensures
            r == self.spec_scale(k),
    {
        Vec3 { x: self.x.mul(k), y: self.y.mul(k), z: self.z.mul(k) }
    }

    pub open spec fn spec_unscale(self, k: Fixed) -> Vec3 {
        Vec3 { x: self.x.div(k), y: self.y.div(k), z: self.z.div(k) }
    }

    /// Each component divided by `k`.
    #[verifier::when_used_as_spec(spec_unscale)]
    pub fn unscale(self, k: Fixed) -> (r: Vec3)
        ensures
            r == self.spec_unscale(k),
    {
        Vec3 { x: self.x.div(k), y: self.y.div(k), z: self.z.div(k) }
    }

    pub open spec fn spec_component_mul(self, rhs: Vec3) -> Vec3 {
        Vec3 { x: self.x.mul(rhs.x), y: self.y.mul(rhs.y), z: self.z.mul(rhs.z) }
    }

    /// Component-wise product, which tints one colour by another.
    #[verifier::when_used_as_spec(spec_component_mul)]
    pub fn component_mul(self, rhs: Vec3) -> (r: Vec3)
        ensures
            r == self.spec_component_mul(rhs),
    {
        Vec3 { x: self.x.mul(rhs.x), y: self.y.mul(rhs.y), z: self.z.mul(rhs.z) }
    }

    pub open spec fn spec_dot(self, rhs: Vec3) -> Fixed {
        self.x.mul(rhs.x).add(self.y.mul(rhs.y)).add(self.z.mul(rhs.z))
    }

    /// Dot product: the three products are rounded one by one, then summed.
    #[verifier::when_used_as_spec(spec_dot)]
    pub fn dot(self, rhs: Vec3) -> (r: Fixed)
        ensures
            r == self.spec_dot(rhs),
    {
        self.x.mul(rhs.x).add(self.y.mul(rhs.y)).add(self.z.mul(rhs.z))
    }

    pub open spec fn spec_cross(self, rhs: Vec3) -> Vec3 {
        Vec3 {
            x: self.y.mul(rhs.z).sub(self.z.mul(rhs.y)),
            y: self.z.mul(rhs.x).sub(self.x.mul(rhs.z)),
            z: self.x.mul(rhs.y).sub(self.y.mul(rhs.x)),
        }
    }

    /// Cross product.
    #[verifier::when_used_as_spec(spec_cross)]
    pub fn cross(self, rhs: Vec3) -> (r: Vec3)
        ensures
            r == self.spec_cross(rhs),
    {
        Vec3 {
            x: self.y.mul(rhs.z).sub(self.z.mul(rhs.y)),
            y: self.z.mul(rhs.x).sub(self.x.mul(rhs.z)),
            z: self.x.mul(rhs.y).sub(self.y.mul(rhs.x)),
        }
    }

    pub open spec fn spec_magnitude_squared(self) -> Fixed {
        self.dot(self)
    }

    /// Squared length, as the dot product of the vector with itself.
    #[verifier::when_used_as_spec(spec_magnitude_squared)]
    pub fn magnitude_squared(self) -> (r: Fixed)
        ensures
            r == self.spec_magnitude_squared(),
    {
        self.dot(self)
    }

    pub open spec fn spec_magnitude(self) -> Fixed {
        Fixed { raw: saturate(floor_sqrt(sum_of_squares(self.x@, self.y@, self.z@))) }
    }

    /// Length: the square root of the exact sum of squares, rounded down
    /// once and saturated.
    #[verifier::when_used_as_spec(spec_magnitude)]
    pub fn magnitude(self) -> (r: Fixed)
        ensures
            r == self.spec_magnitude(),
    {
        let x: u128 = magnitude_of(self.x.raw);
        let y: u128 = magnitude_of(self.y.raw);
        let z: u128 = magnitude_of(self.z.raw);
        proof {
            lemma_square_bound(x as int);
            lemma_square_bound(y as int);
            lemma_square_bound(z as int);
            lemma_square_of_magnitude(self.x@);
            lemma_square_of_magnitude(self.y@);
            lemma_square_of_magnitude(self.z@);
        }
        let root: u128 = isqrt(x * x + y * y + z * z);
        if root > 0x7FFF_FFFF_FFFF_FFFF {
            Fixed { raw: i64::MAX }
        } else {
            Fixed { raw: root as i64 }
        }
    }

    pub open spec fn spec_normalize(self) -> Vec3 {
        self.unscale(self.magnitude())
    }

    /// The vector divided by its length; the zero vector stays zero.
    #[verifier::when_used_as_spec(spec_normalize)]
    pub fn normalize(self) -> (r: Vec3)
        ensures
            r == self.spec_normalize(),
    {
        self.unscale(self.magnitude())
    }

    /// Every component lies in `[0, 1]`: a colour that darkens whatever it
    /// tints.
    pub open spec fn is_unit_colour(self) -> bool {
        &&& 0 <= self.x@ <= SCALE
        &&& 0 <= self.y@ <= SCALE
        &&& 0 <= self.z@ <= SCALE
    }

    /// No component is beyond a quarter of the range, so that sums of
    /// up to three such vectors are exact.
    pub open spec fn is_moderate(self) -> bool {
        &&& -0x2000_0000_0000_0000 <= self.x@ <= 0x2000_0000_0000_0000
        &&& -0x2000_0000_0000_0000 <= self.y@ <= 0x2000_0000_0000_0000
        &&& -0x2000_0000_0000_0000 <= self.z@ <= 0x2000_0000_0000_0000
    }

    /// Every component lies in `[-1, 1]`.
    pub open spec fn within_unit_cube(self) -> bool {
        &&& -SCALE <= self.x@ <= SCALE
        &&& -SCALE <= self.y@ <= SCALE
        &&& -SCALE <= self.z@ <= SCALE
    }
}

/// The square of a 64-bit magnitude fits in 126 bits.
proof fn lemma_square_bound(m: int)
    by (nonlinear_arith)
    requires
        0 <= m <= 0x8000_0000_0000_0000,
    ensures
        0 <= m * m <= 0x4000_0000_0000_0000_0000_0000_0000_0000,
{
}

/// A number and its magnitude have the same square.
proof fn lemma_square_of_magnitude(x: int)
    by (nonlinear_arith)
    ensures
        magnitude(x) * magnitude(x) == x * x,
{
}

/// A quotient is at most `bound` when the dividend is at most `bound` times
/// the divisor.
proof fn lemma_quotient_bound(n: int, d: int, bound: int)
    by (nonlinear_arith)
    requires
        0 <= n,
        0 < d,
        0 <= bound,
        n < (bound + 1) * d,
    ensures
        0 <= n / d <= bound,
{
}

/// One component of a normalized vector lies in `[-1, 1]`.
proof fn lemma_normalized_component(c: Fixed, v: Vec3)
    requires
        c == v.x || c == v.y || c == v.z,
    ensures
        -SCALE <= c.div(v.magnitude())@ <= SCALE,
{
    let s = sum_of_squares(v.x@, v.y@, v.z@);
    let m = magnitude(c@);
    assert(0 <= v.x@ * v.x@ && 0 <= v.y@ * v.y@ && 0 <= v.z@ * v.z@) by (nonlinear_arith);
    lemma_square_of_magnitude(c@);
    assert(m * m <= s);
    assert(is_floor_sqrt(m * m, m)) by (nonlinear_arith)
        requires
            m >= 0,
    ;
    lemma_floor_sqrt_is(m * m, m);
    lemma_floor_sqrt_monotone(m * m, s);
    let len = v.magnitude()@;
    if len == 0 {
        assert(c@ == 0);
    } else {
        // the divisor is the length or, beyond the range, the upper
        // bound, which is one short of the largest magnitude
        assert(m <= len + 1);
        assert(m * SCALE < (SCALE + 1) * len) by (nonlinear_arith)
            requires
                0 <= m <= len + 1,
                len >= 1,
                m <= len || len > 2 * SCALE,
        ;
        lemma_quotient_bound(m * SCALE, len, SCALE as int);
        assert(magnitude(c@ * SCALE) == m * SCALE);
    }
}

/// A normalized vector lies within the unit cube, whatever the vector.
pub proof fn lemma_normalize_within_unit_cube(v: Vec3)
    ensures
        v.normalize().within_unit_cube(),
{
    lemma_normalized_component(v.x, v);
    lemma_normalized_component(v.y, v);
    lemma_normalized_component(v.z, v);
}

} // verus!
