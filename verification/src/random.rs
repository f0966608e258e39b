//! The random source, and the points and numbers drawn from it.

use crate::fixed::{lemma_mul_exact, lemma_mul_zero, Fixed, SCALE};
use crate::vec3::Vec3;
use rand::rngs::StdRng;
use vstd::prelude::*;

verus! {

/// `rand::rngs::StdRng`, the generator that every draw comes from.
/// Nothing of its state is visible here; it is only handed on.
#[verifier::external_type_specification]
#[verifier::external_body]
pub struct ExStdRng(StdRng);

/// `rand::Rng::gen_range` on the half-open range `0..bound`, which
/// panics where the range is empty: hence `bound > 0`.  Trusted: the
/// number drawn lies in the range.  Nothing is said of which number it
/// is, so two draws may differ.
#[verifier::external_body]
fn gen_below(rng: &mut StdRng, bound: i64) -> (r: i64)
    requires
        bound > 0,
    ensures
        0 <= r < bound,
{
    rand::Rng::gen_range(rng, 0..bound)
}

/// A number drawn uniformly from `[0, 1)`.
pub fn random_unit(rng: &mut StdRng) -> (r: Fixed)
    ensures
        is_unit(r),
{
    Fixed::from_raw(gen_below(rng, SCALE))
}

/// `x` lies in `[0, 1)`.
pub open spec fn is_unit(x: Fixed) -> bool {
    0 <= x@ < SCALE
}

pub open spec fn spec_cube_point(a: Fixed, b: Fixed, c: Fixed) -> Vec3 {
    Vec3::new(a, b, c).scale(Fixed::from_int(2)).sub(Vec3::ones())
}

/// The point of the cube `[-1, 1)^3` that three numbers of `[0, 1)` stand
/// for: each is doubled and moved down by one.
#[verifier::when_used_as_spec(spec_cube_point)]
pub fn cube_point(a: Fixed, b: Fixed, c: Fixed) -> (p: Vec3)
    ensures
        p == spec_cube_point(a, b, c),
{
    Vec3::new(a, b, c).scale(Fixed::from_int(2)).sub(Vec3::ones())
}

pub open spec fn spec_square_point(a: Fixed, b: Fixed) -> Vec3 {
    Vec3::new(a, b, Fixed::zero()).scale(Fixed::from_int(2)).sub(Vec3::from_raw(SCALE, SCALE, 0))
}

/// The point of the square `[-1, 1)^2` in the plane `z = 0` that two
/// numbers of `[0, 1)` stand for.
#[verifier::when_used_as_spec(spec_square_point)]
pub fn square_point(a: Fixed, b: Fixed) -> (p: Vec3)
    ensures
        p == spec_square_point(a, b),
{
    Vec3::new(a, b, Fixed::zero()).scale(Fixed::from_int(2)).sub(Vec3::from_raw(SCALE, SCALE, 0))
}

pub open spec fn spec_in_unit_sphere(p: Vec3) -> bool {
    p.magnitude_squared()@ < SCALE
}

/// `p` lies strictly inside the unit sphere.
#[verifier::when_used_as_spec(spec_in_unit_sphere)]
pub fn in_unit_sphere(p: Vec3) -> (b: bool)
    ensures
        b == spec_in_unit_sphere(p),
{
    p.magnitude_squared().raw < SCALE
}

pub open spec fn spec_in_unit_disk(p: Vec3) -> bool {
    p.z@ == 0 && p.dot(p)@ < SCALE
}

/// `p` lies strictly inside the unit disk of the plane `z = 0`.
#[verifier::when_used_as_spec(spec_in_unit_disk)]
pub fn in_unit_disk(p: Vec3) -> (b: bool)
    ensures
        b == spec_in_unit_disk(p),
{
    p.z.raw == 0 && p.dot(p).raw < SCALE
}

/// The centre of the cube is the point that three halves stand for.
proof fn lemma_centre_of_cube()
    ensures
        cube_point(Fixed::from_raw(500_000), Fixed::from_raw(500_000), Fixed::from_raw(500_000))
            == Vec3::zeros(),
        square_point(Fixed::from_raw(500_000), Fixed::from_raw(500_000)) == Vec3::zeros(),
        in_unit_sphere(Vec3::zeros()),
        in_unit_disk(Vec3::zeros()),
{
    let half = Fixed::from_raw(500_000);
    let two = Fixed::from_int(2);
    assert(half.raw * two.raw == 1_000_000 * SCALE) by (nonlinear_arith)
        requires
            half.raw == 500_000,
            two.raw == 2_000_000,
            SCALE == 1_000_000,
    ;
    lemma_mul_exact(half, two, Fixed::one());
    lemma_mul_zero(Fixed::from_int(2));
    lemma_mul_zero(Fixed::zero());
}

/// A point drawn from inside the unit sphere: points of the cube around
/// it are drawn until one lies inside.  Should `u64::MAX` of them in a row
/// lie outside, the centre is returned.
pub fn random_in_unit_sphere(rng: &mut StdRng) -> (p: Vec3)
    ensures
        in_unit_sphere(p),
        exists|a: Fixed, b: Fixed, c: Fixed|
            is_unit(a) && is_unit(b) && is_unit(c) && p == #[trigger] cube_point(a, b, c),
{
    let mut rejected: u64 = 0;
    while rejected < u64::MAX
        decreases u64::MAX - rejected,
    {
        let a = random_unit(rng);
        let b = random_unit(rng);
        let c = random_unit(rng);
        let point = cube_point(a, b, c);
        if in_unit_sphere(point) {
            return point;
        }
        rejected += 1;
    }
    proof {
        lemma_centre_of_cube();
    }
    Vec3::zeros()
}

/// A point drawn from inside the unit disk of the plane `z = 0`, in the
/// same way.
pub fn random_in_unit_disk(rng: &mut StdRng) -> (p: Vec3)
    ensures
        in_unit_disk(p),
        exists|a: Fixed, b: Fixed| is_unit(a) && is_unit(b) && p == #[trigger] square_point(a, b),
{
    let mut rejected: u64 = 0;
    while rejected < u64::MAX
        decreases u64::MAX - rejected,
    {
        let a = random_unit(rng);
        let b = random_unit(rng);
        let p = square_point(a, b);
        if in_unit_disk(p) {
            return p;
        }
        rejected += 1;
    }
    proof {
        lemma_centre_of_cube();
    }
    Vec3::zeros()
}

} // verus!
