//! The integrator: the light that arrives along a ray, and the pixel that
//! it colours.

use crate::camera::Camera;
use crate::fixed::{lemma_mul_darkens, lemma_mul_one, lemma_sqrt_nonnegative, Fixed, SCALE};
use crate::hittable::{passive, Hittable};
use crate::material::{Material, ScatterSample};
use crate::random::{in_unit_disk, is_unit, random_unit};
use crate::ray::Ray;
use crate::vec3::{lemma_normalize_within_unit_cube, Vec3};
use rand::rngs::StdRng;
use vstd::prelude::*;

verus! {

/// Raw value of the nearest parameter at which a hit counts, 0.001: a ray
/// that leaves a surface must not hit it again where it starts.
pub const SHADOW_EPSILON: i64 = 1_000;

/// The colour of the sky at the zenith.
pub open spec fn zenith() -> Vec3 {
    Vec3::from_raw(500_000, 700_000, SCALE)
}

pub open spec fn spec_background(ray: Ray) -> Vec3 {
    let unit_direction = ray.direction.normalize();
    let t = Fixed::from_raw(500_000).mul(unit_direction.y.add(Fixed::one()));
    Vec3::ones().scale(Fixed::one().sub(t)).add(zenith().scale(t))
}

/// The light of the sky along a ray that hits nothing: white where the
/// ray points straight down, the colour of the zenith where it points
/// straight up, and between the two in proportion to its height.
#[verifier::when_used_as_spec(spec_background)]
pub fn background(ray: Ray) -> (r: Vec3)
    ensures
        r == spec_background(ray),
{
    let unit_direction = ray.direction().normalize();
    let t = Fixed::from_raw(500_000).mul(unit_direction.y.add(Fixed::one()));
    Vec3::ones().scale(Fixed::one().sub(t)).add(Vec3::from_raw(500_000, 700_000, SCALE).scale(t))
}

/// The sample that stands first on the tape; the still one where the tape
/// is at its end.
pub open spec fn first_sample(tape: Seq<ScatterSample>) -> ScatterSample {
    if tape.len() > 0 {
        tape[0]
    } else {
        ScatterSample::still()
    }
}

/// The tape behind its first sample.
pub open spec fn rest_of(tape: Seq<ScatterSample>) -> Seq<ScatterSample> {
    if tape.len() > 0 {
        tape.drop_first()
    } else {
        tape
    }
}

/// The light that arrives along `ray` in the scene `world`, over paths of
/// at most `depth` bounces, where the `i`-th bounce makes the random
/// choices that stand `i`-th on `tape`.
///
/// Nothing arrives over no bounce at all.  A ray that hits nothing brings
/// the light of the sky.  A ray that hits a surface brings what arrives
/// along the scattered ray, tinted by the attenuation, and nothing where
/// the surface absorbs it.
pub open spec fn radiance<H: Hittable>(world: &H, ray: Ray, depth: nat, tape: Seq<ScatterSample>) -> Vec3
    decreases depth,
{
    if depth == 0 {
        Vec3::zeros()
    } else {
        match world.hit_spec(ray, Fixed::from_raw(SHADOW_EPSILON), Fixed::infinity()) {
            Some(rec) => match rec.material.scatter_spec(ray, rec, first_sample(tape)) {
                Some((scattered, attenuation)) => attenuation.component_mul(
                    radiance(world, scattered, (depth - 1) as nat, rest_of(tape)),
                ),
                None => Vec3::zeros(),
            },
            None => background(ray),
        }
    }
}

/// Every sample on the tape is a valid one.
pub open spec fn valid_tape(tape: Seq<ScatterSample>) -> bool {
    forall|i: int| 0 <= i < tape.len() ==> (#[trigger] tape[i]).is_valid()
}

/// The light that arrives along `ray`, with the random choices read from
/// `tape`, from its place `at` on.
fn radiance_from<H: Hittable>(
    ray: &Ray,
    world: &H,
    depth: u32,
    tape: &Vec<ScatterSample>,
    at: usize,
) -> (r: Vec3)
    requires
        at <= tape.len(),
    ensures
        r == radiance(world, *ray, depth as nat, tape@.skip(at as int)),
    decreases depth,
{
    if depth == 0 {
        return Vec3::zeros();
    }
    if let Some(hit) = world.hit(*ray, Fixed::from_raw(SHADOW_EPSILON), Fixed::infinity()) {
        let (sample, next) = if at < tape.len() {
            (tape[at], at + 1)
        } else {
            (ScatterSample::still(), at)
        };
        proof {
            let here = tape@.skip(at as int);
            assert(first_sample(here) == sample);
            assert(rest_of(here) == tape@.skip(next as int));
        }
        let material = hit.material;
        if let Some((scattered, attenuation)) = material.scatter(*ray, hit, sample) {
            return attenuation.component_mul(radiance_from(&scattered, world, depth - 1, tape, next));
        }
        Vec3::zeros()
    } else {
        background(*ray)
    }
}

/// The light that arrives along `ray` over paths of at most `depth`
/// bounces, with the random choices of the bounces read from `tape`, one
/// by one; a bounce beyond the end of the tape makes the still choice.
pub fn radiance_along<H: Hittable>(ray: &Ray, world: &H, depth: u32, tape: &Vec<ScatterSample>) -> (r:
    Vec3)
    ensures
        r == radiance(world, *ray, depth as nat, tape@),
        depth == 0 ==> r == Vec3::zeros(),
        passive(world) ==> r.is_unit_colour(),
{
    proof {
        assert(tape@.skip(0) == tape@);
        lemma_radiance_bounded(world, *ray, depth as nat, tape@);
    }
    radiance_from(ray, world, depth, tape, 0)
}

/// The light that arrives along `ray` over paths of at most `depth`
/// bounces, with the random choices of each bounce drawn from `rng` as the
/// path reaches it.
pub fn ray_colour_non_manip<H: Hittable>(ray: &Ray, world: &H, depth: u32, rng: &mut StdRng) -> (r:
    Vec3)
    ensures
        exists|tape: Seq<ScatterSample>|
            valid_tape(tape) && r == #[trigger] radiance(world, *ray, depth as nat, tape),
        depth == 0 ==> r == Vec3::zeros(),
        passive(world) ==> r.is_unit_colour(),
    decreases depth,
{
    let ghost none = Seq::<ScatterSample>::empty();
    if depth == 0 {
        assert(valid_tape(none) && Vec3::zeros() == radiance(world, *ray, depth as nat, none));
        return Vec3::zeros();
    }
    if let Some(hit) = world.hit(*ray, Fixed::from_raw(SHADOW_EPSILON), Fixed::infinity()) {
        let sample = ScatterSample::draw(rng);
        let ghost one = seq![sample];
        let material = hit.material;
        if let Some((scattered, attenuation)) = material.scatter(*ray, hit, sample) {
            let incoming = ray_colour_non_manip(&scattered, world, depth - 1, rng);
            let colour = attenuation.component_mul(incoming);
            proof {
                let rest = choose|tape: Seq<ScatterSample>|
                    valid_tape(tape) && incoming == #[trigger] radiance(
                        world,
                        scattered,
                        (depth - 1) as nat,
                        tape,
                    );
                let tape = one + rest;
                assert(rest_of(tape) == rest);
                assert(valid_tape(tape));
                assert(colour == radiance(world, *ray, depth as nat, tape));
                lemma_radiance_bounded(world, *ray, depth as nat, tape);
            }
            return colour;
        }
        assert(valid_tape(one) && Vec3::zeros() == radiance(world, *ray, depth as nat, one));
        Vec3::zeros()
    } else {
        proof {
            lemma_background_is_unit_colour(*ray);
        }
        let colour = background(*ray);
        assert(valid_tape(none) && colour == radiance(world, *ray, depth as nat, none));
        colour
    }
}

/// Every component of the light of the sky lies in `[0, 1]`, whatever the
/// ray.
pub proof fn lemma_background_is_unit_colour(ray: Ray)
    ensures
        background(ray).is_unit_colour(),
{
    let unit_direction = ray.direction.normalize();
    lemma_normalize_within_unit_cube(ray.direction);
    let height = unit_direction.y.add(Fixed::one());
    let half = Fixed::from_raw(500_000);
    lemma_mul_darkens(half, height);
    let t = half.mul(height);
    assert(0 <= t@ <= SCALE) by {
        let h = height.raw as int;
        assert((500_000 * h) / 1_000_000 <= 1_000_000) by (nonlinear_arith)
            requires
                0 <= h <= 2_000_000,
        ;
    }
    let rest = Fixed::one().sub(t);
    lemma_mul_one(rest);
    lemma_mul_darkens(zenith().x, t);
    lemma_mul_darkens(zenith().y, t);
    lemma_mul_darkens(zenith().z, t);
}

/// Tinting by a colour with no component above one or below zero leaves
/// no component of the light brighter than it was, and none negative.
pub proof fn lemma_attenuation_darkens(attenuation: Vec3, incoming: Vec3)
    requires
        attenuation.is_unit_colour(),
        0 <= incoming.x@,
        0 <= incoming.y@,
        0 <= incoming.z@,
    ensures
        0 <= attenuation.component_mul(incoming).x@ <= incoming.x@,
        0 <= attenuation.component_mul(incoming).y@ <= incoming.y@,
        0 <= attenuation.component_mul(incoming).z@ <= incoming.z@,
{
    lemma_mul_darkens(attenuation.x, incoming.x);
    lemma_mul_darkens(attenuation.y, incoming.y);
    lemma_mul_darkens(attenuation.z, incoming.z);
}

/// In a scene that never amplifies, no component of the light that
/// arrives along a ray exceeds one, the brightest that the sky can be,
/// or falls below zero: whatever the ray, the depth and the random
/// choices.
pub proof fn lemma_radiance_bounded<H: Hittable>(
    world: &H,
    ray: Ray,
    depth: nat,
    tape: Seq<ScatterSample>,
)
    ensures
        passive(world) ==> radiance(world, ray, depth, tape).is_unit_colour(),
    decreases depth,
{
    if depth > 0 && passive(world) {
        match world.hit_spec(ray, Fixed::from_raw(SHADOW_EPSILON), Fixed::infinity()) {
            Some(rec) => match rec.material.scatter_spec(ray, rec, first_sample(tape)) {
                Some((scattered, attenuation)) => {
                    let incoming = radiance(world, scattered, (depth - 1) as nat, rest_of(tape));
                    lemma_radiance_bounded(world, scattered, (depth - 1) as nat, rest_of(tape));
                    lemma_attenuation_darkens(attenuation, incoming);
                },
                None => {},
            },
            None => {
                lemma_background_is_unit_colour(ray);
            },
        }
    }
}

/// Tracing has no hidden state: whatever two runs on the same ray, scene,
/// depth and tape return, it is the same.
pub proof fn lemma_tracing_is_deterministic<H: Hittable>(
    ray: &Ray,
    world: &H,
    depth: u32,
    tape: &Vec<ScatterSample>,
    first: Vec3,
    second: Vec3,
)
    requires
        call_ensures(radiance_along::<H>, (ray, world, depth, tape), first),
        call_ensures(radiance_along::<H>, (ray, world, depth, tape), second),
    ensures
        first == second,
{
}

/// With no bounce left nothing arrives, whatever the ray and the scene.
pub proof fn lemma_depth_zero<H: Hittable>(world: &H, ray: Ray, tape: Seq<ScatterSample>)
    ensures
        radiance(world, ray, 0, tape) == Vec3::zeros(),
{
}

/// The light that arrives depends on no more of the random choices than
/// the path has bounces: two tapes that agree on their first `depth`
/// samples give the same light.
pub proof fn lemma_radiance_reads_prefix<H: Hittable>(
    world: &H,
    ray: Ray,
    depth: nat,
    tape: Seq<ScatterSample>,
    other: Seq<ScatterSample>,
)
    requires
        tape.len() >= depth,
        other.len() >= depth,
        forall|i: int| 0 <= i < depth ==> tape[i] == other[i],
    ensures
        radiance(world, ray, depth, tape) == radiance(world, ray, depth, other),
    decreases depth,
{
    if depth > 0 {
        match world.hit_spec(ray, Fixed::from_raw(SHADOW_EPSILON), Fixed::infinity()) {
            Some(rec) => match rec.material.scatter_spec(ray, rec, first_sample(tape)) {
                Some((scattered, attenuation)) => {
                    lemma_radiance_reads_prefix(
                        world,
                        scattered,
                        (depth - 1) as nat,
                        rest_of(tape),
                        rest_of(other),
                    );
                },
                None => {},
            },
            None => {},
        }
    }
}

pub open spec fn spec_quantize(value: Fixed) -> u8 {
    ((256 * value.sqrt().clamp(Fixed::zero(), Fixed::from_raw(999_000)).raw) / (SCALE as int)) as u8
}

/// The 8-bit level of one channel: the square root of `value`, which
/// corrects for a gamma of two, is moved into `[0, 0.999]`, and `256`
/// times it is rounded down.
#[verifier::when_used_as_spec(spec_quantize)]
pub fn quantize(value: Fixed) -> (r: u8)
    ensures
        r == spec_quantize(value),
        r as int == (256 * value.sqrt().clamp(Fixed::zero(), Fixed::from_raw(999_000)).raw) / (
        SCALE as int),
{
    let corrected = value.sqrt().clamp(Fixed::zero(), Fixed::from_raw(999_000));
    proof {
        lemma_sqrt_nonnegative(value);
    }
    ((256 * corrected.raw) / 1_000_000) as u8
}

pub open spec fn spec_ray_colour(colour_non_mapped: Vec3) -> [u8; 3] {
    [quantize(colour_non_mapped.x), quantize(colour_non_mapped.y), quantize(colour_non_mapped.z)]
}

/// The pixel that shows `colour_non_mapped`: red, green and blue, each
/// corrected for gamma and brought to 8 bits.
#[verifier::when_used_as_spec(spec_ray_colour)]
pub fn ray_colour(colour_non_mapped: Vec3) -> (r: [u8; 3])
    ensures
        r == spec_ray_colour(colour_non_mapped),
        r[0] == quantize(colour_non_mapped.x),
        r[1] == quantize(colour_non_mapped.y),
        r[2] == quantize(colour_non_mapped.z),
{
    let r = quantize(colour_non_mapped.x);
    let g = quantize(colour_non_mapped.y);
    let b = quantize(colour_non_mapped.z);
    [r, g, b]
}

pub open spec fn spec_pixel_coordinate(index: u32, jitter: Fixed, extent: u32) -> Fixed {
    Fixed::from_int(index as i64).add(jitter).div(Fixed::from_int(extent as i64))
}

/// Where along an edge of the viewport, as a share of the edge, the
/// sample lies that is `jitter` into the pixel `index` of `extent`.
#[verifier::when_used_as_spec(spec_pixel_coordinate)]
pub fn pixel_coordinate(index: u32, jitter: Fixed, extent: u32) -> (r: Fixed)
    ensures
        r == spec_pixel_coordinate(index, jitter, extent),
{
    Fixed::from_int(index as i64).add(jitter).div(Fixed::from_int(extent as i64))
}

/// The light that one sample of the pixel `(i, j)` gathers, given every
/// random choice that goes into it: the place in the pixel, the point of
/// the lens, and the choices along the path.
pub open spec fn sample_colour<H: Hittable>(
    camera: &Camera,
    world: &H,
    pixel: (u32, u32),
    size: (u32, u32),
    depth: u32,
    jitter: (Fixed, Fixed),
    lens: Vec3,
    tape: Seq<ScatterSample>,
) -> Vec3 {
    radiance(
        world,
        camera.ray_through(
            pixel_coordinate(pixel.0, jitter.0, size.0),
            pixel_coordinate(pixel.1, jitter.1, size.1),
            lens,
        ),
        depth as nat,
        tape,
    )
}

/// `colour` is what some sample of the pixel gathers: there are a place
/// in the pixel, a point of the lens and choices along the path that
/// give it.
pub open spec fn is_pixel_sample<H: Hittable>(
    camera: &Camera,
    world: &H,
    pixel: (u32, u32),
    size: (u32, u32),
    depth: u32,
    colour: Vec3,
) -> bool {
    exists|jitter: (Fixed, Fixed), lens: Vec3, tape: Seq<ScatterSample>|
        {
            &&& is_unit(jitter.0)
            &&& is_unit(jitter.1)
            &&& in_unit_disk(lens)
            &&& valid_tape(tape)
            &&& colour == #[trigger] sample_colour(camera, world, pixel, size, depth, jitter, lens, tape)
        }
}

/// One sample of the pixel in column `i` and row `j` of an image of
/// `width` by `height` pixels, rows counted from the bottom: the light
/// along a ray through a place drawn from the pixel.
pub fn sample_pixel<H: Hittable>(
    camera: &Camera,
    world: &H,
    i: u32,
    j: u32,
    width: u32,
    height: u32,
    max_depth: u32,
    rng: &mut StdRng,
) -> (colour: Vec3)
    ensures
        is_pixel_sample(camera, world, (i, j), (width, height), max_depth, colour),
        max_depth == 0 ==> colour == Vec3::zeros(),
        passive(world) ==> colour.is_unit_colour(),
{
    let jitter_s = random_unit(rng);
    let jitter_t = random_unit(rng);
    let s = pixel_coordinate(i, jitter_s, width);
    let t = pixel_coordinate(j, jitter_t, height);
    let ray = camera.get_ray(s, t, rng);
    let colour = ray_colour_non_manip(&ray, world, max_depth, rng);
    proof {
        let lens = choose|lens: Vec3| in_unit_disk(lens) && ray == #[trigger] camera.ray_through(s, t, lens);
        let tape = choose|tape: Seq<ScatterSample>|
            valid_tape(tape) && colour == #[trigger] radiance(world, ray, max_depth as nat, tape);
        assert(colour == sample_colour(
            camera,
            world,
            (i, j),
            (width, height),
            max_depth,
            (jitter_s, jitter_t),
            lens,
            tape,
        ));
    }
    colour
}

/// The sum of the colours, taken from the first on.
pub open spec fn sum_of(colours: Seq<Vec3>) -> Vec3
    decreases colours.len(),
{
    if colours.len() == 0 {
        Vec3::zeros()
    } else {
        sum_of(colours.drop_last()).add(colours.last())
    }
}

/// The mean of the colours; black for none.
pub open spec fn mean_of(colours: Seq<Vec3>) -> Vec3 {
    sum_of(colours).unscale(Fixed::from_int(colours.len() as i64))
}

/// The pixel in column `i` and row `j`: the mean of `samples_per_pixel`
/// samples, corrected for gamma and brought to 8 bits.
pub fn render_pixel<H: Hittable>(
    camera: &Camera,
    world: &H,
    i: u32,
    j: u32,
    width: u32,
    height: u32,
    samples_per_pixel: u32,
    max_depth: u32,
    rng: &mut StdRng,
) -> (r: [u8; 3])
    ensures
        exists|colours: Seq<Vec3>|
            {
                &&& colours.len() == samples_per_pixel
                &&& forall|k: int|
                    0 <= k < colours.len() ==> is_pixel_sample(
                        camera,
                        world,
                        (i, j),
                        (width, height),
                        max_depth,
                        #[trigger] colours[k],
                    )
                &&& r == ray_colour(#[trigger] mean_of(colours))
            },
{
    let mut sum = Vec3::zeros();
    let ghost mut colours = Seq::<Vec3>::empty();
    let mut taken: u32 = 0;
    while taken < samples_per_pixel
        invariant
            taken <= samples_per_pixel,
            colours.len() == taken,
            sum == sum_of(colours),
            forall|k: int|
                0 <= k < colours.len() ==> is_pixel_sample(
                    camera,
                    world,
                    (i, j),
                    (width, height),
                    max_depth,
                    #[trigger] colours[k],
                ),
        decreases samples_per_pixel - taken,
    {
        let colour = sample_pixel(camera, world, i, j, width, height, max_depth, rng);
        proof {
            assert(colours.push(colour).drop_last() == colours);
            colours = colours.push(colour);
        }
        sum = sum.add(colour);
        taken += 1;
    }
    let mean = sum.unscale(Fixed::from_int(samples_per_pixel as i64));
    assert(mean == mean_of(colours));
    ray_colour(mean)
}

} // verus!
