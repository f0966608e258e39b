//! A scene to render: a field of small spheres around three large ones.

use crate::fixed::{lemma_mul_darkens, Fixed, SCALE};
use crate::hittable::{passive, HittableList};
use crate::material::{Dielectric, Lambertian, MaterialKind, Metal};
use crate::random::{is_unit, random_unit};
use crate::sphere::Sphere;
use crate::vec3::Vec3;
use rand::rngs::StdRng;
use vstd::prelude::*;

verus! {

/// Small spheres along each side of the field, and in it.
pub const GRID_SIDE: usize = 22;

pub const GRID_CELLS: usize = 484;

/// The random numbers that decide one small sphere.
#[derive(Clone, Copy, Debug, PartialEq, Eq, Structural)]
pub struct SphereDraws {
    /// Which material the sphere is made of.
    pub choose_material: Fixed,
    /// How far into its cell the sphere stands, along x.
    pub jitter_x: Fixed,
    /// How far into its cell the sphere stands, along z.
    pub jitter_z: Fixed,
    /// What its colour is made from.
    pub tint: Vec3,
    /// What darkens a matte colour, and what roughens a mirror.
    pub shade: Vec3,
}

impl SphereDraws {
    /// Every number lies in `[0, 1)`.
    pub open spec fn is_valid(&self) -> bool {
        &&& is_unit(self.choose_material)
        &&& is_unit(self.jitter_x)
        &&& is_unit(self.jitter_z)
        &&& is_unit(self.tint.x)
        &&& is_unit(self.tint.y)
        &&& is_unit(self.tint.z)
        &&& is_unit(self.shade.x)
        &&& is_unit(self.shade.y)
        &&& is_unit(self.shade.z)
    }

    /// Draws the numbers for one small sphere from `rng`.
    pub fn draw(rng: &mut StdRng) -> (d: SphereDraws)
        ensures
            d.is_valid(),
    {
        let choose_material = random_unit(rng);
        let jitter_x = random_unit(rng);
        let jitter_z = random_unit(rng);
        let t0 = random_unit(rng);
        let t1 = random_unit(rng);
        let t2 = random_unit(rng);
        let s0 = random_unit(rng);
        let s1 = random_unit(rng);
        let s2 = random_unit(rng);
        SphereDraws {
            choose_material,
            jitter_x,
            jitter_z,
            tint: Vec3::new(t0, t1, t2),
            shade: Vec3::new(s0, s1, s2),
        }
    }

    pub open spec fn spec_material(&self) -> MaterialKind {
        if self.choose_material@ < 800_000 {
            MaterialKind::Lambertian(Lambertian::new(self.tint.component_mul(self.shade)))
        } else if self.choose_material@ < 950_000 {
            let half = Fixed::from_raw(500_000);
            MaterialKind::Metal(
                Metal::new(
                    Vec3::ones().add(self.tint).scale(half),
                    half.mul(self.shade.x),
                ),
            )
        } else {
            MaterialKind::Dielectric(Dielectric::new(Fixed::from_raw(1_500_000)))
        }
    }

    /// The material of the sphere: matte in four cases out of five, with
    /// a dark colour; a bright and slightly rough mirror in three of
    /// the remaining four; glass in the last.
    #[verifier::when_used_as_spec(spec_material)]
    pub fn material(&self) -> (m: MaterialKind)
        ensures
            m == self.spec_material(),
    {
        if self.choose_material.raw < 800_000 {
            MaterialKind::Lambertian(Lambertian::new(self.tint.component_mul(self.shade)))
        } else if self.choose_material.raw < 950_000 {
            let half = Fixed::from_raw(500_000);
            MaterialKind::Metal(
                Metal::new(
                    Vec3::ones().add(self.tint).scale(half),
                    half.mul(self.shade.x),
                ),
            )
        } else {
            MaterialKind::Dielectric(Dielectric::new(Fixed::from_raw(1_500_000)))
        }
    }

    /// Whatever valid numbers were drawn, the material never amplifies.
    pub proof fn lemma_material_is_passive(&self)
        requires
            self.is_valid(),
        ensures
            self.material().is_passive(),
    {
        lemma_mul_darkens(self.tint.x, self.shade.x);
        lemma_mul_darkens(self.tint.y, self.shade.y);
        lemma_mul_darkens(self.tint.z, self.shade.z);
        lemma_half_of_up_to_two(Fixed::one().add(self.tint.x));
        lemma_half_of_up_to_two(Fixed::one().add(self.tint.y));
        lemma_half_of_up_to_two(Fixed::one().add(self.tint.z));
    }
}

/// Half of a number in `[0, 2]` lies in `[0, 1]`.
proof fn lemma_half_of_up_to_two(x: Fixed)
    requires
        0 <= x@ <= 2 * SCALE,
    ensures
        0 <= x.mul(Fixed::from_raw(500_000))@ <= SCALE,
{
    let v = x.raw as int;
    assert(0 <= (v * 500_000) / 1_000_000 <= 1_000_000 && v * 500_000 >= 0) by (nonlinear_arith)
        requires
            0 <= v <= 2_000_000,
    ;
}

pub open spec fn spec_small_sphere(cell: usize, draws: SphereDraws) -> Option<Sphere<MaterialKind>> {
    let a = Fixed::from_int((cell / GRID_SIDE - 11) as i64);
    let b = Fixed::from_int((cell % GRID_SIDE - 11) as i64);
    let spread = Fixed::from_raw(900_000);
    let center = Vec3::new(
        a.add(spread.mul(draws.jitter_x)),
        Fixed::from_raw(200_000),
        b.add(spread.mul(draws.jitter_z)),
    );
    if center.sub(Vec3::from_raw(4_000_000, 200_000, 0)).magnitude()@ > 900_000 {
        Some(Sphere::new(center, Fixed::from_raw(200_000), draws.material()))
    } else {
        None
    }
}

/// The small sphere of the given cell of the field, if it has one.
///
/// The cells are counted row by row; the first stands at `(-11, -11)`.
/// The sphere rests on the ground a little way into its cell.  A cell
/// whose sphere would come within 0.9 of the point `(4, 0.2, 0)`, where
/// a large sphere stands, is left empty.
#[verifier::when_used_as_spec(spec_small_sphere)]
pub fn small_sphere(cell: usize, draws: SphereDraws) -> (r: Option<Sphere<MaterialKind>>)
    ensures
        r == spec_small_sphere(cell, draws),
{
    let a = Fixed::from_int((cell / GRID_SIDE) as i64 - 11);
    let b = Fixed::from_int((cell % GRID_SIDE) as i64 - 11);
    let spread = Fixed::from_raw(900_000);
    let center = Vec3::new(
        a.add(spread.mul(draws.jitter_x)),
        Fixed::from_raw(200_000),
        b.add(spread.mul(draws.jitter_z)),
    );
    if center.sub(Vec3::from_raw(4_000_000, 200_000, 0)).magnitude().raw > 900_000 {
        Some(Sphere::new(center, Fixed::from_raw(200_000), draws.material()))
    } else {
        None
    }
}

/// The ground: a matte grey sphere so large that its top is nearly flat.
pub open spec fn ground() -> Sphere<MaterialKind> {
    Sphere::new(
        Vec3::from_raw(0, (-1_000_000_000) as i64, 0),
        Fixed::from_raw(1_000_000_000),
        MaterialKind::Lambertian(Lambertian::new(Vec3::from_raw(500_000, 500_000, 500_000))),
    )
}

/// The three large spheres: one of glass, one matte and one a smooth
/// mirror.
pub open spec fn landmarks() -> Seq<Sphere<MaterialKind>> {
    seq![
        Sphere::new(
            Vec3::from_raw(0, 1_000_000, 0),
            Fixed::one(),
            MaterialKind::Dielectric(Dielectric::new(Fixed::from_raw(1_500_000))),
        ),
        Sphere::new(
            Vec3::from_raw((-4_000_000) as i64, 1_000_000, 0),
            Fixed::one(),
            MaterialKind::Lambertian(Lambertian::new(Vec3::from_raw(400_000, 200_000, 100_000))),
        ),
        Sphere::new(
            Vec3::from_raw(4_000_000, 1_000_000, 0),
            Fixed::one(),
            MaterialKind::Metal(
                Metal::new(Vec3::from_raw(700_000, 600_000, 500_000), Fixed::zero()),
            ),
        ),
    ]
}

/// The small spheres that the draws give, cell by cell.
pub open spec fn small_spheres(draws: Seq<SphereDraws>) -> Seq<Sphere<MaterialKind>>
    decreases draws.len(),
{
    if draws.len() == 0 {
        Seq::empty()
    } else {
        let before = small_spheres(draws.drop_last());
        match small_sphere((draws.len() - 1) as usize, draws.last()) {
            Some(sphere) => before.push(sphere),
            None => before,
        }
    }
}

/// The scene that the draws give: the ground, the small spheres, and the
/// three large ones.
pub open spec fn scene_of(draws: Seq<SphereDraws>) -> Seq<Sphere<MaterialKind>> {
    seq![ground()] + small_spheres(draws) + landmarks()
}

/// Every sphere of the sequence is of a material that never amplifies.
pub open spec fn all_passive(spheres: Seq<Sphere<MaterialKind>>) -> bool {
    forall|i: int| 0 <= i < spheres.len() ==> (#[trigger] spheres[i]).material.is_passive()
}

/// Valid draws give small spheres that never amplify, at most one for
/// each draw.
pub proof fn lemma_small_spheres(draws: Seq<SphereDraws>)
    requires
        forall|i: int| 0 <= i < draws.len() ==> (#[trigger] draws[i]).is_valid(),
    ensures
        all_passive(small_spheres(draws)),
        small_spheres(draws).len() <= draws.len(),
    decreases draws.len(),
{
    if draws.len() > 0 {
        lemma_small_spheres(draws.drop_last());
        draws.last().lemma_material_is_passive();
    }
}

/// Builds the scene that `draws` give.
pub fn arrange_scene(draws: &Vec<SphereDraws>) -> (world: HittableList<Sphere<MaterialKind>>)
    ensures
        world@ == scene_of(draws@),
        (forall|i: int| 0 <= i < draws.len() ==> (#[trigger] draws[i]).is_valid()) ==> passive(
            &world,
        ),
{
    let mut world: HittableList<Sphere<MaterialKind>> = HittableList::default();
    world.push(
        Sphere::new(
            Vec3::from_raw(0, -1_000_000_000, 0),
            Fixed::from_raw(1_000_000_000),
            MaterialKind::Lambertian(Lambertian::new(Vec3::from_raw(500_000, 500_000, 500_000))),
        ),
    );
    let mut cell: usize = 0;
    while cell < draws.len()
        invariant
            cell <= draws.len(),
            world@ == seq![ground()] + small_spheres(draws@.take(cell as int)),
        decreases draws.len() - cell,
    {
        assert(draws@.take(cell + 1).drop_last() == draws@.take(cell as int));
        if let Some(sphere) = small_sphere(cell, draws[cell]) {
            world.push(sphere);
        }
        cell += 1;
    }
    assert(draws@.take(cell as int) == draws@);
    world.push(
        Sphere::new(
            Vec3::from_raw(0, 1_000_000, 0),
            Fixed::one(),
            MaterialKind::Dielectric(Dielectric::new(Fixed::from_raw(1_500_000))),
        ),
    );
    world.push(
        Sphere::new(
            Vec3::from_raw(-4_000_000, 1_000_000, 0),
            Fixed::one(),
            MaterialKind::Lambertian(Lambertian::new(Vec3::from_raw(400_000, 200_000, 100_000))),
        ),
    );
    world.push(
        Sphere::new(
            Vec3::from_raw(4_000_000, 1_000_000, 0),
            Fixed::one(),
            MaterialKind::Metal(
                Metal::new(Vec3::from_raw(700_000, 600_000, 500_000), Fixed::zero()),
            ),
        ),
    );
    proof {
        assert(world@ == scene_of(draws@));
        if forall|i: int| 0 <= i < draws.len() ==> (#[trigger] draws[i]).is_valid() {
            lemma_scene_is_passive(&world, draws@);
        }
    }
    world
}

/// The scene that valid draws give never amplifies.
pub proof fn lemma_scene_is_passive(world: &HittableList<Sphere<MaterialKind>>, draws: Seq<SphereDraws>)
    requires
        world@ == scene_of(draws),
        forall|i: int| 0 <= i < draws.len() ==> (#[trigger] draws[i]).is_valid(),
    ensures
        passive(world),
{
    lemma_small_spheres(draws);
    let small = small_spheres(draws);
    assert forall|i: int| 0 <= i < world@.len() implies passive(&#[trigger] world@[i]) by {
        let sphere = world@[i];
        if i == 0 {
            assert(sphere == ground());
        } else if i <= small.len() {
            assert(sphere == small[i - 1]);
        } else {
            assert(sphere == landmarks()[i - 1 - small.len()]);
        }
        assert(sphere.material.is_passive());
        sphere.material.lemma_non_amplifying();
        sphere.lemma_passive();
    }
    world.lemma_passive();
}

/// A scene of the ground, three large spheres and a field of 22 by 22
/// cells of small ones, decided by numbers drawn from `rng`.
pub fn random_scene(rng: &mut StdRng) -> (world: HittableList<Sphere<MaterialKind>>)
    ensures
        exists|draws: Seq<SphereDraws>|
            {
                &&& draws.len() == GRID_CELLS
                &&& forall|i: int| 0 <= i < draws.len() ==> (#[trigger] draws[i]).is_valid()
                &&& world@ == #[trigger] scene_of(draws)
            },
        4 <= world@.len() <= 4 + GRID_CELLS,
        passive(&world),
{
    let mut draws: Vec<SphereDraws> = Vec::new();
    while draws.len() < GRID_CELLS
        invariant
            draws.len() <= GRID_CELLS,
            forall|i: int| 0 <= i < draws.len() ==> (#[trigger] draws[i]).is_valid(),
        decreases GRID_CELLS - draws.len(),
    {
        draws.push(SphereDraws::draw(rng));
    }
    proof {
        lemma_small_spheres(draws@);
    }
    arrange_scene(&draws)
}

} // verus!
