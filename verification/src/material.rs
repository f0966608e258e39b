//! Materials: how a surface sends an incoming ray on.

use crate::fixed::{lemma_mul_zero, Fixed, SCALE};
use crate::hittable::HitRecord;
use crate::random::{cube_point, in_unit_sphere, is_unit, random_in_unit_sphere, random_unit};
use crate::ray::Ray;
use crate::vec3::Vec3;
use rand::rngs::StdRng;
use vstd::prelude::*;

verus! {

/// The random choices of one scatter event.
#[derive(Clone, Copy, Debug, PartialEq, Eq, Structural)]
pub struct ScatterSample {
    /// A point inside the unit sphere.
    pub sphere: Vec3,
    /// A number in `[0, 1)`.
    pub coin: Fixed,
}

impl ScatterSample {
    /// The point lies inside the unit sphere and the coin in `[0, 1)`.
    pub open spec fn is_valid(self) -> bool {
        &&& in_unit_sphere(self.sphere)
        &&& is_unit(self.coin)
    }

    pub open spec fn spec_still() -> ScatterSample {
        ScatterSample { sphere: Vec3::zeros(), coin: Fixed::zero() }
    }

    /// The sample of no randomness at all: the centre of the sphere and
    /// a coin of zero.
    #[verifier::when_used_as_spec(spec_still)]
    pub fn still() -> (s: ScatterSample)
        ensures
            s == ScatterSample::spec_still(),
            s.is_valid(),
    {
        ScatterSample { sphere: Vec3::zeros(), coin: Fixed::zero() }
    }

    /// Draws the choices of one scatter event from `rng`: a point of the
    /// cube that lies inside the sphere, and a coin.
    pub fn draw(rng: &mut StdRng) -> (s: ScatterSample)
        ensures
            s.is_valid(),
            exists|a: Fixed, b: Fixed, c: Fixed|
                is_unit(a) && is_unit(b) && is_unit(c) && s.sphere == #[trigger] cube_point(a, b, c),
    {
        let sphere = random_in_unit_sphere(rng);
        let coin = random_unit(rng);
        ScatterSample { sphere, coin }
    }
}

/// A rule that decides whether and how light leaves a surface.
pub trait Material: Sized {
    /// The scattered ray and its attenuation, or `None` where the ray is
    /// absorbed.
    spec fn scatter_spec(&self, ray: Ray, rec: HitRecord<'_, Self>, sample: ScatterSample) -> Option<
        (Ray, Vec3),
    >;

    /// Scatters `ray`, which hit the surface as `rec` records, using the
    /// random choices in `sample` and nothing else.
    fn scatter(&self, ray: Ray, rec: HitRecord<'_, Self>, sample: ScatterSample) -> (r: Option<
        (Ray, Vec3),
    >)
        ensures
            r == self.scatter_spec(ray, rec, sample),
    ;
}

/// Scattering has no hidden state: whatever two runs on the same ray, hit
/// and random choices return, it is the same.
pub proof fn lemma_scatter_is_deterministic<M: Material>(
    material: &M,
    ray: Ray,
    rec: HitRecord<'_, M>,
    sample: ScatterSample,
    first: Option<(Ray, Vec3)>,
    second: Option<(Ray, Vec3)>,
)
    requires
        call_ensures(M::scatter, (material, ray, rec, sample), first),
        call_ensures(M::scatter, (material, ray, rec, sample), second),
    ensures
        first == second,
{
}

/// The material never returns more light than it receives: whatever it
/// scatters, each component of its attenuation lies in `[0, 1]`.
pub open spec fn non_amplifying<M: Material>(material: &M) -> bool {
    forall|ray: Ray, rec: HitRecord<'_, M>, sample: ScatterSample|
        (#[trigger] material.scatter_spec(ray, rec, sample)) matches Some((_, attenuation))
            ==> attenuation.is_unit_colour()
}

pub open spec fn spec_reflect(v: Vec3, n: Vec3) -> Vec3 {
    v.sub(n.scale(Fixed::from_int(2).mul(v.dot(n))))
}

/// The mirror image of `v` about the plane with normal `n`:
/// `v - 2 (v . n) n`.
#[verifier::when_used_as_spec(spec_reflect)]
pub fn reflect(v: Vec3, n: Vec3) -> (r: Vec3)
    ensures
        r == spec_reflect(v, n),
{
    v.sub(n.scale(Fixed::from_int(2).mul(v.dot(n))))
}

/// What stands under the root in Snell's law: `1 - ratio^2 (1 - cos^2)`,
/// where `cos` is the dot product of the unit direction with the normal.
pub open spec fn refraction_discriminant(v: Vec3, n: Vec3, etai_over_etat: Fixed) -> Fixed {
    let dt = v.normalize().dot(n);
    Fixed::one().sub(etai_over_etat.mul(etai_over_etat).mul(Fixed::one().sub(dt.mul(dt))))
}

pub open spec fn spec_refract(v: Vec3, n: Vec3, etai_over_etat: Fixed) -> Option<Vec3> {
    let uv = v.normalize();
    let dt = uv.dot(n);
    let discriminant = refraction_discriminant(v, n, etai_over_etat);
    if discriminant@ > 0 {
        Some(uv.sub(n.scale(dt)).scale(etai_over_etat).sub(n.scale(discriminant.sqrt())))
    } else {
        None
    }
}

/// The direction of `v` once refracted at a surface with normal `n`, for
/// the given ratio of refractive indices; `None` where the light is
/// reflected totally, that is where the discriminant is not positive.
#[verifier::when_used_as_spec(spec_refract)]
pub fn refract(v: Vec3, n: Vec3, etai_over_etat: Fixed) -> (r: Option<Vec3>)
    ensures
        r == spec_refract(v, n, etai_over_etat),
{
    let uv = v.normalize();
    let dt = uv.dot(n);
    let discriminant = Fixed::one().sub(
        etai_over_etat.mul(etai_over_etat).mul(Fixed::one().sub(dt.mul(dt))),
    );
    if discriminant.raw > 0 {
        let refracted = uv.sub(n.scale(dt)).scale(etai_over_etat).sub(n.scale(discriminant.sqrt()));
        Some(refracted)
    } else {
        None
    }
}

/// The reflectance at normal incidence: `((1 - ir) / (1 + ir))^2`.
pub open spec fn normal_reflectance(ir: Fixed) -> Fixed {
    let q = Fixed::one().sub(ir).div(Fixed::one().add(ir));
    q.mul(q)
}

/// The fifth power, by two squarings and a product.
pub open spec fn fifth_power(x: Fixed) -> Fixed {
    let square = x.mul(x);
    square.mul(square).mul(x)
}

pub open spec fn spec_schlick(cosine: Fixed, ir: Fixed) -> Fixed {
    let r0 = normal_reflectance(ir);
    r0.add(Fixed::one().sub(r0).mul(fifth_power(Fixed::one().sub(cosine))))
}

/// Schlick's approximation of the share of light that a dielectric
/// reflects: `r0 + (1 - r0) (1 - cosine)^5`.
#[verifier::when_used_as_spec(spec_schlick)]
pub fn schlick(cosine: Fixed, ir: Fixed) -> (r: Fixed)
    ensures
        r == spec_schlick(cosine, ir),
{
    let q = Fixed::one().sub(ir).div(Fixed::one().add(ir));
    let r0 = q.mul(q);
    let x = Fixed::one().sub(cosine);
    let square = x.mul(x);
    r0.add(Fixed::one().sub(r0).mul(square.mul(square).mul(x)))
}

/// Head-on, Schlick's approximation is the reflectance at normal
/// incidence, whatever the refractive index.
pub proof fn lemma_schlick_at_normal_incidence(ir: Fixed)
    ensures
        schlick(Fixed::one(), ir) == normal_reflectance(ir),
{
    let r0 = normal_reflectance(ir);
    let zero = Fixed::one().sub(Fixed::one());
    assert(zero == Fixed::zero());
    lemma_mul_zero(Fixed::zero());
    lemma_mul_zero(Fixed::one().sub(r0));
}

/// A matte surface.
#[derive(Clone, Copy, Debug, PartialEq, Eq, Structural)]
pub struct Lambertian {
    pub albedo: Vec3,
}

impl Lambertian {
    pub open spec fn spec_new(albedo: Vec3) -> Lambertian {
        Lambertian { albedo }
    }

    /// A matte surface of the given colour.
    #[verifier::when_used_as_spec(spec_new)]
    pub fn new(albedo: Vec3) -> (r: Lambertian)
        ensures
            r == Lambertian::spec_new(albedo),
    {
        Lambertian { albedo }
    }

    /// A matte surface whose colour has no component above one or below
    /// zero never amplifies.
    pub proof fn lemma_non_amplifying(&self)
        requires
            self.albedo.is_unit_colour(),
        ensures
            non_amplifying(self),
    {
    }
}

impl Material for Lambertian {
    /// Always scatters, about the normal, and tints by the albedo.
    open spec fn scatter_spec(
        &self,
        ray: Ray,
        rec: HitRecord<'_, Lambertian>,
        sample: ScatterSample,
    ) -> Option<(Ray, Vec3)> {
        Some((Ray::new(rec.point, rec.normal.add(sample.sphere)), self.albedo))
    }

    fn scatter(&self, ray: Ray, rec: HitRecord<'_, Lambertian>, sample: ScatterSample) -> (r: Option<
        (Ray, Vec3),
    >)
        ensures
            r is Some,
    {
        let scattered = Ray::new(rec.point, rec.normal.add(sample.sphere));
        Some((scattered, self.albedo))
    }
}

/// A mirror, more or less rough.
#[derive(Clone, Copy, Debug, PartialEq, Eq, Structural)]
pub struct Metal {
    pub albedo: Vec3,
    pub fuzz: Fixed,
}

impl Metal {
    /// The roughness lies in `[0, 1]`.
    pub open spec fn is_well_formed(&self) -> bool {
        0 <= self.fuzz@ <= SCALE
    }

    pub open spec fn spec_new(albedo: Vec3, fuzz: Fixed) -> Metal {
        Metal { albedo, fuzz: fuzz.clamp(Fixed::zero(), Fixed::one()) }
    }

    /// A mirror of the given colour; `fuzz` is its roughness, moved into
    /// `[0, 1]`.
    #[verifier::when_used_as_spec(spec_new)]
    pub fn new(albedo: Vec3, fuzz: Fixed) -> (r: Metal)
        ensures
            r == Metal::spec_new(albedo, fuzz),
            r.is_well_formed(),
    {
        Metal { albedo, fuzz: fuzz.clamp(Fixed::zero(), Fixed::one()) }
    }

    /// The direction in which the mirror sends `ray` on: the mirror image
    /// of its unit direction, moved by the sample in proportion to the
    /// roughness.
    pub open spec fn outgoing(&self, ray: Ray, normal: Vec3, sample: ScatterSample) -> Vec3 {
        reflect(ray.direction.normalize(), normal).add(sample.sphere.scale(self.fuzz))
    }

    /// A mirror whose colour has no component above one or below zero
    /// never amplifies.
    pub proof fn lemma_non_amplifying(&self)
        requires
            self.albedo.is_unit_colour(),
        ensures
            non_amplifying(self),
    {
    }

    /// A perfectly smooth mirror follows the mirror law and nothing else:
    /// the sample has no part in what it returns.
    pub proof fn lemma_mirror_law(
        &self,
        ray: Ray,
        rec: HitRecord<'_, Metal>,
        sample: ScatterSample,
        other: ScatterSample,
    )
        requires
            self.fuzz@ == 0,
        ensures
            self.outgoing(ray, rec.normal, sample) == reflect(ray.direction.normalize(), rec.normal),
            self.scatter_spec(ray, rec, sample) == self.scatter_spec(ray, rec, other),
            self.scatter_spec(ray, rec, sample) matches Some((scattered, _)) ==> scattered.direction
                == reflect(ray.direction.normalize(), rec.normal),
    {
        lemma_mul_zero(sample.sphere.x);
        lemma_mul_zero(sample.sphere.y);
        lemma_mul_zero(sample.sphere.z);
        lemma_mul_zero(other.sphere.x);
        lemma_mul_zero(other.sphere.y);
        lemma_mul_zero(other.sphere.z);
    }
}

impl Material for Metal {
    /// Scatters where the outgoing direction leaves the surface, and
    /// absorbs the ray where it would point into it.
    open spec fn scatter_spec(&self, ray: Ray, rec: HitRecord<'_, Metal>, sample: ScatterSample) -> Option<
        (Ray, Vec3),
    > {
        let reflected_fuzzed = self.outgoing(ray, rec.normal, sample);
        if reflected_fuzzed.dot(rec.normal)@ > 0 {
            Some((Ray::new(rec.point, reflected_fuzzed), self.albedo))
        } else {
            None
        }
    }

    fn scatter(&self, ray: Ray, rec: HitRecord<'_, Metal>, sample: ScatterSample) -> (r: Option<
        (Ray, Vec3),
    >) {
        let reflected = reflect(ray.direction().normalize(), rec.normal);
        let reflected_fuzzed = reflected.add(sample.sphere.scale(self.fuzz));
        if reflected_fuzzed.dot(rec.normal).raw > 0 {
            let scattered = Ray::new(rec.point, reflected_fuzzed);
            Some((scattered, self.albedo))
        } else {
            None
        }
    }
}

/// A clear material that refracts, such as glass.
#[derive(Clone, Copy, Debug, PartialEq, Eq, Structural)]
pub struct Dielectric {
    /// Index of refraction.
    pub ir: Fixed,
}

impl Dielectric {
    pub open spec fn spec_new(index_of_refraction: Fixed) -> Dielectric {
        Dielectric { ir: index_of_refraction }
    }

    /// A clear material with the given index of refraction.
    #[verifier::when_used_as_spec(spec_new)]
    pub fn new(index_of_refraction: Fixed) -> (r: Dielectric)
        ensures
            r == Dielectric::spec_new(index_of_refraction),
    {
        Dielectric { ir: index_of_refraction }
    }

    /// The ray leaves the medium: it runs along the normal.
    pub open spec fn exiting(ray: Ray, normal: Vec3) -> bool {
        ray.direction.dot(normal)@ > 0
    }

    /// The normal on the side from which the ray comes.
    pub open spec fn outward_normal(ray: Ray, normal: Vec3) -> Vec3 {
        if Dielectric::exiting(ray, normal) {
            normal.neg()
        } else {
            normal
        }
    }

    /// The refractive index on the ray's side over the one beyond.
    pub open spec fn refraction_ratio(&self, ray: Ray, normal: Vec3) -> Fixed {
        if Dielectric::exiting(ray, normal) {
            self.ir
        } else {
            Fixed::one().div(self.ir)
        }
    }

    /// The cosine that the reflectance is taken at.
    pub open spec fn cosine(&self, ray: Ray, normal: Vec3) -> Fixed {
        let along = ray.direction.dot(normal);
        if Dielectric::exiting(ray, normal) {
            self.ir.mul(along).div(ray.direction.magnitude())
        } else {
            along.neg().div(ray.direction.magnitude())
        }
    }

    /// The share of the light that is reflected: all of it where the
    /// discriminant of Snell's law is not positive, and otherwise what
    /// Schlick's approximation gives.
    pub open spec fn reflectance(&self, ray: Ray, normal: Vec3) -> Option<Fixed> {
        if refraction_discriminant(
            ray.direction,
            Dielectric::outward_normal(ray, normal),
            self.refraction_ratio(ray, normal),
        )@ > 0 {
            Some(schlick(self.cosine(ray, normal), self.ir))
        } else {
            None
        }
    }

    /// A dielectric never amplifies: it leaves the light as it is.
    pub proof fn lemma_non_amplifying(&self)
        ensures
            non_amplifying(self),
    {
    }

    /// A dielectric absorbs nothing: it always scatters, and with no
    /// tint.
    pub proof fn lemma_always_scatters(&self, ray: Ray, rec: HitRecord<'_, Dielectric>, sample: ScatterSample)
        ensures
            self.scatter_spec(ray, rec, sample) matches Some((scattered, attenuation))
                && scattered.origin == rec.point && attenuation == Vec3::ones(),
    {
    }

    /// Under total internal reflection the ray is reflected, whatever the
    /// coin shows.
    pub proof fn lemma_total_internal_reflection(
        &self,
        ray: Ray,
        rec: HitRecord<'_, Dielectric>,
        sample: ScatterSample,
    )
        requires
            self.reflectance(ray, rec.normal) is None,
        ensures
            self.scatter_spec(ray, rec, sample) == Some(
                (Ray::new(rec.point, reflect(ray.direction, rec.normal)), Vec3::ones()),
            ),
    {
    }
}

impl Material for Dielectric {
    /// Refracts where Snell's law has a solution and the coin is not
    /// below the reflectance, and reflects otherwise.
    open spec fn scatter_spec(
        &self,
        ray: Ray,
        rec: HitRecord<'_, Dielectric>,
        sample: ScatterSample,
    ) -> Option<(Ray, Vec3)> {
        let refracted = refract(
            ray.direction,
            Dielectric::outward_normal(ray, rec.normal),
            self.refraction_ratio(ray, rec.normal),
        );
        let direction = if refracted is Some && sample.coin@ >= schlick(
            self.cosine(ray, rec.normal),
            self.ir,
        )@ {
            refracted->0
        } else {
            reflect(ray.direction, rec.normal)
        };
        Some((Ray::new(rec.point, direction), Vec3::ones()))
    }

    fn scatter(&self, ray: Ray, rec: HitRecord<'_, Dielectric>, sample: ScatterSample) -> (r: Option<
        (Ray, Vec3),
    >)
        ensures
            r is Some,
    {
        let attenuation = Vec3::ones();
        let along = ray.direction().dot(rec.normal);
        let (outward_normal, ni_over_nt, cosine) = if along.raw > 0 {
            let cosine = self.ir.mul(along).div(ray.direction().magnitude());
            (rec.normal.neg(), self.ir, cosine)
        } else {
            let cosine = along.neg().div(ray.direction().magnitude());
            (rec.normal, Fixed::one().div(self.ir), cosine)
        };
        if let Some(refracted) = refract(ray.direction(), outward_normal, ni_over_nt) {
            let reflect_prob = schlick(cosine, self.ir);
            if sample.coin.raw >= reflect_prob.raw {
                let scattered = Ray::new(rec.point, refracted);
                return Some((scattered, attenuation));
            }
        }
        let reflected = reflect(ray.direction(), rec.normal);
        let scattered = Ray::new(rec.point, reflected);
        Some((scattered, attenuation))
    }
}

/// Any of the three materials, for scenes that mix them.
#[derive(Clone, Copy, Debug, PartialEq, Eq, Structural)]
pub enum MaterialKind {
    Lambertian(Lambertian),
    Metal(Metal),
    Dielectric(Dielectric),
}

impl MaterialKind {
    /// The material never amplifies.
    pub open spec fn is_passive(&self) -> bool {
        match self {
            MaterialKind::Lambertian(m) => m.albedo.is_unit_colour(),
            MaterialKind::Metal(m) => m.albedo.is_unit_colour(),
            MaterialKind::Dielectric(_) => true,
        }
    }

    /// A material whose colour, if it has one, has no component above one
    /// or below zero never amplifies.
    pub proof fn lemma_non_amplifying(&self)
        requires
            self.is_passive(),
        ensures
            non_amplifying(self),
    {
    }
}

impl Material for MaterialKind {
    /// What the material inside does.
    open spec fn scatter_spec(
        &self,
        ray: Ray,
        rec: HitRecord<'_, MaterialKind>,
        sample: ScatterSample,
    ) -> Option<(Ray, Vec3)> {
        match self {
            MaterialKind::Lambertian(m) => m.scatter_spec(ray, rec.with_material(m), sample),
            MaterialKind::Metal(m) => m.scatter_spec(ray, rec.with_material(m), sample),
            MaterialKind::Dielectric(m) => m.scatter_spec(ray, rec.with_material(m), sample),
        }
    }

    fn scatter(&self, ray: Ray, rec: HitRecord<'_, MaterialKind>, sample: ScatterSample) -> (r: Option<
        (Ray, Vec3),
    >) {
        match self {
            MaterialKind::Lambertian(m) => m.scatter(ray, rec.with_material(m), sample),
            MaterialKind::Metal(m) => m.scatter(ray, rec.with_material(m), sample),
            MaterialKind::Dielectric(m) => m.scatter(ray, rec.with_material(m), sample),
        }
    }
}

} // verus!
