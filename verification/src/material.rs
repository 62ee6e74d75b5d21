//! Materials: how a surface scatters the light that falls on it, and what
//! light it gives off.

use vstd::prelude::*;
use crate::scalar::{Real, ONE_BITS};
use crate::vec3::{Vec3, dot};
use crate::ray::Ray;
use crate::hitrecord::HitRecord;
use crate::texture::Texture;
use crate::sampling::{Sampler, ATTEMPTS, lemma_advanced, lemma_unit_vector_draws, random_double,
    random_unit_vector, spec_random_unit_vector, unit_vector_most};
use crate::optics::{cos_incidence, reflect, reflectance, refract};

verus! {

/// What a surface makes of a ray: the ray that leaves it, and the share of
/// each color that the surface lets through.
#[derive(Clone, Copy, Debug)]
pub struct ScatterResult {
    pub attenuation: Vec3,
    pub scattered: Ray,
}

impl ScatterResult {
    pub open spec fn spec_new(attenuation: Vec3, scattered: Ray) -> ScatterResult {
        ScatterResult { attenuation, scattered }
    }

    #[verifier::when_used_as_spec(spec_new)]
    pub fn new(attenuation: Vec3, scattered: Ray) -> (r: ScatterResult)
        ensures
            r == ScatterResult::spec_new(attenuation, scattered),
    {
        ScatterResult { attenuation, scattered }
    }
}

/// A matte surface.
pub struct Lambertian {
    pub texture: Texture,
}

/// Glass and the like. The index is that of the material relative to what
/// surrounds it.
pub struct Dielectric {
    pub refraction_index: Real,
}

/// A mirror, blurred by `fuzz`.
pub struct Metal {
    pub albedo: Vec3,
    pub fuzz: Real,
}

/// A lamp.
pub struct DiffuseLight {
    pub texture: Texture,
}

/// Smoke: light leaves it in any direction.
pub struct Isotropic {
    pub texture: Texture,
}

/// The material of a surface or of smoke.
pub enum Material {
    Lambertian(Lambertian),
    Metal(Metal),
    Dielectric(Dielectric),
    DiffuseLight(DiffuseLight),
    Isotropic(Isotropic),
}

impl Lambertian {
    pub fn new(texture: Texture) -> (r: Lambertian)
        ensures
            r.texture == texture,
    {
        Lambertian { texture }
    }

    /// The direction in which a matte surface sends a ray on: the normal
    /// plus a random unit vector, or the normal alone where the two all but
    /// cancel.
    pub open spec fn spec_direction(normal: Vec3, random: Vec3) -> Vec3 {
        if normal.add(random).near_zero() {
            normal
        } else {
            normal.add(random)
        }
    }

    /// The ray leaves the point that was hit in the direction above, at the
    /// time of the ray that came; the attenuation is the color of the
    /// texture there.
    pub open spec fn spec_scatter(&self, r_in: &Ray, hit_record: &HitRecord, s: Sampler) -> (
        Option<ScatterResult>,
        Sampler,
    ) {
        let (random, s1) = spec_random_unit_vector(s);
        (
            Some(
                ScatterResult {
                    attenuation: self.texture.spec_color_value(
                        hit_record.u,
                        hit_record.v,
                        hit_record.p,
                    ),
                    scattered: Ray {
                        origin: hit_record.p,
                        direction: Self::spec_direction(hit_record.normal, random),
                        tm: r_in.tm,
                    },
                },
            ),
            s1,
        )
    }

    pub fn scatter(&self, r_in: &Ray, hit_record: &HitRecord, s: &mut Sampler) -> (r: Option<
        ScatterResult,
    >)
        requires
            old(s).wf(),
            self.texture.wf(),
        ensures
            final(s).wf(),
            (r, *final(s)) == self.spec_scatter(r_in, hit_record, *old(s)),
            r matches Some(out) && out.scattered.origin == hit_record.p && out.scattered.tm
                == r_in.tm,
    {
        let mut scatter_direction = hit_record.normal.add(random_unit_vector(s));
        if scatter_direction.near_zero() {
            scatter_direction = hit_record.normal;
        }
        let scattered = Ray::new2(hit_record.p, scatter_direction, r_in.tm);
        let attenuation = self.texture.color_value(hit_record.u, hit_record.v, hit_record.p);
        Some(ScatterResult::new(attenuation, scattered))
    }
}

impl Metal {
    pub fn new(albedo: Vec3, fuzz: Real) -> (r: Metal)
        ensures
            r.albedo == albedo,
            r.fuzz == fuzz,
    {
        Metal { albedo, fuzz }
    }

    /// The direction in which a mirror sends a ray on: the mirror image of the
    /// ray's direction, brought to unit length, plus `fuzz` times a random
    /// unit vector.
    pub open spec fn spec_direction(&self, incoming: Vec3, normal: Vec3, random: Vec3) -> Vec3 {
        reflect(incoming, normal).normalized().add(random.scaled_by(self.fuzz))
    }

    /// The ray is mirrored at the surface and blurred. A ray that after this
    /// does not leave the surface is swallowed: one whose direction has a dot
    /// product with the normal that is not above 0.
    pub open spec fn spec_scatter(&self, r_in: &Ray, hit_record: &HitRecord, s: Sampler) -> (
        Option<ScatterResult>,
        Sampler,
    ) {
        let (random, s1) = spec_random_unit_vector(s);
        let direction = self.spec_direction(r_in.direction, hit_record.normal, random);
        if dot(&direction, &hit_record.normal).gt(Real { bits: 0 }) {
            (
                Some(
                    ScatterResult {
                        attenuation: self.albedo,
                        scattered: Ray { origin: hit_record.p, direction, tm: r_in.tm },
                    },
                ),
                s1,
            )
        } else {
            (None, s1)
        }
    }

    pub fn scatter(&self, r_in: &Ray, hit_record: &HitRecord, s: &mut Sampler) -> (r: Option<
        ScatterResult,
    >)
        requires
            old(s).wf(),
        ensures
            final(s).wf(),
            (r, *final(s)) == self.spec_scatter(r_in, hit_record, *old(s)),
            r matches Some(out) ==> {
                &&& dot(&out.scattered.direction, &hit_record.normal).gt(Real { bits: 0 })
                &&& out.attenuation == self.albedo
                &&& out.scattered.origin == hit_record.p
                &&& out.scattered.tm == r_in.tm
            },
            r.is_none() ==> !dot(
                &self.spec_direction(
                    r_in.direction,
                    hit_record.normal,
                    spec_random_unit_vector(*old(s)).0,
                ),
                &hit_record.normal,
            ).gt(Real { bits: 0 }),
    {
        let reflected = reflect(r_in.direction, hit_record.normal);
        let fuzzy_reflected = reflected.normalized().add(
            random_unit_vector(s).scaled_by(self.fuzz),
        );
        if dot(&fuzzy_reflected, &hit_record.normal).gt(Real::zero()) {
            let scattered = Ray::new2(hit_record.p, fuzzy_reflected, r_in.tm);
            return Some(ScatterResult::new(self.albedo, scattered));
        }
        None
    }
}

impl Dielectric {
    pub fn new(refraction_index: Real) -> (r: Dielectric)
        ensures
            r.refraction_index == refraction_index,
    {
        Dielectric { refraction_index }
    }

    /// The ratio of the refractive indices that a ray meets: the inverse of
    /// the material's index on the way in, the index itself on the way out.
    pub open spec fn spec_ratio(&self, front_face: bool) -> Real {
        if front_face {
            Real { bits: ONE_BITS }.div(self.refraction_index)
        } else {
            self.refraction_index
        }
    }

    /// Whether Snell's law has no solution, so that all light is reflected:
    /// the ratio times the sine of the angle of incidence exceeds 1.
    pub open spec fn spec_cannot_refract(ri: Real, cos_theta: Real) -> bool {
        ri.mul(Real { bits: ONE_BITS }.sub(cos_theta.mul(cos_theta)).sqrt()).gt(
            Real { bits: ONE_BITS },
        )
    }

    /// The direction in which glass sends on a ray of the unit direction
    /// `unit_direction`, given the number `chance` in [0, 1): the mirror
    /// image where the ray cannot be refracted or the reflectance exceeds
    /// `chance`, and the refracted direction otherwise.
    pub open spec fn spec_direction(unit_direction: Vec3, normal: Vec3, ri: Real, chance: Real) -> Vec3 {
        let cos_theta = cos_incidence(unit_direction, normal);
        if Self::spec_cannot_refract(ri, cos_theta) || reflectance(cos_theta, ri).gt(chance) {
            reflect(unit_direction, normal)
        } else {
            refract(unit_direction, normal, ri)
        }
    }

    pub fn direction(unit_direction: Vec3, normal: Vec3, ri: Real, chance: Real) -> (r: Vec3)
        ensures
            r == Self::spec_direction(unit_direction, normal, ri, chance),
    {
        let cos_theta = cos_incidence(unit_direction, normal);
        let sin_theta = Real::one().sub(cos_theta.mul(cos_theta)).sqrt();
        if ri.mul(sin_theta).gt(Real::one()) || reflectance(cos_theta, ri).gt(chance) {
            reflect(unit_direction, normal)
        } else {
            refract(unit_direction, normal, ri)
        }
    }

    /// Glass takes nothing from the light. Where the ray can be refracted, a
    /// random number decides between reflection and refraction; where not,
    /// none is drawn.
    pub open spec fn spec_scatter(&self, r_in: &Ray, hit_record: &HitRecord, s: Sampler) -> (
        Option<ScatterResult>,
        Sampler,
    ) {
        let one = Real { bits: ONE_BITS };
        let ri = self.spec_ratio(hit_record.front_face);
        let unit_direction = r_in.direction.normalized();
        let cos_theta = cos_incidence(unit_direction, hit_record.normal);
        let total = Self::spec_cannot_refract(ri, cos_theta);
        (
            Some(
                ScatterResult {
                    attenuation: Vec3 { x: one, y: one, z: one },
                    scattered: Ray {
                        origin: hit_record.p,
                        direction: Self::spec_direction(
                            unit_direction,
                            hit_record.normal,
                            ri,
                            s.peek(),
                        ),
                        tm: r_in.tm,
                    },
                },
            ),
            if total { s } else { s.advanced() },
        )
    }

    pub fn scatter(&self, r_in: &Ray, hit_record: &HitRecord, s: &mut Sampler) -> (r: Option<
        ScatterResult,
    >)
        requires
            old(s).wf(),
        ensures
            final(s).wf(),
            (r, *final(s)) == self.spec_scatter(r_in, hit_record, *old(s)),
            r matches Some(out) && out.attenuation == (Vec3 {
                x: Real { bits: ONE_BITS },
                y: Real { bits: ONE_BITS },
                z: Real { bits: ONE_BITS },
            }) && out.scattered.origin == hit_record.p && out.scattered.tm == r_in.tm,
    {
        let attenuation = Vec3::new(Real::one(), Real::one(), Real::one());
        let ri = if hit_record.front_face {
            Real::one().div(self.refraction_index)
        } else {
            self.refraction_index
        };
        let unit_direction = r_in.direction.normalized();
        let cos_theta = cos_incidence(unit_direction, hit_record.normal);
        let sin_theta = Real::one().sub(cos_theta.mul(cos_theta)).sqrt();
        let cannot_refract = ri.mul(sin_theta).gt(Real::one());
        let direction = if cannot_refract {
            reflect(unit_direction, hit_record.normal)
        } else {
            let chance = random_double(s);
            Self::direction(unit_direction, hit_record.normal, ri, chance)
        };
        let scattered = Ray::new2(hit_record.p, direction, r_in.tm);
        Some(ScatterResult::new(attenuation, scattered))
    }
}

impl DiffuseLight {
    pub fn new(texture: Texture) -> (r: DiffuseLight)
        ensures
            r.texture == texture,
    {
        DiffuseLight { texture }
    }

    /// A lamp sends no ray on.
    pub open spec fn spec_scatter(&self, r_in: &Ray, hit_record: &HitRecord, s: Sampler) -> (
        Option<ScatterResult>,
        Sampler,
    ) {
        (None, s)
    }

    pub fn scatter(&self, r_in: &Ray, hit_record: &HitRecord, s: &mut Sampler) -> (r: Option<
        ScatterResult,
    >)
        ensures
            (r, *final(s)) == self.spec_scatter(r_in, hit_record, *old(s)),
            r.is_none(),
            *final(s) == *old(s),
    {
        None
    }

    /// A lamp gives off the color of its texture.
    pub open spec fn spec_emitted(&self, u: Real, v: Real, p: Vec3) -> Vec3 {
        self.texture.spec_color_value(u, v, p)
    }

    pub fn emitted(&self, u: Real, v: Real, p: Vec3) -> (r: Vec3)
        requires
            self.texture.wf(),
        ensures
            r == self.spec_emitted(u, v, p),
    {
        self.texture.color_value(u, v, p)
    }
}

impl Isotropic {
    pub fn new(texture: Texture) -> (r: Isotropic)
        ensures
            r.texture == texture,
    {
        Isotropic { texture }
    }

    /// The ray leaves in a random direction; the attenuation is the color of
    /// the texture.
    pub open spec fn spec_scatter(&self, r_in: &Ray, hit_record: &HitRecord, s: Sampler) -> (
        Option<ScatterResult>,
        Sampler,
    ) {
        let (random, s1) = spec_random_unit_vector(s);
        (
            Some(
                ScatterResult {
                    attenuation: self.texture.spec_color_value(
                        hit_record.u,
                        hit_record.v,
                        hit_record.p,
                    ),
                    scattered: Ray { origin: hit_record.p, direction: random, tm: r_in.tm },
                },
            ),
            s1,
        )
    }

    pub fn scatter(&self, r_in: &Ray, hit_record: &HitRecord, s: &mut Sampler) -> (r: Option<
        ScatterResult,
    >)
        requires
            old(s).wf(),
            self.texture.wf(),
        ensures
            final(s).wf(),
            (r, *final(s)) == self.spec_scatter(r_in, hit_record, *old(s)),
            r matches Some(out) && out.scattered.origin == hit_record.p && out.scattered.tm
                == r_in.tm,
    {
        let attenuation = self.texture.color_value(hit_record.u, hit_record.v, hit_record.p);
        let scattered = Ray::new2(hit_record.p, random_unit_vector(s), r_in.tm);
        Some(ScatterResult::new(attenuation, scattered))
    }
}

impl Material {
    /// Whether the material's texture is well formed.
    pub open spec fn wf(&self) -> bool {
        match self {
            Material::Lambertian(m) => m.texture.wf(),
            Material::Metal(_) => true,
            Material::Dielectric(_) => true,
            Material::DiffuseLight(m) => m.texture.wf(),
            Material::Isotropic(m) => m.texture.wf(),
        }
    }

    pub fn valid(&self) -> (r: bool)
        ensures
            r == self.wf(),
    {
        match self {
            Material::Lambertian(m) => m.texture.valid(),
            Material::Metal(_) => true,
            Material::Dielectric(_) => true,
            Material::DiffuseLight(m) => m.texture.valid(),
            Material::Isotropic(m) => m.texture.valid(),
        }
    }

    /// What the material makes of a ray that hit it, and the sampler that is
    /// left.
    pub open spec fn spec_scatter(&self, r_in: &Ray, hit_record: &HitRecord, s: Sampler) -> (
        Option<ScatterResult>,
        Sampler,
    ) {
        match self {
            Material::Lambertian(m) => m.spec_scatter(r_in, hit_record, s),
            Material::Metal(m) => m.spec_scatter(r_in, hit_record, s),
            Material::Dielectric(m) => m.spec_scatter(r_in, hit_record, s),
            Material::DiffuseLight(m) => m.spec_scatter(r_in, hit_record, s),
            Material::Isotropic(m) => m.spec_scatter(r_in, hit_record, s),
        }
    }

    pub fn scatter(&self, r_in: &Ray, hit_record: &HitRecord, s: &mut Sampler) -> (r: Option<
        ScatterResult,
    >)
        requires
            old(s).wf(),
            self.wf(),
        ensures
            final(s).wf(),
            (r, *final(s)) == self.spec_scatter(r_in, hit_record, *old(s)),
    {
        match self {
            Material::Lambertian(m) => m.scatter(r_in, hit_record, s),
            Material::Metal(m) => m.scatter(r_in, hit_record, s),
            Material::Dielectric(m) => m.scatter(r_in, hit_record, s),
            Material::DiffuseLight(m) => m.scatter(r_in, hit_record, s),
            Material::Isotropic(m) => m.scatter(r_in, hit_record, s),
        }
    }

    /// The light that the material gives off: none, but for a lamp.
    pub open spec fn spec_emitted(&self, u: Real, v: Real, p: Vec3) -> Vec3 {
        match self {
            Material::DiffuseLight(m) => m.spec_emitted(u, v, p),
            _ => Vec3::zero(),
        }
    }

    pub fn emitted(&self, u: Real, v: Real, p: Vec3) -> (r: Vec3)
        requires
            self.wf(),
        ensures
            r == self.spec_emitted(u, v, p),
    {
        match self {
            Material::DiffuseLight(m) => m.emitted(u, v, p),
            _ => Vec3::zero(),
        }
    }
}

/// A material takes no more numbers to scatter a ray than a random unit
/// vector takes, and does not start the sampler again where that many are
/// left.
pub proof fn lemma_scatter_draws(m: &Material, r_in: &Ray, hit_record: &HitRecord, s: Sampler)
    requires
        s.wf(),
        s.left() >= unit_vector_most(),
    ensures
        m.spec_scatter(r_in, hit_record, s).1.follows(&s, unit_vector_most()),
{
    lemma_unit_vector_draws(ATTEMPTS as nat, s);
    lemma_advanced(s);
}

} // verus!
