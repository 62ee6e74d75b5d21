//! Mirror reflection, refraction and the reflectance of glass.

use vstd::prelude::*;
use crate::scalar::{Real, ONE_BITS, PI_BITS, STRAIGHT_ANGLE_BITS, TWO_BITS};
use crate::vec3::{Vec3, dot};

verus! {

/// An angle in radians: the degrees times pi, divided by 180.
pub open spec fn spec_degrees_to_radians(degrees: Real) -> Real {
    degrees.mul(Real { bits: PI_BITS }).div(Real { bits: STRAIGHT_ANGLE_BITS })
}

#[verifier::when_used_as_spec(spec_degrees_to_radians)]
pub fn degrees_to_radians(degrees: Real) -> (r: Real)
    ensures
        r == spec_degrees_to_radians(degrees),
{
    degrees.mul(Real::from_bits(PI_BITS)).div(Real::from_bits(STRAIGHT_ANGLE_BITS))
}

/// The mirror image of `v` at a surface with the normal `n`:
/// v - 2 (v . n) n.
pub open spec fn spec_reflect(v: Vec3, n: Vec3) -> Vec3 {
    v.sub(n.scaled_by(Real { bits: TWO_BITS }.mul(dot(&v, &n))))
}

#[verifier::when_used_as_spec(spec_reflect)]
pub fn reflect(v: Vec3, n: Vec3) -> (r: Vec3)
    ensures
        r == spec_reflect(v, n),
{
    v.sub(n.scaled_by(Real::from_bits(TWO_BITS).mul(dot(&v, &n))))
}

/// The cosine of the angle between a unit direction and the normal it runs
/// against, kept from exceeding 1.
pub open spec fn spec_cos_incidence(uv: Vec3, n: Vec3) -> Real {
    dot(&uv.neg(), &n).min(Real { bits: ONE_BITS })
}

#[verifier::when_used_as_spec(spec_cos_incidence)]
pub fn cos_incidence(uv: Vec3, n: Vec3) -> (r: Real)
    ensures
        r == spec_cos_incidence(uv, n),
{
    dot(&uv.neg(), &n).min(Real::one())
}

/// The direction of the unit vector `uv` after it has passed a surface with
/// the normal `n` into a medium whose refractive index is that of the medium
/// it leaves, divided by `etai_over_etat`: by Snell's law, the part across
/// the normal is etai_over_etat (uv + cos n), and the part along the normal
/// makes the length 1.
pub open spec fn spec_refract(uv: Vec3, n: Vec3, etai_over_etat: Real) -> Vec3 {
    let cos_theta = spec_cos_incidence(uv, n);
    let r_out_perp = uv.add(n.scaled_by(cos_theta)).scaled_by(etai_over_etat);
    let r_out_parallel = n.scaled_by(
        Real { bits: ONE_BITS }.sub(r_out_perp.length_squared()).abs().sqrt().neg(),
    );
    r_out_perp.add(r_out_parallel)
}

#[verifier::when_used_as_spec(spec_refract)]
pub fn refract(uv: Vec3, n: Vec3, etai_over_etat: Real) -> (r: Vec3)
    ensures
        r == spec_refract(uv, n, etai_over_etat),
{
    let cos_theta = cos_incidence(uv, n);
    let r_out_perp = uv.add(n.scaled_by(cos_theta)).scaled_by(etai_over_etat);
    let r_out_parallel = n.scaled_by(Real::one().sub(r_out_perp.length_squared()).abs().sqrt().neg());
    r_out_perp.add(r_out_parallel)
}

/// The fifth power, by three multiplications.
pub open spec fn spec_fifth_power(x: Real) -> Real {
    x.mul(x).mul(x.mul(x)).mul(x)
}

#[verifier::when_used_as_spec(spec_fifth_power)]
pub fn fifth_power(x: Real) -> (r: Real)
    ensures
        r == spec_fifth_power(x),
{
    let square = x.mul(x);
    square.mul(square).mul(x)
}

/// Schlick's approximation of the share of light that glass reflects:
/// r0 + (1 - r0) (1 - cosine)^5, where r0 is the square of
/// (1 - index) / (1 + index).
pub open spec fn spec_reflectance(cosine: Real, refraction_index: Real) -> Real {
    let one = Real { bits: ONE_BITS };
    let r0 = one.sub(refraction_index).div(one.add(refraction_index));
    let r0_squared = r0.mul(r0);
    r0_squared.add(one.sub(r0_squared).mul(spec_fifth_power(one.sub(cosine))))
}

#[verifier::when_used_as_spec(spec_reflectance)]
pub fn reflectance(cosine: Real, refraction_index: Real) -> (r: Real)
    ensures
        r == spec_reflectance(cosine, refraction_index),
{
    let one = Real::one();
    let r0 = one.sub(refraction_index).div(one.add(refraction_index));
    let r0_squared = r0.mul(r0);
    r0_squared.add(one.sub(r0_squared).mul(fifth_power(one.sub(cosine))))
}

} // verus!
