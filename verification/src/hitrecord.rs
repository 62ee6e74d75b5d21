//! The record of one intersection of a ray with a surface.

use vstd::prelude::*;
use crate::scalar::{Real, ONE_BITS};
use crate::vec3::{Vec3, dot};
use crate::ray::Ray;

verus! {

/// Where and how a ray met a surface.
#[derive(Clone, Copy, Debug)]
pub struct HitRecord {
    /// Where the ray meets the surface.
    pub p: Vec3,
    /// The surface normal, turned against the ray.
    pub normal: Vec3,
    /// The ray parameter of the hit.
    pub t: Real,
    /// Whether the ray comes from outside, so that `normal` is the outward
    /// normal and not its opposite.
    pub front_face: bool,
    pub u: Real,
    pub v: Real,
    /// The place of the surface's material in the scene's table of materials.
    pub material: usize,
}

impl HitRecord {
    /// A hit on a surface with a given outward normal. The recorded normal is
    /// the outward normal where the ray runs against it, its opposite where
    /// not.
    pub open spec fn spec_new(
        ray: &Ray,
        p: Vec3,
        outward_normal: Vec3,
        t: Real,
        u: Real,
        v: Real,
        material: usize,
    ) -> HitRecord {
        let front_face = dot(&ray.direction, &outward_normal).lt(Real { bits: 0 });
        HitRecord {
            p,
            normal: if front_face { outward_normal } else { outward_normal.neg() },
            t,
            front_face,
            u,
            v,
            material,
        }
    }

    #[verifier::when_used_as_spec(spec_new)]
    pub fn new(
        ray: &Ray,
        p: Vec3,
        outward_normal: Vec3,
        t: Real,
        u: Real,
        v: Real,
        material: usize,
    ) -> (r: HitRecord)
        ensures
            r == HitRecord::spec_new(ray, p, outward_normal, t, u, v, material),
    {
        let front_face = dot(&ray.direction, &outward_normal).lt(Real::zero());
        let normal = if front_face { outward_normal } else { outward_normal.neg() };
        HitRecord { p, normal, t, front_face, u, v, material }
    }

    /// A hit where no surface gives a normal: it faces front, and its normal
    /// is the x axis.
    pub open spec fn spec_new2(p: Vec3, t: Real, u: Real, v: Real, material: usize) -> HitRecord {
        HitRecord {
            p,
            normal: Vec3 { x: Real { bits: ONE_BITS }, y: Real { bits: 0 }, z: Real { bits: 0 } },
            t,
            front_face: true,
            u,
            v,
            material,
        }
    }

    #[verifier::when_used_as_spec(spec_new2)]
    pub fn new2(p: Vec3, t: Real, u: Real, v: Real, material: usize) -> (r: HitRecord)
        ensures
            r == HitRecord::spec_new2(p, t, u, v, material),
    {
        let normal = Vec3::new(Real::one(), Real::zero(), Real::zero());
        HitRecord { p, normal, t, front_face: true, u, v, material }
    }
}

} // verus!
