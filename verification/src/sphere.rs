//! Spheres, at rest or moving along a line during the exposure.

use vstd::prelude::*;
use crate::scalar::{Real, ONE_BITS, PI_BITS, TWO_BITS};
use crate::vec3::{Vec3, dot};
use crate::ray::Ray;
use crate::interval::Interval;
use crate::aabb::AABB;
use crate::hitrecord::HitRecord;

verus! {

/// A sphere whose center moves along a line with time, or rests.
pub struct Sphere {
    /// Where the center is at each time: a ray whose parameter is the time.
    pub center: Ray,
    pub radius: Real,
    pub material: usize,
    pub bbox: AABB,
}

/// The surface coordinates of a point of the unit sphere: `u` is the angle
/// round the y axis, counted from the negative x axis, as a share of the full
/// turn; `v` is the angle from the south pole as a share of the half turn.
pub open spec fn spec_get_sphere_uv(p: Vec3) -> (Real, Real) {
    let pi = Real { bits: PI_BITS };
    let theta = p.y.neg().acos();
    let phi = p.z.neg().atan2(p.x).add(pi);
    (phi.div(Real { bits: TWO_BITS }.mul(pi)), theta.div(pi))
}

#[verifier::when_used_as_spec(spec_get_sphere_uv)]
pub fn get_sphere_uv(p: Vec3) -> (r: (Real, Real))
    ensures
        r == spec_get_sphere_uv(p),
{
    let pi = Real::from_bits(PI_BITS);
    let theta = p.y.neg().acos();
    let phi = p.z.neg().atan2(p.x).add(pi);
    let u = phi.div(Real::from_bits(TWO_BITS).mul(pi));
    let v = theta.div(pi);
    (u, v)
}

/// The vector whose three components are `radius`.
pub open spec fn reach(radius: Real) -> Vec3 {
    Vec3 { x: radius, y: radius, z: radius }
}

/// The box round a sphere with a given center.
pub open spec fn box_round(center: Vec3, radius: Real) -> AABB {
    AABB::from_points(&center.sub(reach(radius)), &center.add(reach(radius)))
}

impl Sphere {
    /// A sphere at rest. A negative radius counts as 0 in the hit test, but
    /// the box is made with the radius as given.
    pub open spec fn spec_new(center: Vec3, radius: Real, material: usize) -> Sphere {
        Sphere {
            center: Ray::new(center, Vec3::zero()),
            radius: radius.max(Real { bits: 0 }),
            material,
            bbox: box_round(center, radius),
        }
    }

    #[verifier::when_used_as_spec(spec_new)]
    pub fn new(center: Vec3, radius: Real, material: usize) -> (r: Sphere)
        ensures
            r == Sphere::spec_new(center, radius, material),
    {
        let max_radius = radius.max(Real::zero());
        let ray = Ray::new(center, Vec3::zero());
        let rvec = Vec3::new(radius, radius, radius);
        let aabb = AABB::from_points(&center.sub(rvec), &center.add(rvec));
        Sphere { center: ray, radius: max_radius, material, bbox: aabb }
    }

    /// A sphere whose center moves from `center1` at time 0 to `center2` at
    /// time 1. Its box holds the boxes of the sphere at both times.
    pub open spec fn spec_new_moving(
        center1: Vec3,
        center2: Vec3,
        radius: Real,
        material: usize,
    ) -> Sphere {
        let path = Ray::new(center1, center2.sub(center1));
        Sphere {
            center: path,
            radius: radius.max(Real { bits: 0 }),
            material,
            bbox: AABB::from_aabb(
                &box_round(path.at(Real { bits: 0 }), radius),
                &box_round(path.at(Real { bits: ONE_BITS }), radius),
            ),
        }
    }

    #[verifier::when_used_as_spec(spec_new_moving)]
    pub fn new_moving(center1: Vec3, center2: Vec3, radius: Real, material: usize) -> (r: Sphere)
        ensures
            r == Sphere::spec_new_moving(center1, center2, radius, material),
    {
        let max_radius = radius.max(Real::zero());
        let ray = Ray::new(center1, center2.sub(center1));
        let rvec = Vec3::new(radius, radius, radius);
        let bbox1 = AABB::from_points(
            &ray.at(Real::zero()).sub(rvec),
            &ray.at(Real::zero()).add(rvec),
        );
        let bbox2 = AABB::from_points(&ray.at(Real::one()).sub(rvec), &ray.at(Real::one()).add(rvec));
        let aabb = AABB::from_aabb(&bbox1, &bbox2);
        Sphere { center: ray, radius: max_radius, material, bbox: aabb }
    }

    /// The discriminant, divided by four, of the equation
    /// |O + t D - C|^2 = r^2 in t: h^2 - a c, where a = D . D,
    /// h = D . (C - O) and c = |C - O|^2 - r^2.
    pub open spec fn spec_discriminant(&self, ray: &Ray) -> Real {
        let oc = self.center.at(ray.tm).sub(ray.origin);
        let a = ray.direction.length_squared();
        let h = dot(&ray.direction, &oc);
        let c = oc.length_squared().sub(self.radius.mul(self.radius));
        h.mul(h).sub(a.mul(c))
    }

    /// The lesser root of the equation: (h - sqrt(discriminant)) / a.
    pub open spec fn spec_near_root(&self, ray: &Ray) -> Real {
        let oc = self.center.at(ray.tm).sub(ray.origin);
        dot(&ray.direction, &oc).sub(self.spec_discriminant(ray).sqrt()).div(
            ray.direction.length_squared(),
        )
    }

    /// The greater root of the equation: (h + sqrt(discriminant)) / a.
    pub open spec fn spec_far_root(&self, ray: &Ray) -> Real {
        let oc = self.center.at(ray.tm).sub(ray.origin);
        dot(&ray.direction, &oc).add(self.spec_discriminant(ray).sqrt()).div(
            ray.direction.length_squared(),
        )
    }

    /// The record of the hit at the parameter `root`.
    pub open spec fn spec_record(&self, ray: &Ray, root: Real) -> HitRecord {
        let p = ray.at(root);
        let outward_normal = p.sub(self.center.at(ray.tm)).div(self.radius);
        let (u, v) = spec_get_sphere_uv(outward_normal);
        HitRecord::new(ray, p, outward_normal, root, u, v, self.material)
    }

    /// Of the two roots, the lesser one that lies strictly inside `ray_t`;
    /// nothing where the discriminant is negative or neither root lies
    /// there.
    pub open spec fn spec_hit(&self, ray: &Ray, ray_t: &Interval) -> Option<HitRecord> {
        if self.spec_discriminant(ray).lt(Real { bits: 0 }) {
            None
        } else if ray_t.surrounds(self.spec_near_root(ray)) {
            Some(self.spec_record(ray, self.spec_near_root(ray)))
        } else if ray_t.surrounds(self.spec_far_root(ray)) {
            Some(self.spec_record(ray, self.spec_far_root(ray)))
        } else {
            None
        }
    }

    pub fn hit(&self, ray: &Ray, ray_t: &Interval) -> (r: Option<HitRecord>)
        ensures
            r == self.spec_hit(ray, ray_t),
            r matches Some(rec) ==> {
                &&& ray_t.surrounds(rec.t)
                &&& rec.material == self.material
                &&& rec.p == ray.at(rec.t)
            },
            self.spec_discriminant(ray).lt(Real { bits: 0 }) ==> r.is_none(),
    {
        let current_center = self.center.at(ray.tm);
        let oc = current_center.sub(ray.origin);
        let a = ray.direction.length_squared();
        let h = dot(&ray.direction, &oc);
        let c = oc.length_squared().sub(self.radius.mul(self.radius));
        let discriminant = h.mul(h).sub(a.mul(c));
        if discriminant.lt(Real::zero()) {
            return None;
        }
        let sqrtd = discriminant.sqrt();
        let mut root = h.sub(sqrtd).div(a);
        if !ray_t.surrounds(root) {
            root = h.add(sqrtd).div(a);
            if !ray_t.surrounds(root) {
                return None;
            }
        }
        let p = ray.at(root);
        let outward_normal = p.sub(current_center).div(self.radius);
        let (u, v) = get_sphere_uv(outward_normal);
        Some(HitRecord::new(ray, p, outward_normal, root, u, v, self.material))
    }

    pub fn bounding_box(&self) -> (r: AABB)
        ensures
            r == self.bbox,
    {
        self.bbox
    }
}

} // verus!
