//! Parallelograms.

use vstd::prelude::*;
use crate::scalar::Real;
use crate::vec3::{Vec3, dot, cross, NEAR_ZERO_BITS};
use crate::ray::Ray;
use crate::interval::Interval;
use crate::aabb::AABB;
use crate::hitrecord::HitRecord;
use crate::texture::unit_interval;

verus! {

/// A parallelogram, and what its hit test needs of its plane.
pub struct Quad {
    /// One corner.
    pub q: Vec3,
    /// The two sides that meet at `q`.
    pub u: Vec3,
    pub v: Vec3,
    pub material: usize,
    pub bbox: AABB,
    /// The plane is the set of points P with normal . P = d.
    pub d: Real,
    /// n / (n . n), where n = u x v.
    pub w: Vec3,
    /// The unit normal of the plane.
    pub normal: Vec3,
}

impl Quad {
    /// The parallelogram with the corners q, q + u, q + v and q + u + v. Its
    /// box holds the boxes of both diagonals.
    pub open spec fn spec_new(q: Vec3, u: Vec3, v: Vec3, material: usize) -> Quad {
        let n = cross(&u, &v);
        Quad {
            q,
            u,
            v,
            material,
            bbox: AABB::from_aabb(
                &AABB::from_points(&q, &q.add(u).add(v)),
                &AABB::from_points(&q.add(u), &q.add(v)),
            ),
            d: dot(&n.normalized(), &q),
            w: n.div(dot(&n, &n)),
            normal: n.normalized(),
        }
    }

    #[verifier::when_used_as_spec(spec_new)]
    pub fn new(q: Vec3, u: Vec3, v: Vec3, material: usize) -> (r: Quad)
        ensures
            r == Quad::spec_new(q, u, v, material),
    {
        let n = cross(&u, &v);
        let normal = n.normalized();
        let d = dot(&normal, &q);
        let w = n.div(dot(&n, &n));
        let bbox_diagonal1 = AABB::from_points(&q, &q.add(u).add(v));
        let bbox_diagonal2 = AABB::from_points(&q.add(u), &q.add(v));
        let bbox = AABB::from_aabb(&bbox_diagonal1, &bbox_diagonal2);
        Quad { q, u, v, material, bbox, d, w, normal }
    }

    /// Whether the ray runs along the plane: the dot product of the normal
    /// and the direction is below 1e-8 in absolute value.
    pub open spec fn spec_parallel(&self, ray: &Ray) -> bool {
        dot(&self.normal, &ray.direction).abs().lt(Real { bits: NEAR_ZERO_BITS })
    }

    /// The parameter at which the ray meets the plane.
    pub open spec fn spec_plane_t(&self, ray: &Ray) -> Real {
        self.d.sub(dot(&self.normal, &ray.origin)).div(dot(&self.normal, &ray.direction))
    }

    /// The coordinate along `u` of a point of the plane, where `q` has 0
    /// and `q + u` has 1.
    pub open spec fn spec_alpha(&self, p: Vec3) -> Real {
        dot(&self.w, &cross(&p.sub(self.q), &self.v))
    }

    /// The coordinate along `v` of a point of the plane, where `q` has 0
    /// and `q + v` has 1.
    pub open spec fn spec_beta(&self, p: Vec3) -> Real {
        dot(&self.w, &cross(&self.u, &p.sub(self.q)))
    }

    /// The hit at the parameter at which the ray meets the plane; nothing
    /// where the ray runs along the plane, where the parameter does not lie
    /// strictly inside `ray_t`, or where one of the point's two coordinates
    /// lies outside [0, 1]. The coordinates are the surface coordinates of
    /// the hit.
    pub open spec fn spec_hit(&self, ray: &Ray, ray_t: &Interval) -> Option<HitRecord> {
        let t = self.spec_plane_t(ray);
        let p = ray.at(t);
        if self.spec_parallel(ray) {
            None
        } else if !ray_t.surrounds(t) {
            None
        } else if !unit_interval().contains(self.spec_alpha(p)) || !unit_interval().contains(
            self.spec_beta(p),
        ) {
            None
        } else {
            Some(
                HitRecord::new(
                    ray,
                    p,
                    self.normal,
                    t,
                    self.spec_alpha(p),
                    self.spec_beta(p),
                    self.material,
                ),
            )
        }
    }

    pub fn hit(&self, ray: &Ray, ray_t: &Interval) -> (r: Option<HitRecord>)
        ensures
            r == self.spec_hit(ray, ray_t),
            r matches Some(rec) ==> {
                &&& ray_t.surrounds(rec.t)
                &&& unit_interval().contains(rec.u)
                &&& unit_interval().contains(rec.v)
                &&& rec.material == self.material
                &&& rec.p == ray.at(rec.t)
            },
    {
        let denom = dot(&self.normal, &ray.direction);
        if denom.abs().lt(Real::from_bits(NEAR_ZERO_BITS)) {
            return None;
        }
        let t = self.d.sub(dot(&self.normal, &ray.origin)).div(denom);
        if !ray_t.surrounds(t) {
            return None;
        }
        let intersection = ray.at(t);
        let planar_hit_pt_vec = intersection.sub(self.q);
        let alpha = dot(&self.w, &cross(&planar_hit_pt_vec, &self.v));
        let beta = dot(&self.w, &cross(&self.u, &planar_hit_pt_vec));
        let unit = unit_interval();
        if !unit.contains(alpha) || !unit.contains(beta) {
            return None;
        }
        Some(HitRecord::new(ray, intersection, self.normal, t, alpha, beta, self.material))
    }

    pub fn bounding_box(&self) -> (r: AABB)
        ensures
            r == self.bbox,
    {
        self.bbox
    }
}

} // verus!
