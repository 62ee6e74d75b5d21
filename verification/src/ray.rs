//! Rays: an origin, a direction and the time at which the ray travels.

use vstd::prelude::*;
use crate::scalar::Real;
use crate::vec3::Vec3;

verus! {

/// A half-line, travelled at the time `tm`.
#[derive(Clone, Copy, Debug)]
pub struct Ray {
    pub origin: Vec3,
    pub direction: Vec3,
    pub tm: Real,
}

impl Ray {
    /// A ray at time zero.
    pub open spec fn spec_new(origin: Vec3, direction: Vec3) -> Ray {
        Ray { origin, direction, tm: Real { bits: 0 } }
    }

    #[verifier::when_used_as_spec(spec_new)]
    pub fn new(origin: Vec3, direction: Vec3) -> (r: Ray)
        ensures
            r == Ray::spec_new(origin, direction),
    {
        Ray { origin, direction, tm: Real::zero() }
    }

    pub open spec fn spec_new2(origin: Vec3, direction: Vec3, tm: Real) -> Ray {
        Ray { origin, direction, tm }
    }

    #[verifier::when_used_as_spec(spec_new2)]
    pub fn new2(origin: Vec3, direction: Vec3, tm: Real) -> (r: Ray)
        ensures
            r == Ray::spec_new2(origin, direction, tm),
    {
        Ray { origin, direction, tm }
    }

    /// The point at parameter `t`: the origin plus `t` times the direction.
    pub open spec fn spec_at(&self, t: Real) -> Vec3 {
        self.origin.add(self.direction.scaled_by(t))
    }

    #[verifier::when_used_as_spec(spec_at)]
    pub fn at(&self, t: Real) -> (r: Vec3)
        ensures
            r == self.spec_at(t),
    {
        self.origin.add(self.direction.scaled_by(t))
    }
}

} // verus!
