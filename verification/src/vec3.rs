//! Three-component vectors: points, directions and colors.

use vstd::prelude::*;
use crate::scalar::Real;

verus! {

/// The threshold under which a component counts as zero: 1e-8.
pub const NEAR_ZERO_BITS: u64 = 0x3E45_798E_E230_8C3A;

/// A vector of three numbers.
#[derive(Clone, Copy, Debug)]
pub struct Vec3 {
    pub x: Real,
    pub y: Real,
    pub z: Real,
}

impl Vec3 {
    pub open spec fn spec_new(x: Real, y: Real, z: Real) -> Vec3 {
        Vec3 { x, y, z }
    }

    #[verifier::when_used_as_spec(spec_new)]
    pub fn new(x: Real, y: Real, z: Real) -> (r: Vec3)
        ensures
            r == Vec3::spec_new(x, y, z),
    {
        Vec3 { x, y, z }
    }

    /// The vector whose three components are zero.
    pub open spec fn spec_zero() -> Vec3 {
        Vec3 { x: Real { bits: 0 }, y: Real { bits: 0 }, z: Real { bits: 0 } }
    }

    #[verifier::when_used_as_spec(spec_zero)]
    pub fn zero() -> (r: Vec3)
        ensures
            r == Vec3::spec_zero(),
    {
        Vec3 { x: Real::zero(), y: Real::zero(), z: Real::zero() }
    }

    pub open spec fn spec_length_squared(&self) -> Real {
        self.x.mul(self.x).add(self.y.mul(self.y)).add(self.z.mul(self.z))
    }

    #[verifier::when_used_as_spec(spec_length_squared)]
    pub fn length_squared(&self) -> (r: Real)
        ensures
            r == self.spec_length_squared(),
    {
        self.x.mul(self.x).add(self.y.mul(self.y)).add(self.z.mul(self.z))
    }

    pub open spec fn spec_length(&self) -> Real {
        self.length_squared().sqrt()
    }

    #[verifier::when_used_as_spec(spec_length)]
    pub fn length(&self) -> (r: Real)
        ensures
            r == self.spec_length(),
    {
        self.length_squared().sqrt()
    }

    /// Each component divided by the length. Of the zero vector this is not
    /// a number in any component.
    pub open spec fn spec_normalized(&self) -> Vec3 {
        Vec3 {
            x: self.x.div(self.length()),
            y: self.y.div(self.length()),
            z: self.z.div(self.length()),
        }
    }

    #[verifier::when_used_as_spec(spec_normalized)]
    pub fn normalized(&self) -> (r: Vec3)
        ensures
            r == self.spec_normalized(),
    {
        let length = self.length();
        Vec3 { x: self.x.div(length), y: self.y.div(length), z: self.z.div(length) }
    }

    /// Whether every component is below 1e-8 in absolute value.
    pub open spec fn spec_near_zero(&self) -> bool {
        let s = Real { bits: NEAR_ZERO_BITS };
        self.x.abs().lt(s) && self.y.abs().lt(s) && self.z.abs().lt(s)
    }

    #[verifier::when_used_as_spec(spec_near_zero)]
    pub fn near_zero(&self) -> (r: bool)
        ensures
            r == self.spec_near_zero(),
    {
        let s = Real::from_bits(NEAR_ZERO_BITS);
        self.x.abs().lt(s) && self.y.abs().lt(s) && self.z.abs().lt(s)
    }

    /// The component on axis `n`: x for 0, y for 1, z for every other `n`.
    pub open spec fn spec_component(&self, n: u16) -> Real {
        if n == 0 {
            self.x
        } else if n == 1 {
            self.y
        } else {
            self.z
        }
    }

    #[verifier::when_used_as_spec(spec_component)]
    pub fn component(&self, n: u16) -> (r: Real)
        ensures
            r == self.spec_component(n),
    {
        if n == 0 {
            return self.x;
        }
        if n == 1 {
            return self.y;
        }
        self.z
    }

    pub open spec fn spec_add(self, other: Vec3) -> Vec3 {
        Vec3 { x: self.x.add(other.x), y: self.y.add(other.y), z: self.z.add(other.z) }
    }

    #[verifier::when_used_as_spec(spec_add)]
    pub fn add(self, other: Vec3) -> (r: Vec3)
        ensures
            r == self.spec_add(other),
    {
        Vec3 { x: self.x.add(other.x), y: self.y.add(other.y), z: self.z.add(other.z) }
    }

    pub open spec fn spec_sub(self, other: Vec3) -> Vec3 {
        Vec3 { x: self.x.sub(other.x), y: self.y.sub(other.y), z: self.z.sub(other.z) }
    }

    #[verifier::when_used_as_spec(spec_sub)]
    pub fn sub(self, other: Vec3) -> (r: Vec3)
        ensures
            r == self.spec_sub(other),
    {
        Vec3 { x: self.x.sub(other.x), y: self.y.sub(other.y), z: self.z.sub(other.z) }
    }

    /// The vector times a number, the vector's component standing first in
    /// each product.
    pub open spec fn spec_scale(self, rhs: Real) -> Vec3 {
        Vec3 { x: self.x.mul(rhs), y: self.y.mul(rhs), z: self.z.mul(rhs) }
    }

    #[verifier::when_used_as_spec(spec_scale)]
    pub fn scale(self, rhs: Real) -> (r: Vec3)
        ensures
            r == self.spec_scale(rhs),
    {
        Vec3 { x: self.x.mul(rhs), y: self.y.mul(rhs), z: self.z.mul(rhs) }
    }

    /// A number times the vector, the number standing first in each product.
    pub open spec fn spec_scaled_by(self, lhs: Real) -> Vec3 {
        Vec3 { x: lhs.mul(self.x), y: lhs.mul(self.y), z: lhs.mul(self.z) }
    }

    #[verifier::when_used_as_spec(spec_scaled_by)]
    pub fn scaled_by(self, lhs: Real) -> (r: Vec3)
        ensures
            r == self.spec_scaled_by(lhs),
    {
        Vec3 { x: lhs.mul(self.x), y: lhs.mul(self.y), z: lhs.mul(self.z) }
    }

    /// The component-wise product.
    pub open spec fn spec_mul(self, rhs: Vec3) -> Vec3 {
        Vec3 { x: self.x.mul(rhs.x), y: self.y.mul(rhs.y), z: self.z.mul(rhs.z) }
    }

    #[verifier::when_used_as_spec(spec_mul)]
    pub fn mul(self, rhs: Vec3) -> (r: Vec3)
        ensures
            r == self.spec_mul(rhs),
    {
        Vec3 { x: self.x.mul(rhs.x), y: self.y.mul(rhs.y), z: self.z.mul(rhs.z) }
    }

    pub open spec fn spec_div(self, rhs: Real) -> Vec3 {
        Vec3 { x: self.x.div(rhs), y: self.y.div(rhs), z: self.z.div(rhs) }
    }

    #[verifier::when_used_as_spec(spec_div)]
    pub fn div(self, rhs: Real) -> (r: Vec3)
        ensures
            r == self.spec_div(rhs),
    {
        Vec3 { x: self.x.div(rhs), y: self.y.div(rhs), z: self.z.div(rhs) }
    }

    pub open spec fn spec_neg(self) -> Vec3 {
        Vec3 { x: self.x.neg(), y: self.y.neg(), z: self.z.neg() }
    }

    #[verifier::when_used_as_spec(spec_neg)]
    pub fn neg(self) -> (r: Vec3)
        ensures
            r == self.spec_neg(),
    {
        Vec3 { x: self.x.neg(), y: self.y.neg(), z: self.z.neg() }
    }
}

pub open spec fn spec_dot(lhs: &Vec3, rhs: &Vec3) -> Real {
    lhs.x.mul(rhs.x).add(lhs.y.mul(rhs.y)).add(lhs.z.mul(rhs.z))
}

#[verifier::when_used_as_spec(spec_dot)]
pub fn dot(lhs: &Vec3, rhs: &Vec3) -> (r: Real)
    ensures
        r == spec_dot(lhs, rhs),
{
    lhs.x.mul(rhs.x).add(lhs.y.mul(rhs.y)).add(lhs.z.mul(rhs.z))
}

pub open spec fn spec_cross(lhs: &Vec3, rhs: &Vec3) -> Vec3 {
    Vec3 {
        x: lhs.y.mul(rhs.z).sub(lhs.z.mul(rhs.y)),
        y: lhs.z.mul(rhs.x).sub(lhs.x.mul(rhs.z)),
        z: lhs.x.mul(rhs.y).sub(lhs.y.mul(rhs.x)),
    }
}

#[verifier::when_used_as_spec(spec_cross)]
pub fn cross(lhs: &Vec3, rhs: &Vec3) -> (r: Vec3)
    ensures
        r == spec_cross(lhs, rhs),
{
    Vec3::new(
        lhs.y.mul(rhs.z).sub(lhs.z.mul(rhs.y)),
        lhs.z.mul(rhs.x).sub(lhs.x.mul(rhs.z)),
        lhs.x.mul(rhs.y).sub(lhs.y.mul(rhs.x)),
    )
}

} // verus!
