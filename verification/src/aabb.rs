//! Axis-aligned bounding boxes.

use vstd::prelude::*;
use crate::scalar::{Real, ONE_BITS};
use crate::vec3::Vec3;
use crate::interval::Interval;
use crate::ray::Ray;

verus! {

#[derive(Clone, Copy, Debug)]
/// A box with its sides along the axes: one interval on each axis.
pub struct AABB {
    pub x: Interval,
    pub y: Interval,
    pub z: Interval,
}

impl AABB {
    /// The box that holds no point.
    pub open spec fn spec_empty() -> AABB {
        AABB { x: Interval::empty(), y: Interval::empty(), z: Interval::empty() }
    }

    #[verifier::when_used_as_spec(spec_empty)]
    pub fn empty() -> (r: AABB)
        ensures
            r == AABB::spec_empty(),
    {
        AABB { x: Interval::empty(), y: Interval::empty(), z: Interval::empty() }
    }

    pub open spec fn spec_new(x: Interval, y: Interval, z: Interval) -> AABB {
        AABB { x, y, z }
    }

    #[verifier::when_used_as_spec(spec_new)]
    pub fn new(x: Interval, y: Interval, z: Interval) -> (r: AABB)
        ensures
            r == AABB::spec_new(x, y, z),
    {
        AABB { x, y, z }
    }

    /// The box around two boxes: on each axis the padded union of their
    /// intervals.
    pub open spec fn spec_from_aabb(box0: &AABB, box1: &AABB) -> AABB {
        AABB {
            x: Interval::from_intervals_padded(&box0.x, &box1.x),
            y: Interval::from_intervals_padded(&box0.y, &box1.y),
            z: Interval::from_intervals_padded(&box0.z, &box1.z),
        }
    }

    #[verifier::when_used_as_spec(spec_from_aabb)]
    pub fn from_aabb(box0: &AABB, box1: &AABB) -> (r: AABB)
        ensures
            r == AABB::spec_from_aabb(box0, box1),
    {
        let x = Interval::from_intervals_padded(&box0.x, &box1.x);
        let y = Interval::from_intervals_padded(&box0.y, &box1.y);
        let z = Interval::from_intervals_padded(&box0.z, &box1.z);
        AABB { x, y, z }
    }

    /// The padded interval between two coordinates, whichever is the lesser.
    pub open spec fn span(a: Real, b: Real) -> Interval {
        if a.le(b) {
            Interval::new_padded(a, b)
        } else {
            Interval::new_padded(b, a)
        }
    }

    /// The box with two points as opposite corners, in either order.
    pub open spec fn spec_from_points(a: &Vec3, b: &Vec3) -> AABB {
        AABB { x: Self::span(a.x, b.x), y: Self::span(a.y, b.y), z: Self::span(a.z, b.z) }
    }

    #[verifier::when_used_as_spec(spec_from_points)]
    pub fn from_points(a: &Vec3, b: &Vec3) -> (r: AABB)
        ensures
            r == AABB::spec_from_points(a, b),
    {
        let x = if a.x.le(b.x) {
            Interval::new_padded(a.x, b.x)
        } else {
            Interval::new_padded(b.x, a.x)
        };
        let y = if a.y.le(b.y) {
            Interval::new_padded(a.y, b.y)
        } else {
            Interval::new_padded(b.y, a.y)
        };
        let z = if a.z.le(b.z) {
            Interval::new_padded(a.z, b.z)
        } else {
            Interval::new_padded(b.z, a.z)
        };
        AABB { x, y, z }
    }

    /// The interval on axis `n`: y for 1, z for 2, x for every other `n`.
    pub open spec fn spec_axis_interval(&self, n: u16) -> Interval {
        if n == 1 {
            self.y
        } else if n == 2 {
            self.z
        } else {
            self.x
        }
    }

    #[verifier::when_used_as_spec(spec_axis_interval)]
    pub fn axis_interval(&self, n: u16) -> (r: Interval)
        ensures
            r == self.spec_axis_interval(n),
    {
        if n == 1 {
            return self.y;
        }
        if n == 2 {
            return self.z;
        }
        self.x
    }

    /// The axis on which the box is longest. Of two axes that are longest
    /// together the later one wins; where all three are equally long, x
    /// does.
    pub open spec fn spec_longest_axis(&self) -> u16 {
        let x_size = self.x.size();
        let y_size = self.y.size();
        let z_size = self.z.size();
        if x_size.gt(y_size) {
            if x_size.gt(z_size) {
                0
            } else if z_size.gt(y_size) {
                2
            } else {
                1
            }
        } else {
            if y_size.gt(z_size) {
                1
            } else if z_size.gt(x_size) {
                2
            } else {
                0
            }
        }
    }

    #[verifier::when_used_as_spec(spec_longest_axis)]
    pub fn longest_axis(&self) -> (r: u16)
        ensures
            r == self.spec_longest_axis(),
            r <= 2,
    {
        let x_size = self.x.size();
        let y_size = self.y.size();
        let z_size = self.z.size();
        if x_size.gt(y_size) {
            if x_size.gt(z_size) {
                0
            } else if z_size.gt(y_size) {
                2
            } else {
                1
            }
        } else {
            if y_size.gt(z_size) {
                1
            } else if z_size.gt(x_size) {
                2
            } else {
                0
            }
        }
    }

    /// The part of the parameter range `t` in which a ray lies between the
    /// two planes that bound the box on one axis. The ray meets the planes at
    /// the parameters `t0` and `t1`; the range is cut down to what lies
    /// between them.
    pub open spec fn spec_slab(&self, ray: &Ray, axis: u16, t: Interval) -> Interval {
        let ax = self.axis_interval(axis);
        let adinv = Real { bits: ONE_BITS }.div(ray.direction.component(axis));
        let t0 = ax.min.sub(ray.origin.component(axis)).mul(adinv);
        let t1 = ax.max.sub(ray.origin.component(axis)).mul(adinv);
        if t0.lt(t1) {
            Interval {
                min: if t0.gt(t.min) { t0 } else { t.min },
                max: if t1.lt(t.max) { t1 } else { t.max },
            }
        } else {
            Interval {
                min: if t1.gt(t.min) { t1 } else { t.min },
                max: if t0.lt(t.max) { t0 } else { t.max },
            }
        }
    }

    #[verifier::when_used_as_spec(spec_slab)]
    pub fn slab(&self, ray: &Ray, axis: u16, t: Interval) -> (r: Interval)
        ensures
            r == self.spec_slab(ray, axis, t),
    {
        let ax = self.axis_interval(axis);
        let adinv = Real::one().div(ray.direction.component(axis));
        let t0 = ax.min.sub(ray.origin.component(axis)).mul(adinv);
        let t1 = ax.max.sub(ray.origin.component(axis)).mul(adinv);
        let mut t_min = t.min;
        let mut t_max = t.max;
        if t0.lt(t1) {
            if t0.gt(t_min) {
                t_min = t0;
            }
            if t1.lt(t_max) {
                t_max = t1;
            }
        } else {
            if t1.gt(t_min) {
                t_min = t1;
            }
            if t0.lt(t_max) {
                t_max = t0;
            }
        }
        Interval { min: t_min, max: t_max }
    }

    /// Whether what is left of `t` after the slabs of the axes from `axis`
    /// on is more than a point. The test gives up at the first axis that
    /// leaves no more.
    pub open spec fn spec_hit_from(&self, ray: &Ray, axis: u16, t: Interval) -> bool
        decreases 3 - axis,
    {
        if axis >= 3 {
            true
        } else {
            let cut = self.slab(ray, axis, t);
            if cut.max.le(cut.min) {
                false
            } else {
                self.spec_hit_from(ray, (axis + 1) as u16, cut)
            }
        }
    }

    /// The slab test: whether the ray passes through the box at parameters
    /// within `ray_t`.
    pub open spec fn spec_hit(&self, ray: &Ray, ray_t: &Interval) -> bool {
        self.spec_hit_from(ray, 0, *ray_t)
    }

    #[verifier::when_used_as_spec(spec_hit)]
    pub fn hit(&self, ray: &Ray, ray_t: &Interval) -> (r: bool)
        ensures
            r == self.spec_hit(ray, ray_t),
    {
        let mut t = *ray_t;
        let mut axis: u16 = 0;
        while axis < 3
            invariant
                axis <= 3,
                self.spec_hit_from(ray, 0, *ray_t) == self.spec_hit_from(ray, axis, t),
            decreases 3 - axis,
        {
            t = self.slab(ray, axis, t);
            if t.max.le(t.min) {
                return false;
            }
            axis = axis + 1;
        }
        true
    }

    /// Whether the box is at least as thick on every axis as padding makes
    /// it.
    pub open spec fn spec_settled(&self) -> bool {
        self.x.settled() && self.y.settled() && self.z.settled()
    }

    #[verifier::when_used_as_spec(spec_settled)]
    pub fn settled(&self) -> (r: bool)
        ensures
            r == self.spec_settled(),
    {
        self.x.settled() && self.y.settled() && self.z.settled()
    }

    /// The box moved by `rhs`.
    pub open spec fn spec_add(self, rhs: Vec3) -> AABB {
        AABB { x: self.x.add(rhs.x), y: self.y.add(rhs.y), z: self.z.add(rhs.z) }
    }

    #[verifier::when_used_as_spec(spec_add)]
    pub fn add(self, rhs: Vec3) -> (r: AABB)
        ensures
            r == self.spec_add(rhs),
    {
        AABB { x: self.x.add(rhs.x), y: self.y.add(rhs.y), z: self.z.add(rhs.z) }
    }

    /// The box moved by `lhs`, the displacement standing first in each sum.
    pub open spec fn spec_added_to(self, lhs: Vec3) -> AABB {
        AABB { x: self.x.added_to(lhs.x), y: self.y.added_to(lhs.y), z: self.z.added_to(lhs.z) }
    }

    #[verifier::when_used_as_spec(spec_added_to)]
    pub fn added_to(self, lhs: Vec3) -> (r: AABB)
        ensures
            r == self.spec_added_to(lhs),
    {
        AABB { x: self.x.added_to(lhs.x), y: self.y.added_to(lhs.y), z: self.z.added_to(lhs.z) }
    }
}

} // verus!
