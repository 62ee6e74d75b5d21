//! Everything a ray can hit: surfaces, smoke, moved and turned objects, and
//! collections of these, one inside another to any depth.

use vstd::prelude::*;
use crate::scalar::{Real, INFINITY_BITS, MINUS_ONE_BITS, ONE_BITS};
use crate::vec3::Vec3;
use crate::ray::Ray;
use crate::interval::{Interval, DELTA_BITS};
use crate::aabb::AABB;
use crate::hitrecord::HitRecord;
use crate::sampling::{Sampler, capped, capped_sum, random_double};
use crate::optics::degrees_to_radians;
use crate::sphere::Sphere;
use crate::quad::Quad;
use crate::bvhnode::BvhNode;

verus! {

/// An object moved by an offset.
pub struct Translate {
    pub offset: Vec3,
    pub bbox: AABB,
    pub hittable: Box<Hittable>,
}

/// An object turned round the y axis.
pub struct RotateY {
    pub sin_theta: Real,
    pub cos_theta: Real,
    pub bbox: AABB,
    pub hittable: Box<Hittable>,
}

/// Smoke of one density that fills a convex boundary.
pub struct ConstantMedium {
    pub boundary: Box<Hittable>,
    /// -1 / density.
    pub neg_inv_density: Real,
    /// The place of the smoke's material in the scene's table of materials.
    pub phase_function: usize,
}

/// A list of objects, searched one by one.
pub struct Hittables {
    pub objects: Vec<Hittable>,
    pub bbox: AABB,
}

/// Anything that a ray can be tested against.
pub enum Hittable {
    Sphere(Sphere),
    Quad(Quad),
    Translate(Translate),
    RotateY(RotateY),
    ConstantMedium(ConstantMedium),
    Hittables(Hittables),
    BvhNode(BvhNode),
}

/// A vector turned round the y axis by the angle whose sine and cosine are
/// given: x' = cos x + sin z, z' = -sin x + cos z.
pub open spec fn spec_turn(v: Vec3, sin_theta: Real, cos_theta: Real) -> Vec3 {
    Vec3 {
        x: cos_theta.mul(v.x).add(sin_theta.mul(v.z)),
        y: v.y,
        z: sin_theta.neg().mul(v.x).add(cos_theta.mul(v.z)),
    }
}

#[verifier::when_used_as_spec(spec_turn)]
pub fn turn(v: Vec3, sin_theta: Real, cos_theta: Real) -> (r: Vec3)
    ensures
        r == spec_turn(v, sin_theta, cos_theta),
{
    Vec3::new(
        cos_theta.mul(v.x).add(sin_theta.mul(v.z)),
        v.y,
        sin_theta.neg().mul(v.x).add(cos_theta.mul(v.z)),
    )
}

/// A vector turned back: x' = cos x - sin z, z' = sin x + cos z.
pub open spec fn spec_turn_back(v: Vec3, sin_theta: Real, cos_theta: Real) -> Vec3 {
    Vec3 {
        x: cos_theta.mul(v.x).sub(sin_theta.mul(v.z)),
        y: v.y,
        z: sin_theta.mul(v.x).add(cos_theta.mul(v.z)),
    }
}

#[verifier::when_used_as_spec(spec_turn_back)]
pub fn turn_back(v: Vec3, sin_theta: Real, cos_theta: Real) -> (r: Vec3)
    ensures
        r == spec_turn_back(v, sin_theta, cos_theta),
{
    Vec3::new(
        cos_theta.mul(v.x).sub(sin_theta.mul(v.z)),
        v.y,
        sin_theta.mul(v.x).add(cos_theta.mul(v.z)),
    )
}

/// The bounds in x and in z of the corners of a box that have been turned so
/// far.
pub struct Extent {
    pub min_x: Real,
    pub max_x: Real,
    pub min_z: Real,
    pub max_z: Real,
}

/// One of the bounds of an interval, weighted as the corners are: `step`
/// times the upper bound plus one less `step` times the lower bound.
pub open spec fn spec_bound_at(i: Interval, step: Real) -> Real {
    step.mul(i.max).add(Real { bits: ONE_BITS }.sub(step).mul(i.min))
}

#[verifier::when_used_as_spec(spec_bound_at)]
pub fn bound_at(i: Interval, step: Real) -> (r: Real)
    ensures
        r == spec_bound_at(i, step),
{
    step.mul(i.max).add(Real::one().sub(step).mul(i.min))
}

/// A step as a number: 0 or 1.
pub open spec fn spec_step(d: int) -> Real {
    if d == 0 {
        Real { bits: 0 }
    } else {
        Real { bits: ONE_BITS }
    }
}

impl Extent {
    /// The extent of no corners.
    pub open spec fn spec_none() -> Extent {
        Extent {
            min_x: Real { bits: INFINITY_BITS },
            max_x: Real { bits: INFINITY_BITS }.neg(),
            min_z: Real { bits: INFINITY_BITS },
            max_z: Real { bits: INFINITY_BITS }.neg(),
        }
    }

    /// The extent with one more corner, which lies at (x, z) before it is
    /// turned.
    pub open spec fn spec_with(self, x: Real, z: Real, sin_theta: Real, cos_theta: Real) -> Extent {
        let new_x = cos_theta.mul(x).add(sin_theta.mul(z));
        let new_z = sin_theta.neg().mul(x).add(cos_theta.mul(z));
        Extent {
            min_x: new_x.min(self.min_x),
            max_x: new_x.max(self.max_x),
            min_z: new_z.min(self.min_z),
            max_z: new_z.max(self.max_z),
        }
    }

    #[verifier::when_used_as_spec(spec_with)]
    pub fn with(self, x: Real, z: Real, sin_theta: Real, cos_theta: Real) -> (r: Extent)
        ensures
            r == self.spec_with(x, z, sin_theta, cos_theta),
    {
        let new_x = cos_theta.mul(x).add(sin_theta.mul(z));
        let new_z = sin_theta.neg().mul(x).add(cos_theta.mul(z));
        Extent {
            min_x: new_x.min(self.min_x),
            max_x: new_x.max(self.max_x),
            min_z: new_z.min(self.min_z),
            max_z: new_z.max(self.max_z),
        }
    }

    /// The extent of the first `n` of the four corners of a box in x and z.
    /// The corners come in the order of their numbers, whose first binary
    /// digit says whether x is the upper bound, and whose second says so of
    /// z.
    pub open spec fn spec_of_corners(bbox: AABB, n: nat, sin_theta: Real, cos_theta: Real) -> Extent
        decreases n,
    {
        if n == 0 {
            Self::spec_none()
        } else {
            Self::spec_of_corners(bbox, (n - 1) as nat, sin_theta, cos_theta).spec_with(
                spec_bound_at(bbox.x, spec_step((n - 1) / 2)),
                spec_bound_at(bbox.z, spec_step((n - 1) % 2)),
                sin_theta,
                cos_theta,
            )
        }
    }
}

impl Translate {
    /// The object moved by `offset`; its box is the object's box, moved.
    pub fn new(offset: Vec3, hittable: Hittable) -> (r: Translate)
        ensures
            r.offset == offset,
            *r.hittable == hittable,
            r.bbox == hittable.spec_bounding_box().add(offset),
    {
        let bbox = hittable.bounding_box().add(offset);
        Translate { offset, bbox, hittable: Box::new(hittable) }
    }

    pub fn bounding_box(&self) -> (r: AABB)
        ensures
            r == self.bbox,
    {
        self.bbox
    }

    /// The ray as the object sees it: moved back by the offset.
    pub open spec fn spec_local_ray(&self, ray: &Ray) -> Ray {
        Ray { origin: ray.origin.sub(self.offset), direction: ray.direction, tm: ray.tm }
    }

    /// A hit as the world sees it: its point moved by the offset, and all
    /// else as the object reported it.
    pub open spec fn spec_world_hit(&self, hit: HitRecord) -> HitRecord {
        HitRecord { p: hit.p.add(self.offset), ..hit }
    }

    /// What the object makes of the ray moved back, moved forth again.
    pub open spec fn spec_hit(&self, ray: &Ray, ray_t: &Interval, s: Sampler) -> (
        Option<HitRecord>,
        Sampler,
    )
        decreases self,
    {
        let (found, s1) = self.hittable.spec_hit(&self.spec_local_ray(ray), ray_t, s);
        match found {
            Some(hit) => (Some(self.spec_world_hit(hit)), s1),
            None => (None, s1),
        }
    }

    pub fn hit(&self, ray: &Ray, ray_t: &Interval, s: &mut Sampler) -> (r: Option<HitRecord>)
        requires
            old(s).wf(),
            self.hittable.wf(),
        ensures
            final(s).wf(),
            (r, *final(s)) == self.spec_hit(ray, ray_t, *old(s)),
        decreases self,
    {
        let offset_r = Ray::new2(ray.origin.sub(self.offset), ray.direction, ray.tm);
        match self.hittable.hit(&offset_r, ray_t, s) {
            Some(hit) => Some(HitRecord { p: hit.p.add(self.offset), ..hit }),
            None => None,
        }
    }
}

impl RotateY {
    /// The box round the four turned corners of a box, from the least to the
    /// greatest of their x and z; the bounds in y stay.
    pub open spec fn spec_turned_box(bbox: AABB, sin_theta: Real, cos_theta: Real) -> AABB {
        let extent = Extent::spec_of_corners(bbox, 4, sin_theta, cos_theta);
        AABB::from_points(
            &Vec3 { x: extent.min_x, y: bbox.y.min, z: extent.min_z },
            &Vec3 { x: extent.max_x, y: bbox.y.max, z: extent.max_z },
        )
    }

    /// The object turned by an angle in degrees.
    pub fn new(angle: Real, hittable: Hittable) -> (r: RotateY)
        ensures
            r.sin_theta == degrees_to_radians(angle).sin(),
            r.cos_theta == degrees_to_radians(angle).cos(),
            *r.hittable == hittable,
            r.bbox == Self::spec_turned_box(hittable.spec_bounding_box(), r.sin_theta, r.cos_theta),
    {
        let radians = degrees_to_radians(angle);
        let sin_theta = radians.sin();
        let cos_theta = radians.cos();
        let bbox = hittable.bounding_box();
        let mut extent = Extent {
            min_x: Real::infinity(),
            max_x: Real::infinity().neg(),
            min_z: Real::infinity(),
            max_z: Real::infinity().neg(),
        };
        let mut n: u8 = 0;
        while n < 4
            invariant
                n <= 4,
                extent == Extent::spec_of_corners(bbox, n as nat, sin_theta, cos_theta),
            decreases 4 - n,
        {
            let i = if n / 2 == 0 { Real::zero() } else { Real::one() };
            let k = if n % 2 == 0 { Real::zero() } else { Real::one() };
            extent = extent.with(bound_at(bbox.x, i), bound_at(bbox.z, k), sin_theta, cos_theta);
            n = n + 1;
        }
        let min = Vec3::new(extent.min_x, bbox.y.min, extent.min_z);
        let max = Vec3::new(extent.max_x, bbox.y.max, extent.max_z);
        RotateY {
            sin_theta,
            cos_theta,
            bbox: AABB::from_points(&min, &max),
            hittable: Box::new(hittable),
        }
    }

    pub fn bounding_box(&self) -> (r: AABB)
        ensures
            r == self.bbox,
    {
        self.bbox
    }

    /// The ray as the object sees it: turned back.
    pub open spec fn spec_local_ray(&self, ray: &Ray) -> Ray {
        Ray {
            origin: turn_back(ray.origin, self.sin_theta, self.cos_theta),
            direction: turn_back(ray.direction, self.sin_theta, self.cos_theta),
            tm: ray.tm,
        }
    }

    /// A hit as the world sees it: its point and its normal turned, and all
    /// else as the object reported it.
    pub open spec fn spec_world_hit(&self, hit: HitRecord) -> HitRecord {
        HitRecord {
            p: turn(hit.p, self.sin_theta, self.cos_theta),
            normal: turn(hit.normal, self.sin_theta, self.cos_theta),
            ..hit
        }
    }

    /// What the object makes of the ray turned back, turned forth again.
    pub open spec fn spec_hit(&self, ray: &Ray, ray_t: &Interval, s: Sampler) -> (
        Option<HitRecord>,
        Sampler,
    )
        decreases self,
    {
        let (found, s1) = self.hittable.spec_hit(&self.spec_local_ray(ray), ray_t, s);
        match found {
            Some(hit) => (Some(self.spec_world_hit(hit)), s1),
            None => (None, s1),
        }
    }

    pub fn hit(&self, ray: &Ray, ray_t: &Interval, s: &mut Sampler) -> (r: Option<HitRecord>)
        requires
            old(s).wf(),
            self.hittable.wf(),
        ensures
            final(s).wf(),
            (r, *final(s)) == self.spec_hit(ray, ray_t, *old(s)),
        decreases self,
    {
        let origin = turn_back(ray.origin, self.sin_theta, self.cos_theta);
        let direction = turn_back(ray.direction, self.sin_theta, self.cos_theta);
        let rotated_r = Ray::new2(origin, direction, ray.tm);
        match self.hittable.hit(&rotated_r, ray_t, s) {
            Some(hit) => Some(
                HitRecord {
                    p: turn(hit.p, self.sin_theta, self.cos_theta),
                    normal: turn(hit.normal, self.sin_theta, self.cos_theta),
                    ..hit
                },
            ),
            None => None,
        }
    }
}

impl ConstantMedium {
    /// Smoke of a given density within a boundary, with the material at
    /// `phase_function`.
    pub fn new(boundary: Hittable, phase_function: usize, density: Real) -> (r: ConstantMedium)
        ensures
            *r.boundary == boundary,
            r.phase_function == phase_function,
            r.neg_inv_density == Real::spec_from_bits(MINUS_ONE_BITS).div(density),
    {
        let neg_inv_density = Real::from_bits(MINUS_ONE_BITS).div(density);
        ConstantMedium { boundary: Box::new(boundary), neg_inv_density, phase_function }
    }

    /// The box of smoke is that of its boundary.
    pub fn bounding_box(&self) -> (r: AABB)
        ensures
            r == self.boundary.spec_bounding_box(),
    {
        self.boundary.bounding_box()
    }

    /// The range of parameters that come after the boundary was entered at
    /// `t`: from `t` + 0.0001 on.
    pub open spec fn spec_beyond(t: Real) -> Interval {
        Interval { min: t.add(Real { bits: DELTA_BITS }), max: Real { bits: INFINITY_BITS } }
    }

    /// Where the ray is scattered on its way through the smoke from the
    /// parameter `enter` to the parameter `leave`, of which `ray_t` admits a
    /// part, given a number `chance` in [0, 1). The way starts no earlier
    /// than at the parameter 0. The ray flies -ln(chance) / density before
    /// it is scattered; where that is farther than the way is long, it is
    /// not scattered.
    pub open spec fn spec_scatter_at(
        &self,
        ray: &Ray,
        ray_t: &Interval,
        enter: Real,
        leave: Real,
        chance: Real,
    ) -> Option<HitRecord> {
        let zero = Real { bits: 0 };
        let clipped = enter.max(ray_t.min);
        let hit_t1 = if clipped.lt(zero) { zero } else { clipped };
        let hit_t2 = leave.min(ray_t.max);
        let ray_length = ray.direction.length();
        let distance_inside_boundary = hit_t2.sub(hit_t1).mul(ray_length);
        let hit_distance = self.neg_inv_density.mul(chance.ln());
        if hit_distance.gt(distance_inside_boundary) {
            None
        } else {
            let t = hit_t1.add(hit_distance.div(ray_length));
            Some(HitRecord::new2(ray.at(t), t, zero, zero, self.phase_function))
        }
    }

    pub fn scatter_at(
        &self,
        ray: &Ray,
        ray_t: &Interval,
        enter: Real,
        leave: Real,
        chance: Real,
    ) -> (r: Option<HitRecord>)
        ensures
            r == self.spec_scatter_at(ray, ray_t, enter, leave, chance),
            r matches Some(rec) ==> {
                &&& rec.material == self.phase_function
                &&& rec.front_face
                &&& rec.u.bits == 0
                &&& rec.v.bits == 0
                &&& rec.p == ray.at(rec.t)
            },
    {
        let clipped = enter.max(ray_t.min);
        let hit_t1 = if clipped.lt(Real::zero()) { Real::zero() } else { clipped };
        let hit_t2 = leave.min(ray_t.max);
        let ray_length = ray.direction.length();
        let distance_inside_boundary = hit_t2.sub(hit_t1).mul(ray_length);
        let hit_distance = self.neg_inv_density.mul(chance.ln());
        if hit_distance.gt(distance_inside_boundary) {
            return None;
        }
        let t = hit_t1.add(hit_distance.div(ray_length));
        Some(HitRecord::new2(ray.at(t), t, Real::zero(), Real::zero(), self.phase_function))
    }

    /// Whether `ray_t` admits nothing of the way from `enter` to `leave`.
    pub open spec fn spec_misses(ray_t: &Interval, enter: Real, leave: Real) -> bool {
        enter.max(ray_t.min).ge(leave.min(ray_t.max))
    }

    /// The boundary is asked where the ray enters it, anywhere on the ray's
    /// line, and where it leaves it after that. Where it does both and
    /// `ray_t` admits part of the way between, one number is drawn and
    /// decides where the ray is scattered, if at all.
    pub open spec fn spec_hit(&self, ray: &Ray, ray_t: &Interval, s: Sampler) -> (
        Option<HitRecord>,
        Sampler,
    )
        decreases self,
    {
        let (first, s1) = self.boundary.spec_hit(ray, &Interval::universe(), s);
        match first {
            None => (None, s1),
            Some(hit) => {
                let (second, s2) = self.boundary.spec_hit(ray, &Self::spec_beyond(hit.t), s1);
                match second {
                    None => (None, s2),
                    Some(hit2) => if Self::spec_misses(ray_t, hit.t, hit2.t) {
                        (None, s2)
                    } else {
                        (
                            self.spec_scatter_at(ray, ray_t, hit.t, hit2.t, s2.peek()),
                            s2.advanced(),
                        )
                    },
                }
            },
        }
    }

    pub fn hit(&self, ray: &Ray, ray_t: &Interval, s: &mut Sampler) -> (r: Option<HitRecord>)
        requires
            old(s).wf(),
            self.boundary.wf(),
        ensures
            final(s).wf(),
            (r, *final(s)) == self.spec_hit(ray, ray_t, *old(s)),
        decreases self,
    {
        let hit = match self.boundary.hit(ray, &Interval::universe(), s) {
            Some(hit) => hit,
            None => {
                return None;
            },
        };
        let beyond = Interval::new(hit.t.add(Real::from_bits(DELTA_BITS)), Real::infinity());
        let hit2 = match self.boundary.hit(ray, &beyond, s) {
            Some(hit2) => hit2,
            None => {
                return None;
            },
        };
        if hit.t.max(ray_t.min).ge(hit2.t.min(ray_t.max)) {
            return None;
        }
        let chance = random_double(s);
        self.scatter_at(ray, ray_t, hit.t, hit2.t, chance)
    }
}

impl Hittables {
    /// The box round the first `n` of some objects: the box round the box
    /// of the objects before the last and the box of the last. The box round
    /// no objects is empty.
    pub open spec fn spec_bbox(objects: Seq<Hittable>, n: nat) -> AABB
        decreases n,
    {
        if n == 0 {
            AABB::empty()
        } else {
            AABB::from_aabb(
                &Self::spec_bbox(objects, (n - 1) as nat),
                &objects[n - 1].spec_bounding_box(),
            )
        }
    }

    pub fn new(objects: Vec<Hittable>) -> (r: Hittables)
        ensures
            r.objects == objects,
            r.bbox == Self::spec_bbox(objects@, objects@.len()),
    {
        let mut bbox = AABB::empty();
        let mut i: usize = 0;
        while i < objects.len()
            invariant
                i <= objects@.len(),
                bbox == Self::spec_bbox(objects@, i as nat),
            decreases objects@.len() - i,
        {
            bbox = AABB::from_aabb(&bbox, &objects[i].bounding_box());
            i = i + 1;
        }
        Hittables { objects, bbox }
    }

    pub fn bounding_box(&self) -> (r: AABB)
        ensures
            r == self.bbox,
    {
        self.bbox
    }

    /// How many numbers the first `n` of some objects take at most when each
    /// is asked for a hit once.
    pub open spec fn spec_draws_upto(objects: Seq<Hittable>, n: nat) -> nat
        decreases objects, n,
    {
        if n == 0 || n > objects.len() {
            0
        } else {
            Self::spec_draws_upto(objects, (n - 1) as nat) + objects[n - 1].draws_most()
        }
    }

    /// How many numbers some objects take at most when each is asked for a
    /// hit once, as far as 64 bits hold it.
    pub fn draws_needed(objects: &Vec<Hittable>) -> (r: u64)
        ensures
            r == capped(Self::spec_draws_upto(objects@, objects@.len())),
        decreases objects@, 0nat,
    {
        let mut sum: u64 = 0;
        let mut i: usize = 0;
        while i < objects.len()
            invariant
                i <= objects@.len(),
                sum == capped(Self::spec_draws_upto(objects@, i as nat)),
            decreases objects@.len() - i,
        {
            sum = capped_sum(sum, objects[i].draws_needed());
            i = i + 1;
        }
        sum
    }

    /// The search from the object at `i` on, when the nearest hit so far is
    /// `best` and lies at `closest`: each object is asked for a hit between
    /// `t_min` and the nearest so far, so that a later object wins only with
    /// a nearer hit.
    pub open spec fn spec_hit_from(
        objects: Seq<Hittable>,
        i: int,
        ray: &Ray,
        t_min: Real,
        closest: Real,
        best: Option<HitRecord>,
        s: Sampler,
    ) -> (Option<HitRecord>, Sampler)
        decreases objects, objects.len() - i,
    {
        if 0 <= i < objects.len() {
            let (found, s1) = objects[i].spec_hit(ray, &Interval { min: t_min, max: closest }, s);
            match found {
                Some(hit) => Self::spec_hit_from(objects, i + 1, ray, t_min, hit.t, Some(hit), s1),
                None => Self::spec_hit_from(objects, i + 1, ray, t_min, closest, best, s1),
            }
        } else {
            (best, s)
        }
    }

    /// The nearest hit among the objects.
    pub open spec fn spec_hit(&self, ray: &Ray, ray_t: &Interval, s: Sampler) -> (
        Option<HitRecord>,
        Sampler,
    )
        decreases self,
    {
        Self::spec_hit_from(self.objects@, 0, ray, ray_t.min, ray_t.max, None, s)
    }

    pub fn hit(&self, ray: &Ray, ray_t: &Interval, s: &mut Sampler) -> (r: Option<HitRecord>)
        requires
            old(s).wf(),
            forall|i: int| 0 <= i < self.objects@.len() ==> (#[trigger] self.objects@[i]).wf(),
        ensures
            final(s).wf(),
            (r, *final(s)) == self.spec_hit(ray, ray_t, *old(s)),
        decreases self,
    {
        let mut hit_record: Option<HitRecord> = None;
        let mut closest_so_far = ray_t.max;
        let mut i: usize = 0;
        while i < self.objects.len()
            invariant
                i <= self.objects@.len(),
                s.wf(),
                forall|i: int| 0 <= i < self.objects@.len() ==> (#[trigger] self.objects@[i]).wf(),
                self.spec_hit(ray, ray_t, *old(s)) == Self::spec_hit_from(
                    self.objects@,
                    i as int,
                    ray,
                    ray_t.min,
                    closest_so_far,
                    hit_record,
                    *s,
                ),
            decreases self.objects@.len() - i,
        {
            let found = self.objects[i].hit(ray, &Interval::new(ray_t.min, closest_so_far), s);
            if let Some(object_hit) = found {
                closest_so_far = object_hit.t;
                hit_record = Some(object_hit);
            }
            i = i + 1;
        }
        hit_record
    }
}

/// The six sides of the block with `a` and `b` as opposite corners, each a
/// parallelogram of the given material: front, right, back, left, top and
/// bottom, where the front is the side of greatest z.
pub open spec fn spec_box_sides(a: Vec3, b: Vec3, material: usize) -> Seq<Hittable> {
    let zero = Real { bits: 0 };
    let min = Vec3 { x: a.x.min(b.x), y: a.y.min(b.y), z: a.z.min(b.z) };
    let max = Vec3 { x: a.x.max(b.x), y: a.y.max(b.y), z: a.z.max(b.z) };
    let dx = Vec3 { x: max.x.sub(min.x), y: zero, z: zero };
    let dy = Vec3 { x: zero, y: max.y.sub(min.y), z: zero };
    let dz = Vec3 { x: zero, y: zero, z: max.z.sub(min.z) };
    seq![
        Hittable::Quad(Quad::new(Vec3 { x: min.x, y: min.y, z: max.z }, dx, dy, material)),
        Hittable::Quad(Quad::new(Vec3 { x: max.x, y: min.y, z: max.z }, dz.neg(), dy, material)),
        Hittable::Quad(Quad::new(Vec3 { x: max.x, y: min.y, z: min.z }, dx.neg(), dy, material)),
        Hittable::Quad(Quad::new(Vec3 { x: min.x, y: min.y, z: min.z }, dz, dy, material)),
        Hittable::Quad(Quad::new(Vec3 { x: min.x, y: max.y, z: max.z }, dx, dz.neg(), material)),
        Hittable::Quad(Quad::new(Vec3 { x: min.x, y: min.y, z: min.z }, dx, dz, material)),
    ]
}

/// The block with `a` and `b` as opposite corners, as the list of its six
/// sides.
pub fn box3(a: Vec3, b: Vec3, material: usize) -> (r: Hittables)
    ensures
        r.objects@ == spec_box_sides(a, b, material),
        r.bbox == Hittables::spec_bbox(r.objects@, 6),
{
    let zero = Real::zero();
    let min = Vec3::new(a.x.min(b.x), a.y.min(b.y), a.z.min(b.z));
    let max = Vec3::new(a.x.max(b.x), a.y.max(b.y), a.z.max(b.z));
    let dx = Vec3::new(max.x.sub(min.x), zero, zero);
    let dy = Vec3::new(zero, max.y.sub(min.y), zero);
    let dz = Vec3::new(zero, zero, max.z.sub(min.z));
    let mut sides: Vec<Hittable> = Vec::new();
    sides.push(Hittable::Quad(Quad::new(Vec3::new(min.x, min.y, max.z), dx, dy, material)));
    sides.push(Hittable::Quad(Quad::new(Vec3::new(max.x, min.y, max.z), dz.neg(), dy, material)));
    sides.push(Hittable::Quad(Quad::new(Vec3::new(max.x, min.y, min.z), dx.neg(), dy, material)));
    sides.push(Hittable::Quad(Quad::new(Vec3::new(min.x, min.y, min.z), dz, dy, material)));
    sides.push(Hittable::Quad(Quad::new(Vec3::new(min.x, max.y, max.z), dx, dz.neg(), material)));
    sides.push(Hittable::Quad(Quad::new(Vec3::new(min.x, min.y, min.z), dx, dz, material)));
    assert(sides@ =~= spec_box_sides(a, b, material));
    Hittables::new(sides)
}

impl Hittable {
    /// The box that holds the object at every time.
    pub open spec fn spec_bounding_box(&self) -> AABB
        decreases self,
    {
        match self {
            Hittable::Sphere(o) => o.bbox,
            Hittable::Quad(o) => o.bbox,
            Hittable::Translate(o) => o.bbox,
            Hittable::RotateY(o) => o.bbox,
            Hittable::ConstantMedium(o) => o.boundary.spec_bounding_box(),
            Hittable::Hittables(o) => o.bbox,
            Hittable::BvhNode(o) => o.bbox,
        }
    }

    pub fn bounding_box(&self) -> (r: AABB)
        ensures
            r == self.spec_bounding_box(),
        decreases self,
    {
        match self {
            Hittable::Sphere(o) => o.bounding_box(),
            Hittable::Quad(o) => o.bounding_box(),
            Hittable::Translate(o) => o.bounding_box(),
            Hittable::RotateY(o) => o.bounding_box(),
            Hittable::ConstantMedium(o) => o.boundary.bounding_box(),
            Hittable::Hittables(o) => o.bounding_box(),
            Hittable::BvhNode(o) => o.bounding_box(),
        }
    }

    /// Whether every tree of boxes within the object names only objects that
    /// it holds.
    pub open spec fn wf(&self) -> bool
        decreases self,
    {
        match self {
            Hittable::Sphere(_) => true,
            Hittable::Quad(_) => true,
            Hittable::Translate(o) => o.hittable.wf(),
            Hittable::RotateY(o) => o.hittable.wf(),
            Hittable::ConstantMedium(o) => o.boundary.wf(),
            Hittable::Hittables(o) => forall|i: int|
                0 <= i < o.objects@.len() ==> (#[trigger] o.objects@[i]).wf(),
            Hittable::BvhNode(o) => o.root.wf(o.objects@.len()) && forall|i: int|
                0 <= i < o.objects@.len() ==> (#[trigger] o.objects@[i]).wf(),
        }
    }

    /// Whether every one of some objects is well formed.
    pub fn all_valid(objects: &Vec<Hittable>) -> (r: bool)
        ensures
            r == forall|i: int| 0 <= i < objects@.len() ==> (#[trigger] objects@[i]).wf(),
        decreases objects@, 0nat,
    {
        let mut i: usize = 0;
        while i < objects.len()
            invariant
                i <= objects@.len(),
                forall|k: int| 0 <= k < i ==> (#[trigger] objects@[k]).wf(),
            decreases objects@.len() - i,
        {
            if !objects[i].valid() {
                return false;
            }
            i = i + 1;
        }
        true
    }

    pub fn valid(&self) -> (r: bool)
        ensures
            r == self.wf(),
        decreases self,
    {
        match self {
            Hittable::Sphere(_) => true,
            Hittable::Quad(_) => true,
            Hittable::Translate(o) => o.hittable.valid(),
            Hittable::RotateY(o) => o.hittable.valid(),
            Hittable::ConstantMedium(o) => o.boundary.valid(),
            Hittable::Hittables(o) => Self::all_valid(&o.objects),
            Hittable::BvhNode(o) => o.root.valid(o.objects.len()) && Self::all_valid(&o.objects),
        }
    }

    /// Whether every material that the object names has its place among
    /// `count` materials.
    pub open spec fn materials_below(&self, count: nat) -> bool
        decreases self,
    {
        match self {
            Hittable::Sphere(o) => o.material < count,
            Hittable::Quad(o) => o.material < count,
            Hittable::Translate(o) => o.hittable.materials_below(count),
            Hittable::RotateY(o) => o.hittable.materials_below(count),
            Hittable::ConstantMedium(o) => o.phase_function < count && o.boundary.materials_below(
                count,
            ),
            Hittable::Hittables(o) => forall|i: int|
                0 <= i < o.objects@.len() ==> (#[trigger] o.objects@[i]).materials_below(count),
            Hittable::BvhNode(o) => forall|i: int|
                0 <= i < o.objects@.len() ==> (#[trigger] o.objects@[i]).materials_below(count),
        }
    }

    /// Whether every material that some objects name has its place among
    /// `count` materials.
    pub fn all_materials_within(objects: &Vec<Hittable>, count: usize) -> (r: bool)
        ensures
            r == forall|i: int|
                0 <= i < objects@.len() ==> (#[trigger] objects@[i]).materials_below(count as nat),
        decreases objects@, 0nat,
    {
        let mut i: usize = 0;
        while i < objects.len()
            invariant
                i <= objects@.len(),
                forall|k: int| 0 <= k < i ==> (#[trigger] objects@[k]).materials_below(count as nat),
            decreases objects@.len() - i,
        {
            if !objects[i].materials_within(count) {
                return false;
            }
            i = i + 1;
        }
        true
    }

    pub fn materials_within(&self, count: usize) -> (r: bool)
        ensures
            r == self.materials_below(count as nat),
        decreases self,
    {
        match self {
            Hittable::Sphere(o) => o.material < count,
            Hittable::Quad(o) => o.material < count,
            Hittable::Translate(o) => o.hittable.materials_within(count),
            Hittable::RotateY(o) => o.hittable.materials_within(count),
            Hittable::ConstantMedium(o) => o.phase_function < count
                && o.boundary.materials_within(count),
            Hittable::Hittables(o) => Self::all_materials_within(&o.objects, count),
            Hittable::BvhNode(o) => Self::all_materials_within(&o.objects, count),
        }
    }

    /// How many numbers the object takes at most when it is asked for a hit:
    /// none for a surface, and for smoke one more than twice what its
    /// boundary takes, which is asked twice.
    pub open spec fn draws_most(&self) -> nat
        decreases self,
    {
        match self {
            Hittable::Sphere(_) => 0,
            Hittable::Quad(_) => 0,
            Hittable::Translate(o) => o.hittable.draws_most(),
            Hittable::RotateY(o) => o.hittable.draws_most(),
            Hittable::ConstantMedium(o) => 2 * o.boundary.draws_most() + 1,
            Hittable::Hittables(o) => Hittables::spec_draws_upto(o.objects@, o.objects@.len()),
            Hittable::BvhNode(o) => o.root.draws_most(o.objects@),
        }
    }

    /// How many numbers the object takes at most when it is asked for a
    /// hit, as far as 64 bits hold it.
    pub fn draws_needed(&self) -> (r: u64)
        ensures
            r == capped(self.draws_most()),
        decreases self,
    {
        match self {
            Hittable::Sphere(_) => 0,
            Hittable::Quad(_) => 0,
            Hittable::Translate(o) => o.hittable.draws_needed(),
            Hittable::RotateY(o) => o.hittable.draws_needed(),
            Hittable::ConstantMedium(o) => {
                let inner: u64 = o.boundary.draws_needed();
                capped_sum(capped_sum(inner, inner), 1)
            },
            Hittable::Hittables(o) => Hittables::draws_needed(&o.objects),
            Hittable::BvhNode(o) => o.root.draws_needed(&o.objects),
        }
    }

    /// Whether there is no smoke in the object.
    pub open spec fn free_of_smoke(&self) -> bool
        decreases self,
    {
        match self {
            Hittable::Sphere(_) => true,
            Hittable::Quad(_) => true,
            Hittable::Translate(o) => o.hittable.free_of_smoke(),
            Hittable::RotateY(o) => o.hittable.free_of_smoke(),
            Hittable::ConstantMedium(_) => false,
            Hittable::Hittables(o) => forall|i: int|
                0 <= i < o.objects@.len() ==> (#[trigger] o.objects@[i]).free_of_smoke(),
            Hittable::BvhNode(o) => forall|i: int|
                0 <= i < o.objects@.len() ==> (#[trigger] o.objects@[i]).free_of_smoke(),
        }
    }

    /// The nearest hit of the ray within `ray_t`, and the sampler that is
    /// left.
    pub open spec fn spec_hit(&self, ray: &Ray, ray_t: &Interval, s: Sampler) -> (
        Option<HitRecord>,
        Sampler,
    )
        decreases self,
    {
        match self {
            Hittable::Sphere(o) => (o.spec_hit(ray, ray_t), s),
            Hittable::Quad(o) => (o.spec_hit(ray, ray_t), s),
            Hittable::Translate(o) => o.spec_hit(ray, ray_t, s),
            Hittable::RotateY(o) => o.spec_hit(ray, ray_t, s),
            Hittable::ConstantMedium(o) => o.spec_hit(ray, ray_t, s),
            Hittable::Hittables(o) => o.spec_hit(ray, ray_t, s),
            Hittable::BvhNode(o) => o.spec_hit(ray, ray_t, s),
        }
    }

    pub fn hit(&self, ray: &Ray, ray_t: &Interval, s: &mut Sampler) -> (r: Option<HitRecord>)
        requires
            old(s).wf(),
            self.wf(),
        ensures
            final(s).wf(),
            (r, *final(s)) == self.spec_hit(ray, ray_t, *old(s)),
        decreases self,
    {
        match self {
            Hittable::Sphere(o) => o.hit(ray, ray_t),
            Hittable::Quad(o) => o.hit(ray, ray_t),
            Hittable::Translate(o) => o.hit(ray, ray_t, s),
            Hittable::RotateY(o) => o.hit(ray, ray_t, s),
            Hittable::ConstantMedium(o) => o.hit(ray, ray_t, s),
            Hittable::Hittables(o) => o.hit(ray, ray_t, s),
            Hittable::BvhNode(o) => o.hit(ray, ray_t, s),
        }
    }
}

} // verus!
