//! Gradient noise over a lattice of random unit vectors.

use vstd::prelude::*;
use vstd::seq_lib::to_multiset_len;
use crate::scalar::{Real, HALF_BITS, MINUS_ONE_BITS, ONE_BITS, THREE_BITS, TWO_BITS};
use crate::vec3::{Vec3, dot};
use crate::sampling::{Rng, Sampler, random_vec3_min_max, spec_random_vec3_min_max};

verus! {

/// The number of entries of each table.
pub const POINT_COUNT: usize = 256;

/// A lattice of 256 random unit vectors, reached through three tables that
/// rearrange the coordinates of a cell.
pub struct Perlin {
    pub perm_x: Vec<u8>,
    pub perm_y: Vec<u8>,
    pub perm_z: Vec<u8>,
    pub rand_vec: Vec<Vec3>,
}

/// The bytes from 0 to 255 in their order.
pub open spec fn identity_table() -> Seq<u8> {
    Seq::new(POINT_COUNT as nat, |i: int| i as u8)
}

/// The lattice coordinate `d` steps after `i`, as a place in a table: the
/// remainder of their sum by 256.
pub open spec fn spec_cell(i: i64, d: u8) -> usize {
    ((i + d) % 256) as usize
}

#[verifier::when_used_as_spec(spec_cell)]
pub fn cell(i: i64, d: u8) -> (r: usize)
    ensures
        r == spec_cell(i, d),
        r < POINT_COUNT,
{
    let low: u64 = if i >= 0 {
        (i as u64) % 256
    } else {
        255 - ((-(i + 1)) as u64) % 256
    };
    ((low + d as u64) % 256) as usize
}

/// The first, the second and the third binary digit of a corner's number
/// give its step along x, y and z.
pub open spec fn step_x(n: int) -> u8 {
    (n / 4 % 2) as u8
}

pub open spec fn step_y(n: int) -> u8 {
    (n / 2 % 2) as u8
}

pub open spec fn step_z(n: int) -> u8 {
    (n % 2) as u8
}

/// A step as a number: 0 or 1.
pub open spec fn spec_step_value(d: u8) -> Real {
    if d == 0 {
        Real { bits: 0 }
    } else {
        Real { bits: ONE_BITS }
    }
}

#[verifier::when_used_as_spec(spec_step_value)]
pub fn step_value(d: u8) -> (r: Real)
    ensures
        r == spec_step_value(d),
{
    if d == 0 {
        Real::zero()
    } else {
        Real::one()
    }
}

/// The Hermite smoothing of a fraction: t * t * (3 - 2 t).
pub open spec fn spec_smooth(t: Real) -> Real {
    t.mul(t).mul(Real { bits: THREE_BITS }.sub(Real { bits: TWO_BITS }.mul(t)))
}

#[verifier::when_used_as_spec(spec_smooth)]
pub fn smooth(t: Real) -> (r: Real)
    ensures
        r == spec_smooth(t),
{
    t.mul(t).mul(Real::from_bits(THREE_BITS).sub(Real::from_bits(TWO_BITS).mul(t)))
}

/// The weight of a corner along one axis: the smoothed fraction `tt` for the
/// far corner, one less `tt` for the near one.
pub open spec fn spec_blend(d: Real, tt: Real) -> Real {
    d.mul(tt).add(Real { bits: ONE_BITS }.sub(d).mul(Real { bits: ONE_BITS }.sub(tt)))
}

#[verifier::when_used_as_spec(spec_blend)]
pub fn blend(d: Real, tt: Real) -> (r: Real)
    ensures
        r == spec_blend(d, tt),
{
    d.mul(tt).add(Real::one().sub(d).mul(Real::one().sub(tt)))
}

impl Perlin {
    /// Each table has 256 entries.
    pub open spec fn wf(&self) -> bool {
        &&& self.perm_x@.len() == POINT_COUNT
        &&& self.perm_y@.len() == POINT_COUNT
        &&& self.perm_z@.len() == POINT_COUNT
        &&& self.rand_vec@.len() == POINT_COUNT
    }

    pub fn valid(&self) -> (r: bool)
        ensures
            r == self.wf(),
    {
        self.perm_x.len() == POINT_COUNT && self.perm_y.len() == POINT_COUNT && self.perm_z.len()
            == POINT_COUNT && self.rand_vec.len() == POINT_COUNT
    }

    /// Each of the three tables of bytes holds every byte once.
    pub open spec fn permuted(&self) -> bool {
        &&& self.perm_x@.to_multiset() == identity_table().to_multiset()
        &&& self.perm_y@.to_multiset() == identity_table().to_multiset()
        &&& self.perm_z@.to_multiset() == identity_table().to_multiset()
    }

    /// `count` random vectors, each a candidate in the cube from -1 to 1
    /// scaled to unit length, and the sampler that is left.
    pub open spec fn spec_random_vectors(count: nat, s: Sampler) -> (Seq<Vec3>, Sampler)
        decreases count,
    {
        if count == 0 {
            (Seq::empty(), s)
        } else {
            let (before, s1) = Self::spec_random_vectors((count - 1) as nat, s);
            let (p, s2) = spec_random_vec3_min_max(
                Real { bits: MINUS_ONE_BITS },
                Real { bits: ONE_BITS },
                s1,
            );
            (before.push(p.normalized()), s2)
        }
    }

    /// The 256 gradient vectors of a lattice.
    pub fn random_vectors(s: &mut Sampler) -> (r: Vec<Vec3>)
        requires
            old(s).wf(),
        ensures
            final(s).wf(),
            (r@, *final(s)) == Self::spec_random_vectors(POINT_COUNT as nat, *old(s)),
            r@.len() == POINT_COUNT,
    {
        let mut vectors: Vec<Vec3> = Vec::new();
        while vectors.len() < POINT_COUNT
            invariant
                s.wf(),
                vectors@.len() <= POINT_COUNT,
                (vectors@, *s) == Self::spec_random_vectors(vectors@.len(), *old(s)),
            decreases POINT_COUNT - vectors@.len(),
        {
            let p = random_vec3_min_max(Real::from_bits(MINUS_ONE_BITS), Real::one(), s);
            vectors.push(p.normalized());
        }
        vectors
    }

    /// The table that holds the bytes from 0 to 255 in their order.
    pub fn ordered_table() -> (r: Vec<u8>)
        ensures
            r@ == identity_table(),
    {
        let mut table: Vec<u8> = Vec::new();
        while table.len() < POINT_COUNT
            invariant
                table@.len() <= POINT_COUNT,
                forall|i: int| 0 <= i < table@.len() ==> table@[i] == i as u8,
            decreases POINT_COUNT - table@.len(),
        {
            let n: u8 = table.len() as u8;
            table.push(n);
        }
        assert(table@ =~= identity_table());
        table
    }

    /// A lattice from its four tables; none unless each has 256 entries.
    pub fn from_parts(
        perm_x: Vec<u8>,
        perm_y: Vec<u8>,
        perm_z: Vec<u8>,
        rand_vec: Vec<Vec3>,
    ) -> (r: Option<Perlin>)
        ensures
            r.is_some() <==> (Perlin { perm_x, perm_y, perm_z, rand_vec }).wf(),
            r matches Some(noise) ==> noise == (Perlin { perm_x, perm_y, perm_z, rand_vec }),
    {
        if perm_x.len() == POINT_COUNT && perm_y.len() == POINT_COUNT && perm_z.len()
            == POINT_COUNT && rand_vec.len() == POINT_COUNT {
            Some(Perlin { perm_x, perm_y, perm_z, rand_vec })
        } else {
            None
        }
    }

    /// Whether the gradient vectors are those that some sampler gives.
    pub open spec fn drawn(&self) -> bool {
        exists|s: Sampler|
            s.wf() && self.rand_vec@ == (#[trigger] Self::spec_random_vectors(
                POINT_COUNT as nat,
                s,
            )).0
    }

    /// A lattice drawn from a generator: the gradient vectors are those that
    /// some sampler gives, and each table of bytes is some rearrangement of
    /// the bytes from 0 to 255.
    pub fn new(rng: &mut Rng) -> (r: Perlin)
        ensures
            r.wf(),
            r.permuted(),
            r.drawn(),
    {
        let mut s = Sampler::draw(rng, 3 * POINT_COUNT);
        let ghost s0 = s;
        let rand_vec = Self::random_vectors(&mut s);
        let mut perm_x = Self::ordered_table();
        let mut perm_y = Self::ordered_table();
        let mut perm_z = Self::ordered_table();
        rng.shuffle(&mut perm_x);
        rng.shuffle(&mut perm_y);
        rng.shuffle(&mut perm_z);
        proof {
            to_multiset_len(perm_x@);
            to_multiset_len(perm_y@);
            to_multiset_len(perm_z@);
            to_multiset_len(identity_table());
            assert(rand_vec@ == Self::spec_random_vectors(POINT_COUNT as nat, s0).0);
        }
        Perlin { perm_x, perm_y, perm_z, rand_vec }
    }

    /// The gradient vector at the corner with number `n` of the lattice cell
    /// that starts at (i, j, k).
    pub open spec fn spec_corner(&self, i: i64, j: i64, k: i64, n: u8) -> Vec3 {
        self.rand_vec@[(self.perm_x@[cell(i, step_x(n as int)) as int]
            ^ self.perm_y@[cell(j, step_y(n as int)) as int]
            ^ self.perm_z@[cell(k, step_z(n as int)) as int]) as int]
    }

    #[verifier::when_used_as_spec(spec_corner)]
    pub fn corner(&self, i: i64, j: i64, k: i64, n: u8) -> (r: Vec3)
        requires
            self.wf(),
            n < 8,
        ensures
            r == self.spec_corner(i, j, k, n),
    {
        let a: u8 = self.perm_x[cell(i, n / 4 % 2)];
        let b: u8 = self.perm_y[cell(j, n / 2 % 2)];
        let c: u8 = self.perm_z[cell(k, n % 2)];
        self.rand_vec[(a ^ b ^ c) as usize]
    }

    /// What the corner with number `n` adds to the noise at a point that lies
    /// at the fractions (u, v, w) within its cell: the product of the
    /// corner's weights along the three axes, times the dot product of its
    /// gradient with the vector from the corner to the point.
    pub open spec fn spec_corner_term(gradient: Vec3, n: u8, u: Real, v: Real, w: Real) -> Real {
        let i_f = step_value(step_x(n as int));
        let j_f = step_value(step_y(n as int));
        let k_f = step_value(step_z(n as int));
        let weight_v = Vec3 { x: u.sub(i_f), y: v.sub(j_f), z: w.sub(k_f) };
        blend(i_f, smooth(u)).mul(blend(j_f, smooth(v))).mul(blend(k_f, smooth(w))).mul(
            dot(&gradient, &weight_v),
        )
    }

    #[verifier::when_used_as_spec(spec_corner_term)]
    pub fn corner_term(gradient: Vec3, n: u8, u: Real, v: Real, w: Real) -> (r: Real)
        requires
            n < 8,
        ensures
            r == Self::spec_corner_term(gradient, n, u, v, w),
    {
        let i_f = step_value(n / 4 % 2);
        let j_f = step_value(n / 2 % 2);
        let k_f = step_value(n % 2);
        let weight_v = Vec3::new(u.sub(i_f), v.sub(j_f), w.sub(k_f));
        blend(i_f, smooth(u)).mul(blend(j_f, smooth(v))).mul(blend(k_f, smooth(w))).mul(
            dot(&gradient, &weight_v),
        )
    }

    /// The sum of the terms of the first `n` of some corners, added up in
    /// the order of their numbers.
    pub open spec fn spec_interp_upto(c: Seq<Vec3>, n: nat, u: Real, v: Real, w: Real) -> Real
        decreases n,
    {
        if n == 0 {
            Real { bits: 0 }
        } else {
            Self::spec_interp_upto(c, (n - 1) as nat, u, v, w).add(
                Self::spec_corner_term(c[n - 1], (n - 1) as u8, u, v, w),
            )
        }
    }

    /// Trilinear interpolation of the gradients at the eight corners of a
    /// cell, with Hermite smoothing.
    pub open spec fn spec_perlin_interp(c: Seq<Vec3>, u: Real, v: Real, w: Real) -> Real {
        Self::spec_interp_upto(c, 8, u, v, w)
    }

    pub fn perlin_interp(c: &Vec<Vec3>, u: Real, v: Real, w: Real) -> (r: Real)
        requires
            c@.len() == 8,
        ensures
            r == Self::spec_perlin_interp(c@, u, v, w),
    {
        let mut accum = Real::zero();
        let mut n: u8 = 0;
        while n < 8
            invariant
                n <= 8,
                c@.len() == 8,
                accum == Self::spec_interp_upto(c@, n as nat, u, v, w),
            decreases 8 - n,
        {
            accum = accum.add(Self::corner_term(c[n as usize], n, u, v, w));
            n = n + 1;
        }
        accum
    }

    /// The gradients at the eight corners of the cell that starts at
    /// (i, j, k), in the order of their numbers.
    pub open spec fn spec_corners(&self, i: i64, j: i64, k: i64) -> Seq<Vec3> {
        Seq::new(8, |n: int| self.spec_corner(i, j, k, n as u8))
    }

    /// The noise at a point: the interpolation, at the point's fractions,
    /// of the gradients round the cell that the point's coordinates, cut to
    /// whole numbers, name.
    pub open spec fn spec_noise(&self, p: Vec3) -> Real {
        Self::spec_perlin_interp(
            self.spec_corners(p.x.to_i64(), p.y.to_i64(), p.z.to_i64()),
            p.x.sub(p.x.floor()),
            p.y.sub(p.y.floor()),
            p.z.sub(p.z.floor()),
        )
    }

    pub fn noise(&self, p: Vec3) -> (r: Real)
        requires
            self.wf(),
        ensures
            r == self.spec_noise(p),
    {
        let u = p.x.sub(p.x.floor());
        let v = p.y.sub(p.y.floor());
        let w = p.z.sub(p.z.floor());
        let i: i64 = p.x.to_i64();
        let j: i64 = p.y.to_i64();
        let k: i64 = p.z.to_i64();
        let mut c: Vec<Vec3> = Vec::new();
        let mut n: u8 = 0;
        while n < 8
            invariant
                n <= 8,
                self.wf(),
                c@.len() == n,
                forall|m: int| 0 <= m < n ==> c@[m] == self.spec_corner(i, j, k, m as u8),
            decreases 8 - n,
        {
            c.push(self.corner(i, j, k, n));
            n = n + 1;
        }
        assert(c@ =~= self.spec_corners(i, j, k));
        Self::perlin_interp(&c, u, v, w)
    }

    /// The sum that `left` more octaves add to `accum`: each octave adds the
    /// noise at `p` times `weight`, then doubles `p` and halves `weight`.
    pub open spec fn spec_turb_from(&self, accum: Real, p: Vec3, weight: Real, left: nat) -> Real
        decreases left,
    {
        if left == 0 {
            accum
        } else {
            self.spec_turb_from(
                accum.add(weight.mul(self.spec_noise(p))),
                p.scaled_by(Real { bits: TWO_BITS }),
                weight.mul(Real { bits: HALF_BITS }),
                (left - 1) as nat,
            )
        }
    }

    /// Turbulence: the absolute value of the sum of `depth` octaves of noise,
    /// the first with weight 1 at `p`. No octaves for a `depth` below 1.
    pub open spec fn spec_turb(&self, p: Vec3, depth: i32) -> Real {
        self.spec_turb_from(
            Real { bits: 0 },
            p,
            Real { bits: ONE_BITS },
            if depth > 0 { depth as nat } else { 0 },
        ).abs()
    }

    pub fn turb(&self, p: Vec3, depth: i32) -> (r: Real)
        requires
            self.wf(),
        ensures
            r == self.spec_turb(p, depth),
    {
        let mut accum = Real::zero();
        let mut temp_p = p;
        let mut weight = Real::one();
        let mut left: i32 = depth;
        while left > 0
            invariant
                self.wf(),
                left <= depth,
                self.spec_turb(p, depth) == self.spec_turb_from(
                    accum,
                    temp_p,
                    weight,
                    if left > 0 { left as nat } else { 0 },
                ).abs(),
            decreases left,
        {
            accum = accum.add(weight.mul(self.noise(temp_p)));
            weight = weight.mul(Real::from_bits(HALF_BITS));
            temp_p = temp_p.scaled_by(Real::from_bits(TWO_BITS));
            left = left - 1;
        }
        accum.abs()
    }
}

} // verus!
