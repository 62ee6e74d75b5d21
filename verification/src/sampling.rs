//! Random numbers: a seeded generator, and samplers that hand out numbers
//! drawn from it one by one.
//!
//! Everything random in a render is read from a `Sampler`, a table of numbers
//! in [0, 1) that were drawn beforehand. What a function computes is thereby
//! a function of its arguments and of the sampler it is given.

use vstd::prelude::*;
use crate::scalar::{Real, MINUS_ONE_BITS, ONE_BITS};
use crate::vec3::Vec3;

verus! {

/// The least squared length of a candidate for a unit vector: 1e-6.
pub const SHORTEST_SQUARED_BITS: u64 = 0x3EB0_C6F7_A0B5_ED8D;

/// How many candidates a rejection sampler tries before it settles for a
/// fixed answer.
pub const ATTEMPTS: u32 = 64;

/// `rand::rngs::StdRng`. Nothing is known of what a generator holds.
#[verifier::external_type_specification]
#[verifier::external_body]
pub struct ExStdRng(rand::rngs::StdRng);

/// `rand::SeedableRng::seed_from_u64` for `rand::rngs::StdRng`. Nothing is
/// claimed of the generator that comes back.
#[verifier::external_body]
fn generator_from_seed(seed: u64) -> rand::rngs::StdRng {
    rand::SeedableRng::seed_from_u64(seed)
}

/// `rand::Rng::random` for a binary64 number, handed back as its bit pattern.
/// The crate documents that such a number lies in [0, 1): its pattern is below
/// that of 1.
#[verifier::external_body]
fn draw_unit(generator: &mut rand::rngs::StdRng) -> (r: u64)
    ensures
        r < ONE_BITS,
{
    softfloat::F64::from_native_f64(rand::Rng::random(generator)).to_bits()
}

/// `rand::seq::SliceRandom::shuffle`. The bytes are rearranged in place: the
/// vector holds the same bytes as before, each as often as before.
#[verifier::external_body]
fn shuffle_bytes(bytes: &mut Vec<u8>, generator: &mut rand::rngs::StdRng)
    ensures
        final(bytes)@.to_multiset() == old(bytes)@.to_multiset(),
{
    rand::seq::SliceRandom::shuffle(bytes.as_mut_slice(), generator)
}

/// A pseudo-random generator.
pub struct Rng {
    generator: rand::rngs::StdRng,
}

impl Rng {
    /// The generator that a seed determines.
    pub fn seeded(seed: u64) -> Rng {
        Rng { generator: generator_from_seed(seed) }
    }

    /// The next number, uniform in [0, 1).
    pub fn unit(&mut self) -> (r: Real)
        ensures
            unit_range(r),
    {
        Real::from_bits(draw_unit(&mut self.generator))
    }

    /// Rearranges `bytes` at random.
    pub fn shuffle(&mut self, bytes: &mut Vec<u8>)
        ensures
            final(bytes)@.to_multiset() == old(bytes)@.to_multiset(),
    {
        shuffle_bytes(bytes, &mut self.generator)
    }
}

/// Whether a number lies in [0, 1) and bears no sign: its pattern is below
/// that of 1.
pub open spec fn unit_range(x: Real) -> bool {
    x.bits < ONE_BITS
}

/// Numbers in [0, 1) drawn beforehand and handed out in turn. After the last
/// the first comes again.
pub struct Sampler {
    pub draws: Vec<Real>,
    pub next: usize,
}

impl Sampler {
    /// Whether there is a number to hand out next, and every number lies in
    /// [0, 1).
    pub open spec fn wf(&self) -> bool {
        &&& self.next < self.draws@.len() <= usize::MAX
        &&& forall|i: int| 0 <= i < self.draws@.len() ==> unit_range(#[trigger] self.draws@[i])
    }

    /// The number that is handed out next.
    pub open spec fn peek(&self) -> Real {
        self.draws@[self.next as int]
    }

    /// The sampler after it has handed out one number.
    pub open spec fn advanced(self) -> Sampler {
        Sampler {
            draws: self.draws,
            next: if self.next + 1 < self.draws@.len() {
                (self.next + 1) as usize
            } else {
                0
            },
        }
    }

    /// How many numbers the sampler can yet hand out before it starts again
    /// with the first.
    pub open spec fn left(&self) -> int {
        self.draws@.len() - 1 - self.next
    }

    /// Whether the sampler is what `from` becomes by handing out at most
    /// `most` numbers without starting again: no number is handed out twice
    /// on the way.
    pub open spec fn follows(&self, from: &Sampler, most: int) -> bool {
        self.draws == from.draws && from.next <= self.next <= from.next + most
    }

    /// Whether every one of some numbers lies in [0, 1).
    pub open spec fn all_unit(draws: Seq<Real>) -> bool {
        forall|i: int| 0 <= i < draws.len() ==> unit_range(#[trigger] draws[i])
    }

    /// A sampler over given numbers, starting at the first. There is none
    /// over no numbers, nor over a number outside [0, 1).
    pub fn new(draws: Vec<Real>) -> (r: Option<Sampler>)
        ensures
            r.is_some() <==> draws@.len() > 0 && Sampler::all_unit(draws@),
            r matches Some(s) ==> s.wf() && s.draws == draws && s.next == 0,
    {
        if draws.len() == 0 {
            return None;
        }
        let mut i: usize = 0;
        while i < draws.len()
            invariant
                i <= draws@.len(),
                forall|j: int| 0 <= j < i ==> unit_range(#[trigger] draws@[j]),
            decreases draws@.len() - i,
        {
            if draws[i].bits >= ONE_BITS {
                return None;
            }
            i = i + 1;
        }
        Some(Sampler { draws, next: 0 })
    }

    /// A sampler over `count` numbers drawn from a generator, or over one
    /// where `count` is zero.
    pub fn draw(rng: &mut Rng, count: usize) -> (r: Sampler)
        ensures
            r.wf(),
            r.next == 0,
            r.draws@.len() == if count == 0 { 1 } else { count as int },
    {
        let mut draws: Vec<Real> = Vec::new();
        draws.push(rng.unit());
        while draws.len() < count
            invariant
                draws@.len() >= 1,
                draws@.len() <= count || count == 0 && draws@.len() == 1,
                forall|j: int| 0 <= j < draws@.len() ==> unit_range(#[trigger] draws@[j]),
            decreases count - draws@.len(),
        {
            draws.push(rng.unit());
        }
        Sampler { draws, next: 0 }
    }

    /// Hands out the next number.
    pub fn unit(&mut self) -> (r: Real)
        requires
            old(self).wf(),
        ensures
            r == old(self).peek(),
            unit_range(r),
            *final(self) == old(self).advanced(),
            final(self).wf(),
    {
        let r = self.draws[self.next];
        if self.next < self.draws.len() - 1 {
            self.next = self.next + 1;
        } else {
            self.next = 0;
        }
        r
    }
}

/// A number and the sampler that is left after drawing it.
pub open spec fn spec_random_double(s: Sampler) -> (Real, Sampler) {
    (s.peek(), s.advanced())
}

/// A random number in [0, 1).
pub fn random_double(s: &mut Sampler) -> (r: Real)
    requires
        old(s).wf(),
    ensures
        final(s).wf(),
        (r, *final(s)) == spec_random_double(*old(s)),
        unit_range(r),
{
    s.unit()
}

/// `min` plus the part of the way to `max` that the next number gives.
pub open spec fn spec_random_double_min_max(min: Real, max: Real, s: Sampler) -> (Real, Sampler) {
    (min.add(max.sub(min).mul(s.peek())), s.advanced())
}

/// A random number in [min, max).
pub fn random_double_min_max(min: Real, max: Real, s: &mut Sampler) -> (r: Real)
    requires
        old(s).wf(),
    ensures
        final(s).wf(),
        (r, *final(s)) == spec_random_double_min_max(min, max, *old(s)),
{
    let u = random_double(s);
    min.add(max.sub(min).mul(u))
}

/// A vector of the next three numbers, x first.
pub open spec fn spec_random_vec3(s: Sampler) -> (Vec3, Sampler) {
    let s1 = s.advanced();
    let s2 = s1.advanced();
    (Vec3 { x: s.peek(), y: s1.peek(), z: s2.peek() }, s2.advanced())
}

/// A random vector with each component in [0, 1).
pub fn random_vec3(s: &mut Sampler) -> (r: Vec3)
    requires
        old(s).wf(),
    ensures
        final(s).wf(),
        (r, *final(s)) == spec_random_vec3(*old(s)),
{
    let x = random_double(s);
    let y = random_double(s);
    let z = random_double(s);
    Vec3::new(x, y, z)
}

pub open spec fn spec_random_vec3_min_max(min: Real, max: Real, s: Sampler) -> (Vec3, Sampler) {
    let (x, s1) = spec_random_double_min_max(min, max, s);
    let (y, s2) = spec_random_double_min_max(min, max, s1);
    let (z, s3) = spec_random_double_min_max(min, max, s2);
    (Vec3 { x, y, z }, s3)
}

/// A random vector with each component in [min, max).
pub fn random_vec3_min_max(min: Real, max: Real, s: &mut Sampler) -> (r: Vec3)
    requires
        old(s).wf(),
    ensures
        final(s).wf(),
        (r, *final(s)) == spec_random_vec3_min_max(min, max, *old(s)),
{
    let x = random_double_min_max(min, max, s);
    let y = random_double_min_max(min, max, s);
    let z = random_double_min_max(min, max, s);
    Vec3::new(x, y, z)
}

/// Whether a candidate can be scaled to a unit vector: its squared length
/// lies above 1e-6 and not above 1.
pub open spec fn spec_fit_for_unit(p: Vec3) -> bool {
    Real { bits: SHORTEST_SQUARED_BITS }.lt(p.length_squared())
        && p.length_squared().le(Real { bits: ONE_BITS })
}

#[verifier::when_used_as_spec(spec_fit_for_unit)]
pub fn fit_for_unit(p: Vec3) -> (r: bool)
    ensures
        r == spec_fit_for_unit(p),
{
    let len_sqr = p.length_squared();
    Real::from_bits(SHORTEST_SQUARED_BITS).lt(len_sqr) && len_sqr.le(Real::one())
}

/// The x axis: what a rejection sampler settles for.
pub open spec fn x_axis() -> Vec3 {
    Vec3 { x: Real { bits: ONE_BITS }, y: Real { bits: 0 }, z: Real { bits: 0 } }
}

/// The first of up to `attempts` candidates in the cube from -1 to 1 that is
/// fit, scaled to unit length; the x axis where none is.
pub open spec fn spec_unit_vector_within(attempts: nat, s: Sampler) -> (Vec3, Sampler)
    decreases attempts,
{
    if attempts == 0 {
        (x_axis(), s)
    } else {
        let (p, s1) = spec_random_vec3_min_max(
            Real { bits: MINUS_ONE_BITS },
            Real { bits: ONE_BITS },
            s,
        );
        if fit_for_unit(p) {
            (p.div(p.length_squared().sqrt()), s1)
        } else {
            spec_unit_vector_within((attempts - 1) as nat, s1)
        }
    }
}

pub open spec fn spec_random_unit_vector(s: Sampler) -> (Vec3, Sampler) {
    spec_unit_vector_within(ATTEMPTS as nat, s)
}

/// A random direction, uniform on the unit sphere, found by rejection.
pub fn random_unit_vector(s: &mut Sampler) -> (r: Vec3)
    requires
        old(s).wf(),
    ensures
        final(s).wf(),
        (r, *final(s)) == spec_random_unit_vector(*old(s)),
{
    let mut left: u32 = ATTEMPTS;
    while left > 0
        invariant
            s.wf(),
            spec_random_unit_vector(*old(s)) == spec_unit_vector_within(left as nat, *s),
        decreases left,
    {
        let p = random_vec3_min_max(Real::from_bits(MINUS_ONE_BITS), Real::one(), s);
        if fit_for_unit(p) {
            return p.div(p.length_squared().sqrt());
        }
        left = left - 1;
    }
    Vec3::new(Real::one(), Real::zero(), Real::zero())
}

/// The first of up to `attempts` candidates in the square from -1 to 1 that
/// lies inside the unit circle; the center where none does.
pub open spec fn spec_in_unit_disc_within(attempts: nat, s: Sampler) -> (Vec3, Sampler)
    decreases attempts,
{
    if attempts == 0 {
        (Vec3::zero(), s)
    } else {
        let (x, s1) = spec_random_double_min_max(
            Real { bits: MINUS_ONE_BITS },
            Real { bits: ONE_BITS },
            s,
        );
        let (y, s2) = spec_random_double_min_max(
            Real { bits: MINUS_ONE_BITS },
            Real { bits: ONE_BITS },
            s1,
        );
        let p = Vec3 { x, y, z: Real { bits: 0 } };
        if p.length_squared().lt(Real { bits: ONE_BITS }) {
            (p, s2)
        } else {
            spec_in_unit_disc_within((attempts - 1) as nat, s2)
        }
    }
}

pub open spec fn spec_random_in_unit_disc(s: Sampler) -> (Vec3, Sampler) {
    spec_in_unit_disc_within(ATTEMPTS as nat, s)
}

/// A random point of the unit disc in the plane z = 0, found by rejection.
pub fn random_in_unit_disc(s: &mut Sampler) -> (r: Vec3)
    requires
        old(s).wf(),
    ensures
        final(s).wf(),
        (r, *final(s)) == spec_random_in_unit_disc(*old(s)),
{
    let mut left: u32 = ATTEMPTS;
    while left > 0
        invariant
            s.wf(),
            spec_random_in_unit_disc(*old(s)) == spec_in_unit_disc_within(left as nat, *s),
        decreases left,
    {
        let x = random_double_min_max(Real::from_bits(MINUS_ONE_BITS), Real::one(), s);
        let y = random_double_min_max(Real::from_bits(MINUS_ONE_BITS), Real::one(), s);
        let p = Vec3::new(x, y, Real::zero());
        if p.length_squared().lt(Real::one()) {
            return p;
        }
        left = left - 1;
    }
    Vec3::zero()
}

/// A count as far as 64 bits hold it.
pub open spec fn capped(n: nat) -> u64 {
    if n > u64::MAX {
        u64::MAX
    } else {
        n as u64
    }
}

/// The sum of two counts as far as 64 bits hold it.
pub fn capped_sum(a: u64, b: u64) -> (r: u64)
    ensures
        r == capped((a + b) as nat),
{
    if a > u64::MAX - b {
        u64::MAX
    } else {
        a + b
    }
}

/// How many numbers a random unit vector takes at most: three for each
/// candidate.
pub open spec fn unit_vector_most() -> int {
    3 * ATTEMPTS
}

/// How many numbers a random point of the unit disc takes at most: two for
/// each candidate.
pub open spec fn in_unit_disc_most() -> int {
    2 * ATTEMPTS
}

/// A sampler that has a number left after the next hands out the next and
/// moves on by one.
pub proof fn lemma_advanced(s: Sampler)
    requires
        s.wf(),
        s.left() >= 1,
    ensures
        s.advanced().wf(),
        s.advanced().draws == s.draws,
        s.advanced().next == s.next + 1,
{
}

/// A search for a unit vector among `attempts` candidates takes three
/// numbers for each candidate at most, and does not start the sampler again
/// where that many are left.
pub proof fn lemma_unit_vector_draws(attempts: nat, s: Sampler)
    requires
        s.wf(),
        s.left() >= 3 * attempts,
    ensures
        spec_unit_vector_within(attempts, s).1.follows(&s, 3 * (attempts as int)),
    decreases attempts,
{
    if attempts > 0 {
        let (p, s1) = spec_random_vec3_min_max(
            Real { bits: MINUS_ONE_BITS },
            Real { bits: ONE_BITS },
            s,
        );
        lemma_advanced(s);
        lemma_advanced(s.advanced());
        lemma_advanced(s.advanced().advanced());
        assert(s1 == s.advanced().advanced().advanced());
        if !fit_for_unit(p) {
            lemma_unit_vector_draws((attempts - 1) as nat, s1);
        }
    }
}

/// A search for a point of the unit disc among `attempts` candidates takes
/// two numbers for each candidate at most, and does not start the sampler
/// again where that many are left.
pub proof fn lemma_in_unit_disc_draws(attempts: nat, s: Sampler)
    requires
        s.wf(),
        s.left() >= 2 * attempts,
    ensures
        spec_in_unit_disc_within(attempts, s).1.follows(&s, 2 * (attempts as int)),
    decreases attempts,
{
    if attempts > 0 {
        let s2 = s.advanced().advanced();
        lemma_advanced(s);
        lemma_advanced(s.advanced());
        lemma_in_unit_disc_draws((attempts - 1) as nat, s2);
    }
}

} // verus!
