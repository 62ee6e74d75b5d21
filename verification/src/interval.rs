//! Closed ranges of the real line.

use vstd::prelude::*;
use crate::scalar::{Real, INFINITY_BITS, NEG_INFINITY_BITS, TWO_BITS};

verus! {

/// The least thickness of a padded interval: 0.0001.
pub const DELTA_BITS: u64 = 0x3F1A_36E2_EB1C_432D;

/// The numbers from `min` to `max`, both included.
#[derive(Clone, Copy, Debug)]
pub struct Interval {
    pub min: Real,
    pub max: Real,
}

impl Interval {
    /// The interval from plus infinity to minus infinity, which holds no
    /// number.
    pub open spec fn spec_empty() -> Interval {
        Interval { min: Real { bits: INFINITY_BITS }, max: Real { bits: NEG_INFINITY_BITS } }
    }

    #[verifier::when_used_as_spec(spec_empty)]
    pub fn empty() -> (r: Interval)
        ensures
            r == Interval::spec_empty(),
    {
        Interval { min: Real::infinity(), max: Real::neg_infinity() }
    }

    /// The interval from minus infinity to plus infinity.
    pub open spec fn spec_universe() -> Interval {
        Interval { min: Real { bits: NEG_INFINITY_BITS }, max: Real { bits: INFINITY_BITS } }
    }

    #[verifier::when_used_as_spec(spec_universe)]
    pub fn universe() -> (r: Interval)
        ensures
            r == Interval::spec_universe(),
    {
        Interval { min: Real::neg_infinity(), max: Real::infinity() }
    }

    pub open spec fn spec_new(min: Real, max: Real) -> Interval {
        Interval { min, max }
    }

    #[verifier::when_used_as_spec(spec_new)]
    pub fn new(min: Real, max: Real) -> (r: Interval)
        ensures
            r == Interval::spec_new(min, max),
    {
        Interval { min, max }
    }

    /// Half of the least thickness.
    pub open spec fn half_delta() -> Real {
        Real { bits: DELTA_BITS }.div(Real { bits: TWO_BITS })
    }

    /// The interval between two bounds, widened by half the least thickness
    /// on either side where the bounds lie closer together than that
    /// thickness.
    pub open spec fn spec_new_padded(min: Real, max: Real) -> Interval {
        if max.sub(min).abs().lt(Real { bits: DELTA_BITS }) {
            Interval { min: min.sub(Self::half_delta()), max: max.add(Self::half_delta()) }
        } else {
            Interval { min, max }
        }
    }

    #[verifier::when_used_as_spec(spec_new_padded)]
    pub fn new_padded(min: Real, max: Real) -> (r: Interval)
        ensures
            r == Interval::spec_new_padded(min, max),
    {
        let delta = Real::from_bits(DELTA_BITS);
        let size = max.sub(min).abs();
        if size.lt(delta) {
            let half = delta.div(Real::from_bits(TWO_BITS));
            return Interval { min: min.sub(half), max: max.add(half) };
        }
        Interval { min, max }
    }

    /// The union of two intervals: from the lesser of the lower bounds to
    /// the greater of the upper bounds.
    pub open spec fn spec_from_intervals(a: &Interval, b: &Interval) -> Interval {
        Interval { min: a.min.min(b.min), max: a.max.max(b.max) }
    }

    #[verifier::when_used_as_spec(spec_from_intervals)]
    pub fn from_intervals(a: &Interval, b: &Interval) -> (r: Interval)
        ensures
            r == Interval::spec_from_intervals(a, b),
    {
        Interval { min: a.min.min(b.min), max: a.max.max(b.max) }
    }

    /// The union of two intervals, padded as `new_padded` pads.
    pub open spec fn spec_from_intervals_padded(a: &Interval, b: &Interval) -> Interval {
        Interval::spec_new_padded(a.min.min(b.min), a.max.max(b.max))
    }

    #[verifier::when_used_as_spec(spec_from_intervals_padded)]
    pub fn from_intervals_padded(a: &Interval, b: &Interval) -> (r: Interval)
        ensures
            r == Interval::spec_from_intervals_padded(a, b),
    {
        Interval::new_padded(a.min.min(b.min), a.max.max(b.max))
    }

    pub open spec fn spec_size(&self) -> Real {
        self.max.sub(self.min)
    }

    #[verifier::when_used_as_spec(spec_size)]
    pub fn size(&self) -> (r: Real)
        ensures
            r == self.spec_size(),
    {
        self.max.sub(self.min)
    }

    /// Whether `x` lies between the bounds, the bounds included.
    pub open spec fn spec_contains(&self, x: Real) -> bool {
        self.min.le(x) && x.le(self.max)
    }

    #[verifier::when_used_as_spec(spec_contains)]
    pub fn contains(&self, x: Real) -> (r: bool)
        ensures
            r == self.spec_contains(x),
    {
        self.min.le(x) && x.le(self.max)
    }

    /// Whether `x` lies strictly between the bounds.
    pub open spec fn spec_surrounds(&self, x: Real) -> bool {
        self.min.lt(x) && x.lt(self.max)
    }

    #[verifier::when_used_as_spec(spec_surrounds)]
    pub fn surrounds(&self, x: Real) -> (r: bool)
        ensures
            r == self.spec_surrounds(x),
    {
        self.min.lt(x) && x.lt(self.max)
    }

    /// The lower bound for an `x` below it, the upper bound for an `x` above
    /// it, and otherwise `x` itself.
    pub open spec fn spec_clamp(&self, x: Real) -> Real {
        if x.lt(self.min) {
            self.min
        } else if x.gt(self.max) {
            self.max
        } else {
            x
        }
    }

    #[verifier::when_used_as_spec(spec_clamp)]
    pub fn clamp(&self, x: Real) -> (r: Real)
        ensures
            r == self.spec_clamp(x),
            self.inhabited() && !x.is_nan() ==> self.contains(r),
            self.contains(x) ==> r == x,
    {
        if x.lt(self.min) {
            return self.min;
        }
        if x.gt(self.max) {
            return self.max;
        }
        x
    }

    /// The interval widened by `delta` in all, half of it on either side.
    pub open spec fn spec_expand(&self, delta: Real) -> Interval {
        let padding = delta.div(Real { bits: TWO_BITS });
        Interval { min: self.min.sub(padding), max: self.max.add(padding) }
    }

    #[verifier::when_used_as_spec(spec_expand)]
    pub fn expand(&self, delta: Real) -> (r: Interval)
        ensures
            r == self.spec_expand(delta),
    {
        let padding = delta.div(Real::from_bits(TWO_BITS));
        Interval { min: self.min.sub(padding), max: self.max.add(padding) }
    }

    /// The interval moved by `rhs`.
    pub open spec fn spec_add(self, rhs: Real) -> Interval {
        Interval { min: self.min.add(rhs), max: self.max.add(rhs) }
    }

    #[verifier::when_used_as_spec(spec_add)]
    pub fn add(self, rhs: Real) -> (r: Interval)
        ensures
            r == self.spec_add(rhs),
    {
        Interval { min: self.min.add(rhs), max: self.max.add(rhs) }
    }

    /// The interval moved by `lhs`, the displacement standing first in each
    /// sum.
    pub open spec fn spec_added_to(self, lhs: Real) -> Interval {
        Interval { min: lhs.add(self.min), max: lhs.add(self.max) }
    }

    #[verifier::when_used_as_spec(spec_added_to)]
    pub fn added_to(self, lhs: Real) -> (r: Interval)
        ensures
            r == self.spec_added_to(lhs),
    {
        Interval { min: lhs.add(self.min), max: lhs.add(self.max) }
    }

    /// Whether both bounds are numbers.
    pub open spec fn bounded_by_numbers(&self) -> bool {
        !self.min.is_nan() && !self.max.is_nan()
    }

    /// Whether padding leaves the interval as it is: its bounds are numbers
    /// that lie no closer together than the least thickness.
    pub open spec fn spec_settled(&self) -> bool {
        self.bounded_by_numbers() && !self.max.sub(self.min).abs().lt(Real { bits: DELTA_BITS })
    }

    #[verifier::when_used_as_spec(spec_settled)]
    pub fn settled(&self) -> (r: bool)
        ensures
            r == self.spec_settled(),
    {
        !self.min.is_nan() && !self.max.is_nan() && !self.max.sub(self.min).abs().lt(
            Real::from_bits(DELTA_BITS),
        )
    }

    /// Whether the interval holds at least one number.
    pub open spec fn inhabited(&self) -> bool {
        self.min.le(self.max)
    }

    /// Whether the bounds of `other` lie within the bounds of `self`.
    pub open spec fn encloses(&self, other: &Interval) -> bool {
        self.min.le(other.min) && other.max.le(self.max)
    }
}

/// The union of two intervals holds every number that either of them holds.
pub proof fn lemma_union_contains_both(a: Interval, b: Interval, x: Real)
    requires
        a.contains(x) || b.contains(x),
    ensures
        Interval::from_intervals(&a, &b).contains(x),
{
}

/// The union of two intervals whose bounds are numbers encloses both of them,
/// and every interval that encloses both encloses the union: no smaller
/// interval will do. The empty interval is the identity of the union.
pub proof fn lemma_union_is_tightest(a: Interval, b: Interval, c: Interval)
    requires
        a.bounded_by_numbers(),
        b.bounded_by_numbers(),
    ensures
        Interval::from_intervals(&a, &b).encloses(&a),
        Interval::from_intervals(&a, &b).encloses(&b),
        c.encloses(&a) && c.encloses(&b) ==> c.encloses(&Interval::from_intervals(&a, &b)),
        Interval::from_intervals(&a, &Interval::empty()) == a,
        Interval::from_intervals(&Interval::empty(), &a) == a,
{
}

/// Among intervals that hold every number of two inhabited intervals, the
/// union holds the fewest numbers.
pub proof fn lemma_union_holds_fewest(a: Interval, b: Interval, c: Interval, x: Real)
    requires
        a.inhabited(),
        b.inhabited(),
        forall|y: Real| #[trigger] a.contains(y) ==> c.contains(y),
        forall|y: Real| #[trigger] b.contains(y) ==> c.contains(y),
        Interval::from_intervals(&a, &b).contains(x),
    ensures
        c.contains(x),
{
    assert(a.contains(a.min) && a.contains(a.max));
    assert(b.contains(b.min) && b.contains(b.max));
    assert(c.contains(a.min) && c.contains(a.max));
    assert(c.contains(b.min) && c.contains(b.max));
}

} // verus!
