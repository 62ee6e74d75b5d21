//! The bounding volume hierarchy: a binary tree of boxes over a set of
//! objects, which spares a ray the objects whose boxes it misses.

use vstd::prelude::*;
use crate::ray::Ray;
use crate::interval::Interval;
use crate::aabb::AABB;
use crate::hitrecord::HitRecord;
use crate::sampling::{Sampler, capped, capped_sum};
use crate::hittable::Hittable;

verus! {

/// A tree over the places of objects in a list.
pub enum BvhTree {
    /// The object at a place.
    Leaf { object: usize },
    /// Two subtrees, and the box that holds what they hold.
    Node { left: Box<BvhTree>, right: Box<BvhTree>, bbox: AABB },
}

/// A set of objects and the tree over them.
pub struct BvhNode {
    pub objects: Vec<Hittable>,
    pub root: BvhTree,
    pub bbox: AABB,
}

impl BvhTree {
    /// Whether every leaf names one of `count` objects.
    pub open spec fn wf(&self, count: nat) -> bool
        decreases self,
    {
        match self {
            BvhTree::Leaf { object } => *object < count,
            BvhTree::Node { left, right, bbox } => left.wf(count) && right.wf(count),
        }
    }

    pub fn valid(&self, count: usize) -> (r: bool)
        ensures
            r == self.wf(count as nat),
        decreases self,
    {
        match self {
            BvhTree::Leaf { object } => *object < count,
            BvhTree::Node { left, right, bbox } => left.valid(count) && right.valid(count),
        }
    }

    /// How many numbers a search of the tree takes at most: what the objects
    /// at its leaves take, each as often as it stands at a leaf.
    pub open spec fn draws_most(&self, objects: Seq<Hittable>) -> nat
        decreases objects, self,
    {
        match self {
            BvhTree::Leaf { object } => if *object < objects.len() {
                objects[*object as int].draws_most()
            } else {
                0
            },
            BvhTree::Node { left, right, bbox } => left.draws_most(objects) + right.draws_most(
                objects,
            ),
        }
    }

    /// How many numbers a search of the tree takes at most, as far as 64
    /// bits hold it.
    pub fn draws_needed(&self, objects: &Vec<Hittable>) -> (r: u64)
        ensures
            r == capped(self.draws_most(objects@)),
        decreases objects@, self,
    {
        match self {
            BvhTree::Leaf { object } => if *object < objects.len() {
                objects[*object].draws_needed()
            } else {
                0
            },
            BvhTree::Node { left, right, bbox } => capped_sum(
                left.draws_needed(objects),
                right.draws_needed(objects),
            ),
        }
    }

    /// The hit of the ray on what the tree holds. A node that the ray
    /// misses has no hit. Otherwise the left subtree is asked within
    /// `ray_t`, and the right one within what lies before the hit on the
    /// left: a hit on the right is therefore the nearer one and wins.
    pub open spec fn spec_hit(
        &self,
        objects: Seq<Hittable>,
        ray: &Ray,
        ray_t: &Interval,
        s: Sampler,
    ) -> (Option<HitRecord>, Sampler)
        decreases objects, self,
    {
        match self {
            BvhTree::Leaf { object } => if *object < objects.len() {
                objects[*object as int].spec_hit(ray, ray_t, s)
            } else {
                (None, s)
            },
            BvhTree::Node { left, right, bbox } => if !bbox.hit(ray, ray_t) {
                (None, s)
            } else {
                let (left_hit, s1) = left.spec_hit(objects, ray, ray_t, s);
                let right_t = Interval {
                    min: ray_t.min,
                    max: match left_hit {
                        Some(hit) => hit.t,
                        None => ray_t.max,
                    },
                };
                let (right_hit, s2) = right.spec_hit(objects, ray, &right_t, s1);
                match right_hit {
                    Some(hit) => (Some(hit), s2),
                    None => (left_hit, s2),
                }
            },
        }
    }

    pub fn hit(&self, objects: &Vec<Hittable>, ray: &Ray, ray_t: &Interval, s: &mut Sampler) -> (r:
        Option<HitRecord>)
        requires
            old(s).wf(),
            self.wf(objects@.len()),
            forall|i: int| 0 <= i < objects@.len() ==> (#[trigger] objects@[i]).wf(),
        ensures
            final(s).wf(),
            (r, *final(s)) == self.spec_hit(objects@, ray, ray_t, *old(s)),
        decreases objects@, self,
    {
        match self {
            BvhTree::Leaf { object } => objects[*object].hit(ray, ray_t, s),
            BvhTree::Node { left, right, bbox } => {
                if !bbox.hit(ray, ray_t) {
                    return None;
                }
                let left_hit = left.hit(objects, ray, ray_t, s);
                let right_t_max = match left_hit {
                    Some(hit) => hit.t,
                    None => ray_t.max,
                };
                let right_t = Interval::new(ray_t.min, right_t_max);
                let right_hit = right.hit(objects, ray, &right_t, s);
                match right_hit {
                    Some(hit) => Some(hit),
                    None => left_hit,
                }
            },
        }
    }
}

/// A list of places with one more place put in: behind every place whose key
/// is not above its own, and before the others.
pub open spec fn spec_insert(sorted: Seq<usize>, x: usize, keys: Seq<i64>) -> Seq<usize>
    decreases sorted.len(),
{
    if sorted.len() == 0 {
        seq![x]
    } else if keys[sorted.last() as int] <= keys[x as int] {
        sorted.push(x)
    } else {
        spec_insert(sorted.drop_last(), x, keys).push(sorted.last())
    }
}

/// A list of places in the order of their keys. Places with the same key keep
/// the order that they had.
pub open spec fn spec_sort(order: Seq<usize>, keys: Seq<i64>) -> Seq<usize>
    decreases order.len(),
{
    if order.len() == 0 {
        Seq::empty()
    } else {
        spec_insert(spec_sort(order.drop_last(), keys), order.last(), keys)
    }
}

/// Whether every place of a list lies below `count`.
pub open spec fn all_below(order: Seq<usize>, count: nat) -> bool {
    forall|i: int| 0 <= i < order.len() ==> (#[trigger] order[i]) < count
}

/// Whether the keys of a list of places never fall from one place to the
/// next.
pub open spec fn ascending(order: Seq<usize>, keys: Seq<i64>) -> bool {
    forall|i: int, j: int|
        0 <= i <= j < order.len() ==> keys[(#[trigger] order[i]) as int] <= keys[(
        #[trigger] order[j]) as int]
}

/// Putting a place into a list makes the list longer by one and adds that
/// place to what the list holds, as often as it is held.
pub proof fn lemma_insert_permutes(sorted: Seq<usize>, x: usize, keys: Seq<i64>)
    ensures
        spec_insert(sorted, x, keys).len() == sorted.len() + 1,
        spec_insert(sorted, x, keys).to_multiset() == sorted.to_multiset().insert(x),
    decreases sorted.len(),
{
    broadcast use vstd::seq_lib::group_to_multiset_ensures;

    if sorted.len() == 0 {
        assert(seq![x] =~= Seq::<usize>::empty().push(x));
        assert(sorted =~= Seq::<usize>::empty());
    } else if keys[sorted.last() as int] <= keys[x as int] {
    } else {
        lemma_insert_permutes(sorted.drop_last(), x, keys);
        assert(sorted.drop_last().push(sorted.last()) =~= sorted);
        assert(sorted.drop_last().to_multiset().insert(x).insert(sorted.last())
            =~= sorted.drop_last().to_multiset().insert(sorted.last()).insert(x));
    }
}

/// Putting a place into an ascending list leaves it ascending.
pub proof fn lemma_insert_ascends(sorted: Seq<usize>, x: usize, keys: Seq<i64>)
    requires
        ascending(sorted, keys),
    ensures
        ascending(spec_insert(sorted, x, keys), keys),
        forall|i: int|
            0 <= i < spec_insert(sorted, x, keys).len() ==> (#[trigger] spec_insert(
                sorted,
                x,
                keys,
            )[i]) == x || sorted.contains(spec_insert(sorted, x, keys)[i]),
    decreases sorted.len(),
{
    let after = spec_insert(sorted, x, keys);
    lemma_insert_permutes(sorted, x, keys);
    if sorted.len() == 0 {
    } else if keys[sorted.last() as int] <= keys[x as int] {
        assert forall|i: int, j: int| 0 <= i <= j < after.len() implies keys[(
        #[trigger] after[i]) as int] <= keys[(#[trigger] after[j]) as int] by {
            if j == sorted.len() && i < j {
                assert(keys[sorted[i] as int] <= keys[sorted[sorted.len() - 1] as int]);
            }
        }
        assert forall|i: int| 0 <= i < after.len() implies (#[trigger] after[i]) == x
            || sorted.contains(after[i]) by {
            if i < sorted.len() {
                assert(sorted[i] == after[i]);
            }
        }
    } else {
        let front = sorted.drop_last();
        let inner = spec_insert(front, x, keys);
        assert(ascending(front, keys)) by {
            assert forall|i: int, j: int| 0 <= i <= j < front.len() implies keys[(
            #[trigger] front[i]) as int] <= keys[(#[trigger] front[j]) as int] by {
                assert(front[i] == sorted[i] && front[j] == sorted[j]);
            }
        }
        lemma_insert_ascends(front, x, keys);
        lemma_insert_permutes(front, x, keys);
        assert forall|i: int| 0 <= i < after.len() implies (#[trigger] after[i]) == x
            || sorted.contains(after[i]) by {
            if i < inner.len() {
                assert(after[i] == inner[i]);
                if inner[i] != x {
                    let k = choose|k: int| 0 <= k < front.len() && front[k] == inner[i];
                    assert(sorted[k] == inner[i]);
                }
            } else {
                assert(after[i] == sorted[sorted.len() - 1]);
            }
        }
        assert forall|i: int, j: int| 0 <= i <= j < after.len() implies keys[(
        #[trigger] after[i]) as int] <= keys[(#[trigger] after[j]) as int] by {
            if j == inner.len() && i < j {
                assert(after[i] == inner[i]);
                if inner[i] != x {
                    let k = choose|k: int| 0 <= k < front.len() && front[k] == inner[i];
                    assert(sorted[k] == inner[i]);
                    assert(keys[sorted[k] as int] <= keys[sorted[sorted.len() - 1] as int]);
                }
            } else if j < inner.len() {
                assert(after[i] == inner[i] && after[j] == inner[j]);
            }
        }
    }
}

/// A sorted list is as long as the list it was made of, holds the same places
/// as often, and is ascending.
pub proof fn lemma_sort_permutes(order: Seq<usize>, keys: Seq<i64>)
    ensures
        spec_sort(order, keys).len() == order.len(),
        spec_sort(order, keys).to_multiset() == order.to_multiset(),
        ascending(spec_sort(order, keys), keys),
    decreases order.len(),
{
    broadcast use vstd::seq_lib::group_to_multiset_ensures;

    if order.len() == 0 {
        assert(order =~= Seq::<usize>::empty());
    } else {
        lemma_sort_permutes(order.drop_last(), keys);
        lemma_insert_permutes(spec_sort(order.drop_last(), keys), order.last(), keys);
        lemma_insert_ascends(spec_sort(order.drop_last(), keys), order.last(), keys);
        assert(order.drop_last().push(order.last()) =~= order);
    }
}

/// A sorted list holds a place if and only if the list it was made of does.
pub proof fn lemma_sort_keeps(order: Seq<usize>, keys: Seq<i64>, x: usize)
    ensures
        spec_sort(order, keys).contains(x) <==> order.contains(x),
{
    lemma_sort_permutes(order, keys);
    spec_sort(order, keys).to_multiset_ensures();
    order.to_multiset_ensures();
    assert(spec_sort(order, keys).to_multiset().count(x) == order.to_multiset().count(x));
}

/// Putting a place in at `at` is what `spec_insert` does where the places
/// from `at` on have keys above that of the new place, and the place before
/// `at` has not.
proof fn lemma_insert_at(sorted: Seq<usize>, x: usize, keys: Seq<i64>, at: int)
    requires
        0 <= at <= sorted.len(),
        forall|k: int| at <= k < sorted.len() ==> keys[(#[trigger] sorted[k]) as int] > keys[x as int],
        at > 0 ==> keys[sorted[at - 1] as int] <= keys[x as int],
    ensures
        spec_insert(sorted, x, keys) == sorted.insert(at, x),
    decreases sorted.len() - at,
{
    if sorted.len() == 0 {
        assert(seq![x] =~= sorted.insert(at, x));
    } else if at == sorted.len() {
        assert(sorted.push(x) =~= sorted.insert(at, x));
    } else {
        assert(keys[sorted[sorted.len() - 1] as int] > keys[x as int]);
        lemma_insert_at(sorted.drop_last(), x, keys, at);
        assert(sorted.drop_last().insert(at, x).push(sorted.last()) =~= sorted.insert(at, x));
    }
}

/// Puts a place into a list that is in the order of its keys.
pub fn insert_by_key(sorted: &mut Vec<usize>, x: usize, keys: &Vec<i64>)
    requires
        all_below(old(sorted)@, keys@.len()),
        x < keys@.len(),
    ensures
        final(sorted)@ == spec_insert(old(sorted)@, x, keys@),
        all_below(final(sorted)@, keys@.len()),
{
    let mut at: usize = sorted.len();
    while at > 0 && keys[sorted[at - 1]] > keys[x]
        invariant
            at <= sorted@.len(),
            sorted@ == old(sorted)@,
            all_below(sorted@, keys@.len()),
            x < keys@.len(),
            forall|k: int|
                at <= k < sorted@.len() ==> keys@[(#[trigger] sorted@[k]) as int] > keys@[x as int],
        decreases at,
    {
        at = at - 1;
    }
    proof {
        lemma_insert_at(sorted@, x, keys@, at as int);
    }
    sorted.insert(at, x);
}

/// A list of places in the order of their keys, places with the same key in
/// the order that they had.
pub fn sort_by_key(order: &Vec<usize>, keys: &Vec<i64>) -> (r: Vec<usize>)
    requires
        all_below(order@, keys@.len()),
    ensures
        r@ == spec_sort(order@, keys@),
        r@.len() == order@.len(),
        all_below(r@, keys@.len()),
{
    let mut sorted: Vec<usize> = Vec::new();
    let mut i: usize = 0;
    assert(order@.take(0) =~= Seq::<usize>::empty());
    while i < order.len()
        invariant
            i <= order@.len(),
            all_below(order@, keys@.len()),
            all_below(sorted@, keys@.len()),
            sorted@ == spec_sort(order@.take(i as int), keys@),
        decreases order@.len() - i,
    {
        assert(order@.take(i + 1).drop_last() =~= order@.take(i as int));
        insert_by_key(&mut sorted, order[i], keys);
        i = i + 1;
    }
    proof {
        assert(order@.take(order@.len() as int) =~= order@);
        lemma_sort_permutes(order@, keys@);
    }
    sorted
}

/// The places from `from` up to `to` of a list.
pub fn part_of(order: &Vec<usize>, from: usize, to: usize) -> (r: Vec<usize>)
    requires
        from <= to <= order@.len(),
    ensures
        r@ == order@.subrange(from as int, to as int),
{
    let mut part: Vec<usize> = Vec::new();
    let mut i: usize = from;
    while i < to
        invariant
            from <= i <= to <= order@.len(),
            part@ == order@.subrange(from as int, i as int),
        decreases to - i,
    {
        part.push(order[i]);
        assert(order@.subrange(from as int, i as int).push(order@[i as int]) =~= order@.subrange(
            from as int,
            i + 1,
        ));
        i = i + 1;
    }
    part
}

/// The key of each box on an axis: the place of its lower bound in the order
/// of the numbers.
pub open spec fn spec_keys(boxes: Seq<AABB>, axis: u16) -> Seq<i64> {
    Seq::new(boxes.len(), |i: int| boxes[i].axis_interval(axis).min.rank() as i64)
}

pub fn keys_on(boxes: &Vec<AABB>, axis: u16) -> (r: Vec<i64>)
    ensures
        r@ == spec_keys(boxes@, axis),
{
    let mut keys: Vec<i64> = Vec::new();
    let mut i: usize = 0;
    while i < boxes.len()
        invariant
            i <= boxes@.len(),
            keys@.len() == i,
            forall|k: int|
                0 <= k < i ==> keys@[k] == boxes@[k].axis_interval(axis).min.rank() as i64,
        decreases boxes@.len() - i,
    {
        keys.push(boxes[i].axis_interval(axis).min.order_key());
        i = i + 1;
    }
    assert(keys@ =~= spec_keys(boxes@, axis));
    keys
}

/// The box round the boxes at the first `n` places of a list: the box round
/// the box of the places before the last and the box at the last. The box
/// round no boxes is empty.
pub open spec fn spec_span(boxes: Seq<AABB>, order: Seq<usize>, n: nat) -> AABB
    decreases n,
{
    if n == 0 {
        AABB::empty()
    } else {
        AABB::from_aabb(&spec_span(boxes, order, (n - 1) as nat), &boxes[order[n - 1] as int])
    }
}

pub fn span(boxes: &Vec<AABB>, order: &Vec<usize>) -> (r: AABB)
    requires
        all_below(order@, boxes@.len()),
    ensures
        r == spec_span(boxes@, order@, order@.len()),
{
    let mut bbox = AABB::empty();
    let mut i: usize = 0;
    while i < order.len()
        invariant
            i <= order@.len(),
            all_below(order@, boxes@.len()),
            bbox == spec_span(boxes@, order@, i as nat),
        decreases order@.len() - i,
    {
        bbox = AABB::from_aabb(&bbox, &boxes[order[i]]);
        i = i + 1;
    }
    bbox
}

impl BvhTree {
    /// The tree over the objects at the places of a list, given the box of
    /// each object.
    ///
    /// One object stands on both sides of a node with the object's box. Two
    /// objects stand to the left and to the right of a node with the box
    /// round both. Three and more are put in the order of their boxes' lower
    /// bounds on the axis on which the box round all of them is longest; the
    /// lower half of them, rounded down, goes into the left subtree, the
    /// others into the right one, and a half of one object is a leaf.
    pub open spec fn spec_build(boxes: Seq<AABB>, order: Seq<usize>) -> BvhTree
        decreases order.len(),
        via Self::spec_build_decreases
    {
        if order.len() <= 1 {
            BvhTree::Node {
                left: Box::new(BvhTree::Leaf { object: order[0] }),
                right: Box::new(BvhTree::Leaf { object: order[0] }),
                bbox: boxes[order[0] as int],
            }
        } else if order.len() == 2 {
            BvhTree::Node {
                left: Box::new(BvhTree::Leaf { object: order[0] }),
                right: Box::new(BvhTree::Leaf { object: order[1] }),
                bbox: AABB::from_aabb(&boxes[order[0] as int], &boxes[order[1] as int]),
            }
        } else {
            let bbox = spec_span(boxes, order, order.len());
            let sorted = spec_sort(order, spec_keys(boxes, bbox.longest_axis()));
            let mid = order.len() / 2;
            BvhTree::Node {
                left: Box::new(
                    if mid == 1 {
                        BvhTree::Leaf { object: sorted[0] }
                    } else {
                        Self::spec_build(boxes, sorted.subrange(0, mid as int))
                    },
                ),
                right: Box::new(
                    Self::spec_build(boxes, sorted.subrange(mid as int, order.len() as int)),
                ),
                bbox,
            }
        }
    }

    #[via_fn]
    proof fn spec_build_decreases(boxes: Seq<AABB>, order: Seq<usize>) {
        if order.len() > 2 {
            let bbox = spec_span(boxes, order, order.len());
            lemma_sort_permutes(order, spec_keys(boxes, bbox.longest_axis()));
        }
    }

    /// The box of a node, and the empty box for a leaf.
    pub open spec fn spec_bbox(&self) -> AABB {
        match self {
            BvhTree::Leaf { object } => AABB::empty(),
            BvhTree::Node { left, right, bbox } => *bbox,
        }
    }

    pub fn bbox(&self) -> (r: AABB)
        ensures
            r == self.spec_bbox(),
    {
        match self {
            BvhTree::Leaf { object } => AABB::empty(),
            BvhTree::Node { left, right, bbox } => *bbox,
        }
    }

    /// Whether the object at a place stands at a leaf of the tree.
    pub open spec fn holds(&self, place: usize) -> bool
        decreases self,
    {
        match self {
            BvhTree::Leaf { object } => *object == place,
            BvhTree::Node { left, right, bbox } => left.holds(place) || right.holds(place),
        }
    }

    pub fn build(boxes: &Vec<AABB>, order: Vec<usize>) -> (r: BvhTree)
        requires
            order@.len() > 0,
            all_below(order@, boxes@.len()),
        ensures
            r == Self::spec_build(boxes@, order@),
            r.wf(boxes@.len()),
        decreases order@.len(),
    {
        proof {
            reveal_with_fuel(BvhTree::wf, 3);
        }
        if order.len() == 1 {
            return BvhTree::Node {
                left: Box::new(BvhTree::Leaf { object: order[0] }),
                right: Box::new(BvhTree::Leaf { object: order[0] }),
                bbox: boxes[order[0]],
            };
        }
        if order.len() == 2 {
            return BvhTree::Node {
                left: Box::new(BvhTree::Leaf { object: order[0] }),
                right: Box::new(BvhTree::Leaf { object: order[1] }),
                bbox: AABB::from_aabb(&boxes[order[0]], &boxes[order[1]]),
            };
        }
        let bbox = span(boxes, &order);
        let axis = bbox.longest_axis();
        let keys = keys_on(boxes, axis);
        let sorted = sort_by_key(&order, &keys);
        let mid: usize = order.len() / 2;
        let left = if mid == 1 {
            BvhTree::Leaf { object: sorted[0] }
        } else {
            Self::build(boxes, part_of(&sorted, 0, mid))
        };
        let right = Self::build(boxes, part_of(&sorted, mid, order.len()));
        BvhTree::Node { left: Box::new(left), right: Box::new(right), bbox }
    }
}

/// The places from 0 up to `count`, in their order.
pub open spec fn spec_places(count: nat) -> Seq<usize> {
    Seq::new(count, |i: int| i as usize)
}

pub fn places(count: usize) -> (r: Vec<usize>)
    ensures
        r@ == spec_places(count as nat),
{
    let mut order: Vec<usize> = Vec::new();
    let mut i: usize = 0;
    while i < count
        invariant
            i <= count,
            order@.len() == i,
            forall|k: int| 0 <= k < i ==> order@[k] == k as usize,
        decreases count - i,
    {
        order.push(i);
        i = i + 1;
    }
    assert(order@ =~= spec_places(count as nat));
    order
}

/// The box of each of some objects.
pub open spec fn spec_boxes(objects: Seq<Hittable>) -> Seq<AABB> {
    Seq::new(objects.len(), |i: int| objects[i].spec_bounding_box())
}

pub fn boxes_of(objects: &Vec<Hittable>) -> (r: Vec<AABB>)
    ensures
        r@ == spec_boxes(objects@),
{
    let mut boxes: Vec<AABB> = Vec::new();
    let mut i: usize = 0;
    while i < objects.len()
        invariant
            i <= objects@.len(),
            boxes@.len() == i,
            forall|k: int| 0 <= k < i ==> boxes@[k] == objects@[k].spec_bounding_box(),
        decreases objects@.len() - i,
    {
        boxes.push(objects[i].bounding_box());
        i = i + 1;
    }
    assert(boxes@ =~= spec_boxes(objects@));
    boxes
}

impl BvhNode {
    /// The tree over some objects.
    pub open spec fn spec_root(objects: Seq<Hittable>) -> BvhTree {
        BvhTree::spec_build(spec_boxes(objects), spec_places(objects.len()))
    }

    /// The hierarchy over a set of objects, of which there is at least one.
    /// Its box is that of the root of its tree.
    pub fn new(objects: Vec<Hittable>) -> (r: BvhNode)
        requires
            objects@.len() > 0,
        ensures
            r.objects == objects,
            r.root == Self::spec_root(objects@),
            r.bbox == r.root.spec_bbox(),
            r.root.wf(objects@.len()),
    {
        let boxes = boxes_of(&objects);
        let order = places(objects.len());
        let root = BvhTree::build(&boxes, order);
        let bbox = root.bbox();
        BvhNode { objects, root, bbox }
    }

    pub fn bounding_box(&self) -> (r: AABB)
        ensures
            r == self.bbox,
    {
        self.bbox
    }

    /// The hit of the ray on the tree of the hierarchy.
    pub open spec fn spec_hit(&self, ray: &Ray, ray_t: &Interval, s: Sampler) -> (
        Option<HitRecord>,
        Sampler,
    )
        decreases self,
    {
        self.root.spec_hit(self.objects@, ray, ray_t, s)
    }

    pub fn hit(&self, ray: &Ray, ray_t: &Interval, s: &mut Sampler) -> (r: Option<HitRecord>)
        requires
            old(s).wf(),
            self.root.wf(self.objects@.len()),
            forall|i: int| 0 <= i < self.objects@.len() ==> (#[trigger] self.objects@[i]).wf(),
        ensures
            final(s).wf(),
            (r, *final(s)) == self.spec_hit(ray, ray_t, *old(s)),
        decreases self,
    {
        self.root.hit(&self.objects, ray, ray_t, s)
    }
}

} // verus!
