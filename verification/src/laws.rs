//! What holds of the objects of a scene whatever the scene is.

use vstd::prelude::*;
use crate::scalar::Real;
use crate::ray::Ray;
use crate::interval::Interval;
use crate::aabb::AABB;
use crate::hitrecord::HitRecord;
use crate::sampling::{Sampler, lemma_advanced};
use crate::hittable::{ConstantMedium, Hittable, Hittables};
use crate::bvhnode::{BvhNode, BvhTree, lemma_sort_keeps, lemma_sort_permutes, spec_boxes, spec_keys,
    spec_places, spec_sort, spec_span};

verus! {

/// Whether a hit, if there is one, lies strictly within a range of
/// parameters.
pub open spec fn admits(ray_t: &Interval, found: Option<HitRecord>) -> bool {
    found matches Some(rec) ==> ray_t.surrounds(rec.t)
}

/// The search of a list from the place `i` on, for objects without smoke:
/// where the nearest hit so far lies strictly within the range, so does the
/// hit that the search ends with, and no number is drawn.
proof fn lemma_list_within(
    objects: Seq<Hittable>,
    i: int,
    ray: &Ray,
    ray_t: &Interval,
    closest: Real,
    best: Option<HitRecord>,
    s: Sampler,
)
    requires
        0 <= i <= objects.len(),
        forall|k: int| 0 <= k < objects.len() ==> (#[trigger] objects[k]).free_of_smoke(),
        admits(ray_t, best),
        best matches Some(b) ==> closest == b.t,
        best.is_none() ==> closest == ray_t.max,
    ensures
        admits(ray_t, Hittables::spec_hit_from(objects, i, ray, ray_t.min, closest, best, s).0),
        Hittables::spec_hit_from(objects, i, ray, ray_t.min, closest, best, s).1 == s,
    decreases objects, objects.len() - i,
{
    if i < objects.len() {
        let narrowed = Interval { min: ray_t.min, max: closest };
        lemma_hit_within(&objects[i], ray, &narrowed, s);
        let (found, s1) = objects[i].spec_hit(ray, &narrowed, s);
        match found {
            Some(hit) => {
                lemma_list_within(objects, i + 1, ray, ray_t, hit.t, Some(hit), s1);
            },
            None => {
                lemma_list_within(objects, i + 1, ray, ray_t, closest, best, s1);
            },
        }
    }
}

/// The search of a tree of boxes over objects without smoke: a hit lies
/// strictly within the range, and no number is drawn.
proof fn lemma_tree_within(
    tree: &BvhTree,
    objects: Seq<Hittable>,
    ray: &Ray,
    ray_t: &Interval,
    s: Sampler,
)
    requires
        forall|k: int| 0 <= k < objects.len() ==> (#[trigger] objects[k]).free_of_smoke(),
    ensures
        admits(ray_t, tree.spec_hit(objects, ray, ray_t, s).0),
        tree.spec_hit(objects, ray, ray_t, s).1 == s,
    decreases objects, tree,
{
    match tree {
        BvhTree::Leaf { object } => {
            if *object < objects.len() {
                lemma_hit_within(&objects[*object as int], ray, ray_t, s);
            }
        },
        BvhTree::Node { left, right, bbox } => {
            if bbox.hit(ray, ray_t) {
                lemma_tree_within(left, objects, ray, ray_t, s);
                let (left_hit, s1) = left.spec_hit(objects, ray, ray_t, s);
                let right_t = Interval {
                    min: ray_t.min,
                    max: match left_hit {
                        Some(hit) => hit.t,
                        None => ray_t.max,
                    },
                };
                lemma_tree_within(right, objects, ray, &right_t, s1);
            }
        },
    }
}

/// An object without smoke reports a hit only at a parameter strictly within
/// the range that it was asked for, never at a bound, and draws no number.
///
/// Smoke places its hit by arithmetic on the bounds, of which nothing is
/// stated here.
pub proof fn lemma_hit_within(h: &Hittable, ray: &Ray, ray_t: &Interval, s: Sampler)
    requires
        h.free_of_smoke(),
    ensures
        admits(ray_t, h.spec_hit(ray, ray_t, s).0),
        h.spec_hit(ray, ray_t, s).1 == s,
    decreases h,
{
    match h {
        Hittable::Sphere(o) => {},
        Hittable::Quad(o) => {},
        Hittable::Translate(o) => {
            lemma_hit_within(&o.hittable, &o.spec_local_ray(ray), ray_t, s);
        },
        Hittable::RotateY(o) => {
            lemma_hit_within(&o.hittable, &o.spec_local_ray(ray), ray_t, s);
        },
        Hittable::ConstantMedium(o) => {},
        Hittable::Hittables(o) => {
            lemma_list_within(o.objects@, 0, ray, ray_t, ray_t.max, None, s);
        },
        Hittable::BvhNode(o) => {
            lemma_tree_within(&o.root, o.objects@, ray, ray_t, s);
        },
    }
}

/// Whether a hit, if there is one, names one of `count` materials.
pub open spec fn names_material(found: Option<HitRecord>, count: nat) -> bool {
    found matches Some(rec) ==> rec.material < count
}

proof fn lemma_list_material(
    objects: Seq<Hittable>,
    i: int,
    ray: &Ray,
    t_min: Real,
    closest: Real,
    best: Option<HitRecord>,
    s: Sampler,
    count: nat,
)
    requires
        0 <= i <= objects.len(),
        forall|k: int| 0 <= k < objects.len() ==> (#[trigger] objects[k]).materials_below(count),
        names_material(best, count),
    ensures
        names_material(Hittables::spec_hit_from(objects, i, ray, t_min, closest, best, s).0, count),
    decreases objects, objects.len() - i,
{
    if i < objects.len() {
        let narrowed = Interval { min: t_min, max: closest };
        lemma_hit_material(&objects[i], ray, &narrowed, s, count);
        let (found, s1) = objects[i].spec_hit(ray, &narrowed, s);
        match found {
            Some(hit) => {
                lemma_list_material(objects, i + 1, ray, t_min, hit.t, Some(hit), s1, count);
            },
            None => {
                lemma_list_material(objects, i + 1, ray, t_min, closest, best, s1, count);
            },
        }
    }
}

proof fn lemma_tree_material(
    tree: &BvhTree,
    objects: Seq<Hittable>,
    ray: &Ray,
    ray_t: &Interval,
    s: Sampler,
    count: nat,
)
    requires
        forall|k: int| 0 <= k < objects.len() ==> (#[trigger] objects[k]).materials_below(count),
    ensures
        names_material(tree.spec_hit(objects, ray, ray_t, s).0, count),
    decreases objects, tree,
{
    match tree {
        BvhTree::Leaf { object } => {
            if *object < objects.len() {
                lemma_hit_material(&objects[*object as int], ray, ray_t, s, count);
            }
        },
        BvhTree::Node { left, right, bbox } => {
            if bbox.hit(ray, ray_t) {
                lemma_tree_material(left, objects, ray, ray_t, s, count);
                let (left_hit, s1) = left.spec_hit(objects, ray, ray_t, s);
                let right_t = Interval {
                    min: ray_t.min,
                    max: match left_hit {
                        Some(hit) => hit.t,
                        None => ray_t.max,
                    },
                };
                lemma_tree_material(right, objects, ray, &right_t, s1, count);
            }
        },
    }
}

/// An object that names only materials among `count` reports only hits that
/// name a material among them.
pub proof fn lemma_hit_material(
    h: &Hittable,
    ray: &Ray,
    ray_t: &Interval,
    s: Sampler,
    count: nat,
)
    requires
        h.materials_below(count),
    ensures
        names_material(h.spec_hit(ray, ray_t, s).0, count),
    decreases h,
{
    match h {
        Hittable::Sphere(o) => {},
        Hittable::Quad(o) => {},
        Hittable::Translate(o) => {
            lemma_hit_material(&o.hittable, &o.spec_local_ray(ray), ray_t, s, count);
        },
        Hittable::RotateY(o) => {
            lemma_hit_material(&o.hittable, &o.spec_local_ray(ray), ray_t, s, count);
        },
        Hittable::ConstantMedium(o) => {},
        Hittable::Hittables(o) => {
            lemma_list_material(o.objects@, 0, ray, ray_t.min, ray_t.max, None, s, count);
        },
        Hittable::BvhNode(o) => {
            lemma_tree_material(&o.root, o.objects@, ray, ray_t, s, count);
        },
    }
}

/// What the first objects of a list take is no more than what more of them
/// take.
proof fn lemma_draws_upto_rises(objects: Seq<Hittable>, a: nat, b: nat)
    requires
        a <= b <= objects.len(),
    ensures
        Hittables::spec_draws_upto(objects, a) <= Hittables::spec_draws_upto(objects, b),
    decreases b,
{
    if a < b {
        lemma_draws_upto_rises(objects, a, (b - 1) as nat);
    }
}

proof fn lemma_list_draws(
    objects: Seq<Hittable>,
    i: int,
    ray: &Ray,
    t_min: Real,
    closest: Real,
    best: Option<HitRecord>,
    s: Sampler,
)
    requires
        0 <= i <= objects.len(),
        s.wf(),
        s.left() >= Hittables::spec_draws_upto(objects, objects.len())
            - Hittables::spec_draws_upto(objects, i as nat),
    ensures
        Hittables::spec_hit_from(objects, i, ray, t_min, closest, best, s).1.follows(
            &s,
            Hittables::spec_draws_upto(objects, objects.len()) - Hittables::spec_draws_upto(
                objects,
                i as nat,
            ),
        ),
    decreases objects, objects.len() - i,
{
    if i < objects.len() {
        lemma_draws_upto_rises(objects, (i + 1) as nat, objects.len());
        let narrowed = Interval { min: t_min, max: closest };
        lemma_hit_draws(&objects[i], ray, &narrowed, s);
        let (found, s1) = objects[i].spec_hit(ray, &narrowed, s);
        match found {
            Some(hit) => {
                lemma_list_draws(objects, i + 1, ray, t_min, hit.t, Some(hit), s1);
            },
            None => {
                lemma_list_draws(objects, i + 1, ray, t_min, closest, best, s1);
            },
        }
    }
}

proof fn lemma_tree_draws(
    tree: &BvhTree,
    objects: Seq<Hittable>,
    ray: &Ray,
    ray_t: &Interval,
    s: Sampler,
)
    requires
        s.wf(),
        s.left() >= tree.draws_most(objects),
    ensures
        tree.spec_hit(objects, ray, ray_t, s).1.follows(&s, tree.draws_most(objects) as int),
    decreases objects, tree,
{
    match tree {
        BvhTree::Leaf { object } => {
            if *object < objects.len() {
                lemma_hit_draws(&objects[*object as int], ray, ray_t, s);
            }
        },
        BvhTree::Node { left, right, bbox } => {
            if bbox.hit(ray, ray_t) {
                lemma_tree_draws(left, objects, ray, ray_t, s);
                let (left_hit, s1) = left.spec_hit(objects, ray, ray_t, s);
                let right_t = Interval {
                    min: ray_t.min,
                    max: match left_hit {
                        Some(hit) => hit.t,
                        None => ray_t.max,
                    },
                };
                lemma_tree_draws(right, objects, ray, &right_t, s1);
            }
        },
    }
}

/// An object that is asked for a hit takes no more numbers than
/// `draws_most` says, and does not start the sampler again where that many
/// are left.
pub proof fn lemma_hit_draws(h: &Hittable, ray: &Ray, ray_t: &Interval, s: Sampler)
    requires
        s.wf(),
        s.left() >= h.draws_most(),
    ensures
        h.spec_hit(ray, ray_t, s).1.follows(&s, h.draws_most() as int),
    decreases h,
{
    match h {
        Hittable::Sphere(o) => {},
        Hittable::Quad(o) => {},
        Hittable::Translate(o) => {
            lemma_hit_draws(&o.hittable, &o.spec_local_ray(ray), ray_t, s);
        },
        Hittable::RotateY(o) => {
            lemma_hit_draws(&o.hittable, &o.spec_local_ray(ray), ray_t, s);
        },
        Hittable::ConstantMedium(o) => {
            lemma_hit_draws(&o.boundary, ray, &Interval::universe(), s);
            let (first, s1) = o.boundary.spec_hit(ray, &Interval::universe(), s);
            if let Some(hit) = first {
                lemma_hit_draws(&o.boundary, ray, &ConstantMedium::spec_beyond(hit.t), s1);
                let (second, s2) = o.boundary.spec_hit(ray, &ConstantMedium::spec_beyond(hit.t), s1);
                lemma_advanced(s2);
            }
        },
        Hittable::Hittables(o) => {
            lemma_list_draws(o.objects@, 0, ray, ray_t.min, ray_t.max, None, s);
        },
        Hittable::BvhNode(o) => {
            lemma_tree_draws(&o.root, o.objects@, ray, ray_t, s);
        },
    }
}

/// The box round the objects of a list is the box round their boxes taken
/// in the order of their places.
proof fn lemma_span_is_list_box(objects: Seq<Hittable>, n: nat)
    requires
        n <= objects.len() <= usize::MAX,
    ensures
        spec_span(spec_boxes(objects), spec_places(objects.len()), n) == Hittables::spec_bbox(
            objects,
            n,
        ),
    decreases n,
{
    if n > 0 {
        lemma_span_is_list_box(objects, (n - 1) as nat);
        assert(spec_places(objects.len())[n - 1] == (n - 1) as usize);
        assert(spec_boxes(objects)[n - 1] == objects[n - 1].spec_bounding_box());
    }
}

/// The root of the hierarchy over a set of objects has the box that a list of
/// the same objects has. Of one or two objects this holds where the box of
/// the first is as thick as padding makes it: the list pads the box of its
/// first object, the hierarchy of one or two objects does not.
pub proof fn lemma_root_box_is_list_box(objects: Seq<Hittable>)
    requires
        0 < objects.len() <= usize::MAX,
        objects.len() < 3 ==> objects[0].spec_bounding_box().settled(),
    ensures
        BvhNode::spec_root(objects).spec_bbox() == Hittables::spec_bbox(objects, objects.len()),
{
    reveal_with_fuel(Hittables::spec_bbox, 3);
    if objects.len() >= 3 {
        lemma_span_is_list_box(objects, objects.len());
    }
}

/// The least box that holds the boxes of the first `n` of some objects: on
/// each axis from the least of their lower bounds to the greatest of their
/// upper bounds, without any padding.
pub open spec fn spec_hull(objects: Seq<Hittable>, n: nat) -> AABB
    decreases n,
{
    if n == 0 {
        AABB::empty()
    } else {
        let before = spec_hull(objects, (n - 1) as nat);
        let last = objects[n - 1].spec_bounding_box();
        AABB {
            x: Interval::from_intervals(&before.x, &last.x),
            y: Interval::from_intervals(&before.y, &last.y),
            z: Interval::from_intervals(&before.z, &last.z),
        }
    }
}

/// Whether the bounds of the box of every object are numbers.
pub open spec fn boxes_of_numbers(objects: Seq<Hittable>) -> bool {
    forall|i: int|
        0 <= i < objects.len() ==> {
            let b = (#[trigger] objects[i]).spec_bounding_box();
            b.x.bounded_by_numbers() && b.y.bounded_by_numbers() && b.z.bounded_by_numbers()
        }
}

/// Whether the least box round the first objects is, however many of them
/// are taken, as thick as padding makes a box, so that padding adds
/// nothing to it.
pub open spec fn hulls_settled(objects: Seq<Hittable>) -> bool {
    forall|n: nat| 1 <= n <= objects.len() ==> (#[trigger] spec_hull(objects, n)).settled()
}

/// Where padding adds nothing, the box of a list is the least box that holds
/// the boxes of its objects.
pub proof fn lemma_list_box_is_hull(objects: Seq<Hittable>, n: nat)
    requires
        n <= objects.len(),
        hulls_settled(objects),
    ensures
        Hittables::spec_bbox(objects, n) == spec_hull(objects, n),
    decreases n,
{
    if n > 0 {
        lemma_list_box_is_hull(objects, (n - 1) as nat);
        assert(spec_hull(objects, n).settled());
    }
}

/// The least box round the first `n` objects has bounds that are numbers
/// or, where there are no objects, those of the empty box; it encloses the
/// box of each of those objects on every axis.
pub proof fn lemma_hull_encloses(objects: Seq<Hittable>, n: nat, k: int, axis: u16)
    requires
        0 <= k < n <= objects.len(),
        boxes_of_numbers(objects),
    ensures
        spec_hull(objects, n).axis_interval(axis).encloses(
            &objects[k].spec_bounding_box().axis_interval(axis),
        ),
        spec_hull(objects, n).axis_interval(axis).bounded_by_numbers(),
    decreases n,
{
    let last = objects[n - 1].spec_bounding_box();
    assert(last.x.bounded_by_numbers() && last.y.bounded_by_numbers()
        && last.z.bounded_by_numbers());
    assert(objects[k].spec_bounding_box().x.bounded_by_numbers());
    if n >= 2 {
        lemma_hull_encloses(objects, (n - 1) as nat, 0, axis);
        if k < n - 1 {
            lemma_hull_encloses(objects, (n - 1) as nat, k, axis);
        }
    }
}

/// On every axis the lower bound of the least box round the first `n`
/// objects is the lower bound of the box of one of them, and so is its upper
/// bound: no smaller box holds all their boxes.
pub proof fn lemma_hull_is_attained(objects: Seq<Hittable>, n: nat, axis: u16)
    requires
        1 <= n <= objects.len(),
        boxes_of_numbers(objects),
    ensures
        exists|i: int|
            0 <= i < n && spec_hull(objects, n).axis_interval(axis).min == (
            #[trigger] objects[i]).spec_bounding_box().axis_interval(axis).min,
        exists|j: int|
            0 <= j < n && spec_hull(objects, n).axis_interval(axis).max == (
            #[trigger] objects[j]).spec_bounding_box().axis_interval(axis).max,
    decreases n,
{
    let hull = spec_hull(objects, n).axis_interval(axis);
    let last = objects[n - 1].spec_bounding_box();
    assert(last.x.bounded_by_numbers() && last.y.bounded_by_numbers()
        && last.z.bounded_by_numbers());
    if n == 1 {
        reveal_with_fuel(spec_hull, 2);
        assert(hull.min == objects[0].spec_bounding_box().axis_interval(axis).min);
        assert(hull.max == objects[0].spec_bounding_box().axis_interval(axis).max);
    } else {
        lemma_hull_is_attained(objects, (n - 1) as nat, axis);
        let before = spec_hull(objects, (n - 1) as nat).axis_interval(axis);
        let i0 = choose|i: int|
            0 <= i < n - 1 && before.min == (#[trigger] objects[i]).spec_bounding_box().axis_interval(
                axis,
            ).min;
        let j0 = choose|j: int|
            0 <= j < n - 1 && before.max == (#[trigger] objects[j]).spec_bounding_box().axis_interval(
                axis,
            ).max;
        let i = if hull.min == before.min { i0 } else { n - 1 };
        let j = if hull.max == before.max { j0 } else { n - 1 };
        assert(hull.min == objects[i].spec_bounding_box().axis_interval(axis).min);
        assert(hull.max == objects[j].spec_bounding_box().axis_interval(axis).max);
    }
}

/// The box of a list and the box of the root of the hierarchy over the same
/// objects are the least box that holds the boxes of the objects, on every
/// axis from the least of their lower bounds to the greatest of their upper
/// bounds, where the bounds are numbers and padding adds nothing to the
/// least box round the first objects, however many are taken.
pub proof fn lemma_boxes_are_least(objects: Seq<Hittable>)
    requires
        0 < objects.len() <= usize::MAX,
        boxes_of_numbers(objects),
        hulls_settled(objects),
    ensures
        Hittables::spec_bbox(objects, objects.len()) == spec_hull(objects, objects.len()),
        BvhNode::spec_root(objects).spec_bbox() == spec_hull(objects, objects.len()),
{
    lemma_list_box_is_hull(objects, objects.len());
    assert(spec_hull(objects, 1).settled());
    reveal_with_fuel(spec_hull, 2);
    assert(objects[0].spec_bounding_box().x.bounded_by_numbers());
    assert(spec_hull(objects, 1) == objects[0].spec_bounding_box());
    lemma_root_box_is_list_box(objects);
}

/// The objects at the leaves of a tree from left to right, each as often as
/// it stands at a leaf.
pub open spec fn spec_leaves(tree: &BvhTree, objects: Seq<Hittable>) -> Seq<Hittable>
    decreases tree,
{
    match tree {
        BvhTree::Leaf { object } => if *object < objects.len() {
            seq![objects[*object as int]]
        } else {
            Seq::empty()
        },
        BvhTree::Node { left, right, bbox } => spec_leaves(left, objects) + spec_leaves(
            right,
            objects,
        ),
    }
}

/// The upper bound within which the next object is asked: the parameter of
/// the nearest hit so far, or the upper bound of the range where there is no
/// hit yet.
pub open spec fn closest_of(best: Option<HitRecord>, t_max: Real) -> Real {
    match best {
        Some(hit) => hit.t,
        None => t_max,
    }
}

/// Whether no box turns the ray away on its way through the tree.
pub open spec fn boxes_pass(
    tree: &BvhTree,
    objects: Seq<Hittable>,
    ray: &Ray,
    ray_t: &Interval,
    s: Sampler,
) -> bool
    decreases tree,
{
    match tree {
        BvhTree::Leaf { object } => true,
        BvhTree::Node { left, right, bbox } => {
            let (left_hit, s1) = left.spec_hit(objects, ray, ray_t, s);
            let right_t = Interval { min: ray_t.min, max: closest_of(left_hit, ray_t.max) };
            bbox.hit(ray, ray_t) && boxes_pass(left, objects, ray, ray_t, s) && boxes_pass(
                right,
                objects,
                ray,
                &right_t,
                s1,
            )
        },
    }
}

/// The nearest hit so far matters to a search only where the search finds
/// no nearer one: then it is what the search ends with.
proof fn lemma_search_falls_back(
    objects: Seq<Hittable>,
    i: int,
    ray: &Ray,
    t_min: Real,
    closest: Real,
    best: Option<HitRecord>,
    s: Sampler,
)
    requires
        0 <= i <= objects.len(),
    ensures
        Hittables::spec_hit_from(objects, i, ray, t_min, closest, best, s).1
            == Hittables::spec_hit_from(objects, i, ray, t_min, closest, None, s).1,
        Hittables::spec_hit_from(objects, i, ray, t_min, closest, best, s).0 == (
        match Hittables::spec_hit_from(objects, i, ray, t_min, closest, None, s).0 {
            Some(hit) => Some(hit),
            None => best,
        }),
    decreases objects.len() - i,
{
    if i < objects.len() {
        let (found, s1) = objects[i].spec_hit(ray, &Interval { min: t_min, max: closest }, s);
        match found {
            Some(hit) => {
                lemma_search_falls_back(objects, i + 1, ray, t_min, hit.t, Some(hit), s1);
            },
            None => {
                lemma_search_falls_back(objects, i + 1, ray, t_min, closest, best, s1);
                lemma_search_falls_back(objects, i + 1, ray, t_min, closest, None, s1);
            },
        }
    }
}

/// A search of two lists on end, from a place in the second, is the search
/// of the second list from that place.
proof fn lemma_search_of_rest(
    a: Seq<Hittable>,
    b: Seq<Hittable>,
    j: int,
    ray: &Ray,
    t_min: Real,
    closest: Real,
    best: Option<HitRecord>,
    s: Sampler,
)
    requires
        0 <= j <= b.len(),
    ensures
        Hittables::spec_hit_from(a + b, a.len() + j, ray, t_min, closest, best, s)
            == Hittables::spec_hit_from(b, j, ray, t_min, closest, best, s),
    decreases b.len() - j,
{
    if j < b.len() {
        assert((a + b)[a.len() + j] == b[j]);
        let (found, s1) = b[j].spec_hit(ray, &Interval { min: t_min, max: closest }, s);
        match found {
            Some(hit) => {
                lemma_search_of_rest(a, b, j + 1, ray, t_min, hit.t, Some(hit), s1);
            },
            None => {
                lemma_search_of_rest(a, b, j + 1, ray, t_min, closest, best, s1);
            },
        }
    }
}

/// A search of two lists on end is the search of the first, followed by the
/// search of the second with what the first found.
proof fn lemma_search_of_both(
    a: Seq<Hittable>,
    b: Seq<Hittable>,
    i: int,
    ray: &Ray,
    t_min: Real,
    t_max: Real,
    best: Option<HitRecord>,
    s: Sampler,
)
    requires
        0 <= i <= a.len(),
    ensures
        ({
            let (found, s1) = Hittables::spec_hit_from(
                a,
                i,
                ray,
                t_min,
                closest_of(best, t_max),
                best,
                s,
            );
            Hittables::spec_hit_from(a + b, i, ray, t_min, closest_of(best, t_max), best, s)
                == Hittables::spec_hit_from(b, 0, ray, t_min, closest_of(found, t_max), found, s1)
        }),
    decreases a.len() - i,
{
    let closest = closest_of(best, t_max);
    if i < a.len() {
        assert((a + b)[i] == a[i]);
        let (found, s1) = a[i].spec_hit(ray, &Interval { min: t_min, max: closest }, s);
        match found {
            Some(hit) => {
                lemma_search_of_both(a, b, i + 1, ray, t_min, t_max, Some(hit), s1);
            },
            None => {
                lemma_search_of_both(a, b, i + 1, ray, t_min, t_max, best, s1);
            },
        }
    } else {
        lemma_search_of_rest(a, b, 0, ray, t_min, closest, best, s);
    }
}

/// Wherever no box on the way turns the ray away, the hierarchy reports what
/// a list of the objects at its leaves reports: the boxes spare work and
/// change no result but by turning a ray away.
pub proof fn lemma_hierarchy_is_a_list(
    tree: &BvhTree,
    objects: Seq<Hittable>,
    ray: &Ray,
    ray_t: &Interval,
    s: Sampler,
)
    requires
        boxes_pass(tree, objects, ray, ray_t, s),
    ensures
        tree.spec_hit(objects, ray, ray_t, s) == Hittables::spec_hit_from(
            spec_leaves(tree, objects),
            0,
            ray,
            ray_t.min,
            ray_t.max,
            None,
            s,
        ),
    decreases tree,
{
    match tree {
        BvhTree::Leaf { object } => {
            reveal_with_fuel(Hittables::spec_hit_from, 3);
            if *object < objects.len() {
                let leaves = spec_leaves(tree, objects);
                assert(leaves.len() == 1 && leaves[0] == objects[*object as int]);
                assert(*ray_t == (Interval { min: ray_t.min, max: ray_t.max }));
            }
        },
        BvhTree::Node { left, right, bbox } => {
            let a = spec_leaves(left, objects);
            let b = spec_leaves(right, objects);
            let (left_hit, s1) = left.spec_hit(objects, ray, ray_t, s);
            let right_t = Interval { min: ray_t.min, max: closest_of(left_hit, ray_t.max) };
            lemma_hierarchy_is_a_list(left, objects, ray, ray_t, s);
            lemma_hierarchy_is_a_list(right, objects, ray, &right_t, s1);
            lemma_search_of_both(a, b, 0, ray, ray_t.min, ray_t.max, None, s);
            lemma_search_falls_back(b, 0, ray, ray_t.min, right_t.max, left_hit, s1);
        },
    }
}

/// The tree over the places of a list holds each of those places at a leaf.
pub proof fn lemma_build_holds(boxes: Seq<AABB>, order: Seq<usize>, place: usize)
    requires
        order.contains(place),
    ensures
        BvhTree::spec_build(boxes, order).holds(place),
    decreases order.len(),
{
    reveal_with_fuel(BvhTree::holds, 3);
    let at = choose|i: int| 0 <= i < order.len() && order[i] == place;
    if order.len() <= 2 {
    } else {
        let bbox = spec_span(boxes, order, order.len());
        let keys = spec_keys(boxes, bbox.longest_axis());
        let sorted = spec_sort(order, keys);
        let mid = order.len() / 2;
        lemma_sort_permutes(order, keys);
        lemma_sort_keeps(order, keys, place);
        let k = choose|k: int| 0 <= k < sorted.len() && sorted[k] == place;
        if k < mid {
            assert(sorted.subrange(0, mid as int)[k] == place);
            if mid > 1 {
                lemma_build_holds(boxes, sorted.subrange(0, mid as int), place);
            }
        } else {
            assert(sorted.subrange(mid as int, order.len() as int)[k - mid] == place);
            lemma_build_holds(boxes, sorted.subrange(mid as int, order.len() as int), place);
        }
    }
}

/// The hierarchy over a set of objects holds every one of them at a leaf of
/// its tree.
pub proof fn lemma_hierarchy_holds_all(objects: Seq<Hittable>, place: usize)
    requires
        place < objects.len(),
    ensures
        BvhNode::spec_root(objects).holds(place),
{
    assert(spec_places(objects.len())[place as int] == place);
    lemma_build_holds(spec_boxes(objects), spec_places(objects.len()), place);
}

} // verus!
