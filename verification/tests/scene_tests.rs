use pathtrace::aabb::AABB;
use pathtrace::bvhnode::{insert_by_key, part_of, places, sort_by_key, BvhNode, BvhTree};
use pathtrace::camera::{
    channel_byte, image_height, linear_to_gamma, push_decimal, row_key, write_color, write_header,
    write_row, Camera,
};
use pathtrace::hittable::{box3, ConstantMedium, Hittable, Hittables, RotateY, Translate};
use pathtrace::interval::Interval;
use pathtrace::material::{DiffuseLight, Isotropic, Lambertian, Material, Metal};
use pathtrace::quad::Quad;
use pathtrace::ray::Ray;
use pathtrace::sampling::{Rng, Sampler};
use pathtrace::scalar::Real;
use pathtrace::scene::Scene;
use pathtrace::sphere::Sphere;
use pathtrace::texture::{ImageTexture, SolidColorTexture, Texture};
use pathtrace::vec3::Vec3;

fn num(x: f64) -> Real {
    Real::from_bits(x.to_bits())
}

fn value(r: Real) -> f64 {
    f64::from_bits(r.to_bits())
}

fn vec(x: f64, y: f64, z: f64) -> Vec3 {
    Vec3::new(num(x), num(y), num(z))
}

fn parts(v: Vec3) -> (f64, f64, f64) {
    (value(v.x), value(v.y), value(v.z))
}

fn range(min: f64, max: f64) -> Interval {
    Interval::new(num(min), num(max))
}

fn bounds(i: Interval) -> (f64, f64) {
    (value(i.min), value(i.max))
}

fn box_bounds(b: AABB) -> [(f64, f64); 3] {
    [bounds(b.x), bounds(b.y), bounds(b.z)]
}

fn sampler(draws: &[f64]) -> Sampler {
    Sampler::new(draws.iter().map(|x| num(*x)).collect()).unwrap()
}

fn solid(r: f64, g: f64, b: f64) -> Texture {
    Texture::SolidColor(SolidColorTexture::new(vec(r, g, b)))
}

fn ball(x: f64, y: f64, z: f64, r: f64, material: usize) -> Hittable {
    Hittable::Sphere(Sphere::new(vec(x, y, z), num(r), material))
}

fn ahead() -> Interval {
    range(0.001, f64::INFINITY)
}

fn along_z(x: f64, y: f64) -> Ray {
    Ray::new(vec(x, y, -20.0), vec(0.0, 0.0, 1.0))
}

fn row_of_balls() -> Vec<Hittable> {
    vec![
        ball(0.0, 0.0, 6.0, 1.0, 0),
        ball(0.0, 0.0, 0.0, 1.0, 1),
        ball(3.0, 0.0, 3.0, 1.0, 2),
        ball(0.0, 0.0, 3.0, 1.0, 3),
        ball(-3.0, 1.0, -2.0, 1.5, 4),
        ball(6.0, -2.0, 0.0, 0.5, 5),
        ball(0.0, 5.0, 1.0, 2.0, 6),
    ]
}

fn leaves(tree: &BvhTree, into: &mut Vec<usize>) {
    match tree {
        BvhTree::Leaf { object } => into.push(*object),
        BvhTree::Node { left, right, .. } => {
            leaves(left, into);
            leaves(right, into);
        }
    }
}

#[test]
fn list_finds_the_nearest_hit() {
    let list = Hittable::Hittables(Hittables::new(row_of_balls()));
    assert!(list.valid());
    let mut s = sampler(&[0.5]);
    let hit = list.hit(&along_z(0.0, 0.0), &ahead(), &mut s).unwrap();
    assert_eq!(value(hit.t), 19.0);
    assert_eq!(hit.material, 1);
    let hit = list.hit(&along_z(0.0, 0.0), &range(21.5, 100.0), &mut s).unwrap();
    assert_eq!(value(hit.t), 22.0);
    assert_eq!(hit.material, 3);
    let hit = list.hit(&along_z(3.0, 0.0), &ahead(), &mut s).unwrap();
    assert_eq!(hit.material, 2);
    assert!(list.hit(&along_z(10.0, 10.0), &ahead(), &mut s).is_none());
    assert_eq!(s.next, 0);
}

#[test]
fn list_box_is_the_union_of_the_boxes() {
    let list = Hittables::new(row_of_balls());
    assert_eq!(box_bounds(list.bbox), [(-4.5, 6.5), (-2.5, 7.0), (-3.5, 7.0)]);
    let empty = Hittables::new(vec![]);
    assert_eq!(bounds(empty.bbox.x), (f64::INFINITY, f64::NEG_INFINITY));
    let mut s = sampler(&[0.5]);
    assert!(Hittable::Hittables(empty).hit(&along_z(0.0, 0.0), &ahead(), &mut s).is_none());
}

#[test]
fn hierarchy_root_box_equals_list_box() {
    for count in 1..=7 {
        let objects: Vec<Hittable> = row_of_balls().into_iter().take(count).collect();
        let again: Vec<Hittable> = row_of_balls().into_iter().take(count).collect();
        let list = Hittables::new(objects);
        let tree = BvhNode::new(again);
        assert_eq!(box_bounds(tree.bbox), box_bounds(list.bbox), "{} objects", count);
    }
}

#[test]
fn hierarchy_holds_every_object() {
    for count in 1..=7 {
        let objects: Vec<Hittable> = row_of_balls().into_iter().take(count).collect();
        let tree = BvhNode::new(objects);
        assert!(tree.root.valid(count));
        assert!(!tree.root.valid(count - 1));
        let mut found = Vec::new();
        leaves(&tree.root, &mut found);
        found.sort();
        found.dedup();
        assert_eq!(found, (0..count).collect::<Vec<usize>>());
    }
}

#[test]
fn hierarchy_of_one_has_the_object_on_both_sides() {
    let tree = BvhNode::new(vec![ball(0.0, 0.0, 0.0, 1.0, 0)]);
    match &tree.root {
        BvhTree::Node { left, right, bbox } => {
            assert!(matches!(**left, BvhTree::Leaf { object: 0 }));
            assert!(matches!(**right, BvhTree::Leaf { object: 0 }));
            assert_eq!(box_bounds(*bbox), [(-1.0, 1.0), (-1.0, 1.0), (-1.0, 1.0)]);
        }
        BvhTree::Leaf { .. } => panic!("the root is a node"),
    }
}

#[test]
fn hierarchy_of_two_keeps_their_order() {
    let tree = BvhNode::new(vec![ball(5.0, 0.0, 0.0, 1.0, 0), ball(-5.0, 0.0, 0.0, 1.0, 1)]);
    match &tree.root {
        BvhTree::Node { left, right, bbox } => {
            assert!(matches!(**left, BvhTree::Leaf { object: 0 }));
            assert!(matches!(**right, BvhTree::Leaf { object: 1 }));
            assert_eq!(bounds(bbox.x), (-6.0, 6.0));
        }
        BvhTree::Leaf { .. } => panic!("the root is a node"),
    }
}

#[test]
fn hierarchy_splits_at_the_middle_of_the_longest_axis() {
    let xs = [7.0, -3.0, 4.0, 0.0, 10.0];
    let objects: Vec<Hittable> = xs.iter().map(|x| ball(*x, 0.0, 0.0, 0.5, 0)).collect();
    let tree = BvhNode::new(objects);
    match &tree.root {
        BvhTree::Node { left, right, bbox } => {
            assert_eq!(bounds(bbox.x), (-3.5, 10.5));
            let mut l = Vec::new();
            leaves(left, &mut l);
            let mut r = Vec::new();
            leaves(right, &mut r);
            assert_eq!(l, vec![1, 3]);
            assert_eq!(r, vec![2, 0, 4]);
        }
        BvhTree::Leaf { .. } => panic!("the root is a node"),
    }
}

#[test]
fn hierarchy_and_list_report_the_same_hits() {
    let list = Hittable::Hittables(Hittables::new(row_of_balls()));
    let tree = Hittable::BvhNode(BvhNode::new(row_of_balls()));
    assert!(tree.valid());
    let mut s = sampler(&[0.5]);
    let mut hits = 0;
    for ix in -14..14 {
        for iy in -10..16 {
            let origin = (ix as f64 * 0.5 + 0.013, iy as f64 * 0.5 - 0.027, -20.0);
            for target in [(0.0, 0.0, 3.0), (origin.0, origin.1, 0.0), (1.0, 2.0, 1.0)] {
                let ray = Ray::new(
                    vec(origin.0, origin.1, origin.2),
                    vec(target.0 - origin.0, target.1 - origin.1, target.2 - origin.2),
                );
                let a = list.hit(&ray, &ahead(), &mut s);
                let b = tree.hit(&ray, &ahead(), &mut s);
                assert_eq!(a.is_some(), b.is_some());
                if let (Some(a), Some(b)) = (a, b) {
                    hits += 1;
                    assert_eq!(a.t.to_bits(), b.t.to_bits());
                    assert_eq!(a.material, b.material);
                    assert_eq!(parts(a.p), parts(b.p));
                    assert_eq!(parts(a.normal), parts(b.normal));
                    assert!(value(a.t) > 0.001);
                }
            }
        }
    }
    assert!(hits > 100);
}

#[test]
fn hits_lie_strictly_inside_the_range() {
    let tree = Hittable::BvhNode(BvhNode::new(row_of_balls()));
    let mut s = sampler(&[0.5]);
    let ray = along_z(0.0, 0.0);
    for (lo, hi) in [(0.001, 1e9), (19.0, 21.0), (19.5, 22.0), (21.0, 22.5), (22.0, 24.0), (25.0, 27.0)] {
        if let Some(hit) = tree.hit(&ray, &range(lo, hi), &mut s) {
            assert!(lo < value(hit.t) && value(hit.t) < hi, "{} in ({}, {})", value(hit.t), lo, hi);
        }
    }
    assert_eq!(value(tree.hit(&ray, &range(19.0, 21.5), &mut s).unwrap().t), 21.0);
    assert!(tree.hit(&ray, &range(19.0, 21.0), &mut s).is_none());
}

#[test]
fn stable_sort_by_key() {
    let keys: Vec<i64> = vec![5, -1, 5, 3, -1, 0];
    let sorted = sort_by_key(&places(6), &keys);
    assert_eq!(sorted, vec![1, 4, 5, 3, 0, 2]);
    let sorted = sort_by_key(&vec![2, 0, 3], &keys);
    assert_eq!(sorted, vec![3, 2, 0]);
    assert_eq!(sort_by_key(&vec![], &keys), Vec::<usize>::new());
    let mut list = vec![1, 3, 0];
    insert_by_key(&mut list, 5, &keys);
    assert_eq!(list, vec![1, 5, 3, 0]);
    assert_eq!(part_of(&vec![9, 8, 7, 6], 1, 3), vec![8, 7]);
    assert_eq!(places(3), vec![0, 1, 2]);
}

#[test]
fn translated_object_is_hit_where_it_was_moved_to() {
    let moved = Hittable::Translate(Translate::new(vec(5.0, 0.0, 0.0), ball(0.0, 0.0, 0.0, 1.0, 2)));
    assert_eq!(box_bounds(moved.bounding_box()), [(4.0, 6.0), (-1.0, 1.0), (-1.0, 1.0)]);
    let mut s = sampler(&[0.5]);
    assert!(moved.hit(&along_z(0.0, 0.0), &ahead(), &mut s).is_none());
    let hit = moved.hit(&along_z(5.0, 0.0), &ahead(), &mut s).unwrap();
    assert_eq!(value(hit.t), 19.0);
    assert_eq!(parts(hit.p), (5.0, 0.0, -1.0));
    assert_eq!(parts(hit.normal), (0.0, 0.0, -1.0));
    assert_eq!(hit.material, 2);
    assert!(hit.front_face);
}

#[test]
fn rotated_object_is_hit_where_it_was_turned_to() {
    let turned = Hittable::RotateY(RotateY::new(num(90.0), ball(5.0, 0.0, 0.0, 1.0, 1)));
    // A quarter turn about y takes (5, 0, 0) to (0, 0, -5).
    let mut s = sampler(&[0.5]);
    let hit = turned.hit(&along_z(0.0, 0.0), &ahead(), &mut s).unwrap();
    assert!((value(hit.t) - 14.0).abs() < 1e-9);
    let (x, y, z) = parts(hit.p);
    assert!(x.abs() < 1e-9 && y == 0.0 && (z + 6.0).abs() < 1e-9);
    let (nx, ny, nz) = parts(hit.normal);
    assert!(nx.abs() < 1e-9 && ny == 0.0 && (nz + 1.0).abs() < 1e-9);
    assert!(turned.hit(&along_z(5.0, 0.0), &ahead(), &mut s).is_none());
    let b = turned.bounding_box();
    assert!((bounds(b.x).0 + 1.0).abs() < 1e-9 && (bounds(b.x).1 - 1.0).abs() < 1e-9);
    assert!((bounds(b.z).0 + 6.0).abs() < 1e-9 && (bounds(b.z).1 + 4.0).abs() < 1e-9);
    assert_eq!(bounds(b.y), (-1.0, 1.0));
    match &turned {
        Hittable::RotateY(r) => {
            assert_eq!(value(r.sin_theta), 1.0);
            assert!(value(r.cos_theta).abs() < 1e-15);
        }
        _ => unreachable!(),
    }
}

#[test]
fn half_turn_and_back() {
    let turned = Hittable::RotateY(RotateY::new(num(180.0), ball(0.0, 0.0, 5.0, 1.0, 0)));
    let mut s = sampler(&[0.5]);
    let ray = Ray::new(vec(0.0, 0.0, -20.0), vec(0.0, 0.0, 1.0));
    let hit = turned.hit(&ray, &ahead(), &mut s).unwrap();
    assert!((value(hit.t) - 14.0).abs() < 1e-9);
}

#[test]
fn smoke_scatters_inside_its_boundary() {
    let smoke = ConstantMedium::new(ball(0.0, 0.0, 0.0, 1.0, 0), 9, num(1.0));
    assert_eq!(value(smoke.neg_inv_density), -1.0);
    let ray = along_z(0.0, 0.0);
    // The way through is 2 long: a flight of -ln(0.5) = 0.69 ends inside.
    let chance = 0.5f64;
    let hit = smoke.scatter_at(&ray, &ahead(), num(19.0), num(21.0), num(chance)).unwrap();
    let flight = -1.0 * chance.ln();
    assert!((value(hit.t) - (19.0 + flight)).abs() < 1e-12);
    assert_eq!(hit.material, 9);
    assert!(hit.front_face);
    assert_eq!(parts(hit.normal), (1.0, 0.0, 0.0));
    assert_eq!((value(hit.u), value(hit.v)), (0.0, 0.0));
    let (x, y, z) = parts(hit.p);
    assert!(x == 0.0 && y == 0.0 && (z - (-1.0 + flight)).abs() < 1e-12);
    // A flight of -ln(0.1) = 2.3 leaves the smoke.
    assert!(smoke.scatter_at(&ray, &ahead(), num(19.0), num(21.0), num(0.1)).is_none());
    // The range cuts the way short.
    assert!(smoke.scatter_at(&ray, &range(0.001, 19.5), num(19.0), num(21.0), num(0.5)).is_none());
    // A way that starts behind the origin of the ray starts at the origin.
    let inside = Ray::new(vec(0.0, 0.0, 0.0), vec(0.0, 0.0, 1.0));
    let hit = smoke.scatter_at(&inside, &ahead(), num(-1.0), num(1.0), num(0.5)).unwrap();
    assert!((value(hit.t) - (0.001 + flight)).abs() < 1e-12);
}

#[test]
fn smoke_asks_its_boundary_twice_and_draws_once() {
    let smoke = Hittable::ConstantMedium(ConstantMedium::new(ball(0.0, 0.0, 0.0, 1.0, 0), 4, num(1.0)));
    assert!(smoke.valid());
    assert_eq!(box_bounds(smoke.bounding_box()), [(-1.0, 1.0), (-1.0, 1.0), (-1.0, 1.0)]);
    let mut s = sampler(&[0.5, 0.1, 0.9]);
    let hit = smoke.hit(&along_z(0.0, 0.0), &ahead(), &mut s).unwrap();
    assert!((value(hit.t) - (19.0 - (0.5f64).ln())).abs() < 1e-12);
    assert_eq!(hit.material, 4);
    assert_eq!(s.next, 1);
    assert!(smoke.hit(&along_z(0.0, 0.0), &ahead(), &mut s).is_none());
    assert_eq!(s.next, 2);
    // A ray that misses the boundary draws nothing.
    assert!(smoke.hit(&along_z(5.0, 0.0), &ahead(), &mut s).is_none());
    assert_eq!(s.next, 2);
    // Nor does one for which the range admits nothing of the way.
    assert!(smoke.hit(&along_z(0.0, 0.0), &range(0.001, 18.0), &mut s).is_none());
    assert_eq!(s.next, 2);
    // A thick smoke scatters at once.
    let thick = Hittable::ConstantMedium(ConstantMedium::new(ball(0.0, 0.0, 0.0, 1.0, 0), 4, num(1e9)));
    let hit = thick.hit(&along_z(0.0, 0.0), &ahead(), &mut s).unwrap();
    assert!((value(hit.t) - 19.0).abs() < 1e-6);
}

#[test]
fn ill_formed_hierarchy_is_recognized() {
    let broken = Hittable::BvhNode(BvhNode {
        objects: vec![ball(0.0, 0.0, 0.0, 1.0, 0)],
        root: BvhTree::Leaf { object: 1 },
        bbox: AABB::empty(),
    });
    assert!(!broken.valid());
    let nested = Hittable::Hittables(Hittables::new(vec![
        ball(0.0, 0.0, 0.0, 1.0, 0),
        Hittable::Translate(Translate::new(vec(1.0, 0.0, 0.0), broken)),
    ]));
    assert!(!nested.valid());
    assert!(Scene::new(nested, vec![]).is_none());
    let bad_material = Material::Lambertian(Lambertian::new(Texture::Image(ImageTexture {
        image: vec![],
        width: 1,
        height: 1,
    })));
    assert!(Scene::new(ball(0.0, 0.0, 0.0, 1.0, 0), vec![bad_material]).is_none());
    assert!(Scene::new(Hittable::Hittables(Hittables::new(vec![])), vec![]).is_some());
}

#[test]
fn scene_refuses_a_material_that_is_not_in_the_table() {
    let matte = || Material::Lambertian(Lambertian::new(solid(0.5, 0.5, 0.5)));
    assert!(Scene::new(ball(0.0, 0.0, 0.0, 1.0, 0), vec![]).is_none());
    assert!(Scene::new(ball(0.0, 0.0, 0.0, 1.0, 0), vec![matte()]).is_some());
    assert!(Scene::new(ball(0.0, 0.0, 0.0, 1.0, 1), vec![matte()]).is_none());
    let smoke = |phase: usize| {
        Hittable::ConstantMedium(ConstantMedium::new(ball(0.0, 0.0, 0.0, 1.0, 0), phase, num(1.0)))
    };
    assert!(Scene::new(smoke(0), vec![matte()]).is_some());
    assert!(Scene::new(smoke(1), vec![matte()]).is_none());
    let deep = |material: usize| {
        Hittable::BvhNode(BvhNode::new(vec![
            ball(3.0, 0.0, 0.0, 1.0, 0),
            Hittable::Translate(Translate::new(
                vec(1.0, 0.0, 0.0),
                Hittable::RotateY(RotateY::new(
                    num(10.0),
                    Hittable::Hittables(box3(vec(0.0, 0.0, 0.0), vec(1.0, 1.0, 1.0), material)),
                )),
            )),
        ]))
    };
    assert!(deep(1).materials_within(2));
    assert!(!deep(2).materials_within(2));
    assert!(Scene::new(deep(1), vec![matte(), matte()]).is_some());
    assert!(Scene::new(deep(2), vec![matte(), matte()]).is_none());
}

#[test]
fn moved_and_turned_objects_keep_the_side_that_was_hit() {
    let all = ahead();
    let mut s = sampler(&[0.5]);
    // The ray starts inside the moved sphere and meets it from behind.
    let moved = Hittable::Translate(Translate::new(vec(0.0, 0.0, -5.0), ball(0.0, 0.0, 0.0, 2.0, 0)));
    let there = ball(0.0, 0.0, -5.0, 2.0, 0);
    let ray = Ray::new(vec(0.0, 0.0, -5.0), vec(1.0, 0.0, 0.0));
    let hit = moved.hit(&ray, &all, &mut s).unwrap();
    let same = there.hit(&ray, &all, &mut s).unwrap();
    assert_eq!(value(hit.t), 2.0);
    assert_eq!(parts(hit.p), (2.0, 0.0, -5.0));
    assert_eq!(parts(hit.normal), (-1.0, -0.0, -0.0));
    assert!(!hit.front_face);
    assert_eq!(hit.front_face, same.front_face);
    assert_eq!(parts(hit.normal), parts(same.normal));
    assert_eq!(parts(hit.p), parts(same.p));
    // From outside it is met from the front.
    let outside = Ray::new(vec(-10.0, 0.0, -5.0), vec(1.0, 0.0, 0.0));
    let hit = moved.hit(&outside, &all, &mut s).unwrap();
    assert!(hit.front_face);
    assert_eq!(parts(hit.normal), (-1.0, 0.0, 0.0));
    // The same of a turned sphere.
    let turned = Hittable::RotateY(RotateY::new(num(90.0), ball(5.0, 0.0, 0.0, 2.0, 0)));
    let inside = Ray::new(vec(0.0, 0.0, -5.0), vec(0.0, 0.0, 1.0));
    let hit = turned.hit(&inside, &all, &mut s).unwrap();
    assert!(!hit.front_face);
    assert!((value(hit.t) - 2.0).abs() < 1e-9);
    let (nx, ny, nz) = parts(hit.normal);
    assert!(nx.abs() < 1e-9 && ny == 0.0 && (nz + 1.0).abs() < 1e-9);
    let hit = turned.hit(&along_z(0.0, 0.0), &all, &mut s).unwrap();
    assert!(hit.front_face);
}

#[test]
fn glass_inside_a_moved_object_bends_on_the_way_out() {
    // A ray that leaves a moved ball of glass meets its surface from behind: the ratio of the
    // indices is that of the glass, and at a flat angle all light is mirrored without a draw.
    let moved = Hittable::Translate(Translate::new(vec(0.0, 0.0, -5.0), ball(0.0, 0.0, 0.0, 2.0, 0)));
    let ray = Ray::new(vec(1.9, 0.0, -5.0), vec(0.0, 0.0, 1.0));
    let mut s = sampler(&[0.999, 0.5]);
    let hit = moved.hit(&ray, &ahead(), &mut s).unwrap();
    assert!(!hit.front_face);
    let glass = Material::Dielectric(pathtrace::material::Dielectric::new(num(1.5)));
    let out = glass.scatter(&ray, &hit, &mut s).unwrap();
    assert_eq!(s.next, 0);
    let (x, _, z) = parts(out.scattered.direction);
    assert!((x + 0.593274809847848).abs() < 1e-12 && (z - 0.805).abs() < 1e-12, "{} {}", x, z);
}

#[test]
fn table_of_a_pixel_grows_with_the_depth() {
    let smoke = Hittable::ConstantMedium(ConstantMedium::new(ball(0.0, 0.0, 0.0, 1.0, 0), 0, num(1.0)));
    assert_eq!(smoke.draws_needed(), 1);
    assert_eq!(ball(0.0, 0.0, 0.0, 1.0, 0).draws_needed(), 0);
    let nested = Hittable::ConstantMedium(ConstantMedium::new(
        Hittable::Hittables(Hittables::new(vec![smoke, ball(0.0, 0.0, 0.0, 1.0, 0)])),
        0,
        num(1.0),
    ));
    assert_eq!(nested.draws_needed(), 3);
    let one = Hittable::BvhNode(BvhNode::new(vec![nested]));
    // The only object of a hierarchy stands on both sides of its root and is asked twice.
    assert_eq!(one.draws_needed(), 6);
}

#[test]
fn nested_collections() {
    let inner = Hittable::BvhNode(BvhNode::new(vec![
        ball(0.0, 0.0, 0.0, 1.0, 0),
        ball(0.0, 3.0, 0.0, 1.0, 1),
        ball(0.0, 6.0, 0.0, 1.0, 2),
    ]));
    let outer = Hittable::BvhNode(BvhNode::new(vec![
        Hittable::Translate(Translate::new(vec(10.0, 0.0, 0.0), inner)),
        Hittable::Quad(Quad::new(vec(-1.0, -1.0, 5.0), vec(2.0, 0.0, 0.0), vec(0.0, 2.0, 0.0), 3)),
        Hittable::Hittables(Hittables::new(vec![ball(0.0, 0.0, 0.0, 1.0, 4)])),
    ]));
    assert!(outer.valid());
    let mut s = sampler(&[0.5]);
    assert_eq!(outer.hit(&along_z(10.0, 3.0), &ahead(), &mut s).unwrap().material, 1);
    assert_eq!(outer.hit(&along_z(0.0, 0.0), &ahead(), &mut s).unwrap().material, 4);
    assert_eq!(outer.hit(&along_z(0.9, 0.9), &ahead(), &mut s).unwrap().material, 3);
    assert!(outer.hit(&along_z(5.0, 5.0), &ahead(), &mut s).is_none());
}

#[test]
fn gamma_and_bytes() {
    assert_eq!(value(linear_to_gamma(num(0.25))), 0.5);
    assert_eq!(value(linear_to_gamma(num(0.0))), 0.0);
    assert_eq!(value(linear_to_gamma(num(-4.0))), 0.0);
    assert_eq!(value(linear_to_gamma(num(f64::NAN))), 0.0);
    assert_eq!(channel_byte(num(0.0)), 0);
    assert_eq!(channel_byte(num(-1.0)), 0);
    assert_eq!(channel_byte(num(0.25)), 128);
    assert_eq!(channel_byte(num(1.0)), 255);
    assert_eq!(channel_byte(num(100.0)), 255);
    assert_eq!(channel_byte(num(f64::INFINITY)), 255);
    assert_eq!(channel_byte(num(f64::NAN)), 0);
    for i in 0..=1000 {
        let x = i as f64 / 1000.0;
        let expected = (256.0 * x.sqrt().clamp(0.0, 0.999)) as u8;
        assert_eq!(channel_byte(num(x)), expected, "channel {}", x);
    }
}

#[test]
fn decimal_digits() {
    for n in [0u64, 7, 9, 10, 42, 99, 100, 255, 1000, 4294967295, u64::MAX] {
        let mut out = vec![b'x'];
        push_decimal(&mut out, n);
        assert_eq!(String::from_utf8(out).unwrap(), format!("x{}", n));
    }
}

#[test]
fn color_lines_and_header() {
    let mut out = Vec::new();
    write_header(&mut out, 400, 225);
    assert_eq!(String::from_utf8(out).unwrap(), "P3\n400 225\n255\n");
    let mut out = Vec::new();
    write_color(&mut out, &vec(1.0, 0.25, 0.0));
    write_color(&mut out, &vec(0.01, 0.5, 7.0));
    assert_eq!(String::from_utf8(out).unwrap(), "255 128 0\n25 181 255\n");
    let mut out = b"a\n".to_vec();
    write_row(&mut out, &vec![vec(4.0, 1.0, 0.0), vec(0.0, 0.0, 16.0)], num(0.25));
    assert_eq!(String::from_utf8(out).unwrap(), "a\n255 128 0\n0 0 255\n");
}

#[test]
fn picture_height_from_width_and_ratio() {
    assert_eq!(image_height(400, num(16.0 / 9.0)), 225);
    assert_eq!(image_height(400, num(1.0)), 400);
    assert_eq!(image_height(1, num(16.0 / 9.0)), 1);
    assert_eq!(image_height(0, num(1.0)), 1);
    assert_eq!(image_height(100, num(0.0)), u64::MAX);
    assert_eq!(image_height(10_000_000_000, num(2.0)), 5_000_000_000);
    assert_eq!(image_height(100, num(f64::NAN)), 1);
    assert_eq!(image_height(100, num(-1.0)), 1);
}

fn plain_camera(width: u64) -> Camera {
    Camera::new(
        num(1.0),
        width,
        num(90.0),
        vec(0.0, 0.0, 0.0),
        vec(0.0, 0.0, -1.0),
        vec(0.0, 1.0, 0.0),
        num(0.0),
    )
}

#[test]
fn camera_frame() {
    let c = plain_camera(100);
    assert_eq!(c.image_width, 100);
    assert_eq!(c.image_height, 100);
    assert_eq!(c.samples_per_pixel, 80);
    assert_eq!(c.max_depth, 2);
    assert_eq!(value(c.pixel_samples_scale), 1.0 / 80.0);
    assert_eq!(parts(c.camera_center), (0.0, 0.0, 0.0));
    // The viewport is 20 high and wide at the distance 10.
    let (dx, dy, dz) = parts(c.pixel_delta_u);
    assert!((dx - 0.2).abs() < 1e-12 && dy.abs() < 1e-12 && dz.abs() < 1e-12);
    let (dx, dy, dz) = parts(c.pixel_delta_v);
    assert!(dx.abs() < 1e-12 && (dy + 0.2).abs() < 1e-12 && dz.abs() < 1e-12);
    let (x, y, z) = parts(c.pixel00_loc);
    assert!((x + 9.9).abs() < 1e-12 && (y - 9.9).abs() < 1e-12 && (z + 10.0).abs() < 1e-12);
    assert_eq!(parts(c.defocus_disc_u), (0.0, 0.0, 0.0));
    let q = c.with_quality(4, 7);
    assert_eq!(q.samples_per_pixel, 4);
    assert_eq!(q.max_depth, 7);
    assert_eq!(value(q.pixel_samples_scale), 0.25);
    assert_eq!(q.image_width, 100);
}

#[test]
fn camera_rays_aim_at_their_pixel() {
    let c = plain_camera(100);
    let mut s = sampler(&[0.5, 0.5, 0.75]);
    let ray = c.get_ray(num(0.0), num(0.0), &mut s);
    assert_eq!(parts(ray.origin), (0.0, 0.0, 0.0));
    let (x, y, z) = parts(ray.direction);
    assert!((x + 9.9).abs() < 1e-12 && (y - 9.9).abs() < 1e-12 && (z + 10.0).abs() < 1e-12);
    assert_eq!(value(ray.tm), 0.75);
    assert_eq!(s.next, 0);
    let mut s = sampler(&[0.0, 0.999, 0.25]);
    let ray = c.get_ray(num(99.0), num(50.0), &mut s);
    let (x, y, _) = parts(ray.direction);
    assert!((x - (-9.9 + 0.2 * 98.5)).abs() < 1e-12);
    assert!((y - (9.9 - 0.2 * 50.499)).abs() < 1e-12);
    assert_eq!(parts(Camera::sample_square(&mut sampler(&[0.25, 0.75]))), (-0.25, 0.25, 0.0));
}

#[test]
fn camera_with_an_open_lens_starts_rays_on_the_lens() {
    let c = Camera::new(
        num(1.0),
        100,
        num(90.0),
        vec(0.0, 0.0, 0.0),
        vec(0.0, 0.0, -1.0),
        vec(0.0, 1.0, 0.0),
        num(10.0),
    );
    let radius = 10.0 * (5.0f64).to_radians().tan();
    let (ux, _, _) = parts(c.defocus_disc_u);
    assert!((ux - radius).abs() < 1e-12);
    // The point (0.5, -0.5) of the unit disc.
    let mut s = sampler(&[0.5, 0.5, 0.75, 0.25, 0.125]);
    let ray = c.get_ray(num(50.0), num(50.0), &mut s);
    let (x, y, z) = parts(ray.origin);
    assert!((x - 0.5 * radius).abs() < 1e-12 && (y + 0.5 * radius).abs() < 1e-12 && z == 0.0);
    assert_eq!(value(ray.tm), 0.125);
    let p = c.defocus_disc_sample(&mut sampler(&[0.75, 0.25]));
    assert!((value(p.x) - 0.5 * radius).abs() < 1e-12);
}

fn lit_scene(hierarchy: bool) -> Scene {
    let materials = vec![
        Material::Lambertian(Lambertian::new(solid(0.5, 0.5, 0.5))),
        Material::DiffuseLight(DiffuseLight::new(solid(4.0, 4.0, 4.0))),
        Material::Metal(Metal::new(vec(0.8, 0.8, 0.8), num(0.1))),
        Material::Isotropic(Isotropic::new(solid(1.0, 1.0, 1.0))),
    ];
    let objects = vec![
        ball(0.0, -1000.0, 0.0, 1000.0, 0),
        Hittable::Quad(Quad::new(vec(-1.0, 3.0, -1.0), vec(2.0, 0.0, 0.0), vec(0.0, 0.0, 2.0), 1)),
        ball(2.0, 0.5, 0.0, 0.5, 2),
        ball(-2.0, 0.5, 0.0, 0.5, 0),
    ];
    let world = if hierarchy {
        Hittable::BvhNode(BvhNode::new(objects))
    } else {
        Hittable::Hittables(Hittables::new(objects))
    };
    Scene::new(world, materials).unwrap()
}

fn scene_camera(width: u64, samples: u64, depth: u16) -> Camera {
    Camera::new(
        num(1.0),
        width,
        num(60.0),
        vec(0.0, 2.0, 8.0),
        vec(0.0, 1.0, 0.0),
        vec(0.0, 1.0, 0.0),
        num(0.0),
    )
    .with_quality(samples, depth)
}

#[test]
fn ray_color_of_a_lamp_and_of_nothing() {
    let scene = lit_scene(false);
    let mut s = sampler(&[0.5]);
    let up = Ray::new(vec(0.0, 1.0, 0.0), vec(0.0, 1.0, 0.0));
    assert_eq!(parts(Camera::ray_color(&up, 5, &scene, &mut s)), (4.0, 4.0, 4.0));
    assert_eq!(parts(Camera::ray_color(&up, 0, &scene, &mut s)), (0.0, 0.0, 0.0));
    let away = Ray::new(vec(0.0, 5.0, 0.0), vec(0.0, 1.0, 0.0));
    assert_eq!(parts(Camera::ray_color(&away, 5, &scene, &mut s)), (0.0, 0.0, 0.0));
    assert_eq!(s.next, 0);
}

#[test]
fn ray_color_follows_one_bounce_to_the_lamp() {
    let scene = lit_scene(false);
    // The ray hits the ground under the lamp; the random unit vector (0, 1, 0) sends it straight up.
    let mut s = sampler(&[0.5, 0.9, 0.5]);
    let down = Ray::new(vec(0.0, 1.0, 0.0), vec(0.0, -1.0, 0.0));
    let c = Camera::ray_color(&down, 2, &scene, &mut s);
    assert_eq!(parts(c), (2.0, 2.0, 2.0));
    let mut s = sampler(&[0.5, 0.9, 0.5]);
    assert_eq!(parts(Camera::ray_color(&down, 1, &scene, &mut s)), (0.0, 0.0, 0.0));
}

#[test]
fn pixel_sums_its_samples() {
    let scene = lit_scene(false);
    let c = scene_camera(8, 3, 2);
    let draws: Vec<f64> = (0..97).map(|i| (i as f64 * 0.618033988749895) % 1.0).collect();
    let mut s = sampler(&draws);
    let sum = c.pixel_with(&scene, 4, 1, &mut s);
    let mut s = sampler(&draws);
    let mut expected = Vec3::zero();
    for _ in 0..3 {
        let ray = c.get_ray(num(4.0), num(1.0), &mut s);
        expected = expected.add(Camera::ray_color(&ray, 2, &scene, &mut s));
    }
    assert_eq!(parts(sum), parts(expected));
}

fn picture(text: &[u8]) -> (usize, usize, Vec<(u32, u32, u32)>) {
    let text = String::from_utf8(text.to_vec()).unwrap();
    let mut lines = text.lines();
    assert_eq!(lines.next(), Some("P3"));
    let size: Vec<usize> = lines.next().unwrap().split(' ').map(|x| x.parse().unwrap()).collect();
    assert_eq!(lines.next(), Some("255"));
    let pixels: Vec<(u32, u32, u32)> = lines
        .map(|l| {
            let c: Vec<u32> = l.split(' ').map(|x| x.parse().unwrap()).collect();
            assert_eq!(c.len(), 3);
            assert!(c.iter().all(|x| *x <= 255));
            (c[0], c[1], c[2])
        })
        .collect();
    assert!(text.ends_with('\n'));
    (size[0], size[1], pixels)
}

#[test]
fn scenario_lit_ground_is_brighter_under_the_lamp() {
    let materials = vec![
        Material::Lambertian(Lambertian::new(solid(0.8, 0.8, 0.8))),
        Material::DiffuseLight(DiffuseLight::new(solid(8.0, 8.0, 8.0))),
    ];
    let objects = vec![
        ball(0.0, -1000.0, 0.0, 1000.0, 0),
        Hittable::Quad(Quad::new(vec(-1.0, 2.0, -1.0), vec(2.0, 0.0, 0.0), vec(0.0, 0.0, 2.0), 1)),
    ];
    let scene = Scene::new(Hittable::Hittables(Hittables::new(objects)), materials).unwrap();
    // The camera looks straight down on the ground from above the lamp's rim.
    let camera = Camera::new(
        num(1.0),
        12,
        num(90.0),
        vec(0.0, 1.5, 0.0),
        vec(0.0, 0.0, 0.0),
        vec(0.0, 0.0, -1.0),
        num(0.0),
    )
    .with_quality(24, 2);
    let mut rng = Rng::seeded(2024);
    let (w, h, pixels) = picture(&camera.render(&scene, &mut rng));
    assert_eq!((w, h), (12, 12));
    assert_eq!(pixels.len(), 144);
    assert!(pixels.iter().any(|p| p.0 > 0));
    let brightness = |x: usize, y: usize| pixels[y * 12 + x].0 as f64;
    let mut near = 0.0;
    let mut far = 0.0;
    for y in 0..12 {
        for x in 0..12 {
            let inner = (4..8).contains(&x) && (4..8).contains(&y);
            let outer = x < 2 || x >= 10 || y < 2 || y >= 10;
            if inner {
                near += brightness(x, y) / 16.0;
            } else if outer {
                far += brightness(x, y) / 80.0;
            }
        }
    }
    assert!(near > far + 10.0, "near {} far {}", near, far);
}

#[test]
fn scenario_same_seed_same_bytes() {
    let scene = lit_scene(true);
    let camera = scene_camera(10, 4, 3);
    let first = camera.render(&scene, &mut Rng::seeded(7));
    let second = camera.render(&scene, &mut Rng::seeded(7));
    let other = camera.render(&scene, &mut Rng::seeded(8));
    assert_eq!(first, second);
    assert_ne!(first, other);
    let (w, h, pixels) = picture(&first);
    assert_eq!((w, h, pixels.len()), (10, 10, 100));
    assert!(pixels.iter().any(|p| *p != (0, 0, 0)));
}

#[test]
fn scenario_hierarchy_and_list_give_the_same_picture() {
    let camera = scene_camera(10, 4, 3);
    let flat = camera.render(&lit_scene(false), &mut Rng::seeded(99));
    let tree = camera.render(&lit_scene(true), &mut Rng::seeded(99));
    assert_eq!(flat, tree);
    let (_, _, pixels) = picture(&flat);
    assert!(pixels.iter().any(|p| *p != (0, 0, 0)));
}

#[test]
fn rows_are_put_in_order_whatever_order_they_come_in() {
    let scene = lit_scene(false);
    let camera = scene_camera(6, 2, 2);
    let mut rows: Vec<(u64, Vec<Vec3>)> = Vec::new();
    for row in 0..camera.image_height {
        let mut rng = Rng::seeded(1000 + row);
        let pixels = camera.render_row(&scene, row, &mut rng);
        assert_eq!(pixels.len(), 6);
        rows.push((row, pixels));
    }
    let in_order = camera.assemble(&rows);
    rows.reverse();
    rows.swap(1, 4);
    let shuffled = camera.assemble(&rows);
    assert_eq!(in_order, shuffled);
    let (w, h, pixels) = picture(&in_order);
    assert_eq!((w, h, pixels.len()), (6, 6, 36));
    let mut expected = Vec::new();
    write_header(&mut expected, 6, 6);
    rows.sort_by_key(|r| r.0);
    for (_, pixels) in rows.iter() {
        write_row(&mut expected, pixels, camera.pixel_samples_scale);
    }
    assert_eq!(in_order, expected);
}

#[test]
fn smoke_in_a_scene_is_rendered() {
    let materials = vec![
        Material::DiffuseLight(DiffuseLight::new(solid(4.0, 4.0, 4.0))),
        Material::Isotropic(Isotropic::new(solid(0.9, 0.9, 0.9))),
    ];
    let objects = vec![
        Hittable::Quad(Quad::new(vec(-5.0, -5.0, -6.0), vec(10.0, 0.0, 0.0), vec(0.0, 10.0, 0.0), 0)),
        Hittable::ConstantMedium(ConstantMedium::new(ball(0.0, 0.0, -2.0, 1.0, 0), 1, num(2.0))),
    ];
    let scene = Scene::new(Hittable::BvhNode(BvhNode::new(objects)), materials).unwrap();
    let camera = Camera::new(
        num(1.0),
        8,
        num(60.0),
        vec(0.0, 0.0, 3.0),
        vec(0.0, 0.0, 0.0),
        vec(0.0, 1.0, 0.0),
        num(0.0),
    )
    .with_quality(8, 4);
    let a = camera.render(&scene, &mut Rng::seeded(5));
    let b = camera.render(&scene, &mut Rng::seeded(5));
    assert_eq!(a, b);
    let (_, _, pixels) = picture(&a);
    // The corners see the lamp directly; the middle sees it through the smoke.
    assert_eq!(pixels[0], (255, 255, 255));
    assert!(pixels.iter().any(|p| p.0 < 255));
}

#[test]
fn block_has_six_sides() {
    let block = box3(vec(3.0, 2.0, 1.0), vec(1.0, 0.0, -1.0), 7);
    assert_eq!(block.objects.len(), 6);
    // The box of each side is padded where the side is flat, so the box of the block is a
    // little larger than the block.
    let expected = [(1.0, 3.0), (0.0, 2.0), (-1.0, 1.0)];
    for (got, want) in box_bounds(block.bbox).iter().zip(expected.iter()) {
        assert!(got.0 <= want.0 && want.0 - got.0 < 0.0002, "{:?} {:?}", got, want);
        assert!(got.1 >= want.1 && got.1 - want.1 < 0.0002, "{:?} {:?}", got, want);
    }
    let block = Hittable::Hittables(block);
    assert!(block.valid());
    let mut s = sampler(&[0.5]);
    // From the front, from above and from the left the nearest side is met.
    let front = Ray::new(vec(2.0, 1.0, 10.0), vec(0.0, 0.0, -1.0));
    let hit = block.hit(&front, &ahead(), &mut s).unwrap();
    assert_eq!(value(hit.t), 9.0);
    assert_eq!(parts(hit.normal), (0.0, 0.0, 1.0));
    assert_eq!(hit.material, 7);
    let above = Ray::new(vec(2.0, 10.0, 0.0), vec(0.0, -1.0, 0.0));
    let hit = block.hit(&above, &ahead(), &mut s).unwrap();
    assert_eq!(value(hit.t), 8.0);
    assert_eq!(parts(hit.normal), (0.0, 1.0, 0.0));
    let left = Ray::new(vec(-10.0, 1.0, 0.0), vec(1.0, 0.0, 0.0));
    let hit = block.hit(&left, &ahead(), &mut s).unwrap();
    assert_eq!(value(hit.t), 11.0);
    assert_eq!(parts(hit.normal), (-1.0, 0.0, 0.0));
    // From inside, the side ahead is met from behind.
    let inside = Ray::new(vec(2.0, 1.0, 0.0), vec(1.0, 0.0, 0.0));
    let hit = block.hit(&inside, &ahead(), &mut s).unwrap();
    assert_eq!(value(hit.t), 1.0);
    assert!(!hit.front_face);
    let beside = Ray::new(vec(5.0, 1.0, 10.0), vec(0.0, 0.0, -1.0));
    assert!(block.hit(&beside, &ahead(), &mut s).is_none());
}

#[test]
fn turned_and_moved_block_in_a_hierarchy() {
    let block = Hittable::Hittables(box3(vec(0.0, 0.0, 0.0), vec(2.0, 2.0, 2.0), 1));
    let placed = Hittable::Translate(Translate::new(
        vec(10.0, 0.0, 0.0),
        Hittable::RotateY(RotateY::new(num(45.0), block)),
    ));
    let world = Hittable::BvhNode(BvhNode::new(vec![
        placed,
        ball(0.0, 1.0, 0.0, 1.0, 0),
        ball(-10.0, 1.0, 0.0, 1.0, 2),
    ]));
    assert!(world.valid());
    let mut s = sampler(&[0.5]);
    // Seen from above, the turned block is a square on a corner, with corners at
    // x = 10, 10 + sqrt 2 (twice, at z = sqrt 2 and z = -sqrt 2) and 10 + sqrt 8.
    let root = (2.0f64).sqrt();
    let expected = 20.0 - root + 0.3;
    let ray = Ray::new(vec(10.0 + root + 0.3, 1.0, 20.0), vec(0.0, 0.0, -1.0));
    let hit = world.hit(&ray, &ahead(), &mut s).unwrap();
    assert_eq!(hit.material, 1);
    assert!((value(hit.t) - expected).abs() < 1e-9, "{}", value(hit.t));
    let (nx, ny, nz) = parts(hit.normal);
    assert!((nx - root / 2.0).abs() < 1e-9 && ny == 0.0 && (nz - root / 2.0).abs() < 1e-9);
    let ray = Ray::new(vec(10.0 + root + 0.3, 1.0, -20.0), vec(0.0, 0.0, 1.0));
    let hit = world.hit(&ray, &ahead(), &mut s).unwrap();
    assert!((value(hit.t) - expected).abs() < 1e-9, "{}", value(hit.t));
    let beyond = Ray::new(vec(10.0 + 2.0 * root + 0.1, 1.0, 20.0), vec(0.0, 0.0, -1.0));
    assert!(world.hit(&beyond, &ahead(), &mut s).is_none());
    let middle = Ray::new(vec(0.0, 1.0, 20.0), vec(0.0, 0.0, -1.0));
    assert_eq!(world.hit(&middle, &ahead(), &mut s).unwrap().material, 0);
    let far = Ray::new(vec(-10.0, 1.0, 20.0), vec(0.0, 0.0, -1.0));
    assert_eq!(world.hit(&far, &ahead(), &mut s).unwrap().material, 2);
}

#[test]
fn list_pads_a_thin_first_box_that_the_hierarchy_keeps() {
    // A sphere without radius has a box that padding has made not quite as thick as padding
    // makes a box: the list pads it once more.
    let dot = || ball(3.0, 3.0, 3.0, 0.0, 0);
    assert!(!dot().bounding_box().settled());
    let tree = BvhNode::new(vec![dot()]);
    let list = Hittables::new(vec![dot()]);
    assert_eq!(bounds(tree.bbox.x), (2.99995, 3.00005));
    assert_eq!(bounds(list.bbox.x), (2.9999000000000002, 3.0000999999999998));
    // With three objects both take the box round all of them in the same way.
    let three = || vec![dot(), ball(0.0, 0.0, 0.0, 1.0, 0), ball(5.0, 0.0, 0.0, 1.0, 0)];
    assert_eq!(box_bounds(BvhNode::new(three()).bbox), box_bounds(Hittables::new(three()).bbox));
}

#[test]
fn picture_is_a_function_of_its_random_numbers() {
    let scene = lit_scene(true);
    let camera = scene_camera(5, 3, 3);
    let tables = |seed: u64| -> Vec<Sampler> {
        let mut rng = Rng::seeded(seed);
        (0..camera.image_height).map(|_| Sampler::draw(&mut rng, 4000)).collect()
    };
    let first = camera.render_with(&scene, tables(31));
    let second = camera.render_with(&scene, tables(31));
    let other = camera.render_with(&scene, tables(32));
    assert_eq!(first, second);
    assert_ne!(first, other);
    // The same rows, made from the top down and written in that order.
    let mut expected = Vec::new();
    write_header(&mut expected, 5, 5);
    let mut samplers = tables(31);
    for row in 0..camera.image_height {
        let pixels = camera.row_with(&scene, row, &mut samplers[row as usize]);
        assert_eq!(pixels.len(), 5);
        write_row(&mut expected, &pixels, camera.pixel_samples_scale);
    }
    assert_eq!(first, expected);
    // A row is the pixels from left to right, each continuing where the last stopped.
    let mut s = tables(31).remove(2);
    let row = camera.row_with(&scene, 2, &mut s);
    let mut t = tables(31).remove(2);
    for col in 0..5u64 {
        let pixel = camera.pixel_with(&scene, col, 2, &mut t);
        assert_eq!(parts(pixel), parts(row[col as usize]));
    }
    assert_eq!(s.next, t.next);
}

#[test]
fn row_keys_rise_with_the_numbers() {
    assert_eq!(row_key(0), i64::MIN);
    assert_eq!(row_key(1), i64::MIN + 1);
    assert_eq!(row_key(0x8000_0000_0000_0000), 0);
    assert_eq!(row_key(u64::MAX), i64::MAX);
    assert!(row_key(7) < row_key(8));
}
