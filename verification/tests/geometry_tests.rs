use pathtrace::aabb::AABB;
use pathtrace::hitrecord::HitRecord;
use pathtrace::interval::Interval;
use pathtrace::quad::Quad;
use pathtrace::ray::Ray;
use pathtrace::scalar::Real;
use pathtrace::sphere::{get_sphere_uv, Sphere};
use pathtrace::vec3::{cross, dot, Vec3};

fn num(x: f64) -> Real {
    Real::from_bits(x.to_bits())
}

fn value(r: Real) -> f64 {
    f64::from_bits(r.to_bits())
}

fn vec(x: f64, y: f64, z: f64) -> Vec3 {
    Vec3::new(num(x), num(y), num(z))
}

fn parts(v: Vec3) -> (f64, f64, f64) {
    (value(v.x), value(v.y), value(v.z))
}

fn range(min: f64, max: f64) -> Interval {
    Interval::new(num(min), num(max))
}

fn bounds(i: Interval) -> (f64, f64) {
    (value(i.min), value(i.max))
}

#[test]
fn vector_arithmetic_is_componentwise() {
    let a = vec(1.0, 2.0, 3.0);
    let b = vec(4.0, -5.0, 6.0);
    assert_eq!(parts(a.add(b)), (5.0, -3.0, 9.0));
    assert_eq!(parts(a.sub(b)), (-3.0, 7.0, -3.0));
    assert_eq!(parts(a.mul(b)), (4.0, -10.0, 18.0));
    assert_eq!(parts(a.scale(num(2.0))), (2.0, 4.0, 6.0));
    assert_eq!(parts(a.scaled_by(num(-2.0))), (-2.0, -4.0, -6.0));
    assert_eq!(parts(a.div(num(2.0))), (0.5, 1.0, 1.5));
    assert_eq!(parts(a.neg()), (-1.0, -2.0, -3.0));
    assert_eq!(parts(Vec3::zero()), (0.0, 0.0, 0.0));
}

#[test]
fn dot_and_cross_products() {
    let a = vec(1.0, 2.0, 3.0);
    let b = vec(4.0, -5.0, 6.0);
    assert_eq!(value(dot(&a, &b)), 12.0);
    assert_eq!(parts(cross(&a, &b)), (27.0, 6.0, -13.0));
    assert_eq!(parts(cross(&vec(1.0, 0.0, 0.0), &vec(0.0, 1.0, 0.0))), (0.0, 0.0, 1.0));
}

#[test]
fn lengths_and_unit_vectors() {
    let a = vec(3.0, 4.0, 12.0);
    assert_eq!(value(a.length_squared()), 169.0);
    assert_eq!(value(a.length()), 13.0);
    let n = a.normalized();
    assert_eq!(parts(n), (3.0 / 13.0, 4.0 / 13.0, 12.0 / 13.0));
    let z = Vec3::zero().normalized();
    assert!(value(z.x).is_nan() && value(z.y).is_nan() && value(z.z).is_nan());
}

#[test]
fn near_zero_has_the_threshold_1e_8() {
    assert!(vec(0.0, 0.0, 0.0).near_zero());
    assert!(vec(9e-9, -9e-9, 0.0).near_zero());
    assert!(!vec(1e-8, 0.0, 0.0).near_zero());
    assert!(!vec(0.0, 0.0, -2e-8).near_zero());
    assert!(!vec(f64::NAN, 0.0, 0.0).near_zero());
}

#[test]
fn components_by_axis() {
    let a = vec(1.0, 2.0, 3.0);
    assert_eq!(value(a.component(0)), 1.0);
    assert_eq!(value(a.component(1)), 2.0);
    assert_eq!(value(a.component(2)), 3.0);
    assert_eq!(value(a.component(7)), 3.0);
}

#[test]
fn interval_empty_and_universe() {
    assert_eq!(bounds(Interval::empty()), (f64::INFINITY, f64::NEG_INFINITY));
    assert_eq!(bounds(Interval::universe()), (f64::NEG_INFINITY, f64::INFINITY));
    assert!(!Interval::empty().contains(num(0.0)));
    assert!(Interval::universe().contains(num(1e300)));
    assert!(Interval::universe().surrounds(num(-1e300)));
    assert!(!Interval::universe().surrounds(num(f64::INFINITY)));
    assert!(Interval::universe().contains(num(f64::INFINITY)));
}

#[test]
fn interval_contains_is_closed_and_surrounds_is_open() {
    let i = range(1.0, 2.0);
    assert!(i.contains(num(1.0)) && i.contains(num(2.0)) && i.contains(num(1.5)));
    assert!(!i.contains(num(0.999)) && !i.contains(num(2.001)));
    assert!(!i.surrounds(num(1.0)) && !i.surrounds(num(2.0)) && i.surrounds(num(1.5)));
    assert!(!i.contains(num(f64::NAN)) && !i.surrounds(num(f64::NAN)));
}

#[test]
fn interval_clamp_size_expand_and_shift() {
    let i = range(1.0, 2.0);
    assert_eq!(value(i.clamp(num(0.0))), 1.0);
    assert_eq!(value(i.clamp(num(3.0))), 2.0);
    assert_eq!(value(i.clamp(num(1.25))), 1.25);
    assert_eq!(value(i.size()), 1.0);
    assert_eq!(bounds(i.expand(num(1.0))), (0.5, 2.5));
    assert_eq!(bounds(i.add(num(3.0))), (4.0, 5.0));
    assert_eq!(bounds(i.added_to(num(-1.0))), (0.0, 1.0));
}

#[test]
fn interval_union_is_the_tightest_enclosure() {
    let a = range(1.0, 3.0);
    let b = range(-2.0, 2.0);
    let u = Interval::from_intervals(&a, &b);
    assert_eq!(bounds(u), (-2.0, 3.0));
    for x in [-2.0, -1.0, 1.0, 2.0, 3.0] {
        assert!(u.contains(num(x)));
    }
    assert!(!u.contains(num(-2.0000001)) && !u.contains(num(3.0000001)));
    assert_eq!(bounds(Interval::from_intervals(&a, &Interval::empty())), (1.0, 3.0));
    assert_eq!(bounds(Interval::from_intervals(&Interval::empty(), &a)), (1.0, 3.0));
    assert_eq!(bounds(Interval::from_intervals(&b, &a)), (-2.0, 3.0));
}

#[test]
fn interval_padding_widens_thin_intervals_only() {
    assert_eq!(bounds(Interval::new_padded(num(1.0), num(2.0))), (1.0, 2.0));
    assert_eq!(
        bounds(Interval::new_padded(num(1.0), num(1.0))),
        (1.0 - 0.0001 / 2.0, 1.0 + 0.0001 / 2.0)
    );
    assert_eq!(
        bounds(Interval::new_padded(num(5.0), num(5.00001))),
        (5.0 - 0.0001 / 2.0, 5.00001 + 0.0001 / 2.0)
    );
    let thin = Interval::from_intervals_padded(&range(2.0, 2.0), &range(2.0, 2.0));
    assert_eq!(bounds(thin), (2.0 - 0.00005, 2.0 + 0.00005));
    let wide = Interval::from_intervals_padded(&range(0.0, 1.0), &range(3.0, 4.0));
    assert_eq!(bounds(wide), (0.0, 4.0));
}

#[test]
fn box_from_points_in_either_order() {
    let a = AABB::from_points(&vec(1.0, 5.0, -3.0), &vec(4.0, 2.0, 3.0));
    let b = AABB::from_points(&vec(4.0, 2.0, 3.0), &vec(1.0, 5.0, -3.0));
    for bx in [a, b] {
        assert_eq!(bounds(bx.x), (1.0, 4.0));
        assert_eq!(bounds(bx.y), (2.0, 5.0));
        assert_eq!(bounds(bx.z), (-3.0, 3.0));
    }
    let flat = AABB::from_points(&vec(0.0, 1.0, 0.0), &vec(2.0, 1.0, 2.0));
    assert_eq!(bounds(flat.y), (1.0 - 0.00005, 1.0 + 0.00005));
}

#[test]
fn box_union_axes_and_longest_axis() {
    let a = AABB::new(range(0.0, 1.0), range(0.0, 2.0), range(0.0, 3.0));
    let b = AABB::new(range(-5.0, 0.5), range(1.0, 2.5), range(1.0, 2.0));
    let u = AABB::from_aabb(&a, &b);
    assert_eq!(bounds(u.x), (-5.0, 1.0));
    assert_eq!(bounds(u.y), (0.0, 2.5));
    assert_eq!(bounds(u.z), (0.0, 3.0));
    assert_eq!(bounds(u.axis_interval(0)), (-5.0, 1.0));
    assert_eq!(bounds(u.axis_interval(1)), (0.0, 2.5));
    assert_eq!(bounds(u.axis_interval(2)), (0.0, 3.0));
    assert_eq!(bounds(u.axis_interval(9)), (-5.0, 1.0));
    assert_eq!(a.longest_axis(), 2);
    assert_eq!(u.longest_axis(), 0);
    assert_eq!(AABB::new(range(0.0, 1.0), range(0.0, 4.0), range(0.0, 3.0)).longest_axis(), 1);
    assert_eq!(AABB::new(range(0.0, 1.0), range(0.0, 1.0), range(0.0, 1.0)).longest_axis(), 0);
    assert_eq!(AABB::new(range(0.0, 1.0), range(0.0, 2.0), range(0.0, 2.0)).longest_axis(), 2);
    assert_eq!(AABB::new(range(0.0, 2.0), range(0.0, 2.0), range(0.0, 1.0)).longest_axis(), 1);
    assert_eq!(AABB::new(range(0.0, 2.0), range(0.0, 1.0), range(0.0, 2.0)).longest_axis(), 2);
    let e = AABB::empty();
    assert_eq!(bounds(e.x), (f64::INFINITY, f64::NEG_INFINITY));
    let same = AABB::from_aabb(&AABB::empty(), &a);
    assert_eq!(bounds(same.x), (0.0, 1.0));
    assert_eq!(bounds(same.z), (0.0, 3.0));
}

#[test]
fn box_moves_with_a_vector() {
    let a = AABB::new(range(0.0, 1.0), range(0.0, 2.0), range(0.0, 3.0));
    let m = a.add(vec(1.0, 10.0, 100.0));
    assert_eq!(bounds(m.x), (1.0, 2.0));
    assert_eq!(bounds(m.y), (10.0, 12.0));
    assert_eq!(bounds(m.z), (100.0, 103.0));
    let n = a.added_to(vec(-1.0, 0.0, 1.0));
    assert_eq!(bounds(n.x), (-1.0, 0.0));
    assert_eq!(bounds(n.z), (1.0, 4.0));
}

#[test]
fn slab_test_of_a_box() {
    let b = AABB::new(range(-1.0, 1.0), range(-1.0, 1.0), range(-1.0, 1.0));
    let toward = Ray::new(vec(0.0, 0.0, -5.0), vec(0.0, 0.0, 1.0));
    let away = Ray::new(vec(0.0, 0.0, -5.0), vec(0.0, 0.0, -1.0));
    let beside = Ray::new(vec(3.0, 0.0, -5.0), vec(0.0, 0.0, 1.0));
    let slanted = Ray::new(vec(-5.0, -5.0, -5.0), vec(1.0, 1.0, 1.0));
    let all = range(0.001, f64::INFINITY);
    assert!(b.hit(&toward, &all));
    assert!(!b.hit(&away, &all));
    assert!(!b.hit(&beside, &all));
    assert!(b.hit(&slanted, &all));
    assert!(!b.hit(&toward, &range(0.001, 3.9)));
    assert!(b.hit(&toward, &range(0.001, 4.1)));
    assert!(!b.hit(&toward, &range(6.1, 100.0)));
    let cut = b.slab(&toward, 2, all);
    assert_eq!(bounds(cut), (4.0, 6.0));
}

#[test]
fn ray_points_along_its_direction() {
    let r = Ray::new2(vec(1.0, 2.0, 3.0), vec(0.0, -1.0, 2.0), num(0.25));
    assert_eq!(parts(r.at(num(2.0))), (1.0, 0.0, 7.0));
    assert_eq!(parts(r.at(num(0.0))), (1.0, 2.0, 3.0));
    assert_eq!(value(r.tm), 0.25);
    assert_eq!(value(Ray::new(vec(0.0, 0.0, 0.0), vec(1.0, 0.0, 0.0)).tm), 0.0);
}

#[test]
fn hit_record_turns_the_normal_against_the_ray() {
    let ray = Ray::new(vec(0.0, 0.0, -5.0), vec(0.0, 0.0, 1.0));
    let p = vec(0.0, 0.0, -1.0);
    let front = HitRecord::new(&ray, p, vec(0.0, 0.0, -1.0), num(4.0), num(0.1), num(0.2), 3);
    assert!(front.front_face);
    assert_eq!(parts(front.normal), (0.0, 0.0, -1.0));
    let back = HitRecord::new(&ray, p, vec(0.0, 0.0, 1.0), num(4.0), num(0.1), num(0.2), 3);
    assert!(!back.front_face);
    assert_eq!(parts(back.normal), (-0.0, -0.0, -1.0));
    assert_eq!(back.material, 3);
    assert_eq!(value(back.t), 4.0);
    let plain = HitRecord::new2(p, num(2.0), num(0.0), num(0.0), 5);
    assert!(plain.front_face);
    assert_eq!(parts(plain.normal), (1.0, 0.0, 0.0));
    assert_eq!(plain.material, 5);
}

#[test]
fn sphere_surface_coordinates() {
    let cases = [
        ((1.0, 0.0, 0.0), (0.5, 0.5)),
        ((-1.0, 0.0, 0.0), (0.0, 0.5)),
        ((0.0, 1.0, 0.0), (0.5, 1.0)),
        ((0.0, -1.0, 0.0), (0.5, 0.0)),
        ((0.0, 0.0, 1.0), (0.25, 0.5)),
        ((0.0, 0.0, -1.0), (0.75, 0.5)),
    ];
    for ((x, y, z), (u, v)) in cases {
        let (gu, gv) = get_sphere_uv(vec(x, y, z));
        assert!((value(gu) - u).abs() < 1e-12, "u of {} {} {}", x, y, z);
        assert!((value(gv) - v).abs() < 1e-12, "v of {} {} {}", x, y, z);
    }
}

#[test]
fn sphere_hit_from_outside() {
    let s = Sphere::new(vec(0.0, 0.0, 0.0), num(1.0), 7);
    let ray = Ray::new(vec(0.0, 0.0, -5.0), vec(0.0, 0.0, 1.0));
    let hit = s.hit(&ray, &range(0.001, f64::INFINITY)).unwrap();
    assert_eq!(value(hit.t), 4.0);
    assert_eq!(parts(hit.p), (0.0, 0.0, -1.0));
    assert_eq!(parts(hit.normal), (0.0, 0.0, -1.0));
    assert!(hit.front_face);
    assert_eq!(hit.material, 7);
    assert!((value(hit.u) - 0.75).abs() < 1e-12);
    assert!((value(hit.v) - 0.5).abs() < 1e-12);
}

#[test]
fn sphere_hit_takes_the_far_root_when_the_near_one_is_out() {
    let s = Sphere::new(vec(0.0, 0.0, 0.0), num(1.0), 0);
    let ray = Ray::new(vec(0.0, 0.0, -5.0), vec(0.0, 0.0, 1.0));
    let far = s.hit(&ray, &range(4.5, 100.0)).unwrap();
    assert_eq!(value(far.t), 6.0);
    assert!(!far.front_face);
    assert_eq!(parts(far.normal), (-0.0, -0.0, -1.0));
    assert!(s.hit(&ray, &range(4.0, 6.0)).is_none());
    assert!(s.hit(&ray, &range(6.5, 100.0)).is_none());
    assert!(s.hit(&ray, &range(0.001, 3.999)).is_none());
    let inside = Ray::new(vec(0.0, 0.0, 0.0), vec(0.0, 1.0, 0.0));
    let out = s.hit(&inside, &range(0.001, f64::INFINITY)).unwrap();
    assert_eq!(value(out.t), 1.0);
    assert!(!out.front_face);
}

#[test]
fn sphere_missed() {
    let s = Sphere::new(vec(0.0, 0.0, 0.0), num(1.0), 0);
    let ray = Ray::new(vec(0.0, 2.0, -5.0), vec(0.0, 0.0, 1.0));
    assert!(s.hit(&ray, &range(0.001, f64::INFINITY)).is_none());
    let behind = Ray::new(vec(0.0, 0.0, 5.0), vec(0.0, 0.0, 1.0));
    assert!(s.hit(&behind, &range(0.001, f64::INFINITY)).is_none());
}

#[test]
fn sphere_round_trip_through_a_known_point() {
    let center = (1.5, -2.0, 4.0);
    let radius = 2.5;
    let s = Sphere::new(vec(center.0, center.1, center.2), num(radius), 0);
    let directions = [(1.0, 0.0, 0.0), (0.0, 1.0, 0.0), (0.6, 0.0, 0.8), (-0.48, 0.6, -0.64)];
    let origin = (20.0, 13.0, -17.0);
    for d in directions {
        let on = (center.0 + radius * d.0, center.1 + radius * d.1, center.2 + radius * d.2);
        let ray = Ray::new(
            vec(origin.0, origin.1, origin.2),
            vec(on.0 - origin.0, on.1 - origin.1, on.2 - origin.2),
        );
        let hit = s.hit(&ray, &range(0.001, f64::INFINITY)).unwrap();
        let (px, py, pz) = parts(hit.p);
        let dist = ((px - center.0).powi(2) + (py - center.1).powi(2) + (pz - center.2).powi(2)).sqrt();
        assert!((dist - radius).abs() < 1e-9, "distance {}", dist);
        assert!(value(hit.t) > 0.001 && value(hit.t) <= 1.0 + 1e-9);
    }
}

#[test]
fn sphere_boxes() {
    let s = Sphere::new(vec(1.0, 2.0, 3.0), num(2.0), 0);
    let b = s.bounding_box();
    assert_eq!(bounds(b.x), (-1.0, 3.0));
    assert_eq!(bounds(b.y), (0.0, 4.0));
    assert_eq!(bounds(b.z), (1.0, 5.0));
    assert_eq!(value(s.radius), 2.0);
    assert_eq!(value(Sphere::new(vec(0.0, 0.0, 0.0), num(-1.0), 0).radius), 0.0);
    let m = Sphere::new_moving(vec(0.0, 0.0, 0.0), vec(10.0, 0.0, 0.0), num(1.0), 2);
    let mb = m.bounding_box();
    assert_eq!(bounds(mb.x), (-1.0, 11.0));
    assert_eq!(bounds(mb.y), (-1.0, 1.0));
    assert_eq!(m.material, 2);
}

#[test]
fn moving_sphere_is_hit_where_it_is_at_the_time_of_the_ray() {
    let m = Sphere::new_moving(vec(0.0, 0.0, 0.0), vec(10.0, 0.0, 0.0), num(1.0), 0);
    let all = range(0.001, f64::INFINITY);
    let early = Ray::new2(vec(0.0, 0.0, -5.0), vec(0.0, 0.0, 1.0), num(0.0));
    let late = Ray::new2(vec(0.0, 0.0, -5.0), vec(0.0, 0.0, 1.0), num(1.0));
    assert_eq!(value(m.hit(&early, &all).unwrap().t), 4.0);
    assert!(m.hit(&late, &all).is_none());
    let half = Ray::new2(vec(5.0, 0.0, -5.0), vec(0.0, 0.0, 1.0), num(0.5));
    assert_eq!(value(m.hit(&half, &all).unwrap().t), 4.0);
}

#[test]
fn quad_hit_and_surface_coordinates() {
    let q = Quad::new(vec(-1.0, -1.0, 0.0), vec(2.0, 0.0, 0.0), vec(0.0, 2.0, 0.0), 4);
    let all = range(0.001, f64::INFINITY);
    let ray = Ray::new(vec(0.5, -0.5, -3.0), vec(0.0, 0.0, 1.0));
    let hit = q.hit(&ray, &all).unwrap();
    assert_eq!(value(hit.t), 3.0);
    assert_eq!(parts(hit.p), (0.5, -0.5, 0.0));
    assert_eq!(value(hit.u), 0.75);
    assert_eq!(value(hit.v), 0.25);
    assert_eq!(hit.material, 4);
    assert!(!hit.front_face);
    assert_eq!(parts(hit.normal), (-0.0, -0.0, -1.0));
    let outside = Ray::new(vec(1.5, 0.0, -3.0), vec(0.0, 0.0, 1.0));
    assert!(q.hit(&outside, &all).is_none());
    let parallel = Ray::new(vec(0.0, 0.0, -3.0), vec(1.0, 0.0, 0.0));
    assert!(q.hit(&parallel, &all).is_none());
    assert!(q.hit(&ray, &range(0.001, 2.9)).is_none());
    assert!(q.hit(&ray, &range(3.1, 10.0)).is_none());
    assert!(q.hit(&ray, &range(2.9, 3.1)).is_some());
}

#[test]
fn quad_is_not_hit_on_a_bound_of_the_range() {
    let q = Quad::new(vec(-1.0, -1.0, 0.0), vec(2.0, 0.0, 0.0), vec(0.0, 2.0, 0.0), 4);
    let ray = Ray::new(vec(0.5, -0.5, -3.0), vec(0.0, 0.0, 1.0));
    assert_eq!(value(q.hit(&ray, &range(0.0, 10.0)).unwrap().t), 3.0);
    assert!(q.hit(&ray, &range(3.0, 10.0)).is_none());
    assert!(q.hit(&ray, &range(0.0, 3.0)).is_none());
    assert!(q.hit(&ray, &range(3.0, 3.0)).is_none());
    assert!(q.hit(&ray, &range(2.9999999999999996, 3.0000000000000004)).is_some());
}

#[test]
fn quad_round_trip_at_the_four_corners() {
    let q0 = (1.0, 2.0, 3.0);
    let u = (2.0, 0.0, 0.0);
    let v = (0.0, 4.0, 0.0);
    let quad = Quad::new(vec(q0.0, q0.1, q0.2), vec(u.0, u.1, u.2), vec(v.0, v.1, v.2), 0);
    let origin = (2.0, 4.0, -5.0);
    let corners = [(0.0, 0.0), (1.0, 0.0), (0.0, 1.0), (1.0, 1.0)];
    for (a, b) in corners {
        let target = (q0.0 + a * u.0 + b * v.0, q0.1 + a * u.1 + b * v.1, q0.2 + a * u.2 + b * v.2);
        let ray = Ray::new(
            vec(origin.0, origin.1, origin.2),
            vec(target.0 - origin.0, target.1 - origin.1, target.2 - origin.2),
        );
        let hit = quad.hit(&ray, &range(0.001, f64::INFINITY)).unwrap();
        assert_eq!(value(hit.u), a);
        assert_eq!(value(hit.v), b);
        assert_eq!(value(hit.t), 1.0);
        assert_eq!(parts(hit.p), target);
    }
}

#[test]
fn quad_box_holds_all_four_corners() {
    let q = Quad::new(vec(0.0, 0.0, 0.0), vec(1.0, 1.0, 0.0), vec(-1.0, 1.0, 0.0), 0);
    let b = q.bounding_box();
    assert_eq!(bounds(b.x), (-1.0, 1.0));
    assert_eq!(bounds(b.y), (0.0, 2.0));
    assert_eq!(bounds(b.z), (-0.00005, 0.00005));
    assert_eq!(parts(q.normal), (0.0, 0.0, 1.0));
    assert_eq!(value(q.d), 0.0);
    assert_eq!(parts(q.w), (0.0, 0.0, 0.5));
}

#[test]
fn settled_intervals_and_boxes() {
    assert!(range(0.0, 1.0).settled());
    assert!(range(0.0, 0.0001).settled());
    assert!(!range(1.0, 1.0).settled());
    assert!(!range(0.0, 0.00009).settled());
    assert!(!range(f64::NAN, 1.0).settled());
    assert!(range(f64::NEG_INFINITY, f64::INFINITY).settled());
    assert!(AABB::new(range(0.0, 1.0), range(0.0, 2.0), range(0.0, 3.0)).settled());
    assert!(!AABB::new(range(0.0, 1.0), range(2.0, 2.0), range(0.0, 3.0)).settled());
    assert!(Sphere::new(vec(0.0, 0.0, 0.0), num(1.0), 0).bounding_box().settled());
}
