use rt_weekend::hittable::{HitRecord, Hittable};
use rt_weekend::hittable_list::HittableList;
use rt_weekend::ray::Ray;
use rt_weekend::scalar::Scalar;
use rt_weekend::sphere::Sphere;
use rt_weekend::vec3::{Point3, Vec3};
use rt_weekend::world::World;
use std::rc::Rc;

fn s(x: f64) -> Scalar {
    Scalar::from_bits(x.to_bits())
}

fn f(x: Scalar) -> f64 {
    f64::from_bits(x.to_bits())
}

fn v(x: f64, y: f64, z: f64) -> Vec3 {
    Vec3::new(s(x), s(y), s(z))
}

fn coords(a: &Vec3) -> [f64; 3] {
    [f(a.x), f(a.y), f(a.z)]
}

fn dot(a: [f64; 3], b: [f64; 3]) -> f64 {
    a[0] * b[0] + a[1] * b[1] + a[2] * b[2]
}

fn minus(a: [f64; 3], b: [f64; 3]) -> [f64; 3] {
    [a[0] - b[0], a[1] - b[1], a[2] - b[2]]
}

fn at(ray: &Ray, t: f64) -> [f64; 3] {
    let o = coords(&ray.origin);
    let d = coords(&ray.direction);
    [o[0] + t * d[0], o[1] + t * d[1], o[2] + t * d[2]]
}

/// A sphere whose arithmetic is done in hardware doubles.
struct Ball(Sphere);

impl Ball {
    fn new(x: f64, y: f64, z: f64, radius: f64) -> Ball {
        Ball(Sphere::new(Point3::new(s(x), s(y), s(z)), s(radius)))
    }
}

impl Hittable for Ball {
    fn hit(&self, ray: &Ray, t_min: Scalar, t_max: Scalar) -> Option<HitRecord> {
        let center = coords(&self.0.center);
        let radius = f(self.0.radius);
        let direction = coords(&ray.direction);
        let oc = minus(coords(&ray.origin), center);
        let a = dot(direction, direction);
        let half_b = dot(oc, direction);
        let c = dot(oc, oc) - radius * radius;
        let delta = half_b * half_b - a * c;
        let sqrtd = delta.sqrt();
        let near = (-half_b - sqrtd) / a;
        let far = (-half_b + sqrtd) / a;
        let root = Sphere::nearest_root(s(delta), s(near), s(far), t_min, t_max)?;
        let point = at(ray, f(root));
        let out = minus(point, center);
        let outward = [out[0] / radius, out[1] / radius, out[2] / radius];
        Some(HitRecord::new(
            v(point[0], point[1], point[2]),
            root,
            s(dot(direction, outward)),
            &v(outward[0], outward[1], outward[2]),
        ))
    }
}

/// A primitive that reports a fixed parameter whenever the interval admits it.
struct Marker {
    t: f64,
    tag: f64,
}

impl Hittable for Marker {
    fn hit(&self, _ray: &Ray, t_min: Scalar, t_max: Scalar) -> Option<HitRecord> {
        if s(self.t).within(&t_min, &t_max) {
            Some(HitRecord::new(v(self.tag, 0.0, 0.0), s(self.t), s(-1.0), &v(0.0, 0.0, 1.0)))
        } else {
            None
        }
    }
}

/// A primitive that keeps the behaviour every primitive starts with.
struct Ghostly;

impl Hittable for Ghostly {}

fn setup_sphere_and_ray() -> (Ball, Ray) {
    let sphere = Ball::new(0.0, 0.0, 0.0, 2.0);
    let ray = Ray::new(v(1.0, 0.0, 3.0), v(0.0, 0.0, -2.0));
    (sphere, ray)
}

#[test]
fn sphere_new() {
    let sphere = Sphere::new(Point3::new(s(0.0), s(0.0), s(0.0)), s(2.0));
    assert_eq!(
        Sphere {
            center: Point3::new(s(0.0), s(0.0), s(0.0)),
            radius: s(2.0)
        },
        sphere
    );
}

#[test]
fn sphere_n_and_ni_build_the_centre() {
    let a = Sphere::n(s(0.0), s(-100.5), s(-1.0), s(100.0));
    assert_eq!(a, Sphere::new(v(0.0, -100.5, -1.0), s(100.0)));
    let b = Sphere::ni(-2, 0, 7, s(0.5));
    assert_eq!(b, Sphere::new(v(-2.0, 0.0, 7.0), s(0.5)));
    assert_eq!(b.center.x.to_bits(), (-2.0f64).to_bits());
    assert_eq!(b.center.y.to_bits(), 0.0f64.to_bits());
    assert_eq!(b.center.z.to_bits(), 7.0f64.to_bits());
    assert_eq!(b.radius.to_bits(), 0.5f64.to_bits());
}

#[test]
fn spheres_compare_by_value() {
    assert_eq!(Sphere::ni(0, 0, 0, s(2.0)), Sphere::n(s(-0.0), s(0.0), s(0.0), s(2.0)));
    assert_ne!(Sphere::ni(0, 0, 0, s(2.0)), Sphere::ni(0, 0, 0, s(2.5)));
    assert_ne!(Sphere::ni(0, 0, 0, s(2.0)), Sphere::ni(0, 1, 0, s(2.0)));
}

#[test]
fn hit_true_when_hit() {
    let (sphere, ray) = setup_sphere_and_ray();
    assert!(sphere.hit(&ray, s(-5.0), s(5.0)).is_some())
}

#[test]
fn hit_false_when_not_hit() {
    let (sphere, ray) = setup_sphere_and_ray();
    let ray = Ray {
        origin: v(0.0, 5.0, 0.0),
        ..ray
    };
    assert!(sphere.hit(&ray, s(-5.0), s(5.0)).is_none())
}

#[test]
fn hit_correct_t_and_point() {
    let (sphere, ray) = setup_sphere_and_ray();
    let record = sphere.hit(&ray, s(-10.0), s(10.0)).unwrap();
    assert_eq!(v(1.0, 0.0, (3 as f64).sqrt()), record.point);
    assert_eq!(s((3.0 - (3 as f64).sqrt()) / 2.0), record.t);
}

#[test]
fn hit_correct_face() {
    let (sphere, ray) = setup_sphere_and_ray();
    let ray = Ray {
        origin: v(1.0, 0.0, -3.0),
        ..ray
    };
    let record = sphere.hit(&ray, s(-1.0), s(0.0)).unwrap();
    assert!(!record.is_front_face);
}

#[test]
fn hittable_list_closest_record() {
    let sphere1 = Ball::new(-2.0, 0.0, 0.0, 0.5);
    let sphere2 = Ball::new(-4.0, 0.0, 0.0, 0.5);
    let ray = Ray::new(v(0.0, 0.0, 0.0), v(-1.0, 0.0, 0.0));
    let mut world = HittableList::empty();
    world.add(Rc::new(sphere1));
    world.add(Rc::new(sphere2));
    assert_eq!(s(1.5), world.hit(&ray, s(0.0), s(10.0)).unwrap().t);
}

#[test]
fn world_closest_record() {
    let sphere1 = Ball::new(-2.0, 0.0, 0.0, 0.5);
    let sphere2 = Ball::new(-4.0, 0.0, 0.0, 0.5);
    let ray = Ray::ni(0, 0, 0, -1, 0, 0);
    let mut world = World::empty();
    world.add(Rc::new(sphere1));
    world.add(Rc::new(sphere2));
    assert_eq!(s(1.5), world.trace_ray(&ray, s(0.0), s(10.0)).unwrap().t);
}

#[test]
fn closest_record_whatever_the_order() {
    let ray = Ray::ni(0, 0, 0, -1, 0, 0);
    let mut world = World::empty();
    world.add(Rc::new(Ball::new(-4.0, 0.0, 0.0, 0.5)));
    world.add(Rc::new(Ball::new(-2.0, 0.0, 0.0, 0.5)));
    world.add(Rc::new(Ball::new(-6.0, 0.0, 0.0, 0.5)));
    let record = world.trace_ray(&ray, s(0.0), s(10.0)).unwrap();
    assert_eq!(s(1.5), record.t);
    assert_eq!(v(-1.5, 0.0, 0.0), record.point);
}

#[test]
fn unit_sphere_ahead_is_hit_at_half() {
    let sphere = Ball::new(0.0, 0.0, -1.0, 0.5);
    let ray = Ray::ni(0, 0, 0, 0, 0, -1);
    let record = sphere.hit(&ray, s(0.0), s(f64::INFINITY)).unwrap();
    assert_eq!(s(0.5), record.t);
    assert_eq!(v(0.0, 0.0, -0.5), record.point);
    assert_eq!(v(0.0, 0.0, 1.0), record.normal);
    assert!(record.is_front_face);
}

#[test]
fn a_primitive_without_a_shape_is_never_hit() {
    let ray = Ray::ni(0, 0, 0, 0, 0, -1);
    assert!(Ghostly.hit(&ray, s(f64::NEG_INFINITY), Scalar::infinity()).is_none());
    let mut world = World::empty();
    world.add(Rc::new(Ghostly));
    world.add(Rc::new(Ghostly));
    assert!(world.trace_ray(&ray, s(0.0), Scalar::infinity()).is_none());
}

#[test]
fn empty_world_reports_nothing() {
    let world: World<Ball> = World::empty();
    assert!(world.trace_ray(&Ray::ni(0, 0, 0, 0, 0, -1), s(0.0), s(f64::INFINITY)).is_none());
    let list: HittableList<Ball> = HittableList::empty();
    assert!(list.hit(&Ray::ni(0, 0, 0, 0, 0, -1), s(0.0), s(f64::INFINITY)).is_none());
}

#[test]
fn world_of_missed_spheres_reports_nothing() {
    let mut world = World::empty();
    world.add(Rc::new(Ball::new(0.0, 5.0, -1.0, 0.5)));
    world.add(Rc::new(Ball::new(0.0, -5.0, -1.0, 0.5)));
    assert!(world.trace_ray(&Ray::ni(0, 0, 0, 0, 0, -1), s(0.0), s(f64::INFINITY)).is_none());
}

#[test]
fn trace_matches_independent_hits() {
    let balls = [
        (0.0, 0.0, -9.0, 1.0),
        (0.0, 0.5, -3.0, 1.0),
        (0.0, 3.0, -2.0, 0.5),
        (0.0, 0.0, -5.0, 2.5),
        (0.0, 0.0, 4.0, 1.0),
    ];
    let ray = Ray::ni(0, 0, 0, 0, 0, -1);
    let (t_min, t_max) = (s(0.0), s(100.0));
    let mut world = World::empty();
    let mut least: Option<HitRecord> = None;
    for (x, y, z, r) in balls {
        world.add(Rc::new(Ball::new(x, y, z, r)));
        if let Some(rec) = Ball::new(x, y, z, r).hit(&ray, t_min, t_max) {
            if least.map_or(true, |held| f(rec.t) < f(held.t)) {
                least = Some(rec);
            }
        }
    }
    let found = world.trace_ray(&ray, t_min, t_max).unwrap();
    let least = least.unwrap();
    assert_eq!(found.t, least.t);
    assert_eq!(found.point, least.point);
    assert_eq!(found.normal, least.normal);
    assert_eq!(found.t, s(3.0 - (0.75f64).sqrt()));
}

#[test]
fn equal_parameters_keep_the_earlier_primitive() {
    let ray = Ray::ni(0, 0, 0, 0, 0, -1);
    let mut world = World::empty();
    world.add(Rc::new(Marker { t: 3.0, tag: 1.0 }));
    world.add(Rc::new(Marker { t: 2.0, tag: 2.0 }));
    world.add(Rc::new(Marker { t: 2.0, tag: 3.0 }));
    world.add(Rc::new(Marker { t: 5.0, tag: 4.0 }));
    let found = world.trace_ray(&ray, s(0.0), s(10.0)).unwrap();
    assert_eq!(found.t, s(2.0));
    assert_eq!(found.point, v(2.0, 0.0, 0.0));
    let mut list = HittableList::empty();
    list.add(Rc::new(Marker { t: 2.0, tag: 7.0 }));
    list.add(Rc::new(Marker { t: 2.0, tag: 8.0 }));
    assert_eq!(list.hit(&ray, s(0.0), s(10.0)).unwrap().point, v(7.0, 0.0, 0.0));
}

#[test]
fn hits_outside_the_interval_are_not_reported() {
    let ray = Ray::ni(0, 0, 0, 0, 0, -1);
    let mut world = World::empty();
    world.add(Rc::new(Marker { t: 11.0, tag: 1.0 }));
    world.add(Rc::new(Marker { t: -1.0, tag: 2.0 }));
    assert!(world.trace_ray(&ray, s(0.0), s(10.0)).is_none());
    world.add(Rc::new(Marker { t: 10.0, tag: 3.0 }));
    assert_eq!(world.trace_ray(&ray, s(0.0), s(10.0)).unwrap().t, s(10.0));
    world.add(Rc::new(Marker { t: 0.0, tag: 4.0 }));
    assert_eq!(world.trace_ray(&ray, s(0.0), s(10.0)).unwrap().t, s(0.0));
}

#[test]
fn reported_parameter_lies_in_the_interval() {
    let (sphere, ray) = setup_sphere_and_ray();
    let bounds = [(-10.0, 10.0), (0.0, 1.0), (1.0, 10.0), (-5.0, 5.0), (0.0, f64::INFINITY)];
    for (lo, hi) in bounds {
        if let Some(rec) = sphere.hit(&ray, s(lo), s(hi)) {
            assert!(lo <= f(rec.t) && f(rec.t) <= hi);
            let out = minus(coords(&rec.point), [0.0, 0.0, 0.0]);
            assert!((dot(out, out).sqrt() - 2.0).abs() < 1.0e-12);
        }
    }
    assert!(sphere.hit(&ray, s(1.0), s(10.0)).is_some());
    assert!(sphere.hit(&ray, s(0.7), s(2.0)).is_none());
}

#[test]
fn stored_normal_opposes_the_ray() {
    let sphere = Ball::new(0.0, 0.0, 0.0, 2.0);
    let rays = [
        Ray::new(v(1.0, 0.0, 3.0), v(0.0, 0.0, -2.0)),
        Ray::new(v(1.0, 0.0, -3.0), v(0.0, 0.0, -2.0)),
        Ray::new(v(0.5, 0.5, 0.0), v(1.0, 2.0, 3.0)),
        Ray::new(v(-7.0, 0.25, 0.5), v(1.0, 0.0, 0.0)),
    ];
    for ray in rays {
        let rec = sphere.hit(&ray, s(-100.0), s(100.0)).unwrap();
        assert!(dot(coords(&ray.direction), coords(&rec.normal)) <= 0.0);
    }
}

#[test]
fn nearest_root_prefers_the_near_root() {
    let pick = |d: f64, near: f64, far: f64, lo: f64, hi: f64| {
        Sphere::nearest_root(s(d), s(near), s(far), s(lo), s(hi)).map(f)
    };
    assert_eq!(pick(12.0, 1.0, 3.0, 0.0, 10.0), Some(1.0));
    assert_eq!(pick(12.0, -1.0, 3.0, 0.0, 10.0), Some(3.0));
    assert_eq!(pick(12.0, -3.0, -1.0, 0.0, 10.0), None);
    assert_eq!(pick(12.0, 11.0, 13.0, 0.0, 10.0), None);
    assert_eq!(pick(12.0, -1.0, 13.0, 0.0, 10.0), None);
    assert_eq!(pick(0.0, 2.0, 2.0, 0.0, 10.0), Some(2.0));
    assert_eq!(pick(-0.0, 2.0, 2.0, 0.0, 10.0), Some(2.0));
    assert_eq!(pick(-1.0, 1.0, 3.0, 0.0, 10.0), None);
    assert_eq!(pick(12.0, 0.0, 3.0, 0.0, 10.0), Some(0.0));
    assert_eq!(pick(12.0, -1.0, 10.0, 0.0, 10.0), Some(10.0));
}

#[test]
fn nearest_root_rejects_nan_roots() {
    let pick = |d: f64, near: f64, far: f64, lo: f64, hi: f64| {
        Sphere::nearest_root(s(d), s(near), s(far), s(lo), s(hi)).map(f)
    };
    assert_eq!(pick(0.0, f64::NAN, f64::NAN, 0.0, 10.0), None);
    assert_eq!(pick(f64::NAN, f64::NAN, f64::NAN, 0.0, 10.0), None);
    assert_eq!(pick(1.0, f64::NAN, 2.0, 0.0, 10.0), Some(2.0));
    assert_eq!(pick(1.0, 2.0, 3.0, f64::NAN, 10.0), None);
    assert_eq!(pick(1.0, 2.0, 3.0, 0.0, f64::NAN), None);
}

#[test]
fn nearest_root_narrows_consistently() {
    let values = [-1.0, 0.0, 0.5, 1.0, 2.0, 3.0, 10.0, f64::NAN];
    for near in values {
        for far in values {
            if near > far {
                continue;
            }
            for bound in values {
                if !(bound <= 10.0) {
                    continue;
                }
                let wide = Sphere::nearest_root(s(4.0), s(near), s(far), s(0.0), s(10.0));
                let tight = Sphere::nearest_root(s(4.0), s(near), s(far), s(0.0), s(bound));
                let expected = wide.filter(|t| f(*t) <= bound);
                assert_eq!(tight.map(|t| t.to_bits()), expected.map(|t| t.to_bits()));
            }
        }
    }
}

fn encoding(hit: Option<HitRecord>) -> Option<[u64; 7]> {
    hit.map(|rec| {
        [
            rec.t.to_bits(),
            rec.point.x.to_bits(),
            rec.point.y.to_bits(),
            rec.point.z.to_bits(),
            rec.normal.x.to_bits(),
            rec.normal.y.to_bits(),
            rec.normal.z.to_bits(),
        ]
    })
}

#[test]
fn a_sphere_answers_the_same_under_a_lower_bound() {
    let sphere = Ball::new(0.0, 0.0, 0.0, 2.0);
    let rays = [
        Ray::new(v(1.0, 0.0, 3.0), v(0.0, 0.0, -2.0)),
        Ray::new(v(1.0, 0.0, 0.5), v(0.0, 0.0, -2.0)),
        Ray::new(v(1.0, 0.0, -3.0), v(0.0, 0.0, -2.0)),
        Ray::new(v(0.0, 5.0, 0.0), v(0.0, 0.0, -2.0)),
        Ray::new(v(0.3, -0.2, 9.0), v(0.01, 0.02, -1.0)),
    ];
    let bounds = [-1.0, 0.0, 0.25, 0.5, 0.6339745962155614, 1.0, 2.0, 2.5, 5.0, 10.0];
    for ray in rays {
        let wide = sphere.hit(&ray, s(0.0), s(10.0));
        for bound in bounds {
            let tight = sphere.hit(&ray, s(0.0), s(bound));
            let expected = wide.filter(|rec| f(rec.t) <= bound);
            assert_eq!(encoding(tight), encoding(expected));
        }
    }
}

#[test]
fn degenerate_direction_reports_nothing() {
    let sphere = Ball::new(0.0, 0.0, -1.0, 0.5);
    let ray = Ray::ni(0, 0, 0, 0, 0, 0);
    assert!(sphere.hit(&ray, s(0.0), s(f64::INFINITY)).is_none());
    let inside = Ball::new(0.0, 0.0, 0.0, 0.5);
    assert!(inside.hit(&ray, s(0.0), s(f64::INFINITY)).is_none());
}

#[test]
fn record_new_keeps_the_outward_normal_in_front() {
    let outward = v(0.0, 0.0, 1.0);
    let rec = HitRecord::new(v(0.0, 0.0, -0.5), s(0.5), s(-1.0), &outward);
    assert!(rec.is_front_face);
    assert_eq!(rec.normal, outward);
    assert_eq!(rec.point, v(0.0, 0.0, -0.5));
    assert_eq!(rec.t, s(0.5));
}

#[test]
fn record_new_flips_the_normal_from_inside() {
    let outward = v(0.0, 0.5, -1.0);
    let rec = HitRecord::new(v(1.0, 2.0, 3.0), s(2.0), s(0.25), &outward);
    assert!(!rec.is_front_face);
    assert_eq!(rec.normal, v(0.0, -0.5, 1.0));
    assert_eq!(rec.normal.x.to_bits(), (-0.0f64).to_bits());
}

#[test]
fn record_new_at_a_grazing_angle_is_back_facing() {
    let outward = v(1.0, 0.0, 0.0);
    for facing in [0.0, -0.0, f64::NAN] {
        let rec = HitRecord::new(v(0.0, 0.0, 0.0), s(1.0), s(facing), &outward);
        assert!(!rec.is_front_face);
        assert_eq!(rec.normal, v(-1.0, 0.0, 0.0));
    }
}

#[test]
fn empty_record_is_all_zero() {
    let rec = HitRecord::empty();
    assert_eq!(rec.point, Vec3::zero());
    assert_eq!(rec.normal, Vec3::zero());
    assert_eq!(rec.t.to_bits(), 0);
    assert!(!rec.is_front_face);
}

#[test]
fn nearer_keeps_the_strictly_nearer_record() {
    let a = HitRecord::new(v(1.0, 0.0, 0.0), s(1.0), s(-1.0), &v(0.0, 0.0, 1.0));
    let b = HitRecord::new(v(2.0, 0.0, 0.0), s(2.0), s(-1.0), &v(0.0, 0.0, 1.0));
    let c = HitRecord::new(v(3.0, 0.0, 0.0), s(1.0), s(-1.0), &v(0.0, 0.0, 1.0));
    let point = |r: Option<HitRecord>| r.map(|rec| f(rec.point.x));
    assert_eq!(point(HitRecord::nearer(None, None)), None);
    assert_eq!(point(HitRecord::nearer(Some(a), None)), Some(1.0));
    assert_eq!(point(HitRecord::nearer(None, Some(b))), Some(2.0));
    assert_eq!(point(HitRecord::nearer(Some(b), Some(a))), Some(1.0));
    assert_eq!(point(HitRecord::nearer(Some(a), Some(b))), Some(1.0));
    assert_eq!(point(HitRecord::nearer(Some(a), Some(c))), Some(1.0));
    assert_eq!(point(HitRecord::nearer(Some(c), Some(a))), Some(3.0));
}
