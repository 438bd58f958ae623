use pathtracer::color::Col3;
use pathtracer::material::Material;
use pathtracer::plane::Plane;
use pathtracer::ray::Ray;
use pathtracer::scalar::Scalar;
use pathtracer::scene::{nearest_hit, Camera, Scene};
use pathtracer::shape::{reflect, RayTraceShape};
use pathtracer::sphere::Sphere;
use pathtracer::vector::V3;

fn s(x: f32) -> Scalar {
    Scalar::from_bits(x.to_bits())
}

fn n(x: Scalar) -> f32 {
    f32::from_bits(x.to_bits())
}

fn v(x: f32, y: f32, z: f32) -> V3 {
    V3::new(s(x), s(y), s(z))
}

fn xyz(a: V3) -> [f32; 3] {
    [n(a.x), n(a.y), n(a.z)]
}

fn dot(a: [f32; 3], b: [f32; 3]) -> f32 {
    a[0] * b[0] + a[1] * b[1] + a[2] * b[2]
}

fn sub(a: [f32; 3], b: [f32; 3]) -> [f32; 3] {
    [a[0] - b[0], a[1] - b[1], a[2] - b[2]]
}

fn along(a: [f32; 3], d: [f32; 3], t: f32) -> [f32; 3] {
    [a[0] + d[0] * t, a[1] + d[1] * t, a[2] + d[2] * t]
}

fn cross(a: [f32; 3], b: [f32; 3]) -> [f32; 3] {
    [a[1] * b[2] - a[2] * b[1], a[2] * b[0] - a[0] * b[2], a[0] * b[1] - a[1] * b[0]]
}

fn unit(a: [f32; 3]) -> [f32; 3] {
    let m = dot(a, a).sqrt();
    [a[0] / m, a[1] / m, a[2] / m]
}

/// Planes and spheres that mirror exactly, so that a path is known in advance.
#[derive(Clone, Copy)]
enum Mirror {
    Plane(Plane),
    Sphere(Sphere),
}

impl Mirror {
    fn normal(&self, point: [f32; 3]) -> [f32; 3] {
        match self {
            Mirror::Plane(p) => unit(cross(xyz(p.base_one), xyz(p.base_two))),
            Mirror::Sphere(sp) => unit(sub(point, xyz(sp.origin))),
        }
    }
}

impl RayTraceShape for Mirror {
    fn intersect(&self, ray: Ray) -> Option<Scalar> {
        let o = xyz(ray.origin);
        let d = xyz(ray.dir);
        match self {
            Mirror::Plane(p) => {
                let normal = cross(xyz(p.base_one), xyz(p.base_two));
                let facing = dot(normal, d);
                let t = -dot(normal, sub(o, xyz(p.origin))) / facing;
                Plane::hit_distance(s(facing), s(t))
            }
            Mirror::Sphere(sp) => {
                let oc = sub(o, xyz(sp.origin));
                let a = dot(d, d);
                let half_b = dot(oc, d);
                let c = dot(oc, oc) - n(sp.radius) * n(sp.radius);
                let disc = half_b * half_b - a * c;
                let root = disc.sqrt();
                Sphere::hit_distance(s(disc / a), s((-half_b - root) / a), s((-half_b + root) / a))
            }
        }
    }

    fn material(&self) -> Material {
        match self {
            Mirror::Plane(p) => p.material,
            Mirror::Sphere(sp) => sp.material,
        }
    }

    fn deflect(&self, ray: Ray, distance: Scalar) -> (V3, V3) {
        let d = xyz(ray.dir);
        let point = along(xyz(ray.origin), d, n(distance));
        let normal = self.normal(point);
        let out = along(d, normal, -2.0 * dot(d, normal));
        (v(point[0], point[1], point[2]), v(out[0], out[1], out[2]))
    }
}

fn matte(color: Col3, brightness: f32) -> Material {
    Material::new(s(0.9), s(1.0), color, s(brightness))
}

fn wall(z: f32, color: Col3, brightness: f32) -> Mirror {
    Mirror::Plane(Plane {
        origin: v(0.0, 0.0, z),
        base_one: v(1.0, 0.0, 0.0),
        base_two: v(0.0, 1.0, 0.0),
        material: matte(color, brightness),
    })
}

fn ball(z: f32, color: Col3, brightness: f32) -> Mirror {
    Mirror::Sphere(Sphere { origin: v(0.0, 0.0, z), radius: s(1.0), material: matte(color, brightness) })
}

fn camera(size_x: u16, size_y: u16, rays_per_pixel: u16, bounce_depth: u16) -> Camera {
    Camera {
        location: v(0.0, 0.0, 0.0),
        rotation_y: s(0.0),
        rotation_x: s(0.0),
        viewport_anchor: v(-1.0, 0.0, 0.25),
        size_x,
        size_y,
        rays_per_pixel,
        bounce_depth,
        max_steps: 7,
        step_len: s(1000.0),
    }
}

fn forward(bounces: u16) -> Ray {
    let mut ray = Ray::new(v(0.0, 0.0, 0.0), v(0.0, 0.0, 1.0), Col3::white(), bounces, 3);
    ray.gamma = s(0.2);
    ray
}

#[test]
fn plane_straight_ahead_is_hit_at_five() {
    let plane = wall(5.0, Col3::white(), 1.0);
    assert_eq!(plane.intersect(forward(1)), Some(s(5.0)));
    // the plane equation has facing 1 and t 5
    assert_eq!(Plane::hit_distance(s(1.0), s(5.0)), Some(s(5.0)));
}

#[test]
fn plane_behind_or_alongside_is_not_hit() {
    assert_eq!(wall(-5.0, Col3::white(), 1.0).intersect(forward(1)), None);
    assert_eq!(Plane::hit_distance(s(1.0), s(-5.0)), None);
    assert_eq!(Plane::hit_distance(s(1.0), s(0.001)), None);
    assert_eq!(Plane::hit_distance(s(1.0), s(0.0011)), Some(s(0.0011)));
    assert_eq!(Plane::hit_distance(s(0.00009), s(5.0)), None);
    assert_eq!(Plane::hit_distance(s(-0.00009), s(5.0)), None);
    assert_eq!(Plane::hit_distance(s(0.0), s(f32::INFINITY)), None);
    assert_eq!(Plane::hit_distance(s(0.0001), s(5.0)), Some(s(5.0)));
    assert_eq!(Plane::hit_distance(s(-1.0), s(5.0)), Some(s(5.0)));
    assert_eq!(Plane::hit_distance(s(1.0), s(f32::NAN)), None);
    assert_eq!(Plane::hit_distance(s(f32::NAN), s(f32::NAN)), None);
}

#[test]
fn sphere_is_hit_at_the_near_root() {
    let mut ray = forward(1);
    ray.origin = v(0.0, 0.0, -5.0);
    assert_eq!(ball(0.0, Col3::white(), 1.0).intersect(ray), Some(s(4.0)));
    assert_eq!(Sphere::hit_distance(s(1.0), s(4.0), s(6.0)), Some(s(4.0)));
    assert_eq!(Sphere::hit_distance(s(1.0), s(6.0), s(4.0)), Some(s(4.0)));
}

#[test]
fn sphere_grazed_or_behind_is_not_hit() {
    // from inside, the far root is the one ahead
    assert_eq!(Sphere::hit_distance(s(1.0), s(-1.0), s(1.0)), Some(s(1.0)));
    assert_eq!(Sphere::hit_distance(s(1.0), s(1.0), s(-1.0)), Some(s(1.0)));
    assert_eq!(Sphere::hit_distance(s(1.0), s(-6.0), s(-4.0)), None);
    assert_eq!(Sphere::hit_distance(s(1.0), s(0.0005), s(0.001)), None);
    assert_eq!(Sphere::hit_distance(s(0.009), s(4.0), s(6.0)), None);
    assert_eq!(Sphere::hit_distance(s(0.01), s(4.0), s(6.0)), Some(s(4.0)));
    assert_eq!(Sphere::hit_distance(s(-1.0), s(f32::NAN), s(f32::NAN)), None);
    assert_eq!(Sphere::hit_distance(s(f32::NAN), s(4.0), s(6.0)), None);
    assert_eq!(Sphere::hit_distance(s(1.0), s(f32::NAN), s(6.0)), Some(s(6.0)));
    assert_eq!(Sphere::hit_distance(s(1.0), s(4.0), s(4.0)), Some(s(4.0)));
    // a ray that passes the sphere by
    let mut ray = forward(1);
    ray.origin = v(3.0, 0.0, -5.0);
    assert_eq!(ball(0.0, Col3::white(), 1.0).intersect(ray), None);
}

#[test]
fn nearest_hit_is_the_least_positive_distance() {
    assert_eq!(nearest_hit(&vec![]), None);
    assert_eq!(nearest_hit(&vec![None, None]), None);
    assert_eq!(nearest_hit(&vec![Some(s(3.0)), Some(s(2.0)), None, Some(s(2.5))]), Some(1));
    assert_eq!(nearest_hit(&vec![None, Some(s(7.0))]), Some(1));
    assert_eq!(nearest_hit(&vec![Some(s(f32::INFINITY)), Some(s(f32::MAX))]), Some(1));
}

#[test]
fn nearest_hit_keeps_the_first_of_equals() {
    assert_eq!(nearest_hit(&vec![Some(s(4.0)), Some(s(2.0)), Some(s(2.0))]), Some(1));
    assert_eq!(nearest_hit(&vec![Some(s(2.0)), Some(s(2.0))]), Some(0));
}

#[test]
fn nearest_hit_passes_over_what_is_no_distance() {
    assert_eq!(nearest_hit(&vec![Some(s(0.0)), Some(s(-1.0)), Some(s(f32::NAN))]), None);
    assert_eq!(nearest_hit(&vec![Some(s(-1.0)), Some(s(5.0)), Some(s(f32::NAN))]), Some(1));
    assert_eq!(nearest_hit(&vec![Some(s(f32::NAN)), Some(s(5.0)), Some(s(-0.0))]), Some(1));
}

#[test]
fn ray_that_meets_nothing_gives_black() {
    let scene = Scene { geometry: vec![wall(-5.0, Col3::white(), 1.0), ball(-4.0, Col3::white(), 1.0)], camera: camera(1, 1, 1, 3) };
    let mut ray = forward(3);
    let before = ray;
    assert_eq!(scene.path_trace_ray(&mut ray), Col3::black());
    assert_eq!(ray, before);
    let empty: Scene<Mirror> = Scene { geometry: vec![], camera: camera(1, 1, 1, 3) };
    assert_eq!(empty.path_trace_ray(&mut ray), Col3::black());
    assert_eq!(ray, before);
}

#[test]
fn ray_without_bounces_is_not_shaded() {
    // whatever the wall's brightness, a ray with no bounce left gives black and stays as it was
    for brightness in [0.0, 0.95, 2.0] {
        let scene = Scene {
            geometry: vec![wall(5.0, Col3::new(10, 20, 30), brightness)],
            camera: camera(1, 1, 1, 0),
        };
        let mut ray = forward(0);
        let before = ray;
        assert_eq!(scene.path_trace_ray(&mut ray), Col3::black());
        assert_eq!(ray, before);
        let mut fresh = Ray::new(v(0.0, 0.0, 0.0), v(0.0, 0.0, 1.0), Col3::white(), 0, 3);
        let before = fresh;
        assert_eq!(scene.path_trace_ray(&mut fresh), Col3::black());
        assert_eq!(fresh, before);
        // and a ray that meets nothing gives black all the same
        let mut away = forward(0);
        away.dir = v(0.0, 0.0, -1.0);
        let before = away;
        assert_eq!(scene.path_trace_ray(&mut away), Col3::black());
        assert_eq!(away, before);
    }
}

#[test]
fn one_bounce_tints_the_ray_and_sets_its_gain() {
    let scene = Scene { geometry: vec![wall(5.0, Col3::new(100, 255, 120), 0.95)], camera: camera(1, 1, 1, 1) };
    let mut ray = forward(1);
    assert_eq!(scene.path_trace_ray(&mut ray), Col3::new(100, 255, 120));
    assert_eq!(ray.bounces_remaining, 0);
    assert_eq!(ray.steps_remaining, 7);
    assert_eq!(ray.gamma, s(0.95));
    assert_eq!(xyz(ray.origin), [0.0, 0.0, 5.0]);
    assert_eq!(xyz(ray.dir), [0.0, 0.0, -1.0]);
}

#[test]
fn a_surface_without_brightness_leaves_the_ray_dark() {
    let scene = Scene { geometry: vec![wall(5.0, Col3::new(100, 255, 120), 0.0)], camera: camera(1, 1, 1, 1) };
    let mut ray = forward(1);
    assert_eq!(scene.path_trace_ray(&mut ray), Col3::black());
    assert_eq!(ray.color, Col3::new(100, 255, 120));
    assert_eq!(ray.gamma, s(0.0));
}

#[test]
fn bounces_between_two_walls_multiply_the_tints() {
    // the ray runs to and fro between z = 5 and z = -5
    let scene = Scene {
        geometry: vec![wall(5.0, Col3::new(200, 100, 50), 0.5), wall(-5.0, Col3::new(128, 128, 128), 0.75)],
        camera: camera(1, 1, 1, 3),
    };
    let mut ray = forward(3);
    // 200*128/255 = 100, 100*128/255 = 50, 50*128/255 = 25; then 100*200/255 = 78, 50*100/255 = 19, 25*50/255 = 4
    assert_eq!(scene.path_trace_ray(&mut ray), Col3::new(78, 19, 4));
    assert_eq!(ray.bounces_remaining, 0);
    assert_eq!(ray.gamma, s(0.5));
    assert_eq!(xyz(ray.origin), [0.0, 0.0, 5.0]);

    let mut short = forward(2);
    assert_eq!(scene.path_trace_ray(&mut short), Col3::new(100, 50, 25));
    assert_eq!(short.gamma, s(0.75));
}

#[test]
fn a_light_ends_the_path() {
    let scene = Scene {
        geometry: vec![wall(5.0, Col3::new(255, 255, 240), 2.0), wall(-5.0, Col3::new(1, 1, 1), 0.5)],
        camera: camera(1, 1, 1, 9),
    };
    let mut ray = forward(9);
    assert_eq!(scene.path_trace_ray(&mut ray), Col3::new(255, 255, 240));
    assert_eq!(ray.bounces_remaining, 0);
    assert_eq!(ray.gamma, s(2.0));
    // brightness 1.9 itself is no light
    let dim = Scene {
        geometry: vec![wall(5.0, Col3::new(255, 255, 240), 1.9), wall(-5.0, Col3::new(1, 1, 1), 0.5)],
        camera: camera(1, 1, 1, 2),
    };
    let mut ray = forward(2);
    assert_eq!(dim.path_trace_ray(&mut ray), Col3::new(1, 1, 0));
}

#[test]
fn the_nearer_shape_is_the_one_hit() {
    let scene = Scene {
        geometry: vec![wall(9.0, Col3::new(1, 1, 1), 1.0), ball(5.0, Col3::new(9, 9, 9), 1.0), wall(4.0, Col3::new(7, 7, 7), 1.0)],
        camera: camera(1, 1, 1, 1),
    };
    // the sphere's near side and the last wall are both at 4: the sphere comes first
    let mut ray = forward(1);
    assert_eq!(scene.path_trace_ray(&mut ray), Col3::new(9, 9, 9));
    let answers = scene.intersections(forward(1));
    assert_eq!(answers, vec![Some(s(9.0)), Some(s(4.0)), Some(s(4.0))]);
}

#[test]
fn the_order_of_the_shapes_does_not_change_the_hit() {
    let shapes = [
        wall(9.0, Col3::new(1, 1, 1), 1.0),
        ball(5.5, Col3::new(9, 9, 9), 1.0),
        wall(4.0, Col3::new(7, 7, 7), 1.0),
    ];
    let orders = [[0, 1, 2], [0, 2, 1], [1, 0, 2], [1, 2, 0], [2, 0, 1], [2, 1, 0]];
    for order in orders {
        let scene = Scene {
            geometry: order.iter().map(|&i| shapes[i]).collect(),
            camera: camera(1, 1, 1, 1),
        };
        let mut ray = forward(1);
        assert_eq!(scene.path_trace_ray(&mut ray), Col3::new(7, 7, 7));
        let answers = scene.intersections(forward(1));
        assert_eq!(answers[nearest_hit(&answers).unwrap()], Some(s(4.0)));
    }
}

#[test]
fn reflect_shades_and_counts_the_bounce() {
    let shape = wall(5.0, Col3::new(100, 255, 120), 0.95);
    let mut ray = forward(4);
    reflect(&shape, &mut ray, s(5.0));
    assert_eq!(ray.bounces_remaining, 3);
    assert_eq!(ray.steps_remaining, 3);
    assert_eq!(ray.color, Col3::new(100, 255, 120));
    assert_eq!(ray.gamma, s(0.95));
    assert_eq!(xyz(ray.origin), [0.0, 0.0, 5.0]);
    assert_eq!(xyz(ray.dir), [0.0, 0.0, -1.0]);
    let lamp = wall(5.0, Col3::white(), 1.95);
    let mut ray = forward(4);
    reflect(&lamp, &mut ray, s(5.0));
    assert_eq!(ray.bounces_remaining, 0);
}

#[test]
fn material_shades_in_its_three_steps() {
    let m = Material::new(s(0.5), s(0.25), Col3::new(255, 0, 128), s(1.5));
    assert_eq!((m.albedo, m.smoothness, m.color, m.brightness), (s(0.5), s(0.25), Col3::new(255, 0, 128), s(1.5)));
    let mut ray = Ray::new(v(1.0, 2.0, 3.0), v(0.0, 0.0, 1.0), Col3::new(200, 200, 200), 5, 6);
    m.shade_ray_reflection(&mut ray, v(0.0, 1.0, 0.0));
    assert_eq!(ray.dir, v(0.0, 1.0, 0.0));
    assert_eq!(ray.origin, v(1.0, 2.0, 3.0));
    assert_eq!(ray.color, Col3::new(200, 0, 100));
    assert_eq!(ray.gamma, s(1.5));
    assert_eq!((ray.bounces_remaining, ray.steps_remaining), (5, 6));
    let lamp = Material::new(s(0.5), s(0.25), Col3::white(), s(1.9000001));
    lamp.shade_ray_reflection(&mut ray, v(0.0, 1.0, 0.0));
    assert_eq!(ray.bounces_remaining, 1);
    assert_eq!(ray.color, Col3::new(200, 0, 100));
}

#[test]
fn a_fresh_ray_has_its_budgets_and_no_gain() {
    let ray = Ray::new(v(1.0, 2.0, 3.0), v(0.0, 0.0, 1.0), Col3::new(1, 2, 3), 4, 5);
    assert_eq!(ray.origin, v(1.0, 2.0, 3.0));
    assert_eq!(ray.dir, v(0.0, 0.0, 1.0));
    assert_eq!(ray.color, Col3::new(1, 2, 3));
    assert_eq!((ray.bounces_remaining, ray.steps_remaining), (4, 5));
    assert_eq!(ray.gamma, s(0.0));
    assert_eq!(ray.terminal_color(), Col3::black());
    let mut lit = ray;
    lit.gamma = s(0.2);
    assert_eq!(lit.terminal_color(), Col3::new(1, 2, 3));
    lit.gamma = s(-0.2);
    assert_eq!(lit.terminal_color(), Col3::black());
    lit.gamma = s(f32::NAN);
    assert_eq!(lit.terminal_color(), Col3::black());
}

#[test]
fn short_vectors_give_no_direction() {
    assert!(V3::has_direction(s(1.0)));
    assert!(V3::has_direction(s(f32::MIN_POSITIVE)));
    assert!(V3::has_direction(s(f32::MAX)));
    assert!(!V3::has_direction(s(0.0)));
    assert!(!V3::has_direction(s(-0.0)));
    assert!(!V3::has_direction(s(f32::INFINITY)));
    assert!(!V3::has_direction(s(f32::NAN)));
    assert!(V3::spans(s(0.0001)));
    assert!(V3::spans(s(1.0)));
    assert!(!V3::spans(s(0.00009)));
    assert!(!V3::spans(s(0.0)));
    assert!(!V3::spans(s(f32::NAN)));
    assert_eq!(pathtracer::vector::NEGLIGIBLE_BITS, 0.0001f32.to_bits());
}

#[test]
fn vectors_hold_their_components() {
    let a = V3::new(s(1.0), s(-2.0), s(3.5));
    assert_eq!((n(a.x), n(a.y), n(a.z)), (1.0, -2.0, 3.5));
    assert_eq!(V3::zero(), v(0.0, 0.0, 0.0));
}
