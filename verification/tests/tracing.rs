//! Ray, primitive and shading behavior on concrete scenes.

use pathtracer::hitable::Hitable;
use pathtracer::hitable_list::HitableList;
use pathtracer::material::{Dielectric, Lambertian, Material, Metal};
use pathtracer::plane::Plane;
use pathtracer::ray::Ray;
use pathtracer::ray_hit::RayHit;
use pathtracer::rng::Rng;
use pathtracer::sphere::Sphere;
use pathtracer::triangle::Triangle;
use pathtracer::vec3::Vec3;

const ONE: i64 = 65536;

fn gray(level: i64) -> Material {
    Material::Lambertian(Lambertian { albedo: Vec3::new(level, level, level) })
}

#[test]
fn sky_exactly_blue_straight_up() {
    let scene = HitableList { list: vec![] };
    let mut rng = Rng::new(1);
    let ray = Ray::new(Vec3::zero(), Vec3::new(0, ONE, 0));
    let c = ray.color(&scene, 0, &mut rng);
    assert_eq!((c.x, c.y, c.z), (32768, 45875, 65536));
}

#[test]
fn sky_exactly_white_straight_down() {
    let scene = HitableList { list: vec![] };
    let mut rng = Rng::new(1);
    let ray = Ray::new(Vec3::zero(), Vec3::new(0, -ONE, 0));
    let c = ray.color(&scene, 0, &mut rng);
    assert_eq!((c.x, c.y, c.z), (ONE, ONE, ONE));
}

#[test]
fn sphere_hit_at_half_unit() {
    let s = Sphere {
        center: Vec3::new(0, 0, -ONE),
        radius: ONE / 2,
        material: gray(ONE / 2),
    };
    let ray = Ray::new(Vec3::zero(), Vec3::new(0, 0, -ONE));
    let mut rng = Rng::new(1);
    let hit = s.hit(&ray, 65, 1 << 40, &mut rng).expect("the ray points at the sphere");
    assert_eq!(hit.t, ONE / 2);
    assert_eq!((hit.point.x, hit.point.y, hit.point.z), (0, 0, -ONE / 2));
    assert_eq!((hit.normal.x, hit.normal.y, hit.normal.z), (0, 0, ONE));
}

#[test]
fn hollow_sphere_flips_normal_at_same_point() {
    let solid = Sphere {
        center: Vec3::new(0, 0, -ONE),
        radius: ONE / 2,
        material: gray(ONE / 2),
    };
    let hollow = Sphere { radius: -ONE / 2, ..solid };
    let ray = Ray::new(Vec3::zero(), Vec3::new(0, 0, -ONE));
    let mut rng = Rng::new(1);
    let a = solid.hit(&ray, 65, 1 << 40, &mut rng).unwrap();
    let b = hollow.hit(&ray, 65, 1 << 40, &mut rng).unwrap();
    assert_eq!(a.t, b.t);
    assert_eq!(a.point, b.point);
    assert_eq!((b.normal.x, b.normal.y, b.normal.z), (-a.normal.x, -a.normal.y, -a.normal.z));
}

#[test]
fn lambertian_attenuation_is_albedo() {
    let albedo = Vec3::new(1000, 30000, 65536);
    let m = Material::Lambertian(Lambertian { albedo });
    let ray = Ray::new(Vec3::new(ONE, 2 * ONE, 3 * ONE), Vec3::new(-ONE, -ONE, 0));
    let hit = RayHit::new(ONE, Vec3::new(5 * ONE, 0, 0), Vec3::new(0, ONE, 0), None);
    for seed in 0..16u64 {
        let mut rng = Rng::new(seed);
        let info = m.scatter(&ray, &hit, &mut rng);
        assert_eq!(info.attenuation, albedo);
        assert_eq!(info.scattered.origin, hit.point);
    }
}

#[test]
fn metal_without_fuzz_is_exact_mirror() {
    let m = Material::Metal(Metal { albedo: Vec3::new(ONE, ONE, ONE), fuzz: 0 });
    let ray = Ray::new(Vec3::zero(), Vec3::new(0, 0, -2 * ONE));
    let hit = RayHit::new(ONE, Vec3::new(0, 0, -ONE), Vec3::new(0, 0, ONE), None);
    let mut rng = Rng::new(9);
    let info = m.scatter(&ray, &hit, &mut rng);
    assert_eq!(info.attenuation, Vec3::new(ONE, ONE, ONE));
    assert_eq!((info.scattered.direction.x, info.scattered.direction.y, info.scattered.direction.z), (0, 0, ONE));
}

#[test]
fn dielectric_mostly_refracts_at_normal_incidence() {
    let m = Material::Dielectric(Dielectric { refraction_index: 98304 });
    let ray = Ray::new(Vec3::zero(), Vec3::new(0, 0, -ONE));
    let hit = RayHit::new(ONE, Vec3::new(0, 0, -ONE), Vec3::new(0, 0, ONE), None);
    let mut rng = Rng::new(2024);
    let trials = 10_000;
    let mut refracted = 0;
    for _ in 0..trials {
        let info = m.scatter(&ray, &hit, &mut rng);
        assert_eq!(info.attenuation, Vec3::new(ONE, ONE, ONE));
        if info.scattered.direction.z < 0 {
            refracted += 1;
        } else {
            assert_eq!(info.scattered.direction.z, ONE);
        }
    }
    // Schlick reflectance at cos = 1 and index 1.5 is about 4%.
    assert!(refracted > 9 * trials / 10, "only {refracted} of {trials} trials refracted");
}

#[test]
fn trapped_ray_terminates_black_at_depth_cap() {
    let mirror = Material::Metal(Metal { albedo: Vec3::new(ONE, ONE, ONE), fuzz: 0 });
    let scene = HitableList {
        list: vec![
            Hitable::Sphere(Sphere {
                center: Vec3::new(0, 0, -3 * ONE),
                radius: ONE,
                material: mirror,
            }),
            Hitable::Sphere(Sphere {
                center: Vec3::new(0, 0, 3 * ONE),
                radius: ONE,
                material: mirror,
            }),
        ],
    };
    let ray = Ray::new(Vec3::zero(), Vec3::new(0, 0, -ONE));
    let mut rng = Rng::new(1);
    let c = ray.color(&scene, 0, &mut rng);
    assert_eq!((c.x, c.y, c.z), (0, 0, 0));
}

#[test]
fn scene_returns_closest_of_two_spheres() {
    let near = Sphere {
        center: Vec3::new(0, 0, -ONE),
        radius: ONE / 2,
        material: gray(ONE / 2),
    };
    let far = Sphere {
        center: Vec3::new(0, 0, -4 * ONE),
        radius: ONE / 2,
        material: gray(ONE / 4),
    };
    // Order must not matter for which hit wins.
    let a = HitableList { list: vec![Hitable::Sphere(far), Hitable::Sphere(near)] };
    let b = HitableList { list: vec![Hitable::Sphere(near), Hitable::Sphere(far)] };
    let ray = Ray::new(Vec3::zero(), Vec3::new(0, 0, -ONE));
    let mut rng = Rng::new(1);
    let ha = a.hit(&ray, 65, 1 << 40, &mut rng).unwrap();
    let hb = b.hit(&ray, 65, 1 << 40, &mut rng).unwrap();
    assert_eq!(ha.t, ONE / 2);
    assert_eq!(hb.t, ONE / 2);
}

#[test]
fn empty_scene_misses() {
    let scene = HitableList { list: vec![] };
    let ray = Ray::new(Vec3::zero(), Vec3::new(ONE, ONE, ONE));
    let mut rng = Rng::new(1);
    assert!(scene.hit(&ray, 65, 1 << 40, &mut rng).is_none());
}

#[test]
fn plane_hit_inside_rectangle() {
    let p = Plane {
        center: Vec3::new(0, 0, -2 * ONE),
        normal: Vec3::new(0, 0, ONE),
        width: Vec3::new(2 * ONE, 0, 0),
        height: Vec3::new(0, 2 * ONE, 0),
        material: gray(ONE / 2),
    };
    let inside = Ray::new(Vec3::new(ONE / 2, ONE / 2, 0), Vec3::new(0, 0, -ONE));
    let mut rng = Rng::new(1);
    let hit = p.hit(&inside, 65, 1 << 40, &mut rng).expect("hits inside the extent");
    assert_eq!(hit.t, 2 * ONE);
    assert_eq!((hit.point.x, hit.point.y, hit.point.z), (ONE / 2, ONE / 2, -2 * ONE));
    assert_eq!((hit.normal.x, hit.normal.y, hit.normal.z), (0, 0, ONE));
    // Outside either extent there is no hit.
    let outside = Ray::new(Vec3::new(3 * ONE, ONE / 2, 0), Vec3::new(0, 0, -ONE));
    assert!(p.hit(&outside, 65, 1 << 40, &mut rng).is_none());
    // A parallel ray yields no hit rather than a division by zero.
    let parallel = Ray::new(Vec3::new(0, 0, 0), Vec3::new(ONE, 0, 0));
    assert!(p.hit(&parallel, 65, 1 << 40, &mut rng).is_none());
}

#[test]
fn triangle_hit_with_barycentrics_inside() {
    let t = Triangle {
        vertices: [
            Vec3::new(0, 0, -ONE),
            Vec3::new(2 * ONE, 0, -ONE),
            Vec3::new(0, 2 * ONE, -ONE),
        ],
        normal: Vec3::new(0, 0, ONE),
        material: gray(ONE / 2),
    };
    let ray = Ray::new(Vec3::new(ONE / 2, ONE / 2, 0), Vec3::new(0, 0, -ONE));
    let mut rng = Rng::new(1);
    let hit = t.hit(&ray, 65, 1 << 40, &mut rng).expect("crosses inside the triangle");
    assert_eq!(hit.t, ONE);
    assert_eq!((hit.point.x, hit.point.y, hit.point.z), (ONE / 2, ONE / 2, -ONE));
    // The geometric normal faces back along the ray.
    assert_eq!((hit.normal.x, hit.normal.y, hit.normal.z), (0, 0, -ONE));
    // Back face: approaching from behind, the determinant is negative.
    let behind = Ray::new(Vec3::new(ONE / 2, ONE / 2, -2 * ONE), Vec3::new(0, 0, ONE));
    assert!(t.hit(&behind, 65, 1 << 40, &mut rng).is_none());
    // Outside the barycentric range there is no hit.
    let outside = Ray::new(Vec3::new(3 * ONE, 3 * ONE, 0), Vec3::new(0, 0, -ONE));
    assert!(t.hit(&outside, 65, 1 << 40, &mut rng).is_none());
}

#[test]
fn dielectric_sphere_scene_shades_in_range() {
    let glass = Material::Dielectric(Dielectric { refraction_index: 98304 });
    let scene = HitableList {
        list: vec![
            Hitable::Sphere(Sphere {
                center: Vec3::new(0, 0, -2 * ONE),
                radius: ONE,
                material: glass,
            }),
        ],
    };
    let mut rng = Rng::new(31);
    for k in 0..64i64 {
        let ray = Ray::new(Vec3::zero(), Vec3::new(k * 512 - 16384, 0, -ONE));
        let c = ray.color(&scene, 0, &mut rng);
        for channel in [c.x, c.y, c.z] {
            assert!((0..=ONE).contains(&channel));
        }
    }
}

#[test]
fn reflect_head_on_is_reversed() {
    let r = Ray::reflect(Vec3::new(0, 0, -ONE), Vec3::new(0, 0, ONE));
    assert_eq!((r.x, r.y, r.z), (0, 0, ONE));
}

#[test]
fn refract_straight_through_at_normal_incidence() {
    let mut out = Vec3::zero();
    let ok = Ray::refract(Vec3::new(0, 0, -ONE), Vec3::new(0, 0, ONE), 43690, &mut out);
    assert!(ok);
    assert_eq!((out.x, out.y, out.z), (0, 0, -ONE));
}

#[test]
fn schlick_normal_incidence_is_r0() {
    // ((1 - r) / (1 + r))^2 for r = 2/3: about 0.04 of full scale.
    assert_eq!(Ray::schlick(ONE, 43690), 2621);
}

#[test]
fn vector_length_of_three_four_five() {
    let v = Vec3::new(3 * ONE, 4 * ONE, 0);
    assert_eq!(v.magnitude(), 5 * ONE);
    let n = v.normalize();
    assert_eq!((n.x, n.y, n.z), (39321, 52428, 0));
    assert_eq!(Vec3::zero().normalize(), Vec3::zero());
}

#[test]
fn random_unit_sphere_points_are_inside() {
    let mut rng = Rng::new(77);
    for _ in 0..1000 {
        let p = Ray::random_in_unit_sphere(&mut rng);
        assert!(p.magnitude2() < ONE);
    }
    for _ in 0..1000 {
        let d = Ray::random_in_unit_disk(&mut rng);
        assert!(d.magnitude() < ONE);
        assert_eq!(d.z, 0);
    }
}
