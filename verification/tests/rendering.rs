//! The camera, the pixel sampler, the generator and mesh assembly.

use pathtracer::camera::Camera;
use pathtracer::hitable::Hitable;
use pathtracer::hitable_list::HitableList;
use pathtracer::material::{Lambertian, Material};
use pathtracer::model_loader::mesh_triangles;
use pathtracer::ray::Ray;
use pathtracer::render::render;
use pathtracer::rng::Rng;
use pathtracer::sphere::Sphere;
use pathtracer::vec3::Vec3;

const ONE: i64 = 65536;

fn test_camera(aperture: i64) -> Camera {
    Camera::new(
        Vec3::new(0, 0, 5 * ONE),
        Vec3::new(0, 0, -ONE),
        Vec3::new(0, ONE, 0),
        60 * ONE,
        (16 * ONE) / 9,
        aperture,
        6 * ONE,
    )
}

fn one_sphere_scene() -> HitableList {
    HitableList {
        list: vec![
            Hitable::Sphere(Sphere {
                center: Vec3::new(0, 0, -ONE),
                radius: ONE / 2,
                material: Material::Lambertian(Lambertian {
                    albedo: Vec3::new(ONE / 2, ONE / 2, ONE / 2),
                }),
            }),
        ],
    }
}

#[test]
fn generator_streams_repeat_for_equal_seeds() {
    let mut a = Rng::new(123456789);
    let mut b = Rng::new(123456789);
    for _ in 0..100 {
        assert_eq!(a.next_u64(), b.next_u64());
    }
    let mut c = Rng::stream(5, 0);
    let mut d = Rng::stream(5, 1);
    assert_ne!(c.next_u64(), d.next_u64());
}

#[test]
fn generator_units_are_in_range() {
    let mut rng = Rng::new(42);
    for _ in 0..10_000 {
        let u = rng.next_unit();
        assert!((0..65536).contains(&u));
    }
}

#[test]
fn samplers_are_functions_of_the_generator_state() {
    let mut a = Rng::new(5);
    let mut b = Rng::new(5);
    let p = Ray::random_in_unit_sphere(&mut a);
    let q = Ray::random_in_unit_sphere(&mut b);
    assert_eq!(p, q);
    assert_eq!(a, b);
    let u = Ray::random_in_unit_disk(&mut a);
    let w = Ray::random_in_unit_disk(&mut b);
    assert_eq!(u, w);
    assert_eq!(a, b);
}

#[test]
fn zero_aperture_casts_identical_rays() {
    let cam = test_camera(0);
    let mut rng1 = Rng::new(1);
    let mut rng2 = Rng::new(999_999);
    let r1 = cam.get_ray(ONE / 3, ONE / 7, &mut rng1);
    let r2 = cam.get_ray(ONE / 3, ONE / 7, &mut rng2);
    assert_eq!(r1, r2);
    let r3 = cam.get_ray(ONE / 3, ONE / 7, &mut rng1);
    assert_eq!(r1, r3);
}

#[test]
fn wide_aperture_jitters_ray_origins() {
    let cam = test_camera(ONE / 2);
    let mut rng = Rng::new(3);
    let mut saw_jitter = false;
    let first = cam.get_ray(ONE / 2, ONE / 2, &mut rng);
    for _ in 0..32 {
        if cam.get_ray(ONE / 2, ONE / 2, &mut rng).origin != first.origin {
            saw_jitter = true;
        }
    }
    assert!(saw_jitter);
}

#[test]
fn rendering_twice_with_one_seed_is_identical() {
    let scene = one_sphere_scene();
    let cam = test_camera(ONE / 8);
    let a = render(&scene, &cam, 4, 4, 2, 42);
    let b = render(&scene, &cam, 4, 4, 2, 42);
    assert_eq!(a.width, 4);
    assert_eq!(a.height, 4);
    assert_eq!(a.pixels, b.pixels);
}

#[test]
fn empty_scene_renders_sky_with_full_blue() {
    let scene = HitableList { list: vec![] };
    let cam = test_camera(0);
    let img = render(&scene, &cam, 3, 2, 4, 7);
    assert_eq!(img.pixels.len(), 2);
    for row in &img.pixels {
        assert_eq!(row.len(), 3);
        for p in row {
            // The sky's blue channel is exactly full everywhere.
            assert_eq!(p.blue, 255);
            assert!(p.red >= 180);
        }
    }
}

#[test]
fn mesh_renders_deterministically() {
    let positions = vec![
        Vec3::new(-2 * ONE, -2 * ONE, -ONE),
        Vec3::new(2 * ONE, -2 * ONE, -ONE),
        Vec3::new(-2 * ONE, 2 * ONE, -ONE),
        Vec3::new(2 * ONE, 2 * ONE, -ONE),
    ];
    let normals = vec![Vec3::new(0, 0, ONE); 4];
    let indices = vec![0u32, 1, 2, 2, 1, 3];
    let material = Material::Lambertian(Lambertian { albedo: Vec3::new(16384, 22937, 39321) });
    let triangles = mesh_triangles(&positions, &normals, &indices, material).unwrap();
    let scene = HitableList { list: triangles.into_iter().map(Hitable::Triangle).collect() };
    let cam = test_camera(0);
    let a = render(&scene, &cam, 4, 4, 2, 11);
    let b = render(&scene, &cam, 4, 4, 2, 11);
    assert_eq!(a.pixels, b.pixels);
}

#[test]
fn mesh_triangles_builds_faces_in_index_order() {
    let positions = vec![
        Vec3::new(0, 0, 0),
        Vec3::new(ONE, 0, 0),
        Vec3::new(0, ONE, 0),
        Vec3::new(ONE, ONE, 0),
    ];
    let normals = vec![
        Vec3::new(0, 0, ONE),
        Vec3::new(0, 0, ONE),
        Vec3::new(0, 0, -ONE),
        Vec3::new(0, 0, ONE),
    ];
    let indices = vec![0u32, 1, 2, 2, 1, 3];
    let material = Material::Lambertian(Lambertian { albedo: Vec3::new(16384, 22937, 39321) });
    let ts = mesh_triangles(&positions, &normals, &indices, material).expect("a whole mesh");
    assert_eq!(ts.len(), 2);
    assert_eq!(ts[0].vertices[0], positions[0]);
    assert_eq!(ts[0].vertices[1], positions[1]);
    assert_eq!(ts[0].vertices[2], positions[2]);
    assert_eq!(ts[0].normal, normals[0]);
    assert_eq!(ts[1].vertices[0], positions[2]);
    assert_eq!(ts[1].normal, normals[2]);
}

#[test]
fn mesh_triangles_rejects_malformed_meshes() {
    let positions = vec![Vec3::new(0, 0, 0), Vec3::new(ONE, 0, 0), Vec3::new(0, ONE, 0)];
    let normals = vec![Vec3::new(0, 0, ONE); 3];
    let material = Material::Lambertian(Lambertian { albedo: Vec3::new(ONE, ONE, ONE) });
    // An index count that is not whole faces.
    assert!(mesh_triangles(&positions, &normals, &vec![0u32, 1], material).is_none());
    // An index past the vertex table.
    assert!(mesh_triangles(&positions, &normals, &vec![0u32, 1, 9], material).is_none());
    // An index past the normal table.
    let short_normals = vec![Vec3::new(0, 0, ONE); 2];
    assert!(mesh_triangles(&positions, &short_normals, &vec![0u32, 1, 2], material).is_none());
    // A vertex outside the triangle coordinate range.
    let huge = vec![Vec3::new(0x400_0000, 0, 0), Vec3::new(ONE, 0, 0), Vec3::new(0, ONE, 0)];
    assert!(mesh_triangles(&huge, &normals, &vec![0u32, 1, 2], material).is_none());
    // The empty mesh is trivially whole.
    let none: Vec<u32> = vec![];
    assert_eq!(mesh_triangles(&positions, &normals, &none, material).unwrap().len(), 0);
}
