//! The closed set of primitives a scene can hold, with one dispatching
//! intersection test.

use vstd::prelude::*;
use crate::material::{scatter_info_ok, Material};
use crate::plane::{plane_hit_geo, Plane};
use crate::ray::Ray;
use crate::ray_hit::{geo_matches, RayHit};
use crate::rng::Rng;
use crate::sphere::{sphere_hit_geo, Sphere};
use crate::triangle::{tri_hit_geo, Triangle};

verus! {

/// A geometric primitive able to test intersection against a ray.
#[derive(Clone, Copy, Debug)]
pub enum Hitable {
    Sphere(Sphere),
    Plane(Plane),
    Triangle(Triangle),
}

/// The geometry of the hit a primitive reports, by kind.
pub open spec fn hit_geo(h: Hitable, ray: Ray, t_min: int, t_max: int) -> Option<
    (int, (int, int, int), (int, int, int)),
> {
    match h {
        Hitable::Sphere(s) => sphere_hit_geo(s, ray, t_min, t_max),
        Hitable::Plane(p) => plane_hit_geo(p, ray, t_min, t_max),
        Hitable::Triangle(t) => tri_hit_geo(t, ray, t_min, t_max),
    }
}

/// A reported hit lies strictly inside the query interval, whatever the
/// primitive.
pub proof fn lemma_hit_geo_range(h: Hitable, ray: Ray, t_min: int, t_max: int)
    ensures
        match hit_geo(h, ray, t_min, t_max) {
            Some(g) => t_min < g.0 < t_max,
            None => true,
        },
{
}

/// Narrowing the far bound keeps a hit exactly when its parameter stays
/// below the bound, whatever the primitive.
pub proof fn lemma_hit_geo_window(h: Hitable, ray: Ray, t_min: int, m1: int, m2: int)
    requires
        m1 <= m2,
    ensures
        hit_geo(h, ray, t_min, m1) == crate::ray_hit::clip_hit(hit_geo(h, ray, t_min, m2), m1),
{
    match h {
        Hitable::Sphere(s) => crate::sphere::lemma_sphere_window(s, ray, t_min, m1, m2),
        Hitable::Plane(p) => crate::plane::lemma_plane_window(p, ray, t_min, m1, m2),
        Hitable::Triangle(t) => crate::triangle::lemma_tri_window(t, ray, t_min, m1, m2),
    }
}

impl Hitable {
    /// The parameter ranges the intersection code is verified for.
    pub open spec fn wf(self) -> bool {
        match self {
            Hitable::Sphere(s) => s.wf(),
            Hitable::Plane(p) => p.wf(),
            Hitable::Triangle(t) => t.wf(),
        }
    }

    /// The material bound to the primitive.
    pub open spec fn material_of(self) -> Material {
        match self {
            Hitable::Sphere(s) => s.material,
            Hitable::Plane(p) => p.material,
            Hitable::Triangle(t) => t.material,
        }
    }

    /// Intersect a ray with the primitive over `(t_min, t_max)`.
    pub fn hit(&self, ray: &Ray, t_min: i64, t_max: i64, rng: &mut Rng) -> (r: Option<RayHit>)
        requires
            self.wf(),
            ray.wf(),
            0 < t_min,
            t_max <= crate::fixed::T_FAR,
        ensures
            geo_matches(hit_geo(*self, *ray, t_min as int, t_max as int), r),
            r.is_some() ==> {
                let h = r.unwrap();
                &&& h.geo_wf()
                &&& t_min < h.t < t_max
                &&& scatter_info_ok(self.material_of(), *ray, h)
            },
    {
        match self {
            Hitable::Sphere(s) => s.hit(ray, t_min, t_max, rng),
            Hitable::Plane(p) => p.hit(ray, t_min, t_max, rng),
            Hitable::Triangle(t) => t.hit(ray, t_min, t_max, rng),
        }
    }
}

} // verus!
