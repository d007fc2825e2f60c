//! Triangles and their ray intersection test (Möller–Trumbore).
//!
//! The test computes the barycentric coordinates of the ray's crossing
//! of the triangle's plane and accepts hits strictly inside the
//! triangle and the query interval. Two choices depart deliberately
//! from a common phrasing of this algorithm and follow the intersection
//! protocol instead: back-facing and near-parallel rays are culled
//! against a dedicated small determinant epsilon rather than the
//! caller's distance bound, and the accepted parameter range is the
//! caller's `(t_min, t_max)` rather than a hard-coded upper bound, so a
//! scene can rely on the closest-hit contract. The reported normal is
//! the geometric one, `-normalize(edge1 × edge2)`.

use vstd::prelude::*;
use crate::fixed::{fdiv, tdiv_wide, POINT_MAX, T_FAR, TRI_COORD_MAX};
use crate::material::{scatter_info_ok, Material};
use crate::ray::{point_at_s, Ray};
use crate::ray_hit::{geo_matches, RayHit};
use crate::rng::Rng;
use crate::vec3::{
    lemma_cross_in, lemma_dot_bound, sv_cross, sv_dot, sv_in, sv_neg, sv_sub, sv_unit, v3, Vec3,
};

verus! {

/// Back-face/parallel culling threshold for the determinant (~0.001).
pub const DET_EPS: i64 = 65;

/// A triangle with a carried normal and an attached material. The
/// carried normal is mesh data; the intersection test reports the
/// geometric normal.
#[derive(Clone, Copy, Debug)]
pub struct Triangle {
    pub vertices: [Vec3; 3],
    pub normal: Vec3,
    pub material: Material,
}

/// First edge out of vertex 0.
pub open spec fn tri_e1(t: Triangle) -> (int, int, int) {
    sv_sub(v3(t.vertices[1]), v3(t.vertices[0]))
}

/// Second edge out of vertex 0.
pub open spec fn tri_e2(t: Triangle) -> (int, int, int) {
    sv_sub(v3(t.vertices[2]), v3(t.vertices[0]))
}

/// The determinant of the barycentric system.
pub open spec fn tri_det(t: Triangle, ray: Ray) -> int {
    sv_dot(tri_e1(t), sv_cross(v3(ray.direction), tri_e2(t)))
}

/// Offset of the ray origin from vertex 0.
pub open spec fn tri_s(t: Triangle, ray: Ray) -> (int, int, int) {
    sv_sub(v3(ray.origin), v3(t.vertices[0]))
}

/// First barycentric coordinate.
pub open spec fn tri_u(t: Triangle, ray: Ray) -> int {
    fdiv(sv_dot(tri_s(t, ray), sv_cross(v3(ray.direction), tri_e2(t))), tri_det(t, ray))
}

/// Second barycentric coordinate.
pub open spec fn tri_v(t: Triangle, ray: Ray) -> int {
    fdiv(sv_dot(v3(ray.direction), sv_cross(tri_s(t, ray), tri_e1(t))), tri_det(t, ray))
}

/// The ray parameter of the crossing.
pub open spec fn tri_t(t: Triangle, ray: Ray) -> int {
    fdiv(sv_dot(tri_e2(t), sv_cross(tri_s(t, ray), tri_e1(t))), tri_det(t, ray))
}

/// The geometric normal the test reports.
pub open spec fn tri_normal(t: Triangle) -> (int, int, int) {
    sv_neg(sv_unit(sv_cross(tri_e1(t), tri_e2(t))))
}

/// The geometry of the hit the test reports.
pub open spec fn tri_hit_geo(tr: Triangle, ray: Ray, t_min: int, t_max: int) -> Option<
    (int, (int, int, int), (int, int, int)),
> {
    if tri_det(tr, ray) < DET_EPS {
        None
    } else if tri_u(tr, ray) < 0 || tri_u(tr, ray) > 65536 {
        None
    } else if tri_v(tr, ray) < 0 || tri_u(tr, ray) + tri_v(tr, ray) > 65536 {
        None
    } else if !(t_min < tri_t(tr, ray) < t_max) {
        None
    } else if !sv_in(point_at_s(ray, tri_t(tr, ray)), POINT_MAX as int) {
        None
    } else {
        Some((tri_t(tr, ray), point_at_s(ray, tri_t(tr, ray)), tri_normal(tr)))
    }
}

/// Narrowing the far bound keeps a triangle hit exactly when its
/// parameter stays below the bound.
pub proof fn lemma_tri_window(tr: Triangle, ray: Ray, t_min: int, m1: int, m2: int)
    requires
        m1 <= m2,
    ensures
        tri_hit_geo(tr, ray, t_min, m1) == crate::ray_hit::clip_hit(
            tri_hit_geo(tr, ray, t_min, m2),
            m1,
        ),
{
}

impl Triangle {
    /// The parameter ranges the intersection code is verified for.
    pub open spec fn wf(self) -> bool {
        &&& self.vertices[0].bounded(TRI_COORD_MAX as int)
        &&& self.vertices[1].bounded(TRI_COORD_MAX as int)
        &&& self.vertices[2].bounded(TRI_COORD_MAX as int)
        &&& self.material.wf()
    }

    /// Intersect a ray with the triangle over `(t_min, t_max)`.
    pub fn hit(&self, ray: &Ray, t_min: i64, t_max: i64, rng: &mut Rng) -> (r: Option<RayHit>)
        requires
            self.wf(),
            ray.wf(),
            0 < t_min,
            t_max <= T_FAR,
        ensures
            geo_matches(tri_hit_geo(*self, *ray, t_min as int, t_max as int), r),
            r.is_some() ==> {
                let h = r.unwrap();
                &&& h.geo_wf()
                &&& t_min < h.t < t_max
                &&& scatter_info_ok(self.material, *ray, h)
            },
    {
        let v0: Vec3 = self.vertices[0];
        let v1: Vec3 = self.vertices[1];
        let v2: Vec3 = self.vertices[2];
        let e1: Vec3 = v1.minus(v0);
        let e2: Vec3 = v2.minus(v0);
        proof {
            lemma_cross_in(v3(ray.direction), v3(e2), 0x10_0000_0000, 0x400_0000);
        }
        let hv: Vec3 = ray.direction.cross(e2);
        let det: i128 = e1.dot_wide(hv);
        if det < DET_EPS as i128 {
            return None;
        }
        proof {
            lemma_dot_bound(v3(e1), v3(hv), 0x400_0000, 0x8000_0000_0000);
        }
        let sv: Vec3 = ray.origin.minus(v0);
        let sh: i128 = sv.dot_wide(hv);
        proof {
            lemma_dot_bound(v3(sv), v3(hv), 0x40_0000_0000, 0x8000_0000_0000);
        }
        let bu: i128 = tdiv_wide(sh * 65536, det);
        if bu < 0 || bu > 65536 {
            return None;
        }
        proof {
            lemma_cross_in(v3(sv), v3(e1), 0x40_0000_0000, 0x400_0000);
        }
        let qv: Vec3 = sv.cross(e1);
        let dq: i128 = ray.direction.dot_wide(qv);
        proof {
            lemma_dot_bound(v3(ray.direction), v3(qv), 0x10_0000_0000, 0x2_0000_0000_0000);
        }
        let bv: i128 = tdiv_wide(dq * 65536, det);
        if bv < 0 || bu + bv > 65536 {
            return None;
        }
        let tq: i128 = e2.dot_wide(qv);
        proof {
            lemma_dot_bound(v3(e2), v3(qv), 0x400_0000, 0x2_0000_0000_0000);
        }
        let t_wide: i128 = tdiv_wide(tq * 65536, det);
        if t_wide <= t_min as i128 || t_wide >= t_max as i128 {
            return None;
        }
        let t: i64 = t_wide as i64;
        let hp: Vec3 = ray.point_at(t);
        if !hp.check_bounded(POINT_MAX) {
            return None;
        }
        proof {
            lemma_cross_in(v3(e1), v3(e2), 0x400_0000, 0x400_0000);
        }
        let n: Vec3 = e1.cross(e2).normalize().negate();
        let mut h: RayHit = RayHit::new(t, hp, n, None);
        let info = self.material.scatter(ray, &h, rng);
        h.material = Some(info);
        Some(h)
    }
}

} // verus!
