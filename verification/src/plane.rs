//! Finite rectangles ("planes") and their ray intersection test.
//!
//! The rectangle is a center, a normal, and two in-plane basis vectors
//! whose lengths are its extents. The parameter solves the plane
//! equation; the hit point's offset from the center is projected onto
//! the basis vectors and accepted only inside both extents. A ray
//! parallel to the plane — a zero fixed-point denominator — and a
//! degenerate basis vector of zero computed length report no hit
//! instead of dividing by zero.

use vstd::prelude::*;
use crate::fixed::{fdiv, tdiv_wide, COORD_MAX, POINT_MAX, T_FAR, UNIT_MAX};
use crate::material::{scatter_info_ok, Material};
use crate::ray::{point_at_s, Ray};
use crate::ray_hit::{geo_matches, RayHit};
use crate::rng::Rng;
use crate::vec3::{sv_dot, sv_in, sv_len, sv_sub, v3, Vec3};

verus! {

/// A finite rectangle with an attached material.
#[derive(Clone, Copy, Debug)]
pub struct Plane {
    pub center: Vec3,
    pub normal: Vec3,
    pub width: Vec3,
    pub height: Vec3,
    pub material: Material,
}

/// Denominator of the plane equation: incidence of the ray direction.
pub open spec fn plane_denom(p: Plane, ray: Ray) -> int {
    sv_dot(v3(ray.direction), v3(p.normal))
}

/// Numerator of the plane equation.
pub open spec fn plane_num(p: Plane, ray: Ray) -> int {
    sv_dot(sv_sub(v3(p.center), v3(ray.origin)), v3(p.normal))
}

/// The ray parameter at which the ray meets the carrier plane.
pub open spec fn plane_t(p: Plane, ray: Ray) -> int {
    fdiv(plane_num(p, ray), plane_denom(p, ray))
}

/// Projection of the hit offset onto one basis vector, scaled to the
/// basis vector's length.
pub open spec fn plane_proj(p: Plane, ray: Ray, t: int, basis: Vec3) -> int {
    fdiv(sv_dot(sv_sub(point_at_s(ray, t), v3(p.center)), v3(basis)), sv_len(v3(basis)))
}

/// The geometry of the hit the test reports.
pub open spec fn plane_hit_geo(p: Plane, ray: Ray, t_min: int, t_max: int) -> Option<
    (int, (int, int, int), (int, int, int)),
> {
    if plane_denom(p, ray) == 0 {
        None
    } else {
        let t = plane_t(p, ray);
        if !(t_min < t < t_max) {
            None
        } else if !sv_in(point_at_s(ray, t), POINT_MAX as int) {
            None
        } else if sv_len(v3(p.width)) == 0 || sv_len(v3(p.height)) == 0 {
            None
        } else if 0 < plane_proj(p, ray, t, p.width) < sv_len(v3(p.width)) && 0 < plane_proj(
            p,
            ray,
            t,
            p.height,
        ) < sv_len(v3(p.height)) {
            Some((t, point_at_s(ray, t), v3(p.normal)))
        } else {
            None
        }
    }
}

/// Narrowing the far bound keeps a rectangle hit exactly when its
/// parameter stays below the bound.
pub proof fn lemma_plane_window(p: Plane, ray: Ray, t_min: int, m1: int, m2: int)
    requires
        m1 <= m2,
    ensures
        plane_hit_geo(p, ray, t_min, m1) == crate::ray_hit::clip_hit(
            plane_hit_geo(p, ray, t_min, m2),
            m1,
        ),
{
}

impl Plane {
    /// The parameter ranges the intersection code is verified for; the
    /// stored normal is expected roughly unit length, as the hit records
    /// it carries demand.
    pub open spec fn wf(self) -> bool {
        &&& self.center.bounded(COORD_MAX as int)
        &&& self.normal.bounded(UNIT_MAX as int)
        &&& self.width.bounded(COORD_MAX as int)
        &&& self.height.bounded(COORD_MAX as int)
        &&& self.material.wf()
    }

    /// Intersect a ray with the rectangle over `(t_min, t_max)`.
    pub fn hit(&self, ray: &Ray, t_min: i64, t_max: i64, rng: &mut Rng) -> (r: Option<RayHit>)
        requires
            self.wf(),
            ray.wf(),
            0 < t_min,
            t_max <= T_FAR,
        ensures
            geo_matches(plane_hit_geo(*self, *ray, t_min as int, t_max as int), r),
            r.is_some() ==> {
                let h = r.unwrap();
                &&& h.geo_wf()
                &&& t_min < h.t < t_max
                &&& scatter_info_ok(self.material, *ray, h)
            },
    {
        let denom: i64 = ray.direction.dot(self.normal);
        if denom == 0 {
            return None;
        }
        let co: Vec3 = self.center.minus(ray.origin);
        let num: i64 = co.dot(self.normal);
        let t_wide: i128 = tdiv_wide((num as i128) * 65536, denom as i128);
        if t_wide <= t_min as i128 || t_wide >= t_max as i128 {
            return None;
        }
        let t: i64 = t_wide as i64;
        let hp: Vec3 = ray.point_at(t);
        if !hp.check_bounded(POINT_MAX) {
            return None;
        }
        let wl: i64 = self.width.magnitude();
        let hl: i64 = self.height.magnitude();
        if wl == 0 || hl == 0 {
            return None;
        }
        let off: Vec3 = hp.minus(self.center);
        let d1: i64 = off.dot(self.width);
        let proj1: i128 = tdiv_wide((d1 as i128) * 65536, wl as i128);
        let d2: i64 = off.dot(self.height);
        let proj2: i128 = tdiv_wide((d2 as i128) * 65536, hl as i128);
        if 0 < proj1 && proj1 < wl as i128 && 0 < proj2 && proj2 < hl as i128 {
            let mut h: RayHit = RayHit::new(t, hp, self.normal, None);
            let info = self.material.scatter(ray, &h, rng);
            h.material = Some(info);
            Some(h)
        } else {
            None
        }
    }
}

} // verus!
