//! Spheres and their ray intersection test.
//!
//! The test solves the quadratic `|O + tD - C|^2 = r^2` and returns the
//! nearer admissible root; the whole computation is mirrored by
//! specification functions, so the contract pins the returned parameter,
//! point and normal exactly. The normal is the hit point minus the
//! center divided by the radius, so a negative radius — the hollow
//! sphere used for dielectric shells — yields the inward-facing normal
//! at the same geometric surface.

use vstd::prelude::*;
use crate::fixed::{
    absi, div_fix, fdiv, fmul, mul_fix, sqrt_fix_wide, sqrt_floor, tdiv, tdiv_wide,
    lemma_fmul_bound, lemma_sqrt_le, COORD_MAX, POINT_MAX, T_FAR, UNIT_MAX,
};
use crate::material::{scatter_info_ok, Material};
use crate::ray::{point_at_s, Ray};
use crate::ray_hit::{geo_matches, RayHit};
use crate::rng::Rng;
use crate::vec3::{lemma_dot_bound, sv_dot, sv_in, sv_norm2, sv_sub, v3, Vec3};

verus! {

/// A sphere. A negative radius flips the reported normal inward and
/// stands for a hollow surface.
#[derive(Clone, Copy, Debug)]
pub struct Sphere {
    pub center: Vec3,
    pub radius: i64,
    pub material: Material,
}

/// Origin-to-center offset of the quadratic.
pub open spec fn sphere_oc(s: Sphere, ray: Ray) -> (int, int, int) {
    sv_sub(v3(ray.origin), v3(s.center))
}

/// Leading coefficient: the squared direction length.
pub open spec fn sphere_qa(ray: Ray) -> int {
    sv_dot(v3(ray.direction), v3(ray.direction))
}

/// Half the linear coefficient.
pub open spec fn sphere_qb(s: Sphere, ray: Ray) -> int {
    sv_dot(sphere_oc(s, ray), v3(ray.direction))
}

/// Constant coefficient.
pub open spec fn sphere_qc(s: Sphere, ray: Ray) -> int {
    sv_norm2(sphere_oc(s, ray)) - fmul(s.radius as int, s.radius as int)
}

/// The quadratic's discriminant (in the halved-b form).
pub open spec fn sphere_disc(s: Sphere, ray: Ray) -> int {
    fmul(sphere_qb(s, ray), sphere_qb(s, ray)) - fmul(sphere_qa(ray), sphere_qc(s, ray))
}

/// The nearer root of the quadratic.
pub open spec fn sphere_t1(s: Sphere, ray: Ray) -> int {
    tdiv((-sphere_qb(s, ray) - sqrt_floor(sphere_disc(s, ray) * 65536)) * 65536, sphere_qa(ray))
}

/// The farther root of the quadratic.
pub open spec fn sphere_t2(s: Sphere, ray: Ray) -> int {
    tdiv((-sphere_qb(s, ray) + sqrt_floor(sphere_disc(s, ray) * 65536)) * 65536, sphere_qa(ray))
}

/// The surface normal at a point of the sphere: offset from the center
/// divided by the (signed) radius.
pub open spec fn sphere_normal_at(s: Sphere, p: (int, int, int)) -> (int, int, int) {
    (
        fdiv(p.0 - s.center.x as int, s.radius as int),
        fdiv(p.1 - s.center.y as int, s.radius as int),
        fdiv(p.2 - s.center.z as int, s.radius as int),
    )
}

/// Whether a root is an admissible hit: inside the query interval, with
/// the reached point and its normal inside the tracer's working range.
pub open spec fn sphere_tvalid(s: Sphere, ray: Ray, t: int, t_min: int, t_max: int) -> bool {
    &&& t_min < t < t_max
    &&& sv_in(point_at_s(ray, t), POINT_MAX as int)
    &&& sv_in(sphere_normal_at(s, point_at_s(ray, t)), UNIT_MAX as int)
}

/// The geometry of the hit the test reports: the nearer admissible root
/// if any, else the farther, else nothing.
pub open spec fn sphere_hit_geo(s: Sphere, ray: Ray, t_min: int, t_max: int) -> Option<
    (int, (int, int, int), (int, int, int)),
> {
    if sphere_disc(s, ray) > 0 && sphere_qa(ray) > 0 {
        if sphere_tvalid(s, ray, sphere_t1(s, ray), t_min, t_max) {
            let t = sphere_t1(s, ray);
            Some((t, point_at_s(ray, t), sphere_normal_at(s, point_at_s(ray, t))))
        } else if sphere_tvalid(s, ray, sphere_t2(s, ray), t_min, t_max) {
            let t = sphere_t2(s, ray);
            Some((t, point_at_s(ray, t), sphere_normal_at(s, point_at_s(ray, t))))
        } else {
            None
        }
    } else {
        None
    }
}

/// Narrowing the far bound keeps a sphere hit exactly when its
/// parameter stays below the bound: the property the scene's narrowing
/// scan rests on. It holds because the nearer root is tried first.
pub proof fn lemma_sphere_window(s: Sphere, ray: Ray, t_min: int, m1: int, m2: int)
    requires
        m1 <= m2,
    ensures
        sphere_hit_geo(s, ray, t_min, m1) == crate::ray_hit::clip_hit(
            sphere_hit_geo(s, ray, t_min, m2),
            m1,
        ),
{
    if sphere_disc(s, ray) > 0 && sphere_qa(ray) > 0 {
        crate::fixed::lemma_sqrt_floor_props(sphere_disc(s, ray) * 65536);
        let sq = sqrt_floor(sphere_disc(s, ray) * 65536);
        crate::fixed::lemma_tdiv_mono(
            (-sphere_qb(s, ray) - sq) * 65536,
            (-sphere_qb(s, ray) + sq) * 65536,
            sphere_qa(ray),
        );
        assert(sphere_t1(s, ray) <= sphere_t2(s, ray));
    }
}

/// Negating a sphere's radius leaves every hit at the same parameter
/// and the same geometric point, and exactly mirrors the reported
/// normal: the hollow sphere of dielectric shells.
pub proof fn lemma_hollow_sphere_mirrors_normal(
    s: Sphere,
    flipped: Sphere,
    ray: Ray,
    t_min: int,
    t_max: int,
)
    requires
        s.radius != 0,
        flipped.center == s.center,
        flipped.material == s.material,
        flipped.radius as int == -(s.radius as int),
    ensures
        sphere_hit_geo(flipped, ray, t_min, t_max).is_some() == sphere_hit_geo(
            s,
            ray,
            t_min,
            t_max,
        ).is_some(),
        sphere_hit_geo(s, ray, t_min, t_max).is_some() ==> {
            let g = sphere_hit_geo(s, ray, t_min, t_max).unwrap();
            let gf = sphere_hit_geo(flipped, ray, t_min, t_max).unwrap();
            gf.0 == g.0 && gf.1 == g.1 && gf.2 == crate::vec3::sv_neg(g.2)
        },
{
    let r = s.radius as int;
    assert((-r) * (-r) == r * r) by (nonlinear_arith);
    assert(sphere_qc(flipped, ray) == sphere_qc(s, ray));
    assert(sphere_disc(flipped, ray) == sphere_disc(s, ray));
    assert(sphere_t1(flipped, ray) == sphere_t1(s, ray));
    assert(sphere_t2(flipped, ray) == sphere_t2(s, ray));
    lemma_sphere_normal_flip(s, flipped, ray, sphere_t1(s, ray));
    lemma_sphere_normal_flip(s, flipped, ray, sphere_t2(s, ray));
}

/// At any point, the normal of the radius-negated sphere is the exact
/// negation of the original's, and is equally in range.
proof fn lemma_sphere_normal_flip(s: Sphere, flipped: Sphere, ray: Ray, t: int)
    requires
        s.radius != 0,
        flipped.center == s.center,
        flipped.radius as int == -(s.radius as int),
    ensures
        sphere_normal_at(flipped, point_at_s(ray, t)) == crate::vec3::sv_neg(
            sphere_normal_at(s, point_at_s(ray, t)),
        ),
        sv_in(sphere_normal_at(flipped, point_at_s(ray, t)), 0x4_0000) == sv_in(
            sphere_normal_at(s, point_at_s(ray, t)),
            0x4_0000,
        ),
{
    let p = point_at_s(ray, t);
    crate::fixed::lemma_tdiv_neg((p.0 - s.center.x as int) * 65536, s.radius as int);
    crate::fixed::lemma_tdiv_neg((p.1 - s.center.y as int) * 65536, s.radius as int);
    crate::fixed::lemma_tdiv_neg((p.2 - s.center.z as int) * 65536, s.radius as int);
}

impl Sphere {
    /// The parameter ranges the intersection code is verified for.
    pub open spec fn wf(self) -> bool {
        &&& self.center.bounded(COORD_MAX as int)
        &&& self.radius != 0
        &&& absi(self.radius as int) <= COORD_MAX as int
        &&& self.material.wf()
    }

    /// Try one root: accept it when it is admissible, handing back the
    /// parameter, point and normal.
    fn check_candidate(&self, ray: &Ray, t_wide: i128, t_min: i64, t_max: i64) -> (r: Option<
        (i64, Vec3, Vec3),
    >)
        requires
            self.wf(),
            ray.wf(),
            0 < t_min,
            t_max <= T_FAR,
        ensures
            match r {
                Some(v) => sphere_tvalid(*self, *ray, t_wide as int, t_min as int, t_max as int)
                    && v.0 == t_wide && v3(v.1) == point_at_s(*ray, t_wide as int) && v3(v.2)
                    == sphere_normal_at(*self, point_at_s(*ray, t_wide as int)) && v.1.bounded(
                    0x20_0000_0000,
                ) && v.2.bounded(0x4_0000) && t_min < v.0 < t_max,
                None => !sphere_tvalid(*self, *ray, t_wide as int, t_min as int, t_max as int),
            },
    {
        if t_wide <= t_min as i128 || t_wide >= t_max as i128 {
            return None;
        }
        let t: i64 = t_wide as i64;
        let p: Vec3 = ray.point_at(t);
        if !p.check_bounded(POINT_MAX) {
            return None;
        }
        let pc: Vec3 = p.minus(self.center);
        let n: Vec3 = Vec3 {
            x: div_fix(pc.x, self.radius),
            y: div_fix(pc.y, self.radius),
            z: div_fix(pc.z, self.radius),
        };
        if !n.check_bounded(UNIT_MAX) {
            return None;
        }
        Some((t, p, n))
    }

    /// Intersect a ray with the sphere over `(t_min, t_max)`.
    pub fn hit(&self, ray: &Ray, t_min: i64, t_max: i64, rng: &mut Rng) -> (r: Option<RayHit>)
        requires
            self.wf(),
            ray.wf(),
            0 < t_min,
            t_max <= T_FAR,
        ensures
            geo_matches(sphere_hit_geo(*self, *ray, t_min as int, t_max as int), r),
            r.is_some() ==> {
                let h = r.unwrap();
                &&& h.geo_wf()
                &&& t_min < h.t < t_max
                &&& scatter_info_ok(self.material, *ray, h)
            },
    {
        let oc: Vec3 = ray.origin.minus(self.center);
        let qa: i64 = ray.direction.dot(ray.direction);
        let qb: i64 = oc.dot(ray.direction);
        proof {
            lemma_fmul_bound(self.radius as int, self.radius as int, 0x4000_0000, 0x4000_0000);
            lemma_fmul_bound(qb as int, qb as int, 0x3000_0000_0000_0000, 0x3000_0000_0000_0000);
        }
        let qc: i64 = oc.dot(oc) - mul_fix(self.radius, self.radius);
        proof {
            lemma_fmul_bound(qa as int, qc as int, 0x3000_0000_0000_0000, 0x4000_0000_0000_0000);
        }
        let disc: i128 = tdiv_wide((qb as i128) * (qb as i128), 65536) - tdiv_wide(
            (qa as i128) * (qc as i128),
            65536,
        );
        if disc > 0 && qa > 0 {
            let sq: i128 = sqrt_fix_wide(disc);
            proof {
                lemma_sqrt_le(disc as int * 65536, 0x8000_0000_0000_0000);
            }
            let t1: i128 = tdiv_wide((-(qb as i128) - sq) * 65536, qa as i128);
            let c1: Option<(i64, Vec3, Vec3)> = self.check_candidate(ray, t1, t_min, t_max);
            match c1 {
                Some(v) => {
                    let mut h: RayHit = RayHit::new(v.0, v.1, v.2, None);
                    let info = self.material.scatter(ray, &h, rng);
                    h.material = Some(info);
                    Some(h)
                },
                None => {
                    let t2: i128 = tdiv_wide((-(qb as i128) + sq) * 65536, qa as i128);
                    let c2: Option<(i64, Vec3, Vec3)> = self.check_candidate(ray, t2, t_min, t_max);
                    match c2 {
                        Some(v) => {
                            let mut h: RayHit = RayHit::new(v.0, v.1, v.2, None);
                            let info = self.material.scatter(ray, &h, rng);
                            h.material = Some(info);
                            Some(h)
                        },
                        None => None,
                    }
                },
            }
        } else {
            None
        }
    }
}

} // verus!
