//! The reflectance models: diffuse, specular and dielectric scattering.
//!
//! A material, given the incoming ray and a hit record, produces an
//! attenuation color and a scattered ray. All three models always
//! scatter, as the renderer expects. The attenuation is specified
//! exactly — it is a function of the material alone — and the scattered
//! direction is pinned up to the random draw it consumes: diffuse and
//! fuzzed-metal directions are an exact formula over *some* point of the
//! unit sphere, a fuzz-free metal mirror is deterministic, and a
//! dielectric direction is either the mirror reflection or the Snell
//! refraction for the incidence side and index ratio at the hit.

use vstd::prelude::*;
use crate::fixed::{absi, div_fix, fdiv, mul_fix, lemma_fdiv_bound, POINT_MAX, UNIT_MAX};
use crate::ray::{reflect_s, refract_dir_s, refract_disc_s, Ray};
use crate::ray_hit::RayHit;
use crate::rng::Rng;
use crate::vec3::{lemma_scale_by_zero, sv_add, sv_dot, sv_neg, sv_norm2, sv_scale, v3, Vec3};

verus! {

/// A diffuse surface: bounces randomly, attenuates by its albedo.
#[derive(Clone, Copy, Debug)]
pub struct Lambertian {
    pub albedo: Vec3,
}

/// A specular surface: mirror reflection perturbed by `fuzz`.
#[derive(Clone, Copy, Debug)]
pub struct Metal {
    pub albedo: Vec3,
    pub fuzz: i64,
}

/// A clear refracting surface such as glass.
#[derive(Clone, Copy, Debug)]
pub struct Dielectric {
    pub refraction_index: i64,
}

/// What a scattering event yields: the retained color fraction and the
/// outgoing ray.
#[derive(Clone, Copy, Debug)]
pub struct MaterialHitInfo {
    pub attenuation: Vec3,
    pub scattered: Ray,
}

/// The closed set of reflectance models a primitive can carry.
#[derive(Clone, Copy, Debug)]
pub enum Material {
    Lambertian(Lambertian),
    Metal(Metal),
    Dielectric(Dielectric),
}

/// All components in [0, 1]: a color.
pub open spec fn sv_color(v: (int, int, int)) -> bool {
    &&& 0 <= v.0 <= 65536
    &&& 0 <= v.1 <= 65536
    &&& 0 <= v.2 <= 65536
}

/// The fuzz actually applied: clamped to at most 1.0.
pub open spec fn fuzz_clamped(f: int) -> int {
    if f > 65536 {
        65536
    } else {
        f
    }
}

/// The outward-facing normal a dielectric refracts against: flipped when
/// the ray leaves the medium.
pub open spec fn dielectric_outward(din: (int, int, int), normal: (int, int, int)) -> (
    int,
    int,
    int,
) {
    if sv_dot(din, normal) > 0 {
        sv_neg(normal)
    } else {
        normal
    }
}

/// The effective refraction ratio: the index itself when leaving the
/// medium, its reciprocal when entering.
pub open spec fn dielectric_ratio(d: Dielectric, din: (int, int, int), normal: (int, int, int)) -> int {
    if sv_dot(din, normal) > 0 {
        d.refraction_index as int
    } else {
        fdiv(65536, d.refraction_index as int)
    }
}

/// The ways a scattered direction `dout` may relate to the incoming
/// direction `din` and the hit normal, by material. A dielectric whose
/// refraction discriminant is not positive — total internal reflection —
/// must take the mirror branch.
pub open spec fn scatter_dir_ok(
    m: Material,
    din: (int, int, int),
    normal: (int, int, int),
    dout: (int, int, int),
) -> bool {
    match m {
        Material::Lambertian(_) => exists|p: (int, int, int)|
            sv_norm2(p) < 65536 && dout == sv_add(normal, p),
        Material::Metal(mt) => exists|p: (int, int, int)|
            sv_norm2(p) < 65536 && dout == sv_add(
                reflect_s(din, normal),
                sv_scale(p, fuzz_clamped(mt.fuzz as int)),
            ),
        Material::Dielectric(d) => {
            let outward = dielectric_outward(din, normal);
            let ratio = dielectric_ratio(d, din, normal);
            &&& (dout == reflect_s(din, normal) || dout == refract_dir_s(din, outward, ratio))
            &&& (refract_disc_s(din, outward, ratio) <= 0 ==> dout == reflect_s(din, normal))
        },
    }
}

/// What every intersection test guarantees of the material response it
/// resolves at the hit: the attenuation of the primitive's own material,
/// and a scattered ray rooted at the hit point whose direction obeys
/// that material's scattering rule.
pub open spec fn scatter_info_ok(m: Material, ray: Ray, h: RayHit) -> bool {
    match h.material {
        Some(info) => {
            &&& v3(info.attenuation) == m.attenuation_of()
            &&& sv_color(v3(info.attenuation))
            &&& info.scattered.origin == h.point
            &&& info.scattered.wf()
            &&& scatter_dir_ok(m, v3(ray.direction), v3(h.normal), v3(info.scattered.direction))
            &&& (is_mirror_metal(m) ==> v3(info.scattered.direction) == reflect_s(
                v3(ray.direction),
                v3(h.normal),
            ))
        },
        None => false,
    }
}

/// True of a metal with no fuzz: its bounce is the exact mirror.
pub open spec fn is_mirror_metal(m: Material) -> bool {
    match m {
        Material::Metal(mt) => mt.fuzz <= 0,
        _ => false,
    }
}

impl Material {
    /// The parameter ranges the scattering code is verified for.
    pub open spec fn wf(self) -> bool {
        match self {
            Material::Lambertian(l) => sv_color(v3(l.albedo)),
            Material::Metal(m) => sv_color(v3(m.albedo)) && 0 <= m.fuzz,
            Material::Dielectric(d) => 65536 < d.refraction_index <= 0x10_0000,
        }
    }

    /// Attenuation is deterministic: the albedo for diffuse and metal
    /// surfaces, white for a dielectric.
    pub open spec fn attenuation_of(self) -> (int, int, int) {
        match self {
            Material::Lambertian(l) => v3(l.albedo),
            Material::Metal(m) => v3(m.albedo),
            Material::Dielectric(_) => (65536int, 65536int, 65536int),
        }
    }

    /// Produce the attenuation and the scattered ray for a hit.
    pub fn scatter(&self, ray: &Ray, hit: &RayHit, rng: &mut Rng) -> (r: MaterialHitInfo)
        requires
            self.wf(),
            ray.wf(),
            hit.point.bounded(POINT_MAX as int),
            hit.normal.bounded(UNIT_MAX as int),
        ensures
            v3(r.attenuation) == self.attenuation_of(),
            sv_color(v3(r.attenuation)),
            r.scattered.origin == hit.point,
            r.scattered.direction.bounded(0x1_0000_0000),
            r.scattered.wf(),
            scatter_dir_ok(
                *self,
                v3(ray.direction),
                v3(hit.normal),
                v3(r.scattered.direction),
            ),
            is_mirror_metal(*self) ==> v3(r.scattered.direction) == reflect_s(
                v3(ray.direction),
                v3(hit.normal),
            ),
    {
        match self {
            Material::Lambertian(l) => {
                let p: Vec3 = Ray::random_in_unit_sphere(rng);
                let dir: Vec3 = hit.normal.plus(p);
                proof {
                    assert(sv_norm2(v3(p)) < 65536 && v3(dir) == sv_add(v3(hit.normal), v3(p)));
                    assert(scatter_dir_ok(*self, v3(ray.direction), v3(hit.normal), v3(dir)));
                }
                MaterialHitInfo {
                    attenuation: l.albedo,
                    scattered: Ray { origin: hit.point, direction: dir },
                }
            },
            Material::Metal(m) => {
                let refl: Vec3 = Ray::reflect(ray.direction, hit.normal);
                let p: Vec3 = Ray::random_in_unit_sphere(rng);
                let f: i64 = if m.fuzz > 65536 {
                    65536
                } else {
                    m.fuzz
                };
                let fp: Vec3 = p.scale(f);
                proof {
                    crate::vec3::lemma_scale_in(v3(p), f as int, 0x1_0000, 0x1_0000);
                }
                let dir: Vec3 = refl.plus(fp);
                proof {
                    assert(sv_norm2(v3(p)) < 65536 && v3(dir) == sv_add(
                        reflect_s(v3(ray.direction), v3(hit.normal)),
                        sv_scale(v3(p), fuzz_clamped(m.fuzz as int)),
                    ));
                    assert(scatter_dir_ok(*self, v3(ray.direction), v3(hit.normal), v3(dir)));
                    if m.fuzz <= 0 {
                        lemma_scale_by_zero(v3(p));
                    }
                }
                MaterialHitInfo {
                    attenuation: m.albedo,
                    scattered: Ray { origin: hit.point, direction: dir },
                }
            },
            Material::Dielectric(d) => {
                let reflected: Vec3 = Ray::reflect(ray.direction, hit.normal);
                let dirdot: i64 = ray.direction.dot(hit.normal);
                let len: i64 = ray.direction.magnitude();
                let outward: Vec3;
                let ratio: i64;
                let cos_raw: i64;
                if dirdot > 0 {
                    outward = hit.normal.negate();
                    ratio = d.refraction_index;
                    cos_raw = if len == 0 {
                        0
                    } else {
                        proof {
                            crate::vec3::lemma_dot_bound(
                                v3(ray.direction),
                                v3(hit.normal),
                                0x10_0000_0000,
                                0x4_0000,
                            );
                            crate::fixed::lemma_fmul_bound(
                                d.refraction_index as int,
                                dirdot as int,
                                0x10_0000,
                                0xC0_0000_0000,
                            );
                        }
                        let scaled: i64 = mul_fix(d.refraction_index, dirdot);
                        clamp_cos(scaled, len)
                    };
                } else {
                    outward = hit.normal;
                    proof {
                        lemma_fdiv_bound(65536, d.refraction_index as int, 65536);
                        lemma_recip_pos(d.refraction_index as int);
                    }
                    ratio = div_fix(65536, d.refraction_index);
                    cos_raw = if len == 0 {
                        0
                    } else {
                        proof {
                            crate::vec3::lemma_dot_bound(
                                v3(ray.direction),
                                v3(hit.normal),
                                0x10_0000_0000,
                                0x4_0000,
                            );
                        }
                        clamp_cos(-dirdot, len)
                    };
                }
                let mut refracted: Vec3 = Vec3 { x: 0, y: 0, z: 0 };
                let prob: i64;
                let ok: bool = Ray::refract(ray.direction, outward, ratio, &mut refracted);
                if ok {
                    prob = Ray::schlick(cos_raw, ratio);
                } else {
                    prob = 65536;
                }
                let u: i64 = rng.next_unit();
                let dir: Vec3 = if u < prob {
                    reflected
                } else {
                    refracted
                };
                MaterialHitInfo {
                    attenuation: Vec3 { x: 65536, y: 65536, z: 65536 },
                    scattered: Ray { origin: hit.point, direction: dir },
                }
            },
        }
    }
}

/// The reciprocal of a refraction index above 1.0 is strictly positive.
proof fn lemma_recip_pos(ri: int)
    requires
        65536 < ri <= 0x10_0000,
    ensures
        0 < fdiv(65536, ri),
{
    assert(fdiv(65536, ri) == 0x1_0000_0000int / ri);
    vstd::arithmetic::div_mod::lemma_div_is_ordered_by_denominator(0x1_0000_0000, ri, 0x10_0000);
    vstd::arithmetic::div_mod::lemma_div_pos_is_pos(0x1_0000_0000, ri);
    assert(0x1_0000_0000int / 0x10_0000int == 4096);
}

/// The incidence cosine scaled by the direction length, clamped into the
/// range the Schlick polynomial is verified for.
fn clamp_cos(num: i64, len: i64) -> (r: i64)
    requires
        0 < len,
        absi(num as int) <= 0x3100_0000_0000_0000,
    ensures
        absi(r as int) <= 0x10_0000,
{
    let q: i128 = crate::fixed::tdiv_wide((num as i128) * 65536, len as i128);
    if q > 0x10_0000 {
        0x10_0000
    } else if q < -0x10_0000 {
        -0x10_0000
    } else {
        q as i64
    }
}

} // verus!
