//! Rays and the scattering helpers shared by all materials.
//!
//! A ray is an origin and an (unnormalized) direction; consumers
//! normalize where they need to. `reflect`, `refract` and `schlick` are
//! the optics primitives of the material models, each specified exactly
//! over the fixed-point spec functions; the `random_in_*` routines are
//! the rejection samplers behind diffuse bounces, metal fuzz and the
//! camera lens, drawing from an explicit generator.

use vstd::prelude::*;
use crate::fixed::{
    absi, div_fix, fdiv, fmul, mul_fix, sqrt_fix, sqrt_floor, tdiv, lemma_fdiv_bound,
    lemma_fmul_bound, lemma_fmul_unit_range, lemma_sqrt_le, DIR_MAX, POINT_MAX, T_FAR, T_NEAR,
    UNIT_MAX, VEC_OP_MAX,
};
use crate::hitable::Hitable;
use crate::hitable_list::{scene_geo, HitableList};
use crate::material::{scatter_dir_ok, sv_color};
use crate::rng::{rng_step, rng_unit, Rng};
use crate::vec3::{
    lemma_dot_bound, lemma_scale_in, sv_add, sv_dot, sv_len, sv_mul_elem, sv_norm2, sv_scale,
    sv_sub, sv_unit, v3, Vec3,
};

verus! {

/// The interpolation parameter of the sky gradient: half of one plus the
/// vertical component of the normalized direction, clamped to [0, 1].
pub open spec fn sky_t(dir: (int, int, int)) -> int {
    let t = tdiv(sv_unit(dir).1 + 65536, 2);
    if t < 0 {
        0
    } else if t > 65536 {
        65536
    } else {
        t
    }
}

/// The background "sky": white at the bottom blending to sky blue at the
/// top, the radiance of every ray that escapes the scene.
pub open spec fn sky_color_s(dir: (int, int, int)) -> (int, int, int) {
    sv_add(
        sv_scale((65536int, 65536int, 65536int), 65536 - sky_t(dir)),
        sv_scale((32768int, 45875int, 65536int), sky_t(dir)),
    )
}

/// Bounces after which a path is cut off and counted as black.
pub const MAX_DEPTH: u32 = 50;

/// A half line: origin plus a scalar multiple of the direction.
#[derive(Clone, Copy, Debug, PartialEq, Eq, Structural)]
pub struct Ray {
    pub origin: Vec3,
    pub direction: Vec3,
}

/// The point reached after traveling `t` along the ray.
pub open spec fn point_at_s(r: Ray, t: int) -> (int, int, int) {
    sv_add(v3(r.origin), sv_scale(v3(r.direction), t))
}

/// Mirror reflection of the normalized input about `normal`.
pub open spec fn reflect_s(input: (int, int, int), normal: (int, int, int)) -> (int, int, int) {
    let u = sv_unit(input);
    sv_sub(u, sv_scale(normal, 2 * sv_dot(u, normal)))
}

/// The refraction discriminant: positive exactly when Snell's law admits
/// a transmitted direction for this incidence and index ratio.
pub open spec fn refract_disc_s(input: (int, int, int), normal: (int, int, int), ratio: int) -> int {
    let dt = sv_dot(sv_unit(input), normal);
    65536 - fmul(fmul(ratio, ratio), 65536 - fmul(dt, dt))
}

/// The transmitted direction when the discriminant is positive.
pub open spec fn refract_dir_s(input: (int, int, int), normal: (int, int, int), ratio: int) -> (
    int,
    int,
    int,
) {
    let u = sv_unit(input);
    let dt = sv_dot(u, normal);
    let disc = refract_disc_s(input, normal, ratio);
    sv_sub(
        sv_scale(sv_sub(u, sv_scale(normal, dt)), ratio),
        sv_scale(normal, sqrt_floor(disc * 65536)),
    )
}

/// Schlick's polynomial approximation of Fresnel reflectance.
pub open spec fn schlick_s(cos: int, ratio: int) -> int {
    let r0a = fdiv(65536 - ratio, 65536 + ratio);
    let r0 = fmul(r0a, r0a);
    let p = 65536 - cos;
    let p5 = fmul(fmul(fmul(p, p), fmul(p, p)), p);
    r0 + fmul(65536 - r0, p5)
}

/// One channel of the sky interpolation lies between the two endpoint
/// channels: white's contribution is exact and blue's rounds down by
/// less than one level.
proof fn lemma_lerp_channel_range(bc: int, t: int)
    requires
        0 <= bc <= 65536,
        0 <= t <= 65536,
    ensures
        bc <= fmul(65536, 65536 - t) + fmul(bc, t) <= 65536,
{
    crate::fixed::lemma_fmul_unit_range(65536, 65536 - t);
    crate::fixed::lemma_fmul_unit_range(bc, t);
    vstd::arithmetic::div_mod::lemma_div_multiples_vanish(65536 - t, 65536);
    assert(fmul(65536, 65536 - t) == 65536 - t);
    let lo = fmul(bc, t);
    assert(0 <= bc * t) by (nonlinear_arith)
        requires
            0 <= bc,
            0 <= t,
    ;
    vstd::arithmetic::div_mod::lemma_fundamental_div_mod(bc * t, 65536);
    vstd::arithmetic::div_mod::lemma_mod_division_less_than_divisor(bc * t, 65536);
    assert(65536 * ((65536 - t) + lo) > 65536 * bc - 65536) by (nonlinear_arith)
        requires
            bc * t == 65536 * lo + bc * t % 65536,
            0 <= bc * t % 65536 < 65536,
            0 <= bc <= 65536,
            0 <= t <= 65536,
    ;
}

/// The sky is a point of the segment from white to sky blue: the
/// interpolation parameter stays in [0, 1], the red and green channels
/// stay between the blue endpoint's and white's, and the blue channel
/// is exactly full for every direction.
pub proof fn lemma_sky_on_segment(dir: (int, int, int))
    ensures
        0 <= sky_t(dir) <= 65536,
        32768 <= sky_color_s(dir).0 <= 65536,
        45875 <= sky_color_s(dir).1 <= 65536,
        sky_color_s(dir).2 == 65536,
{
    let t = sky_t(dir);
    lemma_lerp_channel_range(32768, t);
    lemma_lerp_channel_range(45875, t);
    lemma_lerp_channel_range(65536, t);
    vstd::arithmetic::div_mod::lemma_div_multiples_vanish(65536 - t, 65536);
    vstd::arithmetic::div_mod::lemma_div_multiples_vanish(t, 65536);
    assert(fmul(65536, t) == t);
    assert(sky_color_s(dir).2 == (65536 - t) + t);
}

/// What the path estimator may return for a ray at a given depth: a
/// color; on a scene miss exactly the sky gradient; on a hit at the
/// depth cap exactly black; and on a hit below the cap the winning
/// material's attenuation times a color that this same predicate admits
/// for some ray scattered from the hit point by that material's
/// scattering rule. This ties every bounce of the estimate to the next:
/// a result that skips the recursion cannot satisfy it.
pub open spec fn color_ok(l: Seq<Hitable>, ray: Ray, depth: int, c: (int, int, int)) -> bool
    decreases MAX_DEPTH - depth,
{
    &&& sv_color(c)
    &&& match scene_geo(l, ray, T_NEAR as int, T_FAR as int) {
        None => c == sky_color_s(v3(ray.direction)),
        Some(g) => if depth >= MAX_DEPTH {
            c == (0int, 0int, 0int)
        } else {
            exists|scattered: Ray, rest: (int, int, int)|
                {
                    &&& v3(scattered.origin) == g.1
                    &&& scatter_dir_ok(
                        l[g.3].material_of(),
                        v3(ray.direction),
                        g.2,
                        v3(scattered.direction),
                    )
                    &&& color_ok(l, scattered, depth + 1, rest)
                    &&& c == sv_mul_elem(l[g.3].material_of().attenuation_of(), rest)
                }
        },
    }
}

/// The attempts a capped rejection sampler may make before falling back.
pub const SAMPLE_ATTEMPTS: u32 = 1024;

/// The three components of one unit-sphere rejection attempt from
/// generator state `s`, drawn in x, y, z order and spread to [-1, 1).
pub open spec fn sphere_draw(s: u64) -> (int, int, int) {
    (
        2 * rng_unit(s) - 65536,
        2 * rng_unit(rng_step(s)) - 65536,
        2 * rng_unit(rng_step(rng_step(s))) - 65536,
    )
}

/// The generator state after one three-component attempt.
pub open spec fn sphere_attempt_state(s: u64) -> u64 {
    rng_step(rng_step(rng_step(s)))
}

/// What the capped sphere sampler returns from state `s` with
/// `attempts` draws left: the first attempt strictly inside the unit
/// sphere, or the center once the cap is spent.
pub open spec fn sphere_sample_s(s: u64, attempts: nat) -> (int, int, int)
    decreases attempts,
{
    if attempts == 0 {
        (0int, 0int, 0int)
    } else if sv_norm2(sphere_draw(s)) < 65536 {
        sphere_draw(s)
    } else {
        sphere_sample_s(sphere_attempt_state(s), (attempts - 1) as nat)
    }
}

/// The generator state the capped sphere sampler leaves behind.
pub open spec fn sphere_sample_state(s: u64, attempts: nat) -> u64
    decreases attempts,
{
    if attempts == 0 {
        s
    } else if sv_norm2(sphere_draw(s)) < 65536 {
        sphere_attempt_state(s)
    } else {
        sphere_sample_state(sphere_attempt_state(s), (attempts - 1) as nat)
    }
}

/// The two components of one unit-disk rejection attempt from state `s`.
pub open spec fn disk_draw(s: u64) -> (int, int, int) {
    (2 * rng_unit(s) - 65536, 2 * rng_unit(rng_step(s)) - 65536, 0int)
}

/// The generator state after one two-component attempt.
pub open spec fn disk_attempt_state(s: u64) -> u64 {
    rng_step(rng_step(s))
}

/// What the capped disk sampler returns from state `s` with `attempts`
/// draws left: the first attempt of computed length inside the unit
/// disk, or the center once the cap is spent.
pub open spec fn disk_sample_s(s: u64, attempts: nat) -> (int, int, int)
    decreases attempts,
{
    if attempts == 0 {
        (0int, 0int, 0int)
    } else if sv_len(disk_draw(s)) < 65536 {
        disk_draw(s)
    } else {
        disk_sample_s(disk_attempt_state(s), (attempts - 1) as nat)
    }
}

/// The generator state the capped disk sampler leaves behind.
pub open spec fn disk_sample_state(s: u64, attempts: nat) -> u64
    decreases attempts,
{
    if attempts == 0 {
        s
    } else if sv_len(disk_draw(s)) < 65536 {
        disk_attempt_state(s)
    } else {
        disk_sample_state(disk_attempt_state(s), (attempts - 1) as nat)
    }
}

impl Ray {
    /// Origin and direction small enough for the intersection arithmetic.
    pub open spec fn wf(self) -> bool {
        self.origin.bounded(POINT_MAX as int) && self.direction.bounded(DIR_MAX as int)
    }

    pub fn new(orig: Vec3, dir: Vec3) -> (r: Ray)
        ensures
            r == (Ray { origin: orig, direction: dir }),
    {
        Ray { origin: orig, direction: dir }
    }

    pub fn point_at(&self, t: i64) -> (r: Vec3)
        requires
            self.wf(),
            absi(t as int) <= T_FAR as int,
        ensures
            v3(r) == point_at_s(*self, t as int),
            r.bounded(0x2000_0000_0000_0000),
    {
        proof {
            lemma_scale_in(v3(self.direction), t as int, 0x10_0000_0000, 0x100_0000_0000);
        }
        let sc: Vec3 = self.direction.scale(t);
        self.origin.plus(sc)
    }

    /// Radiance arriving along the ray: the recursive path estimator.
    /// A miss returns the sky gradient; a hit recurses along the
    /// scattered ray and attenuates the result, until the depth cap
    /// cuts the path off with black.
    pub fn color(&self, hitable_list: &HitableList, depth: u32, rng: &mut Rng) -> (c: Vec3)
        requires
            self.wf(),
            hitable_list.wf(),
        ensures
            sv_color(v3(c)),
            scene_geo(hitable_list.list@, *self, T_NEAR as int, T_FAR as int).is_none() ==> v3(c)
                == sky_color_s(v3(self.direction)),
            scene_geo(hitable_list.list@, *self, T_NEAR as int, T_FAR as int).is_some() && depth
                >= MAX_DEPTH ==> c == (Vec3 { x: 0i64, y: 0i64, z: 0i64 }),
            color_ok(hitable_list.list@, *self, depth as int, v3(c)),
        decreases MAX_DEPTH - depth,
    {
        match hitable_list.hit(self, T_NEAR, T_FAR, rng) {
            Some(hit) => {
                if depth < MAX_DEPTH {
                    let info = hit.material.unwrap();
                    let rest: Vec3 = info.scattered.color(hitable_list, depth + 1, rng);
                    let c: Vec3 = info.attenuation.mul_elem(rest);
                    proof {
                        lemma_fmul_unit_range(info.attenuation.x as int, rest.x as int);
                        lemma_fmul_unit_range(info.attenuation.y as int, rest.y as int);
                        lemma_fmul_unit_range(info.attenuation.z as int, rest.z as int);
                        assert(sv_color(v3(rest)) && v3(c) == sv_mul_elem(
                            v3(info.attenuation),
                            v3(rest),
                        ));
                        let l = hitable_list.list@;
                        let gg = scene_geo(l, *self, T_NEAR as int, T_FAR as int).unwrap();
                        assert(v3(info.scattered.origin) == gg.1);
                        assert(scatter_dir_ok(
                            l[gg.3].material_of(),
                            v3(self.direction),
                            gg.2,
                            v3(info.scattered.direction),
                        ));
                        assert(color_ok(l, info.scattered, depth as int + 1, v3(rest)));
                        assert(v3(c) == sv_mul_elem(l[gg.3].material_of().attenuation_of(), v3(rest)));
                        assert(color_ok(l, *self, depth as int, v3(c)));
                    }
                    c
                } else {
                    proof {
                        assert(color_ok(
                            hitable_list.list@,
                            *self,
                            depth as int,
                            (0int, 0int, 0int),
                        ));
                    }
                    Vec3 { x: 0, y: 0, z: 0 }
                }
            },
            None => {
                let unit: Vec3 = self.direction.normalize();
                let t0: i64 = (unit.y + 65536) / 2;
                let tt: i64 = if t0 < 0 {
                    0
                } else if t0 > 65536 {
                    65536
                } else {
                    t0
                };
                let white: Vec3 = Vec3 { x: 65536, y: 65536, z: 65536 };
                let blue: Vec3 = Vec3 { x: 32768, y: 45875, z: 65536 };
                let c: Vec3 = white.scale(65536 - tt).plus(blue.scale(tt));
                proof {
                    lemma_fmul_unit_range(65536, 65536 - tt as int);
                    lemma_fmul_unit_range(65536, tt as int);
                    lemma_fmul_unit_range(32768, tt as int);
                    lemma_fmul_unit_range(45875, tt as int);
                    assert(color_ok(hitable_list.list@, *self, depth as int, v3(c)));
                }
                c
            },
        }
    }

    /// Reflect a not-necessarily-unit `input` about `normal`.
    pub fn reflect(input: Vec3, normal: Vec3) -> (r: Vec3)
        requires
            input.bounded(VEC_OP_MAX as int),
            normal.bounded(UNIT_MAX as int),
        ensures
            v3(r) == reflect_s(v3(input), v3(normal)),
            r.bounded(0x400_0000),
    {
        let u: Vec3 = input.normalize();
        let d: i64 = u.dot(normal);
        proof {
            lemma_dot_bound(v3(u), v3(normal), 0x4_0000, 0x4_0000);
            lemma_scale_in(v3(normal), 2 * d as int, 0x4_0000, 0x80_0000);
        }
        u.minus(normal.scale(2 * d))
    }

    /// Snell refraction; on success writes the transmitted direction to
    /// `refracted` and leaves it untouched otherwise.
    pub fn refract(input: Vec3, normal: Vec3, ratio: i64, refracted: &mut Vec3) -> (ok: bool)
        requires
            input.bounded(VEC_OP_MAX as int),
            normal.bounded(UNIT_MAX as int),
            0 < ratio <= 0x10_0000,
        ensures
            ok == (refract_disc_s(v3(input), v3(normal), ratio as int) > 0),
            ok ==> v3(*final (refracted)) == refract_dir_s(v3(input), v3(normal), ratio as int),
            ok ==> final (refracted).bounded(0x1_0000_0000),
            !ok ==> *final (refracted) == *old(refracted),
    {
        let u: Vec3 = input.normalize();
        let dt: i64 = u.dot(normal);
        proof {
            lemma_dot_bound(v3(u), v3(normal), 0x4_0000, 0x4_0000);
            lemma_fmul_bound(dt as int, dt as int, 0x40_0000, 0x40_0000);
            lemma_fmul_bound(ratio as int, ratio as int, 0x10_0000, 0x10_0000);
        }
        let dt2: i64 = mul_fix(dt, dt);
        let r2: i64 = mul_fix(ratio, ratio);
        let inner: i64 = 65536 - dt2;
        proof {
            lemma_fmul_bound(r2 as int, inner as int, 0x100_0000, 0x1_0000_0000);
        }
        let disc: i64 = 65536 - mul_fix(r2, inner);
        if disc > 0 {
            let sq: i64 = sqrt_fix(disc);
            proof {
                lemma_sqrt_le(disc as int * 65536, 0x2000_0000);
                lemma_scale_in(v3(normal), dt as int, 0x4_0000, 0x40_0000);
            }
            let nd: Vec3 = normal.scale(dt);
            let a1: Vec3 = u.minus(nd);
            proof {
                lemma_scale_in(
                    sv_sub(v3(u), sv_scale(v3(normal), dt as int)),
                    ratio as int,
                    0x200_0000,
                    0x10_0000,
                );
                lemma_scale_in(v3(normal), sq as int, 0x4_0000, 0x2000_0000);
            }
            let a2: Vec3 = a1.scale(ratio);
            let a3: Vec3 = normal.scale(sq);
            *refracted = a2.minus(a3);
            true
        } else {
            false
        }
    }

    /// Schlick reflectance for an incidence cosine and index ratio.
    pub fn schlick(cos: i64, ratio: i64) -> (r: i64)
        requires
            absi(cos as int) <= 0x10_0000,
            0 < ratio <= 0x10_0000,
        ensures
            r == schlick_s(cos as int, ratio as int),
    {
        proof {
            lemma_fdiv_bound(65536 - ratio as int, 65536 + ratio as int, 0x10_0000);
        }
        let r0a: i64 = div_fix(65536 - ratio, 65536 + ratio);
        proof {
            lemma_fmul_bound(r0a as int, r0a as int, 0x10_0000, 0x10_0000);
        }
        let r0: i64 = mul_fix(r0a, r0a);
        let p: i64 = 65536 - cos;
        proof {
            lemma_fmul_bound(p as int, p as int, 0x20_0000, 0x20_0000);
        }
        let p2: i64 = mul_fix(p, p);
        proof {
            lemma_fmul_bound(p2 as int, p2 as int, 0x400_0000, 0x400_0000);
        }
        let p4: i64 = mul_fix(p2, p2);
        proof {
            lemma_fmul_bound(p4 as int, p as int, 0x10_0000_0000, 0x20_0000);
        }
        let p5: i64 = mul_fix(p4, p);
        proof {
            lemma_fmul_bound(65536 - r0 as int, p5 as int, 0x200_0000, 0x200_0000_0000);
        }
        r0 + mul_fix(65536 - r0, p5)
    }

    /// A point strictly inside the unit sphere by rejection sampling.
    /// The draw is capped; if no sample is accepted the sphere's center
    /// is used, so the result is inside the sphere in every case. Both
    /// the point and the state left behind are exact functions of the
    /// generator state handed in.
    pub fn random_in_unit_sphere(rng: &mut Rng) -> (r: Vec3)
        ensures
            v3(r) == sphere_sample_s(old(rng).state, SAMPLE_ATTEMPTS as nat),
            final (rng).state == sphere_sample_state(old(rng).state, SAMPLE_ATTEMPTS as nat),
            sv_norm2(v3(r)) < 65536,
            r.bounded(0x1_0000),
    {
        let mut attempts: u32 = 0;
        while attempts < SAMPLE_ATTEMPTS
            invariant
                attempts <= SAMPLE_ATTEMPTS,
                sphere_sample_s(old(rng).state, SAMPLE_ATTEMPTS as nat) == sphere_sample_s(
                    rng.state,
                    (SAMPLE_ATTEMPTS - attempts) as nat,
                ),
                sphere_sample_state(old(rng).state, SAMPLE_ATTEMPTS as nat) == sphere_sample_state(
                    rng.state,
                    (SAMPLE_ATTEMPTS - attempts) as nat,
                ),
            decreases SAMPLE_ATTEMPTS - attempts,
        {
            let ghost s0: u64 = rng.state;
            let x: i64 = 2 * rng.next_unit() - 65536;
            let y: i64 = 2 * rng.next_unit() - 65536;
            let z: i64 = 2 * rng.next_unit() - 65536;
            let v: Vec3 = Vec3 { x, y, z };
            proof {
                assert(v3(v) == sphere_draw(s0));
                assert(rng.state == sphere_attempt_state(s0));
            }
            let m2: i64 = v.magnitude2();
            if m2 < 65536 {
                proof {
                    assert(sphere_sample_s(s0, (SAMPLE_ATTEMPTS - attempts) as nat) == v3(v));
                    assert(sphere_sample_state(s0, (SAMPLE_ATTEMPTS - attempts) as nat)
                        == rng.state);
                }
                return v;
            }
            attempts = attempts + 1;
        }
        proof {
            assert(sv_norm2((0int, 0int, 0int)) == 0);
            assert(sphere_sample_s(rng.state, 0nat) == (0int, 0int, 0int));
            assert(sphere_sample_state(rng.state, 0nat) == rng.state);
        }
        Vec3 { x: 0, y: 0, z: 0 }
    }

    /// A point of the z = 0 plane strictly inside the unit disk, by the
    /// same capped rejection sampling; again an exact function of the
    /// generator state handed in.
    pub fn random_in_unit_disk(rng: &mut Rng) -> (r: Vec3)
        ensures
            v3(r) == disk_sample_s(old(rng).state, SAMPLE_ATTEMPTS as nat),
            final (rng).state == disk_sample_state(old(rng).state, SAMPLE_ATTEMPTS as nat),
            sv_len(v3(r)) < 65536,
            r.z == 0,
            r.bounded(0x1_0000),
    {
        let mut attempts: u32 = 0;
        while attempts < SAMPLE_ATTEMPTS
            invariant
                attempts <= SAMPLE_ATTEMPTS,
                disk_sample_s(old(rng).state, SAMPLE_ATTEMPTS as nat) == disk_sample_s(
                    rng.state,
                    (SAMPLE_ATTEMPTS - attempts) as nat,
                ),
                disk_sample_state(old(rng).state, SAMPLE_ATTEMPTS as nat) == disk_sample_state(
                    rng.state,
                    (SAMPLE_ATTEMPTS - attempts) as nat,
                ),
            decreases SAMPLE_ATTEMPTS - attempts,
        {
            let ghost s0: u64 = rng.state;
            let x: i64 = 2 * rng.next_unit() - 65536;
            let y: i64 = 2 * rng.next_unit() - 65536;
            let v: Vec3 = Vec3 { x, y, z: 0 };
            proof {
                assert(v3(v) == disk_draw(s0));
                assert(rng.state == disk_attempt_state(s0));
            }
            let m: i64 = v.magnitude();
            if m < 65536 {
                proof {
                    assert(disk_sample_s(s0, (SAMPLE_ATTEMPTS - attempts) as nat) == v3(v));
                    assert(disk_sample_state(s0, (SAMPLE_ATTEMPTS - attempts) as nat) == rng.state);
                }
                return v;
            }
            attempts = attempts + 1;
        }
        proof {
            assert(sv_norm2((0int, 0int, 0int)) == 0);
            crate::fixed::lemma_sqrt_floor_is(0, 0);
            assert(disk_sample_s(rng.state, 0nat) == (0int, 0int, 0int));
            assert(disk_sample_state(rng.state, 0nat) == rng.state);
        }
        Vec3 { x: 0, y: 0, z: 0 }
    }
}

} // verus!
