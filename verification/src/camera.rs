//! The thin-lens camera: from normalized image coordinates to world rays.
//!
//! Construction derives an orthonormal-style frame from look-from,
//! look-at and view-up, sizes the image plane from the vertical field
//! of view (in degrees) and the aspect ratio, and scales it out to the
//! focus plane. `get_ray` aims at the requested point of that plane,
//! jittering the origin across a lens disk whose radius is half the
//! aperture; with a zero aperture the jitter vanishes and the ray for a
//! fixed `(s, t)` is one exact, draw-independent formula. The tangent
//! of the half field of view is evaluated by an exactly specified
//! sine/cosine polynomial pair.

use vstd::prelude::*;
use crate::fixed::{
    absi, div_fix, fdiv, fmul, mul_fix, tdiv, lemma_fdiv_bound, lemma_fmul_nonneg_le, COORD_MAX,
    UNIT_MAX,
};
use crate::ray::{disk_sample_s, disk_sample_state, Ray, SAMPLE_ATTEMPTS};
use crate::rng::Rng;
use crate::vec3::{
    lemma_cross_in, lemma_scale_by_zero, lemma_scale_in, sv_add, sv_cross, sv_len, sv_scale,
    sv_sub, sv_unit, v3, Vec3,
};

verus! {

/// One degree in radians, in fixed point.
pub const DEG: i64 = 1144;

/// Polynomial sine, for angles up to a little past one radian.
pub open spec fn sin_s(x: int) -> int {
    let x2 = fmul(x, x);
    let x3 = fmul(x2, x);
    let x5 = fmul(x3, x2);
    let x7 = fmul(x5, x2);
    x - tdiv(x3, 6) + tdiv(x5, 120) - tdiv(x7, 5040)
}

/// Polynomial cosine, companion of `sin_s`.
pub open spec fn cos_s(x: int) -> int {
    let x2 = fmul(x, x);
    let x4 = fmul(x2, x2);
    let x6 = fmul(x4, x2);
    65536 - tdiv(x2, 2) + tdiv(x4, 24) - tdiv(x6, 720)
}

/// Polynomial tangent: the quotient of the two.
pub open spec fn tan_s(x: int) -> int {
    fdiv(sin_s(x), cos_s(x))
}

/// The camera's backward axis: from the target to the eye.
pub open spec fn cam_w(look_from: Vec3, look_at: Vec3) -> (int, int, int) {
    sv_unit(sv_sub(v3(look_from), v3(look_at)))
}

/// The camera's rightward axis.
pub open spec fn cam_u(view_up: Vec3, look_from: Vec3, look_at: Vec3) -> (int, int, int) {
    sv_unit(sv_cross(v3(view_up), cam_w(look_from, look_at)))
}

/// The camera's upward axis.
pub open spec fn cam_v(view_up: Vec3, look_from: Vec3, look_at: Vec3) -> (int, int, int) {
    sv_cross(cam_w(look_from, look_at), cam_u(view_up, look_from, look_at))
}

/// Half the image plane's height: the tangent of half the field of view.
pub open spec fn cam_half_height(vfov: int) -> int {
    tan_s(tdiv(fmul(vfov, 1144), 2))
}

/// Half the image plane's width.
pub open spec fn cam_half_width(aspect: int, vfov: int) -> int {
    fmul(aspect, cam_half_height(vfov))
}

/// The ray cast for image coordinates `(s, t)` and a lens-disk draw `d`.
pub open spec fn cam_ray(c: Camera, s: int, t: int, d: (int, int, int)) -> (
    (int, int, int),
    (int, int, int),
) {
    let rd = sv_scale(d, c.lens_radius as int);
    let off = sv_add(sv_scale(v3(c.u), rd.0), sv_scale(v3(c.v), rd.1));
    (
        sv_add(v3(c.origin), off),
        sv_sub(
            sv_sub(
                sv_add(
                    sv_add(v3(c.bottom_left), sv_scale(v3(c.horizontal), s)),
                    sv_scale(v3(c.vertical), t),
                ),
                v3(c.origin),
            ),
            off,
        ),
    )
}

/// A camera: the eye, the image plane placed at the focus distance, the
/// frame vectors the lens jitters along, and the lens radius.
#[derive(Clone, Copy, Debug)]
pub struct Camera {
    pub origin: Vec3,
    pub bottom_left: Vec3,
    pub horizontal: Vec3,
    pub vertical: Vec3,
    pub u: Vec3,
    pub v: Vec3,
    pub lens_radius: i64,
}

/// Tangent of an angle in [0, ~1.05] radians by the polynomial pair;
/// within that range the polynomial cosine stays well above zero.
fn tan_fix(x: i64) -> (r: i64)
    requires
        0 <= x <= 68700,
    ensures
        r == tan_s(x as int),
        absi(r as int) <= 0x4_0000,
{
    proof {
        lemma_fmul_nonneg_le(x as int, x as int, 68700, 68700);
    }
    let x2: i64 = mul_fix(x, x);
    proof {
        lemma_fmul_nonneg_le(x2 as int, x as int, 72016, 68700);
        lemma_fmul_nonneg_le(x2 as int, x2 as int, 72016, 72016);
    }
    let x3: i64 = mul_fix(x2, x);
    let x4: i64 = mul_fix(x2, x2);
    proof {
        lemma_fmul_nonneg_le(x3 as int, x2 as int, 75492, 72016);
        lemma_fmul_nonneg_le(x4 as int, x2 as int, 79136, 72016);
    }
    let x5: i64 = mul_fix(x3, x2);
    let x6: i64 = mul_fix(x4, x2);
    proof {
        lemma_fmul_nonneg_le(x5 as int, x2 as int, 82956, 72016);
    }
    let x7: i64 = mul_fix(x5, x2);
    let sin: i64 = x - x3 / 6 + x5 / 120 - x7 / 5040;
    let cos: i64 = 65536 - x2 / 2 + x4 / 24 - x6 / 720;
    proof {
        assert(cos >= 29408);
        lemma_fdiv_bound(sin as int, cos as int, 0x4_0000);
    }
    div_fix(sin, cos)
}

impl Camera {
    /// The derived fields are in the ranges the ray generation needs.
    pub open spec fn wf(self) -> bool {
        &&& self.origin.bounded(COORD_MAX as int)
        &&& self.bottom_left.bounded(0x4_0000_0000)
        &&& self.horizontal.bounded(0x4_0000_0000)
        &&& self.vertical.bounded(0x4_0000_0000)
        &&& self.u.bounded(UNIT_MAX as int)
        &&& self.v.bounded(0x20_0000)
        &&& 0 <= self.lens_radius <= 0x80_0000
    }

    /// Build a camera from the viewing parameters: eye and target
    /// points, an up reference, the vertical field of view in degrees,
    /// the width-to-height ratio, the lens aperture, and the distance of
    /// the plane in focus.
    ///
    /// The preconditions are the verified envelope, not physics: fields
    /// of view up to 120 degrees keep the half angle inside the range
    /// where the polynomial cosine provably stays well above zero, and
    /// focus distances up to 512 units (with the stated coordinate,
    /// aspect and aperture ranges) keep the derived image plane and
    /// every ray built from it inside the fixed-point working range.
    #[verifier::rlimit(100)]
    pub fn new(
        look_from: Vec3,
        look_at: Vec3,
        view_up: Vec3,
        vfov: i64,
        aspect: i64,
        aperture: i64,
        focus_distance: i64,
    ) -> (c: Camera)
        requires
            look_from.bounded(COORD_MAX as int),
            look_at.bounded(COORD_MAX as int),
            view_up.bounded(COORD_MAX as int),
            0 < vfov <= 7864320,
            0 < aspect <= 524288,
            0 <= aperture <= 0x100_0000,
            0 < focus_distance <= 0x200_0000,
        ensures
            c.wf(),
            c.origin == look_from,
            c.lens_radius as int == tdiv(aperture as int, 2),
            v3(c.u) == cam_u(view_up, look_from, look_at),
            v3(c.v) == cam_v(view_up, look_from, look_at),
            v3(c.bottom_left) == sv_sub(
                sv_sub(
                    sv_sub(
                        v3(look_from),
                        sv_scale(
                            cam_u(view_up, look_from, look_at),
                            fmul(cam_half_width(aspect as int, vfov as int), focus_distance as int),
                        ),
                    ),
                    sv_scale(
                        cam_v(view_up, look_from, look_at),
                        fmul(cam_half_height(vfov as int), focus_distance as int),
                    ),
                ),
                sv_scale(cam_w(look_from, look_at), focus_distance as int),
            ),
            v3(c.horizontal) == sv_scale(
                cam_u(view_up, look_from, look_at),
                2 * fmul(cam_half_width(aspect as int, vfov as int), focus_distance as int),
            ),
            v3(c.vertical) == sv_scale(
                cam_v(view_up, look_from, look_at),
                2 * fmul(cam_half_height(vfov as int), focus_distance as int),
            ),
    {
        proof {
            lemma_fmul_nonneg_le(vfov as int, 1144, 7864320, 1144);
        }
        let theta: i64 = mul_fix(vfov, DEG);
        let half_theta: i64 = theta / 2;
        let half_height: i64 = tan_fix(half_theta);
        proof {
            crate::fixed::lemma_fmul_bound(aspect as int, half_height as int, 0x8_0000, 0x4_0000);
        }
        let half_width: i64 = mul_fix(aspect, half_height);
        let w: Vec3 = look_from.minus(look_at).normalize();
        proof {
            lemma_cross_in(v3(view_up), v3(w), 0x4000_0000, 0x4_0000);
        }
        let u: Vec3 = view_up.cross(w).normalize();
        proof {
            lemma_cross_in(v3(w), v3(u), 0x4_0000, 0x4_0000);
        }
        let v: Vec3 = w.cross(u);
        proof {
            crate::fixed::lemma_fmul_bound(
                half_width as int,
                focus_distance as int,
                0x20_0000,
                0x200_0000,
            );
            crate::fixed::lemma_fmul_bound(
                half_height as int,
                focus_distance as int,
                0x4_0000,
                0x200_0000,
            );
        }
        let hwf: i64 = mul_fix(half_width, focus_distance);
        let hhf: i64 = mul_fix(half_height, focus_distance);
        proof {
            lemma_scale_in(v3(u), hwf as int, 0x4_0000, 0x4000_0000);
            lemma_scale_in(v3(v), hhf as int, 0x20_0000, 0x800_0000);
            lemma_scale_in(v3(w), focus_distance as int, 0x4_0000, 0x200_0000);
            lemma_scale_in(v3(u), 2 * hwf as int, 0x4_0000, 0x8000_0000);
            lemma_scale_in(v3(v), 2 * hhf as int, 0x20_0000, 0x1000_0000);
        }
        let bottom_left: Vec3 = look_from.minus(u.scale(hwf)).minus(v.scale(hhf)).minus(
            w.scale(focus_distance),
        );
        let horizontal: Vec3 = u.scale(2 * hwf);
        let vertical: Vec3 = v.scale(2 * hhf);
        Camera {
            origin: look_from,
            bottom_left,
            horizontal,
            vertical,
            u,
            v,
            lens_radius: aperture / 2,
        }
    }

    /// The ray through image coordinates `(s, t)`, its origin jittered
    /// across the lens disk: the exact `cam_ray` of the disk point the
    /// generator yields, which also advances by exactly that draw. With
    /// a zero lens radius the jitter is zero and the ray is a function
    /// of `(s, t)` alone.
    #[verifier::rlimit(60)]
    pub fn get_ray(&self, s: i64, t: i64, rng: &mut Rng) -> (r: Ray)
        requires
            self.wf(),
            0 <= s <= 65536,
            0 <= t <= 65536,
        ensures
            r.wf(),
            (v3(r.origin), v3(r.direction)) == cam_ray(
                *self,
                s as int,
                t as int,
                disk_sample_s(old(rng).state, SAMPLE_ATTEMPTS as nat),
            ),
            final (rng).state == disk_sample_state(old(rng).state, SAMPLE_ATTEMPTS as nat),
            exists|d: (int, int, int)|
                sv_len(d) < 65536 && d.2 == 0 && (v3(r.origin), v3(r.direction)) == cam_ray(
                    *self,
                    s as int,
                    t as int,
                    d,
                ),
            self.lens_radius == 0 ==> (v3(r.origin), v3(r.direction)) == cam_ray(
                *self,
                s as int,
                t as int,
                (0int, 0int, 0int),
            ),
    {
        let disk: Vec3 = Ray::random_in_unit_disk(rng);
        proof {
            lemma_scale_in(v3(disk), self.lens_radius as int, 0x1_0000, 0x80_0000);
        }
        let rd: Vec3 = disk.scale(self.lens_radius);
        proof {
            lemma_scale_in(v3(self.u), rd.x as int, 0x4_0000, 0x80_0000);
            lemma_scale_in(v3(self.v), rd.y as int, 0x20_0000, 0x80_0000);
        }
        let off: Vec3 = self.u.scale(rd.x).plus(self.v.scale(rd.y));
        let orig: Vec3 = self.origin.plus(off);
        proof {
            lemma_scale_in(v3(self.horizontal), s as int, 0x4_0000_0000, 0x1_0000);
            lemma_scale_in(v3(self.vertical), t as int, 0x4_0000_0000, 0x1_0000);
        }
        let dir: Vec3 = self.bottom_left.plus(self.horizontal.scale(s)).plus(
            self.vertical.scale(t),
        ).minus(self.origin).minus(off);
        let r: Ray = Ray { origin: orig, direction: dir };
        proof {
            assert(sv_len(v3(disk)) < 65536 && v3(disk).2 == 0 && (v3(r.origin), v3(r.direction))
                == cam_ray(*self, s as int, t as int, v3(disk)));
            if self.lens_radius == 0 {
                lemma_scale_by_zero(v3(disk));
                lemma_scale_by_zero((0int, 0int, 0int));
                assert(sv_scale(v3(disk), 0) == sv_scale((0int, 0int, 0int), 0));
            }
        }
        r
    }
}

} // verus!
