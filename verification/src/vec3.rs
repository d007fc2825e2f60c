//! Three-component fixed-point vectors and their exact specifications.
//!
//! Specification-level vector math works on `(int, int, int)` triples, so
//! contracts never overflow; the executable `Vec3` mirrors each operation
//! exactly. `sv_unit` is the normalization the tracer uses everywhere: a
//! zero-length vector normalizes to zero rather than dividing by zero.

use vstd::prelude::*;
use vstd::arithmetic::div_mod::{
    lemma_div_pos_is_pos, lemma_fundamental_div_mod, lemma_mod_division_less_than_divisor,
};
use crate::fixed::{
    absi, div_fix, fdiv, fmul, mul_fix, sqrt_fix, sqrt_floor, tdiv, lemma_fmul_bound,
    lemma_sqrt_floor_props, lemma_tdiv_le, UNIT_MAX, VEC_OP_MAX,
};

verus! {

/// A point or direction in space, components in Q16.16 fixed point.
#[derive(Clone, Copy, Debug, PartialEq, Eq, Structural)]
pub struct Vec3 {
    pub x: i64,
    pub y: i64,
    pub z: i64,
}

/// The mathematical value of a vector.
pub open spec fn v3(v: Vec3) -> (int, int, int) {
    (v.x as int, v.y as int, v.z as int)
}

/// All three components bounded in magnitude by `m`.
pub open spec fn sv_in(v: (int, int, int), m: int) -> bool {
    absi(v.0) <= m && absi(v.1) <= m && absi(v.2) <= m
}

pub open spec fn sv_add(a: (int, int, int), b: (int, int, int)) -> (int, int, int) {
    (a.0 + b.0, a.1 + b.1, a.2 + b.2)
}

pub open spec fn sv_sub(a: (int, int, int), b: (int, int, int)) -> (int, int, int) {
    (a.0 - b.0, a.1 - b.1, a.2 - b.2)
}

pub open spec fn sv_neg(a: (int, int, int)) -> (int, int, int) {
    (-a.0, -a.1, -a.2)
}

pub open spec fn sv_scale(a: (int, int, int), k: int) -> (int, int, int) {
    (fmul(a.0, k), fmul(a.1, k), fmul(a.2, k))
}

/// Componentwise (Hadamard) product; how attenuation acts on a color.
pub open spec fn sv_mul_elem(a: (int, int, int), b: (int, int, int)) -> (int, int, int) {
    (fmul(a.0, b.0), fmul(a.1, b.1), fmul(a.2, b.2))
}

pub open spec fn sv_dot(a: (int, int, int), b: (int, int, int)) -> int {
    fmul(a.0, b.0) + fmul(a.1, b.1) + fmul(a.2, b.2)
}

pub open spec fn sv_cross(a: (int, int, int), b: (int, int, int)) -> (int, int, int) {
    (
        fmul(a.1, b.2) - fmul(a.2, b.1),
        fmul(a.2, b.0) - fmul(a.0, b.2),
        fmul(a.0, b.1) - fmul(a.1, b.0),
    )
}

/// Squared magnitude (fixed point).
pub open spec fn sv_norm2(a: (int, int, int)) -> int {
    sv_dot(a, a)
}

/// Magnitude (fixed point): the integer square root of the rescaled
/// squared magnitude.
pub open spec fn sv_len(a: (int, int, int)) -> int {
    sqrt_floor(sv_norm2(a) * 65536)
}

/// Normalization; a vector of zero computed length maps to zero.
pub open spec fn sv_unit(a: (int, int, int)) -> (int, int, int) {
    if sv_len(a) == 0 {
        (0, 0, 0)
    } else {
        (fdiv(a.0, sv_len(a)), fdiv(a.1, sv_len(a)), fdiv(a.2, sv_len(a)))
    }
}

/// A fixed-point square is nonnegative.
pub proof fn lemma_square_nonneg(c: int)
    ensures
        0 <= fmul(c, c),
{
    assert(0 <= c * c) by (nonlinear_arith);
    lemma_div_pos_is_pos(c * c, 65536);
}

/// A squared magnitude is nonnegative.
pub proof fn lemma_norm2_nonneg(a: (int, int, int))
    ensures
        0 <= sv_norm2(a),
{
    lemma_square_nonneg(a.0);
    lemma_square_nonneg(a.1);
    lemma_square_nonneg(a.2);
}

/// Rescaling a fixed-point square loses less than one unit.
proof fn lemma_square_rescale_close(c: int)
    ensures
        65536 * fmul(c, c) > c * c - 65536,
{
    assert(0 <= c * c) by (nonlinear_arith);
    lemma_fundamental_div_mod(c * c, 65536);
    lemma_mod_division_less_than_divisor(c * c, 65536);
}

/// The components of a normalized vector are below 4.0: the computed
/// length of a nonzero vector cannot fall below a quarter of the largest
/// component's magnitude.
pub proof fn lemma_unit_bounded(a: (int, int, int))
    requires
        sv_in(a, 0x40_0000_0000),
    ensures
        sv_in(sv_unit(a), 0x4_0000),
{
    let n2 = sv_norm2(a);
    let l = sv_len(a);
    lemma_norm2_nonneg(a);
    lemma_sqrt_floor_props(n2 * 65536);
    if l != 0 {
        assert(1 <= l);
        assert(65536 <= n2 * 65536) by {
            if n2 == 0 {
                assert(l * l <= 0);
                assert(l * l >= 1) by (nonlinear_arith)
                    requires
                        1 <= l,
                ;
            }
        }
        assert(256 <= l) by {
            if l < 256 {
                assert((l + 1) * (l + 1) <= 65536) by (nonlinear_arith)
                    requires
                        1 <= l,
                        l < 256,
                ;
            }
        }
        lemma_unit_component_bounded(a, a.0, n2, l);
        lemma_unit_component_bounded(a, a.1, n2, l);
        lemma_unit_component_bounded(a, a.2, n2, l);
    }
}

/// One component of the normalization quotient is below 4.0.
proof fn lemma_unit_component_bounded(a: (int, int, int), c: int, n2: int, l: int)
    requires
        c == a.0 || c == a.1 || c == a.2,
        n2 == sv_norm2(a),
        l == sv_len(a),
        256 <= l,
        n2 * 65536 < (l + 1) * (l + 1),
    ensures
        absi(fdiv(c, l)) <= 0x4_0000,
{
    lemma_square_nonneg(a.0);
    lemma_square_nonneg(a.1);
    lemma_square_nonneg(a.2);
    lemma_square_rescale_close(c);
    assert(fmul(c, c) <= n2);
    assert(c * c < n2 * 65536 + 65536) by (nonlinear_arith)
        requires
            65536 * fmul(c, c) > c * c - 65536,
            fmul(c, c) <= n2,
    ;
    assert(absi(c) <= 4 * l) by (nonlinear_arith)
        requires
            256 <= l,
            c * c < (l + 1) * (l + 1) + 65536,
    ;
    assert(absi(c * 65536) <= (4 * 65536) * absi(l)) by (nonlinear_arith)
        requires
            absi(c) <= 4 * l,
            256 <= l,
    ;
    lemma_tdiv_le(c * 65536, l, 4int * 65536);
}

/// Scaling by zero yields the zero vector.
pub proof fn lemma_scale_by_zero(p: (int, int, int))
    ensures
        sv_scale(p, 0) == (0int, 0int, 0int),
{
    assert(p.0 * 0 == 0) by (nonlinear_arith);
    assert(p.1 * 0 == 0) by (nonlinear_arith);
    assert(p.2 * 0 == 0) by (nonlinear_arith);
}

/// Componentwise bound of a scaled vector from bounds on its inputs.
pub proof fn lemma_scale_in(a: (int, int, int), k: int, ca: int, ck: int)
    requires
        sv_in(a, ca),
        absi(k) <= ck,
    ensures
        sv_in(sv_scale(a, k), (ca * ck) / 65536),
{
    lemma_fmul_bound(a.0, k, ca, ck);
    lemma_fmul_bound(a.1, k, ca, ck);
    lemma_fmul_bound(a.2, k, ca, ck);
}

/// Bound of a dot product from bounds on its inputs.
pub proof fn lemma_dot_bound(a: (int, int, int), b: (int, int, int), ca: int, cb: int)
    requires
        sv_in(a, ca),
        sv_in(b, cb),
    ensures
        absi(sv_dot(a, b)) <= 3 * ((ca * cb) / 65536),
{
    lemma_fmul_bound(a.0, b.0, ca, cb);
    lemma_fmul_bound(a.1, b.1, ca, cb);
    lemma_fmul_bound(a.2, b.2, ca, cb);
}

/// Componentwise bound of a cross product from bounds on its inputs.
pub proof fn lemma_cross_in(a: (int, int, int), b: (int, int, int), ca: int, cb: int)
    requires
        sv_in(a, ca),
        sv_in(b, cb),
    ensures
        sv_in(sv_cross(a, b), 2 * ((ca * cb) / 65536)),
{
    lemma_fmul_bound(a.1, b.2, ca, cb);
    lemma_fmul_bound(a.2, b.1, ca, cb);
    lemma_fmul_bound(a.2, b.0, ca, cb);
    lemma_fmul_bound(a.0, b.2, ca, cb);
    lemma_fmul_bound(a.0, b.1, ca, cb);
    lemma_fmul_bound(a.1, b.0, ca, cb);
}

/// Componentwise bound of a Hadamard product from bounds on its inputs.
pub proof fn lemma_mul_elem_in(a: (int, int, int), b: (int, int, int), ca: int, cb: int)
    requires
        sv_in(a, ca),
        sv_in(b, cb),
    ensures
        sv_in(sv_mul_elem(a, b), (ca * cb) / 65536),
{
    lemma_fmul_bound(a.0, b.0, ca, cb);
    lemma_fmul_bound(a.1, b.1, ca, cb);
    lemma_fmul_bound(a.2, b.2, ca, cb);
}

impl Vec3 {
    pub fn new(x: i64, y: i64, z: i64) -> (r: Vec3)
        ensures
            r == (Vec3 { x, y, z }),
    {
        Vec3 { x, y, z }
    }

    pub fn zero() -> (r: Vec3)
        ensures
            r == (Vec3 { x: 0i64, y: 0i64, z: 0i64 }),
    {
        Vec3 { x: 0, y: 0, z: 0 }
    }

    /// All three components bounded in magnitude by `m`.
    pub open spec fn bounded(self, m: int) -> bool {
        sv_in(v3(self), m)
    }

    pub fn plus(self, o: Vec3) -> (r: Vec3)
        requires
            self.bounded(0x2000_0000_0000_0000),
            o.bounded(0x2000_0000_0000_0000),
        ensures
            v3(r) == sv_add(v3(self), v3(o)),
    {
        Vec3 { x: self.x + o.x, y: self.y + o.y, z: self.z + o.z }
    }

    pub fn minus(self, o: Vec3) -> (r: Vec3)
        requires
            self.bounded(0x2000_0000_0000_0000),
            o.bounded(0x2000_0000_0000_0000),
        ensures
            v3(r) == sv_sub(v3(self), v3(o)),
    {
        Vec3 { x: self.x - o.x, y: self.y - o.y, z: self.z - o.z }
    }

    pub fn negate(self) -> (r: Vec3)
        requires
            self.bounded(0x2000_0000_0000_0000),
        ensures
            v3(r) == sv_neg(v3(self)),
    {
        Vec3 { x: -self.x, y: -self.y, z: -self.z }
    }

    pub fn scale(self, k: i64) -> (r: Vec3)
        requires
            self.bounded(0x40_0000_0000),
            absi(k as int) <= 0x100_0000_0000,
        ensures
            v3(r) == sv_scale(v3(self), k as int),
    {
        proof {
            lemma_fmul_bound(self.x as int, k as int, 0x40_0000_0000, 0x100_0000_0000);
            lemma_fmul_bound(self.y as int, k as int, 0x40_0000_0000, 0x100_0000_0000);
            lemma_fmul_bound(self.z as int, k as int, 0x40_0000_0000, 0x100_0000_0000);
        }
        Vec3 { x: mul_fix(self.x, k), y: mul_fix(self.y, k), z: mul_fix(self.z, k) }
    }

    pub fn mul_elem(self, o: Vec3) -> (r: Vec3)
        requires
            self.bounded(0x40_0000_0000),
            o.bounded(0x40_0000_0000),
        ensures
            v3(r) == sv_mul_elem(v3(self), v3(o)),
    {
        proof {
            lemma_fmul_bound(self.x as int, o.x as int, 0x40_0000_0000, 0x40_0000_0000);
            lemma_fmul_bound(self.y as int, o.y as int, 0x40_0000_0000, 0x40_0000_0000);
            lemma_fmul_bound(self.z as int, o.z as int, 0x40_0000_0000, 0x40_0000_0000);
        }
        Vec3 { x: mul_fix(self.x, o.x), y: mul_fix(self.y, o.y), z: mul_fix(self.z, o.z) }
    }

    pub fn dot(self, o: Vec3) -> (r: i64)
        requires
            self.bounded(0x40_0000_0000),
            o.bounded(0x40_0000_0000),
        ensures
            r == sv_dot(v3(self), v3(o)),
            absi(r as int) <= 0x3000_0000_0000_0000,
    {
        proof {
            lemma_fmul_bound(self.x as int, o.x as int, 0x40_0000_0000, 0x40_0000_0000);
            lemma_fmul_bound(self.y as int, o.y as int, 0x40_0000_0000, 0x40_0000_0000);
            lemma_fmul_bound(self.z as int, o.z as int, 0x40_0000_0000, 0x40_0000_0000);
        }
        mul_fix(self.x, o.x) + mul_fix(self.y, o.y) + mul_fix(self.z, o.z)
    }

    pub fn cross(self, o: Vec3) -> (r: Vec3)
        requires
            self.bounded(0x40_0000_0000),
            o.bounded(0x40_0000_0000),
        ensures
            v3(r) == sv_cross(v3(self), v3(o)),
    {
        proof {
            lemma_fmul_bound(self.y as int, o.z as int, 0x40_0000_0000, 0x40_0000_0000);
            lemma_fmul_bound(self.z as int, o.y as int, 0x40_0000_0000, 0x40_0000_0000);
            lemma_fmul_bound(self.z as int, o.x as int, 0x40_0000_0000, 0x40_0000_0000);
            lemma_fmul_bound(self.x as int, o.z as int, 0x40_0000_0000, 0x40_0000_0000);
            lemma_fmul_bound(self.x as int, o.y as int, 0x40_0000_0000, 0x40_0000_0000);
            lemma_fmul_bound(self.y as int, o.x as int, 0x40_0000_0000, 0x40_0000_0000);
        }
        Vec3 {
            x: mul_fix(self.y, o.z) - mul_fix(self.z, o.y),
            y: mul_fix(self.z, o.x) - mul_fix(self.x, o.z),
            z: mul_fix(self.x, o.y) - mul_fix(self.y, o.x),
        }
    }

    /// Squared magnitude.
    pub fn magnitude2(self) -> (r: i64)
        requires
            self.bounded(0x40_0000_0000),
        ensures
            r == sv_norm2(v3(self)),
            0 <= r,
    {
        proof {
            lemma_square_nonneg(self.x as int);
            lemma_square_nonneg(self.y as int);
            lemma_square_nonneg(self.z as int);
        }
        self.dot(self)
    }

    /// Magnitude.
    pub fn magnitude(self) -> (r: i64)
        requires
            self.bounded(0x40_0000_0000),
        ensures
            r == sv_len(v3(self)),
            0 <= r,
    {
        let n2: i64 = self.magnitude2();
        sqrt_fix(n2)
    }

    /// Dot product carried in 128 bits, for operands past the range of
    /// the componentwise operations.
    pub fn dot_wide(self, o: Vec3) -> (r: i128)
        requires
            self.bounded(0x4000_0000_0000_0000),
            o.bounded(0x4000_0000_0000_0000),
        ensures
            r == sv_dot(v3(self), v3(o)),
    {
        proof {
            lemma_fmul_bound(
                self.x as int,
                o.x as int,
                0x4000_0000_0000_0000,
                0x4000_0000_0000_0000,
            );
            lemma_fmul_bound(
                self.y as int,
                o.y as int,
                0x4000_0000_0000_0000,
                0x4000_0000_0000_0000,
            );
            lemma_fmul_bound(
                self.z as int,
                o.z as int,
                0x4000_0000_0000_0000,
                0x4000_0000_0000_0000,
            );
        }
        let p0: i128 = crate::fixed::tdiv_wide((self.x as i128) * (o.x as i128), 65536);
        let p1: i128 = crate::fixed::tdiv_wide((self.y as i128) * (o.y as i128), 65536);
        let p2: i128 = crate::fixed::tdiv_wide((self.z as i128) * (o.z as i128), 65536);
        p0 + p1 + p2
    }

    /// Run-time test of `bounded`: all components within `±m`.
    pub fn check_bounded(self, m: i64) -> (b: bool)
        requires
            0 <= m,
        ensures
            b == self.bounded(m as int),
    {
        -m <= self.x && self.x <= m && -m <= self.y && self.y <= m && -m <= self.z && self.z <= m
    }

    pub fn normalize(self) -> (r: Vec3)
        requires
            self.bounded(VEC_OP_MAX as int),
        ensures
            v3(r) == sv_unit(v3(self)),
            r.bounded(UNIT_MAX as int),
    {
        let l: i64 = self.magnitude();
        proof {
            lemma_unit_bounded(v3(self));
        }
        if l == 0 {
            Vec3 { x: 0, y: 0, z: 0 }
        } else {
            Vec3 { x: div_fix(self.x, l), y: div_fix(self.y, l), z: div_fix(self.z, l) }
        }
    }
}

} // verus!
