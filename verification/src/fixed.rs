//! Q16.16 fixed-point arithmetic: the numeric ground the tracer stands on.
//!
//! Every geometric quantity in this crate is a signed 64-bit integer that
//! carries a real number scaled by `SCALE` (65536), so `65536` means `1.0`.
//! Products and quotients are computed in 128-bit intermediates and rounded
//! toward zero, and every executable operation here is specified exactly:
//! `mul_fix` returns `fmul`, `div_fix` returns `fdiv`, and `sqrt_fix` returns
//! the integer square root `sqrt_floor` of the scaled radicand.

use vstd::prelude::*;
use vstd::arithmetic::div_mod::{
    lemma_div_is_ordered, lemma_div_multiples_vanish, lemma_div_pos_is_pos,
};
use vstd::arithmetic::mul::lemma_mul_inequality;

verus! {

/// One unit (1.0) in the fixed-point encoding.
pub const SCALE: i64 = 65536;

/// Largest magnitude allowed for a scene coordinate handed to the library.
pub const COORD_MAX: i64 = 0x4000_0000;

/// Largest magnitude allowed for a triangle vertex coordinate; tighter than
/// `COORD_MAX` so that edge cross products stay inside the vector-op range.
pub const TRI_COORD_MAX: i64 = 0x200_0000;

/// Largest magnitude of a ray direction component the tracer works with.
pub const DIR_MAX: i64 = 0x10_0000_0000;

/// Largest magnitude of a point component a hit record may carry.
pub const POINT_MAX: i64 = 0x20_0000_0000;

/// Bound on the components of a vector that stands for a unit vector
/// (normals, normalized directions); 4.0 in fixed point.
pub const UNIT_MAX: i64 = 0x4_0000;

/// Operand bound for the componentwise vector operations.
pub const VEC_OP_MAX: i64 = 0x40_0000_0000;

/// Lower end of the hit interval used by the shading recursion (~0.001),
/// suppressing self-intersection of bounced rays.
pub const T_NEAR: i64 = 65;

/// Upper end of the hit interval used by the shading recursion: the
/// stand-in for an unbounded view distance.
pub const T_FAR: i64 = 0x100_0000_0000;

/// Magnitude of an integer.
pub open spec fn absi(a: int) -> int {
    if a >= 0 {
        a
    } else {
        -a
    }
}

/// Division rounding toward zero, the rounding of the executable code.
pub open spec fn tdiv(a: int, b: int) -> int {
    if (a >= 0) == (b >= 0) {
        absi(a) / absi(b)
    } else {
        -(absi(a) / absi(b))
    }
}

/// Fixed-point product: the real product of `a` and `b`, rescaled.
pub open spec fn fmul(a: int, b: int) -> int {
    tdiv(a * b, 65536)
}

/// Fixed-point quotient: the real quotient of `a` by `b`, rescaled.
pub open spec fn fdiv(a: int, b: int) -> int {
    tdiv(a * 65536, b)
}

/// The integer square root: the greatest `r` with `r * r <= n`.
pub open spec fn sqrt_floor(n: int) -> int {
    choose|r: int| 0 <= r && #[trigger] (r * r) <= n && n < (r + 1) * (r + 1)
}

/// A witness that the integer square root exists.
proof fn lemma_sqrt_witness(n: int) -> (r: int)
    requires
        0 <= n,
    ensures
        0 <= r,
        r * r <= n,
        n < (r + 1) * (r + 1),
    decreases n,
{
    if n == 0 {
        0
    } else {
        let r0 = lemma_sqrt_witness(n - 1);
        if (r0 + 1) * (r0 + 1) <= n {
            assert(n == (r0 + 1) * (r0 + 1));
            assert(n < (r0 + 2) * (r0 + 2)) by (nonlinear_arith)
                requires
                    0 <= r0,
                    n == (r0 + 1) * (r0 + 1),
            ;
            r0 + 1
        } else {
            r0
        }
    }
}

/// The defining inequalities of `sqrt_floor`.
pub proof fn lemma_sqrt_floor_props(n: int)
    requires
        0 <= n,
    ensures
        0 <= sqrt_floor(n),
        sqrt_floor(n) * sqrt_floor(n) <= n,
        n < (sqrt_floor(n) + 1) * (sqrt_floor(n) + 1),
{
    let w = lemma_sqrt_witness(n);
    assert(0 <= w && #[trigger] (w * w) <= n && n < (w + 1) * (w + 1));
}

/// Any integer meeting the defining inequalities is `sqrt_floor`.
pub proof fn lemma_sqrt_floor_is(n: int, r: int)
    requires
        0 <= r,
        r * r <= n,
        n < (r + 1) * (r + 1),
    ensures
        sqrt_floor(n) == r,
{
    lemma_sqrt_floor_props(n);
    let s = sqrt_floor(n);
    if s < r {
        assert((s + 1) * (s + 1) <= r * r) by (nonlinear_arith)
            requires
                0 <= s,
                s < r,
        ;
    }
    if r < s {
        assert((r + 1) * (r + 1) <= s * s) by (nonlinear_arith)
            requires
                0 <= r,
                r < s,
        ;
    }
}

/// An upper bound on an integer square root from a square bound on the
/// radicand.
pub proof fn lemma_sqrt_le(n: int, c: int)
    requires
        0 <= n,
        0 <= c,
        n <= c * c,
    ensures
        sqrt_floor(n) <= c,
{
    lemma_sqrt_floor_props(n);
    let s = sqrt_floor(n);
    if c < s {
        assert(false) by (nonlinear_arith)
            requires
                0 <= c,
                c < s,
                s * s <= n,
                n <= c * c,
        ;
    }
}

/// The magnitude of a truncating quotient is the quotient of the magnitudes.
pub proof fn lemma_tdiv_mag(a: int, b: int)
    requires
        b != 0,
    ensures
        absi(tdiv(a, b)) == absi(a) / absi(b),
        0 <= absi(a) / absi(b),
{
    lemma_div_pos_is_pos(absi(a), absi(b));
}

/// A quotient is bounded by any multiple-of-the-divisor bound on the dividend.
pub proof fn lemma_tdiv_le(a: int, b: int, c: int)
    requires
        b != 0,
        0 <= c,
        absi(a) <= c * absi(b),
    ensures
        absi(tdiv(a, b)) <= c,
{
    lemma_tdiv_mag(a, b);
    assert(c * absi(b) == absi(b) * c) by (nonlinear_arith);
    lemma_div_is_ordered(absi(a), absi(b) * c, absi(b));
    lemma_div_multiples_vanish(c, absi(b));
}

/// A bound on a fixed-point quotient from a scaled bound on the dividend.
pub proof fn lemma_fdiv_bound(a: int, b: int, c: int)
    requires
        b != 0,
        0 <= c,
        absi(a) * 65536 <= c * absi(b),
    ensures
        absi(fdiv(a, b)) <= c,
{
    assert(absi(a * 65536) == absi(a) * 65536) by (nonlinear_arith);
    lemma_tdiv_le(a * 65536, b, c);
}

/// For nonnegative operands the truncating quotient is the Euclidean
/// one, and nonnegative.
pub proof fn lemma_tdiv_nonneg(a: int, b: int)
    requires
        0 <= a,
        0 < b,
    ensures
        tdiv(a, b) == a / b,
        0 <= tdiv(a, b),
{
    lemma_div_pos_is_pos(a, b);
}

/// Truncating division by a positive divisor is monotone in the dividend.
pub proof fn lemma_tdiv_mono(a1: int, a2: int, b: int)
    requires
        0 < b,
        a1 <= a2,
    ensures
        tdiv(a1, b) <= tdiv(a2, b),
{
    if 0 <= a1 {
        lemma_div_is_ordered(a1, a2, b);
    } else if a2 < 0 {
        lemma_div_is_ordered(-a2, -a1, b);
    } else {
        lemma_div_pos_is_pos(-a1, b);
        lemma_div_pos_is_pos(a2, b);
    }
}

/// Negating either operand negates a truncating quotient.
pub proof fn lemma_tdiv_neg(a: int, b: int)
    requires
        b != 0,
    ensures
        tdiv(-a, b) == -tdiv(a, b),
        tdiv(a, -b) == -tdiv(a, b),
{
}

/// Magnitude bound for a fixed-point product from operand bounds.
pub proof fn lemma_fmul_bound(a: int, b: int, ca: int, cb: int)
    requires
        absi(a) <= ca,
        absi(b) <= cb,
    ensures
        absi(fmul(a, b)) <= (ca * cb) / 65536,
        absi(a * b) <= ca * cb,
{
    assert(absi(a * b) <= ca * cb) by (nonlinear_arith)
        requires
            absi(a) <= ca,
            absi(b) <= cb,
    ;
    lemma_tdiv_mag(a * b, 65536);
    lemma_div_is_ordered(absi(a * b), ca * cb, 65536);
}

/// A fixed-point product of nonnegative factors is nonnegative and
/// bounded by the rescaled product of the factor bounds.
pub proof fn lemma_fmul_nonneg_le(a: int, b: int, ca: int, cb: int)
    requires
        0 <= a <= ca,
        0 <= b <= cb,
    ensures
        0 <= fmul(a, b) <= (ca * cb) / 65536,
        absi(a * b) <= ca * cb,
{
    assert(0 <= a * b && a * b <= ca * cb) by (nonlinear_arith)
        requires
            0 <= a <= ca,
            0 <= b <= cb,
    ;
    lemma_div_pos_is_pos(a * b, 65536);
    lemma_div_is_ordered(a * b, ca * cb, 65536);
}

/// A fixed-point product of factors in [0, 1] stays in [0, 1] and below
/// either factor.
pub proof fn lemma_fmul_unit_range(a: int, b: int)
    requires
        0 <= a <= 65536,
        0 <= b <= 65536,
    ensures
        0 <= fmul(a, b),
        fmul(a, b) <= a,
        fmul(a, b) <= b,
{
    assert(0 <= a * b) by (nonlinear_arith)
        requires
            0 <= a,
            0 <= b,
    ;
    lemma_mul_inequality(b, 65536, a);
    assert(a * b == b * a) by (nonlinear_arith);
    lemma_mul_inequality(a, 65536, b);
    lemma_div_pos_is_pos(a * b, 65536);
    lemma_div_is_ordered(a * b, a * 65536, 65536);
    lemma_div_multiples_vanish(a, 65536);
    lemma_div_is_ordered(a * b, b * 65536, 65536);
    lemma_div_multiples_vanish(b, 65536);
}

/// Truncating division for 128-bit intermediates, specified by `tdiv`.
pub fn tdiv_wide(a: i128, b: i128) -> (r: i128)
    requires
        b != 0,
        absi(a as int) < 0x8000_0000_0000_0000_0000_0000_0000_0000,
        absi(b as int) < 0x8000_0000_0000_0000_0000_0000_0000_0000,
    ensures
        r == tdiv(a as int, b as int),
        absi(r as int) <= absi(a as int),
{
    let ua: i128 = if a >= 0 {
        a
    } else {
        -a
    };
    let ub: i128 = if b >= 0 {
        b
    } else {
        -b
    };
    let q: i128 = ua / ub;
    proof {
        lemma_div_pos_is_pos(ua as int, ub as int);
        lemma_tdiv_mag(a as int, b as int);
        lemma_div_is_ordered_by_den(absi(a as int), 1, ub as int);
    }
    if (a >= 0) == (b >= 0) {
        q
    } else {
        -q
    }
}

/// Helper: shrinking the divisor cannot shrink a nonnegative quotient.
proof fn lemma_div_is_ordered_by_den(x: int, y: int, z: int)
    requires
        0 <= x,
        1 <= y <= z,
    ensures
        x / z <= x / y,
{
    vstd::arithmetic::div_mod::lemma_div_is_ordered_by_denominator(x, y, z);
}

/// Fixed-point multiply; exact per `fmul`.
pub fn mul_fix(a: i64, b: i64) -> (r: i64)
    requires
        absi(a as int * b as int) <= 0x4000_0000_0000_0000_0000,
    ensures
        r == fmul(a as int, b as int),
{
    proof {
        assert(absi(a as int * b as int) < 0x8000_0000_0000_0000_0000_0000_0000_0000)
            by (nonlinear_arith)
            requires
                absi(a as int * b as int) <= 0x4000_0000_0000_0000_0000,
        ;
    }
    let p: i128 = (a as i128) * (b as i128);
    let q: i128 = tdiv_wide(p, 65536);
    proof {
        assert(absi(p as int) <= 0x4000_0000_0000_0000int * absi(65536));
        lemma_tdiv_le(p as int, 65536, 0x4000_0000_0000_0000);
    }
    q as i64
}

/// Fixed-point divide; exact per `fdiv`.
pub fn div_fix(a: i64, b: i64) -> (r: i64)
    requires
        b != 0,
        absi(a as int) <= 0x1000_0000_0000,
    ensures
        r == fdiv(a as int, b as int),
{
    let num: i128 = (a as i128) * 65536;
    let q: i128 = tdiv_wide(num, b as i128);
    proof {
        assert(absi(num as int) <= 0x1000_0000_0000int * 65536 * absi(b as int))
            by (nonlinear_arith)
            requires
                absi(a as int) <= 0x1000_0000_0000,
                num == a as int * 65536,
                1 <= absi(b as int),
        ;
        lemma_tdiv_le(num as int, b as int, 0x1000_0000_0000int * 65536);
    }
    q as i64
}

/// Integer square root of a 128-bit radicand by bisection.
fn isqrt_wide(n: u128) -> (r: u128)
    ensures
        0 <= r,
        r * r <= n,
        n < (r + 1) * (r + 1),
        r < 0x1_0000_0000_0000_0000,
{
    let mut lo: u128 = 0;
    let mut hi: u128 = 0x1_0000_0000_0000_0000;
    proof {
        assert((0x1_0000_0000_0000_0000 as int) * (0x1_0000_0000_0000_0000 as int)
            > n as int) by (nonlinear_arith)
            requires
                n < 0x1_0000_0000_0000_0000_0000_0000_0000_0000,
        ;
    }
    while lo + 1 < hi
        invariant
            0 <= lo < hi,
            hi <= 0x1_0000_0000_0000_0000,
            lo * lo <= n as int,
            (n as int) < hi * hi,
        decreases hi - lo,
    {
        let mid: u128 = lo + (hi - lo) / 2;
        proof {
            assert(lo < mid < hi);
            assert(mid * mid < 0x1_0000_0000_0000_0000_0000_0000_0000_0000)
                by (nonlinear_arith)
                requires
                    0 <= mid,
                    mid < 0x1_0000_0000_0000_0000,
            ;
        }
        if mid * mid <= n {
            lo = mid;
        } else {
            hi = mid;
        }
    }
    lo
}

/// Fixed-point square root for 128-bit intermediates.
pub fn sqrt_fix_wide(a: i128) -> (r: i128)
    requires
        0 <= a,
        a < 0x1_0000_0000_0000_0000_0000_0000_0000,
    ensures
        r == sqrt_floor(a as int * 65536),
        0 <= r,
        r * r <= a as int * 65536,
        a as int * 65536 < (r + 1) * (r + 1),
{
    let n: u128 = (a as u128) * 65536;
    let s: u128 = isqrt_wide(n);
    proof {
        lemma_sqrt_floor_is(n as int, s as int);
    }
    s as i128
}

/// Fixed-point square root: `sqrt_floor` of the radicand rescaled so that
/// the result is again a fixed-point number.
pub fn sqrt_fix(a: i64) -> (r: i64)
    requires
        0 <= a,
    ensures
        r == sqrt_floor(a as int * 65536),
        0 <= r,
        r * r <= a as int * 65536,
        a as int * 65536 < (r + 1) * (r + 1),
{
    let n: u128 = (a as u128) * 65536;
    let s: u128 = isqrt_wide(n);
    proof {
        lemma_sqrt_floor_is(n as int, s as int);
        assert((s as int) < 0x8000_0000_0000_0000) by (nonlinear_arith)
            requires
                s as int * s as int <= n as int,
                n as int <= 0x8000_0000_0000_0000_0000 * 65536,
                0 <= s as int,
        ;
    }
    s as i64
}

} // verus!
