//! Three-component vectors of Q16.16 fixed-point scalars.

use vstd::prelude::*;
use crate::fixed::{SCALE, sdiv, abs_s, isqrt_s, fmul_s, fmul, isqrt, lemma_prod_bound, lemma_sq_bound};

verus! {

/// A vector of three fixed-point scalars.
#[derive(Clone, Copy, PartialEq, Eq, Structural, Debug)]
pub struct Vec3 {
    pub x: i64,
    pub y: i64,
    pub z: i64,
}

/// Shorthand constructor, mirroring the usual `vec3` helper.
pub fn vec3(x: i64, y: i64, z: i64) -> (r: Vec3)
    ensures
        r == (Vec3 { x, y, z }),
{
    Vec3 { x, y, z }
}

/// Every component of `v` has magnitude at most `b`.
pub open spec fn vbounded(v: Vec3, b: int) -> bool {
    abs_s(v.x as int) <= b && abs_s(v.y as int) <= b && abs_s(v.z as int) <= b
}

/// The largest component magnitude the vector operations accept:
/// coordinates up to 32768 world units.
pub const COORD_LIMIT: i64 = 0x8000_0000;

/// The dot product of two fixed-point vectors, truncated toward zero.
pub open spec fn dot_s(a: Vec3, b: Vec3) -> int {
    sdiv(
        (a.x as int) * (b.x as int) + (a.y as int) * (b.y as int) + (a.z as int) * (b.z as int),
        SCALE as int,
    )
}

/// The cross product of two fixed-point vectors, each component truncated
/// toward zero.
pub open spec fn cross_s(a: Vec3, b: Vec3) -> (int, int, int) {
    (
        sdiv((a.y as int) * (b.z as int) - (a.z as int) * (b.y as int), SCALE as int),
        sdiv((a.z as int) * (b.x as int) - (a.x as int) * (b.z as int), SCALE as int),
        sdiv((a.x as int) * (b.y as int) - (a.y as int) * (b.x as int), SCALE as int),
    )
}

/// The squared Euclidean length of `v` in raw (unscaled) units.
pub open spec fn norm2_s(v: Vec3) -> int {
    (v.x as int) * (v.x as int) + (v.y as int) * (v.y as int) + (v.z as int) * (v.z as int)
}

/// The Euclidean length of `v`, in the same fixed-point scale as its
/// components.
pub open spec fn vlen_s(v: Vec3) -> int {
    isqrt_s(norm2_s(v))
}

/// The integer triple a vector holds.
pub open spec fn t_of(v: Vec3) -> (int, int, int) {
    (v.x as int, v.y as int, v.z as int)
}

/// Componentwise sum of integer triples.
pub open spec fn add3(a: (int, int, int), b: (int, int, int)) -> (int, int, int) {
    (a.0 + b.0, a.1 + b.1, a.2 + b.2)
}

/// Componentwise difference of integer triples.
pub open spec fn sub3(a: (int, int, int), b: (int, int, int)) -> (int, int, int) {
    (a.0 - b.0, a.1 - b.1, a.2 - b.2)
}

/// The fixed-point cross product of integer triples.
pub open spec fn cross3(a: (int, int, int), b: (int, int, int)) -> (int, int, int) {
    (
        sdiv(a.1 * b.2 - a.2 * b.1, SCALE as int),
        sdiv(a.2 * b.0 - a.0 * b.2, SCALE as int),
        sdiv(a.0 * b.1 - a.1 * b.0, SCALE as int),
    )
}

/// The fixed-point dot product of integer triples.
pub open spec fn dot3(a: (int, int, int), b: (int, int, int)) -> int {
    sdiv(a.0 * b.0 + a.1 * b.1 + a.2 * b.2, SCALE as int)
}

/// The unscaled sum of componentwise products of integer triples.
pub open spec fn rawdot3(a: (int, int, int), b: (int, int, int)) -> int {
    a.0 * b.0 + a.1 * b.1 + a.2 * b.2
}

/// The squared length of an integer triple, in raw units.
pub open spec fn norm23(a: (int, int, int)) -> int {
    rawdot3(a, a)
}

/// An integer triple rescaled to unit length.
pub open spec fn normalize3(a: (int, int, int)) -> (int, int, int) {
    (
        sdiv(a.0 * (SCALE as int), isqrt_s(norm23(a))),
        sdiv(a.1 * (SCALE as int), isqrt_s(norm23(a))),
        sdiv(a.2 * (SCALE as int), isqrt_s(norm23(a))),
    )
}

/// Every component of an integer triple has magnitude at most `b`.
pub open spec fn bounded3(a: (int, int, int), b: int) -> bool {
    abs_s(a.0) <= b && abs_s(a.1) <= b && abs_s(a.2) <= b
}

/// `v` rescaled to unit length: each component divided by the vector's
/// length, truncated toward zero.
pub open spec fn vnormalize_s(v: Vec3) -> (int, int, int) {
    (
        sdiv((v.x as int) * (SCALE as int), vlen_s(v)),
        sdiv((v.y as int) * (SCALE as int), vlen_s(v)),
        sdiv((v.z as int) * (SCALE as int), vlen_s(v)),
    )
}

/// Componentwise bounds for the fixed-point cross product of bounded
/// vectors.
pub proof fn lemma_cross3_bounded(a: (int, int, int), b: (int, int, int), ba: int, bb: int)
    requires
        bounded3(a, ba),
        bounded3(b, bb),
        0 <= ba,
        0 <= bb,
    ensures
        bounded3(cross3(a, b), (2 * ba * bb) / (SCALE as int)),
{
    crate::fixed::lemma_prod_bound2(a.1, b.2, ba, bb);
    crate::fixed::lemma_prod_bound2(a.2, b.1, ba, bb);
    crate::fixed::lemma_prod_bound2(a.2, b.0, ba, bb);
    crate::fixed::lemma_prod_bound2(a.0, b.2, ba, bb);
    crate::fixed::lemma_prod_bound2(a.0, b.1, ba, bb);
    crate::fixed::lemma_prod_bound2(a.1, b.0, ba, bb);
    assert(2 * ba * bb == 2 * (ba * bb)) by (nonlinear_arith);
    crate::fixed::lemma_sdiv_bound(a.1 * b.2 - a.2 * b.1, 2 * ba * bb, SCALE as int);
    crate::fixed::lemma_sdiv_bound(a.2 * b.0 - a.0 * b.2, 2 * ba * bb, SCALE as int);
    crate::fixed::lemma_sdiv_bound(a.0 * b.1 - a.1 * b.0, 2 * ba * bb, SCALE as int);
}

/// A bound for the fixed-point dot product of bounded vectors.
pub proof fn lemma_dot3_bounded(a: (int, int, int), b: (int, int, int), ba: int, bb: int)
    requires
        bounded3(a, ba),
        bounded3(b, bb),
        0 <= ba,
        0 <= bb,
    ensures
        abs_s(dot3(a, b)) <= (3 * ba * bb) / (SCALE as int),
{
    crate::fixed::lemma_prod_bound2(a.0, b.0, ba, bb);
    crate::fixed::lemma_prod_bound2(a.1, b.1, ba, bb);
    crate::fixed::lemma_prod_bound2(a.2, b.2, ba, bb);
    assert(3 * ba * bb == 3 * (ba * bb)) by (nonlinear_arith);
    crate::fixed::lemma_sdiv_bound(a.0 * b.0 + a.1 * b.1 + a.2 * b.2, 3 * ba * bb, SCALE as int);
}

/// Componentwise sum.
pub fn vadd(a: &Vec3, b: &Vec3) -> (r: Vec3)
    requires
        vbounded(*a, 0x2000_0000_0000_0000),
        vbounded(*b, 0x2000_0000_0000_0000),
    ensures
        r.x as int == a.x + b.x,
        r.y as int == a.y + b.y,
        r.z as int == a.z + b.z,
{
    Vec3 { x: a.x + b.x, y: a.y + b.y, z: a.z + b.z }
}

/// Componentwise difference.
pub fn vsub(a: &Vec3, b: &Vec3) -> (r: Vec3)
    requires
        vbounded(*a, 0x2000_0000_0000_0000),
        vbounded(*b, 0x2000_0000_0000_0000),
    ensures
        r.x as int == a.x - b.x,
        r.y as int == a.y - b.y,
        r.z as int == a.z - b.z,
{
    Vec3 { x: a.x - b.x, y: a.y - b.y, z: a.z - b.z }
}

/// The dot product.
pub fn dot(a: &Vec3, b: &Vec3) -> (r: i64)
    requires
        vbounded(*a, COORD_LIMIT as int),
        vbounded(*b, COORD_LIMIT as int),
    ensures
        r as int == dot_s(*a, *b),
{
    proof {
        lemma_prod_bound(a.x as int, b.x as int, COORD_LIMIT as int);
        lemma_prod_bound(a.y as int, b.y as int, COORD_LIMIT as int);
        lemma_prod_bound(a.z as int, b.z as int, COORD_LIMIT as int);
    }
    let px: i128 = (a.x as i128) * (b.x as i128);
    let py: i128 = (a.y as i128) * (b.y as i128);
    let pz: i128 = (a.z as i128) * (b.z as i128);
    let s: i128 = px + py + pz;
    div_scale(s)
}

/// Truncating division of a wide intermediate by `SCALE`.
pub(crate) fn div_scale(s: i128) -> (r: i64)
    requires
        -0x4000_0000_0000_0000_0000 <= s <= 0x4000_0000_0000_0000_0000,
    ensures
        r as int == sdiv(s as int, SCALE as int),
{
    if s >= 0 {
        let q: u128 = (s as u128) / 65536;
        proof {
            vstd::arithmetic::div_mod::lemma_div_is_ordered(
                s as int,
                0x4000_0000_0000_0000_0000,
                65536,
            );
        }
        q as i64
    } else {
        let m: u128 = (-(s)) as u128;
        let q: u128 = m / 65536;
        proof {
            vstd::arithmetic::div_mod::lemma_div_is_ordered(
                m as int,
                0x4000_0000_0000_0000_0000,
                65536,
            );
        }
        (-(q as i128)) as i64
    }
}

/// The cross product.
pub fn cross(a: &Vec3, b: &Vec3) -> (r: Vec3)
    requires
        vbounded(*a, COORD_LIMIT as int),
        vbounded(*b, COORD_LIMIT as int),
    ensures
        (r.x as int, r.y as int, r.z as int) == cross_s(*a, *b),
{
    proof {
        lemma_prod_bound(a.y as int, b.z as int, COORD_LIMIT as int);
        lemma_prod_bound(a.z as int, b.y as int, COORD_LIMIT as int);
        lemma_prod_bound(a.z as int, b.x as int, COORD_LIMIT as int);
        lemma_prod_bound(a.x as int, b.z as int, COORD_LIMIT as int);
        lemma_prod_bound(a.x as int, b.y as int, COORD_LIMIT as int);
        lemma_prod_bound(a.y as int, b.x as int, COORD_LIMIT as int);
    }
    let cx: i128 = (a.y as i128) * (b.z as i128) - (a.z as i128) * (b.y as i128);
    let cy: i128 = (a.z as i128) * (b.x as i128) - (a.x as i128) * (b.z as i128);
    let cz: i128 = (a.x as i128) * (b.y as i128) - (a.y as i128) * (b.x as i128);
    Vec3 { x: div_scale(cx), y: div_scale(cy), z: div_scale(cz) }
}

/// Every component scaled by the fixed-point scalar `s`.
pub fn vscale(v: &Vec3, s: i64) -> (r: Vec3)
    requires
        vbounded(*v, COORD_LIMIT as int),
        -COORD_LIMIT <= s <= COORD_LIMIT,
    ensures
        r.x as int == fmul_s(v.x as int, s as int),
        r.y as int == fmul_s(v.y as int, s as int),
        r.z as int == fmul_s(v.z as int, s as int),
{
    proof {
        lemma_prod_bound(v.x as int, s as int, COORD_LIMIT as int);
        lemma_prod_bound(v.y as int, s as int, COORD_LIMIT as int);
        lemma_prod_bound(v.z as int, s as int, COORD_LIMIT as int);
    }
    Vec3 { x: fmul(v.x, s), y: fmul(v.y, s), z: fmul(v.z, s) }
}

/// The Euclidean length of `v` in the fixed-point scale.
pub fn vlength(v: &Vec3) -> (r: i64)
    requires
        vbounded(*v, COORD_LIMIT as int),
    ensures
        r as int == vlen_s(*v),
        0 <= r <= 0x1_0000_0000,
{
    proof {
        lemma_sq_bound(v.x as int, COORD_LIMIT as int);
        lemma_sq_bound(v.y as int, COORD_LIMIT as int);
        lemma_sq_bound(v.z as int, COORD_LIMIT as int);
    }
    let sx: u128 = ((v.x as i128) * (v.x as i128)) as u128;
    let sy: u128 = ((v.y as i128) * (v.y as i128)) as u128;
    let sz: u128 = ((v.z as i128) * (v.z as i128)) as u128;
    let n: u64 = (sx + sy + sz) as u64;
    let r = isqrt(n);
    proof {
        assert(n as int == norm2_s(*v));
        assert((0x1_0000_0000 + 1) * (0x1_0000_0000 + 1) > n as int) by (nonlinear_arith)
            requires
                n <= 0xffff_ffff_ffff_ffffu64,
        ;
        assert(r as int <= 0x1_0000_0000) by (nonlinear_arith)
            requires
                (r as int) * (r as int) <= (n as int)
                    && (0x1_0000_0000 + 1) * (0x1_0000_0000 + 1) > n as int && r >= 0,
        ;
    }
    r as i64
}

/// `v` rescaled to unit length.  The zero vector has no direction, so a
/// positive length is required.
pub fn vnormalize(v: &Vec3) -> (r: Vec3)
    requires
        vbounded(*v, COORD_LIMIT as int),
        norm2_s(*v) > 0,
    ensures
        (r.x as int, r.y as int, r.z as int) == vnormalize_s(*v),
        vbounded(r, SCALE as int),
{
    let len = vlength(v);
    proof {
        crate::fixed::lemma_isqrt_exists(norm2_s(*v));
        assert((len as int) * (len as int) <= norm2_s(*v) < ((len as int) + 1) * ((len as int)
            + 1));
        assert(len > 0) by (nonlinear_arith)
            requires
                (len as int) * (len as int) <= norm2_s(*v) < ((len as int) + 1) * ((len as int)
                    + 1) && norm2_s(*v) > 0 && len >= 0,
        ;
        assert((v.x as int) * (v.x as int) <= norm2_s(*v) && (v.y as int) * (v.y as int)
            <= norm2_s(*v) && (v.z as int) * (v.z as int) <= norm2_s(*v)) by (nonlinear_arith);
    }
    let r = Vec3 {
        x: crate::fixed::fdiv(v.x, len),
        y: crate::fixed::fdiv(v.y, len),
        z: crate::fixed::fdiv(v.z, len),
    };
    proof {
        lemma_unit_component(v.x as int, len as int, norm2_s(*v));
        lemma_unit_component(v.y as int, len as int, norm2_s(*v));
        lemma_unit_component(v.z as int, len as int, norm2_s(*v));
    }
    r
}

/// A component divided by the vector's length has magnitude at most one.
proof fn lemma_unit_component(x: int, len: int, n2: int)
    requires
        len > 0,
        x * x <= n2,
        len * len <= n2 < (len + 1) * (len + 1),
    ensures
        abs_s(crate::fixed::fdiv_s(x, len)) <= SCALE as int,
{
    assert(abs_s(x) <= len) by (nonlinear_arith)
        requires
            x * x <= n2 < (len + 1) * (len + 1) && len > 0,
    ;
    assert(abs_s(x * (SCALE as int)) <= len * (SCALE as int)) by (nonlinear_arith)
        requires
            abs_s(x) <= len && len > 0,
    ;
    crate::fixed::lemma_sdiv_bound(x * (SCALE as int), len * (SCALE as int), len);
    assert((len * (SCALE as int)) / len == SCALE as int) by {
        vstd::arithmetic::div_mod::lemma_div_by_multiple(SCALE as int, len);
        assert(len * (SCALE as int) == (SCALE as int) * len) by (nonlinear_arith);
    }
}

} // verus!
