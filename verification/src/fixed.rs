//! Signed Q16.16 fixed-point scalars.
//!
//! Every physical quantity in this crate (color channel, intensity,
//! coordinate, angle, matrix entry) is a signed 64-bit integer holding the
//! quantity scaled by `SCALE`.  All arithmetic is exact integer arithmetic;
//! products and quotients round toward zero.

use vstd::prelude::*;

verus! {

/// The fixed-point representation of one: values carry 16 fractional bits.
pub const SCALE: i64 = 65536;

/// Truncating division of `p` by a positive divisor `d` (rounds toward zero).
pub open spec fn sdiv(p: int, d: int) -> int {
    if p >= 0 {
        p / d
    } else {
        -((-p) / d)
    }
}

/// The product of two fixed-point scalars: `a * b / SCALE`, truncated.
pub open spec fn fmul_s(a: int, b: int) -> int {
    sdiv(a * b, SCALE as int)
}

/// The quotient of two fixed-point scalars: `a * SCALE / b`, truncated.
pub open spec fn fdiv_s(a: int, b: int) -> int {
    sdiv(a * (SCALE as int), b)
}

/// Magnitude of `a` as a mathematical integer.
pub open spec fn abs_s(a: int) -> int {
    if a >= 0 {
        a
    } else {
        -a
    }
}

/// Absolute value of a fixed-point scalar.
pub fn scalar_abs(a: i64) -> (r: i64)
    requires
        a != i64::MIN,
    ensures
        r as int == abs_s(a as int),
{
    if a < 0 {
        -a
    } else {
        a
    }
}

/// Magnitude of `a` as an unsigned 128-bit value.
fn mag(a: i64) -> (r: u128)
    ensures
        r as int == abs_s(a as int),
        r <= 0x8000_0000_0000_0000u128,
{
    if a >= 0 {
        a as u128
    } else {
        (-(a as i128)) as u128
    }
}

proof fn lemma_abs_mul(a: int, b: int)
    by (nonlinear_arith)
    ensures
        abs_s(a) * abs_s(b) == abs_s(a * b),
        (a * b >= 0) == (a >= 0 && b >= 0 || a <= 0 && b <= 0),
{
}

/// Fixed-point multiplication, exact up to truncation toward zero.
pub fn fmul(a: i64, b: i64) -> (r: i64)
    requires
        -0x4000_0000_0000_0000 <= (a as int) * (b as int) <= 0x4000_0000_0000_0000,
    ensures
        r as int == fmul_s(a as int, b as int),
{
    let neg: bool = (a < 0) != (b < 0);
    let ma: u128 = mag(a);
    let mb: u128 = mag(b);
    proof {
        assert(ma * mb <= 0x8000_0000_0000_0000u128 * 0x8000_0000_0000_0000u128)
            by (nonlinear_arith)
            requires
                ma <= 0x8000_0000_0000_0000u128 && mb <= 0x8000_0000_0000_0000u128,
        ;
    }
    let q: u128 = (ma * mb) / 65536;
    proof {
        lemma_abs_mul(a as int, b as int);
        assert(ma * mb == abs_s((a as int) * (b as int)));
        assert(q as int == abs_s((a as int) * (b as int)) / (SCALE as int));
        assert(q as int <= 0x4000_0000_0000_0000int / 65536) by {
            vstd::arithmetic::div_mod::lemma_div_is_ordered(
                abs_s((a as int) * (b as int)),
                0x4000_0000_0000_0000,
                65536,
            );
        }
    }
    if neg {
        proof {
            assert((a as int) * (b as int) <= 0) by (nonlinear_arith)
                requires
                    (a < 0 && b >= 0) || (a >= 0 && b < 0),
            ;
            assert(fmul_s(a as int, b as int) == -(q as int));
        }
        (-(q as i128)) as i64
    } else {
        proof {
            assert((a as int) * (b as int) >= 0);
            assert(fmul_s(a as int, b as int) == q as int);
        }
        q as i64
    }
}

/// Fixed-point division by a positive scalar, exact up to truncation
/// toward zero.
pub fn fdiv(a: i64, b: i64) -> (r: i64)
    requires
        b > 0,
        -0x4000_0000_0000 <= a <= 0x4000_0000_0000,
    ensures
        r as int == fdiv_s(a as int, b as int),
{
    let ma: u128 = mag(a);
    let q: u128 = (ma * 65536) / (b as u128);
    proof {
        assert(ma * 65536 == abs_s((a as int) * (SCALE as int))) by {
            lemma_abs_mul(a as int, SCALE as int);
        }
        assert(q as int <= abs_s((a as int) * (SCALE as int))) by {
            vstd::arithmetic::div_mod::lemma_div_is_ordered_by_denominator(
                abs_s((a as int) * (SCALE as int)),
                1,
                b as int,
            );
        }
        assert(abs_s((a as int) * (SCALE as int)) <= 0x4000_0000_0000 * 65536) by {
            lemma_abs_mul(a as int, SCALE as int);
            vstd::arithmetic::mul::lemma_mul_inequality(abs_s(a as int), 0x4000_0000_0000, SCALE as int);
        }
    }
    if a < 0 {
        proof {
            assert(fdiv_s(a as int, b as int) == -(q as int)) by {
                lemma_abs_mul(a as int, SCALE as int);
            }
        }
        (-(q as i128)) as i64
    } else {
        proof {
            assert(fdiv_s(a as int, b as int) == q as int) by {
                lemma_abs_mul(a as int, SCALE as int);
            }
        }
        q as i64
    }
}

/// The magnitude of a truncating quotient is at most the quotient of the
/// magnitudes.
pub proof fn lemma_sdiv_bound(x: int, m: int, d: int)
    requires
        abs_s(x) <= m,
        d > 0,
    ensures
        abs_s(sdiv(x, d)) <= m / d,
{
    if x >= 0 {
        vstd::arithmetic::div_mod::lemma_div_is_ordered(x, m, d);
        vstd::arithmetic::div_mod::lemma_div_pos_is_pos(x, d);
    } else {
        vstd::arithmetic::div_mod::lemma_div_is_ordered(-x, m, d);
        vstd::arithmetic::div_mod::lemma_div_pos_is_pos(-x, d);
    }
}

/// Truncating division cancels an exact multiple, whatever the sign.
pub proof fn lemma_sdiv_multiple(b: int, d: int)
    requires
        d > 0,
    ensures
        sdiv(b * d, d) == b,
{
    if b >= 0 {
        assert(b * d >= 0) by (nonlinear_arith)
            requires
                b >= 0 && d > 0,
        ;
        vstd::arithmetic::div_mod::lemma_div_by_multiple(b, d);
    } else {
        assert(b * d < 0) by (nonlinear_arith)
            requires
                b < 0 && d > 0,
        ;
        assert(-(b * d) == (-b) * d) by (nonlinear_arith);
        vstd::arithmetic::div_mod::lemma_div_by_multiple(-b, d);
    }
}

/// The magnitudes of two factors bound the magnitude of their product.
pub proof fn lemma_prod_bound(c: int, d: int, b: int)
    by (nonlinear_arith)
    requires
        abs_s(c) <= b,
        abs_s(d) <= b,
        0 <= b,
    ensures
        -(b * b) <= c * d <= b * b,
{
}

/// The magnitude of a factor bounds its square on both sides.
pub proof fn lemma_sq_bound(c: int, b: int)
    by (nonlinear_arith)
    requires
        abs_s(c) <= b,
        0 <= b,
    ensures
        0 <= c * c <= b * b,
{
}

/// The magnitudes of two factors bound the magnitude of their product,
/// with distinct bounds on the two sides.
pub proof fn lemma_prod_bound2(c: int, d: int, bc: int, bd: int)
    by (nonlinear_arith)
    requires
        abs_s(c) <= bc,
        abs_s(d) <= bd,
        0 <= bc,
        0 <= bd,
    ensures
        -(bc * bd) <= c * d <= bc * bd,
{
}

/// The integer square root: the unique `r` with `r * r <= n < (r + 1) * (r + 1)`.
pub open spec fn isqrt_s(n: int) -> int {
    choose|r: int| 0 <= r && #[trigger] (r * r) <= n < (r + 1) * (r + 1)
}

pub proof fn lemma_isqrt_exists(n: int)
    requires
        n >= 0,
    ensures
        exists|r: int| 0 <= r && #[trigger] (r * r) <= n < (r + 1) * (r + 1),
    decreases n,
{
    if n == 0 {
        assert(0 * 0 <= 0 < (0 + 1) * (0 + 1)) by (nonlinear_arith);
    } else {
        lemma_isqrt_exists(n - 1);
        let p = choose|r: int| 0 <= r && #[trigger] (r * r) <= n - 1 < (r + 1) * (r + 1);
        if (p + 1) * (p + 1) <= n {
            assert(n == (p + 1) * (p + 1)) by (nonlinear_arith)
                requires
                    p * p <= n - 1 < (p + 1) * (p + 1) && (p + 1) * (p + 1) <= n,
            ;
            assert(0 <= p + 1 && (p + 1) * (p + 1) <= n < (p + 2) * (p + 2)) by (nonlinear_arith)
                requires
                    n == (p + 1) * (p + 1) && p >= 0,
            ;
        } else {
            assert(0 <= p && p * p <= n < (p + 1) * (p + 1));
        }
    }
}

pub proof fn lemma_isqrt_unique(n: int, r: int)
    requires
        0 <= r,
        r * r <= n < (r + 1) * (r + 1),
    ensures
        r == isqrt_s(n),
{
    lemma_isqrt_exists(n);
    let q = isqrt_s(n);
    assert(q * q <= n < (q + 1) * (q + 1));
    assert(r == q) by (nonlinear_arith)
        requires
            0 <= r && 0 <= q && r * r <= n < (r + 1) * (r + 1) && q * q <= n < (q + 1) * (q + 1),
    ;
}

/// Integer square root of a 64-bit value, by bisection.
pub fn isqrt(n: u64) -> (r: u64)
    ensures
        r as int == isqrt_s(n as int),
        (r as int) * (r as int) <= (n as int) < ((r as int) + 1) * ((r as int) + 1),
{
    let mut lo: u64 = 0;
    let mut hi: u64 = 4294967296;
    proof {
        assert((hi as int) * (hi as int) > n as int) by (nonlinear_arith)
            requires
                hi == 4294967296u64 && n <= 0xffff_ffff_ffff_ffffu64,
        ;
    }
    while hi - lo > 1
        invariant
            lo < hi <= 4294967296,
            (lo as int) * (lo as int) <= (n as int),
            (n as int) < (hi as int) * (hi as int),
        decreases hi - lo,
    {
        let mid: u64 = lo + (hi - lo) / 2;
        proof {
            assert((mid as u128) * (mid as u128) <= 0x1_0000_0000u128 * 0x1_0000_0000u128)
                by (nonlinear_arith)
                requires
                    mid <= 0x1_0000_0000u64,
            ;
        }
        if (mid as u128) * (mid as u128) <= n as u128 {
            lo = mid;
        } else {
            hi = mid;
        }
    }
    proof {
        assert(hi == lo + 1);
        lemma_isqrt_unique(n as int, lo as int);
    }
    lo
}


/// The polynomial sine: four terms of the Taylor series at zero, each
/// product truncated as `fmul_s` truncates.
pub open spec fn sin_s(x: int) -> int {
    let t2 = fmul_s(x, x);
    let t3 = fmul_s(t2, x);
    let t5 = fmul_s(t3, t2);
    let t7 = fmul_s(t5, t2);
    x - sdiv(t3, 6) + sdiv(t5, 120) - sdiv(t7, 5040)
}

/// The polynomial cosine: four terms of the Taylor series at zero.
pub open spec fn cos_s(x: int) -> int {
    let t2 = fmul_s(x, x);
    let t4 = fmul_s(t2, t2);
    let t6 = fmul_s(t4, t2);
    (SCALE as int) - sdiv(t2, 2) + sdiv(t4, 24) - sdiv(t6, 720)
}

/// The largest angle, in fixed-point radians, the polynomial sine and
/// cosine accept: a little over half pi.
pub const ANGLE_LIMIT: i64 = 103000;

proof fn lemma_fmul_nonneg_le(a: int, b: int, ca: int, cb: int)
    requires
        0 <= a <= ca,
        0 <= b <= cb,
    ensures
        0 <= fmul_s(a, b) <= (ca * cb) / (SCALE as int),
{
    assert(0 <= a * b <= ca * cb) by (nonlinear_arith)
        requires
            0 <= a <= ca && 0 <= b <= cb,
    ;
    vstd::arithmetic::div_mod::lemma_div_is_ordered(a * b, ca * cb, SCALE as int);
    vstd::arithmetic::div_mod::lemma_div_pos_is_pos(a * b, SCALE as int);
}

/// The polynomial sine, computed exactly.
pub fn sin_approx(x: i64) -> (r: i64)
    requires
        0 <= x <= ANGLE_LIMIT,
    ensures
        r as int == sin_s(x as int),
        -2 * SCALE <= r <= 2 * SCALE,
{
    proof {
        lemma_fmul_nonneg_le(x as int, x as int, 103000, 103000);
    }
    let t2 = fmul(x, x);
    proof {
        lemma_fmul_nonneg_le(t2 as int, x as int, 161881, 103000);
    }
    let t3 = fmul(t2, x);
    proof {
        lemma_fmul_nonneg_le(t3 as int, t2 as int, 254435, 161881);
    }
    let t5 = fmul(t3, t2);
    proof {
        lemma_fmul_nonneg_le(t5 as int, t2 as int, 628520, 161881);
    }
    let t7 = fmul(t5, t2);
    let d3: i64 = ((t3 as u64) / 6) as i64;
    let d5: i64 = ((t5 as u64) / 120) as i64;
    let d7: i64 = ((t7 as u64) / 5040) as i64;
    x - d3 + d5 - d7
}

/// The polynomial cosine, computed exactly.
pub fn cos_approx(x: i64) -> (r: i64)
    requires
        0 <= x <= ANGLE_LIMIT,
    ensures
        r as int == cos_s(x as int),
        -2 * SCALE <= r <= 2 * SCALE,
{
    proof {
        lemma_fmul_nonneg_le(x as int, x as int, 103000, 103000);
    }
    let t2 = fmul(x, x);
    proof {
        lemma_fmul_nonneg_le(t2 as int, t2 as int, 161881, 161881);
    }
    let t4 = fmul(t2, t2);
    proof {
        lemma_fmul_nonneg_le(t4 as int, t2 as int, 399903, 161881);
    }
    let t6 = fmul(t4, t2);
    let d2: i64 = ((t2 as u64) / 2) as i64;
    let d4: i64 = ((t4 as u64) / 24) as i64;
    let d6: i64 = ((t6 as u64) / 720) as i64;
    SCALE - d2 + d4 - d6
}

/// On the accepted range, away from zero, the polynomial sine is positive:
/// the cubic correction removes at most two thirds of the angle and the
/// seventh-order one almost nothing.
pub proof fn lemma_sin_approx_positive(x: int)
    requires
        16 <= x <= ANGLE_LIMIT as int,
    ensures
        sin_s(x) > 0,
{
    let s = SCALE as int;
    let t2 = fmul_s(x, x);
    let t3 = fmul_s(t2, x);
    let t5 = fmul_s(t3, t2);
    let t7 = fmul_s(t5, t2);
    assert(0 <= x * x <= 131072 * x) by (nonlinear_arith)
        requires
            16 <= x <= 103000,
    ;
    vstd::arithmetic::div_mod::lemma_div_is_ordered(x * x, 131072 * x, s);
    vstd::arithmetic::div_mod::lemma_div_pos_is_pos(x * x, s);
    assert(131072 * x == (2 * x) * 65536) by (nonlinear_arith);
    vstd::arithmetic::div_mod::lemma_div_by_multiple(2 * x, 65536);
    assert(t2 <= 2 * x);
    assert(0 <= t2 * x <= 262144 * x) by (nonlinear_arith)
        requires
            0 <= t2 <= 2 * x && 16 <= x <= 103000,
    ;
    vstd::arithmetic::div_mod::lemma_div_is_ordered(t2 * x, 262144 * x, s);
    vstd::arithmetic::div_mod::lemma_div_pos_is_pos(t2 * x, s);
    assert(262144 * x == (4 * x) * 65536) by (nonlinear_arith);
    vstd::arithmetic::div_mod::lemma_div_by_multiple(4 * x, 65536);
    assert(t3 <= 4 * x);
    assert(0 <= t3 * t2 <= 851968 * x) by (nonlinear_arith)
        requires
            0 <= t3 <= 4 * x && 0 <= t2 <= 2 * x && 16 <= x <= 103000,
    ;
    vstd::arithmetic::div_mod::lemma_div_is_ordered(t3 * t2, 851968 * x, s);
    vstd::arithmetic::div_mod::lemma_div_pos_is_pos(t3 * t2, s);
    assert(851968 * x == (13 * x) * 65536) by (nonlinear_arith);
    vstd::arithmetic::div_mod::lemma_div_by_multiple(13 * x, 65536);
    assert(t5 <= 13 * x);
    assert(0 <= t5);
    assert(0 <= t5 * t2 <= 2686976 * x) by (nonlinear_arith)
        requires
            0 <= t5 <= 13 * x && 0 <= t2 <= 2 * x && 16 <= x <= 103000,
    ;
    vstd::arithmetic::div_mod::lemma_div_is_ordered(t5 * t2, 2686976 * x, s);
    vstd::arithmetic::div_mod::lemma_div_pos_is_pos(t5 * t2, s);
    assert(2686976 * x == (41 * x) * 65536) by (nonlinear_arith);
    vstd::arithmetic::div_mod::lemma_div_by_multiple(41 * x, 65536);
    assert(t7 <= 41 * x);
    assert(0 <= t7);
    let d3 = sdiv(t3, 6);
    let d5 = sdiv(t5, 120);
    let d7 = sdiv(t7, 5040);
    vstd::arithmetic::div_mod::lemma_fundamental_div_mod(t3, 6);
    vstd::arithmetic::div_mod::lemma_mod_division_less_than_divisor(t3, 6);
    assert(6 * d3 <= t3);
    vstd::arithmetic::div_mod::lemma_div_pos_is_pos(t5, 120);
    assert(0 <= d5);
    vstd::arithmetic::div_mod::lemma_fundamental_div_mod(t7, 5040);
    vstd::arithmetic::div_mod::lemma_mod_division_less_than_divisor(t7, 5040);
    assert(5040 * d7 <= t7);
    assert(5040 * sin_s(x) >= 5040 * x - 840 * (6 * d3) - 5040 * d7);
    assert(sin_s(x) > 0) by (nonlinear_arith)
        requires
            5040 * sin_s(x) >= 5040 * x - 840 * (6 * d3) - 5040 * d7 && 6 * d3 <= t3 <= 4 * x
                && 5040 * d7 <= t7 <= 41 * x && x >= 16,
    ;
}

} // verus!
