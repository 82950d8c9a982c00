//! Four-by-four matrices of fixed-point scalars, stored column-major.

use vstd::prelude::*;
use crate::fixed::{SCALE, sdiv, abs_s, lemma_prod_bound2, lemma_sdiv_bound};
use crate::vec3::Vec3;

verus! {

/// A column-major four-by-four matrix: entry (row `r`, column `c`) lives at
/// index `c * 4 + r`.
#[derive(Clone, Copy)]
pub struct Mat4 {
    pub m: [i64; 16],
}

/// The matrix's entries as mathematical integers.
pub open spec fn mat_ints(a: Mat4) -> Seq<int> {
    Seq::new(16, |i: int| a.m@[i] as int)
}

/// Every entry of the sequence has magnitude at most `b`.
pub open spec fn ints_bounded(s: Seq<int>, b: int) -> bool {
    forall|i: int| 0 <= i < s.len() ==> abs_s(#[trigger] s[i]) <= b
}

/// Entry (row `r`, column `c`) of the fixed-point product of two matrices:
/// the wide dot product of row and column, truncated once.
pub open spec fn mul16_entry(a: Seq<int>, b: Seq<int>, r: int, c: int) -> int {
    sdiv(
        a[r] * b[c * 4] + a[4 + r] * b[c * 4 + 1] + a[8 + r] * b[c * 4 + 2] + a[12 + r] * b[c * 4
            + 3],
        SCALE as int,
    )
}

/// The fixed-point product of two matrices.
pub open spec fn mul16(a: Seq<int>, b: Seq<int>) -> Seq<int> {
    Seq::new(16, |i: int| mul16_entry(a, b, i % 4, i / 4))
}

/// The bias matrix that remaps clip coordinates from [-1, 1] to [0, 1]:
/// a uniform scale by one half followed by a translation by one half.
pub open spec fn bias16() -> Seq<int> {
    seq![
        32768int,
        0,
        0,
        0,
        0,
        32768,
        0,
        0,
        0,
        0,
        32768,
        0,
        32768,
        32768,
        32768,
        65536,
    ]
}

/// A point transformed by a matrix in homogeneous coordinates, with an
/// implicit fourth coordinate of one: the result is (x, y, z, w), each
/// a single truncated wide dot product.
pub open spec fn xform_point(m: Seq<int>, p: (int, int, int)) -> (int, int, int, int) {
    (
        sdiv(m[0] * p.0 + m[4] * p.1 + m[8] * p.2 + m[12] * (SCALE as int), SCALE as int),
        sdiv(m[1] * p.0 + m[5] * p.1 + m[9] * p.2 + m[13] * (SCALE as int), SCALE as int),
        sdiv(m[2] * p.0 + m[6] * p.1 + m[10] * p.2 + m[14] * (SCALE as int), SCALE as int),
        sdiv(m[3] * p.0 + m[7] * p.1 + m[11] * p.2 + m[15] * (SCALE as int), SCALE as int),
    )
}

/// The entry bound under which a product's wide dot products cannot
/// overflow the intermediate arithmetic.
pub const ENTRY_LIMIT: i64 = 0x40_0000_0000;

/// One entry of the product, computed exactly.
fn row_col(a: &Mat4, b: &Mat4, r: usize, c: usize) -> (e: i64)
    requires
        r < 4,
        c < 4,
        ints_bounded(mat_ints(*a), ENTRY_LIMIT as int),
        ints_bounded(mat_ints(*b), ENTRY_LIMIT as int),
    ensures
        e as int == mul16_entry(mat_ints(*a), mat_ints(*b), r as int, c as int),
{
    proof {
        lemma_prod_bound2(
            mat_ints(*a)[r as int],
            mat_ints(*b)[c as int * 4],
            ENTRY_LIMIT as int,
            ENTRY_LIMIT as int,
        );
        lemma_prod_bound2(
            mat_ints(*a)[4 + r as int],
            mat_ints(*b)[c as int * 4 + 1],
            ENTRY_LIMIT as int,
            ENTRY_LIMIT as int,
        );
        lemma_prod_bound2(
            mat_ints(*a)[8 + r as int],
            mat_ints(*b)[c as int * 4 + 2],
            ENTRY_LIMIT as int,
            ENTRY_LIMIT as int,
        );
        lemma_prod_bound2(
            mat_ints(*a)[12 + r as int],
            mat_ints(*b)[c as int * 4 + 3],
            ENTRY_LIMIT as int,
            ENTRY_LIMIT as int,
        );
    }
    let s: i128 = (a.m[r] as i128) * (b.m[4 * c] as i128) + (a.m[4 + r] as i128) * (b.m[4 * c
        + 1] as i128) + (a.m[8 + r] as i128) * (b.m[4 * c + 2] as i128) + (a.m[12 + r] as i128) * (
    b.m[4 * c + 3] as i128);
    crate::vec3::div_scale(s)
}

/// The fixed-point matrix product.
pub fn mat_mul(a: &Mat4, b: &Mat4) -> (r: Mat4)
    requires
        ints_bounded(mat_ints(*a), ENTRY_LIMIT as int),
        ints_bounded(mat_ints(*b), ENTRY_LIMIT as int),
    ensures
        mat_ints(r) =~= mul16(mat_ints(*a), mat_ints(*b)),
{
    let r = Mat4 {
        m: [
            row_col(a, b, 0, 0),
            row_col(a, b, 1, 0),
            row_col(a, b, 2, 0),
            row_col(a, b, 3, 0),
            row_col(a, b, 0, 1),
            row_col(a, b, 1, 1),
            row_col(a, b, 2, 1),
            row_col(a, b, 3, 1),
            row_col(a, b, 0, 2),
            row_col(a, b, 1, 2),
            row_col(a, b, 2, 2),
            row_col(a, b, 3, 2),
            row_col(a, b, 0, 3),
            row_col(a, b, 1, 3),
            row_col(a, b, 2, 3),
            row_col(a, b, 3, 3),
        ],
    };
    r
}

/// Every entry of the fixed-point product is bounded by the product of the
/// factors' entry bounds, four summands wide, after the truncating rescale.
pub proof fn lemma_mul16_bounded(a: Seq<int>, b: Seq<int>, ba: int, bb: int)
    requires
        a.len() == 16,
        b.len() == 16,
        ints_bounded(a, ba),
        ints_bounded(b, bb),
        0 <= ba,
        0 <= bb,
    ensures
        ints_bounded(mul16(a, b), (4 * ba * bb) / (SCALE as int)),
{
    assert forall|i: int| 0 <= i < 16 implies abs_s(#[trigger] mul16(a, b)[i]) <= (4 * ba * bb) / (
    SCALE as int) by {
        let r = i % 4;
        let c = i / 4;
        lemma_prod_bound2(a[r], b[c * 4], ba, bb);
        lemma_prod_bound2(a[4 + r], b[c * 4 + 1], ba, bb);
        lemma_prod_bound2(a[8 + r], b[c * 4 + 2], ba, bb);
        lemma_prod_bound2(a[12 + r], b[c * 4 + 3], ba, bb);
        assert(abs_s(
            a[r] * b[c * 4] + a[4 + r] * b[c * 4 + 1] + a[8 + r] * b[c * 4 + 2] + a[12 + r] * b[c
                * 4 + 3],
        ) <= 4 * ba * bb) by (nonlinear_arith)
            requires
                -(ba * bb) <= a[r] * b[c * 4] <= ba * bb && -(ba * bb) <= a[4 + r] * b[c * 4 + 1]
                    <= ba * bb && -(ba * bb) <= a[8 + r] * b[c * 4 + 2] <= ba * bb && -(ba * bb)
                    <= a[12 + r] * b[c * 4 + 3] <= ba * bb,
        ;
        lemma_sdiv_bound(
            a[r] * b[c * 4] + a[4 + r] * b[c * 4 + 1] + a[8 + r] * b[c * 4 + 2] + a[12 + r] * b[c
                * 4 + 3],
            4 * ba * bb,
            SCALE as int,
        );
    }
}

impl Mat4 {
    /// The entries as a flat column-major vector, as a uniform block
    /// expects them.
    pub fn to_slice(&self) -> (r: Vec<i64>)
        ensures
            r@ =~= self.m@,
    {
        let mut out: Vec<i64> = Vec::new();
        let mut k: usize = 0;
        while k < 16
            invariant
                k <= 16,
                out@.len() == k,
                forall|j: int| 0 <= j < k ==> out@[j] == self.m@[j],
            decreases 16 - k,
        {
            out.push(self.m[k]);
            k = k + 1;
        }
        out
    }

    /// Transforms a point, treating it as homogeneous with weight one.
    pub fn transform_point(&self, p: &Vec3) -> (r: (i64, i64, i64, i64))
        requires
            ints_bounded(mat_ints(*self), 0x40_0000_0000),
            crate::vec3::vbounded(*p, crate::vec3::COORD_LIMIT as int),
        ensures
            (r.0 as int, r.1 as int, r.2 as int, r.3 as int) == xform_point(
                mat_ints(*self),
                crate::vec3::t_of(*p),
            ),
    {
        let x = self.xform_row(p, 0);
        let y = self.xform_row(p, 1);
        let z = self.xform_row(p, 2);
        let w = self.xform_row(p, 3);
        (x, y, z, w)
    }

    /// One coordinate of the transformed point.
    fn xform_row(&self, p: &Vec3, r: usize) -> (e: i64)
        requires
            r < 4,
            ints_bounded(mat_ints(*self), 0x40_0000_0000),
            crate::vec3::vbounded(*p, crate::vec3::COORD_LIMIT as int),
        ensures
            e as int == sdiv(
                mat_ints(*self)[r as int] * (p.x as int) + mat_ints(*self)[4 + r as int] * (
                p.y as int) + mat_ints(*self)[8 + r as int] * (p.z as int) + mat_ints(*self)[12
                    + r as int] * (SCALE as int),
                SCALE as int,
            ),
    {
        proof {
            lemma_prod_bound2(
                mat_ints(*self)[r as int],
                p.x as int,
                0x40_0000_0000,
                crate::vec3::COORD_LIMIT as int,
            );
            lemma_prod_bound2(
                mat_ints(*self)[4 + r as int],
                p.y as int,
                0x40_0000_0000,
                crate::vec3::COORD_LIMIT as int,
            );
            lemma_prod_bound2(
                mat_ints(*self)[8 + r as int],
                p.z as int,
                0x40_0000_0000,
                crate::vec3::COORD_LIMIT as int,
            );
            lemma_prod_bound2(
                mat_ints(*self)[12 + r as int],
                SCALE as int,
                0x40_0000_0000,
                SCALE as int,
            );
        }
        let s: i128 = (self.m[r] as i128) * (p.x as i128) + (self.m[4 + r] as i128) * (
        p.y as i128) + (self.m[8 + r] as i128) * (p.z as i128) + (self.m[12 + r] as i128) * 65536;
        crate::vec3::div_scale(s)
    }
}

/// The bias matrix as a value.
pub fn bias_matrix() -> (r: Mat4)
    ensures
        mat_ints(r) =~= bias16(),
        ints_bounded(mat_ints(r), SCALE as int),
{
    let r = Mat4 { m: [32768i64, 0, 0, 0, 0, 32768, 0, 0, 0, 0, 32768, 0, 32768, 32768, 32768, 65536] };
    proof {
        assert(mat_ints(r) =~= bias16());
    }
    r
}

} // verus!
