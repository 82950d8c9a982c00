//! Projection/view matrix holders.
//!
//! A camera is built as either an orthographic or a perspective projection,
//! looking from a position toward a target with a given up direction.  Both
//! matrices are derived once at construction and stored.

use vstd::prelude::*;
use crate::context::Gl;
use crate::fixed::{SCALE, sdiv, fdiv_s, fmul_s, abs_s, fdiv, fmul, sin_s, cos_s, sin_approx,
    cos_approx, lemma_sdiv_bound};
use crate::mat4::{Mat4, mat_ints, ints_bounded};
use crate::vec3::{Vec3, t_of, sub3, cross3, dot3, norm23, normalize3, bounded3, vbounded, vsub,
    vnormalize, cross, dot, lemma_cross3_bounded, lemma_dot3_bounded};

verus! {

/// The largest coordinate magnitude the camera constructors accept:
/// positions up to 8192 world units.
pub const CAM_LIMIT: i64 = 0x2000_0000;

/// The forward axis of a view from `eye` toward `target`.
pub open spec fn look_f3(eye: (int, int, int), target: (int, int, int)) -> (int, int, int) {
    normalize3(sub3(target, eye))
}

/// The side axis of a view from `eye` toward `target` with up hint `up`.
pub open spec fn look_s3(eye: (int, int, int), target: (int, int, int), up: (int, int, int)) -> (
    int,
    int,
    int,
) {
    normalize3(cross3(look_f3(eye, target), up))
}

/// The corrected up axis of the view.
pub open spec fn look_u3(eye: (int, int, int), target: (int, int, int), up: (int, int, int)) -> (
    int,
    int,
    int,
) {
    cross3(look_s3(eye, target, up), look_f3(eye, target))
}

/// The view is well posed: the eye does not sit on the target and the up
/// hint is not parallel to the viewing direction.
pub open spec fn look_at_ok(eye: (int, int, int), target: (int, int, int), up: (int, int, int)) -> bool {
    norm23(sub3(target, eye)) > 0 && norm23(cross3(look_f3(eye, target), up)) > 0
}

/// A projection/view matrix holder.
#[derive(Clone, Copy)]
pub struct Camera {
    pub position: Vec3,
    pub target: Vec3,
    pub up: Vec3,
    pub projection: Mat4,
    pub view_matrix: Mat4,
}

impl Camera {
    /// Both stored matrices have entries small enough for further
    /// fixed-point products.
    pub open spec fn wf(&self) -> bool {
        ints_bounded(mat_ints(self.projection), 0x10_0000_0000)
            && ints_bounded(mat_ints(self.view_matrix), 0x10_0000_0000)
    }

    /// The stored projection matrix.
    pub fn get_projection(&self) -> (r: Mat4)
        ensures
            r == self.projection,
    {
        self.projection
    }

    /// The stored view matrix.
    pub fn get_view(&self) -> (r: Mat4)
        ensures
            r == self.view_matrix,
    {
        self.view_matrix
    }

    /// A camera with an orthographic projection framing a box of the given
    /// width, height and depth, whose near plane passes through `position`.
    pub fn new_orthographic(
        _gl: &Gl,
        position: Vec3,
        target: Vec3,
        up: Vec3,
        width: i64,
        height: i64,
        depth: i64,
    ) -> (r: Camera)
        requires
            vbounded(position, CAM_LIMIT as int),
            vbounded(target, CAM_LIMIT as int),
            vbounded(up, CAM_LIMIT as int),
            look_at_ok(t_of(position), t_of(target), t_of(up)),
            0 < width,
            0 < height,
            0 < depth,
        ensures
            r.position == position,
            r.target == target,
            r.up == up,
            r.wf(),
            mat_ints(r.view_matrix) =~= view_entries(t_of(position), t_of(target), t_of(up)),
            mat_ints(r.projection) =~= ortho_entries(width as int, height as int, depth as int),
    {
        let view_matrix = look_at_view(&position, &target, &up);
        let projection = ortho_projection(width, height, depth);
        Camera { position, target, up, projection, view_matrix }
    }

    /// A camera with a symmetric perspective projection of the given
    /// vertical field of view (in fixed-point degrees), aspect ratio and
    /// near/far planes.
    pub fn new_perspective(
        _gl: &Gl,
        position: Vec3,
        target: Vec3,
        up: Vec3,
        fovy_degrees: i64,
        aspect: i64,
        near: i64,
        far: i64,
    ) -> (r: Camera)
        requires
            vbounded(position, CAM_LIMIT as int),
            vbounded(target, CAM_LIMIT as int),
            vbounded(up, CAM_LIMIT as int),
            look_at_ok(t_of(position), t_of(target), t_of(up)),
            SCALE as int / 16 <= fovy_degrees <= 90 * (SCALE as int),
            SCALE as int / 8 <= aspect,
            0 < near <= 4 * (SCALE as int),
            near + SCALE as int / 16 <= far <= 0x2000_0000,
        ensures
            r.position == position,
            r.target == target,
            r.up == up,
            r.wf(),
            mat_ints(r.view_matrix) =~= view_entries(t_of(position), t_of(target), t_of(up)),
            mat_ints(r.projection) =~= perspective_entries(
                fovy_degrees as int,
                aspect as int,
                near as int,
                far as int,
            ),
    {
        let view_matrix = look_at_view(&position, &target, &up);
        let projection = perspective_projection(fovy_degrees, aspect, near, far);
        Camera { position, target, up, projection, view_matrix }
    }
}

/// The column-major entries of the view matrix: the rotation into the
/// (side, up, -forward) frame, then the translation that moves the eye to
/// the origin.
pub open spec fn view_entries(eye: (int, int, int), target: (int, int, int), up: (int, int, int)) -> Seq<int> {
    let f = look_f3(eye, target);
    let s = look_s3(eye, target, up);
    let u = look_u3(eye, target, up);
    seq![
        s.0,
        u.0,
        -f.0,
        0,
        s.1,
        u.1,
        -f.1,
        0,
        s.2,
        u.2,
        -f.2,
        0,
        -dot3(s, eye),
        -dot3(u, eye),
        dot3(f, eye),
        SCALE as int,
    ]
}

/// The view matrix of a look-at frame, computed exactly.
fn look_at_view(position: &Vec3, target: &Vec3, up: &Vec3) -> (r: Mat4)
    requires
        vbounded(*position, CAM_LIMIT as int),
        vbounded(*target, CAM_LIMIT as int),
        vbounded(*up, CAM_LIMIT as int),
        look_at_ok(t_of(*position), t_of(*target), t_of(*up)),
    ensures
        mat_ints(r) =~= view_entries(t_of(*position), t_of(*target), t_of(*up)),
        ints_bounded(mat_ints(r), 0x10_0000_0000),
{
    let f = vnormalize(&vsub(target, position));
    proof {
        lemma_cross3_bounded(t_of(f), t_of(*up), SCALE as int, CAM_LIMIT as int);
    }
    let s_axis = vnormalize(&cross(&f, up));
    proof {
        lemma_cross3_bounded(t_of(s_axis), t_of(f), SCALE as int, SCALE as int);
    }
    let u_axis = cross(&s_axis, &f);
    proof {
        lemma_dot3_bounded(t_of(s_axis), t_of(*position), SCALE as int, CAM_LIMIT as int);
        lemma_dot3_bounded(t_of(u_axis), t_of(*position), 2 * SCALE as int, CAM_LIMIT as int);
        lemma_dot3_bounded(t_of(f), t_of(*position), SCALE as int, CAM_LIMIT as int);
    }
    let tx = dot(&s_axis, position);
    let ty = dot(&u_axis, position);
    let tz = dot(&f, position);
    let r = Mat4 {
        m: [
            s_axis.x,
            u_axis.x,
            -f.x,
            0,
            s_axis.y,
            u_axis.y,
            -f.y,
            0,
            s_axis.z,
            u_axis.z,
            -f.z,
            0,
            -tx,
            -ty,
            tz,
            SCALE,
        ],
    };
    proof {
        assert(mat_ints(r) =~= view_entries(t_of(*position), t_of(*target), t_of(*up)));
        assert forall|i: int| 0 <= i < 16 implies abs_s(mat_ints(r)[i]) <= 0x10_0000_0000 by {
            assert(mat_ints(r)[i] == r.m@[i] as int);
        }
    }
    r
}

/// The column-major entries of the orthographic projection for a box of
/// the given dimensions, spanning depths zero to `depth` in front of the
/// eye.
pub open spec fn ortho_entries(width: int, height: int, depth: int) -> Seq<int> {
    seq![
        fdiv_s(2 * (SCALE as int), width),
        0,
        0,
        0,
        0,
        fdiv_s(2 * (SCALE as int), height),
        0,
        0,
        0,
        0,
        -fdiv_s(2 * (SCALE as int), depth),
        0,
        0,
        0,
        -(SCALE as int),
        SCALE as int,
    ]
}

/// The orthographic projection matrix, computed exactly.
fn ortho_projection(width: i64, height: i64, depth: i64) -> (r: Mat4)
    requires
        0 < width,
        0 < height,
        0 < depth,
    ensures
        mat_ints(r) =~= ortho_entries(width as int, height as int, depth as int),
        ints_bounded(mat_ints(r), 0x10_0000_0000),
{
    let sx = fdiv(2 * SCALE, width);
    let sy = fdiv(2 * SCALE, height);
    let sz = fdiv(2 * SCALE, depth);
    proof {
        lemma_sdiv_bound(2 * (SCALE as int) * (SCALE as int), 2 * (SCALE as int) * (SCALE as int), width as int);
        lemma_sdiv_bound(2 * (SCALE as int) * (SCALE as int), 2 * (SCALE as int) * (SCALE as int), height as int);
        lemma_sdiv_bound(2 * (SCALE as int) * (SCALE as int), 2 * (SCALE as int) * (SCALE as int), depth as int);
        vstd::arithmetic::div_mod::lemma_div_is_ordered_by_denominator(
            2 * (SCALE as int) * (SCALE as int),
            1,
            width as int,
        );
        vstd::arithmetic::div_mod::lemma_div_is_ordered_by_denominator(
            2 * (SCALE as int) * (SCALE as int),
            1,
            height as int,
        );
        vstd::arithmetic::div_mod::lemma_div_is_ordered_by_denominator(
            2 * (SCALE as int) * (SCALE as int),
            1,
            depth as int,
        );
    }
    let r = Mat4 { m: [sx, 0, 0, 0, 0, sy, 0, 0, 0, 0, -sz, 0, 0, 0, -SCALE, SCALE] };
    proof {
        assert(mat_ints(r) =~= ortho_entries(width as int, height as int, depth as int));
        assert forall|i: int| 0 <= i < 16 implies abs_s(mat_ints(r)[i]) <= 0x10_0000_0000 by {
            assert(mat_ints(r)[i] == r.m@[i] as int);
        }
    }
    r
}

/// Degrees to radians, both in fixed point: a multiplication by the
/// fixed-point value of pi over 180.
pub open spec fn deg_to_rad_s(d: int) -> int {
    fmul_s(d, 1144)
}

/// The cotangent of half the field of view, from the polynomial sine and
/// cosine.
pub open spec fn half_fov_cot_s(fovy_degrees: int) -> int {
    fdiv_s(cos_s(deg_to_rad_s(fovy_degrees) / 2), sin_s(deg_to_rad_s(fovy_degrees) / 2))
}

/// The column-major entries of the symmetric perspective projection.
pub open spec fn perspective_entries(fovy_degrees: int, aspect: int, near: int, far: int) -> Seq<int> {
    let f = half_fov_cot_s(fovy_degrees);
    seq![
        fdiv_s(f, aspect),
        0,
        0,
        0,
        0,
        f,
        0,
        0,
        0,
        0,
        -fdiv_s(far + near, far - near),
        -(SCALE as int),
        0,
        0,
        -fdiv_s(2 * fmul_s(far, near), far - near),
        0,
    ]
}

/// The perspective projection matrix, computed exactly.
fn perspective_projection(fovy_degrees: i64, aspect: i64, near: i64, far: i64) -> (r: Mat4)
    requires
        SCALE as int / 16 <= fovy_degrees <= 90 * (SCALE as int),
        SCALE as int / 8 <= aspect,
        0 < near <= 4 * (SCALE as int),
        near + SCALE as int / 16 <= far <= 0x2000_0000,
    ensures
        mat_ints(r) =~= perspective_entries(
            fovy_degrees as int,
            aspect as int,
            near as int,
            far as int,
        ),
        ints_bounded(mat_ints(r), 0x10_0000_0000),
{
    let rad = fmul(fovy_degrees, 1144);
    proof {
        lemma_sdiv_bound(
            (fovy_degrees as int) * 1144,
            90 * (SCALE as int) * 1144,
            SCALE as int,
        );
        vstd::arithmetic::div_mod::lemma_div_pos_is_pos((fovy_degrees as int) * 1144, SCALE as int);
        assert((fovy_degrees as int) * 1144 >= (SCALE as int / 16) * 1144) by (nonlinear_arith)
            requires
                fovy_degrees >= SCALE as int / 16,
        ;
        vstd::arithmetic::div_mod::lemma_div_is_ordered(
            (SCALE as int / 16) * 1144,
            (fovy_degrees as int) * 1144,
            SCALE as int,
        );
    }
    let half: i64 = ((rad as u64) / 2) as i64;
    proof {
        crate::fixed::lemma_sin_approx_positive(half as int);
    }
    let sin_half = sin_approx(half);
    let cos_half = cos_approx(half);
    let f = fdiv(cos_half, sin_half);
    proof {
        lemma_sdiv_bound(
            (cos_half as int) * (SCALE as int),
            2 * (SCALE as int) * (SCALE as int),
            sin_half as int,
        );
        vstd::arithmetic::div_mod::lemma_div_is_ordered_by_denominator(
            2 * (SCALE as int) * (SCALE as int),
            1,
            sin_half as int,
        );
    }
    let fa = fdiv(f, aspect);
    proof {
        lemma_sdiv_bound((f as int) * (SCALE as int), 0x2_0000_0000_0000, aspect as int);
        vstd::arithmetic::div_mod::lemma_div_is_ordered_by_denominator(
            0x2_0000_0000_0000,
            8192,
            aspect as int,
        );
    }
    let dz = fdiv(far + near, far - near);
    proof {
        lemma_sdiv_bound(
            ((far + near) as int) * (SCALE as int),
            0x2004_0000int * 65536,
            (far - near) as int,
        );
        vstd::arithmetic::div_mod::lemma_div_is_ordered_by_denominator(
            0x2004_0000int * 65536,
            4096,
            (far - near) as int,
        );
        assert(0 <= (far as int) * (near as int) <= 0x2000_0000int * 262144)
            by (nonlinear_arith)
            requires
                0 < near <= 262144 && 0 < far <= 0x2000_0000,
        ;
    }
    let mn = fmul(far, near);
    proof {
        lemma_sdiv_bound((far as int) * (near as int), 0x2000_0000int * 262144, SCALE as int);
        vstd::arithmetic::div_mod::lemma_div_pos_is_pos((far as int) * (near as int), SCALE as int);
    }
    let wz = fdiv(2 * mn, far - near);
    proof {
        lemma_sdiv_bound(
            ((2 * mn) as int) * (SCALE as int),
            0x1_0000_0000_0000,
            (far - near) as int,
        );
        vstd::arithmetic::div_mod::lemma_div_is_ordered_by_denominator(
            0x1_0000_0000_0000,
            4096,
            (far - near) as int,
        );
    }
    let r = Mat4 { m: [fa, 0, 0, 0, 0, f, 0, 0, 0, 0, -dz, -SCALE, 0, 0, -wz, 0] };
    proof {
        assert(mat_ints(r) =~= perspective_entries(
            fovy_degrees as int,
            aspect as int,
            near as int,
            far as int,
        ));
        assert forall|i: int| 0 <= i < 16 implies abs_s(mat_ints(r)[i]) <= 0x10_0000_0000 by {
            assert(mat_ints(r)[i] == r.m@[i] as int);
        }
    }
    r
}

} // verus!
