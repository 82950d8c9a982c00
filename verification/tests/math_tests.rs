use fixedgl::camera::Camera;
use fixedgl::context::new_gl;
use fixedgl::fixed::{cos_approx, fdiv, fmul, isqrt, scalar_abs, sin_approx, SCALE};
use fixedgl::light::shadow_matrix;
use fixedgl::vec3::{cross, dot, vec3, vlength, vnormalize, vadd, vsub, vscale};

#[test]
fn fixed_point_products_truncate_toward_zero() {
    assert_eq!(fmul(2 * SCALE, 3 * SCALE), 6 * SCALE);
    assert_eq!(fmul(SCALE / 2, SCALE / 2), SCALE / 4);
    assert_eq!(fmul(-3, 3), 0);
    assert_eq!(fmul(-3 * SCALE, 3), -9);
    assert_eq!(fdiv(SCALE, 2 * SCALE), SCALE / 2);
    assert_eq!(fdiv(-SCALE, 3), -SCALE * SCALE / 3);
    assert_eq!(scalar_abs(-7), 7);
}

#[test]
fn integer_square_root_brackets() {
    assert_eq!(isqrt(0), 0);
    assert_eq!(isqrt(10), 3);
    assert_eq!(isqrt(16), 4);
    assert_eq!(isqrt(u64::MAX), 4294967295);
}

#[test]
fn vector_operations_exact() {
    let a = vec3(SCALE, 2 * SCALE, 3 * SCALE);
    let b = vec3(4 * SCALE, -5 * SCALE, 6 * SCALE);
    assert_eq!(vadd(&a, &b), vec3(5 * SCALE, -3 * SCALE, 9 * SCALE));
    assert_eq!(vsub(&a, &b), vec3(-3 * SCALE, 7 * SCALE, -3 * SCALE));
    assert_eq!(dot(&a, &b), (4 - 10 + 18) * SCALE);
    assert_eq!(cross(&vec3(SCALE, 0, 0), &vec3(0, SCALE, 0)), vec3(0, 0, SCALE));
    assert_eq!(vscale(&a, 2 * SCALE), vec3(2 * SCALE, 4 * SCALE, 6 * SCALE));
    assert_eq!(vlength(&vec3(3 * SCALE, 4 * SCALE, 0)), 5 * SCALE);
    assert_eq!(vnormalize(&vec3(0, 0, 9 * SCALE)), vec3(0, 0, SCALE));
    assert_eq!(
        vnormalize(&vec3(SCALE, 2 * SCALE, 2 * SCALE)),
        vec3(21845, 43690, 43690),
    );
}

#[test]
fn polynomial_trig_matches_series() {
    // Half a radian: the four-term series, every product truncated.
    assert_eq!(sin_approx(32768), 31420);
    assert_eq!(cos_approx(32768), 57513);
    assert_eq!(sin_approx(0), 0);
    assert_eq!(cos_approx(0), SCALE);
}

#[test]
fn orthographic_projection_entries() {
    let gl = new_gl();
    let cam = Camera::new_orthographic(
        &gl,
        vec3(0, 0, 10 * SCALE),
        vec3(0, 0, 0),
        vec3(0, SCALE, 0),
        10 * SCALE,
        10 * SCALE,
        20 * SCALE,
    );
    let p = cam.get_projection();
    assert_eq!(p.m[0], 13107);
    assert_eq!(p.m[5], 13107);
    assert_eq!(p.m[10], -6553);
    assert_eq!(p.m[14], -SCALE);
    assert_eq!(p.m[15], SCALE);
    let v = cam.get_view();
    // Looking down the negative Z axis from (0, 0, 10): the frame is the
    // identity rotation with a translation of minus ten along Z.
    assert_eq!(v.m[0], SCALE);
    assert_eq!(v.m[5], SCALE);
    assert_eq!(v.m[10], SCALE);
    assert_eq!(v.m[14], -10 * SCALE);
    assert_eq!(v.m[15], SCALE);
}

#[test]
fn perspective_projection_entries() {
    let gl = new_gl();
    let cam = Camera::new_perspective(
        &gl,
        vec3(0, 0, 0),
        vec3(0, 0, -SCALE),
        vec3(0, SCALE, 0),
        25 * SCALE,
        SCALE,
        6553,
        20 * SCALE,
    );
    let p = cam.get_projection();
    // cot of half the 25-degree field of view, through the polynomial
    // sine and cosine.
    assert_eq!(p.m[5], 295561);
    assert_eq!(p.m[0], 295561);
    assert_eq!(p.m[11], -SCALE);
    assert_eq!(p.m[15], 0);
}

#[test]
fn shadow_matrix_biases_clip_space() {
    let gl = new_gl();
    let cam = Camera::new_orthographic(
        &gl,
        vec3(0, 0, 10 * SCALE),
        vec3(0, 0, 0),
        vec3(0, SCALE, 0),
        10 * SCALE,
        10 * SCALE,
        20 * SCALE,
    );
    let sm = shadow_matrix(&cam);
    // The camera's target is the frustum center; it lands at the middle
    // of the unit cube.
    let (x, y, z, w) = sm.transform_point(&vec3(0, 0, 0));
    assert_eq!(w, SCALE);
    assert!(0 <= x && x <= SCALE);
    assert!(0 <= y && y <= SCALE);
    assert!(0 <= z && z <= SCALE);
    assert!((x - SCALE / 2).abs() <= 8);
    assert!((y - SCALE / 2).abs() <= 8);
    assert!((z - SCALE / 2).abs() <= 8);
}

#[test]
fn normalized_vectors_have_unit_length_up_to_rounding() {
    let cases = [
        vec3(SCALE, 2 * SCALE, 2 * SCALE),
        vec3(-5 * SCALE, 3 * SCALE, SCALE),
        vec3(0, 0, 123 * SCALE),
    ];
    // For directions of at least unit magnitude the truncations leave
    // the normalized length within a few steps of one; much shorter
    // vectors lose precision to the integer square root.
    for v in cases.iter() {
        let n = vnormalize(v);
        let len = vlength(&n);
        assert!((len - SCALE).abs() <= 8, "length {} of {:?}", len, n);
    }
}
