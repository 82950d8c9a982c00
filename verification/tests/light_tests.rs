use fixedgl::buffer::{BufferError, UniformBuffer};
use fixedgl::camera::Camera;
use fixedgl::context::new_gl;
use fixedgl::fixed::SCALE;
use fixedgl::light::{
    compute_up_direction, AmbientLight, DirectionalLight, PointLight, SpotLight, MAX_NO_LIGHTS,
};
use fixedgl::mat4::Mat4;
use fixedgl::vec3::vec3;

fn no_render(_camera: &Camera) {}

#[test]
fn ambient_light_roundtrip() {
    let gl = new_gl();
    let mut light = AmbientLight::new(&gl, SCALE, &vec3(SCALE, 0, 0)).unwrap();
    assert_eq!(light.color(), vec3(SCALE, 0, 0));
    assert_eq!(light.intensity(), SCALE);
    light.set_color(&vec3(0, SCALE, 0));
    light.set_intensity(2 * SCALE);
    assert_eq!(light.color(), vec3(0, SCALE, 0));
    assert_eq!(light.intensity(), 2 * SCALE);
}

#[test]
fn max_no_lights_is_four() {
    assert_eq!(MAX_NO_LIGHTS, 4);
}

#[test]
fn uniform_buffer_layout_and_errors() {
    let gl = new_gl();
    let mut buffer = UniformBuffer::new(&gl, &[3u32, 1, 16]).unwrap();
    assert_eq!(buffer.get(0).unwrap(), vec![0i64, 0, 0]);
    assert!(buffer.update(0, &[1, 2, 3]).is_ok());
    assert!(buffer.update(1, &[9]).is_ok());
    assert_eq!(buffer.get(0).unwrap(), vec![1i64, 2, 3]);
    assert_eq!(buffer.get(1).unwrap(), vec![9i64]);
    assert_eq!(buffer.update(7, &[1]), Err(BufferError::InvalidFieldIndex));
    assert_eq!(buffer.update(1, &[1, 2]), Err(BufferError::SizeMismatch));
    assert_eq!(buffer.get(3).unwrap_err(), BufferError::InvalidFieldIndex);
}

#[test]
fn directional_light_write_through() {
    let gl = new_gl();
    let light = DirectionalLight::new(&gl, SCALE, &vec3(SCALE, SCALE, 0), &vec3(0, 0, -SCALE))
        .unwrap();
    assert_eq!(light.direction(), vec3(0, 0, -SCALE));
    assert_eq!(light.buffer().get(0).unwrap(), vec![SCALE, SCALE, 0]);
    assert_eq!(light.buffer().get(1).unwrap(), vec![SCALE]);
    assert_eq!(light.buffer().get(2).unwrap(), vec![0, 0, -SCALE]);
}

#[test]
fn directional_direction_stored_raw() {
    let gl = new_gl();
    let mut light = DirectionalLight::new(&gl, SCALE, &vec3(SCALE, 0, 0), &vec3(0, 0, -SCALE))
        .unwrap();
    light.set_direction(&vec3(3 * SCALE, 0, 0));
    assert_eq!(light.direction(), vec3(3 * SCALE, 0, 0));
}

#[test]
fn spot_direction_roundtrip_normalizes() {
    let gl = new_gl();
    let mut light = SpotLight::new(
        &gl,
        SCALE,
        &vec3(SCALE, SCALE, SCALE),
        &vec3(0, 0, 0),
        &vec3(0, 0, -SCALE),
        25 * SCALE,
        SCALE,
        0,
        0,
    )
    .unwrap();
    light.set_direction(&vec3(3 * SCALE, 0, 0));
    assert_eq!(light.direction(), vec3(SCALE, 0, 0));
    light.set_direction(&vec3(SCALE, 2 * SCALE, 2 * SCALE));
    assert_eq!(light.direction(), vec3(21845, 43690, 43690));
}

#[test]
fn spot_position_roundtrip() {
    let gl = new_gl();
    let mut light = SpotLight::new(
        &gl,
        SCALE,
        &vec3(SCALE, SCALE, SCALE),
        &vec3(SCALE, 2 * SCALE, 3 * SCALE),
        &vec3(0, 0, -SCALE),
        25 * SCALE,
        SCALE,
        0,
        0,
    )
    .unwrap();
    assert_eq!(light.position(), vec3(SCALE, 2 * SCALE, 3 * SCALE));
    light.set_position(&vec3(-SCALE, 0, SCALE));
    assert_eq!(light.position(), vec3(-SCALE, 0, SCALE));
}

#[test]
fn up_direction_axis_cases() {
    // A direction along Z crosses with the world X axis.
    let up = compute_up_direction(vec3(0, 0, SCALE));
    assert_eq!(up, vec3(0, -SCALE, 0));
    // A direction along X is near-parallel to the X axis, so the world Y
    // axis is used instead.
    let up = compute_up_direction(vec3(SCALE, 0, 0));
    assert_eq!(up, vec3(0, 0, -SCALE));
}

#[test]
fn up_direction_orthogonal_to_direction() {
    let cases = [
        vec3(0, 0, SCALE),
        vec3(SCALE, 0, 0),
        vec3(SCALE, 2 * SCALE, -3 * SCALE),
        vec3(-SCALE, SCALE, 7),
    ];
    for d in cases.iter() {
        let up = compute_up_direction(*d);
        let raw = up.x as i128 * d.x as i128 + up.y as i128 * d.y as i128
            + up.z as i128 * d.z as i128;
        // The candidate axis cross product is exactly orthogonal; the
        // final per-component rounding perturbs the dot product by less
        // than one unit per component.
        assert!(raw.abs() <= 3 * (d.x.abs().max(d.y.abs()).max(d.z.abs()) as i128));
    }
}

#[test]
fn directional_shadow_map_roundtrip() {
    let gl = new_gl();
    let mut light = DirectionalLight::new(&gl, SCALE, &vec3(SCALE, SCALE, SCALE), &vec3(
        0,
        0,
        -SCALE,
    ))
    .unwrap();
    assert!(light.shadow_map().is_none());
    light.generate_shadow_map(
        &vec3(0, 0, 0),
        10 * SCALE,
        10 * SCALE,
        20 * SCALE,
        512,
        256,
        &no_render,
    );
    let tex = light.shadow_map().expect("a depth texture after generation");
    assert_eq!(tex.width, 512);
    assert_eq!(tex.height, 256);
    light.clear_shadow_map();
    assert!(light.shadow_map().is_none());
}

#[test]
fn spot_shadow_map_roundtrip() {
    let gl = new_gl();
    let mut light = SpotLight::new(
        &gl,
        SCALE,
        &vec3(SCALE, SCALE, SCALE),
        &vec3(0, 0, 5 * SCALE),
        &vec3(0, 0, -SCALE),
        25 * SCALE,
        SCALE,
        0,
        0,
    )
    .unwrap();
    assert!(light.shadow_map().is_none());
    light.generate_shadow_map(20 * SCALE, 1024, &no_render);
    let tex = light.shadow_map().expect("a depth texture after generation");
    assert_eq!(tex.width, 1024);
    assert_eq!(tex.height, 1024);
    light.clear_shadow_map();
    assert!(light.shadow_map().is_none());
}

#[test]
fn shadow_matrix_maps_frustum_center_into_unit_cube() {
    let gl = new_gl();
    let mut light = DirectionalLight::new(&gl, SCALE, &vec3(SCALE, SCALE, SCALE), &vec3(
        0,
        0,
        -SCALE,
    ))
    .unwrap();
    let target = vec3(0, 0, 0);
    light.generate_shadow_map(&target, 10 * SCALE, 10 * SCALE, 20 * SCALE, 512, 512, &no_render);
    let entries = light.buffer().get(4).unwrap();
    assert_eq!(entries.len(), 16);
    let mut m = [0i64; 16];
    for (i, e) in entries.iter().enumerate() {
        m[i] = *e;
    }
    let shadow = Mat4 { m };
    // The target sits at the exact center of the shadow camera's
    // orthographic frustum; the stored matrix must land it inside the
    // unit cube of texture space.
    let (x, y, z, w) = shadow.transform_point(&target);
    assert_eq!(w, SCALE);
    assert!(0 <= x && x <= SCALE);
    assert!(0 <= y && y <= SCALE);
    assert!(0 <= z && z <= SCALE);
}

#[test]
fn point_light_write_through() {
    let gl = new_gl();
    let mut light = PointLight::new(
        &gl,
        2 * SCALE,
        &vec3(SCALE, 0, SCALE),
        &vec3(SCALE, SCALE, 0),
        SCALE,
        32768,
        16384,
    )
    .unwrap();
    assert_eq!(light.buffer().get(0).unwrap(), vec![SCALE, 0, SCALE]);
    assert_eq!(light.buffer().get(1).unwrap(), vec![2 * SCALE]);
    assert_eq!(light.buffer().get(2).unwrap(), vec![SCALE]);
    assert_eq!(light.buffer().get(3).unwrap(), vec![32768]);
    assert_eq!(light.buffer().get(4).unwrap(), vec![16384]);
    assert_eq!(light.buffer().get(6).unwrap(), vec![SCALE, SCALE, 0]);
    light.set_position(&vec3(0, 0, 9 * SCALE));
    assert_eq!(light.buffer().get(6).unwrap(), vec![0, 0, 9 * SCALE]);
    light.set_attenuation(0, 0, SCALE);
    assert_eq!(light.buffer().get(2).unwrap(), vec![0]);
    assert_eq!(light.buffer().get(4).unwrap(), vec![SCALE]);
}

#[test]
fn spot_cutoff_written_to_block() {
    let gl = new_gl();
    let mut light = SpotLight::new(
        &gl,
        SCALE,
        &vec3(SCALE, SCALE, SCALE),
        &vec3(0, 0, 0),
        &vec3(0, 0, -SCALE),
        25 * SCALE,
        SCALE,
        0,
        0,
    )
    .unwrap();
    assert_eq!(light.buffer().get(7).unwrap(), vec![25 * SCALE]);
    light.set_cutoff(30 * SCALE);
    assert_eq!(light.buffer().get(7).unwrap(), vec![30 * SCALE]);
    assert_eq!(light.direction(), vec3(0, 0, -SCALE));
}
