//! Light sources.
//!
//! Each light owns a fixed-layout uniform block describing its color,
//! intensity and variant-specific fields; every setter writes through to
//! the block immediately and every getter reads back out of it, so the
//! block is the single source of truth.  Directional and spot lights can
//! additionally carry a shadow map: a camera, a depth texture and a
//! bias-remapped shadow matrix stored in the block, created and discarded
//! together.

use vstd::prelude::*;
use crate::buffer::{UniformBuffer, BufferError, offset_of, total_width, spliced};
use crate::camera::{Camera, look_at_ok, view_entries, ortho_entries, perspective_entries,
    CAM_LIMIT};
use crate::context::Gl;
use crate::fixed::{SCALE, sdiv, fmul_s, fmul, abs_s, scalar_abs, lemma_sdiv_bound,
    lemma_sdiv_multiple};
use crate::mat4::{Mat4, mat_ints, mul16, bias16, ints_bounded, mat_mul, bias_matrix};
use crate::rendertarget::{RenderTarget, RenderTargetError};
use crate::state;
use crate::texture::Texture2D;
use crate::vec3::{Vec3, vec3, t_of, add3, sub3, cross3, dot3, rawdot3, norm23, normalize3, bounded3,
    vbounded, vadd, vsub, vscale, dot, cross, vnormalize, vnormalize_s, norm2_s, COORD_LIMIT};

verus! {

/// Errors raised while constructing a light.
#[derive(Debug)]
pub enum Error {
    Buffer(BufferError),
    Rendertarget(RenderTargetError),
}

impl From<BufferError> for Error {
    fn from(other: BufferError) -> (r: Self) {
        Error::Buffer(other)
    }
}

impl vstd::std_specs::convert::FromSpecImpl<BufferError> for Error {
    open spec fn obeys_from_spec() -> bool {
        true
    }

    open spec fn from_spec(other: BufferError) -> Self {
        Error::Buffer(other)
    }
}

impl From<RenderTargetError> for Error {
    fn from(other: RenderTargetError) -> (r: Self) {
        Error::Rendertarget(other)
    }
}

impl vstd::std_specs::convert::FromSpecImpl<RenderTargetError> for Error {
    open spec fn obeys_from_spec() -> bool {
        true
    }

    open spec fn from_spec(other: RenderTargetError) -> Self {
        Error::Rendertarget(other)
    }
}

/// How many lights a composed shading pass accepts.
pub const MAX_NO_LIGHTS: usize = 4;

/// The fixed-point value of nine tenths: the threshold above which a
/// direction counts as parallel to the world X axis.
pub const NINE_TENTHS: i64 = 58982;

/// The candidate up vector for a shadow camera: the world Y axis crossed
/// with the direction where the direction runs close to the world X axis,
/// the world X axis crossed with it otherwise.
pub open spec fn up_cross3(d: (int, int, int)) -> (int, int, int) {
    if abs_s(dot3((SCALE as int, 0, 0), d)) > NINE_TENTHS as int {
        cross3((0, SCALE as int, 0), d)
    } else {
        cross3((SCALE as int, 0, 0), d)
    }
}

/// The candidate up vector of `up_cross3` written out: a cross product
/// with a unit axis drops one coordinate and swaps the other two.
pub proof fn lemma_up_cross_plain(d: (int, int, int))
    ensures
        up_cross3(d) == if abs_s(dot3((SCALE as int, 0, 0), d)) > NINE_TENTHS as int {
            (d.2, 0, -d.0)
        } else {
            (0, -d.2, d.1)
        },
{
    lemma_sdiv_multiple(d.0, SCALE as int);
    lemma_sdiv_multiple(d.1, SCALE as int);
    lemma_sdiv_multiple(d.2, SCALE as int);
    lemma_sdiv_multiple(-d.0, SCALE as int);
    lemma_sdiv_multiple(-d.2, SCALE as int);
    assert((SCALE as int) * d.1 - 0 * d.0 == d.1 * (SCALE as int)) by (nonlinear_arith);
    assert(0 * d.0 - (SCALE as int) * d.2 == (-d.2) * (SCALE as int)) by (nonlinear_arith);
    assert(0 * d.2 - 0 * d.1 == 0 * (SCALE as int)) by (nonlinear_arith);
    assert((0 as int) * d.2 - (SCALE as int) * d.1 * 0 == 0) by (nonlinear_arith);
    assert((SCALE as int) * d.2 - 0 * d.1 == d.2 * (SCALE as int)) by (nonlinear_arith);
    assert(0 * d.1 - (SCALE as int) * d.0 == (-d.0) * (SCALE as int)) by (nonlinear_arith);
    assert(0 * d.0 - 0 * d.2 == 0 * (SCALE as int)) by (nonlinear_arith);
    lemma_sdiv_multiple(0, SCALE as int);
}

/// The candidate up vector is exactly orthogonal to the direction: their
/// unscaled dot product is zero.  (After the final normalization each
/// component is rounded separately, so orthogonality of the returned
/// vector holds up to that rounding.)
pub proof fn lemma_up_cross_orthogonal(d: Vec3)
    ensures
        rawdot3(up_cross3(t_of(d)), t_of(d)) == 0,
{
    lemma_up_cross_plain(t_of(d));
    let t = t_of(d);
    if abs_s(dot3((SCALE as int, 0, 0), t)) > NINE_TENTHS as int {
        assert(t.2 * t.0 + 0 * t.1 + (-t.0) * t.2 == 0) by (nonlinear_arith);
    } else {
        assert(0 * t.0 + (-t.2) * t.1 + t.1 * t.2 == 0) by (nonlinear_arith);
    }
}

/// A secondary axis for a shadow camera: a unit vector built from the
/// world axis least aligned with `direction`, orthogonal to `direction`
/// before its final rounding.
pub fn compute_up_direction(direction: Vec3) -> (r: Vec3)
    requires
        vbounded(direction, COORD_LIMIT as int),
        norm23(up_cross3(t_of(direction))) > 0,
    ensures
        t_of(r) == normalize3(up_cross3(t_of(direction))),
        vbounded(r, SCALE as int),
{
    let x_axis = vec3(SCALE, 0, 0);
    let y_axis = vec3(0, SCALE, 0);
    let d = dot(&x_axis, &direction);
    proof {
        lemma_sdiv_bound(
            (SCALE as int) * (direction.x as int) + 0 * (direction.y as int) + 0 * (
            direction.z as int),
            65536int * 0x8000_0000,
            SCALE as int,
        );
        lemma_up_cross_plain(t_of(direction));
    }
    let c = if scalar_abs(d) > NINE_TENTHS {
        cross(&y_axis, &direction)
    } else {
        cross(&x_axis, &direction)
    };
    proof {
        assert(t_of(c) == up_cross3(t_of(direction)));
        assert(norm2_s(c) == norm23(t_of(c)));
    }
    vnormalize(&c)
}

/// The combined bias, projection and view transform of a shadow camera:
/// world coordinates to [0, 1] texture space.
pub open spec fn shadow16(p: Seq<int>, v: Seq<int>) -> Seq<int> {
    mul16(mul16(bias16(), p), v)
}

/// The shadow matrix of a camera: its projection times view, remapped by
/// the bias matrix from clip space to texture space.
pub fn shadow_matrix(camera: &Camera) -> (r: Mat4)
    requires
        camera.wf(),
    ensures
        mat_ints(r) =~= shadow16(mat_ints(camera.projection), mat_ints(camera.view_matrix)),
{
    let b = bias_matrix();
    let p = camera.get_projection();
    let v = camera.get_view();
    proof {
        crate::mat4::lemma_mul16_bounded(bias16(), mat_ints(p), SCALE as int, 0x10_0000_0000);
    }
    let bp = mat_mul(&b, &p);
    mat_mul(&bp, &v)
}

/// Builds a three-scalar field value.
fn scalars3(a: i64, b: i64, c: i64) -> (r: Vec<i64>)
    ensures
        r@ =~= seq![a, b, c],
{
    let mut v: Vec<i64> = Vec::new();
    v.push(a);
    v.push(b);
    v.push(c);
    v
}

/// Builds a one-scalar field value.
fn scalar1(a: i64) -> (r: Vec<i64>)
    ensures
        r@ =~= seq![a],
{
    let mut v: Vec<i64> = Vec::new();
    v.push(a);
    v
}

/// A light that brightens every surface alike, with no position or
/// direction.
pub struct AmbientLight {
    color: Vec3,
    intensity: i64,
}

impl AmbientLight {
    pub fn new(_gl: &Gl, intensity: i64, color: &Vec3) -> (r: Result<AmbientLight, Error>)
        ensures
            r matches Ok(l) && l.color() == *color && l.intensity() == intensity,
    {
        Ok(AmbientLight { color: *color, intensity })
    }

    pub closed spec fn spec_color(&self) -> Vec3 {
        self.color
    }

    pub closed spec fn spec_intensity(&self) -> i64 {
        self.intensity
    }

    #[verifier::when_used_as_spec(spec_color)]
    pub fn color(&self) -> (r: Vec3)
        ensures
            r == self.spec_color(),
    {
        self.color
    }

    pub fn set_color(&mut self, color: &Vec3)
        ensures
            final(self).spec_color() == *color,
            final(self).spec_intensity() == old(self).spec_intensity(),
    {
        self.color = *color;
    }

    #[verifier::when_used_as_spec(spec_intensity)]
    pub fn intensity(&self) -> (r: i64)
        ensures
            r == self.spec_intensity(),
    {
        self.intensity
    }

    pub fn set_intensity(&mut self, intensity: i64)
        ensures
            final(self).spec_intensity() == intensity,
            final(self).spec_color() == old(self).spec_color(),
    {
        self.intensity = intensity;
    }
}

/// The field widths of a directional light's block: color, intensity,
/// direction, padding, shadow matrix.
pub open spec fn dir_sizes() -> Seq<u32> {
    seq![3u32, 1, 3, 1, 16]
}

proof fn lemma_dir_layout()
    ensures
        total_width(dir_sizes()) == 24,
        offset_of(dir_sizes(), 0) == 0,
        offset_of(dir_sizes(), 1) == 3,
        offset_of(dir_sizes(), 2) == 4,
        offset_of(dir_sizes(), 3) == 7,
        offset_of(dir_sizes(), 4) == 8,
{
    reveal_with_fuel(offset_of, 8);
}

/// A light that shines the same everywhere from one direction, like the
/// sun; it can carry a shadow map.
pub struct DirectionalLight {
    gl: Gl,
    light_buffer: UniformBuffer,
    shadow_rendertarget: RenderTarget,
    shadow_texture: Option<Texture2D>,
    shadow_camera: Option<Camera>,
}

impl DirectionalLight {
    /// The block holds the directional layout, and the shadow camera and
    /// texture are present or absent together.
    pub open spec fn wf(&self) -> bool {
        self.buf_wf() && (self.spec_shadow_camera() is Some <==> self.spec_shadow_texture()
            is Some)
    }

    pub closed spec fn buf_wf(&self) -> bool {
        self.light_buffer.wf() && self.light_buffer.spec_sizes() == dir_sizes()
    }

    /// The scalars of the light's uniform block.
    pub closed spec fn buf(&self) -> Seq<i64> {
        self.light_buffer.spec_data()
    }

    pub open spec fn spec_color(&self) -> (int, int, int) {
        (self.buf()[0] as int, self.buf()[1] as int, self.buf()[2] as int)
    }

    pub open spec fn spec_intensity(&self) -> int {
        self.buf()[3] as int
    }

    pub open spec fn spec_direction(&self) -> (int, int, int) {
        (self.buf()[4] as int, self.buf()[5] as int, self.buf()[6] as int)
    }

    pub open spec fn spec_shadow_matrix(&self) -> Seq<int> {
        Seq::new(16, |i: int| self.buf()[8 + i] as int)
    }

    pub closed spec fn spec_shadow_texture(&self) -> Option<Texture2D> {
        self.shadow_texture
    }

    pub closed spec fn spec_shadow_camera(&self) -> Option<Camera> {
        self.shadow_camera
    }

    pub fn new(gl: &Gl, intensity: i64, color: &Vec3, direction: &Vec3) -> (r: Result<
        DirectionalLight,
        Error,
    >)
        ensures
            r matches Ok(l) && l.wf() && l.spec_color() == t_of(*color) && l.spec_intensity()
                == intensity as int && l.spec_direction() == t_of(*direction)
                && l.spec_shadow_texture() is None && l.spec_shadow_camera() is None,
    {
        proof {
            lemma_dir_layout();
        }
        let mut sizes: Vec<u32> = Vec::new();
        sizes.push(3);
        sizes.push(1);
        sizes.push(3);
        sizes.push(1);
        sizes.push(16);
        proof {
            assert(sizes@ =~= dir_sizes());
        }
        let light_buffer = match UniformBuffer::new(gl, sizes.as_slice()) {
            Ok(b) => b,
            Err(e) => {
                return Err(Error::Buffer(e));
            },
        };
        let shadow_rendertarget = match RenderTarget::new(gl, 0) {
            Ok(t) => t,
            Err(e) => {
                return Err(Error::Rendertarget(e));
            },
        };
        let mut light = DirectionalLight {
            gl: *gl,
            light_buffer,
            shadow_rendertarget,
            shadow_texture: None,
            shadow_camera: None,
        };
        light.set_intensity(intensity);
        light.set_color(color);
        light.set_direction(direction);
        Ok(light)
    }

    pub fn set_color(&mut self, color: &Vec3)
        requires
            old(self).wf(),
        ensures
            final(self).wf(),
            final(self).spec_color() == t_of(*color),
            final(self).buf() =~= spliced(old(self).buf(), 0, seq![color.x, color.y, color.z]),
            final(self).spec_shadow_texture() == old(self).spec_shadow_texture(),
            final(self).spec_shadow_camera() == old(self).spec_shadow_camera(),
    {
        proof {
            lemma_dir_layout();
        }
        let v = scalars3(color.x, color.y, color.z);
        match self.light_buffer.update(0, v.as_slice()) {
            Ok(_) => (),
            Err(_) => {
                proof {
                    assert(false);
                }
            },
        }
    }

    pub fn set_intensity(&mut self, intensity: i64)
        requires
            old(self).wf(),
        ensures
            final(self).wf(),
            final(self).spec_intensity() == intensity as int,
            final(self).buf() =~= spliced(old(self).buf(), 3, seq![intensity]),
            final(self).spec_shadow_texture() == old(self).spec_shadow_texture(),
            final(self).spec_shadow_camera() == old(self).spec_shadow_camera(),
    {
        proof {
            lemma_dir_layout();
        }
        let v = scalar1(intensity);
        match self.light_buffer.update(1, v.as_slice()) {
            Ok(_) => (),
            Err(_) => {
                proof {
                    assert(false);
                }
            },
        }
    }

    /// Stores the direction as given, without normalization.
    pub fn set_direction(&mut self, direction: &Vec3)
        requires
            old(self).wf(),
        ensures
            final(self).wf(),
            final(self).spec_direction() == t_of(*direction),
            final(self).buf() =~= spliced(
                old(self).buf(),
                4,
                seq![direction.x, direction.y, direction.z],
            ),
            final(self).spec_shadow_texture() == old(self).spec_shadow_texture(),
            final(self).spec_shadow_camera() == old(self).spec_shadow_camera(),
    {
        proof {
            lemma_dir_layout();
        }
        let v = scalars3(direction.x, direction.y, direction.z);
        match self.light_buffer.update(2, v.as_slice()) {
            Ok(_) => (),
            Err(_) => {
                proof {
                    assert(false);
                }
            },
        }
    }

    /// Reads the direction back out of the block.
    pub fn direction(&self) -> (r: Vec3)
        requires
            self.wf(),
        ensures
            t_of(r) == self.spec_direction(),
    {
        proof {
            lemma_dir_layout();
        }
        match self.light_buffer.get(2) {
            Ok(v) => vec3(v[0], v[1], v[2]),
            Err(_) => {
                proof {
                    assert(false);
                }
                vec3(0, 0, 0)
            },
        }
    }

    /// Discards the shadow camera and texture together.
    pub fn clear_shadow_map(&mut self)
        requires
            old(self).wf(),
        ensures
            final(self).wf(),
            final(self).spec_shadow_camera() is None,
            final(self).spec_shadow_texture() is None,
            final(self).buf() == old(self).buf(),
    {
        self.shadow_camera = None;
        self.shadow_texture = None;
    }

    /// The current depth texture, if a shadow map has been generated.
    pub fn shadow_map(&self) -> (r: Option<&Texture2D>)
        ensures
            match r {
                Some(t) => self.spec_shadow_texture() == Some(*t),
                None => self.spec_shadow_texture() is None,
            },
    {
        self.shadow_texture.as_ref()
    }

    /// The light's uniform block, for binding by a shading pass.
    pub fn buffer(&self) -> (r: &UniformBuffer)
        ensures
            r.spec_data() == self.buf(),
    {
        &self.light_buffer
    }
}


/// The field widths of a point light's block: color, intensity, the three
/// attenuation coefficients, padding, position, padding.
pub open spec fn point_sizes() -> Seq<u32> {
    seq![3u32, 1, 1, 1, 1, 1, 3, 1]
}

proof fn lemma_point_layout()
    ensures
        total_width(point_sizes()) == 12,
        offset_of(point_sizes(), 0) == 0,
        offset_of(point_sizes(), 1) == 3,
        offset_of(point_sizes(), 2) == 4,
        offset_of(point_sizes(), 3) == 5,
        offset_of(point_sizes(), 4) == 6,
        offset_of(point_sizes(), 6) == 8,
{
    reveal_with_fuel(offset_of, 10);
}

/// A light that radiates from a position in all directions, fading with
/// distance by a constant, linear and exponential attenuation term.
pub struct PointLight {
    light_buffer: UniformBuffer,
}

impl PointLight {
    pub open spec fn wf(&self) -> bool {
        self.buf_wf()
    }

    pub closed spec fn buf_wf(&self) -> bool {
        self.light_buffer.wf() && self.light_buffer.spec_sizes() == point_sizes()
    }

    /// The scalars of the light's uniform block.
    pub closed spec fn buf(&self) -> Seq<i64> {
        self.light_buffer.spec_data()
    }

    pub open spec fn spec_color(&self) -> (int, int, int) {
        (self.buf()[0] as int, self.buf()[1] as int, self.buf()[2] as int)
    }

    pub open spec fn spec_intensity(&self) -> int {
        self.buf()[3] as int
    }

    pub open spec fn spec_attenuation(&self) -> (int, int, int) {
        (self.buf()[4] as int, self.buf()[5] as int, self.buf()[6] as int)
    }

    pub open spec fn spec_position(&self) -> (int, int, int) {
        (self.buf()[8] as int, self.buf()[9] as int, self.buf()[10] as int)
    }

    pub fn new(
        gl: &Gl,
        intensity: i64,
        color: &Vec3,
        position: &Vec3,
        attenuation_constant: i64,
        attenuation_linear: i64,
        attenuation_exponential: i64,
    ) -> (r: Result<PointLight, Error>)
        ensures
            r matches Ok(l) && l.wf() && l.spec_color() == t_of(*color) && l.spec_intensity()
                == intensity as int && l.spec_position() == t_of(*position) && l.spec_attenuation()
                == (
                attenuation_constant as int,
                attenuation_linear as int,
                attenuation_exponential as int,
            ),
    {
        proof {
            lemma_point_layout();
        }
        let mut sizes: Vec<u32> = Vec::new();
        sizes.push(3);
        sizes.push(1);
        sizes.push(1);
        sizes.push(1);
        sizes.push(1);
        sizes.push(1);
        sizes.push(3);
        sizes.push(1);
        proof {
            assert(sizes@ =~= point_sizes());
        }
        let light_buffer = match UniformBuffer::new(gl, sizes.as_slice()) {
            Ok(b) => b,
            Err(e) => {
                return Err(Error::Buffer(e));
            },
        };
        let mut light = PointLight { light_buffer };
        light.set_intensity(intensity);
        light.set_color(color);
        light.set_position(position);
        light.set_attenuation(attenuation_constant, attenuation_linear, attenuation_exponential);
        Ok(light)
    }

    pub fn set_color(&mut self, color: &Vec3)
        requires
            old(self).wf(),
        ensures
            final(self).wf(),
            final(self).spec_color() == t_of(*color),
            final(self).buf() =~= spliced(old(self).buf(), 0, seq![color.x, color.y, color.z]),
    {
        proof {
            lemma_point_layout();
        }
        let v = scalars3(color.x, color.y, color.z);
        match self.light_buffer.update(0, v.as_slice()) {
            Ok(_) => (),
            Err(_) => {
                proof {
                    assert(false);
                }
            },
        }
    }

    pub fn set_intensity(&mut self, intensity: i64)
        requires
            old(self).wf(),
        ensures
            final(self).wf(),
            final(self).spec_intensity() == intensity as int,
            final(self).buf() =~= spliced(old(self).buf(), 3, seq![intensity]),
    {
        proof {
            lemma_point_layout();
        }
        let v = scalar1(intensity);
        match self.light_buffer.update(1, v.as_slice()) {
            Ok(_) => (),
            Err(_) => {
                proof {
                    assert(false);
                }
            },
        }
    }

    /// Writes the three attenuation coefficients, one field each.
    pub fn set_attenuation(&mut self, constant: i64, linear: i64, exponential: i64)
        requires
            old(self).wf(),
        ensures
            final(self).wf(),
            final(self).spec_attenuation() == (constant as int, linear as int, exponential as int),
            final(self).buf().len() == old(self).buf().len(),
            forall|k: int|
                0 <= k < old(self).buf().len() && !(4 <= k < 7) ==> final(self).buf()[k] == old(
                    self,
                ).buf()[k],
    {
        proof {
            lemma_point_layout();
        }
        let v = scalar1(constant);
        match self.light_buffer.update(2, v.as_slice()) {
            Ok(_) => (),
            Err(_) => {
                proof {
                    assert(false);
                }
            },
        }
        let v = scalar1(linear);
        match self.light_buffer.update(3, v.as_slice()) {
            Ok(_) => (),
            Err(_) => {
                proof {
                    assert(false);
                }
            },
        }
        let v = scalar1(exponential);
        match self.light_buffer.update(4, v.as_slice()) {
            Ok(_) => (),
            Err(_) => {
                proof {
                    assert(false);
                }
            },
        }
    }

    pub fn set_position(&mut self, position: &Vec3)
        requires
            old(self).wf(),
        ensures
            final(self).wf(),
            final(self).spec_position() == t_of(*position),
            final(self).buf() =~= spliced(
                old(self).buf(),
                8,
                seq![position.x, position.y, position.z],
            ),
    {
        proof {
            lemma_point_layout();
        }
        let v = scalars3(position.x, position.y, position.z);
        match self.light_buffer.update(6, v.as_slice()) {
            Ok(_) => (),
            Err(_) => {
                proof {
                    assert(false);
                }
            },
        }
    }

    /// The light's uniform block, for binding by a shading pass.
    pub fn buffer(&self) -> (r: &UniformBuffer)
        ensures
            r.spec_data() == self.buf(),
    {
        &self.light_buffer
    }
}


/// The eye of a directional light's shadow camera: the target pushed back
/// along the normalized light direction by half the frustum depth.
pub open spec fn dir_shadow_eye(dir: (int, int, int), target: (int, int, int), depth: int) -> (
    int,
    int,
    int,
) {
    let ndir = normalize3(dir);
    let halfd = fmul_s(32768, depth);
    (
        target.0 - fmul_s(ndir.0, halfd),
        target.1 - fmul_s(ndir.1, halfd),
        target.2 - fmul_s(ndir.2, halfd),
    )
}

impl DirectionalLight {
    /// Builds the shadow state: an orthographic camera placed half the
    /// frustum depth behind the target along the light's direction, the
    /// bias-remapped shadow matrix written into the block's last field,
    /// a fresh depth texture of the requested resolution, and one
    /// synchronous call of `render_scene` with the shadow camera.
    pub fn generate_shadow_map<F: Fn(&Camera)>(
        &mut self,
        target: &Vec3,
        frustrum_width: i64,
        frustrum_height: i64,
        frustrum_depth: i64,
        texture_width: usize,
        texture_height: usize,
        render_scene: &F,
    )
        requires
            old(self).wf(),
            vbounded(*target, 0x1000_0000),
            0 < frustrum_width,
            0 < frustrum_height,
            2 <= frustrum_depth <= 0x1000_0000,
            bounded3(old(self).spec_direction(), COORD_LIMIT as int),
            norm23(old(self).spec_direction()) > 0,
            norm23(up_cross3(old(self).spec_direction())) > 0,
            look_at_ok(
                dir_shadow_eye(
                    old(self).spec_direction(),
                    t_of(*target),
                    frustrum_depth as int,
                ),
                t_of(*target),
                normalize3(up_cross3(old(self).spec_direction())),
            ),
            forall|c: &Camera| #[trigger] call_requires(*render_scene, (c,)),
        ensures
            final(self).wf(),
            final(self).spec_color() == old(self).spec_color(),
            final(self).spec_intensity() == old(self).spec_intensity(),
            final(self).spec_direction() == old(self).spec_direction(),
            final(self).spec_shadow_texture() == Some(
                Texture2D { width: texture_width, height: texture_height },
            ),
            final(self).spec_shadow_camera() matches Some(cam) && cam.wf() && t_of(cam.position)
                == dir_shadow_eye(
                old(self).spec_direction(),
                t_of(*target),
                frustrum_depth as int,
            ) && cam.target == *target && t_of(cam.up) == normalize3(
                up_cross3(old(self).spec_direction()),
            ) && mat_ints(cam.projection) =~= ortho_entries(
                frustrum_width as int,
                frustrum_height as int,
                frustrum_depth as int,
            ) && mat_ints(cam.view_matrix) =~= view_entries(
                dir_shadow_eye(old(self).spec_direction(), t_of(*target), frustrum_depth as int),
                t_of(*target),
                normalize3(up_cross3(old(self).spec_direction())),
            ),
            final(self).spec_shadow_matrix() =~= shadow16(
                ortho_entries(frustrum_width as int, frustrum_height as int, frustrum_depth as int),
                view_entries(
                    dir_shadow_eye(
                        old(self).spec_direction(),
                        t_of(*target),
                        frustrum_depth as int,
                    ),
                    t_of(*target),
                    normalize3(up_cross3(old(self).spec_direction())),
                ),
            ),
    {
        proof {
            lemma_dir_layout();
        }
        let direction = self.direction();
        let up = compute_up_direction(direction);
        let ndir = vnormalize(&direction);
        let halfd = fmul(32768, frustrum_depth);
        proof {
            lemma_sdiv_bound(
                32768 * (frustrum_depth as int),
                32768int * 0x1000_0000,
                SCALE as int,
            );
            vstd::arithmetic::div_mod::lemma_div_pos_is_pos(
                32768 * (frustrum_depth as int),
                SCALE as int,
            );
            crate::fixed::lemma_prod_bound2(
                ndir.x as int,
                halfd as int,
                SCALE as int,
                0x800_0000,
            );
            crate::fixed::lemma_prod_bound2(
                ndir.y as int,
                halfd as int,
                SCALE as int,
                0x800_0000,
            );
            crate::fixed::lemma_prod_bound2(
                ndir.z as int,
                halfd as int,
                SCALE as int,
                0x800_0000,
            );
            lemma_sdiv_bound((ndir.x as int) * (halfd as int), 65536int * 0x800_0000, SCALE as int);
            lemma_sdiv_bound((ndir.y as int) * (halfd as int), 65536int * 0x800_0000, SCALE as int);
            lemma_sdiv_bound((ndir.z as int) * (halfd as int), 65536int * 0x800_0000, SCALE as int);
        }
        let offset = vscale(&ndir, halfd);
        let eye = vsub(target, &offset);
        proof {
            assert(t_of(eye) == dir_shadow_eye(
                self.spec_direction(),
                t_of(*target),
                frustrum_depth as int,
            ));
        }
        let cam = Camera::new_orthographic(
            &self.gl,
            eye,
            *target,
            up,
            frustrum_width,
            frustrum_height,
            frustrum_depth,
        );
        self.shadow_camera = Some(cam);
        let sm = shadow_matrix(&cam);
        let slice = sm.to_slice();
        match self.light_buffer.update(4, slice.as_slice()) {
            Ok(_) => (),
            Err(_) => {
                proof {
                    assert(false);
                }
            },
        }
        let tex = match Texture2D::new_as_depth_target(&self.gl, texture_width, texture_height) {
            Ok(t) => t,
            Err(_) => {
                proof {
                    assert(false);
                }
                Texture2D { width: texture_width, height: texture_height }
            },
        };
        self.shadow_texture = Some(tex);
        state::depth_write(&self.gl, true);
        state::depth_test(&self.gl, state::DepthTestType::LessOrEqual);
        match self.shadow_rendertarget.write_to_depth(&tex) {
            Ok(_) => (),
            Err(_) => {
                proof {
                    assert(false);
                }
            },
        }
        self.shadow_rendertarget.clear_depth(SCALE);
        render_scene(&cam);
        proof {
            assert(self.spec_shadow_matrix() =~= mat_ints(sm));
        }
    }
}


/// The field widths of a spot light's block: color, intensity, the three
/// attenuation coefficients, padding, position, cutoff, direction,
/// padding, shadow matrix.
pub open spec fn spot_sizes() -> Seq<u32> {
    seq![3u32, 1, 1, 1, 1, 1, 3, 1, 3, 1, 16]
}

proof fn lemma_spot_layout()
    ensures
        total_width(spot_sizes()) == 32,
        offset_of(spot_sizes(), 0) == 0,
        offset_of(spot_sizes(), 1) == 3,
        offset_of(spot_sizes(), 2) == 4,
        offset_of(spot_sizes(), 3) == 5,
        offset_of(spot_sizes(), 4) == 6,
        offset_of(spot_sizes(), 6) == 8,
        offset_of(spot_sizes(), 7) == 11,
        offset_of(spot_sizes(), 8) == 12,
        offset_of(spot_sizes(), 10) == 16,
{
    reveal_with_fuel(offset_of, 13);
}

/// The near plane of a spot light's shadow camera, one tenth of a unit in
/// fixed point.
pub const SPOT_NEAR: i64 = 6553;

/// A spot light frame is well posed: the direction is a direction, the
/// candidate up vector exists, and after normalization the two are still
/// not parallel.
pub open spec fn spot_shadow_ok(dir: (int, int, int)) -> bool {
    norm23(dir) > 0 && norm23(up_cross3(dir)) > 0 && norm23(
        cross3(normalize3(dir), normalize3(up_cross3(dir))),
    ) > 0
}

/// A light that radiates a cone from a position toward a direction; it
/// can carry a shadow map.
pub struct SpotLight {
    gl: Gl,
    light_buffer: UniformBuffer,
    shadow_rendertarget: RenderTarget,
    shadow_texture: Option<Texture2D>,
    shadow_camera: Option<Camera>,
}

impl SpotLight {
    /// The block holds the spot layout, and the shadow camera and texture
    /// are present or absent together.
    pub open spec fn wf(&self) -> bool {
        self.buf_wf() && (self.spec_shadow_camera() is Some <==> self.spec_shadow_texture()
            is Some)
    }

    pub closed spec fn buf_wf(&self) -> bool {
        self.light_buffer.wf() && self.light_buffer.spec_sizes() == spot_sizes()
    }

    /// The scalars of the light's uniform block.
    pub closed spec fn buf(&self) -> Seq<i64> {
        self.light_buffer.spec_data()
    }

    pub open spec fn spec_color(&self) -> (int, int, int) {
        (self.buf()[0] as int, self.buf()[1] as int, self.buf()[2] as int)
    }

    pub open spec fn spec_intensity(&self) -> int {
        self.buf()[3] as int
    }

    pub open spec fn spec_attenuation(&self) -> (int, int, int) {
        (self.buf()[4] as int, self.buf()[5] as int, self.buf()[6] as int)
    }

    pub open spec fn spec_position(&self) -> (int, int, int) {
        (self.buf()[8] as int, self.buf()[9] as int, self.buf()[10] as int)
    }

    pub open spec fn spec_cutoff(&self) -> int {
        self.buf()[11] as int
    }

    pub open spec fn spec_direction(&self) -> (int, int, int) {
        (self.buf()[12] as int, self.buf()[13] as int, self.buf()[14] as int)
    }

    pub open spec fn spec_shadow_matrix(&self) -> Seq<int> {
        Seq::new(16, |i: int| self.buf()[16 + i] as int)
    }

    pub closed spec fn spec_shadow_texture(&self) -> Option<Texture2D> {
        self.shadow_texture
    }

    pub closed spec fn spec_shadow_camera(&self) -> Option<Camera> {
        self.shadow_camera
    }

    pub fn new(
        gl: &Gl,
        intensity: i64,
        color: &Vec3,
        position: &Vec3,
        direction: &Vec3,
        cutoff: i64,
        attenuation_constant: i64,
        attenuation_linear: i64,
        attenuation_exponential: i64,
    ) -> (r: Result<SpotLight, Error>)
        requires
            vbounded(*direction, COORD_LIMIT as int),
            norm2_s(*direction) > 0,
        ensures
            r matches Ok(l) && l.wf() && l.spec_color() == t_of(*color) && l.spec_intensity()
                == intensity as int && l.spec_position() == t_of(*position) && l.spec_direction()
                == vnormalize_s(*direction) && l.spec_cutoff() == cutoff as int
                && l.spec_attenuation() == (
                attenuation_constant as int,
                attenuation_linear as int,
                attenuation_exponential as int,
            ) && l.spec_shadow_texture() is None && l.spec_shadow_camera() is None,
    {
        proof {
            lemma_spot_layout();
        }
        let mut sizes: Vec<u32> = Vec::new();
        sizes.push(3);
        sizes.push(1);
        sizes.push(1);
        sizes.push(1);
        sizes.push(1);
        sizes.push(1);
        sizes.push(3);
        sizes.push(1);
        sizes.push(3);
        sizes.push(1);
        sizes.push(16);
        proof {
            assert(sizes@ =~= spot_sizes());
        }
        let light_buffer = match UniformBuffer::new(gl, sizes.as_slice()) {
            Ok(b) => b,
            Err(e) => {
                return Err(Error::Buffer(e));
            },
        };
        let shadow_rendertarget = match RenderTarget::new(gl, 0) {
            Ok(t) => t,
            Err(e) => {
                return Err(Error::Rendertarget(e));
            },
        };
        let mut light = SpotLight {
            gl: *gl,
            light_buffer,
            shadow_rendertarget,
            shadow_texture: None,
            shadow_camera: None,
        };
        light.set_intensity(intensity);
        light.set_color(color);
        light.set_cutoff(cutoff);
        light.set_direction(direction);
        light.set_position(position);
        light.set_attenuation(attenuation_constant, attenuation_linear, attenuation_exponential);
        Ok(light)
    }

    pub fn set_color(&mut self, color: &Vec3)
        requires
            old(self).wf(),
        ensures
            final(self).wf(),
            final(self).spec_color() == t_of(*color),
            final(self).buf() =~= spliced(old(self).buf(), 0, seq![color.x, color.y, color.z]),
            final(self).spec_shadow_texture() == old(self).spec_shadow_texture(),
            final(self).spec_shadow_camera() == old(self).spec_shadow_camera(),
    {
        proof {
            lemma_spot_layout();
        }
        let v = scalars3(color.x, color.y, color.z);
        match self.light_buffer.update(0, v.as_slice()) {
            Ok(_) => (),
            Err(_) => {
                proof {
                    assert(false);
                }
            },
        }
    }

    pub fn set_intensity(&mut self, intensity: i64)
        requires
            old(self).wf(),
        ensures
            final(self).wf(),
            final(self).spec_intensity() == intensity as int,
            final(self).buf() =~= spliced(old(self).buf(), 3, seq![intensity]),
            final(self).spec_shadow_texture() == old(self).spec_shadow_texture(),
            final(self).spec_shadow_camera() == old(self).spec_shadow_camera(),
    {
        proof {
            lemma_spot_layout();
        }
        let v = scalar1(intensity);
        match self.light_buffer.update(1, v.as_slice()) {
            Ok(_) => (),
            Err(_) => {
                proof {
                    assert(false);
                }
            },
        }
    }

    /// Writes the three attenuation coefficients, one field each.
    pub fn set_attenuation(&mut self, constant: i64, linear: i64, exponential: i64)
        requires
            old(self).wf(),
        ensures
            final(self).wf(),
            final(self).spec_attenuation() == (constant as int, linear as int, exponential as int),
            final(self).buf().len() == old(self).buf().len(),
            forall|k: int|
                0 <= k < old(self).buf().len() && !(4 <= k < 7) ==> final(self).buf()[k] == old(
                    self,
                ).buf()[k],
            final(self).spec_shadow_texture() == old(self).spec_shadow_texture(),
            final(self).spec_shadow_camera() == old(self).spec_shadow_camera(),
    {
        proof {
            lemma_spot_layout();
        }
        let v = scalar1(constant);
        match self.light_buffer.update(2, v.as_slice()) {
            Ok(_) => (),
            Err(_) => {
                proof {
                    assert(false);
                }
            },
        }
        let v = scalar1(linear);
        match self.light_buffer.update(3, v.as_slice()) {
            Ok(_) => (),
            Err(_) => {
                proof {
                    assert(false);
                }
            },
        }
        let v = scalar1(exponential);
        match self.light_buffer.update(4, v.as_slice()) {
            Ok(_) => (),
            Err(_) => {
                proof {
                    assert(false);
                }
            },
        }
    }

    pub fn set_position(&mut self, position: &Vec3)
        requires
            old(self).wf(),
        ensures
            final(self).wf(),
            final(self).spec_position() == t_of(*position),
            final(self).buf() =~= spliced(
                old(self).buf(),
                8,
                seq![position.x, position.y, position.z],
            ),
            final(self).spec_shadow_texture() == old(self).spec_shadow_texture(),
            final(self).spec_shadow_camera() == old(self).spec_shadow_camera(),
    {
        proof {
            lemma_spot_layout();
        }
        let v = scalars3(position.x, position.y, position.z);
        match self.light_buffer.update(6, v.as_slice()) {
            Ok(_) => (),
            Err(_) => {
                proof {
                    assert(false);
                }
            },
        }
    }

    /// Reads the position back out of the block.
    pub fn position(&self) -> (r: Vec3)
        requires
            self.wf(),
        ensures
            t_of(r) == self.spec_position(),
    {
        proof {
            lemma_spot_layout();
        }
        match self.light_buffer.get(6) {
            Ok(v) => vec3(v[0], v[1], v[2]),
            Err(_) => {
                proof {
                    assert(false);
                }
                vec3(0, 0, 0)
            },
        }
    }

    pub fn set_cutoff(&mut self, cutoff: i64)
        requires
            old(self).wf(),
        ensures
            final(self).wf(),
            final(self).spec_cutoff() == cutoff as int,
            final(self).buf() =~= spliced(old(self).buf(), 11, seq![cutoff]),
            final(self).spec_shadow_texture() == old(self).spec_shadow_texture(),
            final(self).spec_shadow_camera() == old(self).spec_shadow_camera(),
    {
        proof {
            lemma_spot_layout();
        }
        let v = scalar1(cutoff);
        match self.light_buffer.update(7, v.as_slice()) {
            Ok(_) => (),
            Err(_) => {
                proof {
                    assert(false);
                }
            },
        }
    }

    /// Stores the direction normalized: reading it back yields the
    /// normalized input direction.
    pub fn set_direction(&mut self, direction: &Vec3)
        requires
            old(self).wf(),
            vbounded(*direction, COORD_LIMIT as int),
            norm2_s(*direction) > 0,
        ensures
            final(self).wf(),
            final(self).spec_direction() == vnormalize_s(*direction),
            final(self).buf().len() == old(self).buf().len(),
            forall|k: int|
                0 <= k < old(self).buf().len() && !(12 <= k < 15) ==> final(self).buf()[k] == old(
                    self,
                ).buf()[k],
            final(self).spec_shadow_texture() == old(self).spec_shadow_texture(),
            final(self).spec_shadow_camera() == old(self).spec_shadow_camera(),
    {
        proof {
            lemma_spot_layout();
        }
        let n = vnormalize(direction);
        let v = scalars3(n.x, n.y, n.z);
        match self.light_buffer.update(8, v.as_slice()) {
            Ok(_) => (),
            Err(_) => {
                proof {
                    assert(false);
                }
            },
        }
    }

    /// Reads the direction back out of the block.
    pub fn direction(&self) -> (r: Vec3)
        requires
            self.wf(),
        ensures
            t_of(r) == self.spec_direction(),
    {
        proof {
            lemma_spot_layout();
        }
        match self.light_buffer.get(8) {
            Ok(v) => vec3(v[0], v[1], v[2]),
            Err(_) => {
                proof {
                    assert(false);
                }
                vec3(0, 0, 0)
            },
        }
    }

    /// Discards the shadow camera and texture together.
    pub fn clear_shadow_map(&mut self)
        requires
            old(self).wf(),
        ensures
            final(self).wf(),
            final(self).spec_shadow_camera() is None,
            final(self).spec_shadow_texture() is None,
            final(self).buf() == old(self).buf(),
    {
        self.shadow_camera = None;
        self.shadow_texture = None;
    }

    /// The current depth texture, if a shadow map has been generated.
    pub fn shadow_map(&self) -> (r: Option<&Texture2D>)
        ensures
            match r {
                Some(t) => self.spec_shadow_texture() == Some(*t),
                None => self.spec_shadow_texture() is None,
            },
    {
        self.shadow_texture.as_ref()
    }

    /// The light's uniform block, for binding by a shading pass.
    pub fn buffer(&self) -> (r: &UniformBuffer)
        ensures
            r.spec_data() == self.buf(),
    {
        &self.light_buffer
    }

    /// Builds the shadow state: a perspective camera at the light's
    /// position looking along its direction with the cutoff angle as
    /// field of view, the bias-remapped shadow matrix written into the
    /// block's last field, a fresh square depth texture, and one
    /// synchronous call of `render_scene` with the shadow camera.
    pub fn generate_shadow_map<F: Fn(&Camera)>(
        &mut self,
        frustrum_depth: i64,
        texture_size: usize,
        render_scene: &F,
    )
        requires
            old(self).wf(),
            bounded3(old(self).spec_position(), 0x1000_0000),
            bounded3(old(self).spec_direction(), SCALE as int),
            spot_shadow_ok(old(self).spec_direction()),
            SCALE as int / 16 <= old(self).spec_cutoff() <= 90 * (SCALE as int),
            16384 <= frustrum_depth <= 0x2000_0000,
            forall|c: &Camera| #[trigger] call_requires(*render_scene, (c,)),
        ensures
            final(self).wf(),
            final(self).spec_color() == old(self).spec_color(),
            final(self).spec_intensity() == old(self).spec_intensity(),
            final(self).spec_attenuation() == old(self).spec_attenuation(),
            final(self).spec_position() == old(self).spec_position(),
            final(self).spec_cutoff() == old(self).spec_cutoff(),
            final(self).spec_direction() == old(self).spec_direction(),
            final(self).spec_shadow_texture() == Some(
                Texture2D { width: texture_size, height: texture_size },
            ),
            final(self).spec_shadow_camera() matches Some(cam) && cam.wf() && t_of(cam.position)
                == old(self).spec_position() && t_of(cam.up) == normalize3(
                up_cross3(old(self).spec_direction()),
            ) && mat_ints(cam.projection) =~= perspective_entries(
                old(self).spec_cutoff(),
                SCALE as int,
                SPOT_NEAR as int,
                frustrum_depth as int,
            ) && mat_ints(cam.view_matrix) =~= view_entries(
                old(self).spec_position(),
                add3(old(self).spec_position(), old(self).spec_direction()),
                normalize3(up_cross3(old(self).spec_direction())),
            ),
            final(self).spec_shadow_matrix() =~= shadow16(
                perspective_entries(
                    old(self).spec_cutoff(),
                    SCALE as int,
                    SPOT_NEAR as int,
                    frustrum_depth as int,
                ),
                view_entries(
                    old(self).spec_position(),
                    add3(old(self).spec_position(), old(self).spec_direction()),
                    normalize3(up_cross3(old(self).spec_direction())),
                ),
            ),
    {
        proof {
            lemma_spot_layout();
        }
        let position = self.position();
        let direction = self.direction();
        let up = compute_up_direction(direction);
        let cutoff = match self.light_buffer.get(7) {
            Ok(v) => v[0],
            Err(_) => {
                proof {
                    assert(false);
                }
                0
            },
        };
        let target = vadd(&position, &direction);
        proof {
            assert(sub3(t_of(target), t_of(position)) == t_of(direction));
            assert(look_at_ok(t_of(position), t_of(target), t_of(up)));
        }
        let cam = Camera::new_perspective(
            &self.gl,
            position,
            target,
            up,
            cutoff,
            SCALE,
            SPOT_NEAR,
            frustrum_depth,
        );
        self.shadow_camera = Some(cam);
        let sm = shadow_matrix(&cam);
        let slice = sm.to_slice();
        match self.light_buffer.update(10, slice.as_slice()) {
            Ok(_) => (),
            Err(_) => {
                proof {
                    assert(false);
                }
            },
        }
        let tex = match Texture2D::new_as_depth_target(&self.gl, texture_size, texture_size) {
            Ok(t) => t,
            Err(_) => {
                proof {
                    assert(false);
                }
                Texture2D { width: texture_size, height: texture_size }
            },
        };
        self.shadow_texture = Some(tex);
        state::depth_write(&self.gl, true);
        state::depth_test(&self.gl, state::DepthTestType::LessOrEqual);
        match self.shadow_rendertarget.write_to_depth(&tex) {
            Ok(_) => (),
            Err(_) => {
                proof {
                    assert(false);
                }
            },
        }
        self.shadow_rendertarget.clear_depth(SCALE);
        render_scene(&cam);
        proof {
            assert(self.spec_shadow_matrix() =~= mat_ints(sm));
        }
    }
}



/// Law (shadow-matrix bias, affine part): when neither the projection
/// nor the view has a perspective row -- their bottom rows are
/// (0, 0, 0, 1), as an orthographic shadow camera's are -- the combined
/// bias, projection and view matrix gives every point the homogeneous
/// weight one exactly.  Texture-space coordinates then need no
/// perspective divide, and the frustum-center property reduces to the
/// three affine coordinates.
pub proof fn lemma_shadow16_affine_weight(p: Seq<int>, v: Seq<int>, q: (int, int, int))
    requires
        p.len() == 16,
        v.len() == 16,
        p[3] == 0 && p[7] == 0 && p[11] == 0 && p[15] == SCALE as int,
        v[3] == 0 && v[7] == 0 && v[11] == 0 && v[15] == SCALE as int,
    ensures
        crate::mat4::xform_point(shadow16(p, v), q).3 == SCALE as int,
{
    let s = SCALE as int;
    let bp = mul16(bias16(), p);
    assert(bias16()[3] == 0 && bias16()[7] == 0 && bias16()[11] == 0 && bias16()[15] == s);
    lemma_sdiv_multiple(p[3], s);
    lemma_sdiv_multiple(p[7], s);
    lemma_sdiv_multiple(p[11], s);
    lemma_sdiv_multiple(p[15], s);
    assert(bp[3] == sdiv(
        bias16()[3] * p[0] + bias16()[7] * p[1] + bias16()[11] * p[2] + bias16()[15] * p[3],
        s,
    ));
    assert(bp[3] == 0);
    assert(bp[7] == sdiv(
        bias16()[3] * p[4] + bias16()[7] * p[5] + bias16()[11] * p[6] + bias16()[15] * p[7],
        s,
    ));
    assert(bp[7] == 0);
    assert(bp[11] == 0);
    assert(bp[15] == s);
    let m = mul16(bp, v);
    lemma_sdiv_multiple(v[3], s);
    lemma_sdiv_multiple(v[7], s);
    lemma_sdiv_multiple(v[11], s);
    lemma_sdiv_multiple(v[15], s);
    assert(m[3] == sdiv(bp[3] * v[0] + bp[7] * v[1] + bp[11] * v[2] + bp[15] * v[3], s));
    assert(m[3] == 0);
    assert(m[7] == 0);
    assert(m[11] == 0);
    assert(m[15] == s);
    lemma_sdiv_multiple(s, s);
    assert(crate::mat4::xform_point(m, q).3 == sdiv(
        m[3] * q.0 + m[7] * q.1 + m[11] * q.2 + m[15] * s,
        s,
    ));
    assert(m[3] * q.0 == 0 && m[7] * q.1 == 0 && m[11] * q.2 == 0) by (nonlinear_arith)
        requires
            m[3] == 0 && m[7] == 0 && m[11] == 0,
    ;
}

/// The orthographic projection and the look-at view both have the
/// affine bottom row that `lemma_shadow16_affine_weight` asks for.
pub proof fn lemma_directional_shadow_affine(
    eye: (int, int, int),
    target: (int, int, int),
    up: (int, int, int),
    width: int,
    height: int,
    depth: int,
    q: (int, int, int),
)
    ensures
        crate::mat4::xform_point(
            shadow16(
                crate::camera::ortho_entries(width, height, depth),
                crate::camera::view_entries(eye, target, up),
            ),
            q,
        ).3 == SCALE as int,
{
    lemma_shadow16_affine_weight(
        crate::camera::ortho_entries(width, height, depth),
        crate::camera::view_entries(eye, target, up),
        q,
    );
}

/// Law: setting a spot light's direction and then reading it back
/// yields the normalized input direction.  The first hypothesis is what
/// `SpotLight::set_direction` establishes, the second what
/// `SpotLight::direction` returns.
pub proof fn lemma_spot_direction_roundtrip(after: SpotLight, d: Vec3, r: Vec3)
    requires
        after.spec_direction() == vnormalize_s(d),
        t_of(r) == after.spec_direction(),
    ensures
        t_of(r) == vnormalize_s(d),
{
}

/// Law: generating a shadow map leaves a depth texture of the requested
/// resolution to be read back, and clearing leaves none.  The
/// hypotheses are what `generate_shadow_map` and `clear_shadow_map`
/// establish for either shadow-casting light; `shadow_map` returns
/// exactly the stored texture.
pub proof fn lemma_shadow_map_roundtrip(
    generated: DirectionalLight,
    cleared: DirectionalLight,
    width: usize,
    height: usize,
)
    requires
        generated.spec_shadow_texture() == Some(Texture2D { width, height }),
        cleared.spec_shadow_texture() is None,
    ensures
        generated.spec_shadow_texture() matches Some(t) && t.width == width && t.height == height,
        cleared.spec_shadow_texture() is None,
{
}

} // verus!
