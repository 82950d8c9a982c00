//! Phong materials built from extracted material descriptors.

use vstd::prelude::*;
use vstd::string::StringExecFns;
use crate::context::Gl;
use crate::fixed::SCALE;
use crate::loader::CPUMaterial;
use crate::program::{Program, ProgramError};
use crate::rendertarget::RenderTargetError;
use crate::texture::Texture2D;

verus! {

/// The source of color on an object: a fixed value or a texture.
#[derive(Clone, Copy, Debug, PartialEq, Eq, Structural)]
pub enum ColorSource {
    Color(i64, i64, i64, i64),
    Texture(Texture2D),
}

impl ColorSource {
    /// A short label naming the variant.
    pub fn label(&self) -> (r: String)
        ensures
            r@ == match *self {
                ColorSource::Color(_, _, _, _) => "Color"@,
                ColorSource::Texture(_) => "Texture"@,
            },
    {
        match self {
            ColorSource::Color(_, _, _, _) => "Color".to_owned(),
            ColorSource::Texture(_) => "Texture".to_owned(),
        }
    }
}

/// The default diffuse intensity, one half.
pub const DEFAULT_DIFFUSE: i64 = 32768;

/// The default specular intensity, one fifth.
pub const DEFAULT_SPECULAR: i64 = 13107;

/// The default specular power, six.
pub const DEFAULT_POWER: i64 = 393216;

/// A material for shading with the Phong model.
#[derive(Debug)]
pub struct PhongMaterial {
    pub name: String,
    pub color_source: ColorSource,
    pub diffuse_intensity: i64,
    pub specular_intensity: i64,
    pub specular_power: i64,
}

impl PhongMaterial {
    /// Builds a material from an extracted descriptor: a texture color
    /// source if the descriptor carries a color texture, its plain color
    /// (or white) otherwise, and the descriptor's intensities with fixed
    /// fallbacks.
    pub fn new(context: &Gl, cpu_material: &CPUMaterial) -> (r: Result<
        PhongMaterial,
        RenderTargetError,
    >)
        ensures
            r matches Ok(m) && m.name@ == cpu_material.name@ && (match cpu_material.color_texture {
                Some(t) => m.color_source matches ColorSource::Texture(tex) && tex.width == t.width
                    && tex.height == t.height,
                None => m.color_source == (match cpu_material.color {
                    Some(c) => ColorSource::Color(c.0, c.1, c.2, c.3),
                    None => ColorSource::Color(SCALE, SCALE, SCALE, SCALE),
                }),
            }) && m.diffuse_intensity == (match cpu_material.diffuse_intensity {
                Some(v) => v,
                None => DEFAULT_DIFFUSE,
            }) && m.specular_intensity == (match cpu_material.specular_intensity {
                Some(v) => v,
                None => DEFAULT_SPECULAR,
            }) && m.specular_power == (match cpu_material.specular_power {
                Some(v) => v,
                None => DEFAULT_POWER,
            }),
    {
        let color_source = match cpu_material.color_texture.as_ref() {
            Some(cpu_texture) => {
                let tex = match Texture2D::new(context, cpu_texture) {
                    Ok(t) => t,
                    Err(_) => {
                        proof {
                            assert(false);
                        }
                        Texture2D { width: 0, height: 0 }
                    },
                };
                ColorSource::Texture(tex)
            },
            None => match cpu_material.color {
                Some(c) => ColorSource::Color(c.0, c.1, c.2, c.3),
                None => ColorSource::Color(SCALE, SCALE, SCALE, SCALE),
            },
        };
        Ok(
            PhongMaterial {
                name: cpu_material.name.as_str().to_owned(),
                color_source,
                diffuse_intensity: match cpu_material.diffuse_intensity {
                    Some(v) => v,
                    None => DEFAULT_DIFFUSE,
                },
                specular_intensity: match cpu_material.specular_intensity {
                    Some(v) => v,
                    None => DEFAULT_SPECULAR,
                },
                specular_power: match cpu_material.specular_power {
                    Some(v) => v,
                    None => DEFAULT_POWER,
                },
            },
        )
    }
}


impl PhongMaterial {
    /// Binds the material to a program: the three intensities as scalar
    /// uniforms, then the surface color as a four-scalar uniform or the
    /// color texture under the sampler name.
    pub fn bind(&self, program: &mut Program) -> (r: Result<(), ProgramError>)
        ensures
            r is Ok,
            ({
                let n = old(program).spec_uniforms().len() as int;
                let u = final(program).spec_uniforms();
                u.subrange(0, n) == old(program).spec_uniforms() && u[n].0@
                    == "diffuse_intensity"@ && u[n].1@ =~= seq![self.diffuse_intensity] && u[n
                    + 1].0@ == "specular_intensity"@ && u[n + 1].1@ =~= seq![
                    self.specular_intensity,
                ] && u[n + 2].0@ == "specular_power"@ && u[n + 2].1@ =~= seq![self.specular_power]
                    && match self.color_source {
                    ColorSource::Color(cr, cg, cb, ca) => u.len() == n + 4 && u[n + 3].0@
                        == "surfaceColor"@ && u[n + 3].1@ =~= seq![cr, cg, cb, ca]
                        && final(program).spec_textures() == old(program).spec_textures(),
                    ColorSource::Texture(t) => u.len() == n + 3
                        && final(program).spec_textures().len() == old(
                        program,
                    ).spec_textures().len() + 1 && final(program).spec_textures().subrange(
                        0,
                        old(program).spec_textures().len() as int,
                    ) == old(program).spec_textures() && final(program).spec_textures().last().0@
                        == "tex"@ && final(program).spec_textures().last().1 == t,
                }
            }),
    {
        match program.use_uniform_float("diffuse_intensity", &self.diffuse_intensity) {
            Ok(_) => (),
            Err(e) => {
                proof {
                    assert(false);
                }
                return Err(e);
            },
        }
        match program.use_uniform_float("specular_intensity", &self.specular_intensity) {
            Ok(_) => (),
            Err(e) => {
                proof {
                    assert(false);
                }
                return Err(e);
            },
        }
        match program.use_uniform_float("specular_power", &self.specular_power) {
            Ok(_) => (),
            Err(e) => {
                proof {
                    assert(false);
                }
                return Err(e);
            },
        }
        match &self.color_source {
            ColorSource::Color(cr, cg, cb, ca) => {
                let color = (*cr, *cg, *cb, *ca);
                match program.use_uniform_vec4("surfaceColor", &color) {
                    Ok(_) => Ok(()),
                    Err(e) => {
                        proof {
                            assert(false);
                        }
                        Err(e)
                    },
                }
            },
            ColorSource::Texture(texture) => {
                match program.use_texture(texture, "tex") {
                    Ok(_) => Ok(()),
                    Err(e) => {
                        proof {
                            assert(false);
                        }
                        Err(e)
                    },
                }
            },
        }
    }
}

impl Default for PhongMaterial {
    /// A plain white material with the fixed fallback intensities.
    fn default() -> (r: Self)
        ensures
            r.name@ == "default"@,
            r.color_source == ColorSource::Color(SCALE, SCALE, SCALE, SCALE),
            r.diffuse_intensity == DEFAULT_DIFFUSE,
            r.specular_intensity == DEFAULT_SPECULAR,
            r.specular_power == DEFAULT_POWER,
    {
        PhongMaterial {
            name: "default".to_owned(),
            color_source: ColorSource::Color(SCALE, SCALE, SCALE, SCALE),
            diffuse_intensity: DEFAULT_DIFFUSE,
            specular_intensity: DEFAULT_SPECULAR,
            specular_power: DEFAULT_POWER,
        }
    }
}

} // verus!
