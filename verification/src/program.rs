//! Shader programs, modeled as the journal of uniform and texture
//! bindings they have received.

use vstd::prelude::*;
use vstd::string::StringExecFns;
use crate::context::Gl;
use crate::texture::Texture2D;

verus! {

/// Errors raised while binding values to a program.
#[derive(Clone, Copy, Debug, PartialEq, Eq, Structural)]
pub enum ProgramError {
    /// The named uniform cannot be bound.
    InvalidUniform,
}

/// A shader program: the model records every uniform and texture write,
/// in order.
pub struct Program {
    uniforms: Vec<(String, Vec<i64>)>,
    textures: Vec<(String, Texture2D)>,
}

impl Program {
    /// The uniform writes so far, each a name and the scalars written.
    pub closed spec fn spec_uniforms(&self) -> Seq<(String, Vec<i64>)> {
        self.uniforms@
    }

    /// The texture bindings so far.
    pub closed spec fn spec_textures(&self) -> Seq<(String, Texture2D)> {
        self.textures@
    }

    /// A fresh program with nothing bound.
    pub fn new(_gl: &Gl) -> (r: Program)
        ensures
            r.spec_uniforms().len() == 0,
            r.spec_textures().len() == 0,
    {
        Program { uniforms: Vec::new(), textures: Vec::new() }
    }


    /// The recorded uniform writes.
    pub fn uniforms(&self) -> (r: &Vec<(String, Vec<i64>)>)
        ensures
            r@ == self.spec_uniforms(),
    {
        &self.uniforms
    }

    /// The recorded texture bindings.
    pub fn textures(&self) -> (r: &Vec<(String, Texture2D)>)
        ensures
            r@ == self.spec_textures(),
    {
        &self.textures
    }

    /// Writes a single scalar uniform.
    pub fn use_uniform_float(&mut self, name: &str, value: &i64) -> (r: Result<(), ProgramError>)
        ensures
            r is Ok,
            final(self).spec_uniforms().len() == old(self).spec_uniforms().len() + 1,
            final(self).spec_uniforms().subrange(0, old(self).spec_uniforms().len() as int) == old(
                self,
            ).spec_uniforms(),
            final(self).spec_uniforms().last().0@ == name@,
            final(self).spec_uniforms().last().1@ =~= seq![*value],
            final(self).spec_textures() == old(self).spec_textures(),
    {
        let mut scalars: Vec<i64> = Vec::new();
        scalars.push(*value);
        self.uniforms.push((name.to_owned(), scalars));
        proof {
            assert(self.uniforms@.subrange(0, old(self).spec_uniforms().len() as int) =~= old(
                self,
            ).spec_uniforms());
        }
        Ok(())
    }

    /// Writes a four-scalar uniform.
    pub fn use_uniform_vec4(&mut self, name: &str, value: &(i64, i64, i64, i64)) -> (r: Result<
        (),
        ProgramError,
    >)
        ensures
            r is Ok,
            final(self).spec_uniforms().len() == old(self).spec_uniforms().len() + 1,
            final(self).spec_uniforms().subrange(0, old(self).spec_uniforms().len() as int) == old(
                self,
            ).spec_uniforms(),
            final(self).spec_uniforms().last().0@ == name@,
            final(self).spec_uniforms().last().1@ =~= seq![value.0, value.1, value.2, value.3],
            final(self).spec_textures() == old(self).spec_textures(),
    {
        let mut scalars: Vec<i64> = Vec::new();
        scalars.push(value.0);
        scalars.push(value.1);
        scalars.push(value.2);
        scalars.push(value.3);
        self.uniforms.push((name.to_owned(), scalars));
        proof {
            assert(self.uniforms@.subrange(0, old(self).spec_uniforms().len() as int) =~= old(
                self,
            ).spec_uniforms());
        }
        Ok(())
    }

    /// Binds a texture under a sampler name.
    pub fn use_texture(&mut self, texture: &Texture2D, name: &str) -> (r: Result<
        (),
        ProgramError,
    >)
        ensures
            r is Ok,
            final(self).spec_textures().len() == old(self).spec_textures().len() + 1,
            final(self).spec_textures().subrange(0, old(self).spec_textures().len() as int) == old(
                self,
            ).spec_textures(),
            final(self).spec_textures().last().0@ == name@,
            final(self).spec_textures().last().1 == *texture,
            final(self).spec_uniforms() == old(self).spec_uniforms(),
    {
        self.textures.push((name.to_owned(), *texture));
        proof {
            assert(self.textures@.subrange(0, old(self).spec_textures().len() as int) =~= old(
                self,
            ).spec_textures());
        }
        Ok(())
    }
}

} // verus!
