//! Texture objects and their CPU-side staging form.

use vstd::prelude::*;
use crate::context::Gl;
use crate::rendertarget::RenderTargetError;

verus! {

/// Raw pixel data staged on the CPU, ready to be uploaded.
#[derive(Debug)]
pub struct CPUTexture {
    pub data: Vec<u8>,
    pub width: usize,
    pub height: usize,
}

/// A two-dimensional texture of a fixed resolution.
#[derive(Clone, Copy, PartialEq, Eq, Structural, Debug)]
pub struct Texture2D {
    pub width: usize,
    pub height: usize,
}

impl Texture2D {
    /// Allocates a depth-only render destination of the given resolution.
    pub fn new_as_depth_target(_gl: &Gl, width: usize, height: usize) -> (r: Result<
        Texture2D,
        RenderTargetError,
    >)
        ensures
            r matches Ok(t) && t.width == width && t.height == height,
    {
        Ok(Texture2D { width, height })
    }

    /// Uploads a staged CPU texture.
    pub fn new(_gl: &Gl, cpu_texture: &CPUTexture) -> (r: Result<Texture2D, RenderTargetError>)
        ensures
            r matches Ok(t) && t.width == cpu_texture.width && t.height == cpu_texture.height,
    {
        Ok(Texture2D { width: cpu_texture.width, height: cpu_texture.height })
    }
}

} // verus!
