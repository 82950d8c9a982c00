//! Depth-only render destinations.

use vstd::prelude::*;
use crate::context::Gl;

verus! {

/// Errors raised by render-target operations.
#[derive(Clone, Copy, Debug, PartialEq, Eq, Structural)]
pub enum RenderTargetError {
    /// The attachment handed to the target cannot be bound.
    InvalidAttachment,
}

/// A render destination with a number of color channels; the lights use it
/// with zero channels, as a pure depth target.
pub struct RenderTarget {
    color_channels: usize,
}

impl RenderTarget {
    /// The number of color channels the target was created with.
    pub closed spec fn spec_color_channels(&self) -> usize {
        self.color_channels
    }

    /// Creates a render target against the given context.
    pub fn new(_gl: &Gl, color_channels: usize) -> (r: Result<RenderTarget, RenderTargetError>)
        ensures
            r matches Ok(t) && t.spec_color_channels() == color_channels,
    {
        Ok(RenderTarget { color_channels })
    }

    /// Directs subsequent depth output into the given texture.  The model
    /// tracks no draw state, so this only validates the binding.
    pub fn write_to_depth(&self, _texture: &crate::texture::Texture2D) -> (r: Result<
        (),
        RenderTargetError,
    >)
        ensures
            r matches Ok(()),
    {
        Ok(())
    }

    /// Clears the bound depth buffer to the given fixed-point value.  The
    /// model tracks no pixel state.
    pub fn clear_depth(&self, _value: i64) {
    }
}

} // verus!
