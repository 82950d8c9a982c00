//! The graphics-context handle.
//!
//! Buffers, textures and render targets are created against a context.  The
//! model keeps no per-context state, so the handle carries no data; it only
//! threads through the constructors the way a real context handle would.

use vstd::prelude::*;

verus! {

/// An opaque handle to the graphics context.
#[derive(Clone, Copy)]
pub struct Gl {
}

/// Creates the context handle.
pub fn new_gl() -> Gl {
    Gl {  }
}

} // verus!
