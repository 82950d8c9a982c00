//! Fixed-function pipeline state switches used while rendering depth.

use vstd::prelude::*;
use crate::context::Gl;

verus! {

/// The comparison a fragment's depth must pass.
#[derive(Clone, Copy, Debug, PartialEq, Eq, Structural)]
pub enum DepthTestType {
    Never,
    Less,
    Equal,
    LessOrEqual,
    Greater,
    NotEqual,
    GreaterOrEqual,
    Always,
}

/// Enables or disables writing to the depth buffer.  The model tracks no
/// pipeline state.
pub fn depth_write(_gl: &Gl, _enable: bool) {
}

/// Selects the depth comparison.  The model tracks no pipeline state.
pub fn depth_test(_gl: &Gl, _test_type: DepthTestType) {
}

} // verus!
