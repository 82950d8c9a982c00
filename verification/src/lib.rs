//! A small, fully specified model of a real-time rendering engine's light
//! and asset pipeline: fixed-layout uniform blocks, shadow-mapped lights,
//! a fixed-point vector/matrix toolkit, and a glTF scene extractor.

pub mod buffer;
pub mod camera;
pub mod light;
pub mod loader;
pub mod material;
pub mod program;
pub mod mat4;
pub mod rendertarget;
pub mod state;
pub mod texture;
pub mod context;
pub mod fixed;
pub mod vec3;

pub use fixed::SCALE;
