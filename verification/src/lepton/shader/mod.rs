//! Shader stages, the built-in shader signatures and the uniform inputs
//! that shaders read.

pub mod primitives;
pub mod builtin;
pub mod input;
pub mod lights;
pub mod bindings;
