//! The uniform inputs that shaders declare and the textures models carry.

pub mod input_types;

pub use input_types::{InputLevel, InputType, TextureType};
