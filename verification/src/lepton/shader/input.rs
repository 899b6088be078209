use vstd::prelude::*;
use super::primitives::{ShaderStages, FRAGMENT_BIT};
use super::builtin;
use crate::lepton::input::input_types::{DESCRIPTOR_TYPE_COMBINED_IMAGE_SAMPLER, DESCRIPTOR_TYPE_UNIFORM_BUFFER};

verus! {

/// The uniform inputs a shader can name, each with its binding slot:
/// a texture at a given binding, or a custom input with its registry
/// index, its size, its binding and the stages that read it.
#[derive(PartialEq, Eq, Structural, Copy, Clone, Debug)]
pub enum InputType {
    UI,
    Texture(u32),
    Camera,
    Lights,
    Custom(usize, usize, u32, ShaderStages),
}

impl InputType {
    /// The size in bytes of the input's uniform buffer; a custom size is
    /// cut to 32 bits.
    pub fn get_size(&self) -> (r: u32)
        ensures
            r == match *self {
                InputType::UI => 0u32,
                InputType::Texture(_) => 0u32,
                InputType::Camera => builtin::CAMERA_DATA_SIZE,
                InputType::Lights => builtin::LIGHTS_DATA_SIZE,
                InputType::Custom(_, s, _, _) => s as u32,
            },
    {
        match self {
            InputType::UI => 0,
            InputType::Texture(_) => 0,
            InputType::Camera => builtin::CAMERA_DATA_SIZE,
            InputType::Lights => builtin::LIGHTS_DATA_SIZE,
            InputType::Custom(_, s, _, _) => #[verifier::truncate] (*s as u32),
        }
    }

    /// The binding slot of the input.
    pub fn get_binding(&self) -> (r: u32)
        ensures
            r == match *self {
                InputType::UI => 0u32,
                InputType::Texture(b) => b,
                InputType::Camera => builtin::CAMERA_BINDING,
                InputType::Lights => builtin::LIGHTS_BINDING,
                InputType::Custom(_, _, l, _) => l,
            },
    {
        match self {
            InputType::UI => 0,
            InputType::Texture(b) => *b,
            InputType::Camera => builtin::CAMERA_BINDING,
            InputType::Lights => builtin::LIGHTS_BINDING,
            InputType::Custom(_, _, l, _) => *l,
        }
    }

    /// The raw descriptor type: an image sampler for textures, a uniform
    /// buffer otherwise.
    pub fn get_descriptor_type(&self) -> (r: i32)
        ensures
            r == (if *self is Texture {
                DESCRIPTOR_TYPE_COMBINED_IMAGE_SAMPLER
            } else {
                DESCRIPTOR_TYPE_UNIFORM_BUFFER
            }),
    {
        match self {
            InputType::Texture(_) => DESCRIPTOR_TYPE_COMBINED_IMAGE_SAMPLER,
            _ => DESCRIPTOR_TYPE_UNIFORM_BUFFER,
        }
    }

    /// The raw shader stage flags that read the input.
    pub fn get_stages(&self) -> (r: u32)
        ensures
            r == match *self {
                InputType::UI => 0u32,
                InputType::Texture(_) => FRAGMENT_BIT,
                InputType::Camera => 17u32,
                InputType::Lights => 17u32,
                InputType::Custom(_, _, _, s) => s.f,
            },
    {
        match self {
            InputType::UI => 0,
            InputType::Texture(_) => ShaderStages::fragment().f,
            InputType::Camera => builtin::camera_stages().f,
            InputType::Lights => builtin::lights_stages().f,
            InputType::Custom(_, _, _, s) => s.f,
        }
    }
}

} // verus!
