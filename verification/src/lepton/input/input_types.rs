use vstd::prelude::*;
use crate::lepton::shader::primitives::{ShaderStages, Data, FRAGMENT_BIT};
use crate::lepton::shader::builtin;

verus! {

/// Raw value of `VK_DESCRIPTOR_TYPE_COMBINED_IMAGE_SAMPLER`.
pub const DESCRIPTOR_TYPE_COMBINED_IMAGE_SAMPLER: i32 = 1;

/// Raw value of `VK_DESCRIPTOR_TYPE_UNIFORM_BUFFER`.
pub const DESCRIPTOR_TYPE_UNIFORM_BUFFER: i32 = 6;

/// The level at which an input is loaded.
#[derive(PartialEq, Eq, Structural, Copy, Clone, Debug)]
pub enum InputLevel {
    /// The input is only loaded when the shader is loaded.
    Shader,
    /// The input is reloaded for every model.
    Model,
}

/// The uniform inputs a shader signature can name.
#[derive(PartialEq, Eq, Structural, Copy, Clone, Debug)]
pub enum InputType {
    UI,
    Texture { level: InputLevel },
    Camera,
    Lights,
    Custom { size: usize, shader_stages: ShaderStages, level: InputLevel },
}

/// Where a model's texture comes from.
pub enum TextureType<'a> {
    Mipmap(&'a [u8]),
    Transparency(&'a [u8]),
    Monochrome(&'a [u8]),
    Blank,
}

impl InputType {
    /// A custom uniform input holding a value of type `D`.
    pub fn make_custom<D: Data>() -> (r: InputType)
        ensures
            r matches InputType::Custom { size, shader_stages, level } && size == vstd::layout::size_of::<D>(),
    {
        InputType::Custom { size: core::mem::size_of::<D>(), shader_stages: D::stages(), level: D::level() }
    }

    /// The size in bytes of the input's uniform buffer (none for the user
    /// interface and textures); a custom size is cut to 32 bits.
    pub fn get_size(&self) -> (r: u32)
        ensures
            r == match *self {
                InputType::UI => 0u32,
                InputType::Texture { .. } => 0u32,
                InputType::Camera => builtin::CAMERA_DATA_SIZE,
                InputType::Lights => builtin::LIGHTS_DATA_SIZE,
                InputType::Custom { size, .. } => size as u32,
            },
    {
        match self {
            InputType::UI => 0,
            InputType::Texture { .. } => 0,
            InputType::Camera => builtin::CAMERA_DATA_SIZE,
            InputType::Lights => builtin::LIGHTS_DATA_SIZE,
            InputType::Custom { size, .. } => #[verifier::truncate] (*size as u32),
        }
    }

    /// The raw shader stage flags that read the input.
    pub open spec fn stages_of(self) -> u32 {
        match self {
            InputType::UI => 0u32,
            InputType::Texture { .. } => FRAGMENT_BIT,
            InputType::Camera => 17u32,
            InputType::Lights => 17u32,
            InputType::Custom { shader_stages, .. } => shader_stages.f,
        }
    }

    /// The raw shader stage flags that read the input.
    pub fn get_stages(&self) -> (r: u32)
        ensures
            r == self.stages_of(),
    {
        match self {
            InputType::UI => 0,
            InputType::Texture { .. } => FRAGMENT_BIT,
            InputType::Camera => builtin::camera_stages().f,
            InputType::Lights => builtin::lights_stages().f,
            InputType::Custom { shader_stages, .. } => shader_stages.f,
        }
    }

    /// The raw descriptor type of the input: an image sampler for textures,
    /// a uniform buffer otherwise.
    pub open spec fn descriptor_type_of(self) -> i32 {
        if self is Texture {
            DESCRIPTOR_TYPE_COMBINED_IMAGE_SAMPLER
        } else {
            DESCRIPTOR_TYPE_UNIFORM_BUFFER
        }
    }

    /// The raw descriptor type of the input: an image sampler for textures,
    /// a uniform buffer otherwise.
    pub fn get_descriptor_type(&self) -> (r: i32)
        ensures
            r == self.descriptor_type_of(),
    {
        match self {
            InputType::Texture { .. } => DESCRIPTOR_TYPE_COMBINED_IMAGE_SAMPLER,
            _ => DESCRIPTOR_TYPE_UNIFORM_BUFFER,
        }
    }

    /// The level at which the input is loaded.
    pub open spec fn level_of(self) -> InputLevel {
        match self {
            InputType::UI => InputLevel::Shader,
            InputType::Texture { level } => level,
            InputType::Camera => InputLevel::Shader,
            InputType::Lights => InputLevel::Shader,
            InputType::Custom { level, .. } => level,
        }
    }

    /// The level at which the input is loaded.
    pub fn get_level(&self) -> (r: InputLevel)
        ensures
            r == self.level_of(),
    {
        match self {
            InputType::UI => InputLevel::Shader,
            InputType::Texture { level } => *level,
            InputType::Camera => builtin::camera_level(),
            InputType::Lights => builtin::lights_level(),
            InputType::Custom { level, .. } => *level,
        }
    }
}

} // verus!
