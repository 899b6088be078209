use vstd::prelude::*;
use crate::lepton::input::InputLevel;
use super::primitives::ShaderStages;

verus! {

/// Size in bytes of the camera uniform: two 4x4 `f32` matrices (view and
/// projection) and a 4-vector of `f32` (the camera's position).
pub const CAMERA_DATA_SIZE: u32 = 144;

/// Size in bytes of the lights uniform: a position and a feature 4-vector
/// of `f32` for each of the two lights, the number of lights, and padding
/// to a 16-byte boundary.
pub const LIGHTS_DATA_SIZE: u32 = 80;

/// The binding slot of the camera uniform.
pub const CAMERA_BINDING: u32 = 0;

/// The binding slot of the lights uniform.
pub const LIGHTS_BINDING: u32 = 1;

/// The stages that read the camera uniform: vertex and fragment.
pub fn camera_stages() -> (r: ShaderStages)
    ensures
        r.f == 0b1_0001,
{
    let r = ShaderStages::vertex().and(ShaderStages::fragment());
    assert(1u32 | 16u32 == 17u32) by (bit_vector);
    r
}

/// The stages that read the lights uniform: vertex and fragment.
pub fn lights_stages() -> (r: ShaderStages)
    ensures
        r.f == 0b1_0001,
{
    camera_stages()
}

/// The camera uniform is loaded with the shader.
pub fn camera_level() -> (r: InputLevel)
    ensures
        r == InputLevel::Shader,
{
    InputLevel::Shader
}

/// The lights uniform is loaded with the shader.
pub fn lights_level() -> (r: InputLevel)
    ensures
        r == InputLevel::Shader,
{
    InputLevel::Shader
}

/// Push constants for shaders that take none.
pub struct EmptyPushConstants {}

/// The textured model shader: camera, lights and a per-model texture.
pub struct ModelSignature;

/// The user interface shader: a per-model texture.
pub struct UISignature;

/// The low-poly shader: camera, lights and a per-model texture.
pub struct LPSignature;

} // verus!
