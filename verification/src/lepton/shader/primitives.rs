use vstd::prelude::*;
use crate::lepton::input::InputLevel;

verus! {

/// A set of shader stages, as the bits of `VkShaderStageFlags`.
#[derive(PartialEq, Eq, Structural, Copy, Clone, Debug)]
pub struct ShaderStages {
    pub f: u32,
}

/// The flag bit of the vertex stage.
pub const VERTEX_BIT: u32 = 0b1;

/// The flag bit of the fragment stage.
pub const FRAGMENT_BIT: u32 = 0b1_0000;

impl ShaderStages {
    /// The vertex stage.
    pub fn vertex() -> (r: ShaderStages)
        ensures
            r.f == VERTEX_BIT,
    {
        ShaderStages { f: VERTEX_BIT }
    }

    /// The fragment stage.
    pub fn fragment() -> (r: ShaderStages)
        ensures
            r.f == FRAGMENT_BIT,
    {
        ShaderStages { f: FRAGMENT_BIT }
    }

    /// The stages of both sets.
    pub fn and(self, rhs: Self) -> (r: Self)
        ensures
            r.f == self.f | rhs.f,
    {
        ShaderStages { f: self.f | rhs.f }
    }
}

/// Uniform data that a shader reads: the stages that read it and the level
/// at which it is loaded.
pub trait Data {
    /// The stages that read the data.
    fn stages() -> ShaderStages;

    /// The level at which the data is loaded.
    fn level() -> InputLevel;
}

} // verus!
