use vstd::prelude::*;

verus! {

/// The sky box shader: textured cube vertices, no uniform input.
pub struct SkyboxSignature;

} // verus!
