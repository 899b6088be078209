//! The static sky box.

use vstd::prelude::*;

verus! {

/// The static sky box shader.
pub struct SkyboxSignature;

} // verus!
