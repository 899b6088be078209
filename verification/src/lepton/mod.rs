//! The rendering and physics engine: input tracking, frame pacing, object
//! identifiers, collision bookkeeping, device selection, font atlases and
//! the shader input layout.

pub mod backend;
pub mod physics;
pub mod graphics;
pub mod shader;
pub mod input;
pub mod fonts;
pub mod ui;
pub mod control;
