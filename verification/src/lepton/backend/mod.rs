//! The game loop's companions: key state tracking and frame pacing.

pub mod receiver;
pub mod fps_limiter;
