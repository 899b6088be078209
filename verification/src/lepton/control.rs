//! The game loop's key tracking, as the control loop uses it.

pub use crate::lepton::backend::receiver::KeyTracker;
