//! The solar system's sky box.

pub mod skybox;
