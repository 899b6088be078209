//! Ships and their parts: identifiers, the assets each part's data comes
//! from, the order a ship's models are drawn in, and the layout of a
//! compiled ship file.

pub mod primitives;
pub mod loader;
pub mod compiled;
pub mod layout;
pub mod models;
