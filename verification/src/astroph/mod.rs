//! Astrophysical rendering helpers: view directions for galaxy maps and
//! the sky's color bytes.

pub mod galaxy;
pub mod sky;
