//! Icosahedral terrain: map cells of triangular faces and the prism-cell
//! triangulation table.

pub mod triangulation;
pub mod triangle;
