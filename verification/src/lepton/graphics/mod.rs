//! Device-side bookkeeping: per-frame buffers, queue families and the
//! decisions made while picking a device and building its resources.

pub mod primitives;
pub mod select;
pub mod resources;
