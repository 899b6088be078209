//! Identifiers of the parts whose data is compiled into the game.

pub mod enterprise;
