//! What is built once, when the world is made.

pub mod carving;
pub mod grid;
pub mod layout;
pub mod map;
pub mod paths;
pub mod shaping;
