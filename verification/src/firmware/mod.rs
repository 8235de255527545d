//! The firmware's own world: three furnished rooms.
pub mod world;
