//! Per-player fog of war over a rectangular tile grid.

pub mod types;
pub mod grid;
pub mod fov;
pub mod objects;
pub mod fow;
