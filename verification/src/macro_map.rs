//! The world map: tile classification, noise layers and the chunk hierarchy.

pub mod tiling_strategy;
pub mod terrain;
pub mod tile;
pub mod macromap;
pub mod macro_map;
