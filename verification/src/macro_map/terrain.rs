//! Terrain sampling: noise strategies, threshold tiling and cached chunks.

pub mod noise_layers;
pub mod tiling;
pub mod terrain_chunks;
pub mod world_chunks;
