//! Procedural terrain: layered noise fields sampled into a two-level chunk
//! cache, a threshold classifier that names the tile at each sample, and a
//! bulk generator that fills a whole map at once.
//!
//! Every scalar that describes terrain (a world coordinate, an altitude, a
//! temperature, a threshold) is a fixed-point number: an `i64` counting
//! millionths, so that `1_000_000` stands for `1.0`. See [`scalar`].

pub mod scalar;
pub mod raster;
pub mod macro_map;
pub mod io;
pub mod noise;
