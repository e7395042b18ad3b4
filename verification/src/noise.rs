//! Building blocks of the in-house noise.

pub mod perlin;
