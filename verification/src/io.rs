//! Rasters made from generated data, ready to be written out.

pub mod image;
