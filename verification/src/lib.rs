//! Bitmask tile-corner assembly: cutting a flat atlas of tile corners into
//! per-adjacency icon states, and packing such icon states back into an atlas.

pub mod config;
pub mod generation;
pub mod icon;
pub mod operations;
pub mod raster;
pub mod util;
