//! The blocks that configurations are made of.

pub mod cutters;
pub mod generators;
