//! Packing cut icons back into flat atlases.

pub mod bitmask_to_precut;
pub mod error;
