//! Cutting flat atlases into icons.

pub mod bitmask_dir_visibility;
pub mod bitmask_slice;
