//! The resolved configuration of the operations.

pub mod blocks;
