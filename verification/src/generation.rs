//! Generated images.

pub mod error;
