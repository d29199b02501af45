//! Utilities that several stages share.

pub mod names;
pub mod target;
