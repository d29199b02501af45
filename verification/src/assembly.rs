//! The assembly back end.

pub mod aarch64;
pub mod common;
pub mod error;
