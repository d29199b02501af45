//! The intermediate representation and its generation.

pub mod error;
pub mod function;
pub mod gen;
pub mod module;
pub mod registry;
pub mod stmt;
pub mod types;
pub mod value;
