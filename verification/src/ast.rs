//! The abstract syntax tree of a TeaLang program.

pub mod decl;
pub mod expr;
pub mod stmt;
pub mod types;
