//! Lowering of the AST to the IR.

pub mod blocks;
pub mod bounds;
pub mod calls;
pub mod conversions;
pub mod effects;
pub mod flow;
pub mod function_gen;
pub mod growth;
pub mod meaning;
pub mod numbering;
pub mod places;
pub mod results;
pub mod scheme;
pub mod scoping;
pub mod storage;
pub mod typing;
