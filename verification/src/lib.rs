//! Middle and back end of the TeaLang compiler: lowering of typed function
//! bodies to an SSA-style intermediate representation, and the AArch64 frame
//! and calling-convention layer.

pub mod assembly;
pub mod ast;
pub mod common;
pub mod ir;
