//! A lowered program: its globals and functions.

use crate::common::names::NameMap;
use crate::ir::stmt::{BlockLabel, Stmt};
use crate::ir::types::Dtype;
use crate::ir::value::Local;
use vstd::prelude::*;

verus! {

/// A global variable with its initial words.
#[derive(Debug)]
pub struct GlobalDef {
    pub dtype: Dtype,
    pub initializers: Option<Vec<i32>>,
}

/// A label and the instructions up to the next one.
#[derive(Debug)]
pub struct BasicBlock {
    pub label: BlockLabel,
    pub stmts: Vec<Stmt>,
}

#[derive(Debug)]
pub struct FunctionBody {
    pub arguments: Vec<Local>,
    pub blocks: Vec<BasicBlock>,
    /// The first register number that the body does not use.
    pub next_vreg: usize,
}

/// A function; one without a body is defined elsewhere.
#[derive(Debug)]
pub struct Function {
    pub link_name: String,
    pub body: Option<FunctionBody>,
}

#[derive(Debug)]
pub struct Module {
    pub global_list: NameMap<GlobalDef>,
    pub function_list: NameMap<Function>,
}

} // verus!
