//! Statement nodes.

use crate::ast::decl::{VarDecl, VarDef};
use crate::ast::expr::{ArithExpr, BoolUnit, FnCall, LeftVal, RightVal};
use crate::ast::types::Pos;
use vstd::prelude::*;

verus! {

/// `left_val = right_val;`
#[derive(Debug)]
pub struct AssignmentStmt {
    pub left_val: LeftVal,
    pub right_val: RightVal,
}

#[derive(Debug)]
pub enum VarDeclStmtInner {
    Decl(VarDecl),
    Def(VarDef),
}

#[derive(Debug)]
pub struct VarDeclStmt {
    pub inner: VarDeclStmtInner,
}

/// A call whose result is discarded.
#[derive(Debug)]
pub struct CallStmt {
    pub fn_call: FnCall,
}

#[derive(Debug)]
pub struct ReturnStmt {
    pub val: Option<RightVal>,
}

#[derive(Debug)]
pub struct ContinueStmt {}

#[derive(Debug)]
pub struct BreakStmt {}

#[derive(Debug)]
pub struct NullStmt {}

/// A list of statements.
pub type CodeBlockStmtList = Vec<CodeBlockStmt>;

#[derive(Debug)]
pub struct IfStmt {
    pub bool_unit: BoolUnit,
    pub if_stmts: CodeBlockStmtList,
    pub else_stmts: Option<CodeBlockStmtList>,
}

#[derive(Debug)]
pub struct WhileStmt {
    pub bool_unit: BoolUnit,
    pub stmts: CodeBlockStmtList,
}

#[derive(Debug)]
pub enum RangeBoundInner {
    ArithExpr(Box<ArithExpr>),
    FnCall(Box<FnCall>),
    Num(i32),
    Id(String),
}

/// One side of a range, `start..end`.
#[derive(Debug)]
pub struct RangeBound {
    pub pos: Pos,
    pub inner: RangeBoundInner,
}

/// `for iterator in start..end { stmts }`
#[derive(Debug)]
pub struct ForStmt {
    pub iterator: String,
    pub start: RangeBound,
    pub end: RangeBound,
    pub stmts: CodeBlockStmtList,
}

#[derive(Debug)]
pub enum CodeBlockStmtInner {
    Assignment(Box<AssignmentStmt>),
    VarDecl(Box<VarDeclStmt>),
    Call(Box<CallStmt>),
    If(Box<IfStmt>),
    While(Box<WhileStmt>),
    For(Box<ForStmt>),
    Return(Box<ReturnStmt>),
    Continue(ContinueStmt),
    Break(BreakStmt),
    Null(NullStmt),
}

/// One statement of a function body or block.
#[derive(Debug)]
pub struct CodeBlockStmt {
    pub inner: CodeBlockStmtInner,
}

} // verus!
