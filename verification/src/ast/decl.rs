//! Variable and function declarations.

use crate::ast::expr::{RightVal, RightValList};
use crate::ast::stmt::CodeBlockStmtList;
use crate::ast::types::TypeSpecifier;
use vstd::prelude::*;

verus! {

/// The shape of a declared variable.
#[derive(Debug)]
pub enum VarDeclInner {
    Scalar,
    Array(VarDeclArray),
}

#[derive(Debug)]
pub struct VarDeclArray {
    pub len: usize,
}

/// A declaration without an initialiser.
#[derive(Debug)]
pub struct VarDecl {
    pub identifier: String,
    pub type_specifier: Option<TypeSpecifier>,
    pub inner: VarDeclInner,
}

/// How the elements of an array are initialised.
#[derive(Debug)]
pub enum ArrayInitializer {
    /// `[a, b, c]`
    ExplicitList(RightValList),
    /// `[val; count]`
    Fill { val: Box<RightVal>, count: usize },
}

#[derive(Debug)]
pub struct VarDefScalar {
    pub val: RightVal,
}

#[derive(Debug)]
pub struct VarDefArray {
    pub len: usize,
    pub initializer: ArrayInitializer,
}

#[derive(Debug)]
pub enum VarDefInner {
    Scalar(VarDefScalar),
    Array(VarDefArray),
}

/// A declaration with an initialiser.
#[derive(Debug)]
pub struct VarDef {
    pub identifier: String,
    pub type_specifier: Option<TypeSpecifier>,
    pub inner: VarDefInner,
}

/// The head of a function; its parameter and return types are resolved in
/// the type registry under the identifier.
#[derive(Debug)]
pub struct FnDecl {
    pub identifier: String,
}

#[derive(Debug)]
pub struct FnDef {
    pub fn_decl: FnDecl,
    pub stmts: CodeBlockStmtList,
}

} // verus!
