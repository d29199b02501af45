//! The storage types of variables.

use crate::ast::decl::{VarDeclInner, VarDefInner};
use crate::ir::types::{Dtype, Ty};
use vstd::prelude::*;

verus! {

/// The storage type of a declared variable with that element or scalar type.
pub fn compose_var_decl_dtype(base: Dtype, inner: &VarDeclInner) -> (dtype: Dtype)
    ensures
        dtype@ == (match inner {
            VarDeclInner::Scalar => base@,
            VarDeclInner::Array(a) => Ty::Array(Box::new(base@), Some(a.len)),
        }),
{
    match inner {
        VarDeclInner::Scalar => base,
        VarDeclInner::Array(a) => Dtype::Array { element: Box::new(base), length: Some(a.len) },
    }
}

/// The storage type of a defined variable with that element or scalar type.
pub fn compose_var_def_dtype(base: Dtype, inner: &VarDefInner) -> (dtype: Dtype)
    ensures
        dtype@ == (match inner {
            VarDefInner::Scalar(_) => base@,
            VarDefInner::Array(a) => Ty::Array(Box::new(base@), Some(a.len)),
        }),
{
    match inner {
        VarDefInner::Scalar(_) => base,
        VarDefInner::Array(a) => Dtype::Array { element: Box::new(base), length: Some(a.len) },
    }
}

} // verus!
