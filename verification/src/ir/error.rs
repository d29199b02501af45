//! What can be wrong with a function body.

use crate::ast::expr::{ExprUnit, MemberExpr};
use crate::ir::types::{Dtype, Ty};
use vstd::prelude::*;

verus! {

/// Why a function body was rejected.
#[derive(Debug)]
pub enum Error {
    FunctionNotDefined { symbol: String },
    VariableNotDefined { symbol: String },
    VariableRedefinition { symbol: String },
    TypeMismatch { symbol: String, expected: Dtype, actual: Dtype },
    InvalidExprUnit { expr_unit: ExprUnit },
    ArrayUsedAsValue { symbol: String },
    InvalidReference { symbol: String },
    InvalidArrayExpression,
    InvalidStructMemberExpression { expr: MemberExpr },
    InvalidContinueInst,
    InvalidBreakInst,
    UnsupportedReturnType { symbol: String, dtype: Dtype },
}

/// How a lowering can end without a value: with one of the errors, or with
/// `Trap`, on input that no lowering exists for (an index beyond the width of
/// a GEP index, an initialiser for something that is no array, a call of a
/// function whose return type is not void, `i32` or `f32`).
pub enum Fault {
    FunctionNotDefined(Seq<char>),
    VariableNotDefined(Seq<char>),
    VariableRedefinition(Seq<char>),
    TypeMismatch { symbol: Seq<char>, expected: Ty, actual: Ty },
    InvalidExprUnit(ExprUnit),
    ArrayUsedAsValue(Seq<char>),
    InvalidReference(Seq<char>),
    InvalidArrayExpression,
    InvalidStructMemberExpression(MemberExpr),
    InvalidContinueInst,
    InvalidBreakInst,
    UnsupportedReturnType { symbol: Seq<char>, ty: Ty },
    Trap,
}

impl Error {
    /// Whether the error reports the fault.
    pub open spec fn reports(self, fault: Fault) -> bool {
        match (self, fault) {
            (Error::FunctionNotDefined { symbol }, Fault::FunctionNotDefined(s)) => symbol@ == s,
            (Error::VariableNotDefined { symbol }, Fault::VariableNotDefined(s)) => symbol@ == s,
            (Error::VariableRedefinition { symbol }, Fault::VariableRedefinition(s)) => symbol@
                == s,
            (
                Error::TypeMismatch { symbol, expected, actual },
                Fault::TypeMismatch { symbol: s, expected: e, actual: a },
            ) => symbol@ == s && expected@ == e && actual@ == a,
            (Error::InvalidExprUnit { expr_unit }, Fault::InvalidExprUnit(u)) => expr_unit.equals(
                u,
            ),
            (Error::ArrayUsedAsValue { symbol }, Fault::ArrayUsedAsValue(s)) => symbol@ == s,
            (Error::InvalidReference { symbol }, Fault::InvalidReference(s)) => symbol@ == s,
            (Error::InvalidArrayExpression, Fault::InvalidArrayExpression) => true,
            (
                Error::InvalidStructMemberExpression { expr },
                Fault::InvalidStructMemberExpression(e),
            ) => expr.equals(e),
            (Error::InvalidContinueInst, Fault::InvalidContinueInst) => true,
            (Error::InvalidBreakInst, Fault::InvalidBreakInst) => true,
            (
                Error::UnsupportedReturnType { symbol, dtype },
                Fault::UnsupportedReturnType { symbol: s, ty },
            ) => symbol@ == s && dtype@ == ty,
            _ => false,
        }
    }
}

/// An error reports a fault of its own kind, with the same names and types; and
/// no error reports that there is no lowering at all.
pub proof fn law_error_reports(e: Error, fault: Fault)
    requires
        e.reports(fault),
    ensures
        match e {
            Error::FunctionNotDefined { symbol } => fault matches Fault::FunctionNotDefined(s) && s
                == symbol@,
            Error::VariableNotDefined { symbol } => fault matches Fault::VariableNotDefined(s) && s
                == symbol@,
            Error::VariableRedefinition { symbol } => fault matches Fault::VariableRedefinition(s)
                && s == symbol@,
            Error::TypeMismatch { symbol, expected, actual } => fault matches Fault::TypeMismatch {
                symbol: s,
                expected: e,
                actual: a,
            } && s == symbol@ && e == expected@ && a == actual@,
            Error::InvalidExprUnit { expr_unit } => fault matches Fault::InvalidExprUnit(u)
                && expr_unit.equals(u),
            Error::ArrayUsedAsValue { symbol } => fault matches Fault::ArrayUsedAsValue(s) && s
                == symbol@,
            Error::InvalidReference { symbol } => fault matches Fault::InvalidReference(s) && s
                == symbol@,
            Error::InvalidArrayExpression => fault is InvalidArrayExpression,
            Error::InvalidStructMemberExpression {
                expr,
            } => fault matches Fault::InvalidStructMemberExpression(m) && expr.equals(m),
            Error::InvalidContinueInst => fault is InvalidContinueInst,
            Error::InvalidBreakInst => fault is InvalidBreakInst,
            Error::UnsupportedReturnType {
                symbol,
                dtype,
            } => fault matches Fault::UnsupportedReturnType { symbol: s, ty } && s == symbol@ && ty
                == dtype@,
        },
{
}

} // verus!
