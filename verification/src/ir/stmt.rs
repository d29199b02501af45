//! IR statements.

use crate::ast::expr::{ArithBiOp, ComOp};
use crate::ir::value::{Operand, Val};
use vstd::prelude::*;

verus! {

/// Integer arithmetic.
#[derive(Debug, Clone, Copy, PartialEq, Eq, Structural)]
pub enum ArithBinOp {
    Add,
    Sub,
    Mul,
    SDiv,
}

/// Float arithmetic.
#[derive(Debug, Clone, Copy, PartialEq, Eq, Structural)]
pub enum FloatBinOp {
    FAdd,
    FSub,
    FMul,
    FDiv,
}

/// Signed integer comparisons.
#[derive(Debug, Clone, Copy, PartialEq, Eq, Structural)]
pub enum CmpPredicate {
    Eq,
    Ne,
    Sgt,
    Sge,
    Slt,
    Sle,
}

/// Ordered float comparisons.
#[derive(Debug, Clone, Copy, PartialEq, Eq, Structural)]
pub enum FloatCmpPredicate {
    Oeq,
    One,
    Ogt,
    Oge,
    Olt,
    Ole,
}

impl ArithBinOp {
    pub open spec fn of(op: ArithBiOp) -> ArithBinOp {
        match op {
            ArithBiOp::Add => ArithBinOp::Add,
            ArithBiOp::Sub => ArithBinOp::Sub,
            ArithBiOp::Mul => ArithBinOp::Mul,
            ArithBiOp::Div => ArithBinOp::SDiv,
        }
    }

    pub fn from_op(op: &ArithBiOp) -> (kind: ArithBinOp)
        ensures
            kind == ArithBinOp::of(*op),
    {
        match op {
            ArithBiOp::Add => ArithBinOp::Add,
            ArithBiOp::Sub => ArithBinOp::Sub,
            ArithBiOp::Mul => ArithBinOp::Mul,
            ArithBiOp::Div => ArithBinOp::SDiv,
        }
    }
}

impl FloatBinOp {
    pub open spec fn of(op: ArithBiOp) -> FloatBinOp {
        match op {
            ArithBiOp::Add => FloatBinOp::FAdd,
            ArithBiOp::Sub => FloatBinOp::FSub,
            ArithBiOp::Mul => FloatBinOp::FMul,
            ArithBiOp::Div => FloatBinOp::FDiv,
        }
    }

    pub fn from_op(op: &ArithBiOp) -> (kind: FloatBinOp)
        ensures
            kind == FloatBinOp::of(*op),
    {
        match op {
            ArithBiOp::Add => FloatBinOp::FAdd,
            ArithBiOp::Sub => FloatBinOp::FSub,
            ArithBiOp::Mul => FloatBinOp::FMul,
            ArithBiOp::Div => FloatBinOp::FDiv,
        }
    }
}

impl CmpPredicate {
    pub open spec fn of(op: ComOp) -> CmpPredicate {
        match op {
            ComOp::Lt => CmpPredicate::Slt,
            ComOp::Le => CmpPredicate::Sle,
            ComOp::Gt => CmpPredicate::Sgt,
            ComOp::Ge => CmpPredicate::Sge,
            ComOp::Eq => CmpPredicate::Eq,
            ComOp::Ne => CmpPredicate::Ne,
        }
    }

    pub fn from_op(op: &ComOp) -> (kind: CmpPredicate)
        ensures
            kind == CmpPredicate::of(*op),
    {
        match op {
            ComOp::Lt => CmpPredicate::Slt,
            ComOp::Le => CmpPredicate::Sle,
            ComOp::Gt => CmpPredicate::Sgt,
            ComOp::Ge => CmpPredicate::Sge,
            ComOp::Eq => CmpPredicate::Eq,
            ComOp::Ne => CmpPredicate::Ne,
        }
    }
}

impl FloatCmpPredicate {
    pub open spec fn of(op: ComOp) -> FloatCmpPredicate {
        match op {
            ComOp::Lt => FloatCmpPredicate::Olt,
            ComOp::Le => FloatCmpPredicate::Ole,
            ComOp::Gt => FloatCmpPredicate::Ogt,
            ComOp::Ge => FloatCmpPredicate::Oge,
            ComOp::Eq => FloatCmpPredicate::Oeq,
            ComOp::Ne => FloatCmpPredicate::One,
        }
    }

    pub fn from_op(op: &ComOp) -> (kind: FloatCmpPredicate)
        ensures
            kind == FloatCmpPredicate::of(*op),
    {
        match op {
            ComOp::Lt => FloatCmpPredicate::Olt,
            ComOp::Le => FloatCmpPredicate::Ole,
            ComOp::Gt => FloatCmpPredicate::Ogt,
            ComOp::Ge => FloatCmpPredicate::Oge,
            ComOp::Eq => FloatCmpPredicate::Oeq,
            ComOp::Ne => FloatCmpPredicate::One,
        }
    }
}

/// The label of a basic block.
#[derive(Debug)]
pub enum BlockLabel {
    /// The entry block, named after the function.
    Function(String),
    BasicBlock(usize),
}

/// The model of a [`BlockLabel`].
pub enum Lbl {
    Function(Seq<char>),
    Block(nat),
}

impl View for BlockLabel {
    type V = Lbl;

    open spec fn view(&self) -> Lbl {
        match self {
            BlockLabel::Function(name) => Lbl::Function(name@),
            BlockLabel::BasicBlock(n) => Lbl::Block(*n as nat),
        }
    }
}

impl Clone for BlockLabel {
    fn clone(&self) -> (copy: Self)
        ensures
            copy == *self,
    {
        match self {
            BlockLabel::Function(name) => BlockLabel::Function(name.clone()),
            BlockLabel::BasicBlock(n) => BlockLabel::BasicBlock(*n),
        }
    }
}

/// One instruction or label.
#[derive(Debug)]
pub enum StmtInner {
    Label(BlockLabel),
    Alloca { dst: Operand },
    Load { dst: Operand, ptr: Operand },
    Store { src: Operand, ptr: Operand },
    Gep { new_ptr: Operand, base_ptr: Operand, index: Operand },
    BiOp { kind: ArithBinOp, left: Operand, right: Operand, dst: Operand },
    FBiOp { float_kind: FloatBinOp, left: Operand, right: Operand, dst: Operand },
    Cmp { predicate: CmpPredicate, left: Operand, right: Operand, dst: Operand },
    FCmp { float_predicate: FloatCmpPredicate, left: Operand, right: Operand, dst: Operand },
    SiToFp { src: Operand, dst: Operand },
    FpToSi { src: Operand, dst: Operand },
    Call { func_name: String, res: Option<Operand>, args: Vec<Operand> },
    Jump { target: BlockLabel },
    CJump { cond: Operand, true_label: BlockLabel, false_label: BlockLabel },
    Return(Option<Operand>),
}

#[derive(Debug)]
pub struct Stmt {
    pub inner: StmtInner,
}

/// The model of a [`Stmt`].
pub enum Inst {
    Label(Lbl),
    Alloca { dst: Val },
    Load { dst: Val, ptr: Val },
    Store { src: Val, ptr: Val },
    Gep { new_ptr: Val, base_ptr: Val, index: Val },
    BiOp { kind: ArithBinOp, left: Val, right: Val, dst: Val },
    FBiOp { float_kind: FloatBinOp, left: Val, right: Val, dst: Val },
    Cmp { predicate: CmpPredicate, left: Val, right: Val, dst: Val },
    FCmp { float_predicate: FloatCmpPredicate, left: Val, right: Val, dst: Val },
    SiToFp { src: Val, dst: Val },
    FpToSi { src: Val, dst: Val },
    Call { func_name: Seq<char>, res: Option<Val>, args: Seq<Val> },
    Jump { target: Lbl },
    CJump { cond: Val, true_label: Lbl, false_label: Lbl },
    Return(Option<Val>),
}

/// The models of a list of operands.
pub open spec fn vals(operands: Seq<Operand>) -> Seq<Val> {
    operands.map_values(|o: Operand| o@)
}

pub open spec fn optional_val(operand: Option<Operand>) -> Option<Val> {
    match operand {
        Some(o) => Some(o@),
        None => None,
    }
}

impl View for Stmt {
    type V = Inst;

    open spec fn view(&self) -> Inst {
        match self.inner {
            StmtInner::Label(label) => Inst::Label(label@),
            StmtInner::Alloca { dst } => Inst::Alloca { dst: dst@ },
            StmtInner::Load { dst, ptr } => Inst::Load { dst: dst@, ptr: ptr@ },
            StmtInner::Store { src, ptr } => Inst::Store { src: src@, ptr: ptr@ },
            StmtInner::Gep { new_ptr, base_ptr, index } => Inst::Gep {
                new_ptr: new_ptr@,
                base_ptr: base_ptr@,
                index: index@,
            },
            StmtInner::BiOp { kind, left, right, dst } => Inst::BiOp {
                kind,
                left: left@,
                right: right@,
                dst: dst@,
            },
            StmtInner::FBiOp { float_kind, left, right, dst } => Inst::FBiOp {
                float_kind,
                left: left@,
                right: right@,
                dst: dst@,
            },
            StmtInner::Cmp { predicate, left, right, dst } => Inst::Cmp {
                predicate,
                left: left@,
                right: right@,
                dst: dst@,
            },
            StmtInner::FCmp { float_predicate, left, right, dst } => Inst::FCmp {
                float_predicate,
                left: left@,
                right: right@,
                dst: dst@,
            },
            StmtInner::SiToFp { src, dst } => Inst::SiToFp { src: src@, dst: dst@ },
            StmtInner::FpToSi { src, dst } => Inst::FpToSi { src: src@, dst: dst@ },
            StmtInner::Call { func_name, res, args } => Inst::Call {
                func_name: func_name@,
                res: optional_val(res),
                args: vals(args@),
            },
            StmtInner::Jump { target } => Inst::Jump { target: target@ },
            StmtInner::CJump { cond, true_label, false_label } => Inst::CJump {
                cond: cond@,
                true_label: true_label@,
                false_label: false_label@,
            },
            StmtInner::Return(val) => Inst::Return(optional_val(val)),
        }
    }
}

/// The model of a statement is the same instruction, on the models of the same
/// operands and labels.
pub proof fn law_statement_shown(s: Stmt)
    ensures
        match s.inner {
            StmtInner::Label(label) => s@ == Inst::Label(label@),
            StmtInner::Alloca { dst } => s@ == Inst::Alloca { dst: dst@ },
            StmtInner::Load { dst, ptr } => s@ == Inst::Load { dst: dst@, ptr: ptr@ },
            StmtInner::Store { src, ptr } => s@ == Inst::Store { src: src@, ptr: ptr@ },
            StmtInner::Gep { new_ptr, base_ptr, index } => s@ matches Inst::Gep {
                new_ptr: n,
                base_ptr: b,
                index: i,
            } && n == new_ptr@ && b == base_ptr@ && i == index@,
            StmtInner::BiOp { kind, left, right, dst } => s@ matches Inst::BiOp {
                kind: k,
                left: l,
                right: r,
                dst: d,
            } && k == kind && l == left@ && r == right@ && d == dst@,
            StmtInner::FBiOp { float_kind, left, right, dst } => s@ matches Inst::FBiOp {
                float_kind: k,
                left: l,
                right: r,
                dst: d,
            } && k == float_kind && l == left@ && r == right@ && d == dst@,
            StmtInner::Cmp { predicate, left, right, dst } => s@ matches Inst::Cmp {
                predicate: k,
                left: l,
                right: r,
                dst: d,
            } && k == predicate && l == left@ && r == right@ && d == dst@,
            StmtInner::FCmp { float_predicate, left, right, dst } => s@ matches Inst::FCmp {
                float_predicate: k,
                left: l,
                right: r,
                dst: d,
            } && k == float_predicate && l == left@ && r == right@ && d == dst@,
            StmtInner::SiToFp { src, dst } => s@ == Inst::SiToFp { src: src@, dst: dst@ },
            StmtInner::FpToSi { src, dst } => s@ == Inst::FpToSi { src: src@, dst: dst@ },
            StmtInner::Call { func_name, res, args } => s@ matches Inst::Call {
                func_name: f,
                res: r,
                args: a,
            } && f == func_name@ && (r is Some <==> res is Some) && (res matches Some(o) ==> r
                == Some(o@)) && a.len() == args@.len() && forall|i: int|
                0 <= i < args@.len() ==> #[trigger] a[i] == args@[i]@,
            StmtInner::Jump { target } => s@ == Inst::Jump { target: target@ },
            StmtInner::CJump { cond, true_label, false_label } => s@ matches Inst::CJump {
                cond: c,
                true_label: t,
                false_label: f,
            } && c == cond@ && t == true_label@ && f == false_label@,
            StmtInner::Return(val) => s@ matches Inst::Return(v) && (v is Some <==> val is Some) && (
            val matches Some(o) ==> v == Some(o@)),
        },
{
}

/// The model of a label tells labels apart as the labels do.
pub proof fn law_label_shown(label: BlockLabel)
    ensures
        match label {
            BlockLabel::Function(name) => label@ matches Lbl::Function(n) && n == name@,
            BlockLabel::BasicBlock(n) => label@ matches Lbl::Block(k) && k == n,
        },
{
}

/// Every operator of the language has an instruction of its own, for integers
/// and for floats, and so has every comparison.
pub proof fn law_operators_distinct(a: ArithBiOp, b: ArithBiOp, c: ComOp, d: ComOp)
    ensures
        ArithBinOp::of(a) == ArithBinOp::of(b) ==> a == b,
        FloatBinOp::of(a) == FloatBinOp::of(b) ==> a == b,
        CmpPredicate::of(c) == CmpPredicate::of(d) ==> c == d,
        FloatCmpPredicate::of(c) == FloatCmpPredicate::of(d) ==> c == d,
{
}

} // verus!
