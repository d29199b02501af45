//! Machine instructions.

use crate::assembly::aarch64::types::{Addr, BinOp, Cond, Operand, Register, RegisterSize};
use vstd::prelude::*;

verus! {

/// One instruction or label.
#[derive(Debug)]
pub enum Instruction {
    Mov { size: RegisterSize, dst: Register, src: Operand },
    Fmov { dst: Register, src: Operand },
    BinOp { op: BinOp, size: RegisterSize, dst: Register, lhs: Operand, rhs: Operand },
    FBinOp { op: BinOp, dst: Register, lhs: Operand, rhs: Operand },
    Cmp { size: RegisterSize, lhs: Operand, rhs: Operand },
    FCmp { lhs: Operand, rhs: Operand },
    Scvtf { dst: Register, src: Operand },
    Fcvtzs { dst: Register, src: Operand },
    Ldr { size: RegisterSize, dst: Register, addr: Addr },
    Str { size: RegisterSize, val: Register, addr: Addr },
    SubSp { bytes: i64 },
    AddSp { bytes: i64 },
    B { label: String },
    BCond { cond: Cond, label: String },
    Bl { symbol: String },
    Label { label: String },
    Ret,
}

impl Instruction {
    /// Whether the instruction names a float register: float arithmetic,
    /// comparisons, conversions and moves do, and so do moves, loads and stores
    /// of an `s` register.
    pub open spec fn uses_fp(self) -> bool {
        match self {
            Instruction::FBinOp { op, dst, lhs, rhs } => true,
            Instruction::FCmp { lhs, rhs } => true,
            Instruction::Scvtf { dst, src } => true,
            Instruction::Fcvtzs { dst, src } => true,
            Instruction::Fmov { dst, src } => true,
            Instruction::Mov { size, dst, src } => size == RegisterSize::S32,
            Instruction::Ldr { size, dst, addr } => size == RegisterSize::S32,
            Instruction::Str { size, val, addr } => size == RegisterSize::S32,
            _ => false,
        }
    }

    /// Whether two instructions are written the same.
    pub open spec fn same(self, other: Instruction) -> bool {
        match (self, other) {
            (Instruction::B { label: a }, Instruction::B { label: b }) => a@ == b@,
            (
                Instruction::BCond { cond: c, label: a },
                Instruction::BCond { cond: d, label: b },
            ) => c == d && a@ == b@,
            (Instruction::Bl { symbol: a }, Instruction::Bl { symbol: b }) => a@ == b@,
            (Instruction::Label { label: a }, Instruction::Label { label: b }) => a@ == b@,
            _ => self == other,
        }
    }
}

/// Whether two lists of instructions are written the same.
pub open spec fn same_insts(a: Seq<Instruction>, b: Seq<Instruction>) -> bool {
    &&& a.len() == b.len()
    &&& forall|i: int| 0 <= i < a.len() ==> (#[trigger] a[i]).same(b[i])
}

/// The instructions that use float registers are those on floats, and the moves,
/// loads and stores of a float register.
pub proof fn law_float_instructions(i: Instruction)
    ensures
        i.uses_fp() <==> {
            ||| i is FBinOp
            ||| i is FCmp
            ||| i is Scvtf
            ||| i is Fcvtzs
            ||| i is Fmov
            ||| (i matches Instruction::Mov { size, dst, src } && size == RegisterSize::S32)
            ||| (i matches Instruction::Ldr { size, dst, addr } && size == RegisterSize::S32)
            ||| (i matches Instruction::Str { size, val, addr } && size == RegisterSize::S32)
        },
{
}

} // verus!
