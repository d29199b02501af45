//! Registers, operands and addresses.

use crate::assembly::error::Error;
use crate::ir::types::{Dtype, Ty};
use vstd::prelude::*;

verus! {

/// The number of the frame pointer register.
pub const REG_FP: u8 = 29;

/// A register: one still to be allocated, one of the machine's, or `sp`.
#[derive(Debug, Clone, Copy, PartialEq, Eq, Structural)]
pub enum Register {
    Virtual(usize),
    Physical(u8),
    StackPointer,
}

/// The width and bank of a register: `w`, `x` or `s`.
#[derive(Debug, Clone, Copy, PartialEq, Eq, Structural)]
pub enum RegisterSize {
    W32,
    X64,
    S32,
}

impl RegisterSize {
    /// The register that holds a value of the type.
    pub open spec fn of(ty: Ty) -> Option<RegisterSize> {
        match ty {
            Ty::I1 | Ty::I32 => Some(RegisterSize::W32),
            Ty::Pointer(_) => Some(RegisterSize::X64),
            Ty::F32 => Some(RegisterSize::S32),
            _ => None,
        }
    }

    /// The register that holds a value of the type.
    pub fn try_from(dtype: &Dtype) -> (size: Result<RegisterSize, Error>)
        ensures
            match size {
                Ok(s) => RegisterSize::of(dtype@) == Some(s),
                Err(e) => RegisterSize::of(dtype@) is None && e.ty() == dtype@,
            },
    {
        match dtype {
            Dtype::I1 => Ok(RegisterSize::W32),
            Dtype::I32 => Ok(RegisterSize::W32),
            Dtype::Pointer { pointee: _ } => Ok(RegisterSize::X64),
            Dtype::F32 => Ok(RegisterSize::S32),
            _ => Err(Error::UnsupportedDtype { dtype: dtype.clone() }),
        }
    }
}

/// An operand of an instruction.
#[derive(Debug, Clone, Copy, PartialEq, Eq, Structural)]
pub enum Operand {
    Register(Register),
    Immediate(i64),
}

/// An address in memory.
#[derive(Debug, Clone, Copy, PartialEq, Eq, Structural)]
pub enum Addr {
    BaseOff { base: Register, offset: i64 },
}

impl Addr {
    /// Where the address points, given what the frame and stack pointers hold.
    pub open spec fn place(self, fp: int, sp: int) -> Option<int> {
        match self {
            Addr::BaseOff { base, offset } => match base {
                Register::StackPointer => Some(sp + offset),
                Register::Physical(n) => if n == REG_FP {
                    Some(fp + offset)
                } else {
                    None
                },
                Register::Virtual(_) => None,
            },
        }
    }
}

/// Integer and float arithmetic.
#[derive(Debug, Clone, Copy, PartialEq, Eq, Structural)]
pub enum BinOp {
    Add,
    Sub,
    Mul,
    Div,
}

/// The condition of a conditional branch.
#[derive(Debug, Clone, Copy, PartialEq, Eq, Structural)]
pub enum Cond {
    Eq,
    Ne,
    Gt,
    Ge,
    Lt,
    Le,
}

/// A truth value or an `i32` is in a 32-bit register, a pointer in a 64-bit one,
/// an `f32` in a float register, and nothing else is in a register.
pub proof fn law_register_sizes(ty: Ty)
    ensures
        match ty {
            Ty::I1 => RegisterSize::of(ty) == Some(RegisterSize::W32),
            Ty::I32 => RegisterSize::of(ty) == Some(RegisterSize::W32),
            Ty::Pointer(_) => RegisterSize::of(ty) == Some(RegisterSize::X64),
            Ty::F32 => RegisterSize::of(ty) == Some(RegisterSize::S32),
            _ => RegisterSize::of(ty) is None,
        },
{
}

/// An address is so many bytes from where its base register points.
pub proof fn law_place(offset: i64, fp: int, sp: int)
    ensures
        (Addr::BaseOff { base: Register::Physical(29), offset }).place(fp, sp) == Some(fp + offset),
        (Addr::BaseOff { base: Register::StackPointer, offset }).place(fp, sp) == Some(sp + offset),
{
}

} // verus!
