//! Values: virtual registers, globals and constants.

use crate::ir::types::{Dtype, Ty};
use vstd::prelude::*;

verus! {

/// The number of a virtual register.
#[derive(Debug, Clone, Copy, PartialEq, Eq, Structural)]
pub struct LocalId(pub usize);

/// A virtual register with its type.
#[derive(Debug)]
pub struct Local {
    pub dtype: Dtype,
    pub id: LocalId,
}

/// A global variable.  Its type is that of what it holds, not of its address.
#[derive(Debug)]
pub struct Global {
    pub dtype: Dtype,
    pub identifier: String,
}

/// What an instruction reads or writes.
#[derive(Debug)]
pub enum Operand {
    Int(i32),
    /// A float constant, held as the bit pattern of its `f32` value.
    Float(u32),
    Local(Local),
    Global(Global),
}

/// The model of a [`Local`].
pub struct Reg {
    pub id: nat,
    pub ty: Ty,
}

/// The model of an [`Operand`].
pub enum Val {
    Int(i32),
    Float(u32),
    Local(Reg),
    Global { name: Seq<char>, ty: Ty },
}

impl View for Local {
    type V = Reg;

    open spec fn view(&self) -> Reg {
        Reg { id: self.id.0 as nat, ty: self.dtype@ }
    }
}

impl View for Operand {
    type V = Val;

    open spec fn view(&self) -> Val {
        match self {
            Operand::Int(n) => Val::Int(*n),
            Operand::Float(bits) => Val::Float(*bits),
            Operand::Local(local) => Val::Local(local@),
            Operand::Global(g) => Val::Global { name: g.identifier@, ty: g.dtype@ },
        }
    }
}

impl Val {
    pub open spec fn ty(self) -> Ty {
        match self {
            Val::Int(_) => Ty::I32,
            Val::Float(_) => Ty::F32,
            Val::Local(reg) => reg.ty,
            Val::Global { name, ty } => ty,
        }
    }

    /// Whether the value names a storage location.
    pub open spec fn addressable(self) -> bool {
        self is Local || self is Global
    }
}

impl Clone for Local {
    fn clone(&self) -> (copy: Self)
        ensures
            copy == *self,
    {
        Local { dtype: self.dtype.clone(), id: self.id }
    }
}

impl Clone for Global {
    fn clone(&self) -> (copy: Self)
        ensures
            copy == *self,
    {
        Global { dtype: self.dtype.clone(), identifier: self.identifier.clone() }
    }
}

impl Clone for Operand {
    fn clone(&self) -> (copy: Self)
        ensures
            copy == *self,
    {
        match self {
            Operand::Int(n) => Operand::Int(*n),
            Operand::Float(bits) => Operand::Float(*bits),
            Operand::Local(local) => Operand::Local(local.clone()),
            Operand::Global(global) => Operand::Global(global.clone()),
        }
    }
}

impl From<i32> for Operand {
    fn from(n: i32) -> (operand: Self) {
        Operand::Int(n)
    }
}

impl vstd::std_specs::convert::FromSpecImpl<i32> for Operand {
    open spec fn obeys_from_spec() -> bool {
        true
    }

    open spec fn from_spec(n: i32) -> Self {
        Operand::Int(n)
    }
}

impl From<Local> for Operand {
    fn from(local: Local) -> (operand: Self) {
        Operand::Local(local)
    }
}

impl vstd::std_specs::convert::FromSpecImpl<Local> for Operand {
    open spec fn obeys_from_spec() -> bool {
        true
    }

    open spec fn from_spec(local: Local) -> Self {
        Operand::Local(local)
    }
}

impl From<&Local> for Operand {
    fn from(local: &Local) -> (operand: Self) {
        Operand::Local(local.clone())
    }
}

impl vstd::std_specs::convert::FromSpecImpl<&Local> for Operand {
    open spec fn obeys_from_spec() -> bool {
        true
    }

    open spec fn from_spec(local: &Local) -> Self {
        Operand::Local(*local)
    }
}

impl Operand {
    /// The type of the operand.
    pub fn dtype(&self) -> (dtype: Dtype)
        ensures
            dtype@ == self@.ty(),
    {
        match self {
            Operand::Int(_) => Dtype::I32,
            Operand::Float(_) => Dtype::F32,
            Operand::Local(local) => local.dtype.clone(),
            Operand::Global(global) => global.dtype.clone(),
        }
    }

    /// Whether the operand names a storage location.
    pub fn is_addressable(&self) -> (addressable: bool)
        ensures
            addressable == self@.addressable(),
    {
        match self {
            Operand::Local(_) => true,
            Operand::Global(_) => true,
            _ => false,
        }
    }
}

/// The model of an operand has its kind, its value or number or name, and its
/// type; and its type is that of the constant, register or global.
pub proof fn law_operand_shown(o: Operand)
    ensures
        match o {
            Operand::Int(n) => o@ == Val::Int(n) && o@.ty() == Ty::I32,
            Operand::Float(bits) => o@ == Val::Float(bits) && o@.ty() == Ty::F32,
            Operand::Local(local) => o@ matches Val::Local(reg) && reg.id == local.id.0 && reg.ty
                == local.dtype@ && o@.ty() == local.dtype@,
            Operand::Global(global) => o@ matches Val::Global { name, ty } && name
                == global.identifier@ && ty == global.dtype@ && o@.ty() == global.dtype@,
        },
        o@.addressable() <==> o is Local || o is Global,
{
}

} // verus!
