//! The translation scheme: what each node of a function body is lowered to.
//!
//! Every definition takes the state in which a node is met to the state after
//! it, and gives the value that the node's code leaves, or the fault that ends
//! the lowering.

use crate::ast::decl::{ArrayInitializer, FnDef, VarDecl, VarDeclInner, VarDef, VarDefInner};
use crate::ast::expr::{
    ArithBiOp, ArithExpr, ArithExprInner, ArrayExpr, BoolBiOp, BoolBiOpExpr, BoolExpr,
    BoolExprInner, BoolUnit, BoolUnitInner, ComExpr, ExprUnit, ExprUnitInner, FnCall, IndexExpr,
    IndexExprInner, LeftVal, LeftValInner, MemberExpr, RightVal, RightValInner,
};
use crate::ast::stmt::{
    AssignmentStmt, CodeBlockStmt, CodeBlockStmtInner, ForStmt, IfStmt, RangeBound,
    RangeBoundInner, ReturnStmt, VarDeclStmtInner, WhileStmt,
};
use crate::ast::types::TypeSpecifier;
use crate::ir::error::Fault;
use crate::ir::function::{GenState, Lowered};
use crate::ir::registry::{Field, Param};
use crate::ir::stmt::{
    ArithBinOp, CmpPredicate, FloatBinOp, FloatCmpPredicate, Inst, Lbl,
};
use crate::ir::types::Ty;
use crate::ir::value::{Reg, Val};
use vstd::prelude::*;

verus! {

// -----------------------------------------------------------------------
// Names and members
// -----------------------------------------------------------------------

/// The name of a method: the struct it belongs to, `::`, and its own name.
pub open spec fn method_path(impl_name: Seq<char>, method: Seq<char>) -> Seq<char> {
    impl_name + "::"@ + method
}

/// Whether `::` stands at position `i` of a name.
pub open spec fn separator_at(name: Seq<char>, i: int) -> bool {
    0 <= i && i + 1 < name.len() && name[i] == ':' && name[i + 1] == ':'
}

/// What stands before the last `::` of a name.
pub open spec fn path_head(name: Seq<char>) -> Option<Seq<char>> {
    if exists|i: int| separator_at(name, i) {
        let last = choose|i: int|
            separator_at(name, i) && forall|j: int| separator_at(name, j) ==> j <= i;
        Some(name.take(last))
    } else {
        None
    }
}

/// The first member of that name.
pub open spec fn member_named(fields: Seq<Field>, name: Seq<char>) -> Option<Field>
    decreases fields.len(),
{
    if fields.len() == 0 {
        None
    } else if fields[0].name == name {
        Some(fields[0])
    } else {
        member_named(fields.drop_first(), name)
    }
}

impl GenState {
    /// The struct whose method a function of that name is.
    pub open spec fn impl_type_of(self, name: Seq<char>) -> Option<Seq<char>> {
        match path_head(name) {
            Some(head) => if self.env.structs.contains_key(head) {
                Some(head)
            } else {
                None
            },
            None => None,
        }
    }

    // -------------------------------------------------------------------
    // Conversions, loads and variables
    // -------------------------------------------------------------------

    /// The value converted to the target type; only `i32` and `f32` convert
    /// into each other.
    pub open spec fn convert(self, v: Val, target: Ty) -> Lowered<Val> {
        if v.ty() == target {
            (self, Ok(v))
        } else if v.ty() == Ty::I32 && target == Ty::F32 {
            let dst = Val::Local(self.fresh(Ty::F32));
            (self.taken().emit(Inst::SiToFp { src: v, dst }), Ok(dst))
        } else if v.ty() == Ty::F32 && target == Ty::I32 {
            let dst = Val::Local(self.fresh(Ty::I32));
            (self.taken().emit(Inst::FpToSi { src: v, dst }), Ok(dst))
        } else {
            (
                self,
                Err(
                    Fault::TypeMismatch {
                        symbol: "conversion"@,
                        expected: target,
                        actual: v.ty(),
                    },
                ),
            )
        }
    }

    /// Two operands brought to a common numeric type: `f32` if one of them is
    /// `f32`, else `i32`.
    pub open spec fn numeric_pair(self, left: Val, right: Val) -> Lowered<(Val, Val, Ty)> {
        if left.ty() == Ty::F32 || right.ty() == Ty::F32 {
            match self.convert(left, Ty::F32) {
                (g, Err(fault)) => (g, Err(fault)),
                (g, Ok(l)) => match g.convert(right, Ty::F32) {
                    (g, Err(fault)) => (g, Err(fault)),
                    (g, Ok(r)) => (g, Ok((l, r, Ty::F32))),
                },
            }
        } else if left.ty() == Ty::I32 && right.ty() == Ty::I32 {
            (self, Ok((left, right, Ty::I32)))
        } else {
            (
                self,
                Err(
                    Fault::TypeMismatch {
                        symbol: "numeric expression"@,
                        expected: right.ty(),
                        actual: left.ty(),
                    },
                ),
            )
        }
    }

    /// The type that an implicit load of `v` gives, if there is one: storage of
    /// a scalar or pointer is loaded, an array or struct stays an address.
    pub open spec fn load_type(v: Val) -> Option<Ty> {
        match v.ty() {
            Ty::Pointer(pointee) => if v.addressable() && !(*pointee is Array)
                && !(*pointee is Struct) {
                Some(*pointee)
            } else {
                None
            },
            Ty::I32 => if v is Global {
                Some(Ty::I32)
            } else {
                None
            },
            Ty::F32 => if v is Global {
                Some(Ty::F32)
            } else {
                None
            },
            _ => None,
        }
    }

    /// The value behind an addressable scalar; anything else as it is.
    pub open spec fn load_scalar(self, v: Val) -> (GenState, Val) {
        match GenState::load_type(v) {
            Some(ty) => {
                let dst = Val::Local(self.fresh(ty));
                (self.taken().emit(Inst::Load { dst, ptr: v }), dst)
            },
            None => (self, v),
        }
    }

    /// An outcome with its value loaded.
    pub open spec fn then_load(out: Lowered<Val>) -> Lowered<Val> {
        match out {
            (g, Ok(v)) => {
                let (g, loaded) = g.load_scalar(v);
                (g, Ok(loaded))
            },
            (g, Err(fault)) => (g, Err(fault)),
        }
    }

    /// An outcome with its value converted.
    pub open spec fn then_convert(out: Lowered<Val>, target: Ty) -> Lowered<Val> {
        match out {
            (g, Ok(v)) => g.convert(v, target),
            (g, Err(fault)) => (g, Err(fault)),
        }
    }

    /// Reserves a stack slot for a value of type `ty`.
    pub open spec fn with_slot(self, ty: Ty) -> GenState {
        self.taken().emit(Inst::Alloca { dst: Val::Local(self.fresh(ty.ptr())) })
    }

    /// Introduces a variable.  A name that is already known is an error, and
    /// stands for the new register all the same.
    pub open spec fn bind(self, name: Seq<char>, reg: Reg) -> Lowered<()> {
        let g = GenState { locals: self.locals.insert(name, reg), ..self };
        if self.locals.contains_key(name) {
            (g, Err(Fault::VariableRedefinition(name)))
        } else {
            (g.noted(name), Ok(()))
        }
    }

    // -------------------------------------------------------------------
    // Expressions
    // -------------------------------------------------------------------

    /// Arithmetic on two operands, integer or float.
    pub open spec fn numeric_biop(self, op: ArithBiOp, left: Val, right: Val) -> Lowered<Val> {
        match self.numeric_pair(left, right) {
            (g, Err(fault)) => (g, Err(fault)),
            (g, Ok((l, r, ty))) => {
                let dst = Val::Local(g.fresh(ty));
                let inst = if ty == Ty::F32 {
                    Inst::FBiOp { float_kind: FloatBinOp::of(op), left: l, right: r, dst }
                } else {
                    Inst::BiOp { kind: ArithBinOp::of(op), left: l, right: r, dst }
                };
                (g.taken().emit(inst), Ok(dst))
            },
        }
    }

    /// `left op right`: the left operand first.
    pub open spec fn arith(self, e: ArithExpr) -> Lowered<Val>
        decreases e, 0nat, 0nat,
    {
        match e.inner {
            ArithExprInner::ArithBiOpExpr(biop) => match self.arith(*biop.left) {
                (g, Err(fault)) => (g, Err(fault)),
                (g, Ok(l)) => match g.arith(*biop.right) {
                    (g, Err(fault)) => (g, Err(fault)),
                    (g, Ok(r)) => g.numeric_biop(biop.op, l, r),
                },
            },
            ArithExprInner::ExprUnit(unit) => self.unit(*unit),
        }
    }

    /// An expression unit, loaded where it is an addressable scalar.
    pub open spec fn unit(self, u: ExprUnit) -> Lowered<Val>
        decreases u, 0nat, 0nat,
    {
        match u.inner {
            ExprUnitInner::Num(n) => (self, Ok(Val::Int(n))),
            ExprUnitInner::FloatNum(bits) => (self, Ok(Val::Float(bits))),
            ExprUnitInner::Id(id) => GenState::then_load(self.scalar_variable(id@)),
            ExprUnitInner::ArithExpr(e) => GenState::then_load(self.arith(*e)),
            ExprUnitInner::FnCall(c) => match self.call(*c) {
                (g, Err(fault)) => (g, Err(fault)),
                (g, Ok(Some(v))) => GenState::then_load((g, Ok(v))),
                (g, Ok(None)) => (g, Err(Fault::InvalidExprUnit(u))),
            },
            ExprUnitInner::ArrayExpr(e) => GenState::then_load(self.array(*e)),
            ExprUnitInner::MemberExpr(e) => GenState::then_load(self.member(*e)),
            ExprUnitInner::Reference(id) => self.reference(id@),
            ExprUnitInner::Cast(cast) => GenState::then_load(
                GenState::then_convert(self.unit(*cast.expr), Ty::of(cast.target_type)),
            ),
        }
    }

    /// A variable used as a value; an array is none.
    pub open spec fn scalar_variable(self, name: Seq<char>) -> Lowered<Val> {
        match self.variable(name) {
            Err(fault) => (self, Err(fault)),
            Ok(v) => if v.ty().element() is Some {
                (self, Err(Fault::ArrayUsedAsValue(name)))
            } else {
                (self, Ok(v))
            },
        }
    }

    /// `&name`: the address of an array's first element.
    pub open spec fn reference(self, name: Seq<char>) -> Lowered<Val> {
        match self.variable(name) {
            Err(fault) => (self, Err(fault)),
            Ok(v) => match v.ty().element() {
                None => (self, Err(Fault::InvalidReference(name))),
                Some(element) => {
                    let target = Val::Local(self.fresh(Ty::Array(Box::new(element), None).ptr()));
                    (
                        self.taken().emit(
                            Inst::Gep { new_ptr: target, base_ptr: v, index: Val::Int(0) },
                        ),
                        Ok(target),
                    )
                },
            },
        }
    }

    /// An array index: a variable's value, or a literal.
    pub open spec fn index(self, e: IndexExpr) -> Lowered<Val> {
        match e.inner {
            IndexExprInner::Id(id) => match self.variable(id@) {
                Err(fault) => (self, Err(fault)),
                Ok(v) => {
                    let dst = Val::Local(self.fresh(Ty::I32));
                    (self.taken().emit(Inst::Load { dst, ptr: v }), Ok(dst))
                },
            },
            IndexExprInner::Num(n) => GenState::index_literal(self, n as nat),
        }
    }

    /// An index as a constant, as long as it is within the width of a GEP index.
    pub open spec fn index_literal(g: GenState, n: nat) -> Lowered<Val> {
        if n <= i32::MAX {
            (g, Ok(Val::Int(n as i32)))
        } else {
            (g, Err(Fault::Trap))
        }
    }

    /// The base of an element access: a pointer behind a pointer is loaded.
    pub open spec fn array_base(self, p: Val) -> (GenState, Val) {
        if p.ty() is Pointer && p.ty().stored() is Pointer {
            let loaded = Val::Local(self.fresh(p.ty().stored()));
            (self.taken().emit(Inst::Load { dst: loaded, ptr: p }), loaded)
        } else {
            (self, p)
        }
    }

    /// The type of a pointer to an element of `base`.
    pub open spec fn element_pointer(base: Ty) -> Option<Ty> {
        match base.element() {
            Some(element) => Some(element.ptr()),
            None => if base is Pointer {
                Some(base)
            } else {
                None
            },
        }
    }

    /// `arr[idx]`: the address of the element.
    pub open spec fn array(self, e: ArrayExpr) -> Lowered<Val>
        decreases e, 0nat, 0nat,
    {
        match self.left(*e.arr) {
            (g, Err(fault)) => (g, Err(fault)),
            (g, Ok(p)) => {
                let (g, base) = g.array_base(p);
                match GenState::element_pointer(base.ty()) {
                    None => (g, Err(Fault::InvalidArrayExpression)),
                    Some(ty) => {
                        let target = Val::Local(g.fresh(ty));
                        match g.taken().index(*e.idx) {
                            (g, Err(fault)) => (g, Err(fault)),
                            (g, Ok(index)) => (
                                g.emit(Inst::Gep { new_ptr: target, base_ptr: base, index }),
                                Ok(target),
                            ),
                        }
                    },
                }
            },
        }
    }

    /// The member that `s.name` names, if `s` is a struct that has it.
    pub open spec fn member_of(self, s: Ty, name: Seq<char>) -> Option<Field> {
        match s.struct_name() {
            None => None,
            Some(type_id) => if self.env.structs.contains_key(type_id) {
                member_named(self.env.structs[type_id], name)
            } else {
                None
            },
        }
    }

    /// `s.name`: the address of the member.
    pub open spec fn member(self, e: MemberExpr) -> Lowered<Val>
        decreases e, 0nat, 0nat,
    {
        match self.left(*e.struct_id) {
            (g, Err(fault)) => (g, Err(fault)),
            (g, Ok(s)) => match g.member_of(s.ty(), e.member_id@) {
                None => (g, Err(Fault::InvalidStructMemberExpression(e))),
                Some(field) => if field.index > i32::MAX || field.ty is Void {
                    (g, Err(Fault::InvalidStructMemberExpression(e)))
                } else {
                    let target = Val::Local(g.fresh(field.ty.ptr()));
                    (
                        g.taken().emit(
                            Inst::Gep {
                                new_ptr: target,
                                base_ptr: s,
                                index: Val::Int(field.index as i32),
                            },
                        ),
                        Ok(target),
                    )
                },
            },
        }
    }

    /// A place: its address.
    pub open spec fn left(self, l: LeftVal) -> Lowered<Val>
        decreases l, 0nat, 0nat,
    {
        match l.inner {
            LeftValInner::Id(id) => (self, self.variable(id@)),
            LeftValInner::ArrayExpr(e) => self.array(*e),
            LeftValInner::MemberExpr(e) => self.member(*e),
        }
    }

    /// A right-hand-side value.
    pub open spec fn right(self, r: RightVal) -> Lowered<Val>
        decreases r, 0nat, 0nat,
    {
        match r.inner {
            RightValInner::ArithExpr(e) => self.arith(*e),
            RightValInner::BoolExpr(e) => self.bool_value(*e),
        }
    }

    // -------------------------------------------------------------------
    // Calls
    // -------------------------------------------------------------------

    /// What a call names: its receiver's address, if it has one, and the name
    /// of the function.
    pub open spec fn callee(self, c: FnCall) -> Lowered<(Option<Val>, Seq<char>)>
        decreases c, 0nat, 0nat,
    {
        match c.receiver {
            Some(receiver) => match self.left(*receiver) {
                (g, Err(fault)) => (g, Err(fault)),
                (g, Ok(ptr)) => match ptr.ty().struct_name() {
                    None => (g, Err(Fault::FunctionNotDefined(c.name@))),
                    Some(type_id) => (g, Ok((Some(ptr), method_path(type_id, c.name@)))),
                },
            },
            None => if c.module_prefix is Some && c.module_prefix->0@ == "Self"@ {
                match self.impl_type {
                    None => (self, Err(Fault::FunctionNotDefined(c.qualified()))),
                    Some(impl_name) => (self, Ok((None, method_path(impl_name, c.name@)))),
                }
            } else {
                (self, Ok((None, c.qualified())))
            },
        }
    }

    /// An argument converted to the type of the parameter at that position,
    /// if there is one.
    pub open spec fn pass(out: Lowered<Val>, params: Seq<Param>, position: int) -> Lowered<Val> {
        if 0 <= position < params.len() {
            GenState::then_convert(out, params[position].ty)
        } else {
            out
        }
    }

    /// The receiver, if there is one, as the first argument.
    pub open spec fn receiver_args(self, receiver: Option<Val>, params: Seq<Param>) -> Lowered<
        Seq<Val>,
    > {
        match receiver {
            None => (self, Ok(Seq::empty())),
            Some(ptr) => match GenState::pass((self, Ok(ptr)), params, 0) {
                (g, Err(fault)) => (g, Err(fault)),
                (g, Ok(v)) => (g, Ok(seq![v])),
            },
        }
    }

    /// The first `n` explicit arguments of a call, after those in `first`.
    pub open spec fn explicit_args(
        self,
        c: FnCall,
        n: nat,
        first: Seq<Val>,
        params: Seq<Param>,
    ) -> Lowered<Seq<Val>>
        decreases c, 0nat, n,
    {
        if n == 0 {
            (self, Ok(first))
        } else if n > c.vals.len() {
            (self, Err(Fault::Trap))
        } else {
            match self.explicit_args(c, (n - 1) as nat, first, params) {
                (g, Err(fault)) => (g, Err(fault)),
                (g, Ok(args)) => match GenState::pass(
                    g.right(c.vals[n - 1]),
                    params,
                    n - 1 + first.len(),
                ) {
                    (g, Err(fault)) => (g, Err(fault)),
                    (g, Ok(v)) => (g, Ok(args.push(v))),
                },
            }
        }
    }

    /// The call instruction, with a register for a result that is not void.
    pub open spec fn call_inst(self, name: Seq<char>, ret: Ty, args: Seq<Val>) -> Lowered<
        Option<Val>,
    > {
        let func_name = self.link_name(name);
        match ret {
            Ty::Void => (self.emit(Inst::Call { func_name, res: None, args }), Ok(None)),
            Ty::I32 | Ty::F32 => {
                let res = Some(Val::Local(self.fresh(ret)));
                (self.taken().emit(Inst::Call { func_name, res, args }), Ok(res))
            },
            _ => (self, Err(Fault::Trap)),
        }
    }

    /// A call: receiver, then arguments from left to right, then the call.
    pub open spec fn call(self, c: FnCall) -> Lowered<Option<Val>>
        decreases c, 1nat, 0nat,
    {
        match self.callee(c) {
            (g, Err(fault)) => (g, Err(fault)),
            (g, Ok((receiver, name))) => if !g.env.functions.contains_key(name) {
                (g, Err(Fault::FunctionNotDefined(name)))
            } else {
                let sig = g.env.functions[name];
                match g.receiver_args(receiver, sig.params) {
                    (g, Err(fault)) => (g, Err(fault)),
                    (g, Ok(first)) => match g.explicit_args(
                        c,
                        c.vals@.len(),
                        first,
                        sig.params,
                    ) {
                        (g, Err(fault)) => (g, Err(fault)),
                        (g, Ok(args)) => g.call_inst(name, sig.ret, args),
                    },
                }
            },
        }
    }

    // -------------------------------------------------------------------
    // Boolean expressions
    // -------------------------------------------------------------------

    /// Writes 1 into `slot` under label `t` and 0 under label `f`; both paths
    /// meet at label `after`.
    pub open spec fn materialized(self, t: Lbl, f: Lbl, after: Lbl, slot: Val) -> GenState {
        self.emit(Inst::Label(t)).emit(Inst::Store { src: Val::Int(1), ptr: slot }).emit(
            Inst::Jump { target: after },
        ).emit(Inst::Label(f)).emit(Inst::Store { src: Val::Int(0), ptr: slot }).emit(
            Inst::Jump { target: after },
        ).emit(Inst::Label(after))
    }

    /// A boolean expression as an `i32` of value 0 or 1.
    pub open spec fn bool_value(self, e: BoolExpr) -> Lowered<Val>
        decreases e, 1nat, 0nat,
    {
        let (t, f, after) = (self.label(0), self.label(1), self.label(2));
        let slot = Val::Local(self.fresh(Ty::I32.ptr()));
        match self.with_blocks(3).with_slot(Ty::I32).branch(e, t, f) {
            (g, Err(fault)) => (g, Err(fault)),
            (g, Ok(_)) => {
                let g = g.materialized(t, f, after, slot);
                let loaded = Val::Local(g.fresh(Ty::I32));
                (g.taken().emit(Inst::Load { dst: loaded, ptr: slot }), Ok(loaded))
            },
        }
    }

    /// A boolean expression as a jump to `t` or `f`.
    pub open spec fn branch(self, e: BoolExpr, t: Lbl, f: Lbl) -> Lowered<()>
        decreases e, 0nat, 0nat,
    {
        match e.inner {
            BoolExprInner::BoolBiOpExpr(biop) => self.bool_biop(*biop, t, f),
            BoolExprInner::BoolUnit(unit) => self.bool_unit(*unit, t, f),
        }
    }

    /// `&&` and `||`: the right operand is evaluated, under a label of its own,
    /// only where the left one does not decide.
    pub open spec fn bool_biop(self, e: BoolBiOpExpr, t: Lbl, f: Lbl) -> Lowered<()>
        decreases e, 0nat, 0nat,
    {
        let undecided = self.label(0);
        let left = match e.op {
            BoolBiOp::And => self.with_blocks(1).branch(*e.left, undecided, f),
            BoolBiOp::Or => self.with_blocks(1).branch(*e.left, t, undecided),
        };
        match left {
            (g, Err(fault)) => (g, Err(fault)),
            (g, Ok(_)) => g.emit(Inst::Label(undecided)).branch(*e.right, t, f),
        }
    }

    /// A comparison, a parenthesised expression, or a negation, which swaps the
    /// two labels.
    pub open spec fn bool_unit(self, u: BoolUnit, t: Lbl, f: Lbl) -> Lowered<()>
        decreases u, 0nat, 0nat,
    {
        match u.inner {
            BoolUnitInner::ComExpr(e) => self.comparison(*e, t, f),
            BoolUnitInner::BoolExpr(e) => self.branch(*e, t, f),
            BoolUnitInner::BoolUOpExpr(e) => self.bool_unit(*e.cond, f, t),
        }
    }

    /// A comparison of two loaded operands, and a jump on its result.
    pub open spec fn comparison(self, e: ComExpr, t: Lbl, f: Lbl) -> Lowered<()>
        decreases e, 0nat, 0nat,
    {
        match self.unit(*e.left) {
            (g, Err(fault)) => (g, Err(fault)),
            (g, Ok(l)) => match g.unit(*e.right) {
                (g, Err(fault)) => (g, Err(fault)),
                (g, Ok(r)) => match g.numeric_pair(l, r) {
                    (g, Err(fault)) => (g, Err(fault)),
                    (g, Ok((l, r, ty))) => {
                        let dst = Val::Local(g.fresh(Ty::I1));
                        let inst = if ty == Ty::F32 {
                            Inst::FCmp {
                                float_predicate: FloatCmpPredicate::of(e.op),
                                left: l,
                                right: r,
                                dst,
                            }
                        } else {
                            Inst::Cmp { predicate: CmpPredicate::of(e.op), left: l, right: r, dst }
                        };
                        (
                            g.taken().emit(inst).emit(
                                Inst::CJump { cond: dst, true_label: t, false_label: f },
                            ),
                            Ok(()),
                        )
                    },
                },
            },
        }
    }

    // -------------------------------------------------------------------
    // Variables
    // -------------------------------------------------------------------

    /// The element or scalar type of a variable: as annotated; for a scalar
    /// without annotation as inferred; else `i32`.
    pub open spec fn base_type(
        self,
        name: Seq<char>,
        annotation: Option<TypeSpecifier>,
        is_scalar: bool,
    ) -> Ty {
        match annotation {
            Some(t) => Ty::of(t),
            None => if is_scalar && self.env.inferred.contains_key(name) {
                self.env.inferred[name]
            } else {
                Ty::I32
            },
        }
    }

    /// The type of the storage that a declaration reserves.
    pub open spec fn decl_type(self, d: VarDecl) -> Ty {
        let base = self.base_type(
            d.identifier@,
            d.type_specifier,
            d.inner is Scalar,
        );
        match d.inner {
            VarDeclInner::Scalar => base,
            VarDeclInner::Array(a) => Ty::Array(Box::new(base), Some(a.len)),
        }
    }

    /// The type of the storage that a definition reserves.
    pub open spec fn def_type(self, d: VarDef) -> Ty {
        let base = self.base_type(d.identifier@, d.type_specifier, d.inner is Scalar);
        match d.inner {
            VarDefInner::Scalar(_) => base,
            VarDefInner::Array(a) => Ty::Array(Box::new(base), Some(a.len)),
        }
    }

    /// A declaration: a slot under the variable's name.
    pub open spec fn declare(self, d: VarDecl) -> Lowered<()> {
        let ty = self.decl_type(d);
        self.with_slot(ty).bind(d.identifier@, self.fresh(ty.ptr()))
    }

    /// A definition: the value of a scalar is computed before its slot is
    /// reserved, the elements of an array are stored into its slot; then the
    /// name is introduced.
    pub open spec fn define(self, d: VarDef) -> Lowered<()> {
        let ty = self.def_type(d);
        match d.inner {
            VarDefInner::Scalar(scalar) => match GenState::then_convert(
                self.right(scalar.val),
                ty,
            ) {
                (g, Err(fault)) => (g, Err(fault)),
                (g, Ok(v)) => {
                    let slot = g.fresh(ty.ptr());
                    g.with_slot(ty).emit(Inst::Store { src: v, ptr: Val::Local(slot) }).bind(
                        d.identifier@,
                        slot,
                    )
                },
            },
            VarDefInner::Array(array) => {
                let slot = self.fresh(ty.ptr());
                match self.with_slot(ty).initialize(Val::Local(slot), array.initializer) {
                    (g, Err(fault)) => (g, Err(fault)),
                    (g, Ok(_)) => g.bind(d.identifier@, slot),
                }
            },
        }
    }

    /// The element type of an array behind a pointer.
    pub open spec fn array_behind(base: Val) -> Option<Ty> {
        if base.ty() is Pointer {
            base.ty().element()
        } else {
            None
        }
    }

    /// Stores `v` into the element at `index`, through the pointer `target`.
    pub open spec fn store_element(self, target: Val, base: Val, index: nat, v: Val) -> Lowered<
        (),
    > {
        if index <= i32::MAX {
            (
                self.emit(
                    Inst::Gep { new_ptr: target, base_ptr: base, index: Val::Int(index as i32) },
                ).emit(Inst::Store { src: v, ptr: target }),
                Ok(()),
            )
        } else {
            (self, Err(Fault::Trap))
        }
    }

    /// Stores the first `n` values of a list into an array, in order.
    pub open spec fn store_list(
        self,
        base: Val,
        element: Ty,
        list: Seq<RightVal>,
        n: nat,
    ) -> Lowered<()>
        decreases n,
    {
        if n == 0 {
            (self, Ok(()))
        } else {
            match self.store_list(base, element, list, (n - 1) as nat) {
                (g, Err(fault)) => (g, Err(fault)),
                (g, Ok(_)) => {
                    let target = Val::Local(g.fresh(element.ptr()));
                    match GenState::then_convert(g.taken().right(list[n - 1]), element) {
                        (g, Err(fault)) => (g, Err(fault)),
                        (g, Ok(v)) => g.store_element(target, base, (n - 1) as nat, v),
                    }
                },
            }
        }
    }

    /// Stores one value into the first `n` elements of an array.
    pub open spec fn store_fill(self, base: Val, element: Ty, v: Val, n: nat) -> Lowered<()>
        decreases n,
    {
        if n == 0 {
            (self, Ok(()))
        } else {
            match self.store_fill(base, element, v, (n - 1) as nat) {
                (g, Err(fault)) => (g, Err(fault)),
                (g, Ok(_)) => g.taken().store_element(
                    Val::Local(g.fresh(element.ptr())),
                    base,
                    (n - 1) as nat,
                    v,
                ),
            }
        }
    }

    /// Stores a whole list into an array.
    pub open spec fn initialize_list(self, base: Val, list: Seq<RightVal>) -> Lowered<()> {
        match GenState::array_behind(base) {
            None => (self, Err(Fault::Trap)),
            Some(element) => self.store_list(base, element, list, list.len()),
        }
    }

    /// Initialises an array; a fill value is computed once.
    pub open spec fn initialize(self, base: Val, initializer: ArrayInitializer) -> Lowered<()> {
        match initializer {
            ArrayInitializer::ExplicitList(list) => self.initialize_list(base, list@),
            ArrayInitializer::Fill { val, count } => match GenState::array_behind(base) {
                None => (self, Err(Fault::Trap)),
                Some(element) => match GenState::then_convert(self.right(*val), element) {
                    (g, Err(fault)) => (g, Err(fault)),
                    (g, Ok(v)) => g.store_fill(base, element, v, count as nat),
                },
            },
        }
    }

    // -------------------------------------------------------------------
    // Statements
    // -------------------------------------------------------------------

    /// An assignment: place, value, conversion to the type of the place, store.
    pub open spec fn assign(self, s: AssignmentStmt) -> Lowered<()> {
        match self.left(s.left_val) {
            (g, Err(fault)) => (g, Err(fault)),
            (g, Ok(place)) => match GenState::then_convert(
                g.right(s.right_val),
                place.ty().stored(),
            ) {
                (g, Err(fault)) => (g, Err(fault)),
                (g, Ok(v)) => (g.emit(Inst::Store { src: v, ptr: place }), Ok(())),
            },
        }
    }

    /// `return`: the value converted to the function's return type.
    pub open spec fn give_back(self, s: ReturnStmt) -> Lowered<()> {
        match s.val {
            None => (self.emit(Inst::Return(None)), Ok(())),
            Some(val) => {
                let out = self.right(val);
                let out = match self.ret {
                    Some(ty) => GenState::then_convert(out, ty),
                    None => out,
                };
                match out {
                    (g, Err(fault)) => (g, Err(fault)),
                    (g, Ok(v)) => (g.emit(Inst::Return(Some(v))), Ok(())),
                }
            },
        }
    }

    /// A jump to the label of the enclosing loop, which has to exist.
    pub open spec fn loop_jump(self, target: Option<Lbl>, outside: Fault) -> Lowered<()> {
        match target {
            Some(target) => (self.emit(Inst::Jump { target }), Ok(())),
            None => (self, Err(outside)),
        }
    }

    /// One statement.  `con` and `bre` are the labels that `continue` and
    /// `break` jump to, inside a loop.
    pub open spec fn block(self, s: CodeBlockStmt, con: Option<Lbl>, bre: Option<Lbl>) -> Lowered<
        (),
    >
        decreases s, 0nat,
    {
        match s.inner {
            CodeBlockStmtInner::Assignment(s) => self.assign(*s),
            CodeBlockStmtInner::VarDecl(s) => match s.inner {
                VarDeclStmtInner::Decl(d) => self.declare(d),
                VarDeclStmtInner::Def(d) => self.define(d),
            },
            CodeBlockStmtInner::Call(s) => match self.call(s.fn_call) {
                (g, Err(fault)) => (g, Err(fault)),
                (g, Ok(_)) => (g, Ok(())),
            },
            CodeBlockStmtInner::If(s) => self.conditional(*s, con, bre),
            CodeBlockStmtInner::While(s) => self.while_loop(*s),
            CodeBlockStmtInner::For(s) => self.for_loop(*s),
            CodeBlockStmtInner::Return(s) => self.give_back(*s),
            CodeBlockStmtInner::Continue(_) => self.loop_jump(con, Fault::InvalidContinueInst),
            CodeBlockStmtInner::Break(_) => self.loop_jump(bre, Fault::InvalidBreakInst),
            CodeBlockStmtInner::Null(_) => (self, Ok(())),
        }
    }

    /// The first `n` statements of a list, in order.
    pub open spec fn stmts(
        self,
        list: Vec<CodeBlockStmt>,
        n: nat,
        con: Option<Lbl>,
        bre: Option<Lbl>,
    ) -> Lowered<()>
        decreases list, n,
    {
        if n == 0 {
            (self, Ok(()))
        } else if n > list.len() {
            (self, Err(Fault::Trap))
        } else {
            match self.stmts(list, (n - 1) as nat, con, bre) {
                (g, Err(fault)) => (g, Err(fault)),
                (g, Ok(_)) => g.block(list[n - 1], con, bre),
            }
        }
    }

    /// A list of statements in a scope of its own.
    pub open spec fn scoped(
        self,
        list: Vec<CodeBlockStmt>,
        con: Option<Lbl>,
        bre: Option<Lbl>,
    ) -> Lowered<()>
        decreases list, list@.len() + 1,
    {
        match self.enter().stmts(list, list@.len(), con, bre) {
            (g, Err(fault)) => (g, Err(fault)),
            (g, Ok(_)) => (g.exit(), Ok(())),
        }
    }

    /// `if`: both branches, each in its own scope, meet at the last label.
    pub open spec fn conditional(self, s: IfStmt, con: Option<Lbl>, bre: Option<Lbl>) -> Lowered<
        (),
    >
        decreases s, 0nat,
    {
        let (t, f, after) = (self.label(0), self.label(1), self.label(2));
        match self.with_blocks(3).bool_unit(s.bool_unit, t, f) {
            (g, Err(fault)) => (g, Err(fault)),
            (g, Ok(_)) => match g.emit(Inst::Label(t)).scoped(s.if_stmts, con, bre) {
                (g, Err(fault)) => (g, Err(fault)),
                (g, Ok(_)) => {
                    let g = g.emit(Inst::Jump { target: after }).emit(Inst::Label(f));
                    let out = match s.else_stmts {
                        Some(list) => g.scoped(list, con, bre),
                        None => (g, Ok(())),
                    };
                    match out {
                        (g, Err(fault)) => (g, Err(fault)),
                        (g, Ok(_)) => (
                            g.emit(Inst::Jump { target: after }).emit(Inst::Label(after)),
                            Ok(()),
                        ),
                    }
                },
            },
        }
    }

    /// `while`: `continue` jumps to the test, `break` behind the loop.
    pub open spec fn while_loop(self, s: WhileStmt) -> Lowered<()>
        decreases s, 0nat,
    {
        let (test, body, behind) = (self.label(0), self.label(1), self.label(2));
        match self.with_blocks(3).emit(Inst::Jump { target: test }).emit(
            Inst::Label(test),
        ).bool_unit(s.bool_unit, body, behind) {
            (g, Err(fault)) => (g, Err(fault)),
            (g, Ok(_)) => match g.emit(Inst::Label(body)).scoped(
                s.stmts,
                Some(test),
                Some(behind),
            ) {
                (g, Err(fault)) => (g, Err(fault)),
                (g, Ok(_)) => (
                    g.emit(Inst::Jump { target: test }).emit(Inst::Label(behind)),
                    Ok(()),
                ),
            },
        }
    }

    /// One side of a range, as an `i32`.
    pub open spec fn bound(self, b: RangeBound) -> Lowered<Val> {
        let out = match b.inner {
            RangeBoundInner::ArithExpr(e) => self.arith(*e),
            RangeBoundInner::FnCall(c) => match self.call(*c) {
                (g, Err(fault)) => (g, Err(fault)),
                (g, Ok(Some(v))) => (g, Ok(v)),
                (g, Ok(None)) => (
                    g,
                    Err(
                        Fault::InvalidExprUnit(
                            ExprUnit { pos: b.pos, inner: ExprUnitInner::FnCall(c) },
                        ),
                    ),
                ),
            },
            RangeBoundInner::Num(n) => (self, Ok(Val::Int(n))),
            RangeBoundInner::Id(id) => GenState::then_load((self, self.variable(id@))),
        };
        GenState::then_convert(out, Ty::I32)
    }

    /// The test of a `for` loop: is the iterator below the end?
    pub open spec fn for_test(self, iter: Val, end: Val, body: Lbl, behind: Lbl) -> GenState {
        let current = Val::Local(self.fresh(Ty::I32));
        let g = self.taken().emit(Inst::Load { dst: current, ptr: iter });
        let limit = Val::Local(g.fresh(Ty::I32));
        let g = g.taken().emit(Inst::Load { dst: limit, ptr: end });
        let cond = Val::Local(g.fresh(Ty::I1));
        g.taken().emit(
            Inst::Cmp { predicate: CmpPredicate::Slt, left: current, right: limit, dst: cond },
        ).emit(Inst::CJump { cond, true_label: body, false_label: behind })
    }

    /// The step of a `for` loop: the iterator goes up by one.
    pub open spec fn for_step(self, iter: Val) -> GenState {
        let current = Val::Local(self.fresh(Ty::I32));
        let g = self.taken().emit(Inst::Load { dst: current, ptr: iter });
        let next = Val::Local(g.fresh(Ty::I32));
        g.taken().emit(
            Inst::BiOp { kind: ArithBinOp::Add, left: current, right: Val::Int(1), dst: next },
        ).emit(Inst::Store { src: next, ptr: iter })
    }

    /// The head of a `for` loop: a scope with a slot for the iterator, which
    /// holds the start, and one for the end; then the entry into the test.
    /// Gives the two slots.
    pub open spec fn for_head(self, name: Seq<char>, start: Val, end: Val, test: Lbl) -> Lowered<
        (Val, Val),
    > {
        let iter = self.fresh(Ty::I32.ptr());
        match self.enter().with_slot(Ty::I32).bind(name, iter) {
            (g, Err(fault)) => (g, Err(fault)),
            (g, Ok(_)) => {
                let iter = Val::Local(iter);
                let g = g.emit(Inst::Store { src: start, ptr: iter });
                let limit = Val::Local(g.fresh(Ty::I32.ptr()));
                (
                    g.with_slot(Ty::I32).emit(Inst::Store { src: end, ptr: limit }).emit(
                        Inst::Jump { target: test },
                    ).emit(Inst::Label(test)),
                    Ok((iter, limit)),
                )
            },
        }
    }

    /// A loop from `start` up to `end`: `continue` jumps to the step, `break`
    /// behind the loop; the iterator lives in a scope around the body.
    pub open spec fn counted_loop(self, s: ForStmt, start: Val, end: Val) -> Lowered<()>
        decreases s, 0nat,
    {
        let (test, body, step, behind) = (
            self.label(0),
            self.label(1),
            self.label(2),
            self.label(3),
        );
        match self.with_blocks(4).for_head(s.iterator@, start, end, test) {
            (g, Err(fault)) => (g, Err(fault)),
            (g, Ok((iter, limit))) => match g.for_test(iter, limit, body, behind).emit(
                Inst::Label(body),
            ).scoped(s.stmts, Some(step), Some(behind)) {
                (g, Err(fault)) => (g, Err(fault)),
                (g, Ok(_)) => (
                    g.emit(Inst::Jump { target: step }).emit(Inst::Label(step)).for_step(
                        iter,
                    ).emit(Inst::Jump { target: test }).emit(Inst::Label(behind)).exit(),
                    Ok(()),
                ),
            },
        }
    }

    /// `for`: the bounds are computed once, before the loop.
    pub open spec fn for_loop(self, s: ForStmt) -> Lowered<()>
        decreases s, 1nat,
    {
        match self.bound(s.start) {
            (g, Err(fault)) => (g, Err(fault)),
            (g, Ok(start)) => match g.bound(s.end) {
                (g, Err(fault)) => (g, Err(fault)),
                (g, Ok(end)) => g.counted_loop(s, start, end),
            },
        }
    }

    // -------------------------------------------------------------------
    // Functions
    // -------------------------------------------------------------------

    /// Whether a parameter is a method's receiver, which is an address already.
    pub open spec fn is_receiver(p: Param) -> bool {
        p.name == "self"@ && p.ty is Pointer && p.ty.stored() is Struct
    }

    /// Takes over one argument: its register, and a slot that it is spilled to
    /// unless it is a receiver.
    pub open spec fn parameter(self, p: Param) -> Lowered<()> {
        if self.locals.contains_key(p.name) {
            (self, Err(Fault::VariableRedefinition(p.name)))
        } else {
            let arg = self.fresh(p.ty);
            let g = GenState { args: self.args.push(arg), ..self.taken() };
            if GenState::is_receiver(p) {
                (GenState { locals: g.locals.insert(p.name, arg), ..g }, Ok(()))
            } else {
                let slot = g.fresh(p.ty.ptr());
                let g = g.with_slot(p.ty).emit(
                    Inst::Store { src: Val::Local(arg), ptr: Val::Local(slot) },
                );
                (GenState { locals: g.locals.insert(p.name, slot), ..g }, Ok(()))
            }
        }
    }

    /// Takes over the first `n` arguments.
    pub open spec fn parameters(self, params: Seq<Param>, n: nat) -> Lowered<()>
        decreases n,
    {
        if n == 0 {
            (self, Ok(()))
        } else {
            match self.parameters(params, (n - 1) as nat) {
                (g, Err(fault)) => (g, Err(fault)),
                (g, Ok(_)) => g.parameter(params[n - 1]),
            }
        }
    }

    /// What a function gives back where its body does not: 0, or nothing.
    pub open spec fn default_return(name: Seq<char>, ret: Ty) -> Result<Option<Val>, Fault> {
        match ret {
            Ty::I32 => Ok(Some(Val::Int(0))),
            Ty::F32 => Ok(Some(Val::Float(0))),
            Ty::Void => Ok(None),
            _ => Err(Fault::UnsupportedReturnType { symbol: name, ty: ret }),
        }
    }

    /// Ends a body that does not end in a return with one.
    pub open spec fn returned(self, name: Seq<char>, ret: Ty) -> Lowered<()> {
        match GenState::default_return(name, ret) {
            Err(fault) => (self, Err(fault)),
            Ok(val) => if self.code.len() == 0 || self.code.last() is Return {
                (self, Ok(()))
            } else {
                (self.emit(Inst::Return(val)), Ok(()))
            },
        }
    }

    /// The entry of a function of that name and return type.
    pub open spec fn entered(self, name: Seq<char>, ret: Ty) -> GenState {
        GenState { impl_type: self.impl_type_of(name), ret: Some(ret), ..self }.emit(
            Inst::Label(Lbl::Function(self.link_name(name))),
        )
    }

    /// A function: entry label, arguments, body, return.
    pub open spec fn function(self, f: FnDef) -> Lowered<()> {
        let name = f.fn_decl.identifier@;
        if !self.env.functions.contains_key(name) {
            (
                GenState { impl_type: self.impl_type_of(name), ..self },
                Err(Fault::FunctionNotDefined(name)),
            )
        } else {
            let sig = self.env.functions[name];
            match self.entered(name, sig.ret).parameters(sig.params, sig.params.len()) {
                (g, Err(fault)) => (g, Err(fault)),
                (g, Ok(_)) => match g.stmts(f.stmts, f.stmts@.len(), None, None) {
                    (g, Err(fault)) => (g, Err(fault)),
                    (g, Ok(_)) => g.returned(name, sig.ret),
                },
            }
        }
    }
}

} // verus!
