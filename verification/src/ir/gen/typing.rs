//! The code of a function is well formed: what an instruction reads has been
//! written before it, and its operands have the types that it works on.

use crate::ast::decl::{ArrayInitializer, FnDef, VarDecl, VarDef, VarDefInner};
use crate::ast::expr::{
    ArithBiOp, ArithExpr, ArithExprInner, ArrayExpr, BoolBiOp, BoolBiOpExpr, BoolExpr,
    BoolExprInner, BoolUnit, BoolUnitInner, ComExpr, ExprUnit, ExprUnitInner, FnCall, IndexExpr,
    LeftVal, LeftValInner, MemberExpr, RightVal, RightValInner,
};
use crate::ast::stmt::{
    AssignmentStmt, CodeBlockStmt, CodeBlockStmtInner, ForStmt, IfStmt, RangeBound,
    RangeBoundInner, ReturnStmt, VarDeclStmtInner, WhileStmt,
};
use crate::ir::function::{Env, GenState, Lowered};
use crate::ir::registry::Param;
use crate::ir::stmt::{Inst, Lbl};
use crate::ir::types::Ty;
use crate::ir::value::{Reg, Val};
use vstd::prelude::*;

verus! {

impl Inst {
    /// What the instruction writes.
    pub open spec fn result(self) -> Option<Val> {
        match self {
            Inst::Alloca { dst } => Some(dst),
            Inst::Load { dst, ptr } => Some(dst),
            Inst::Gep { new_ptr, base_ptr, index } => Some(new_ptr),
            Inst::BiOp { kind, left, right, dst } => Some(dst),
            Inst::FBiOp { float_kind, left, right, dst } => Some(dst),
            Inst::Cmp { predicate, left, right, dst } => Some(dst),
            Inst::FCmp { float_predicate, left, right, dst } => Some(dst),
            Inst::SiToFp { src, dst } => Some(dst),
            Inst::FpToSi { src, dst } => Some(dst),
            Inst::Call { func_name, res, args } => res,
            _ => None,
        }
    }

    /// Whether the instruction reads the value.
    pub open spec fn reads(self, v: Val) -> bool {
        match self {
            Inst::Load { dst, ptr } => v == ptr,
            Inst::Store { src, ptr } => v == src || v == ptr,
            Inst::Gep { new_ptr, base_ptr, index } => v == base_ptr || v == index,
            Inst::BiOp { kind, left, right, dst } => v == left || v == right,
            Inst::FBiOp { float_kind, left, right, dst } => v == left || v == right,
            Inst::Cmp { predicate, left, right, dst } => v == left || v == right,
            Inst::FCmp { float_predicate, left, right, dst } => v == left || v == right,
            Inst::SiToFp { src, dst } => v == src,
            Inst::FpToSi { src, dst } => v == src,
            Inst::Call { func_name, res, args } => args.contains(v),
            Inst::CJump { cond, true_label, false_label } => v == cond,
            Inst::Return(val) => val == Some(v),
            _ => false,
        }
    }

    /// Whether the operands have the types that the instruction works on, in a
    /// function that returns `ret`.
    ///
    /// A load gives what its pointer points to.  The one exception is the load
    /// of an index, which gives an `i32` whatever the variable is.
    pub open spec fn typed(self, env: Env, ret: Option<Ty>) -> bool {
        match self {
            Inst::Alloca { dst } => dst.ty() is Pointer,
            Inst::Load { dst, ptr } => ptr.addressable() && (dst.ty() == ptr.ty().stored()
                || dst.ty() == Ty::I32),
            Inst::Store { src, ptr } => src.ty() == ptr.ty().stored(),
            Inst::Gep { new_ptr, base_ptr, index } => new_ptr.ty() is Pointer && index.ty()
                == Ty::I32,
            Inst::BiOp { kind, left, right, dst } => left.ty() == Ty::I32 && right.ty() == Ty::I32
                && dst.ty() == Ty::I32,
            Inst::FBiOp { float_kind, left, right, dst } => left.ty() == Ty::F32 && right.ty()
                == Ty::F32 && dst.ty() == Ty::F32,
            Inst::Cmp { predicate, left, right, dst } => left.ty() == Ty::I32 && right.ty()
                == Ty::I32 && dst.ty() == Ty::I1,
            Inst::FCmp { float_predicate, left, right, dst } => left.ty() == Ty::F32 && right.ty()
                == Ty::F32 && dst.ty() == Ty::I1,
            Inst::SiToFp { src, dst } => src.ty() == Ty::I32 && dst.ty() == Ty::F32,
            Inst::FpToSi { src, dst } => src.ty() == Ty::F32 && dst.ty() == Ty::I32,
            Inst::Call { func_name, res, args } => calls_something(func_name, res, args, env),
            Inst::CJump { cond, true_label, false_label } => cond.ty() == Ty::I1,
            Inst::Return(val) => match (val, ret) {
                (Some(v), Some(ty)) => v.ty() == ty,
                _ => true,
            },
            _ => true,
        }
    }
}

/// Whether a call is one of the function `name`: its symbol is that of the
/// function, it gives what the function returns, and the arguments for which
/// there are parameters have the parameters' types.
pub open spec fn calls(
    name: Seq<char>,
    func_name: Seq<char>,
    res: Option<Val>,
    args: Seq<Val>,
    env: Env,
) -> bool {
    let sig = env.functions[name];
    &&& env.functions.contains_key(name)
    &&& func_name == if env.links.contains_key(name) {
        env.links[name]
    } else {
        name
    }
    &&& match res {
        Some(v) => v.ty() == sig.ret,
        None => sig.ret == Ty::Void,
    }
    &&& passed(args, sig.params)
}

/// Whether a call is one of some function that is declared.
pub open spec fn calls_something(
    func_name: Seq<char>,
    res: Option<Val>,
    args: Seq<Val>,
    env: Env,
) -> bool {
    exists|name: Seq<char>| calls(name, func_name, res, args, env)
}

/// Whether the arguments have the types of the parameters at their positions.
pub open spec fn passed(args: Seq<Val>, params: Seq<Param>) -> bool {
    forall|i: int|
        0 <= i < args.len() && i < params.len() ==> (#[trigger] args[i]).ty() == params[i].ty
}

/// Whether a value can be read behind the code: a constant; a global; or a
/// register that is an argument or that an instruction of the code writes.
#[verifier::opaque]
pub open spec fn available(code: Seq<Inst>, args: Seq<Reg>, env: Env, v: Val) -> bool {
    match v {
        Val::Int(_) => true,
        Val::Float(_) => true,
        Val::Global { name, ty } => env.globals.contains_key(name) && env.globals[name] == ty,
        Val::Local(reg) => args.contains(reg) || exists|i: int|
            0 <= i < code.len() && (#[trigger] code[i]).result() == Some(v),
    }
}

/// Whether every instruction is typed and reads only what can be read before
/// it.
#[verifier::opaque]
pub open spec fn well_formed(code: Seq<Inst>, args: Seq<Reg>, env: Env, ret: Option<Ty>) -> bool
    decreases code.len(),
{
    code.len() == 0 || {
        &&& well_formed(code.drop_last(), args, env, ret)
        &&& accepts(code.drop_last(), args, env, ret, code.last())
    }
}

/// Whether the instruction may stand behind the code.
pub open spec fn accepts(
    code: Seq<Inst>,
    args: Seq<Reg>,
    env: Env,
    ret: Option<Ty>,
    inst: Inst,
) -> bool {
    &&& inst.typed(env, ret)
    &&& forall|v: Val| #[trigger] inst.reads(v) ==> available(code, args, env, v)
}

broadcast proof fn lemma_available_push(
    code: Seq<Inst>,
    inst: Inst,
    args: Seq<Reg>,
    env: Env,
    v: Val,
)
    ensures
        #[trigger] available(code.push(inst), args, env, v) == (available(code, args, env, v) || (
        v is Local && inst.result() == Some(v))),
{
    reveal(available);
    let longer = code.push(inst);
    if v is Local {
        if available(code, args, env, v) && !args.contains(v->Local_0) {
            let i = choose|i: int|
                0 <= i < code.len() && (#[trigger] code[i]).result() == Some(v);
            assert(longer[i].result() == Some(v));
        }
        if inst.result() == Some(v) {
            assert(longer[code.len() as int].result() == Some(v));
        }
        if available(longer, args, env, v) && !args.contains(v->Local_0) {
            let i = choose|i: int|
                0 <= i < longer.len() && (#[trigger] longer[i]).result() == Some(v);
            if i < code.len() {
                assert(code[i].result() == Some(v));
            }
        }
    }
}

broadcast proof fn lemma_well_formed_push(
    code: Seq<Inst>,
    inst: Inst,
    args: Seq<Reg>,
    env: Env,
    ret: Option<Ty>,
)
    ensures
        #[trigger] well_formed(code.push(inst), args, env, ret) == (well_formed(
            code,
            args,
            env,
            ret,
        ) && accepts(code, args, env, ret, inst)),
{
    reveal(well_formed);
    assert(code.push(inst).drop_last() =~= code);
}

broadcast proof fn lemma_constant(code: Seq<Inst>, args: Seq<Reg>, env: Env, v: Val)
    requires
        v is Int || v is Float,
    ensures
        #[trigger] available(code, args, env, v),
{
    reveal(available);
}

broadcast group group_code {
    lemma_available_push,
    lemma_well_formed_push,
    lemma_constant,
}

impl GenState {
    /// Whether the value can be read by the next instruction.
    #[verifier::inline]
    pub open spec fn has(self, v: Val) -> bool {
        available(self.code, self.args, self.env, v)
    }

    /// Whether the code is well formed, and the address of every variable can
    /// be read.
    pub open spec fn consistent(self) -> bool {
        &&& well_formed(self.code, self.args, self.env, self.ret)
        &&& forall|name: Seq<char>| #[trigger]
            self.locals.contains_key(name) ==> self.has(Val::Local(self.locals[name]))
    }

    /// What holds between two consistent states: what can be read stays so.
    pub open spec fn leads_to(self, later: GenState) -> bool {
        &&& later.env == self.env
        &&& later.args == self.args
        &&& later.ret == self.ret
        &&& later.consistent()
        &&& forall|v: Val| self.has(v) ==> #[trigger] later.has(v)
    }

    /// The same of an outcome; its value can be read.
    pub open spec fn yields(self, out: Lowered<Val>) -> bool {
        &&& self.leads_to(out.0)
        &&& out.1 matches Ok(v) ==> out.0.has(v)
    }
}

proof fn lemma_variable(g: GenState, name: Seq<char>)
    requires
        g.consistent(),
    ensures
        g.variable(name) matches Ok(v) ==> g.has(v) && v.addressable(),
{
    reveal(available);
}

proof fn lemma_convert(g: GenState, v: Val, target: Ty)
    requires
        g.consistent(),
        g.has(v),
    ensures
        g.yields(g.convert(v, target)),
        g.convert(v, target).1 matches Ok(w) ==> w.ty() == target,
{
    broadcast use group_code;

}

proof fn lemma_then_convert(g: GenState, out: Lowered<Val>, target: Ty)
    requires
        g.yields(out),
    ensures
        g.yields(GenState::then_convert(out, target)),
        GenState::then_convert(out, target).1 matches Ok(w) ==> w.ty() == target,
{
    if let (g1, Ok(v)) = out {
        lemma_convert(g1, v, target);
    }
}

proof fn lemma_numeric_pair(g: GenState, left: Val, right: Val)
    requires
        g.consistent(),
        g.has(left),
        g.has(right),
    ensures
        g.leads_to(g.numeric_pair(left, right).0),
        g.numeric_pair(left, right).1 matches Ok((l, r, ty)) ==> {
            &&& g.numeric_pair(left, right).0.has(l)
            &&& g.numeric_pair(left, right).0.has(r)
            &&& l.ty() == ty
            &&& r.ty() == ty
            &&& ty == Ty::F32 || ty == Ty::I32
        },
{
    lemma_convert(g, left, Ty::F32);
    if let (g1, Ok(_)) = g.convert(left, Ty::F32) {
        lemma_convert(g1, right, Ty::F32);
    }
}

proof fn lemma_load_scalar(g: GenState, v: Val)
    requires
        g.consistent(),
        g.has(v),
    ensures
        g.leads_to(g.load_scalar(v).0),
        g.load_scalar(v).0.has(g.load_scalar(v).1),
{
    broadcast use group_code;

}

proof fn lemma_then_load(g: GenState, out: Lowered<Val>)
    requires
        g.yields(out),
    ensures
        g.yields(GenState::then_load(out)),
{
    if let (g1, Ok(v)) = out {
        lemma_load_scalar(g1, v);
    }
}

proof fn lemma_numeric_biop(g: GenState, op: ArithBiOp, left: Val, right: Val)
    requires
        g.consistent(),
        g.has(left),
        g.has(right),
    ensures
        g.yields(g.numeric_biop(op, left, right)),
{
    lemma_numeric_pair(g, left, right);
    broadcast use group_code;

}

proof fn lemma_arith(g: GenState, e: ArithExpr)
    requires
        g.consistent(),
    ensures
        g.yields(g.arith(e)),
    decreases e, 0nat, 0nat,
{
    match e.inner {
        ArithExprInner::ArithBiOpExpr(biop) => {
            lemma_arith(g, *biop.left);
            if let (g1, Ok(l)) = g.arith(*biop.left) {
                lemma_arith(g1, *biop.right);
                if let (g2, Ok(r)) = g1.arith(*biop.right) {
                    lemma_numeric_biop(g2, biop.op, l, r);
                }
            }
        },
        ArithExprInner::ExprUnit(unit) => {
            lemma_unit(g, *unit);
        },
    }
}

proof fn lemma_reference(g: GenState, name: Seq<char>)
    requires
        g.consistent(),
    ensures
        g.yields(g.reference(name)),
{
    lemma_variable(g, name);
    broadcast use group_code;

}

proof fn lemma_unit(g: GenState, u: ExprUnit)
    requires
        g.consistent(),
    ensures
        g.yields(g.unit(u)),
    decreases u, 0nat, 0nat,
{
    match u.inner {
        ExprUnitInner::Num(n) => {
            broadcast use group_code;
        },
        ExprUnitInner::FloatNum(bits) => {
            broadcast use group_code;
        },
        ExprUnitInner::Id(id) => {
            lemma_variable(g, id@);
            lemma_then_load(g, g.scalar_variable(id@));
        },
        ExprUnitInner::ArithExpr(e) => {
            lemma_arith(g, *e);
            lemma_then_load(g, g.arith(*e));
        },
        ExprUnitInner::FnCall(c) => {
            lemma_call(g, *c);
            if let (g1, Ok(Some(v))) = g.call(*c) {
                lemma_load_scalar(g1, v);
            }
        },
        ExprUnitInner::ArrayExpr(e) => {
            lemma_array(g, *e);
            lemma_then_load(g, g.array(*e));
        },
        ExprUnitInner::MemberExpr(e) => {
            lemma_member(g, *e);
            lemma_then_load(g, g.member(*e));
        },
        ExprUnitInner::Reference(id) => {
            lemma_reference(g, id@);
        },
        ExprUnitInner::Cast(cast) => {
            lemma_unit(g, *cast.expr);
            lemma_then_convert(g, g.unit(*cast.expr), Ty::of(cast.target_type));
            lemma_then_load(
                g,
                GenState::then_convert(g.unit(*cast.expr), Ty::of(cast.target_type)),
            );
        },
    }
}

proof fn lemma_index(g: GenState, e: IndexExpr)
    requires
        g.consistent(),
    ensures
        g.yields(g.index(e)),
        g.index(e).1 matches Ok(v) ==> v.ty() == Ty::I32,
{
    if let crate::ast::expr::IndexExprInner::Id(id) = e.inner {
        lemma_variable(g, id@);
    }
    broadcast use group_code;

}

proof fn lemma_array(g: GenState, e: ArrayExpr)
    requires
        g.consistent(),
    ensures
        g.yields(g.array(e)),
    decreases e, 0nat, 0nat,
{
    lemma_left(g, *e.arr);
    if let (g1, Ok(p)) = g.left(*e.arr) {
        let (g2, base) = g1.array_base(p);
        assert(g1.leads_to(g2) && g2.has(base)) by {
            broadcast use group_code;

        }
        lemma_index(g2.taken(), *e.idx);
        if let Some(ty) = GenState::element_pointer(base.ty()) {
            broadcast use group_code;

        }
    }
}

proof fn lemma_member(g: GenState, e: MemberExpr)
    requires
        g.consistent(),
    ensures
        g.yields(g.member(e)),
    decreases e, 0nat, 0nat,
{
    lemma_left(g, *e.struct_id);
    broadcast use group_code;

}

proof fn lemma_left(g: GenState, l: LeftVal)
    requires
        g.consistent(),
    ensures
        g.yields(g.left(l)),
        g.left(l).1 matches Ok(v) ==> v.addressable(),
    decreases l, 0nat, 0nat,
{
    match l.inner {
        LeftValInner::Id(id) => {
            lemma_variable(g, id@);
        },
        LeftValInner::ArrayExpr(e) => {
            lemma_array(g, *e);
        },
        LeftValInner::MemberExpr(e) => {
            lemma_member(g, *e);
        },
    }
}

proof fn lemma_right(g: GenState, r: RightVal)
    requires
        g.consistent(),
    ensures
        g.yields(g.right(r)),
    decreases r, 0nat, 0nat,
{
    match r.inner {
        RightValInner::ArithExpr(e) => {
            lemma_arith(g, *e);
        },
        RightValInner::BoolExpr(e) => {
            lemma_bool_value(g, *e);
        },
    }
}

proof fn lemma_pass(g: GenState, out: Lowered<Val>, params: Seq<Param>, position: int)
    requires
        g.yields(out),
        0 <= position,
    ensures
        g.yields(GenState::pass(out, params, position)),
        GenState::pass(out, params, position).1 matches Ok(v) ==> position < params.len()
            ==> v.ty() == params[position].ty,
{
    if position < params.len() {
        lemma_then_convert(g, out, params[position].ty);
    }
}

impl GenState {
    /// Whether a list of arguments fits the parameters and can be read.
    spec fn has_args(self, args: Seq<Val>, params: Seq<Param>) -> bool {
        &&& passed(args, params)
        &&& forall|i: int| 0 <= i < args.len() ==> self.has(#[trigger] args[i])
    }
}

proof fn lemma_explicit_args(g: GenState, c: FnCall, n: nat, first: Seq<Val>, params: Seq<Param>)
    requires
        g.consistent(),
        g.has_args(first, params),
    ensures
        ({
            let (g1, r) = g.explicit_args(c, n, first, params);
            &&& g.leads_to(g1)
            &&& r matches Ok(args) ==> g1.has_args(args, params) && args.len() == first.len() + n
        }),
    decreases c, 0nat, n,
{
    if 0 < n <= c.vals.len() {
        lemma_explicit_args(g, c, (n - 1) as nat, first, params);
        if let (g1, Ok(args)) = g.explicit_args(c, (n - 1) as nat, first, params) {
            lemma_right(g1, c.vals[n - 1]);
            lemma_pass(g1, g1.right(c.vals[n - 1]), params, n - 1 + first.len());
            if let (g2, Ok(v)) = GenState::pass(
                g1.right(c.vals[n - 1]),
                params,
                n - 1 + first.len(),
            ) {
                assert(g2.has_args(args.push(v), params));
            }
        }
    }
}

proof fn lemma_call_inst(g: GenState, name: Seq<char>, args: Seq<Val>)
    requires
        g.consistent(),
        g.env.functions.contains_key(name),
        g.has_args(args, g.env.functions[name].params),
    ensures
        ({
            let (g1, r) = g.call_inst(name, g.env.functions[name].ret, args);
            &&& g.leads_to(g1)
            &&& r matches Ok(Some(v)) ==> g1.has(v)
        }),
{
    broadcast use group_code;

    let sig = g.env.functions[name];
    let func_name = g.link_name(name);
    let res = if sig.ret == Ty::Void {
        None
    } else {
        Some(Val::Local(g.fresh(sig.ret)))
    };
    let inst = Inst::Call { func_name, res, args };
    assert(calls(name, func_name, res, args, g.env));
    assert(calls_something(func_name, res, args, g.env));
    assert forall|v: Val| #[trigger] inst.reads(v) implies g.has(v) by {
        let i = choose|i: int| 0 <= i < args.len() && args[i] == v;
        assert(g.has(args[i]));
    }
}

proof fn lemma_call(g: GenState, c: FnCall)
    requires
        g.consistent(),
    ensures
        g.leads_to(g.call(c).0),
        g.call(c).1 matches Ok(Some(v)) ==> g.call(c).0.has(v),
    decreases c, 1nat, 0nat,
{
    if let Some(receiver) = c.receiver {
        lemma_left(g, *receiver);
    }
    if let (g1, Ok((receiver, name))) = g.callee(c) {
        if g1.env.functions.contains_key(name) {
            let sig = g1.env.functions[name];
            if let Some(ptr) = receiver {
                lemma_pass(g1, (g1, Ok(ptr)), sig.params, 0);
            }
            if let (g2, Ok(first)) = g1.receiver_args(receiver, sig.params) {
                assert(g1.leads_to(g2) && g2.has_args(first, sig.params));
                lemma_explicit_args(g2, c, c.vals@.len(), first, sig.params);
                if let (g3, Ok(args)) = g2.explicit_args(c, c.vals@.len(), first, sig.params) {
                    lemma_call_inst(g3, name, args);
                }
            }
        }
    }
}

proof fn lemma_materialized(g: GenState, t: Lbl, f: Lbl, after: Lbl, slot: Val)
    requires
        g.consistent(),
        g.has(slot),
        slot.ty() == Ty::I32.ptr(),
    ensures
        g.leads_to(g.materialized(t, f, after, slot)),
{
    broadcast use group_code;

}

proof fn lemma_slot(g: GenState, ty: Ty)
    requires
        g.consistent(),
    ensures
        g.leads_to(g.with_slot(ty)),
        g.with_slot(ty).has(Val::Local(g.fresh(ty.ptr()))),
{
    broadcast use group_code;

}

proof fn lemma_bool_value(g: GenState, e: BoolExpr)
    requires
        g.consistent(),
    ensures
        g.yields(g.bool_value(e)),
    decreases e, 1nat, 0nat,
{
    let (t, f, after) = (g.label(0), g.label(1), g.label(2));
    let slot = Val::Local(g.fresh(Ty::I32.ptr()));
    lemma_slot(g.with_blocks(3), Ty::I32);
    let g1 = g.with_blocks(3).with_slot(Ty::I32);
    lemma_branch(g1, e, t, f);
    if let (g2, Ok(_)) = g1.branch(e, t, f) {
        lemma_materialized(g2, t, f, after, slot);
        broadcast use group_code;

    }
}

proof fn lemma_branch(g: GenState, e: BoolExpr, t: Lbl, f: Lbl)
    requires
        g.consistent(),
    ensures
        g.leads_to(g.branch(e, t, f).0),
    decreases e, 0nat, 0nat,
{
    match e.inner {
        BoolExprInner::BoolBiOpExpr(biop) => {
            lemma_bool_biop(g, *biop, t, f);
        },
        BoolExprInner::BoolUnit(unit) => {
            lemma_bool_unit(g, *unit, t, f);
        },
    }
}

proof fn lemma_bool_biop(g: GenState, e: BoolBiOpExpr, t: Lbl, f: Lbl)
    requires
        g.consistent(),
    ensures
        g.leads_to(g.bool_biop(e, t, f).0),
    decreases e, 0nat, 0nat,
{
    let undecided = g.label(0);
    let g0 = g.with_blocks(1);
    let left = match e.op {
        BoolBiOp::And => g0.branch(*e.left, undecided, f),
        BoolBiOp::Or => g0.branch(*e.left, t, undecided),
    };
    lemma_branch(g0, *e.left, undecided, f);
    lemma_branch(g0, *e.left, t, undecided);
    lemma_plain(left.0, Inst::Label(undecided));
    lemma_branch(left.0.emit(Inst::Label(undecided)), *e.right, t, f);
}

/// Labels and jumps read nothing.
proof fn lemma_plain(g: GenState, inst: Inst)
    requires
        g.consistent(),
        inst is Label || inst is Jump,
    ensures
        g.leads_to(g.emit(inst)),
{
    broadcast use group_code;

}

proof fn lemma_bool_unit(g: GenState, u: BoolUnit, t: Lbl, f: Lbl)
    requires
        g.consistent(),
    ensures
        g.leads_to(g.bool_unit(u, t, f).0),
    decreases u, 0nat, 0nat,
{
    match u.inner {
        BoolUnitInner::ComExpr(e) => {
            lemma_comparison(g, *e, t, f);
        },
        BoolUnitInner::BoolExpr(e) => {
            lemma_branch(g, *e, t, f);
        },
        BoolUnitInner::BoolUOpExpr(e) => {
            lemma_bool_unit(g, *e.cond, f, t);
        },
    }
}

proof fn lemma_comparison(g: GenState, e: ComExpr, t: Lbl, f: Lbl)
    requires
        g.consistent(),
    ensures
        g.leads_to(g.comparison(e, t, f).0),
    decreases e, 0nat, 0nat,
{
    lemma_unit(g, *e.left);
    if let (g1, Ok(l)) = g.unit(*e.left) {
        lemma_unit(g1, *e.right);
        if let (g2, Ok(r)) = g1.unit(*e.right) {
            lemma_numeric_pair(g2, l, r);
            broadcast use group_code;

        }
    }
}

proof fn lemma_store(g: GenState, src: Val, ptr: Val)
    requires
        g.consistent(),
        g.has(src),
        g.has(ptr),
        src.ty() == ptr.ty().stored(),
    ensures
        g.leads_to(g.emit(Inst::Store { src, ptr })),
{
    broadcast use group_code;

}

proof fn lemma_store_element(g: GenState, id: nat, element: Ty, base: Val, index: nat, v: Val)
    requires
        g.consistent(),
        g.has(base),
        g.has(v),
        v.ty() == element,
    ensures
        g.leads_to(
            g.store_element(Val::Local(Reg { id, ty: element.ptr() }), base, index, v).0,
        ),
{
    broadcast use group_code;

}

proof fn lemma_store_list(g: GenState, base: Val, element: Ty, list: Seq<RightVal>, n: nat)
    requires
        g.consistent(),
        g.has(base),
    ensures
        g.leads_to(g.store_list(base, element, list, n).0),
    decreases n,
{
    if n > 0 {
        lemma_store_list(g, base, element, list, (n - 1) as nat);
        if let (g1, Ok(_)) = g.store_list(base, element, list, (n - 1) as nat) {
            lemma_right(g1.taken(), list[n - 1]);
            lemma_then_convert(g1.taken(), g1.taken().right(list[n - 1]), element);
            if let (g2, Ok(v)) = GenState::then_convert(g1.taken().right(list[n - 1]), element) {
                lemma_store_element(g2, g1.vregs, element, base, (n - 1) as nat, v);
            }
        }
    }
}

proof fn lemma_store_fill(g: GenState, base: Val, element: Ty, v: Val, n: nat)
    requires
        g.consistent(),
        g.has(base),
        g.has(v),
        v.ty() == element,
    ensures
        g.leads_to(g.store_fill(base, element, v, n).0),
    decreases n,
{
    if n > 0 {
        lemma_store_fill(g, base, element, v, (n - 1) as nat);
        if let (g1, Ok(_)) = g.store_fill(base, element, v, (n - 1) as nat) {
            lemma_store_element(g1.taken(), g1.vregs, element, base, (n - 1) as nat, v);
        }
    }
}

proof fn lemma_initialize(g: GenState, base: Val, initializer: ArrayInitializer)
    requires
        g.consistent(),
        g.has(base),
    ensures
        g.leads_to(g.initialize(base, initializer).0),
{
    if let Some(element) = GenState::array_behind(base) {
        match initializer {
            ArrayInitializer::ExplicitList(list) => {
                lemma_store_list(g, base, element, list@, list@.len());
            },
            ArrayInitializer::Fill { val, count } => {
                lemma_right(g, *val);
                lemma_then_convert(g, g.right(*val), element);
                if let (g1, Ok(v)) = GenState::then_convert(g.right(*val), element) {
                    lemma_store_fill(g1, base, element, v, count as nat);
                }
            },
        }
    }
}

proof fn lemma_bind(g: GenState, name: Seq<char>, reg: Reg)
    requires
        g.consistent(),
        g.has(Val::Local(reg)),
    ensures
        g.leads_to(g.bind(name, reg).0),
{
}

proof fn lemma_declare(g: GenState, d: VarDecl)
    requires
        g.consistent(),
    ensures
        g.leads_to(g.declare(d).0),
{
    let ty = g.decl_type(d);
    lemma_slot(g, ty);
    lemma_bind(g.with_slot(ty), d.identifier@, g.fresh(ty.ptr()));
}

proof fn lemma_define(g: GenState, d: VarDef)
    requires
        g.consistent(),
    ensures
        g.leads_to(g.define(d).0),
{
    let ty = g.def_type(d);
    match d.inner {
        VarDefInner::Scalar(scalar) => {
            lemma_right(g, scalar.val);
            lemma_then_convert(g, g.right(scalar.val), ty);
            if let (g1, Ok(v)) = GenState::then_convert(g.right(scalar.val), ty) {
                let slot = g1.fresh(ty.ptr());
                lemma_slot(g1, ty);
                lemma_store(g1.with_slot(ty), v, Val::Local(slot));
                lemma_bind(
                    g1.with_slot(ty).emit(Inst::Store { src: v, ptr: Val::Local(slot) }),
                    d.identifier@,
                    slot,
                );
            }
        },
        VarDefInner::Array(array) => {
            let slot = g.fresh(ty.ptr());
            lemma_slot(g, ty);
            lemma_initialize(g.with_slot(ty), Val::Local(slot), array.initializer);
            let g1 = g.with_slot(ty).initialize(Val::Local(slot), array.initializer).0;
            lemma_bind(g1, d.identifier@, slot);
        },
    }
}

proof fn lemma_assign(g: GenState, s: AssignmentStmt)
    requires
        g.consistent(),
    ensures
        g.leads_to(g.assign(s).0),
{
    lemma_left(g, s.left_val);
    if let (g1, Ok(place)) = g.left(s.left_val) {
        lemma_right(g1, s.right_val);
        lemma_then_convert(g1, g1.right(s.right_val), place.ty().stored());
        if let (g2, Ok(v)) = GenState::then_convert(
            g1.right(s.right_val),
            place.ty().stored(),
        ) {
            lemma_store(g2, v, place);
        }
    }
}

proof fn lemma_return(g: GenState, val: Option<Val>)
    requires
        g.consistent(),
        val matches Some(v) ==> g.has(v) && (g.ret matches Some(ty) ==> v.ty() == ty),
    ensures
        g.leads_to(g.emit(Inst::Return(val))),
{
    broadcast use group_code;

}

proof fn lemma_give_back(g: GenState, s: ReturnStmt)
    requires
        g.consistent(),
    ensures
        g.leads_to(g.give_back(s).0),
{
    match s.val {
        None => {
            lemma_return(g, None);
        },
        Some(val) => {
            lemma_right(g, val);
            match g.ret {
                Some(ty) => {
                    lemma_then_convert(g, g.right(val), ty);
                    if let (g1, Ok(v)) = GenState::then_convert(g.right(val), ty) {
                        lemma_return(g1, Some(v));
                    }
                },
                None => {
                    if let (g1, Ok(v)) = g.right(val) {
                        lemma_return(g1, Some(v));
                    }
                },
            }
        },
    }
}

proof fn lemma_bound(g: GenState, b: RangeBound)
    requires
        g.consistent(),
    ensures
        g.yields(g.bound(b)),
        g.bound(b).1 matches Ok(v) ==> v.ty() == Ty::I32,
{
    match b.inner {
        RangeBoundInner::ArithExpr(e) => {
            lemma_arith(g, *e);
            lemma_then_convert(g, g.arith(*e), Ty::I32);
        },
        RangeBoundInner::FnCall(c) => {
            lemma_call(g, *c);
            if let (g1, Ok(Some(v))) = g.call(*c) {
                lemma_convert(g1, v, Ty::I32);
            }
        },
        RangeBoundInner::Num(n) => {
            broadcast use group_code;

            lemma_convert(g, Val::Int(n), Ty::I32);
        },
        RangeBoundInner::Id(id) => {
            lemma_variable(g, id@);
            lemma_then_load(g, (g, g.variable(id@)));
            lemma_then_convert(g, GenState::then_load((g, g.variable(id@))), Ty::I32);
        },
    }
}

proof fn lemma_exit(g: GenState)
    requires
        g.consistent(),
    ensures
        g.leads_to(g.exit()),
{
}

proof fn lemma_block(g: GenState, s: CodeBlockStmt, con: Option<Lbl>, bre: Option<Lbl>)
    requires
        g.consistent(),
    ensures
        g.leads_to(g.block(s, con, bre).0),
    decreases s, 0nat,
{
    match s.inner {
        CodeBlockStmtInner::Assignment(s) => {
            lemma_assign(g, *s);
        },
        CodeBlockStmtInner::VarDecl(s) => match s.inner {
            VarDeclStmtInner::Decl(d) => {
                lemma_declare(g, d);
            },
            VarDeclStmtInner::Def(d) => {
                lemma_define(g, d);
            },
        },
        CodeBlockStmtInner::Call(s) => {
            lemma_call(g, s.fn_call);
        },
        CodeBlockStmtInner::If(s) => {
            lemma_conditional(g, *s, con, bre);
        },
        CodeBlockStmtInner::While(s) => {
            lemma_while_loop(g, *s);
        },
        CodeBlockStmtInner::For(s) => {
            lemma_for_loop(g, *s);
        },
        CodeBlockStmtInner::Return(s) => {
            lemma_give_back(g, *s);
        },
        CodeBlockStmtInner::Continue(_) => {
            if let Some(target) = con {
                lemma_plain(g, Inst::Jump { target });
            }
        },
        CodeBlockStmtInner::Break(_) => {
            if let Some(target) = bre {
                lemma_plain(g, Inst::Jump { target });
            }
        },
        CodeBlockStmtInner::Null(_) => {},
    }
}

proof fn lemma_stmts(
    g: GenState,
    list: Vec<CodeBlockStmt>,
    n: nat,
    con: Option<Lbl>,
    bre: Option<Lbl>,
)
    requires
        g.consistent(),
    ensures
        g.leads_to(g.stmts(list, n, con, bre).0),
    decreases list, n,
{
    if 0 < n <= list.len() {
        lemma_stmts(g, list, (n - 1) as nat, con, bre);
        if let (g1, Ok(_)) = g.stmts(list, (n - 1) as nat, con, bre) {
            lemma_block(g1, list[n - 1], con, bre);
        }
    }
}

proof fn lemma_scoped(g: GenState, list: Vec<CodeBlockStmt>, con: Option<Lbl>, bre: Option<Lbl>)
    requires
        g.consistent(),
    ensures
        g.leads_to(g.scoped(list, con, bre).0),
    decreases list, list@.len() + 1,
{
    lemma_stmts(g.enter(), list, list@.len(), con, bre);
    lemma_exit(g.enter().stmts(list, list@.len(), con, bre).0);
}

proof fn lemma_jump_and_label(g: GenState, target: Lbl, label: Lbl)
    requires
        g.consistent(),
    ensures
        g.leads_to(g.emit(Inst::Jump { target }).emit(Inst::Label(label))),
{
    lemma_plain(g, Inst::Jump { target });
    lemma_plain(g.emit(Inst::Jump { target }), Inst::Label(label));
}

proof fn lemma_conditional(g: GenState, s: IfStmt, con: Option<Lbl>, bre: Option<Lbl>)
    requires
        g.consistent(),
    ensures
        g.leads_to(g.conditional(s, con, bre).0),
    decreases s, 0nat,
{
    let (t, f, after) = (g.label(0), g.label(1), g.label(2));
    lemma_bool_unit(g.with_blocks(3), s.bool_unit, t, f);
    if let (g1, Ok(_)) = g.with_blocks(3).bool_unit(s.bool_unit, t, f) {
        lemma_plain(g1, Inst::Label(t));
        let g2 = g1.emit(Inst::Label(t));
        lemma_scoped(g2, s.if_stmts, con, bre);
        if let (g3, Ok(_)) = g2.scoped(s.if_stmts, con, bre) {
            lemma_jump_and_label(g3, after, f);
            let g4 = g3.emit(Inst::Jump { target: after }).emit(Inst::Label(f));
            match s.else_stmts {
                Some(list) => {
                    lemma_scoped(g4, list, con, bre);
                    lemma_jump_and_label(g4.scoped(list, con, bre).0, after, after);
                },
                None => {
                    lemma_jump_and_label(g4, after, after);
                },
            }
        }
    }
}

proof fn lemma_while_loop(g: GenState, s: WhileStmt)
    requires
        g.consistent(),
    ensures
        g.leads_to(g.while_loop(s).0),
    decreases s, 0nat,
{
    let (test, body, behind) = (g.label(0), g.label(1), g.label(2));
    let g0 = g.with_blocks(3);
    lemma_jump_and_label(g0, test, test);
    let g1 = g0.emit(Inst::Jump { target: test }).emit(Inst::Label(test));
    lemma_bool_unit(g1, s.bool_unit, body, behind);
    if let (g2, Ok(_)) = g1.bool_unit(s.bool_unit, body, behind) {
        lemma_plain(g2, Inst::Label(body));
        let g3 = g2.emit(Inst::Label(body));
        lemma_scoped(g3, s.stmts, Some(test), Some(behind));
        lemma_jump_and_label(g3.scoped(s.stmts, Some(test), Some(behind)).0, test, behind);
    }
}

proof fn lemma_for_head(g: GenState, name: Seq<char>, start: Val, end: Val, test: Lbl)
    requires
        g.consistent(),
        g.has(start),
        g.has(end),
        start.ty() == Ty::I32,
        end.ty() == Ty::I32,
    ensures
        g.leads_to(g.for_head(name, start, end, test).0),
        g.for_head(name, start, end, test).1 matches Ok((iter, limit)) ==> {
            let g1 = g.for_head(name, start, end, test).0;
            &&& g1.has(iter)
            &&& g1.has(limit)
            &&& iter.ty() == Ty::I32.ptr()
            &&& limit.ty() == Ty::I32.ptr()
        },
{
    let iter = g.fresh(Ty::I32.ptr());
    lemma_slot(g.enter(), Ty::I32);
    let g1 = g.enter().with_slot(Ty::I32);
    lemma_bind(g1, name, iter);
    if let (g2, Ok(_)) = g1.bind(name, iter) {
        lemma_store(g2, start, Val::Local(iter));
        let g3 = g2.emit(Inst::Store { src: start, ptr: Val::Local(iter) });
        let limit = Val::Local(g3.fresh(Ty::I32.ptr()));
        lemma_slot(g3, Ty::I32);
        let g4 = g3.with_slot(Ty::I32);
        lemma_store(g4, end, limit);
        lemma_jump_and_label(g4.emit(Inst::Store { src: end, ptr: limit }), test, test);
    }
}

proof fn lemma_for_test(g: GenState, iter: Val, end: Val, body: Lbl, behind: Lbl)
    requires
        g.consistent(),
        g.has(iter),
        g.has(end),
        iter.ty() == Ty::I32.ptr(),
        end.ty() == Ty::I32.ptr(),
        iter.addressable(),
        end.addressable(),
    ensures
        g.leads_to(g.for_test(iter, end, body, behind)),
{
    broadcast use group_code;

}

proof fn lemma_for_step(g: GenState, iter: Val)
    requires
        g.consistent(),
        g.has(iter),
        iter.ty() == Ty::I32.ptr(),
        iter.addressable(),
    ensures
        g.leads_to(g.for_step(iter)),
{
    broadcast use group_code;

}

proof fn lemma_counted_loop(g: GenState, s: ForStmt, start: Val, end: Val)
    requires
        g.consistent(),
        g.has(start),
        g.has(end),
        start.ty() == Ty::I32,
        end.ty() == Ty::I32,
    ensures
        g.leads_to(g.counted_loop(s, start, end).0),
    decreases s, 0nat,
{
    let (test, body, step, behind) = (g.label(0), g.label(1), g.label(2), g.label(3));
    let g0 = g.with_blocks(4);
    lemma_for_head(g0, s.iterator@, start, end, test);
    if let (g1, Ok((iter, limit))) = g0.for_head(s.iterator@, start, end, test) {
        lemma_for_test(g1, iter, limit, body, behind);
        let g2 = g1.for_test(iter, limit, body, behind);
        lemma_plain(g2, Inst::Label(body));
        let g3 = g2.emit(Inst::Label(body));
        lemma_scoped(g3, s.stmts, Some(step), Some(behind));
        if let (g4, Ok(_)) = g3.scoped(s.stmts, Some(step), Some(behind)) {
            lemma_jump_and_label(g4, step, step);
            let g5 = g4.emit(Inst::Jump { target: step }).emit(Inst::Label(step));
            lemma_for_step(g5, iter);
            let g6 = g5.for_step(iter);
            lemma_jump_and_label(g6, test, behind);
            lemma_exit(g6.emit(Inst::Jump { target: test }).emit(Inst::Label(behind)));
        }
    }
}

proof fn lemma_for_loop(g: GenState, s: ForStmt)
    requires
        g.consistent(),
    ensures
        g.leads_to(g.for_loop(s).0),
    decreases s, 1nat,
{
    lemma_bound(g, s.start);
    if let (g1, Ok(start)) = g.bound(s.start) {
        lemma_bound(g1, s.end);
        if let (g2, Ok(end)) = g1.bound(s.end) {
            lemma_counted_loop(g2, s, start, end);
        }
    }
}

/// One more argument takes nothing away.
proof fn lemma_more_args(code: Seq<Inst>, args: Seq<Reg>, reg: Reg, env: Env, ret: Option<Ty>)
    requires
        well_formed(code, args, env, ret),
    ensures
        well_formed(code, args.push(reg), env, ret),
    decreases code.len(),
{
    reveal(well_formed);
    if code.len() > 0 {
        lemma_more_args(code.drop_last(), args, reg, env, ret);
        assert forall|v: Val| #[trigger] code.last().reads(v) implies available(
            code.drop_last(),
            args.push(reg),
            env,
            v,
        ) by {
            assert(available(code.drop_last(), args, env, v));
            lemma_more_available(code.drop_last(), args, reg, env, v);
        }
    }
}

proof fn lemma_more_available(code: Seq<Inst>, args: Seq<Reg>, reg: Reg, env: Env, v: Val)
    ensures
        available(code, args, env, v) ==> available(code, args.push(reg), env, v),
        available(code, args.push(reg), env, Val::Local(reg)),
{
    reveal(available);
    let more = args.push(reg);
    assert(more[args.len() as int] == reg);
    if let Val::Local(r) = v {
        if args.contains(r) {
            let i = choose|i: int| 0 <= i < args.len() && args[i] == r;
            assert(more[i] == r);
        }
    }
}

proof fn lemma_parameter(g: GenState, p: Param)
    requires
        g.consistent(),
    ensures
        g.parameter(p).0.consistent(),
        g.parameter(p).0.env == g.env,
        g.parameter(p).0.ret == g.ret,
{
    let arg = g.fresh(p.ty);
    let g1 = GenState { args: g.args.push(arg), ..g.taken() };
    lemma_more_args(g.code, g.args, arg, g.env, g.ret);
    assert forall|name: Seq<char>| #[trigger] g1.locals.contains_key(name) implies g1.has(
        Val::Local(g1.locals[name]),
    ) by {
        assert(g.locals.contains_key(name));
        lemma_more_available(g.code, g.args, arg, g.env, Val::Local(g.locals[name]));
    }
    lemma_more_available(g.code, g.args, arg, g.env, Val::Local(arg));
    assert(g1.consistent());
    let slot = g1.fresh(p.ty.ptr());
    lemma_slot(g1, p.ty);
    lemma_store(g1.with_slot(p.ty), Val::Local(arg), Val::Local(slot));
}

proof fn lemma_parameters(g: GenState, params: Seq<Param>, n: nat)
    requires
        g.consistent(),
    ensures
        g.parameters(params, n).0.consistent(),
        g.parameters(params, n).0.env == g.env,
        g.parameters(params, n).0.ret == g.ret,
    decreases n,
{
    if n > 0 {
        lemma_parameters(g, params, (n - 1) as nat);
        lemma_parameter(g.parameters(params, (n - 1) as nat).0, params[n - 1]);
    }
}

/// The code of a function is well formed, whether the lowering ended or failed:
/// every instruction has operands of the types that it works on, and reads only
/// constants, globals, arguments and what an earlier instruction wrote.
#[verifier::rlimit(40)]
pub proof fn law_well_formed(g: GenState, f: FnDef)
    requires
        g.code.len() == 0,
        g.locals == Map::<Seq<char>, Reg>::empty(),
    ensures
        ({
            let (out, _) = g.function(f);
            well_formed(out.code, out.args, out.env, out.ret)
        }),
{
    let name = f.fn_decl.identifier@;
    assert(well_formed(g.code, g.args, g.env, g.ret)) by {
        reveal(well_formed);
    }
    if g.env.functions.contains_key(name) {
        let sig = g.env.functions[name];
        let start = GenState { impl_type: g.impl_type_of(name), ret: Some(sig.ret), ..g };
        assert(start.consistent()) by {
            reveal(well_formed);
        }
        lemma_plain(start, Inst::Label(Lbl::Function(g.link_name(name))));
        let g1 = g.entered(name, sig.ret);
        lemma_parameters(g1, sig.params, sig.params.len());
        if let (g2, Ok(_)) = g1.parameters(sig.params, sig.params.len()) {
            lemma_stmts(g2, f.stmts, f.stmts@.len(), None, None);
            if let (g3, Ok(_)) = g2.stmts(f.stmts, f.stmts@.len(), None, None) {
                broadcast use group_code;

                lemma_return(g3, if sig.ret == Ty::I32 {
                    Some(Val::Int(0))
                } else if sig.ret == Ty::F32 {
                    Some(Val::Float(0))
                } else {
                    None
                });
            }
        }
    }
}

/// What [`well_formed`] says of the instruction at position `i`.
pub proof fn law_well_formed_at(
    code: Seq<Inst>,
    args: Seq<Reg>,
    env: Env,
    ret: Option<Ty>,
    i: int,
)
    requires
        well_formed(code, args, env, ret),
        0 <= i < code.len(),
    ensures
        accepts(code.take(i), args, env, ret, code[i]),
    decreases code.len(),
{
    reveal(well_formed);
    if i == code.len() - 1 {
        assert(code.take(i) =~= code.drop_last());
    } else {
        law_well_formed_at(code.drop_last(), args, env, ret, i);
        assert(code.drop_last().take(i) =~= code.take(i));
    }
}

} // verus!
