//! When a function can be lowered at all: how many registers and blocks its
//! lowering takes at most, and which literals it can hold.

use crate::ast::decl::{ArrayInitializer, FnDef, VarDef, VarDefInner};
use crate::ast::expr::{
    ArithExpr, ArithExprInner, ArrayExpr, BoolBiOp, BoolBiOpExpr, BoolExpr, BoolExprInner,
    BoolUnit, BoolUnitInner, ComExpr, ExprUnit, ExprUnitInner, FnCall, IndexExpr, IndexExprInner,
    LeftVal, LeftValInner, MemberExpr, RightVal, RightValInner,
};
use crate::ast::stmt::{
    AssignmentStmt, CodeBlockStmt, CodeBlockStmtInner, ForStmt, IfStmt, RangeBound,
    RangeBoundInner, ReturnStmt, VarDeclStmtInner, WhileStmt,
};
use crate::ir::error::Fault;
use crate::ir::function::{Env, FunctionGenerator, GenState, Lowered};
use crate::ir::registry::{Param, Registry};
use crate::ir::stmt::{Inst, Lbl};
use crate::ir::types::{Dtype, Ty};
use crate::ir::value::Val;
use vstd::prelude::*;

verus! {

/// The most elements that an initialiser can store.
pub const MAX_ELEMENTS: u64 = 0x8000_0000;

impl Env {
    /// Whether every function returns a type that a call has a result for.
    pub open spec fn returns_supported(self) -> bool {
        forall|name: Seq<char>| #[trigger]
            self.functions.contains_key(name) ==> {
                let ret = self.functions[name].ret;
                ret is Void || ret is I32 || ret is F32
            }
    }
}

/// What the lowering of a node takes: at most `cost` registers and as many
/// blocks.  A node with a literal that cannot be lowered has no demand.
pub enum Demand {
    Cost(nat),
    Never,
}

impl Demand {
    /// The demand of two nodes, and some more.
    pub open spec fn plus(self, other: Demand, more: nat) -> Demand {
        match (self, other) {
            (Demand::Cost(a), Demand::Cost(b)) => Demand::Cost(a + b + more),
            _ => Demand::Never,
        }
    }

    /// The demand, and some more.
    pub open spec fn and(self, more: nat) -> Demand {
        self.plus(Demand::Cost(0), more)
    }
}

pub open spec fn index_demand(e: IndexExpr) -> Demand {
    match e.inner {
        IndexExprInner::Id(_) => Demand::Cost(1),
        IndexExprInner::Num(n) => if n <= i32::MAX {
            Demand::Cost(0)
        } else {
            Demand::Never
        },
    }
}

pub open spec fn arith_demand(e: ArithExpr) -> Demand
    decreases e, 0nat, 0nat,
{
    match e.inner {
        ArithExprInner::ArithBiOpExpr(biop) => arith_demand(*biop.left).plus(
            arith_demand(*biop.right),
            3,
        ),
        ArithExprInner::ExprUnit(unit) => unit_demand(*unit),
    }
}

pub open spec fn unit_demand(u: ExprUnit) -> Demand
    decreases u, 0nat, 0nat,
{
    match u.inner {
        ExprUnitInner::ArithExpr(e) => arith_demand(*e).and(1),
        ExprUnitInner::FnCall(c) => call_demand(*c).and(1),
        ExprUnitInner::ArrayExpr(e) => array_demand(*e).and(1),
        ExprUnitInner::MemberExpr(e) => member_demand(*e).and(1),
        ExprUnitInner::Cast(cast) => unit_demand(*cast.expr).and(2),
        _ => Demand::Cost(1),
    }
}

pub open spec fn array_demand(e: ArrayExpr) -> Demand
    decreases e, 0nat, 0nat,
{
    left_demand(*e.arr).plus(index_demand(*e.idx), 2)
}

pub open spec fn member_demand(e: MemberExpr) -> Demand
    decreases e, 0nat, 0nat,
{
    left_demand(*e.struct_id).and(1)
}

pub open spec fn left_demand(l: LeftVal) -> Demand
    decreases l, 0nat, 0nat,
{
    match l.inner {
        LeftValInner::Id(_) => Demand::Cost(0),
        LeftValInner::ArrayExpr(e) => array_demand(*e),
        LeftValInner::MemberExpr(e) => member_demand(*e),
    }
}

pub open spec fn right_demand(r: RightVal) -> Demand
    decreases r, 0nat, 0nat,
{
    match r.inner {
        RightValInner::ArithExpr(e) => arith_demand(*e),
        RightValInner::BoolExpr(e) => branch_demand(*e).and(3),
    }
}

/// The demand of the first `n` arguments of a call.
pub open spec fn args_demand(c: FnCall, n: nat) -> Demand
    decreases c, 0nat, n,
{
    if n == 0 {
        Demand::Cost(0)
    } else if n > c.vals.len() {
        Demand::Never
    } else {
        args_demand(c, (n - 1) as nat).plus(right_demand(c.vals[n - 1]), 1)
    }
}

pub open spec fn call_demand(c: FnCall) -> Demand
    decreases c, 1nat, 0nat,
{
    let receiver = match c.receiver {
        Some(place) => left_demand(*place),
        None => Demand::Cost(0),
    };
    receiver.plus(args_demand(c, c.vals@.len()), 2)
}

pub open spec fn branch_demand(e: BoolExpr) -> Demand
    decreases e, 0nat, 0nat,
{
    match e.inner {
        BoolExprInner::BoolBiOpExpr(biop) => biop_demand(*biop),
        BoolExprInner::BoolUnit(unit) => bool_unit_demand(*unit),
    }
}

pub open spec fn biop_demand(e: BoolBiOpExpr) -> Demand
    decreases e, 0nat, 0nat,
{
    branch_demand(*e.left).plus(branch_demand(*e.right), 1)
}

pub open spec fn bool_unit_demand(u: BoolUnit) -> Demand
    decreases u, 0nat, 0nat,
{
    match u.inner {
        BoolUnitInner::ComExpr(e) => comparison_demand(*e),
        BoolUnitInner::BoolExpr(e) => branch_demand(*e),
        BoolUnitInner::BoolUOpExpr(e) => bool_unit_demand(*e.cond),
    }
}

pub open spec fn comparison_demand(e: ComExpr) -> Demand
    decreases e, 0nat, 0nat,
{
    unit_demand(*e.left).plus(unit_demand(*e.right), 3)
}

/// The demand of the first `n` values of an initialiser.
pub open spec fn list_demand(list: Seq<RightVal>, n: nat) -> Demand
    decreases n,
{
    if n == 0 {
        Demand::Cost(0)
    } else if n > MAX_ELEMENTS {
        Demand::Never
    } else {
        list_demand(list, (n - 1) as nat).plus(right_demand(list[n - 1]), 2)
    }
}

pub open spec fn initializer_demand(initializer: ArrayInitializer) -> Demand {
    match initializer {
        ArrayInitializer::ExplicitList(list) => list_demand(list@, list@.len()),
        ArrayInitializer::Fill { val, count } => if count <= MAX_ELEMENTS {
            right_demand(*val).and(count as nat + 1)
        } else {
            Demand::Never
        },
    }
}

pub open spec fn define_demand(d: VarDef) -> Demand {
    match d.inner {
        VarDefInner::Scalar(scalar) => right_demand(scalar.val).and(2),
        VarDefInner::Array(array) => initializer_demand(array.initializer).and(1),
    }
}

pub open spec fn bound_demand(b: RangeBound) -> Demand {
    match b.inner {
        RangeBoundInner::ArithExpr(e) => arith_demand(*e).and(1),
        RangeBoundInner::FnCall(c) => call_demand(*c).and(1),
        RangeBoundInner::Num(_) => Demand::Cost(0),
        RangeBoundInner::Id(_) => Demand::Cost(2),
    }
}

pub open spec fn block_demand(s: CodeBlockStmt) -> Demand
    decreases s, 0nat,
{
    match s.inner {
        CodeBlockStmtInner::Assignment(s) => left_demand(s.left_val).plus(
            right_demand(s.right_val),
            1,
        ),
        CodeBlockStmtInner::VarDecl(s) => match s.inner {
            VarDeclStmtInner::Decl(_) => Demand::Cost(1),
            VarDeclStmtInner::Def(d) => define_demand(d),
        },
        CodeBlockStmtInner::Call(s) => call_demand(s.fn_call),
        CodeBlockStmtInner::If(s) => if_demand(*s),
        CodeBlockStmtInner::While(s) => while_demand(*s),
        CodeBlockStmtInner::For(s) => for_demand(*s),
        CodeBlockStmtInner::Return(s) => match s.val {
            Some(val) => right_demand(val).and(1),
            None => Demand::Cost(0),
        },
        _ => Demand::Cost(0),
    }
}

/// The demand of the first `n` statements of a list.
pub open spec fn stmts_demand(list: Vec<CodeBlockStmt>, n: nat) -> Demand
    decreases list, n,
{
    if n == 0 {
        Demand::Cost(0)
    } else if n > list.len() {
        Demand::Never
    } else {
        stmts_demand(list, (n - 1) as nat).plus(block_demand(list[n - 1]), 0)
    }
}

pub open spec fn if_demand(s: IfStmt) -> Demand
    decreases s, 0nat,
{
    let then = stmts_demand(s.if_stmts, s.if_stmts@.len());
    let otherwise = match s.else_stmts {
        Some(list) => stmts_demand(list, list@.len()),
        None => Demand::Cost(0),
    };
    bool_unit_demand(s.bool_unit).plus(then, 3).plus(otherwise, 0)
}

pub open spec fn while_demand(s: WhileStmt) -> Demand
    decreases s, 0nat,
{
    bool_unit_demand(s.bool_unit).plus(stmts_demand(s.stmts, s.stmts@.len()), 3)
}

pub open spec fn for_demand(s: ForStmt) -> Demand
    decreases s, 0nat,
{
    bound_demand(s.start).plus(bound_demand(s.end), 0).plus(
        stmts_demand(s.stmts, s.stmts@.len()),
        7,
    )
}

/// The demand of a function with so many parameters.
pub open spec fn function_demand(f: FnDef, params: nat) -> Demand {
    stmts_demand(f.stmts, f.stmts@.len()).and(2 * params)
}

impl GenState {
    /// Whether an outcome is not a trap, and takes no more than the demand.
    pub open spec fn within<T>(self, out: Lowered<T>, demand: Demand) -> bool {
        match demand {
            Demand::Cost(cost) => {
                &&& !(out.1 matches Err(Fault::Trap))
                &&& out.0.vregs <= self.vregs + cost
                &&& out.0.blocks <= self.blocks + cost
            },
            Demand::Never => true,
        }
    }
}

proof fn lemma_arith(g: GenState, e: ArithExpr)
    requires
        g.env.returns_supported(),
    ensures
        g.within(g.arith(e), arith_demand(e)),
    decreases e, 0nat, 0nat,
{
    match e.inner {
        ArithExprInner::ArithBiOpExpr(biop) => {
            lemma_arith(g, *biop.left);
            crate::ir::gen::growth::lemma_arith(g, *biop.left);
            if let (g1, Ok(_)) = g.arith(*biop.left) {
                lemma_arith(g1, *biop.right);
            }
        },
        ArithExprInner::ExprUnit(unit) => {
            lemma_unit(g, *unit);
        },
    }
}

proof fn lemma_unit(g: GenState, u: ExprUnit)
    requires
        g.env.returns_supported(),
    ensures
        g.within(g.unit(u), unit_demand(u)),
    decreases u, 0nat, 0nat,
{
    match u.inner {
        ExprUnitInner::ArithExpr(e) => {
            lemma_arith(g, *e);
        },
        ExprUnitInner::FnCall(c) => {
            lemma_call(g, *c);
        },
        ExprUnitInner::ArrayExpr(e) => {
            lemma_array(g, *e);
        },
        ExprUnitInner::MemberExpr(e) => {
            lemma_member(g, *e);
        },
        ExprUnitInner::Cast(cast) => {
            lemma_unit(g, *cast.expr);
        },
        _ => {},
    }
}

proof fn lemma_array(g: GenState, e: ArrayExpr)
    requires
        g.env.returns_supported(),
    ensures
        g.within(g.array(e), array_demand(e)),
    decreases e, 0nat, 0nat,
{
    lemma_left(g, *e.arr);
}

proof fn lemma_member(g: GenState, e: MemberExpr)
    requires
        g.env.returns_supported(),
    ensures
        g.within(g.member(e), member_demand(e)),
    decreases e, 0nat, 0nat,
{
    lemma_left(g, *e.struct_id);
}

proof fn lemma_left(g: GenState, l: LeftVal)
    requires
        g.env.returns_supported(),
    ensures
        g.within(g.left(l), left_demand(l)),
    decreases l, 0nat, 0nat,
{
    match l.inner {
        LeftValInner::Id(_) => {},
        LeftValInner::ArrayExpr(e) => {
            lemma_array(g, *e);
        },
        LeftValInner::MemberExpr(e) => {
            lemma_member(g, *e);
        },
    }
}

proof fn lemma_right(g: GenState, r: RightVal)
    requires
        g.env.returns_supported(),
    ensures
        g.within(g.right(r), right_demand(r)),
    decreases r, 0nat, 0nat,
{
    match r.inner {
        RightValInner::ArithExpr(e) => {
            lemma_arith(g, *e);
        },
        RightValInner::BoolExpr(e) => {
            lemma_branch(g.with_blocks(3).with_slot(Ty::I32), *e, g.label(0), g.label(1));
        },
    }
}

proof fn lemma_explicit_args(g: GenState, c: FnCall, n: nat, first: Seq<Val>, params: Seq<Param>)
    requires
        g.env.returns_supported(),
    ensures
        g.within(g.explicit_args(c, n, first, params), args_demand(c, n)),
    decreases c, 0nat, n,
{
    if 0 < n <= c.vals.len() {
        lemma_explicit_args(g, c, (n - 1) as nat, first, params);
        crate::ir::gen::growth::lemma_explicit_args(g, c, (n - 1) as nat, first, params);
        if let (g1, Ok(_)) = g.explicit_args(c, (n - 1) as nat, first, params) {
            lemma_right(g1, c.vals[n - 1]);
        }
    }
}

proof fn lemma_call(g: GenState, c: FnCall)
    requires
        g.env.returns_supported(),
    ensures
        g.within(g.call(c), call_demand(c)),
    decreases c, 1nat, 0nat,
{
    if let Some(place) = c.receiver {
        lemma_left(g, *place);
    }
    crate::ir::gen::growth::lemma_callee(g, c);
    if let (g1, Ok((receiver, name))) = g.callee(c) {
        if g1.env.functions.contains_key(name) {
            let sig = g1.env.functions[name];
            if let (g2, Ok(first)) = g1.receiver_args(receiver, sig.params) {
                lemma_explicit_args(g2, c, c.vals@.len(), first, sig.params);
                crate::ir::gen::growth::lemma_explicit_args(
                    g2,
                    c,
                    c.vals@.len(),
                    first,
                    sig.params,
                );
            }
        }
    }
}

proof fn lemma_branch(g: GenState, e: BoolExpr, t: Lbl, f: Lbl)
    requires
        g.env.returns_supported(),
    ensures
        g.within(g.branch(e, t, f), branch_demand(e)),
    decreases e, 0nat, 0nat,
{
    match e.inner {
        BoolExprInner::BoolBiOpExpr(biop) => {
            lemma_bool_biop(g, *biop, t, f);
        },
        BoolExprInner::BoolUnit(unit) => {
            lemma_bool_unit(g, *unit, t, f);
        },
    }
}

proof fn lemma_bool_biop(g: GenState, e: BoolBiOpExpr, t: Lbl, f: Lbl)
    requires
        g.env.returns_supported(),
    ensures
        g.within(g.bool_biop(e, t, f), biop_demand(e)),
    decreases e, 0nat, 0nat,
{
    let undecided = g.label(0);
    let g0 = g.with_blocks(1);
    let (lt, lf) = match e.op {
        BoolBiOp::And => (undecided, f),
        BoolBiOp::Or => (t, undecided),
    };
    lemma_branch(g0, *e.left, lt, lf);
    crate::ir::gen::growth::lemma_branch(g0, *e.left, lt, lf);
    if let (g1, Ok(_)) = g0.branch(*e.left, lt, lf) {
        lemma_branch(g1.emit(Inst::Label(undecided)), *e.right, t, f);
    }
}

proof fn lemma_bool_unit(g: GenState, u: BoolUnit, t: Lbl, f: Lbl)
    requires
        g.env.returns_supported(),
    ensures
        g.within(g.bool_unit(u, t, f), bool_unit_demand(u)),
    decreases u, 0nat, 0nat,
{
    match u.inner {
        BoolUnitInner::ComExpr(e) => {
            lemma_comparison(g, *e, t, f);
        },
        BoolUnitInner::BoolExpr(e) => {
            lemma_branch(g, *e, t, f);
        },
        BoolUnitInner::BoolUOpExpr(e) => {
            lemma_bool_unit(g, *e.cond, f, t);
        },
    }
}

proof fn lemma_comparison(g: GenState, e: ComExpr, t: Lbl, f: Lbl)
    requires
        g.env.returns_supported(),
    ensures
        g.within(g.comparison(e, t, f), comparison_demand(e)),
    decreases e, 0nat, 0nat,
{
    lemma_unit(g, *e.left);
    crate::ir::gen::growth::lemma_unit(g, *e.left);
    if let (g1, Ok(_)) = g.unit(*e.left) {
        lemma_unit(g1, *e.right);
    }
}

proof fn lemma_store_list(g: GenState, base: Val, element: Ty, list: Seq<RightVal>, n: nat)
    requires
        g.env.returns_supported(),
    ensures
        g.within(g.store_list(base, element, list, n), list_demand(list, n)),
    decreases n,
{
    if 0 < n <= MAX_ELEMENTS {
        lemma_store_list(g, base, element, list, (n - 1) as nat);
        crate::ir::gen::growth::lemma_store_list(g, base, element, list, (n - 1) as nat);
        if let (g1, Ok(_)) = g.store_list(base, element, list, (n - 1) as nat) {
            lemma_right(g1.taken(), list[n - 1]);
        }
    }
}

proof fn lemma_store_fill(g: GenState, base: Val, element: Ty, v: Val, n: nat)
    requires
        n <= MAX_ELEMENTS,
    ensures
        g.within(g.store_fill(base, element, v, n), Demand::Cost(n)),
    decreases n,
{
    if n > 0 {
        lemma_store_fill(g, base, element, v, (n - 1) as nat);
    }
}

proof fn lemma_initialize(g: GenState, base: Val, initializer: ArrayInitializer)
    requires
        g.env.returns_supported(),
        GenState::array_behind(base) is Some,
    ensures
        g.within(g.initialize(base, initializer), initializer_demand(initializer)),
{
    let element = GenState::array_behind(base)->Some_0;
    match initializer {
        ArrayInitializer::ExplicitList(list) => {
            lemma_store_list(g, base, element, list@, list@.len());
        },
        ArrayInitializer::Fill { val, count } => {
            lemma_right(g, *val);
            if let (g1, Ok(v)) = GenState::then_convert(g.right(*val), element) {
                if count <= MAX_ELEMENTS {
                    lemma_store_fill(g1, base, element, v, count as nat);
                }
            }
        },
    }
}

proof fn lemma_define(g: GenState, d: VarDef)
    requires
        g.env.returns_supported(),
    ensures
        g.within(g.define(d), define_demand(d)),
{
    match d.inner {
        VarDefInner::Scalar(scalar) => {
            lemma_right(g, scalar.val);
        },
        VarDefInner::Array(array) => {
            let ty = g.def_type(d);
            lemma_initialize(
                g.with_slot(ty),
                Val::Local(g.fresh(ty.ptr())),
                array.initializer,
            );
        },
    }
}

proof fn lemma_assign(g: GenState, s: AssignmentStmt)
    requires
        g.env.returns_supported(),
    ensures
        g.within(g.assign(s), left_demand(s.left_val).plus(right_demand(s.right_val), 1)),
{
    lemma_left(g, s.left_val);
    crate::ir::gen::growth::lemma_left(g, s.left_val);
    if let (g1, Ok(_)) = g.left(s.left_val) {
        lemma_right(g1, s.right_val);
    }
}

proof fn lemma_give_back(g: GenState, s: ReturnStmt)
    requires
        g.env.returns_supported(),
    ensures
        g.within(
            g.give_back(s),
            match s.val {
                Some(val) => right_demand(val).and(1),
                None => Demand::Cost(0),
            },
        ),
{
    if let Some(val) = s.val {
        lemma_right(g, val);
    }
}

proof fn lemma_bound(g: GenState, b: RangeBound)
    requires
        g.env.returns_supported(),
    ensures
        g.within(g.bound(b), bound_demand(b)),
{
    match b.inner {
        RangeBoundInner::ArithExpr(e) => {
            lemma_arith(g, *e);
        },
        RangeBoundInner::FnCall(c) => {
            lemma_call(g, *c);
        },
        _ => {},
    }
}

proof fn lemma_block(g: GenState, s: CodeBlockStmt, con: Option<Lbl>, bre: Option<Lbl>)
    requires
        g.env.returns_supported(),
    ensures
        g.within(g.block(s, con, bre), block_demand(s)),
    decreases s, 0nat,
{
    match s.inner {
        CodeBlockStmtInner::Assignment(s) => {
            lemma_assign(g, *s);
        },
        CodeBlockStmtInner::VarDecl(s) => match s.inner {
            VarDeclStmtInner::Decl(_) => {},
            VarDeclStmtInner::Def(d) => {
                lemma_define(g, d);
            },
        },
        CodeBlockStmtInner::Call(s) => {
            lemma_call(g, s.fn_call);
        },
        CodeBlockStmtInner::If(s) => {
            lemma_conditional(g, *s, con, bre);
        },
        CodeBlockStmtInner::While(s) => {
            lemma_while_loop(g, *s);
        },
        CodeBlockStmtInner::For(s) => {
            lemma_for_loop(g, *s);
        },
        CodeBlockStmtInner::Return(s) => {
            lemma_give_back(g, *s);
        },
        _ => {},
    }
}

proof fn lemma_stmts(
    g: GenState,
    list: Vec<CodeBlockStmt>,
    n: nat,
    con: Option<Lbl>,
    bre: Option<Lbl>,
)
    requires
        g.env.returns_supported(),
    ensures
        g.within(g.stmts(list, n, con, bre), stmts_demand(list, n)),
    decreases list, n,
{
    if 0 < n <= list.len() {
        lemma_stmts(g, list, (n - 1) as nat, con, bre);
        crate::ir::gen::growth::lemma_stmts(g, list, (n - 1) as nat, con, bre);
        if let (g1, Ok(_)) = g.stmts(list, (n - 1) as nat, con, bre) {
            lemma_block(g1, list[n - 1], con, bre);
        }
    }
}

proof fn lemma_scoped(g: GenState, list: Vec<CodeBlockStmt>, con: Option<Lbl>, bre: Option<Lbl>)
    requires
        g.env.returns_supported(),
    ensures
        g.within(g.scoped(list, con, bre), stmts_demand(list, list@.len())),
    decreases list, list@.len() + 1,
{
    lemma_stmts(g.enter(), list, list@.len(), con, bre);
}

proof fn lemma_conditional(g: GenState, s: IfStmt, con: Option<Lbl>, bre: Option<Lbl>)
    requires
        g.env.returns_supported(),
    ensures
        g.within(g.conditional(s, con, bre), if_demand(s)),
    decreases s, 0nat,
{
    let (t, f, after) = (g.label(0), g.label(1), g.label(2));
    let g0 = g.with_blocks(3);
    lemma_bool_unit(g0, s.bool_unit, t, f);
    crate::ir::gen::growth::lemma_bool_unit(g0, s.bool_unit, t, f);
    if let (g1, Ok(_)) = g0.bool_unit(s.bool_unit, t, f) {
        let g2 = g1.emit(Inst::Label(t));
        lemma_scoped(g2, s.if_stmts, con, bre);
        crate::ir::gen::growth::lemma_scoped(g2, s.if_stmts, con, bre);
        if let (g3, Ok(_)) = g2.scoped(s.if_stmts, con, bre) {
            let g4 = g3.emit(Inst::Jump { target: after }).emit(Inst::Label(f));
            if let Some(list) = s.else_stmts {
                lemma_scoped(g4, list, con, bre);
            }
        }
    }
}

proof fn lemma_while_loop(g: GenState, s: WhileStmt)
    requires
        g.env.returns_supported(),
    ensures
        g.within(g.while_loop(s), while_demand(s)),
    decreases s, 0nat,
{
    let (test, body, behind) = (g.label(0), g.label(1), g.label(2));
    let g1 = g.with_blocks(3).emit(Inst::Jump { target: test }).emit(Inst::Label(test));
    lemma_bool_unit(g1, s.bool_unit, body, behind);
    crate::ir::gen::growth::lemma_bool_unit(g1, s.bool_unit, body, behind);
    if let (g2, Ok(_)) = g1.bool_unit(s.bool_unit, body, behind) {
        lemma_scoped(g2.emit(Inst::Label(body)), s.stmts, Some(test), Some(behind));
    }
}

proof fn lemma_for_loop(g: GenState, s: ForStmt)
    requires
        g.env.returns_supported(),
    ensures
        g.within(g.for_loop(s), for_demand(s)),
    decreases s, 1nat,
{
    lemma_bound(g, s.start);
    crate::ir::gen::growth::lemma_bound(g, s.start);
    if let (g1, Ok(start)) = g.bound(s.start) {
        lemma_bound(g1, s.end);
        crate::ir::gen::growth::lemma_bound(g1, s.end);
        if let (g2, Ok(end)) = g1.bound(s.end) {
            let (test, body, step, behind) = (g2.label(0), g2.label(1), g2.label(2), g2.label(3));
            let g3 = g2.with_blocks(4);
            if let (g4, Ok((iter, limit))) = g3.for_head(s.iterator@, start, end, test) {
                lemma_scoped(
                    g4.for_test(iter, limit, body, behind).emit(Inst::Label(body)),
                    s.stmts,
                    Some(step),
                    Some(behind),
                );
            }
        }
    }
}

proof fn lemma_parameters(g: GenState, params: Seq<Param>, n: nat)
    ensures
        g.within(g.parameters(params, n), Demand::Cost(2 * n)),
    decreases n,
{
    if n > 0 {
        lemma_parameters(g, params, (n - 1) as nat);
    }
}

impl GenState {
    /// Whether a function is sure to be lowered, to code or to an error: the
    /// functions that it may call return void, `i32` or `f32`, its literals are
    /// in range, and there are numbers enough for the registers and blocks that
    /// it demands.
    pub open spec fn affords(self, f: FnDef) -> bool {
        let name = f.fn_decl.identifier@;
        let params = if self.env.functions.contains_key(name) {
            self.env.functions[name].params.len()
        } else {
            0
        };
        &&& self.env.returns_supported()
        &&& function_demand(f, params) matches Demand::Cost(cost)
        &&& self.vregs + cost <= usize::MAX
        &&& self.blocks + cost <= usize::MAX
    }
}

/// A function that is afforded can be lowered.
pub proof fn law_afforded_is_feasible(g: GenState, f: FnDef)
    requires
        g.affords(f),
    ensures
        crate::ir::gen::function_gen::feasible(g.function(f)),
{
    let name = f.fn_decl.identifier@;
    if g.env.functions.contains_key(name) {
        let sig = g.env.functions[name];
        let g1 = g.entered(name, sig.ret);
        lemma_parameters(g1, sig.params, sig.params.len());
        crate::ir::gen::growth::lemma_parameters(g1, sig.params, sig.params.len());
        if let (g2, Ok(_)) = g1.parameters(sig.params, sig.params.len()) {
            lemma_stmts(g2, f.stmts, f.stmts@.len(), None, None);
        }
    }
}

// -----------------------------------------------------------------------
// Computing the demand
// -----------------------------------------------------------------------

/// Whether a number is the demand; there is none for a demand that cannot be
/// met by machine numbers.
pub open spec fn measures(need: Option<usize>, demand: Demand) -> bool {
    match need {
        Some(n) => demand == Demand::Cost(n as nat),
        None => demand matches Demand::Cost(cost) ==> cost > usize::MAX,
    }
}

fn sum(a: Option<usize>, b: Option<usize>, more: usize) -> (need: Option<usize>)
    ensures
        forall|x: Demand, y: Demand|
            measures(a, x) && measures(b, y) ==> measures(need, #[trigger] x.plus(y, more as nat)),
{
    match (a, b) {
        (Some(m), Some(n)) => match m.checked_add(n) {
            Some(total) => total.checked_add(more),
            None => None,
        },
        _ => None,
    }
}

fn index_need(e: &IndexExpr) -> (need: Option<usize>)
    ensures
        measures(need, index_demand(*e)),
{
    match &e.inner {
        IndexExprInner::Id(_) => Some(1),
        IndexExprInner::Num(n) => if *n <= i32::MAX as usize {
            Some(0)
        } else {
            None
        },
    }
}

fn arith_need(e: &ArithExpr) -> (need: Option<usize>)
    ensures
        measures(need, arith_demand(*e)),
    decreases e, 0nat, 0nat,
{
    match &e.inner {
        ArithExprInner::ArithBiOpExpr(biop) => sum(
            arith_need(&biop.left),
            arith_need(&biop.right),
            3,
        ),
        ArithExprInner::ExprUnit(unit) => unit_need(unit),
    }
}

fn unit_need(u: &ExprUnit) -> (need: Option<usize>)
    ensures
        measures(need, unit_demand(*u)),
    decreases u, 0nat, 0nat,
{
    match &u.inner {
        ExprUnitInner::ArithExpr(e) => sum(arith_need(e), Some(0), 1),
        ExprUnitInner::FnCall(c) => sum(call_need(c), Some(0), 1),
        ExprUnitInner::ArrayExpr(e) => sum(array_need(e), Some(0), 1),
        ExprUnitInner::MemberExpr(e) => sum(member_need(e), Some(0), 1),
        ExprUnitInner::Cast(cast) => sum(unit_need(&cast.expr), Some(0), 2),
        _ => Some(1),
    }
}

fn array_need(e: &ArrayExpr) -> (need: Option<usize>)
    ensures
        measures(need, array_demand(*e)),
    decreases e, 0nat, 0nat,
{
    sum(left_need(&e.arr), index_need(&e.idx), 2)
}

fn member_need(e: &MemberExpr) -> (need: Option<usize>)
    ensures
        measures(need, member_demand(*e)),
    decreases e, 0nat, 0nat,
{
    sum(left_need(&e.struct_id), Some(0), 1)
}

fn left_need(l: &LeftVal) -> (need: Option<usize>)
    ensures
        measures(need, left_demand(*l)),
    decreases l, 0nat, 0nat,
{
    match &l.inner {
        LeftValInner::Id(_) => Some(0),
        LeftValInner::ArrayExpr(e) => array_need(e),
        LeftValInner::MemberExpr(e) => member_need(e),
    }
}

fn right_need(r: &RightVal) -> (need: Option<usize>)
    ensures
        measures(need, right_demand(*r)),
    decreases r, 0nat, 0nat,
{
    match &r.inner {
        RightValInner::ArithExpr(e) => arith_need(e),
        RightValInner::BoolExpr(e) => sum(branch_need(e), Some(0), 3),
    }
}

fn call_need(c: &FnCall) -> (need: Option<usize>)
    ensures
        measures(need, call_demand(*c)),
    decreases c, 1nat, 0nat,
{
    let receiver = match &c.receiver {
        Some(place) => left_need(place),
        None => Some(0),
    };
    let mut args: Option<usize> = Some(0);
    let mut i: usize = 0;
    while i < c.vals.len()
        invariant
            i <= c.vals@.len(),
            measures(args, args_demand(*c, i as nat)),
        decreases c.vals@.len() - i,
    {
        assert(decreases_to!(c => c.vals[i as int]));
        args = sum(args, right_need(&c.vals[i]), 1);
        i += 1;
    }
    sum(receiver, args, 2)
}

fn branch_need(e: &BoolExpr) -> (need: Option<usize>)
    ensures
        measures(need, branch_demand(*e)),
    decreases e, 0nat, 0nat,
{
    match &e.inner {
        BoolExprInner::BoolBiOpExpr(biop) => biop_need(biop),
        BoolExprInner::BoolUnit(unit) => bool_unit_need(unit),
    }
}

fn biop_need(e: &BoolBiOpExpr) -> (need: Option<usize>)
    ensures
        measures(need, biop_demand(*e)),
    decreases e, 0nat, 0nat,
{
    sum(branch_need(&e.left), branch_need(&e.right), 1)
}

fn bool_unit_need(u: &BoolUnit) -> (need: Option<usize>)
    ensures
        measures(need, bool_unit_demand(*u)),
    decreases u, 0nat, 0nat,
{
    match &u.inner {
        BoolUnitInner::ComExpr(e) => comparison_need(e),
        BoolUnitInner::BoolExpr(e) => branch_need(e),
        BoolUnitInner::BoolUOpExpr(e) => bool_unit_need(&e.cond),
    }
}

fn comparison_need(e: &ComExpr) -> (need: Option<usize>)
    ensures
        measures(need, comparison_demand(*e)),
    decreases e, 0nat, 0nat,
{
    sum(unit_need(&e.left), unit_need(&e.right), 3)
}

fn initializer_need(initializer: &ArrayInitializer) -> (need: Option<usize>)
    ensures
        measures(need, initializer_demand(*initializer)),
{
    match initializer {
        ArrayInitializer::ExplicitList(list) => list_need(list),
        ArrayInitializer::Fill { val, count } => if *count as u64 <= MAX_ELEMENTS {
            match count.checked_add(1) {
                Some(more) => sum(right_need(val), Some(0), more),
                None => None,
            }
        } else {
            None
        },
    }
}

fn list_need(list: &Vec<RightVal>) -> (need: Option<usize>)
    ensures
        measures(need, list_demand(list@, list@.len())),
{
    if list.len() as u64 > MAX_ELEMENTS {
        return None;
    }
    let mut need: Option<usize> = Some(0);
    let mut i: usize = 0;
    while i < list.len()
        invariant
            i <= list@.len() <= MAX_ELEMENTS,
            measures(need, list_demand(list@, i as nat)),
        decreases list@.len() - i,
    {
        let ghost before = list_demand(list@, i as nat);
        assert(list_demand(list@, (i + 1) as nat) == before.plus(right_demand(list@[i as int]), 2));
        need = sum(need, right_need(&list[i]), 2);
        i += 1;
    }
    need
}

fn define_need(d: &VarDef) -> (need: Option<usize>)
    ensures
        measures(need, define_demand(*d)),
{
    match &d.inner {
        VarDefInner::Scalar(scalar) => sum(right_need(&scalar.val), Some(0), 2),
        VarDefInner::Array(array) => sum(initializer_need(&array.initializer), Some(0), 1),
    }
}

fn bound_need(b: &RangeBound) -> (need: Option<usize>)
    ensures
        measures(need, bound_demand(*b)),
{
    match &b.inner {
        RangeBoundInner::ArithExpr(e) => sum(arith_need(e), Some(0), 1),
        RangeBoundInner::FnCall(c) => sum(call_need(c), Some(0), 1),
        RangeBoundInner::Num(_) => Some(0),
        RangeBoundInner::Id(_) => Some(2),
    }
}

fn block_need(s: &CodeBlockStmt) -> (need: Option<usize>)
    ensures
        measures(need, block_demand(*s)),
    decreases s, 0nat,
{
    match &s.inner {
        CodeBlockStmtInner::Assignment(s) => sum(
            left_need(&s.left_val),
            right_need(&s.right_val),
            1,
        ),
        CodeBlockStmtInner::VarDecl(s) => match &s.inner {
            VarDeclStmtInner::Decl(_) => Some(1),
            VarDeclStmtInner::Def(d) => define_need(d),
        },
        CodeBlockStmtInner::Call(s) => call_need(&s.fn_call),
        CodeBlockStmtInner::If(s) => if_need(s),
        CodeBlockStmtInner::While(s) => sum(
            bool_unit_need(&s.bool_unit),
            stmts_need(&s.stmts),
            3,
        ),
        CodeBlockStmtInner::For(s) => sum(
            sum(bound_need(&s.start), bound_need(&s.end), 0),
            stmts_need(&s.stmts),
            7,
        ),
        CodeBlockStmtInner::Return(s) => match &s.val {
            Some(val) => sum(right_need(val), Some(0), 1),
            None => Some(0),
        },
        _ => Some(0),
    }
}

fn stmts_need(list: &Vec<CodeBlockStmt>) -> (need: Option<usize>)
    ensures
        measures(need, stmts_demand(*list, list@.len())),
    decreases list, list@.len() + 1,
{
    let mut need: Option<usize> = Some(0);
    let mut i: usize = 0;
    while i < list.len()
        invariant
            i <= list@.len(),
            measures(need, stmts_demand(*list, i as nat)),
        decreases list@.len() - i,
    {
        assert(decreases_to!(list => list[i as int]));
        need = sum(need, block_need(&list[i]), 0);
        i += 1;
    }
    need
}

fn if_need(s: &IfStmt) -> (need: Option<usize>)
    ensures
        measures(need, if_demand(*s)),
    decreases s, 0nat,
{
    let otherwise = match &s.else_stmts {
        Some(list) => stmts_need(list),
        None => Some(0),
    };
    sum(sum(bool_unit_need(&s.bool_unit), stmts_need(&s.if_stmts), 3), otherwise, 0)
}

impl Registry {
    /// Whether every function returns void, `i32` or `f32`.
    pub fn returns_supported(&self) -> (supported: bool)
        ensures
            supported == (forall|name: Seq<char>| #[trigger]
                self.functions().contains_key(name) ==> {
                    let ret = self.functions()[name].ret;
                    ret is Void || ret is I32 || ret is F32
                }),
    {
        let ghost order = self.function_types.order();
        let len = self.function_types.len();
        let mut i: usize = 0;
        while i < len
            invariant
                i <= len == order.len(),
                order == self.function_types.order(),
                crate::common::names::distinct_names(order),
                forall|j: int|
                    0 <= j < i ==> {
                        let ret = (#[trigger] order[j]).1@.ret;
                        ret is Void || ret is I32 || ret is F32
                    },
            decreases order.len() - i,
        {
            let function = self.function_types.value_at(i);
            let supported = match &function.return_dtype {
                Dtype::Void | Dtype::I32 | Dtype::F32 => true,
                _ => false,
            };
            if !supported {
                proof {
                    crate::common::names::lemma_table_entry(order, i as int);
                    assert(self.functions().contains_key(order[i as int].0));
                }
                return false;
            }
            i += 1;
        }
        proof {
            assert forall|name: Seq<char>| #[trigger] self.functions().contains_key(name) implies {
                let ret = self.functions()[name].ret;
                ret is Void || ret is I32 || ret is F32
            } by {
                let j = choose|j: int| 0 <= j < order.len() && order[j].0 == name;
                crate::common::names::lemma_table_entry(order, j);
            }
        }
        true
    }
}

impl<'ir> FunctionGenerator<'ir> {
    /// Whether [`Self::generate`] can be called: it is sure to lower the
    /// function, to code or to an error.
    pub fn can_generate(&self, from: &FnDef) -> (can: bool)
        ensures
            can == self@.affords(*from),
            can ==> crate::ir::gen::function_gen::feasible(self@.function(*from)),
    {
        if !self.registry.returns_supported() {
            return false;
        }
        assert(self@.env.returns_supported());
        let params: usize = match self.registry.function_types.get(
            from.fn_decl.identifier.as_str(),
        ) {
            Some(function) => function.arguments.len(),
            None => 0,
        };
        let need = sum(sum(stmts_need(&from.stmts), Some(params), 0), Some(params), 0);
        proof {
            let body = stmts_demand(from.stmts, from.stmts@.len());
            let p = Demand::Cost(params as nat);
            assert(measures(need, body.plus(p, 0).plus(p, 0)));
            if self@.affords(*from) {
                law_afforded_is_feasible(self@, *from);
            }
        }
        match need {
            Some(n) => n <= usize::MAX - self.next_vreg && n <= usize::MAX - self.next_basic_block,
            None => false,
        }
    }
}

/// A function whose body takes a known number of registers and blocks is sure to
/// be lowered wherever there are so many, and two registers for each parameter,
/// if calls have results for all return types.  A body without statements takes
/// none.
pub proof fn law_enough_is_afforded(g: GenState, f: FnDef, cost: nat)
    requires
        forall|name: Seq<char>| #[trigger]
            g.env.functions.contains_key(name) ==> {
                let ret = g.env.functions[name].ret;
                ret == Ty::Void || ret == Ty::I32 || ret == Ty::F32
            },
        stmts_demand(f.stmts, f.stmts@.len()) == Demand::Cost(cost),
        ({
            let name = f.fn_decl.identifier@;
            let params = if g.env.functions.contains_key(name) {
                g.env.functions[name].params.len()
            } else {
                0
            };
            g.vregs + cost + 2 * params <= usize::MAX && g.blocks + cost + 2 * params <= usize::MAX
        }),
    ensures
        g.affords(f),
        f.stmts@.len() == 0 ==> cost == 0,
{
}

/// Statements take what they take, one after the other; those without
/// expressions take at most one register.
pub proof fn law_demands_add_up(list: Vec<CodeBlockStmt>, n: nat)
    requires
        n < list@.len(),
    ensures
        match (stmts_demand(list, n), block_demand(list@[n as int])) {
            (Demand::Cost(a), Demand::Cost(b)) => stmts_demand(list, n + 1) == Demand::Cost(a + b),
            _ => stmts_demand(list, n + 1) is Never,
        },
        ({
            let s = list@[n as int].inner;
            s is Continue || s is Break || s is Null || (s matches CodeBlockStmtInner::Return(r)
                && r.val is None) || (s matches CodeBlockStmtInner::VarDecl(v) && v.inner is Decl)
                ==> (block_demand(list@[n as int]) matches Demand::Cost(c) && c <= 1)
        }),
{
}

} // verus!
