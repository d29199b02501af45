//! Lowering only ever adds: instructions are appended, numbers go up, and the
//! program around the function stays as it is.

use crate::ast::decl::{ArrayInitializer, FnDef, VarDecl, VarDef, VarDefInner};
use crate::ast::expr::{
    ArithExpr, ArithExprInner, ArrayExpr, BoolBiOp, BoolBiOpExpr, BoolExpr,
    BoolExprInner, BoolUnit, BoolUnitInner, ComExpr, ExprUnit, ExprUnitInner, FnCall, LeftVal,
    LeftValInner, MemberExpr, RightVal, RightValInner,
};
use crate::ast::stmt::{
    AssignmentStmt, CodeBlockStmt, CodeBlockStmtInner, ForStmt, IfStmt, RangeBound,
    RangeBoundInner, ReturnStmt, VarDeclStmtInner, WhileStmt,
};
use crate::ir::function::GenState;
use crate::ir::registry::Param;
use crate::ir::stmt::{Inst, Lbl};
use crate::ir::types::Ty;
use crate::ir::value::Val;
use vstd::prelude::*;

verus! {

impl GenState {
    /// What holds between the states before and after the lowering of a
    /// statement or expression: code is appended, and what stands already
    /// stays; numbers go up; the surrounding program, the arguments, and the
    /// function's own facts do not change.
    pub open spec fn grows_to(self, later: GenState) -> bool {
        &&& later.env == self.env
        &&& later.args == self.args
        &&& later.ret == self.ret
        &&& later.impl_type == self.impl_type
        &&& self.vregs <= later.vregs
        &&& self.blocks <= later.blocks
        &&& self.code.len() <= later.code.len()
        &&& forall|i: int|
            0 <= i < self.code.len() ==> #[trigger] later.code[i] == self.code[i]
    }

    /// What holds in addition where no variable is introduced.
    pub open spec fn evaluates_to(self, later: GenState) -> bool {
        &&& self.grows_to(later)
        &&& later.locals == self.locals
        &&& later.scopes == self.scopes
    }
}

// -----------------------------------------------------------------------
// Growth, node by node
// -----------------------------------------------------------------------

pub proof fn lemma_arith(g: GenState, e: ArithExpr)
    ensures
        g.evaluates_to(g.arith(e).0),
    decreases e, 0nat, 0nat,
{
    match e.inner {
        ArithExprInner::ArithBiOpExpr(biop) => {
            lemma_arith(g, *biop.left);
            if let (g1, Ok(l)) = g.arith(*biop.left) {
                lemma_arith(g1, *biop.right);
            }
        },
        ArithExprInner::ExprUnit(unit) => {
            lemma_unit(g, *unit);
        },
    }
}

pub proof fn lemma_unit(g: GenState, u: ExprUnit)
    ensures
        g.evaluates_to(g.unit(u).0),
    decreases u, 0nat, 0nat,
{
    match u.inner {
        ExprUnitInner::ArithExpr(e) => {
            lemma_arith(g, *e);
        },
        ExprUnitInner::FnCall(c) => {
            lemma_call(g, *c);
        },
        ExprUnitInner::ArrayExpr(e) => {
            lemma_array(g, *e);
        },
        ExprUnitInner::MemberExpr(e) => {
            lemma_member(g, *e);
        },
        ExprUnitInner::Cast(cast) => {
            lemma_unit(g, *cast.expr);
        },
        _ => {},
    }
}

pub proof fn lemma_array(g: GenState, e: ArrayExpr)
    ensures
        g.evaluates_to(g.array(e).0),
    decreases e, 0nat, 0nat,
{
    lemma_left(g, *e.arr);
}

pub proof fn lemma_member(g: GenState, e: MemberExpr)
    ensures
        g.evaluates_to(g.member(e).0),
    decreases e, 0nat, 0nat,
{
    lemma_left(g, *e.struct_id);
}

pub proof fn lemma_left(g: GenState, l: LeftVal)
    ensures
        g.evaluates_to(g.left(l).0),
    decreases l, 0nat, 0nat,
{
    match l.inner {
        LeftValInner::Id(_) => {},
        LeftValInner::ArrayExpr(e) => {
            lemma_array(g, *e);
        },
        LeftValInner::MemberExpr(e) => {
            lemma_member(g, *e);
        },
    }
}

pub proof fn lemma_right(g: GenState, r: RightVal)
    ensures
        g.evaluates_to(g.right(r).0),
    decreases r, 0nat, 0nat,
{
    match r.inner {
        RightValInner::ArithExpr(e) => {
            lemma_arith(g, *e);
        },
        RightValInner::BoolExpr(e) => {
            lemma_bool_value(g, *e);
        },
    }
}

pub proof fn lemma_explicit_args(g: GenState, c: FnCall, n: nat, first: Seq<Val>, params: Seq<Param>)
    ensures
        g.evaluates_to(g.explicit_args(c, n, first, params).0),
    decreases c, 0nat, n,
{
    if 0 < n <= c.vals.len() {
        lemma_explicit_args(g, c, (n - 1) as nat, first, params);
        if let (g1, Ok(_)) = g.explicit_args(c, (n - 1) as nat, first, params) {
            lemma_right(g1, c.vals[n - 1]);
        }
    }
}

pub proof fn lemma_callee(g: GenState, c: FnCall)
    ensures
        g.evaluates_to(g.callee(c).0),
    decreases c, 0nat, 0nat,
{
    if let Some(receiver) = c.receiver {
        lemma_left(g, *receiver);
    }
}

pub proof fn lemma_call(g: GenState, c: FnCall)
    ensures
        g.evaluates_to(g.call(c).0),
    decreases c, 1nat, 0nat,
{
    lemma_callee(g, c);
    if let (g1, Ok((receiver, name))) = g.callee(c) {
        if g1.env.functions.contains_key(name) {
            let sig = g1.env.functions[name];
            if let (g2, Ok(first)) = g1.receiver_args(receiver, sig.params) {
                lemma_explicit_args(g2, c, c.vals@.len(), first, sig.params);
            }
        }
    }
}

pub proof fn lemma_bool_value(g: GenState, e: BoolExpr)
    ensures
        g.evaluates_to(g.bool_value(e).0),
    decreases e, 1nat, 0nat,
{
    lemma_branch(g.with_blocks(3).with_slot(Ty::I32), e, g.label(0), g.label(1));
}

pub proof fn lemma_branch(g: GenState, e: BoolExpr, t: Lbl, f: Lbl)
    ensures
        g.evaluates_to(g.branch(e, t, f).0),
    decreases e, 0nat, 0nat,
{
    match e.inner {
        BoolExprInner::BoolBiOpExpr(biop) => {
            lemma_bool_biop(g, *biop, t, f);
        },
        BoolExprInner::BoolUnit(unit) => {
            lemma_bool_unit(g, *unit, t, f);
        },
    }
}

pub proof fn lemma_bool_biop(g: GenState, e: BoolBiOpExpr, t: Lbl, f: Lbl)
    ensures
        g.evaluates_to(g.bool_biop(e, t, f).0),
    decreases e, 0nat, 0nat,
{
    let undecided = g.label(0);
    let g0 = g.with_blocks(1);
    let left = match e.op {
        BoolBiOp::And => g0.branch(*e.left, undecided, f),
        BoolBiOp::Or => g0.branch(*e.left, t, undecided),
    };
    lemma_branch(g0, *e.left, undecided, f);
    lemma_branch(g0, *e.left, t, undecided);
    lemma_branch(left.0.emit(Inst::Label(undecided)), *e.right, t, f);
}

pub proof fn lemma_bool_unit(g: GenState, u: BoolUnit, t: Lbl, f: Lbl)
    ensures
        g.evaluates_to(g.bool_unit(u, t, f).0),
    decreases u, 0nat, 0nat,
{
    match u.inner {
        BoolUnitInner::ComExpr(e) => {
            lemma_comparison(g, *e, t, f);
        },
        BoolUnitInner::BoolExpr(e) => {
            lemma_branch(g, *e, t, f);
        },
        BoolUnitInner::BoolUOpExpr(e) => {
            lemma_bool_unit(g, *e.cond, f, t);
        },
    }
}

pub proof fn lemma_comparison(g: GenState, e: ComExpr, t: Lbl, f: Lbl)
    ensures
        g.evaluates_to(g.comparison(e, t, f).0),
    decreases e, 0nat, 0nat,
{
    lemma_unit(g, *e.left);
    if let (g1, Ok(_)) = g.unit(*e.left) {
        lemma_unit(g1, *e.right);
    }
}

pub proof fn lemma_store_list(g: GenState, base: Val, element: Ty, list: Seq<RightVal>, n: nat)
    ensures
        g.evaluates_to(g.store_list(base, element, list, n).0),
    decreases n,
{
    if n > 0 {
        lemma_store_list(g, base, element, list, (n - 1) as nat);
        if let (g1, Ok(_)) = g.store_list(base, element, list, (n - 1) as nat) {
            lemma_right(g1.taken(), list[n - 1]);
        }
    }
}

pub proof fn lemma_store_fill(g: GenState, base: Val, element: Ty, v: Val, n: nat)
    ensures
        g.evaluates_to(g.store_fill(base, element, v, n).0),
    decreases n,
{
    if n > 0 {
        lemma_store_fill(g, base, element, v, (n - 1) as nat);
    }
}

pub proof fn lemma_initialize(g: GenState, base: Val, initializer: ArrayInitializer)
    ensures
        g.evaluates_to(g.initialize(base, initializer).0),
{
    if let Some(element) = GenState::array_behind(base) {
        match initializer {
            ArrayInitializer::ExplicitList(list) => {
                lemma_store_list(g, base, element, list@, list@.len());
            },
            ArrayInitializer::Fill { val, count } => {
                lemma_right(g, *val);
                if let (g1, Ok(v)) = GenState::then_convert(g.right(*val), element) {
                    lemma_store_fill(g1, base, element, v, count as nat);
                }
            },
        }
    }
}

pub proof fn lemma_declare(g: GenState, d: VarDecl)
    ensures
        g.grows_to(g.declare(d).0),
{
}

pub proof fn lemma_define(g: GenState, d: VarDef)
    ensures
        g.grows_to(g.define(d).0),
{
    match d.inner {
        VarDefInner::Scalar(scalar) => {
            lemma_right(g, scalar.val);
        },
        VarDefInner::Array(array) => {
            let ty = g.def_type(d);
            let slot = g.fresh(ty.ptr());
            lemma_initialize(g.with_slot(ty), Val::Local(slot), array.initializer);
        },
    }
}

pub proof fn lemma_assign(g: GenState, s: AssignmentStmt)
    ensures
        g.evaluates_to(g.assign(s).0),
{
    lemma_left(g, s.left_val);
    if let (g1, Ok(_)) = g.left(s.left_val) {
        lemma_right(g1, s.right_val);
    }
}

pub proof fn lemma_give_back(g: GenState, s: ReturnStmt)
    ensures
        g.evaluates_to(g.give_back(s).0),
{
    if let Some(val) = s.val {
        lemma_right(g, val);
    }
}

pub proof fn lemma_bound(g: GenState, b: RangeBound)
    ensures
        g.evaluates_to(g.bound(b).0),
{
    match b.inner {
        RangeBoundInner::ArithExpr(e) => {
            lemma_arith(g, *e);
        },
        RangeBoundInner::FnCall(c) => {
            lemma_call(g, *c);
        },
        _ => {},
    }
}

pub proof fn lemma_block(g: GenState, s: CodeBlockStmt, con: Option<Lbl>, bre: Option<Lbl>)
    ensures
        g.grows_to(g.block(s, con, bre).0),
    decreases s, 0nat,
{
    match s.inner {
        CodeBlockStmtInner::Assignment(s) => {
            lemma_assign(g, *s);
        },
        CodeBlockStmtInner::VarDecl(s) => match s.inner {
            VarDeclStmtInner::Decl(d) => {
                lemma_declare(g, d);
            },
            VarDeclStmtInner::Def(d) => {
                lemma_define(g, d);
            },
        },
        CodeBlockStmtInner::Call(s) => {
            lemma_call(g, s.fn_call);
        },
        CodeBlockStmtInner::If(s) => {
            lemma_conditional(g, *s, con, bre);
        },
        CodeBlockStmtInner::While(s) => {
            lemma_while_loop(g, *s);
        },
        CodeBlockStmtInner::For(s) => {
            lemma_for_loop(g, *s);
        },
        CodeBlockStmtInner::Return(s) => {
            lemma_give_back(g, *s);
        },
        _ => {},
    }
}

pub proof fn lemma_stmts(
    g: GenState,
    list: Vec<CodeBlockStmt>,
    n: nat,
    con: Option<Lbl>,
    bre: Option<Lbl>,
)
    ensures
        g.grows_to(g.stmts(list, n, con, bre).0),
    decreases list, n,
{
    if 0 < n <= list.len() {
        lemma_stmts(g, list, (n - 1) as nat, con, bre);
        if let (g1, Ok(_)) = g.stmts(list, (n - 1) as nat, con, bre) {
            lemma_block(g1, list[n - 1], con, bre);
        }
    }
}

pub proof fn lemma_scoped(
    g: GenState,
    list: Vec<CodeBlockStmt>,
    con: Option<Lbl>,
    bre: Option<Lbl>,
)
    ensures
        g.grows_to(g.scoped(list, con, bre).0),
    decreases list, list@.len() + 1,
{
    lemma_stmts(g.enter(), list, list@.len(), con, bre);
}

pub proof fn lemma_conditional(g: GenState, s: IfStmt, con: Option<Lbl>, bre: Option<Lbl>)
    ensures
        g.grows_to(g.conditional(s, con, bre).0),
    decreases s, 0nat,
{
    let (t, f, after) = (g.label(0), g.label(1), g.label(2));
    lemma_bool_unit(g.with_blocks(3), s.bool_unit, t, f);
    if let (g1, Ok(_)) = g.with_blocks(3).bool_unit(s.bool_unit, t, f) {
        lemma_scoped(g1.emit(Inst::Label(t)), s.if_stmts, con, bre);
        if let (g2, Ok(_)) = g1.emit(Inst::Label(t)).scoped(s.if_stmts, con, bre) {
            let g3 = g2.emit(Inst::Jump { target: after }).emit(Inst::Label(f));
            if let Some(list) = s.else_stmts {
                lemma_scoped(g3, list, con, bre);
            }
        }
    }
}

pub proof fn lemma_while_loop(g: GenState, s: WhileStmt)
    ensures
        g.grows_to(g.while_loop(s).0),
    decreases s, 0nat,
{
    let (test, body, behind) = (g.label(0), g.label(1), g.label(2));
    let g0 = g.with_blocks(3).emit(Inst::Jump { target: test }).emit(Inst::Label(test));
    lemma_bool_unit(g0, s.bool_unit, body, behind);
    if let (g1, Ok(_)) = g0.bool_unit(s.bool_unit, body, behind) {
        lemma_scoped(g1.emit(Inst::Label(body)), s.stmts, Some(test), Some(behind));
    }
}

pub proof fn lemma_for_head(g: GenState, name: Seq<char>, start: Val, end: Val, test: Lbl)
    ensures
        g.grows_to(g.for_head(name, start, end, test).0),
{
}

pub proof fn lemma_for_test(g: GenState, iter: Val, end: Val, body: Lbl, behind: Lbl)
    ensures
        g.evaluates_to(g.for_test(iter, end, body, behind)),
{
}

pub proof fn lemma_for_step(g: GenState, iter: Val)
    ensures
        g.evaluates_to(g.for_step(iter)),
{
}

pub proof fn lemma_counted_loop(g: GenState, s: ForStmt, start: Val, end: Val)
    ensures
        g.grows_to(g.counted_loop(s, start, end).0),
    decreases s, 0nat,
{
    let (test, body, step, behind) = (g.label(0), g.label(1), g.label(2), g.label(3));
    let g0 = g.with_blocks(4);
    lemma_for_head(g0, s.iterator@, start, end, test);
    if let (g1, Ok((iter, limit))) = g0.for_head(s.iterator@, start, end, test) {
        lemma_for_test(g1, iter, limit, body, behind);
        let g2 = g1.for_test(iter, limit, body, behind).emit(Inst::Label(body));
        lemma_scoped(g2, s.stmts, Some(step), Some(behind));
        if let (g3, Ok(_)) = g2.scoped(s.stmts, Some(step), Some(behind)) {
            lemma_for_step(g3.emit(Inst::Jump { target: step }).emit(Inst::Label(step)), iter);
        }
    }
}

pub proof fn lemma_for_loop(g: GenState, s: ForStmt)
    ensures
        g.grows_to(g.for_loop(s).0),
    decreases s, 1nat,
{
    lemma_bound(g, s.start);
    if let (g1, Ok(start)) = g.bound(s.start) {
        lemma_bound(g1, s.end);
        if let (g2, Ok(end)) = g1.bound(s.end) {
            lemma_counted_loop(g2, s, start, end);
        }
    }
}

pub proof fn lemma_parameters(g: GenState, params: Seq<Param>, n: nat)
    ensures
        g.vregs <= g.parameters(params, n).0.vregs,
        g.blocks == g.parameters(params, n).0.blocks,
        g.grows_to(
            GenState { args: g.args, ..g.parameters(params, n).0 },
        ),
        g.scopes == g.parameters(params, n).0.scopes,
    decreases n,
{
    if n > 0 {
        lemma_parameters(g, params, (n - 1) as nat);
    }
}

/// Whether or not a statement can be lowered, the instructions that stand
/// already stay, in their places, and no register or block number is taken back.
pub proof fn law_statement_appends(
    g: GenState,
    s: CodeBlockStmt,
    con: Option<Lbl>,
    bre: Option<Lbl>,
)
    ensures
        g.grows_to(g.block(s, con, bre).0),
{
    lemma_block(g, s, con, bre);
}

/// To evaluate a value appends only, and leaves the variables and their scopes
/// as they were.
pub proof fn law_value_appends(g: GenState, r: RightVal)
    ensures
        g.evaluates_to(g.right(r).0),
{
    lemma_right(g, r);
}

/// The code of a function that was lowered begins with its entry label and ends
/// with a return.
pub proof fn law_entry_and_return(g: GenState, f: FnDef)
    requires
        g.code.len() == 0,
        g.function(f).1 is Ok,
    ensures
        ({
            let code = g.function(f).0.code;
            &&& code.len() > 1
            &&& code[0] == Inst::Label(Lbl::Function(g.link_name(f.fn_decl.identifier@)))
            &&& code.last() is Return
        }),
{
    let name = f.fn_decl.identifier@;
    let sig = g.env.functions[name];
    let g1 = g.entered(name, sig.ret);
    lemma_parameters(g1, sig.params, sig.params.len());
    let g2 = g1.parameters(sig.params, sig.params.len()).0;
    lemma_stmts(g2, f.stmts, f.stmts@.len(), None, None);
    let g3 = g2.stmts(f.stmts, f.stmts@.len(), None, None).0;
    assert(g2.code[0] == g1.code[0]);
    assert(g3.code[0] == g2.code[0]);
}

// -----------------------------------------------------------------------
// Parts of lists
// -----------------------------------------------------------------------
//
// The outcome of a list grows out of the outcome of any shorter part of it,
// and a fault in a part is the fault of the whole.

pub proof fn lemma_args_part(
    g: GenState,
    c: FnCall,
    m: nat,
    n: nat,
    first: Seq<Val>,
    params: Seq<Param>,
)
    requires
        m <= n <= c.vals.len(),
    ensures
        g.explicit_args(c, m, first, params).0.evaluates_to(
            g.explicit_args(c, n, first, params).0,
        ),
        g.explicit_args(c, m, first, params).1 is Err ==> g.explicit_args(c, n, first, params)
            == g.explicit_args(c, m, first, params),
    decreases n,
{
    if m < n {
        lemma_args_part(g, c, m, (n - 1) as nat, first, params);
        if let (g1, Ok(_)) = g.explicit_args(c, (n - 1) as nat, first, params) {
            lemma_right(g1, c.vals[n - 1]);
        }
    }
}

pub proof fn lemma_list_part(
    g: GenState,
    base: Val,
    element: Ty,
    list: Seq<RightVal>,
    m: nat,
    n: nat,
)
    requires
        m <= n,
    ensures
        g.store_list(base, element, list, m).0.evaluates_to(
            g.store_list(base, element, list, n).0,
        ),
        g.store_list(base, element, list, m).1 is Err ==> g.store_list(base, element, list, n)
            == g.store_list(base, element, list, m),
    decreases n,
{
    if m < n {
        lemma_list_part(g, base, element, list, m, (n - 1) as nat);
        if let (g1, Ok(_)) = g.store_list(base, element, list, (n - 1) as nat) {
            lemma_right(g1.taken(), list[n - 1]);
        }
    }
}

pub proof fn lemma_fill_part(g: GenState, base: Val, element: Ty, v: Val, m: nat, n: nat)
    requires
        m <= n,
    ensures
        g.store_fill(base, element, v, m).0.evaluates_to(g.store_fill(base, element, v, n).0),
        g.store_fill(base, element, v, m).1 is Err ==> g.store_fill(base, element, v, n)
            == g.store_fill(base, element, v, m),
    decreases n,
{
    if m < n {
        lemma_fill_part(g, base, element, v, m, (n - 1) as nat);
    }
}

pub proof fn lemma_stmts_part(
    g: GenState,
    list: Vec<CodeBlockStmt>,
    m: nat,
    n: nat,
    con: Option<Lbl>,
    bre: Option<Lbl>,
)
    requires
        m <= n <= list.len(),
    ensures
        g.stmts(list, m, con, bre).0.grows_to(g.stmts(list, n, con, bre).0),
        g.stmts(list, m, con, bre).1 is Err ==> g.stmts(list, n, con, bre) == g.stmts(
            list,
            m,
            con,
            bre,
        ),
    decreases n,
{
    if m < n {
        lemma_stmts_part(g, list, m, (n - 1) as nat, con, bre);
        if let (g1, Ok(_)) = g.stmts(list, (n - 1) as nat, con, bre) {
            lemma_block(g1, list[n - 1], con, bre);
        }
    }
}

pub proof fn lemma_parameters_part(g: GenState, params: Seq<Param>, m: nat, n: nat)
    requires
        m <= n,
    ensures
        g.parameters(params, m).0.vregs <= g.parameters(params, n).0.vregs,
        g.parameters(params, m).0.blocks == g.parameters(params, n).0.blocks,
        g.parameters(params, m).1 is Err ==> g.parameters(params, n) == g.parameters(params, m),
    decreases n,
{
    if m < n {
        lemma_parameters_part(g, params, m, (n - 1) as nat);
    }
}

} // verus!
