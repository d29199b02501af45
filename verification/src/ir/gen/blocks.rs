//! No block of a function's code falls through into the next: a label stands
//! only where a jump or a return ended the block before it.

use crate::ast::decl::{ArrayInitializer, FnDef, VarDecl, VarDef, VarDefInner};
use crate::ast::expr::{
    ArithExpr, ArithExprInner, ArrayExpr, BoolBiOp, BoolBiOpExpr, BoolExpr,
    BoolExprInner, BoolUnit, BoolUnitInner, ComExpr, ExprUnit, ExprUnitInner, FnCall, LeftVal,
    LeftValInner, MemberExpr, RightVal, RightValInner,
};
use crate::ast::stmt::{
    AssignmentStmt, CodeBlockStmt, CodeBlockStmtInner, ForStmt, IfStmt, RangeBound,
    RangeBoundInner, ReturnStmt, VarDeclStmtInner, WhileStmt,
};
use crate::ir::function::GenState;
use crate::ir::registry::Param;
use crate::ir::stmt::{Inst, Lbl};
use crate::ir::types::Ty;
use crate::ir::value::Val;
use vstd::prelude::*;

verus! {

impl Inst {
    /// Whether the instruction ends a block: what stands behind it is reached
    /// through a label only.
    pub open spec fn ends_block(self) -> bool {
        self is Jump || self is CJump || self is Return
    }
}

/// Whether every label but one at the very start stands directly behind the end
/// of a block.
#[verifier::opaque]
pub open spec fn separated(code: Seq<Inst>) -> bool {
    forall|i: int| 0 < i < code.len() && #[trigger] code[i] is Label ==> code[i - 1].ends_block()
}

broadcast proof fn lemma_push(code: Seq<Inst>, inst: Inst)
    ensures
        #[trigger] separated(code.push(inst)) == (separated(code) && (inst is Label ==> code.len()
            == 0 || code.last().ends_block())),
{
    reveal(separated);
    let longer = code.push(inst);
    if separated(longer) {
        assert forall|i: int| 0 < i < code.len() && #[trigger] code[i] is Label implies code[i
            - 1].ends_block() by {
            assert(longer[i] == code[i]);
        }
        if inst is Label && code.len() > 0 {
            assert(longer[code.len() as int] is Label);
        }
    }
}

impl GenState {
    /// Whether the code ends with the end of a block.
    pub open spec fn at_end(self) -> bool {
        self.code.len() > 0 && self.code.last().ends_block()
    }
}

// -----------------------------------------------------------------------
// Node by node
// -----------------------------------------------------------------------

proof fn lemma_arith(g: GenState, e: ArithExpr)
    requires
        separated(g.code),
    ensures
        separated(g.arith(e).0.code),
    decreases e, 0nat, 0nat,
{
    broadcast use lemma_push;

    match e.inner {
        ArithExprInner::ArithBiOpExpr(biop) => {
            lemma_arith(g, *biop.left);
            if let (g1, Ok(l)) = g.arith(*biop.left) {
                lemma_arith(g1, *biop.right);
            }
        },
        ArithExprInner::ExprUnit(unit) => {
            lemma_unit(g, *unit);
        },
    }
}

proof fn lemma_unit(g: GenState, u: ExprUnit)
    requires
        separated(g.code),
    ensures
        separated(g.unit(u).0.code),
    decreases u, 0nat, 0nat,
{
    broadcast use lemma_push;

    match u.inner {
        ExprUnitInner::ArithExpr(e) => {
            lemma_arith(g, *e);
        },
        ExprUnitInner::FnCall(c) => {
            lemma_call(g, *c);
        },
        ExprUnitInner::ArrayExpr(e) => {
            lemma_array(g, *e);
        },
        ExprUnitInner::MemberExpr(e) => {
            lemma_member(g, *e);
        },
        ExprUnitInner::Cast(cast) => {
            lemma_unit(g, *cast.expr);
        },
        _ => {},
    }
}

proof fn lemma_array(g: GenState, e: ArrayExpr)
    requires
        separated(g.code),
    ensures
        separated(g.array(e).0.code),
    decreases e, 0nat, 0nat,
{
    broadcast use lemma_push;

    lemma_left(g, *e.arr);
}

proof fn lemma_member(g: GenState, e: MemberExpr)
    requires
        separated(g.code),
    ensures
        separated(g.member(e).0.code),
    decreases e, 0nat, 0nat,
{
    broadcast use lemma_push;

    lemma_left(g, *e.struct_id);
}

proof fn lemma_left(g: GenState, l: LeftVal)
    requires
        separated(g.code),
    ensures
        separated(g.left(l).0.code),
    decreases l, 0nat, 0nat,
{
    broadcast use lemma_push;

    match l.inner {
        LeftValInner::Id(_) => {},
        LeftValInner::ArrayExpr(e) => {
            lemma_array(g, *e);
        },
        LeftValInner::MemberExpr(e) => {
            lemma_member(g, *e);
        },
    }
}

proof fn lemma_right(g: GenState, r: RightVal)
    requires
        separated(g.code),
    ensures
        separated(g.right(r).0.code),
    decreases r, 0nat, 0nat,
{
    broadcast use lemma_push;

    match r.inner {
        RightValInner::ArithExpr(e) => {
            lemma_arith(g, *e);
        },
        RightValInner::BoolExpr(e) => {
            lemma_bool_value(g, *e);
        },
    }
}

proof fn lemma_explicit_args(g: GenState, c: FnCall, n: nat, first: Seq<Val>, params: Seq<Param>)
    requires
        separated(g.code),
    ensures
        separated(g.explicit_args(c, n, first, params).0.code),
    decreases c, 0nat, n,
{
    broadcast use lemma_push;

    if 0 < n <= c.vals.len() {
        lemma_explicit_args(g, c, (n - 1) as nat, first, params);
        if let (g1, Ok(_)) = g.explicit_args(c, (n - 1) as nat, first, params) {
            lemma_right(g1, c.vals[n - 1]);
        }
    }
}

proof fn lemma_callee(g: GenState, c: FnCall)
    requires
        separated(g.code),
    ensures
        separated(g.callee(c).0.code),
    decreases c, 0nat, 0nat,
{
    broadcast use lemma_push;

    if let Some(receiver) = c.receiver {
        lemma_left(g, *receiver);
    }
}

proof fn lemma_call(g: GenState, c: FnCall)
    requires
        separated(g.code),
    ensures
        separated(g.call(c).0.code),
    decreases c, 1nat, 0nat,
{
    broadcast use lemma_push;

    lemma_callee(g, c);
    if let (g1, Ok((receiver, name))) = g.callee(c) {
        if g1.env.functions.contains_key(name) {
            let sig = g1.env.functions[name];
            if let (g2, Ok(first)) = g1.receiver_args(receiver, sig.params) {
                lemma_explicit_args(g2, c, c.vals@.len(), first, sig.params);
            }
        }
    }
}

proof fn lemma_bool_value(g: GenState, e: BoolExpr)
    requires
        separated(g.code),
    ensures
        separated(g.bool_value(e).0.code),
    decreases e, 1nat, 0nat,
{
    broadcast use lemma_push;

    lemma_branch(g.with_blocks(3).with_slot(Ty::I32), e, g.label(0), g.label(1));
}

proof fn lemma_branch(g: GenState, e: BoolExpr, t: Lbl, f: Lbl)
    requires
        separated(g.code),
    ensures
        separated(g.branch(e, t, f).0.code),
        g.branch(e, t, f).1 is Ok ==> g.branch(e, t, f).0.at_end(),
    decreases e, 0nat, 0nat,
{
    broadcast use lemma_push;

    match e.inner {
        BoolExprInner::BoolBiOpExpr(biop) => {
            lemma_bool_biop(g, *biop, t, f);
        },
        BoolExprInner::BoolUnit(unit) => {
            lemma_bool_unit(g, *unit, t, f);
        },
    }
}

proof fn lemma_bool_biop(g: GenState, e: BoolBiOpExpr, t: Lbl, f: Lbl)
    requires
        separated(g.code),
    ensures
        separated(g.bool_biop(e, t, f).0.code),
        g.bool_biop(e, t, f).1 is Ok ==> g.bool_biop(e, t, f).0.at_end(),
    decreases e, 0nat, 0nat,
{
    broadcast use lemma_push;

    let undecided = g.label(0);
    let g0 = g.with_blocks(1);
    let left = match e.op {
        BoolBiOp::And => g0.branch(*e.left, undecided, f),
        BoolBiOp::Or => g0.branch(*e.left, t, undecided),
    };
    lemma_branch(g0, *e.left, undecided, f);
    lemma_branch(g0, *e.left, t, undecided);
    if left.1 is Ok {
        lemma_branch(left.0.emit(Inst::Label(undecided)), *e.right, t, f);
    }
}

proof fn lemma_bool_unit(g: GenState, u: BoolUnit, t: Lbl, f: Lbl)
    requires
        separated(g.code),
    ensures
        separated(g.bool_unit(u, t, f).0.code),
        g.bool_unit(u, t, f).1 is Ok ==> g.bool_unit(u, t, f).0.at_end(),
    decreases u, 0nat, 0nat,
{
    broadcast use lemma_push;

    match u.inner {
        BoolUnitInner::ComExpr(e) => {
            lemma_comparison(g, *e, t, f);
        },
        BoolUnitInner::BoolExpr(e) => {
            lemma_branch(g, *e, t, f);
        },
        BoolUnitInner::BoolUOpExpr(e) => {
            lemma_bool_unit(g, *e.cond, f, t);
        },
    }
}

proof fn lemma_comparison(g: GenState, e: ComExpr, t: Lbl, f: Lbl)
    requires
        separated(g.code),
    ensures
        separated(g.comparison(e, t, f).0.code),
        g.comparison(e, t, f).1 is Ok ==> g.comparison(e, t, f).0.at_end(),
    decreases e, 0nat, 0nat,
{
    broadcast use lemma_push;

    lemma_unit(g, *e.left);
    if let (g1, Ok(_)) = g.unit(*e.left) {
        lemma_unit(g1, *e.right);
    }
}

proof fn lemma_store_list(g: GenState, base: Val, element: Ty, list: Seq<RightVal>, n: nat)
    requires
        separated(g.code),
    ensures
        separated(g.store_list(base, element, list, n).0.code),
    decreases n,
{
    broadcast use lemma_push;

    if n > 0 {
        lemma_store_list(g, base, element, list, (n - 1) as nat);
        if let (g1, Ok(_)) = g.store_list(base, element, list, (n - 1) as nat) {
            lemma_right(g1.taken(), list[n - 1]);
        }
    }
}

proof fn lemma_store_fill(g: GenState, base: Val, element: Ty, v: Val, n: nat)
    requires
        separated(g.code),
    ensures
        separated(g.store_fill(base, element, v, n).0.code),
    decreases n,
{
    broadcast use lemma_push;

    if n > 0 {
        lemma_store_fill(g, base, element, v, (n - 1) as nat);
    }
}

proof fn lemma_initialize(g: GenState, base: Val, initializer: ArrayInitializer)
    requires
        separated(g.code),
    ensures
        separated(g.initialize(base, initializer).0.code),
{
    broadcast use lemma_push;

    if let Some(element) = GenState::array_behind(base) {
        match initializer {
            ArrayInitializer::ExplicitList(list) => {
                lemma_store_list(g, base, element, list@, list@.len());
            },
            ArrayInitializer::Fill { val, count } => {
                lemma_right(g, *val);
                if let (g1, Ok(v)) = GenState::then_convert(g.right(*val), element) {
                    lemma_store_fill(g1, base, element, v, count as nat);
                }
            },
        }
    }
}

proof fn lemma_declare(g: GenState, d: VarDecl)
    requires
        separated(g.code),
    ensures
        separated(g.declare(d).0.code),
{
    broadcast use lemma_push;

}

proof fn lemma_define(g: GenState, d: VarDef)
    requires
        separated(g.code),
    ensures
        separated(g.define(d).0.code),
{
    broadcast use lemma_push;

    match d.inner {
        VarDefInner::Scalar(scalar) => {
            lemma_right(g, scalar.val);
        },
        VarDefInner::Array(array) => {
            let ty = g.def_type(d);
            let slot = g.fresh(ty.ptr());
            lemma_initialize(g.with_slot(ty), Val::Local(slot), array.initializer);
        },
    }
}

proof fn lemma_assign(g: GenState, s: AssignmentStmt)
    requires
        separated(g.code),
    ensures
        separated(g.assign(s).0.code),
{
    broadcast use lemma_push;

    lemma_left(g, s.left_val);
    if let (g1, Ok(_)) = g.left(s.left_val) {
        lemma_right(g1, s.right_val);
    }
}

proof fn lemma_give_back(g: GenState, s: ReturnStmt)
    requires
        separated(g.code),
    ensures
        separated(g.give_back(s).0.code),
{
    broadcast use lemma_push;

    if let Some(val) = s.val {
        lemma_right(g, val);
    }
}

proof fn lemma_bound(g: GenState, b: RangeBound)
    requires
        separated(g.code),
    ensures
        separated(g.bound(b).0.code),
{
    broadcast use lemma_push;

    match b.inner {
        RangeBoundInner::ArithExpr(e) => {
            lemma_arith(g, *e);
        },
        RangeBoundInner::FnCall(c) => {
            lemma_call(g, *c);
        },
        _ => {},
    }
}

proof fn lemma_block(g: GenState, s: CodeBlockStmt, con: Option<Lbl>, bre: Option<Lbl>)
    requires
        separated(g.code),
    ensures
        separated(g.block(s, con, bre).0.code),
    decreases s, 0nat,
{
    broadcast use lemma_push;

    match s.inner {
        CodeBlockStmtInner::Assignment(s) => {
            lemma_assign(g, *s);
        },
        CodeBlockStmtInner::VarDecl(s) => match s.inner {
            VarDeclStmtInner::Decl(d) => {
                lemma_declare(g, d);
            },
            VarDeclStmtInner::Def(d) => {
                lemma_define(g, d);
            },
        },
        CodeBlockStmtInner::Call(s) => {
            lemma_call(g, s.fn_call);
        },
        CodeBlockStmtInner::If(s) => {
            lemma_conditional(g, *s, con, bre);
        },
        CodeBlockStmtInner::While(s) => {
            lemma_while_loop(g, *s);
        },
        CodeBlockStmtInner::For(s) => {
            lemma_for_loop(g, *s);
        },
        CodeBlockStmtInner::Return(s) => {
            lemma_give_back(g, *s);
        },
        _ => {},
    }
}

proof fn lemma_stmts(
    g: GenState,
    list: Vec<CodeBlockStmt>,
    n: nat,
    con: Option<Lbl>,
    bre: Option<Lbl>,
)
    requires
        separated(g.code),
    ensures
        separated(g.stmts(list, n, con, bre).0.code),
    decreases list, n,
{
    broadcast use lemma_push;

    if 0 < n <= list.len() {
        lemma_stmts(g, list, (n - 1) as nat, con, bre);
        if let (g1, Ok(_)) = g.stmts(list, (n - 1) as nat, con, bre) {
            lemma_block(g1, list[n - 1], con, bre);
        }
    }
}

proof fn lemma_scoped(
    g: GenState,
    list: Vec<CodeBlockStmt>,
    con: Option<Lbl>,
    bre: Option<Lbl>,
)
    requires
        separated(g.code),
    ensures
        separated(g.scoped(list, con, bre).0.code),
    decreases list, list@.len() + 1,
{
    broadcast use lemma_push;

    lemma_stmts(g.enter(), list, list@.len(), con, bre);
}

proof fn lemma_conditional(g: GenState, s: IfStmt, con: Option<Lbl>, bre: Option<Lbl>)
    requires
        separated(g.code),
    ensures
        separated(g.conditional(s, con, bre).0.code),
    decreases s, 0nat,
{
    broadcast use lemma_push;

    let (t, f, after) = (g.label(0), g.label(1), g.label(2));
    lemma_bool_unit(g.with_blocks(3), s.bool_unit, t, f);
    if let (g1, Ok(_)) = g.with_blocks(3).bool_unit(s.bool_unit, t, f) {
        lemma_scoped(g1.emit(Inst::Label(t)), s.if_stmts, con, bre);
        if let (g2, Ok(_)) = g1.emit(Inst::Label(t)).scoped(s.if_stmts, con, bre) {
            let g3 = g2.emit(Inst::Jump { target: after }).emit(Inst::Label(f));
            if let Some(list) = s.else_stmts {
                lemma_scoped(g3, list, con, bre);
            }
        }
    }
}

proof fn lemma_while_loop(g: GenState, s: WhileStmt)
    requires
        separated(g.code),
    ensures
        separated(g.while_loop(s).0.code),
    decreases s, 0nat,
{
    broadcast use lemma_push;

    let (test, body, behind) = (g.label(0), g.label(1), g.label(2));
    let g0 = g.with_blocks(3).emit(Inst::Jump { target: test }).emit(Inst::Label(test));
    lemma_bool_unit(g0, s.bool_unit, body, behind);
    if let (g1, Ok(_)) = g0.bool_unit(s.bool_unit, body, behind) {
        lemma_scoped(g1.emit(Inst::Label(body)), s.stmts, Some(test), Some(behind));
    }
}

proof fn lemma_for_head(g: GenState, name: Seq<char>, start: Val, end: Val, test: Lbl)
    requires
        separated(g.code),
    ensures
        separated(g.for_head(name, start, end, test).0.code),
{
    broadcast use lemma_push;

}

proof fn lemma_for_test(g: GenState, iter: Val, end: Val, body: Lbl, behind: Lbl)
    requires
        separated(g.code),
    ensures
        separated(g.for_test(iter, end, body, behind).code),
{
    broadcast use lemma_push;

}

proof fn lemma_for_step(g: GenState, iter: Val)
    requires
        separated(g.code),
    ensures
        separated(g.for_step(iter).code),
{
    broadcast use lemma_push;

}

proof fn lemma_counted_loop(g: GenState, s: ForStmt, start: Val, end: Val)
    requires
        separated(g.code),
    ensures
        separated(g.counted_loop(s, start, end).0.code),
    decreases s, 0nat,
{
    broadcast use lemma_push;

    let (test, body, step, behind) = (g.label(0), g.label(1), g.label(2), g.label(3));
    let g0 = g.with_blocks(4);
    lemma_for_head(g0, s.iterator@, start, end, test);
    if let (g1, Ok((iter, limit))) = g0.for_head(s.iterator@, start, end, test) {
        lemma_for_test(g1, iter, limit, body, behind);
        let g2 = g1.for_test(iter, limit, body, behind).emit(Inst::Label(body));
        lemma_scoped(g2, s.stmts, Some(step), Some(behind));
        if let (g3, Ok(_)) = g2.scoped(s.stmts, Some(step), Some(behind)) {
            lemma_for_step(g3.emit(Inst::Jump { target: step }).emit(Inst::Label(step)), iter);
        }
    }
}

proof fn lemma_for_loop(g: GenState, s: ForStmt)
    requires
        separated(g.code),
    ensures
        separated(g.for_loop(s).0.code),
    decreases s, 1nat,
{
    broadcast use lemma_push;

    lemma_bound(g, s.start);
    if let (g1, Ok(start)) = g.bound(s.start) {
        lemma_bound(g1, s.end);
        if let (g2, Ok(end)) = g1.bound(s.end) {
            lemma_counted_loop(g2, s, start, end);
        }
    }
}

proof fn lemma_parameters(g: GenState, params: Seq<Param>, n: nat)
    requires
        separated(g.code),
    ensures
        separated(g.parameters(params, n).0.code),
    decreases n,
{
    broadcast use lemma_push;

    if n > 0 {
        lemma_parameters(g, params, (n - 1) as nat);
    }
}

proof fn lemma_function(g: GenState, f: FnDef)
    requires
        g.code.len() == 0,
    ensures
        separated(g.function(f).0.code),
{
    broadcast use lemma_push;

    let name = f.fn_decl.identifier@;
    assert(separated(g.code)) by {
        reveal(separated);
    }
    if g.env.functions.contains_key(name) {
        let sig = g.env.functions[name];
        let g1 = g.entered(name, sig.ret);
        lemma_parameters(g1, sig.params, sig.params.len());
        if let (g2, Ok(_)) = g1.parameters(sig.params, sig.params.len()) {
            lemma_stmts(g2, f.stmts, f.stmts@.len(), None, None);
        }
    }
}

/// In the code of a function, whether the lowering ended or failed, every label
/// behind the first instruction stands directly behind a jump, a conditional
/// jump or a return: no block falls through into the next.
pub proof fn law_no_fall_through(g: GenState, f: FnDef)
    requires
        g.code.len() == 0,
    ensures
        ({
            let code = g.function(f).0.code;
            forall|i: int|
                0 < i < code.len() && #[trigger] code[i] is Label ==> code[i - 1].ends_block()
        }),
{
    lemma_function(g, f);
    reveal(separated);
}

} // verus!
