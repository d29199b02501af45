//! What statements do: what they store where, what they give back, and which
//! statements they run in which order.

use crate::ast::decl::{ArrayInitializer, FnDef, VarDecl, VarDeclInner, VarDef, VarDefInner};
use crate::ast::expr::{
    BoolBiOp, BoolBiOpExpr, BoolExpr, BoolExprInner, BoolUnit, BoolUnitInner, ComExpr, ComOp,
    RightVal,
};
use crate::ast::stmt::{
    AssignmentStmt, CodeBlockStmt, CodeBlockStmtInner, ForStmt, IfStmt, RangeBound,
    RangeBoundInner, ReturnStmt, VarDeclStmtInner, WhileStmt,
};
use crate::ast::types::TypeSpecifier;
use crate::ir::error::Fault;
use crate::ir::function::GenState;
use crate::ir::registry::Param;
use crate::ir::stmt::{ArithBinOp, CmpPredicate, FloatCmpPredicate, Inst, Lbl};
use crate::ir::types::Ty;
use crate::ir::value::Val;
use vstd::prelude::*;

verus! {

// -----------------------------------------------------------------------
// Storing
// -----------------------------------------------------------------------

/// An assignment computes the address of its left side, then the value of its
/// right side, converts the value to the type that is stored at the address,
/// whatever that is, and then stores it there.  The store is the last
/// instruction, and the only one besides those.  The first of these steps that
/// fails is what the assignment fails with.
pub proof fn law_assignment_stores(g: GenState, s: AssignmentStmt)
    ensures
        match g.left(s.left_val) {
            (g1, Err(fault)) => g.assign(s) == (g1, Err::<(), Fault>(fault)),
            (g1, Ok(address)) => match g1.right(s.right_val) {
                (g2, Err(fault)) => g.assign(s) == (g2, Err::<(), Fault>(fault)),
                (g2, Ok(value)) => match g2.convert(value, address.ty().stored()) {
                    (g3, Err(fault)) => g.assign(s) == (g3, Err::<(), Fault>(fault)),
                    (g3, Ok(stored)) => {
                        &&& g.assign(s).1 is Ok
                        &&& g.assign(s).0.code == g3.code.push(
                            Inst::Store { src: stored, ptr: address },
                        )
                        &&& stored.ty() == address.ty().stored()
                    },
                },
            },
        },
{
}

/// The type of a variable: as it is annotated; a scalar without an annotation
/// as it was inferred; and `i32` where neither says anything.
pub proof fn law_variable_type(
    g: GenState,
    name: Seq<char>,
    annotation: Option<TypeSpecifier>,
    is_scalar: bool,
)
    ensures
        annotation matches Some(t) ==> g.base_type(name, annotation, is_scalar) == Ty::of(t),
        annotation is None && is_scalar && g.env.inferred.contains_key(name) ==> g.base_type(
            name,
            annotation,
            is_scalar,
        ) == g.env.inferred[name],
        annotation is None && !(is_scalar && g.env.inferred.contains_key(name)) ==> g.base_type(
            name,
            annotation,
            is_scalar,
        ) == Ty::I32,
{
}

/// The storage of a variable: of its type, or as many times its type as the
/// array is long.
pub proof fn law_storage_type(g: GenState, decl: VarDecl, def: VarDef)
    ensures
        match decl.inner {
            VarDeclInner::Scalar => g.decl_type(decl) == g.base_type(
                decl.identifier@,
                decl.type_specifier,
                true,
            ),
            VarDeclInner::Array(a) => g.decl_type(decl) matches Ty::Array(element, Some(len))
                && *element == g.base_type(decl.identifier@, decl.type_specifier, false) && len
                == a.len,
        },
        match def.inner {
            VarDefInner::Scalar(_) => g.def_type(def) == g.base_type(
                def.identifier@,
                def.type_specifier,
                true,
            ),
            VarDefInner::Array(a) => g.def_type(def) matches Ty::Array(element, Some(len))
                && *element == g.base_type(def.identifier@, def.type_specifier, false) && len
                == a.len,
        },
{
}

/// A declaration reserves a new slot of the variable's storage type, and stores
/// nothing; the name stands for that slot from then on.
pub proof fn law_declaration_reserves(g: GenState, d: VarDecl)
    ensures
        ({
            let slot = Val::Local(g.fresh(g.decl_type(d).ptr()));
            let (out, r) = g.declare(d);
            &&& out.code == g.code.push(Inst::Alloca { dst: slot })
            &&& out.variable(d.identifier@) == Ok::<Val, Fault>(slot)
            &&& r is Ok <==> !g.locals.contains_key(d.identifier@)
            &&& r matches Err(fault) ==> fault == Fault::VariableRedefinition(d.identifier@)
        }),
{
}

/// The definition of a scalar computes the value, converts it to the type of the
/// variable, reserves a new slot of that type and stores the value there; the
/// name stands for that slot from then on, and not before.
pub proof fn law_scalar_defined(g: GenState, d: VarDef)
    requires
        d.inner is Scalar,
    ensures
        ({
            let ty = g.def_type(d);
            match g.right(d.inner->Scalar_0.val) {
                (g1, Err(fault)) => g.define(d) == (g1, Err::<(), Fault>(fault)),
                (g1, Ok(value)) => match g1.convert(value, ty) {
                    (g2, Err(fault)) => g.define(d) == (g2, Err::<(), Fault>(fault)),
                    (g2, Ok(stored)) => {
                        let slot = Val::Local(g2.fresh(ty.ptr()));
                        let (out, r) = g.define(d);
                        &&& out.code == g2.code.push(Inst::Alloca { dst: slot }).push(
                            Inst::Store { src: stored, ptr: slot },
                        )
                        &&& out.variable(d.identifier@) == Ok::<Val, Fault>(slot)
                        &&& r is Ok <==> !g.locals.contains_key(d.identifier@)
                        &&& r matches Err(fault) ==> fault == Fault::VariableRedefinition(
                            d.identifier@,
                        )
                    },
                },
            }
        }),
{
    crate::ir::gen::growth::lemma_right(g, d.inner->Scalar_0.val);
}

/// The definition of an array reserves a new slot for all its elements, then
/// initialises them in that slot; the name stands for the slot from then on.
pub proof fn law_array_defined(g: GenState, d: VarDef)
    requires
        d.inner is Array,
    ensures
        ({
            let slot = g.fresh(g.def_type(d).ptr());
            let reserved = g.with_slot(g.def_type(d));
            let (g1, filled) = reserved.initialize(
                Val::Local(slot),
                d.inner->Array_0.initializer,
            );
            let (out, r) = g.define(d);
            &&& reserved.code == g.code.push(Inst::Alloca { dst: Val::Local(slot) })
            &&& reserved.locals == g.locals
            &&& match filled {
                Err(fault) => g.define(d) == (g1, Err::<(), Fault>(fault)),
                Ok(_) => {
                    &&& out.code == g1.code
                    &&& out.variable(d.identifier@) == Ok::<Val, Fault>(Val::Local(slot))
                    &&& r is Ok <==> !g.locals.contains_key(d.identifier@)
                    &&& r matches Err(fault) ==> fault == Fault::VariableRedefinition(
                        d.identifier@,
                    )
                },
            }
        }),
{
    crate::ir::gen::growth::lemma_initialize(
        g.with_slot(g.def_type(d)),
        Val::Local(g.fresh(g.def_type(d).ptr())),
        d.inner->Array_0.initializer,
    );
}

/// An explicit list initialises an array with the values of the list, all of
/// them.
pub proof fn law_list_initializes(g: GenState, base: Val, element: Ty, initializer: ArrayInitializer)
    requires
        initializer is ExplicitList,
        base.ty() is Pointer,
        base.ty().stored() is Array,
        *(base.ty().stored()->Array_0) == element,
    ensures
        ({
            let list = initializer->ExplicitList_0@;
            g.initialize(base, initializer) == g.store_list(base, element, list, list.len())
        }),
{
}

/// The values of a list are stored in order: the value at position `k` is
/// computed in the state that those before it left, converted to the element
/// type, and stored at the address of element `k`.  The first that fails ends
/// the initialisation.
pub proof fn law_list_stores_values(
    g: GenState,
    base: Val,
    element: Ty,
    list: Seq<RightVal>,
    k: nat,
)
    requires
        g.store_list(base, element, list, k).1 is Ok,
        k <= i32::MAX,
    ensures
        g.store_list(base, element, list, 0) == (g, Ok::<(), Fault>(())),
        ({
            let before = g.store_list(base, element, list, k).0;
            let after = g.store_list(base, element, list, k + 1);
            let target = Val::Local(before.fresh(element.ptr()));
            match before.taken().right(list[k as int]) {
                (g1, Err(fault)) => after == (g1, Err::<(), Fault>(fault)),
                (g1, Ok(value)) => match g1.convert(value, element) {
                    (g2, Err(fault)) => after == (g2, Err::<(), Fault>(fault)),
                    (g2, Ok(stored)) => {
                        &&& after.1 is Ok
                        &&& after.0.code == g2.code.push(
                            Inst::Gep {
                                new_ptr: target,
                                base_ptr: base,
                                index: Val::Int(k as i32),
                            },
                        ).push(Inst::Store { src: stored, ptr: target })
                    },
                },
            }
        }),
{
}

/// A fill value is computed once, converted to the element type, and then stored
/// into as many elements as are to be filled.
pub proof fn law_fill_initializes(g: GenState, base: Val, element: Ty, initializer: ArrayInitializer)
    requires
        initializer is Fill,
        base.ty() is Pointer,
        base.ty().stored() is Array,
        *(base.ty().stored()->Array_0) == element,
    ensures
        match g.right(*initializer->Fill_val) {
            (g1, Err(fault)) => g.initialize(base, initializer) == (g1, Err::<(), Fault>(fault)),
            (g1, Ok(value)) => match g1.convert(value, element) {
                (g2, Err(fault)) => g.initialize(base, initializer) == (
                    g2,
                    Err::<(), Fault>(fault),
                ),
                (g2, Ok(stored)) => g.initialize(base, initializer) == g2.store_fill(
                    base,
                    element,
                    stored,
                    initializer->Fill_count as nat,
                ),
            },
        },
{
}

/// Filling goes on element by element: behind the first `k` elements, element
/// `k` gets the same value.
pub proof fn law_fill_stores_value(g: GenState, base: Val, element: Ty, v: Val, k: nat)
    requires
        g.store_fill(base, element, v, k).1 is Ok,
        k <= i32::MAX,
    ensures
        g.store_fill(base, element, v, 0) == (g, Ok::<(), Fault>(())),
        ({
            let before = g.store_fill(base, element, v, k).0;
            let after = g.store_fill(base, element, v, k + 1);
            let target = Val::Local(before.fresh(element.ptr()));
            &&& after.1 is Ok
            &&& after.0.code == before.code.push(
                Inst::Gep { new_ptr: target, base_ptr: base, index: Val::Int(k as i32) },
            ).push(Inst::Store { src: v, ptr: target })
        }),
{
}

// -----------------------------------------------------------------------
// Returning
// -----------------------------------------------------------------------

/// `return e` computes the value of `e`, converts it to the function's return
/// type, and then returns it: the return is the last instruction, and the only
/// one besides those.  `return` alone returns nothing.
pub proof fn law_return_gives_value(g: GenState, s: ReturnStmt)
    ensures
        match s.val {
            None => g.give_back(s).1 is Ok && g.give_back(s).0.code == g.code.push(
                Inst::Return(None),
            ),
            Some(e) => match g.right(e) {
                (g1, Err(fault)) => g.give_back(s) == (g1, Err::<(), Fault>(fault)),
                (g1, Ok(value)) => match g.ret {
                    None => g.give_back(s).1 is Ok && g.give_back(s).0.code == g1.code.push(
                        Inst::Return(Some(value)),
                    ),
                    Some(ty) => match g1.convert(value, ty) {
                        (g2, Err(fault)) => g.give_back(s) == (g2, Err::<(), Fault>(fault)),
                        (g2, Ok(given)) => {
                            &&& g.give_back(s).1 is Ok
                            &&& g.give_back(s).0.code == g2.code.push(Inst::Return(Some(given)))
                            &&& given.ty() == ty
                        },
                    },
                },
            },
        },
{
}

/// A body that does not end in a return gets one: of 0 where the function
/// returns a number, and of nothing where it returns none.  Any other return
/// type is rejected, with the function's name and the type.
pub proof fn law_default_return(g: GenState, name: Seq<char>, ret: Ty)
    ensures
        ({
            let (out, r) = g.returned(name, ret);
            let ended = g.code.len() == 0 || g.code.last() is Return;
            if ret == Ty::I32 || ret == Ty::F32 || ret == Ty::Void {
                &&& r is Ok
                &&& ended ==> out.code == g.code
                &&& !ended && ret == Ty::I32 ==> out.code == g.code.push(
                    Inst::Return(Some(Val::Int(0))),
                )
                // All bits of the float 0.0 are 0.
                &&& !ended && ret == Ty::F32 ==> out.code == g.code.push(
                    Inst::Return(Some(Val::Float(0))),
                )
                &&& !ended && ret == Ty::Void ==> out.code == g.code.push(Inst::Return(None))
            } else {
                &&& out == g
                &&& r matches Err(Fault::UnsupportedReturnType { symbol, ty })
                &&& symbol == name
                &&& ty == ret
            }
        }),
{
}

// -----------------------------------------------------------------------
// Statements and lists of them
// -----------------------------------------------------------------------

/// Every statement does what its kind does; an empty statement does nothing.
pub proof fn law_statement_kinds(
    g: GenState,
    s: CodeBlockStmt,
    con: Option<Lbl>,
    bre: Option<Lbl>,
)
    ensures
        match s.inner {
            CodeBlockStmtInner::Assignment(a) => g.block(s, con, bre) == g.assign(*a),
            CodeBlockStmtInner::VarDecl(v) => match v.inner {
                VarDeclStmtInner::Decl(d) => g.block(s, con, bre) == g.declare(d),
                VarDeclStmtInner::Def(d) => g.block(s, con, bre) == g.define(d),
            },
            CodeBlockStmtInner::Call(c) => {
                let (g1, r) = g.call(c.fn_call);
                &&& g.block(s, con, bre).0 == g1
                &&& r is Ok ==> g.block(s, con, bre).1 is Ok
                &&& r matches Err(fault) ==> g.block(s, con, bre).1 == Err::<(), Fault>(fault)
            },
            CodeBlockStmtInner::If(i) => g.block(s, con, bre) == g.conditional(*i, con, bre),
            CodeBlockStmtInner::While(w) => g.block(s, con, bre) == g.while_loop(*w),
            CodeBlockStmtInner::For(f) => g.block(s, con, bre) == g.for_loop(*f),
            CodeBlockStmtInner::Return(r) => g.block(s, con, bre) == g.give_back(*r),
            CodeBlockStmtInner::Continue(_) => match con {
                Some(target) => g.block(s, con, bre).1 is Ok && g.block(s, con, bre).0.code
                    == g.code.push(Inst::Jump { target }),
                None => g.block(s, con, bre) == (g, Err::<(), Fault>(Fault::InvalidContinueInst)),
            },
            CodeBlockStmtInner::Break(_) => match bre {
                Some(target) => g.block(s, con, bre).1 is Ok && g.block(s, con, bre).0.code
                    == g.code.push(Inst::Jump { target }),
                None => g.block(s, con, bre) == (g, Err::<(), Fault>(Fault::InvalidBreakInst)),
            },
            CodeBlockStmtInner::Null(_) => g.block(s, con, bre) == (g, Ok::<(), Fault>(())),
        },
{
}

/// The statements of a list run in order, none of them left out: behind the
/// first `k`, statement `k` is lowered in the state that they left, inside the
/// same loop.  The first that fails ends the list.
pub proof fn law_statements_in_order(
    g: GenState,
    list: Vec<CodeBlockStmt>,
    k: nat,
    n: nat,
    con: Option<Lbl>,
    bre: Option<Lbl>,
)
    requires
        k < n <= list@.len(),
    ensures
        g.stmts(list, 0, con, bre) == (g, Ok::<(), Fault>(())),
        match g.stmts(list, k, con, bre) {
            (g1, Ok(_)) => g.stmts(list, k + 1, con, bre) == g1.block(list@[k as int], con, bre),
            (g1, Err(fault)) => g.stmts(list, n, con, bre) == (g1, Err::<(), Fault>(fault)),
        },
        g.stmts(list, n, con, bre).1 is Ok ==> g.stmts(list, k, con, bre).1 is Ok,
    decreases n,
{
    if k + 1 < n {
        law_statements_in_order(g, list, k, (n - 1) as nat, con, bre);
    }
}

/// A block runs all its statements, in a scope of its own, and fails as they do.
pub proof fn law_block_runs_statements(
    g: GenState,
    list: Vec<CodeBlockStmt>,
    con: Option<Lbl>,
    bre: Option<Lbl>,
    inner: GenState,
)
    requires
        inner == (GenState { scopes: g.scopes.push(Seq::empty()), ..g }),
    ensures
        match inner.stmts(list, list@.len(), con, bre) {
            (g1, Ok(_)) => {
                let out = g.scoped(list, con, bre);
                &&& out.1 is Ok
                &&& out.0.code == g1.code
                &&& out.0.vregs == g1.vregs
                &&& out.0.blocks == g1.blocks
            },
            (g1, Err(fault)) => g.scoped(list, con, bre) == (g1, Err::<(), Fault>(fault)),
        },
{
    assert(inner == g.enter());
    let (g1, r) = inner.stmts(list, list@.len(), con, bre);
    lemma_exit_keeps_code(g1);
}

proof fn lemma_exit_keeps_code(g: GenState)
    ensures
        g.exit().code == g.code,
        g.exit().vregs == g.vregs,
        g.exit().blocks == g.blocks,
{
}

// -----------------------------------------------------------------------
// Conditions
// -----------------------------------------------------------------------

/// A comparison computes its left operand, then its right operand, brings both
/// to their common type, compares them with the predicate of its operator for
/// that type, and jumps on the outcome: to the first label if it holds.
pub proof fn law_comparison_code(g: GenState, e: ComExpr, t: Lbl, f: Lbl)
    ensures
        match g.unit(*e.left) {
            (g1, Err(fault)) => g.comparison(e, t, f) == (g1, Err::<(), Fault>(fault)),
            (g1, Ok(l)) => match g1.unit(*e.right) {
                (g2, Err(fault)) => g.comparison(e, t, f) == (g2, Err::<(), Fault>(fault)),
                (g2, Ok(r)) => match g2.numeric_pair(l, r) {
                    (g3, Err(fault)) => g.comparison(e, t, f) == (g3, Err::<(), Fault>(fault)),
                    (g3, Ok((l, r, ty))) => {
                        let dst = Val::Local(g3.fresh(Ty::I1));
                        &&& g.comparison(e, t, f).1 is Ok
                        &&& g.comparison(e, t, f).0.code == g3.code.push(
                            if ty == Ty::F32 {
                                Inst::FCmp {
                                    float_predicate: match e.op {
                                        ComOp::Lt => FloatCmpPredicate::Olt,
                                        ComOp::Le => FloatCmpPredicate::Ole,
                                        ComOp::Gt => FloatCmpPredicate::Ogt,
                                        ComOp::Ge => FloatCmpPredicate::Oge,
                                        ComOp::Eq => FloatCmpPredicate::Oeq,
                                        ComOp::Ne => FloatCmpPredicate::One,
                                    },
                                    left: l,
                                    right: r,
                                    dst,
                                }
                            } else {
                                Inst::Cmp {
                                    predicate: match e.op {
                                        ComOp::Lt => CmpPredicate::Slt,
                                        ComOp::Le => CmpPredicate::Sle,
                                        ComOp::Gt => CmpPredicate::Sgt,
                                        ComOp::Ge => CmpPredicate::Sge,
                                        ComOp::Eq => CmpPredicate::Eq,
                                        ComOp::Ne => CmpPredicate::Ne,
                                    },
                                    left: l,
                                    right: r,
                                    dst,
                                }
                            },
                        ).push(Inst::CJump { cond: dst, true_label: t, false_label: f })
                    },
                },
            },
        },
{
}

/// A boolean expression branches as its operation or unit does, a unit as its
/// comparison, its parenthesised expression, or its operand with the labels
/// swapped.
pub proof fn law_branch_kinds(g: GenState, e: BoolExpr, u: BoolUnit, t: Lbl, f: Lbl)
    ensures
        match e.inner {
            BoolExprInner::BoolBiOpExpr(op) => g.branch(e, t, f) == g.bool_biop(*op, t, f),
            BoolExprInner::BoolUnit(unit) => g.branch(e, t, f) == g.bool_unit(*unit, t, f),
        },
        match u.inner {
            BoolUnitInner::ComExpr(c) => g.bool_unit(u, t, f) == g.comparison(*c, t, f),
            BoolUnitInner::BoolExpr(b) => g.bool_unit(u, t, f) == g.branch(*b, t, f),
            BoolUnitInner::BoolUOpExpr(n) => g.bool_unit(u, t, f) == g.bool_unit(*n.cond, f, t),
        },
{
}

/// `a && b` tests `a`, and goes to the second label if it is false; `a || b`
/// tests `a`, and goes to the first label if it is true.  Otherwise `b` decides,
/// under a label of its own that no other code has.
pub proof fn law_operator_code(g: GenState, e: BoolBiOpExpr, t: Lbl, f: Lbl)
    ensures
        ({
            let undecided = Lbl::Block(g.blocks);
            let g0 = GenState { blocks: g.blocks + 1, ..g };
            let (g1, left) = if e.op == BoolBiOp::And {
                g0.branch(*e.left, undecided, f)
            } else {
                g0.branch(*e.left, t, undecided)
            };
            let labelled = GenState { code: g1.code.push(Inst::Label(undecided)), ..g1 };
            match left {
                Err(fault) => g.bool_biop(e, t, f) == (g1, Err::<(), Fault>(fault)),
                Ok(_) => g.bool_biop(e, t, f) == labelled.branch(*e.right, t, f),
            }
        }),
{
}

/// A boolean expression as a value: a slot is reserved, the branch is taken, 1
/// is stored under its first label and 0 under its second, both go on behind
/// them, and there the slot is read.
pub proof fn law_truth_value_code(g: GenState, e: BoolExpr)
    ensures
        ({
            let (t, f, after) = (
                Lbl::Block(g.blocks),
                Lbl::Block(g.blocks + 1),
                Lbl::Block(g.blocks + 2),
            );
            let slot = Val::Local(g.fresh(Ty::I32.ptr()));
            let start = GenState {
                blocks: g.blocks + 3,
                vregs: g.vregs + 1,
                code: g.code.push(Inst::Alloca { dst: slot }),
                ..g
            };
            match start.branch(e, t, f) {
                (g1, Err(fault)) => g.bool_value(e) == (g1, Err::<Val, Fault>(fault)),
                (g1, Ok(_)) => {
                    &&& g.bool_value(e).1 matches Ok(value)
                    &&& value == Val::Local(g1.fresh(Ty::I32))
                    &&& g.bool_value(e).0.code == g1.code.push(Inst::Label(t)).push(
                        Inst::Store { src: Val::Int(1), ptr: slot },
                    ).push(Inst::Jump { target: after }).push(Inst::Label(f)).push(
                        Inst::Store { src: Val::Int(0), ptr: slot },
                    ).push(Inst::Jump { target: after }).push(Inst::Label(after)).push(
                        Inst::Load { dst: value, ptr: slot },
                    )
                },
            }
        }),
{
}

// -----------------------------------------------------------------------
// Control flow
// -----------------------------------------------------------------------

/// An `if` runs the statements of its first block under the label that its
/// condition goes to if it is true, and those of its second block, if it has
/// one, under the label that it goes to if it is false, both inside the same
/// loop as the `if`; behind each of them the run goes on at the end.
pub proof fn law_if_code(g: GenState, s: IfStmt, con: Option<Lbl>, bre: Option<Lbl>)
    ensures
        ({
            let (t, f, after) = (
                Lbl::Block(g.blocks),
                Lbl::Block(g.blocks + 1),
                Lbl::Block(g.blocks + 2),
            );
            let out = g.conditional(s, con, bre);
            let g0 = GenState { blocks: g.blocks + 3, ..g };
            let (g1, cond) = g0.bool_unit(s.bool_unit, t, f);
            let (g2, first) = GenState { code: g1.code.push(Inst::Label(t)), ..g1 }.scoped(
                s.if_stmts,
                con,
                bre,
            );
            let g3 = GenState {
                code: g2.code.push(Inst::Jump { target: after }).push(Inst::Label(f)),
                ..g2
            };
            let (g4, second) = if s.else_stmts is Some {
                g3.scoped(s.else_stmts->Some_0, con, bre)
            } else {
                (g3, Ok(()))
            };
            if cond is Err {
                out == (g1, Err::<(), Fault>(cond->Err_0))
            } else if first is Err {
                out == (g2, Err::<(), Fault>(first->Err_0))
            } else if second is Err {
                out == (g4, Err::<(), Fault>(second->Err_0))
            } else {
                &&& out.1 is Ok
                &&& out.0.code == g4.code.push(Inst::Jump { target: after }).push(
                    Inst::Label(after),
                )
            }
        }),
{
}

/// A `while` loop tests its condition, runs all its statements if it is true,
/// and goes back to the test.  In its statements `continue` goes to the test,
/// and `break` goes behind the loop.
pub proof fn law_while_code(g: GenState, s: WhileStmt)
    ensures
        ({
            let (test, body, behind) = (
                Lbl::Block(g.blocks),
                Lbl::Block(g.blocks + 1),
                Lbl::Block(g.blocks + 2),
            );
            let out = g.while_loop(s);
            let g0 = GenState {
                blocks: g.blocks + 3,
                code: g.code.push(Inst::Jump { target: test }).push(Inst::Label(test)),
                ..g
            };
            let (g1, cond) = g0.bool_unit(s.bool_unit, body, behind);
            let (g2, run) = GenState { code: g1.code.push(Inst::Label(body)), ..g1 }.scoped(
                s.stmts,
                Some(test),
                Some(behind),
            );
            if cond is Err {
                out == (g1, Err::<(), Fault>(cond->Err_0))
            } else if run is Err {
                out == (g2, Err::<(), Fault>(run->Err_0))
            } else {
                &&& out.1 is Ok
                &&& out.0.code == g2.code.push(Inst::Jump { target: test }).push(
                    Inst::Label(behind),
                )
            }
        }),
{
}

/// A bound of a range: a literal is the number itself, and adds no code; a
/// variable is read; an expression or a call gives its value; and what is no
/// `i32` is converted to one.
pub proof fn law_bound_value(g: GenState, b: RangeBound)
    ensures
        match b.inner {
            RangeBoundInner::Num(n) => g.bound(b) == (g, Ok::<Val, Fault>(Val::Int(n))),
            RangeBoundInner::Id(id) => match g.variable(id@) {
                Err(fault) => g.bound(b) == (g, Err::<Val, Fault>(fault)),
                Ok(address) => exists|read: (GenState, Result<Val, Fault>)|
                    {
                        &&& #[trigger] crate::ir::gen::places::gives_stored(g, address, read)
                        &&& g.bound(b) == read.0.convert(read.1->Ok_0, Ty::I32)
                    },
            },
            RangeBoundInner::ArithExpr(e) => match g.arith(*e) {
                (g1, Err(fault)) => g.bound(b) == (g1, Err::<Val, Fault>(fault)),
                (g1, Ok(v)) => g.bound(b) == g1.convert(v, Ty::I32),
            },
            RangeBoundInner::FnCall(c) => match g.call(*c) {
                (g1, Err(fault)) => g.bound(b) == (g1, Err::<Val, Fault>(fault)),
                (g1, Ok(Some(v))) => g.bound(b) == g1.convert(v, Ty::I32),
                (g1, Ok(None)) => g.bound(b).0 == g1 && (g.bound(b).1 matches Err(
                    Fault::InvalidExprUnit(u),
                ) && u.pos == b.pos && u.inner == crate::ast::expr::ExprUnitInner::FnCall(c)),
            },
        },
{
    if let RangeBoundInner::Id(id) = b.inner {
        if let Ok(address) = g.variable(id@) {
            let (g1, v) = g.load_scalar(address);
            assert(crate::ir::gen::places::gives_stored(g, address, (g1, Ok::<Val, Fault>(v))));
        }
    }
}

/// A `for` loop computes its first bound, then its second, each once.  In a
/// scope of its own it stores the first into a new slot that its iterator stands
/// for, and the second into another new slot.  While what the first holds is
/// below what the second holds it runs all its statements, adds 1 to the first,
/// and goes back to the test.  In its statements `continue` goes to that
/// addition, and `break` goes behind the loop.
pub proof fn law_for_code(g: GenState, s: ForStmt)
    requires
        g.bound(s.start).1 is Ok,
        g.bound(s.start).0.bound(s.end).1 is Ok,
        !g.locals.contains_key(s.iterator@),
    ensures
        ({
            let (g1, start) = g.bound(s.start);
            let (g2, end) = g1.bound(s.end);
            let (test, body, step, behind) = (
                Lbl::Block(g2.blocks),
                Lbl::Block(g2.blocks + 1),
                Lbl::Block(g2.blocks + 2),
                Lbl::Block(g2.blocks + 3),
            );
            let n = g2.vregs;
            let iter = Val::Local(crate::ir::value::Reg { id: n, ty: Ty::I32.ptr() });
            let limit = Val::Local(crate::ir::value::Reg { id: n + 1, ty: Ty::I32.ptr() });
            let current = Val::Local(crate::ir::value::Reg { id: n + 2, ty: Ty::I32 });
            let last = Val::Local(crate::ir::value::Reg { id: n + 3, ty: Ty::I32 });
            let below = Val::Local(crate::ir::value::Reg { id: n + 4, ty: Ty::I1 });
            let entered = GenState {
                blocks: g2.blocks + 4,
                vregs: n + 5,
                locals: g2.locals.insert(s.iterator@, iter->Local_0),
                scopes: g2.scopes.push(seq![s.iterator@]),
                code: g2.code.push(Inst::Alloca { dst: iter }).push(
                    Inst::Store { src: start->Ok_0, ptr: iter },
                ).push(Inst::Alloca { dst: limit }).push(
                    Inst::Store { src: end->Ok_0, ptr: limit },
                ).push(Inst::Jump { target: test }).push(Inst::Label(test)).push(
                    Inst::Load { dst: current, ptr: iter },
                ).push(Inst::Load { dst: last, ptr: limit }).push(
                    Inst::Cmp {
                        predicate: CmpPredicate::Slt,
                        left: current,
                        right: last,
                        dst: below,
                    },
                ).push(
                    Inst::CJump { cond: below, true_label: body, false_label: behind },
                ).push(Inst::Label(body)),
                ..g2
            };
            let (g3, run) = entered.scoped(s.stmts, Some(step), Some(behind));
            let old = Val::Local(crate::ir::value::Reg { id: g3.vregs, ty: Ty::I32 });
            let new = Val::Local(crate::ir::value::Reg { id: g3.vregs + 1, ty: Ty::I32 });
            let out = g.for_loop(s);
            match run {
                Err(fault) => out == (g3, Err::<(), Fault>(fault)),
                Ok(_) => {
                    &&& out.1 is Ok
                    &&& out.0.code == g3.code.push(Inst::Jump { target: step }).push(
                        Inst::Label(step),
                    ).push(Inst::Load { dst: old, ptr: iter }).push(
                        Inst::BiOp {
                            kind: ArithBinOp::Add,
                            left: old,
                            right: Val::Int(1),
                            dst: new,
                        },
                    ).push(Inst::Store { src: new, ptr: iter }).push(
                        Inst::Jump { target: test },
                    ).push(Inst::Label(behind))
                },
            }
        }),
{
    crate::ir::gen::growth::lemma_bound(g, s.start);
    let (g1, start) = g.bound(s.start);
    crate::ir::gen::growth::lemma_bound(g1, s.end);
    let (g2, end) = g1.bound(s.end);
    assert(g.for_loop(s) == g2.counted_loop(s, start->Ok_0, end->Ok_0));
    lemma_counted_loop_code(g2, s, start->Ok_0, end->Ok_0);
}

#[verifier::spinoff_prover]
proof fn lemma_counted_loop_code(g: GenState, s: ForStmt, start: Val, end: Val)
    requires
        !g.locals.contains_key(s.iterator@),
    ensures
        ({
            let (test, body, step, behind) = (
                Lbl::Block(g.blocks),
                Lbl::Block(g.blocks + 1),
                Lbl::Block(g.blocks + 2),
                Lbl::Block(g.blocks + 3),
            );
            let n = g.vregs;
            let iter = Val::Local(crate::ir::value::Reg { id: n, ty: Ty::I32.ptr() });
            let limit = Val::Local(crate::ir::value::Reg { id: n + 1, ty: Ty::I32.ptr() });
            let current = Val::Local(crate::ir::value::Reg { id: n + 2, ty: Ty::I32 });
            let last = Val::Local(crate::ir::value::Reg { id: n + 3, ty: Ty::I32 });
            let below = Val::Local(crate::ir::value::Reg { id: n + 4, ty: Ty::I1 });
            let entered = GenState {
                blocks: g.blocks + 4,
                vregs: n + 5,
                locals: g.locals.insert(s.iterator@, iter->Local_0),
                scopes: g.scopes.push(seq![s.iterator@]),
                code: g.code.push(Inst::Alloca { dst: iter }).push(
                    Inst::Store { src: start, ptr: iter },
                ).push(Inst::Alloca { dst: limit }).push(
                    Inst::Store { src: end, ptr: limit },
                ).push(Inst::Jump { target: test }).push(Inst::Label(test)).push(
                    Inst::Load { dst: current, ptr: iter },
                ).push(Inst::Load { dst: last, ptr: limit }).push(
                    Inst::Cmp {
                        predicate: CmpPredicate::Slt,
                        left: current,
                        right: last,
                        dst: below,
                    },
                ).push(
                    Inst::CJump { cond: below, true_label: body, false_label: behind },
                ).push(Inst::Label(body)),
                ..g
            };
            let (g3, run) = entered.scoped(s.stmts, Some(step), Some(behind));
            let old = Val::Local(crate::ir::value::Reg { id: g3.vregs, ty: Ty::I32 });
            let new = Val::Local(crate::ir::value::Reg { id: g3.vregs + 1, ty: Ty::I32 });
            let out = g.counted_loop(s, start, end);
            match run {
                Err(fault) => out == (g3, Err::<(), Fault>(fault)),
                Ok(_) => {
                    &&& out.1 is Ok
                    &&& out.0.code == g3.code.push(Inst::Jump { target: step }).push(
                        Inst::Label(step),
                    ).push(Inst::Load { dst: old, ptr: iter }).push(
                        Inst::BiOp {
                            kind: ArithBinOp::Add,
                            left: old,
                            right: Val::Int(1),
                            dst: new,
                        },
                    ).push(Inst::Store { src: new, ptr: iter }).push(
                        Inst::Jump { target: test },
                    ).push(Inst::Label(behind))
                },
            }
        }),
{
    let (test, body, step, behind) = (g.label(0), g.label(1), g.label(2), g.label(3));
    let g0 = g.with_blocks(4);
    let opened = g0.enter().with_slot(Ty::I32);
    assert(opened.bind(s.iterator@, g0.fresh(Ty::I32.ptr())).1 is Ok);
    let (h, slots) = g0.for_head(s.iterator@, start, end, test);
    let (iter, limit) = slots->Ok_0;
    assert(h.scopes =~= g.scopes.push(seq![s.iterator@]));
    let tested = h.for_test(iter, limit, body, behind).emit(Inst::Label(body));
    let (g3, run) = tested.scoped(s.stmts, Some(step), Some(behind));
    if let Ok(_) = run {
        let stepped = g3.emit(Inst::Jump { target: step }).emit(Inst::Label(step)).for_step(iter);
        let done = stepped.emit(Inst::Jump { target: test }).emit(Inst::Label(behind));
        assert(g.counted_loop(s, start, end) == (done.exit(), Ok::<(), Fault>(())));
        assert(done.exit().code == done.code);
    }
}

/// A `for` loop is rejected before its statements exactly where a bound is, with
/// the fault of the first of them, and where its iterator has the name of a
/// known local.
pub proof fn law_for_rejected(g: GenState, s: ForStmt)
    ensures
        match g.bound(s.start) {
            (g1, Err(fault)) => g.for_loop(s) == (g1, Err::<(), Fault>(fault)),
            (g1, Ok(_)) => match g1.bound(s.end) {
                (g2, Err(fault)) => g.for_loop(s) == (g2, Err::<(), Fault>(fault)),
                (g2, Ok(_)) => g.locals.contains_key(s.iterator@) ==> g.for_loop(s).1 == Err::<
                    (),
                    Fault,
                >(Fault::VariableRedefinition(s.iterator@)),
            },
        },
{
    crate::ir::gen::growth::lemma_bound(g, s.start);
    crate::ir::gen::growth::lemma_bound(g.bound(s.start).0, s.end);
}

// -----------------------------------------------------------------------
// Functions
// -----------------------------------------------------------------------

/// An argument gets a new register of its type.  A receiver, a parameter `self`
/// that points to a struct, is the address that its name stands for; any other
/// argument is stored into a new slot, and its name stands for the slot.  A
/// name that is known already is reported.
pub proof fn law_parameter_taken(g: GenState, p: Param)
    ensures
        ({
            let (out, r) = g.parameter(p);
            let arg = crate::ir::value::Reg { id: g.vregs, ty: p.ty };
            let slot = crate::ir::value::Reg { id: g.vregs + 1, ty: p.ty.ptr() };
            if g.locals.contains_key(p.name) {
                (out, r) == (g, Err::<(), Fault>(Fault::VariableRedefinition(p.name)))
            } else {
                &&& r is Ok
                &&& out.args == g.args.push(arg)
                &&& if p.name == "self"@ && p.ty is Pointer && p.ty.stored() is Struct {
                    &&& out.code == g.code
                    &&& out.locals == g.locals.insert(p.name, arg)
                } else {
                    &&& out.code == g.code.push(Inst::Alloca { dst: Val::Local(slot) }).push(
                        Inst::Store { src: Val::Local(arg), ptr: Val::Local(slot) },
                    )
                    &&& out.locals == g.locals.insert(p.name, slot)
                }
            }
        }),
{
}

/// The parameters are taken over in order, none of them left out; the first that
/// fails ends the function.
pub proof fn law_parameters_in_order(g: GenState, params: Seq<Param>, k: nat, n: nat)
    requires
        k < n <= params.len(),
    ensures
        g.parameters(params, 0) == (g, Ok::<(), Fault>(())),
        match g.parameters(params, k) {
            (g1, Ok(_)) => g.parameters(params, k + 1) == g1.parameter(params[k as int]),
            (g1, Err(fault)) => g.parameters(params, n) == (g1, Err::<(), Fault>(fault)),
        },
    decreases n,
{
    if k + 1 < n {
        law_parameters_in_order(g, params, k, (n - 1) as nat);
    }
}

/// A function starts with its entry label, under its symbol, takes over all its
/// parameters, runs all statements of its body, outside any loop, and ends in a
/// return.  In its body `return` converts to its return type, and `Self` is the
/// struct whose name stands before the last `::` of its name.  A function that
/// is not declared is reported under its name.
pub proof fn law_function_code(g: GenState, f: FnDef)
    ensures
        ({
            let name = f.fn_decl.identifier@;
            let sig = g.env.functions[name];
            let start = GenState {
                code: g.code.push(Inst::Label(Lbl::Function(g.link_name(name)))),
                ret: Some(sig.ret),
                impl_type: match crate::ir::gen::scheme::path_head(name) {
                    Some(head) => if g.env.structs.contains_key(head) {
                        Some(head)
                    } else {
                        None
                    },
                    None => None,
                },
                ..g
            };
            let (g1, taken) = start.parameters(sig.params, sig.params.len());
            let (g2, run) = g1.stmts(f.stmts, f.stmts@.len(), None, None);
            let out = g.function(f);
            if !g.env.functions.contains_key(name) {
                out.1 == Err::<(), Fault>(Fault::FunctionNotDefined(name)) && out.0.code == g.code
            } else if taken is Err {
                out == (g1, Err::<(), Fault>(taken->Err_0))
            } else if run is Err {
                out == (g2, Err::<(), Fault>(run->Err_0))
            } else {
                out == g2.returned(name, sig.ret)
            }
        }),
{
}

} // verus!
