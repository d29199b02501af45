//! Registers and labels are used once: no register is defined twice, no label
//! is placed twice, and every jump goes to a label that is placed.

use crate::ast::decl::{ArrayInitializer, FnDef, VarDecl, VarDef, VarDefInner};
use crate::ast::expr::{
    ArithExpr, ArithExprInner, ArrayExpr, BoolBiOp, BoolBiOpExpr, BoolExpr, BoolExprInner,
    BoolUnit, BoolUnitInner, ComExpr, ExprUnit, ExprUnitInner, FnCall, LeftVal, LeftValInner,
    MemberExpr, RightVal, RightValInner,
};
use crate::ast::stmt::{
    AssignmentStmt, CodeBlockStmt, CodeBlockStmtInner, ForStmt, IfStmt, RangeBound,
    RangeBoundInner, ReturnStmt, VarDeclStmtInner, WhileStmt,
};
use crate::ir::function::GenState;
use crate::ir::registry::Param;
use crate::ir::stmt::{Inst, Lbl};
use crate::ir::types::Ty;
use crate::ir::value::Val;
use vstd::prelude::*;

verus! {

impl Val {
    /// The number of the register that the value is.
    pub open spec fn reg(self) -> Option<nat> {
        match self {
            Val::Local(reg) => Some(reg.id),
            _ => None,
        }
    }
}

impl Inst {
    /// The register that the instruction writes.
    pub open spec fn defines(self) -> Option<nat> {
        match self {
            Inst::Alloca { dst } => dst.reg(),
            Inst::Load { dst, ptr } => dst.reg(),
            Inst::Gep { new_ptr, base_ptr, index } => new_ptr.reg(),
            Inst::BiOp { kind, left, right, dst } => dst.reg(),
            Inst::FBiOp { float_kind, left, right, dst } => dst.reg(),
            Inst::Cmp { predicate, left, right, dst } => dst.reg(),
            Inst::FCmp { float_predicate, left, right, dst } => dst.reg(),
            Inst::SiToFp { src, dst } => dst.reg(),
            Inst::FpToSi { src, dst } => dst.reg(),
            Inst::Call { func_name, res, args } => match res {
                Some(v) => v.reg(),
                None => None,
            },
            _ => None,
        }
    }

    /// Whether the instruction may jump to the label.
    pub open spec fn jumps_to(self, label: Lbl) -> bool {
        match self {
            Inst::Jump { target } => target == label,
            Inst::CJump { cond, true_label, false_label } => true_label == label || false_label
                == label,
            _ => false,
        }
    }
}

/// How many instructions write register `id`.
#[verifier::opaque]
pub open spec fn def_count(code: Seq<Inst>, id: nat) -> nat
    decreases code.len(),
{
    if code.len() == 0 {
        0
    } else {
        def_count(code.drop_last(), id) + if code.last().defines() == Some(id) {
            1nat
        } else {
            0nat
        }
    }
}

/// How many times a label is placed.
#[verifier::opaque]
pub open spec fn label_count(code: Seq<Inst>, label: Lbl) -> nat
    decreases code.len(),
{
    if code.len() == 0 {
        0
    } else {
        label_count(code.drop_last(), label) + if code.last() == Inst::Label(label) {
            1nat
        } else {
            0nat
        }
    }
}

/// Whether some instruction may jump to the label.
#[verifier::opaque]
pub open spec fn targeted(code: Seq<Inst>, label: Lbl) -> bool {
    exists|i: int| 0 <= i < code.len() && (#[trigger] code[i]).jumps_to(label)
}

broadcast proof fn lemma_def_count_push(code: Seq<Inst>, inst: Inst, id: nat)
    ensures
        #[trigger] def_count(code.push(inst), id) == def_count(code, id) + if inst.defines()
            == Some(id) {
            1nat
        } else {
            0nat
        },
{
    reveal(def_count);
    assert(code.push(inst).drop_last() =~= code);
}

broadcast proof fn lemma_label_count_push(code: Seq<Inst>, inst: Inst, label: Lbl)
    ensures
        #[trigger] label_count(code.push(inst), label) == label_count(code, label) + if inst
            == Inst::Label(label) {
            1nat
        } else {
            0nat
        },
{
    reveal(label_count);
    assert(code.push(inst).drop_last() =~= code);
}

broadcast proof fn lemma_targeted_push(code: Seq<Inst>, inst: Inst, label: Lbl)
    ensures
        #[trigger] targeted(code.push(inst), label) == (targeted(code, label) || inst.jumps_to(
            label,
        )),
{
    reveal(targeted);
    let longer = code.push(inst);
    if targeted(code, label) {
        let i = choose|i: int| 0 <= i < code.len() && (#[trigger] code[i]).jumps_to(label);
        assert(longer[i].jumps_to(label));
    }
    if inst.jumps_to(label) {
        assert(longer[code.len() as int].jumps_to(label));
    }
    if targeted(longer, label) {
        let i = choose|i: int| 0 <= i < longer.len() && (#[trigger] longer[i]).jumps_to(label);
        if i < code.len() {
            assert(code[i].jumps_to(label));
        }
    }
}

broadcast group group_push {
    lemma_def_count_push,
    lemma_label_count_push,
    lemma_targeted_push,
}

impl GenState {
    /// What lowering does to the numbering, where `ok` says whether it
    /// succeeded and `outside` is the set of labels it was told to jump to:
    ///
    /// - registers are written at most once more, and only those whose numbers
    ///   were handed out on the way;
    /// - of the blocks whose numbers were handed out on the way each is placed
    ///   at most once, and on success exactly once; no other label is placed;
    /// - jumps are added to those blocks and to the labels in `outside` only.
    pub open spec fn numbers_to(self, later: GenState, ok: bool, outside: Set<Lbl>) -> bool {
        &&& self.vregs <= later.vregs
        &&& self.blocks <= later.blocks
        &&& forall|id: nat|
            {
                let fresh = self.vregs <= id < later.vregs;
                &&& def_count(self.code, id) <= #[trigger] def_count(later.code, id)
                &&& def_count(later.code, id) <= def_count(self.code, id) + if fresh {
                    1nat
                } else {
                    0nat
                }
            }
        &&& forall|label: Lbl|
            {
                let fresh = self.handed_out(label, later);
                &&& label_count(self.code, label) <= #[trigger] label_count(later.code, label)
                &&& label_count(later.code, label) <= label_count(self.code, label) + if fresh {
                    1nat
                } else {
                    0nat
                }
                &&& ok && fresh ==> label_count(later.code, label) == label_count(
                    self.code,
                    label,
                ) + 1
            }
        &&& forall|label: Lbl|
            #[trigger] targeted(later.code, label) ==> targeted(self.code, label)
                || outside.contains(label) || self.handed_out(label, later)
    }

    /// What [`Self::numbers_to`] says of one label, which may also have been
    /// handed out before and be placed now.
    #[verifier::opaque]
    spec fn label_to(
        self,
        later: GenState,
        ok: bool,
        label: Lbl,
        placed: bool,
        outside: bool,
    ) -> bool {
        let fresh = self.handed_out(label, later);
        let more = if fresh || placed {
            1nat
        } else {
            0nat
        };
        let (before, after) = (label_count(self.code, label), label_count(later.code, label));
        &&& self.blocks <= later.blocks
        &&& before <= after <= before + more
        &&& ok ==> after == before + more
        &&& targeted(later.code, label) ==> targeted(self.code, label) || outside || fresh
    }

    /// What [`Self::numbers_to`] says of registers.
    spec fn registers_to(self, later: GenState) -> bool {
        &&& self.vregs <= later.vregs
        &&& forall|id: nat|
            {
                let fresh = self.vregs <= id < later.vregs;
                &&& def_count(self.code, id) <= #[trigger] def_count(later.code, id)
                &&& def_count(later.code, id) <= def_count(self.code, id) + if fresh {
                    1nat
                } else {
                    0nat
                }
            }
    }

    /// Whether the label is one of the blocks handed out between two states.
    pub open spec fn handed_out(self, label: Lbl, later: GenState) -> bool {
        match label {
            Lbl::Block(k) => self.blocks <= k < later.blocks,
            Lbl::Function(_) => false,
        }
    }
}

proof fn lemma_convert(g: GenState, v: Val, target: Ty)
    ensures
        g.numbers_to(g.convert(v, target).0, g.convert(v, target).1 is Ok, Set::empty()),
{
    broadcast use group_push;
}

proof fn lemma_numeric_pair(g: GenState, left: Val, right: Val)
    ensures
        g.numbers_to(
            g.numeric_pair(left, right).0,
            g.numeric_pair(left, right).1 is Ok,
            Set::empty(),
        ),
{
    lemma_convert(g, left, Ty::F32);
    if let (g1, Ok(_)) = g.convert(left, Ty::F32) {
        lemma_convert(g1, right, Ty::F32);
    }
}

proof fn lemma_load_scalar(g: GenState, v: Val)
    ensures
        g.numbers_to(g.load_scalar(v).0, true, Set::empty()),
{
    broadcast use group_push;
}

pub proof fn lemma_arith(g: GenState, e: ArithExpr)
    ensures
        g.numbers_to(g.arith(e).0, g.arith(e).1 is Ok, Set::empty()),
    decreases e, 0nat, 0nat,
{
    match e.inner {
        ArithExprInner::ArithBiOpExpr(biop) => {
            lemma_arith(g, *biop.left);
            if let (g1, Ok(l)) = g.arith(*biop.left) {
                lemma_arith(g1, *biop.right);
                if let (g2, Ok(r)) = g1.arith(*biop.right) {
                    lemma_numeric_pair(g2, l, r);
                    broadcast use group_push;
                }
            }
        },
        ArithExprInner::ExprUnit(unit) => {
            lemma_unit(g, *unit);
        },
    }
}

pub proof fn lemma_unit(g: GenState, u: ExprUnit)
    ensures
        g.numbers_to(g.unit(u).0, g.unit(u).1 is Ok, Set::empty()),
    decreases u, 0nat, 0nat,
{
    match u.inner {
        ExprUnitInner::Id(id) => {
            if let (g1, Ok(v)) = g.scalar_variable(id@) {
                lemma_load_scalar(g1, v);
            }
        },
        ExprUnitInner::ArithExpr(e) => {
            lemma_arith(g, *e);
            if let (g1, Ok(v)) = g.arith(*e) {
                lemma_load_scalar(g1, v);
            }
        },
        ExprUnitInner::FnCall(c) => {
            lemma_call(g, *c);
            if let (g1, Ok(Some(v))) = g.call(*c) {
                lemma_load_scalar(g1, v);
            }
        },
        ExprUnitInner::ArrayExpr(e) => {
            lemma_array(g, *e);
            if let (g1, Ok(v)) = g.array(*e) {
                lemma_load_scalar(g1, v);
            }
        },
        ExprUnitInner::MemberExpr(e) => {
            lemma_member(g, *e);
            if let (g1, Ok(v)) = g.member(*e) {
                lemma_load_scalar(g1, v);
            }
        },
        ExprUnitInner::Cast(cast) => {
            lemma_unit(g, *cast.expr);
            if let (g1, Ok(v)) = g.unit(*cast.expr) {
                lemma_convert(g1, v, Ty::of(cast.target_type));
                if let (g2, Ok(w)) = g1.convert(v, Ty::of(cast.target_type)) {
                    lemma_load_scalar(g2, w);
                }
            }
        },
        ExprUnitInner::Reference(id) => {
            broadcast use group_push;
        },
        _ => {},
    }
}

pub proof fn lemma_array(g: GenState, e: ArrayExpr)
    ensures
        g.numbers_to(g.array(e).0, g.array(e).1 is Ok, Set::empty()),
    decreases e, 0nat, 0nat,
{
    lemma_left(g, *e.arr);
    broadcast use group_push;
}

pub proof fn lemma_member(g: GenState, e: MemberExpr)
    ensures
        g.numbers_to(g.member(e).0, g.member(e).1 is Ok, Set::empty()),
    decreases e, 0nat, 0nat,
{
    lemma_left(g, *e.struct_id);
    broadcast use group_push;
}

pub proof fn lemma_left(g: GenState, l: LeftVal)
    ensures
        g.numbers_to(g.left(l).0, g.left(l).1 is Ok, Set::empty()),
    decreases l, 0nat, 0nat,
{
    match l.inner {
        LeftValInner::Id(_) => {},
        LeftValInner::ArrayExpr(e) => {
            lemma_array(g, *e);
        },
        LeftValInner::MemberExpr(e) => {
            lemma_member(g, *e);
        },
    }
}

pub proof fn lemma_right(g: GenState, r: RightVal)
    ensures
        g.numbers_to(g.right(r).0, g.right(r).1 is Ok, Set::empty()),
    decreases r, 0nat, 0nat,
{
    match r.inner {
        RightValInner::ArithExpr(e) => {
            lemma_arith(g, *e);
        },
        RightValInner::BoolExpr(e) => {
            lemma_bool_value(g, *e);
        },
    }
}

pub proof fn lemma_call(g: GenState, c: FnCall)
    ensures
        g.numbers_to(g.call(c).0, g.call(c).1 is Ok, Set::empty()),
    decreases c, 1nat, 0nat,
{
    if let Some(receiver) = c.receiver {
        lemma_left(g, *receiver);
    }
    if let (g1, Ok((receiver, name))) = g.callee(c) {
        if g1.env.functions.contains_key(name) {
            let sig = g1.env.functions[name];
            if let Some(ptr) = receiver {
                if sig.params.len() > 0 {
                    lemma_convert(g1, ptr, sig.params[0].ty);
                }
            }
            if let (g2, Ok(first)) = g1.receiver_args(receiver, sig.params) {
                lemma_explicit_args(g2, c, c.vals@.len(), first, sig.params);
                broadcast use group_push;
            }
        }
    }
}

pub proof fn lemma_explicit_args(g: GenState, c: FnCall, n: nat, first: Seq<Val>, params: Seq<Param>)
    ensures
        g.numbers_to(
            g.explicit_args(c, n, first, params).0,
            g.explicit_args(c, n, first, params).1 is Ok,
            Set::empty(),
        ),
    decreases c, 0nat, n,
{
    if 0 < n <= c.vals.len() {
        lemma_explicit_args(g, c, (n - 1) as nat, first, params);
        if let (g1, Ok(_)) = g.explicit_args(c, (n - 1) as nat, first, params) {
            lemma_right(g1, c.vals[n - 1]);
            if let (g2, Ok(v)) = g1.right(c.vals[n - 1]) {
                let position = n - 1 + first.len();
                if position < params.len() {
                    lemma_convert(g2, v, params[position].ty);
                }
            }
        }
    }
}

pub proof fn lemma_bool_value(g: GenState, e: BoolExpr)
    ensures
        g.numbers_to(g.bool_value(e).0, g.bool_value(e).1 is Ok, Set::empty()),
    decreases e, 1nat, 0nat,
{
    let (t, f) = (g.label(0), g.label(1));
    lemma_branch(g.with_blocks(3).with_slot(Ty::I32), e, t, f);
    broadcast use group_push;
}

pub proof fn lemma_branch(g: GenState, e: BoolExpr, t: Lbl, f: Lbl)
    ensures
        g.numbers_to(g.branch(e, t, f).0, g.branch(e, t, f).1 is Ok, set![t, f]),
    decreases e, 0nat, 0nat,
{
    match e.inner {
        BoolExprInner::BoolBiOpExpr(biop) => {
            lemma_bool_biop(g, *biop, t, f);
        },
        BoolExprInner::BoolUnit(unit) => {
            lemma_bool_unit(g, *unit, t, f);
        },
    }
}

pub proof fn lemma_bool_biop(g: GenState, e: BoolBiOpExpr, t: Lbl, f: Lbl)
    ensures
        g.numbers_to(g.bool_biop(e, t, f).0, g.bool_biop(e, t, f).1 is Ok, set![t, f]),
    decreases e, 0nat, 0nat,
{
    let undecided = g.label(0);
    let g0 = g.with_blocks(1);
    let left = match e.op {
        BoolBiOp::And => g0.branch(*e.left, undecided, f),
        BoolBiOp::Or => g0.branch(*e.left, t, undecided),
    };
    lemma_branch(g0, *e.left, undecided, f);
    lemma_branch(g0, *e.left, t, undecided);
    lemma_branch(left.0.emit(Inst::Label(undecided)), *e.right, t, f);
    broadcast use group_push;
}

pub proof fn lemma_bool_unit(g: GenState, u: BoolUnit, t: Lbl, f: Lbl)
    ensures
        g.numbers_to(g.bool_unit(u, t, f).0, g.bool_unit(u, t, f).1 is Ok, set![t, f]),
    decreases u, 0nat, 0nat,
{
    match u.inner {
        BoolUnitInner::ComExpr(e) => {
            lemma_comparison(g, *e, t, f);
        },
        BoolUnitInner::BoolExpr(e) => {
            lemma_branch(g, *e, t, f);
        },
        BoolUnitInner::BoolUOpExpr(e) => {
            lemma_bool_unit(g, *e.cond, f, t);
            assert(set![t, f] =~= set![f, t]);
        },
    }
}

pub proof fn lemma_comparison(g: GenState, e: ComExpr, t: Lbl, f: Lbl)
    ensures
        g.numbers_to(g.comparison(e, t, f).0, g.comparison(e, t, f).1 is Ok, set![t, f]),
    decreases e, 0nat, 0nat,
{
    lemma_unit(g, *e.left);
    if let (g1, Ok(l)) = g.unit(*e.left) {
        lemma_unit(g1, *e.right);
        if let (g2, Ok(r)) = g1.unit(*e.right) {
            lemma_numeric_pair(g2, l, r);
            broadcast use group_push;
        }
    }
}

proof fn lemma_label_at(g: GenState, z: GenState, ok: bool, outside: Set<Lbl>, label: Lbl)
    requires
        g.numbers_to(z, ok, outside),
    ensures
        g.label_to(z, ok, label, false, outside.contains(label)),
{
    reveal(GenState::label_to);
}

proof fn lemma_by_label(g: GenState, z: GenState, ok: bool, outside: Set<Lbl>)
    requires
        g.registers_to(z),
        forall|label: Lbl| #[trigger]
            g.label_to(z, ok, label, false, outside.contains(label)),
    ensures
        g.numbers_to(z, ok, outside),
{
    reveal(GenState::label_to);
    assert(g.label_to(z, ok, g.label(0), false, outside.contains(g.label(0))));
    assert forall|label: Lbl| ok && g.handed_out(label, z) implies #[trigger] label_count(
        z.code,
        label,
    ) == label_count(g.code, label) + 1 by {
        assert(g.label_to(z, ok, label, false, outside.contains(label)));
    }
    assert forall|label: Lbl|
        label_count(g.code, label) <= #[trigger] label_count(z.code, label) && label_count(
            z.code,
            label,
        ) <= label_count(g.code, label) + if g.handed_out(label, z) {
            1nat
        } else {
            0nat
        } by {
        assert(g.label_to(z, ok, label, false, outside.contains(label)));
    }
    assert forall|label: Lbl| #[trigger] targeted(z.code, label) implies targeted(g.code, label)
        || outside.contains(label) || g.handed_out(label, z) by {
        assert(g.label_to(z, ok, label, false, outside.contains(label)));
    }
}

/// A label, seen from any label.
proof fn lemma_place(g: GenState, placed: Lbl, label: Lbl)
    ensures
        g.label_to(g.emit(Inst::Label(placed)), true, label, label == placed, false),
{
    broadcast use group_push;

    reveal(GenState::label_to);
}

/// A jump and a label, seen from any label.
proof fn lemma_jump_and_place(g: GenState, target: Lbl, placed: Lbl, label: Lbl)
    ensures
        g.label_to(
            g.emit(Inst::Jump { target }).emit(Inst::Label(placed)),
            true,
            label,
            label == placed,
            label == target,
        ),
{
    broadcast use group_push;

    reveal(GenState::label_to);
}

/// Two steps, seen from one label: it is placed at most once, and if so, it was
/// handed out before.
proof fn lemma_label_then(
    a: GenState,
    b: GenState,
    c: GenState,
    ok: bool,
    label: Lbl,
    p: bool,
    q: bool,
    o: bool,
    r: bool,
)
    requires
        a.label_to(b, true, label, p, o),
        b.label_to(c, ok, label, q, r),
        !(p && q),
        p || q ==> label is Block && label->Block_0 < a.blocks,
    ensures
        a.label_to(c, ok, label, p || q, o || r),
{
    reveal(GenState::label_to);
}

/// The whole, seen from one label, where `n` labels were handed out first; on
/// success all of them are placed.
proof fn lemma_label_close(
    g: GenState,
    n: nat,
    z: GenState,
    ok: bool,
    label: Lbl,
    p: bool,
    o: bool,
    outside: bool,
)
    requires
        g.with_blocks(n).label_to(z, ok, label, p, o),
        p || (o && !outside) ==> label is Block && g.blocks <= label->Block_0 < g.blocks + n,
        ok && label is Block && g.blocks <= label->Block_0 < g.blocks + n ==> p,
    ensures
        g.label_to(z, ok, label, false, outside),
{
    reveal(GenState::label_to);
}

/// Labels and jumps write no register.
proof fn lemma_registers_kept(g: GenState, inst: Inst)
    requires
        inst is Label || inst is Jump,
    ensures
        g.registers_to(g.emit(inst)),
{
    broadcast use group_push;

}

proof fn lemma_registers_then(a: GenState, b: GenState, c: GenState)
    requires
        a.registers_to(b),
        b.registers_to(c),
    ensures
        a.registers_to(c),
{
}

proof fn lemma_registers_jump(a: GenState, b: GenState, target: Lbl, placed: Lbl)
    requires
        a.registers_to(b),
    ensures
        a.registers_to(b.emit(Inst::Jump { target }).emit(Inst::Label(placed))),
{
    let c = b.emit(Inst::Jump { target });
    lemma_registers_kept(b, Inst::Jump { target });
    lemma_registers_kept(c, Inst::Label(placed));
    lemma_registers_then(a, b, c);
    lemma_registers_then(a, c, c.emit(Inst::Label(placed)));
}

proof fn lemma_registers_label(a: GenState, b: GenState, placed: Lbl)
    requires
        a.registers_to(b),
    ensures
        a.registers_to(b.emit(Inst::Label(placed))),
{
    lemma_registers_kept(b, Inst::Label(placed));
    lemma_registers_then(a, b, b.emit(Inst::Label(placed)));
}

/// The labels that `continue` and `break` jump to.
pub open spec fn loop_labels(con: Option<Lbl>, bre: Option<Lbl>) -> Set<Lbl> {
    Set::new(|label: Lbl| con == Some(label) || bre == Some(label))
}

proof fn lemma_store_list(g: GenState, base: Val, element: Ty, list: Seq<RightVal>, n: nat)
    ensures
        g.numbers_to(
            g.store_list(base, element, list, n).0,
            g.store_list(base, element, list, n).1 is Ok,
            Set::empty(),
        ),
    decreases n,
{
    if n > 0 {
        lemma_store_list(g, base, element, list, (n - 1) as nat);
        if let (g1, Ok(_)) = g.store_list(base, element, list, (n - 1) as nat) {
            lemma_right(g1.taken(), list[n - 1]);
            if let (g2, Ok(v)) = g1.taken().right(list[n - 1]) {
                lemma_convert(g2, v, element);
                broadcast use group_push;
            }
        }
    }
}

proof fn lemma_store_fill(g: GenState, base: Val, element: Ty, v: Val, n: nat)
    ensures
        g.numbers_to(
            g.store_fill(base, element, v, n).0,
            g.store_fill(base, element, v, n).1 is Ok,
            Set::empty(),
        ),
    decreases n,
{
    if n > 0 {
        lemma_store_fill(g, base, element, v, (n - 1) as nat);
        broadcast use group_push;
    }
}

proof fn lemma_initialize(g: GenState, base: Val, initializer: ArrayInitializer)
    ensures
        g.numbers_to(
            g.initialize(base, initializer).0,
            g.initialize(base, initializer).1 is Ok,
            Set::empty(),
        ),
{
    if let Some(element) = GenState::array_behind(base) {
        match initializer {
            ArrayInitializer::ExplicitList(list) => {
                lemma_store_list(g, base, element, list@, list@.len());
            },
            ArrayInitializer::Fill { val, count } => {
                lemma_right(g, *val);
                if let (g1, Ok(v)) = g.right(*val) {
                    lemma_convert(g1, v, element);
                    if let (g2, Ok(w)) = g1.convert(v, element) {
                        lemma_store_fill(g2, base, element, w, count as nat);
                    }
                }
            },
        }
    }
}

proof fn lemma_declare(g: GenState, d: VarDecl)
    ensures
        g.numbers_to(g.declare(d).0, g.declare(d).1 is Ok, Set::empty()),
{
    broadcast use group_push;
}

proof fn lemma_define(g: GenState, d: VarDef)
    ensures
        g.numbers_to(g.define(d).0, g.define(d).1 is Ok, Set::empty()),
{
    let ty = g.def_type(d);
    match d.inner {
        VarDefInner::Scalar(scalar) => {
            lemma_right(g, scalar.val);
            if let (g1, Ok(v)) = g.right(scalar.val) {
                lemma_convert(g1, v, ty);
            }
            broadcast use group_push;
        },
        VarDefInner::Array(array) => {
            lemma_initialize(g.with_slot(ty), Val::Local(g.fresh(ty.ptr())), array.initializer);
            broadcast use group_push;
        },
    }
}

proof fn lemma_assign(g: GenState, s: AssignmentStmt)
    ensures
        g.numbers_to(g.assign(s).0, g.assign(s).1 is Ok, Set::empty()),
{
    lemma_left(g, s.left_val);
    if let (g1, Ok(place)) = g.left(s.left_val) {
        lemma_right(g1, s.right_val);
        if let (g2, Ok(v)) = g1.right(s.right_val) {
            lemma_convert(g2, v, place.ty().stored());
        }
    }
    broadcast use group_push;
}

proof fn lemma_give_back(g: GenState, s: ReturnStmt)
    ensures
        g.numbers_to(g.give_back(s).0, g.give_back(s).1 is Ok, Set::empty()),
{
    if let Some(val) = s.val {
        lemma_right(g, val);
        if let (g1, Ok(v)) = g.right(val) {
            if let Some(ty) = g.ret {
                lemma_convert(g1, v, ty);
            }
        }
    }
    broadcast use group_push;
}

proof fn lemma_bound(g: GenState, b: RangeBound)
    ensures
        g.numbers_to(g.bound(b).0, g.bound(b).1 is Ok, Set::empty()),
{
    match b.inner {
        RangeBoundInner::ArithExpr(e) => {
            lemma_arith(g, *e);
            if let (g1, Ok(v)) = g.arith(*e) {
                lemma_convert(g1, v, Ty::I32);
            }
        },
        RangeBoundInner::FnCall(c) => {
            lemma_call(g, *c);
            if let (g1, Ok(Some(v))) = g.call(*c) {
                lemma_convert(g1, v, Ty::I32);
            }
        },
        RangeBoundInner::Num(n) => {
            lemma_convert(g, Val::Int(n), Ty::I32);
        },
        RangeBoundInner::Id(id) => {
            if let Ok(v) = g.variable(id@) {
                lemma_load_scalar(g, v);
                let (g1, w) = g.load_scalar(v);
                lemma_convert(g1, w, Ty::I32);
            }
        },
    }
}

/// What [`GenState::numbers_to`] says holds of every statement; it may jump to
/// the labels of the loop around it.
#[verifier::rlimit(30)]
pub proof fn lemma_block(g: GenState, s: CodeBlockStmt, con: Option<Lbl>, bre: Option<Lbl>)
    ensures
        g.numbers_to(g.block(s, con, bre).0, g.block(s, con, bre).1 is Ok, loop_labels(con, bre)),
    decreases s, 0nat,
{
    match s.inner {
        CodeBlockStmtInner::Assignment(s) => {
            lemma_assign(g, *s);
        },
        CodeBlockStmtInner::VarDecl(s) => match s.inner {
            VarDeclStmtInner::Decl(d) => {
                lemma_declare(g, d);
            },
            VarDeclStmtInner::Def(d) => {
                lemma_define(g, d);
            },
        },
        CodeBlockStmtInner::Call(s) => {
            lemma_call(g, s.fn_call);
        },
        CodeBlockStmtInner::If(s) => {
            lemma_conditional(g, *s, con, bre);
        },
        CodeBlockStmtInner::While(s) => {
            lemma_while_loop(g, *s);
        },
        CodeBlockStmtInner::For(s) => {
            lemma_for_loop(g, *s);
        },
        CodeBlockStmtInner::Return(s) => {
            lemma_give_back(g, *s);
        },
        CodeBlockStmtInner::Continue(_) => {
            broadcast use group_push;
        },
        CodeBlockStmtInner::Break(_) => {
            broadcast use group_push;
        },
        CodeBlockStmtInner::Null(_) => {},
    }
}

pub proof fn lemma_stmts(
    g: GenState,
    list: Vec<CodeBlockStmt>,
    n: nat,
    con: Option<Lbl>,
    bre: Option<Lbl>,
)
    ensures
        g.numbers_to(
            g.stmts(list, n, con, bre).0,
            g.stmts(list, n, con, bre).1 is Ok,
            loop_labels(con, bre),
        ),
    decreases list, n,
{
    if 0 < n <= list.len() {
        lemma_stmts(g, list, (n - 1) as nat, con, bre);
        if let (g1, Ok(_)) = g.stmts(list, (n - 1) as nat, con, bre) {
            lemma_block(g1, list[n - 1], con, bre);
        }
    }
}

proof fn lemma_scoped(
    g: GenState,
    list: Vec<CodeBlockStmt>,
    con: Option<Lbl>,
    bre: Option<Lbl>,
)
    ensures
        g.numbers_to(
            g.scoped(list, con, bre).0,
            g.scoped(list, con, bre).1 is Ok,
            loop_labels(con, bre),
        ),
    decreases list, list@.len() + 1,
{
    lemma_stmts(g.enter(), list, list@.len(), con, bre);
}

pub proof fn lemma_conditional(g: GenState, s: IfStmt, con: Option<Lbl>, bre: Option<Lbl>)
    ensures
        g.numbers_to(
            g.conditional(s, con, bre).0,
            g.conditional(s, con, bre).1 is Ok,
            loop_labels(con, bre),
        ),
    decreases s, 1nat,
{
    let (z, r) = g.conditional(s, con, bre);
    let outside = loop_labels(con, bre);
    assert forall|label: Lbl| #[trigger]
        g.label_to(z, r is Ok, label, false, outside.contains(label)) by {
        lemma_conditional_at(g, s, con, bre, label);
    }
    lemma_conditional_registers(g, s, con, bre);
    lemma_by_label(g, z, r is Ok, outside);
}

proof fn lemma_conditional_at(
    g: GenState,
    s: IfStmt,
    con: Option<Lbl>,
    bre: Option<Lbl>,
    label: Lbl,
)
    ensures
        ({
            let (z, r) = g.conditional(s, con, bre);
            g.label_to(z, r is Ok, label, false, loop_labels(con, bre).contains(label))
        }),
    decreases s, 0nat,
{
    let (t, f, after) = (g.label(0), g.label(1), g.label(2));
    let outside = loop_labels(con, bre);
    let out = outside.contains(label);
    let (is_t, is_f, is_after) = (label == t, label == f, label == after);
    let g0 = g.with_blocks(3);
    let z = g.conditional(s, con, bre).0;
    let (g1, cond) = g0.bool_unit(s.bool_unit, t, f);
    assert(g0.label_to(g1, cond is Ok, label, false, is_t || is_f)) by {
        lemma_bool_unit(g0, s.bool_unit, t, f);
        lemma_label_at(g0, g1, cond is Ok, set![t, f], label);
    }
    if cond is Err {
        lemma_label_close(g, 3, z, false, label, false, is_t || is_f, out);
    } else {
        lemma_place(g1, t, label);
        let g2 = g1.emit(Inst::Label(t));
        let o = is_t || is_f;
        lemma_label_then(g0, g1, g2, true, label, false, is_t, o, false);
        let (g3, then) = g2.scoped(s.if_stmts, con, bre);
        assert(g2.label_to(g3, then is Ok, label, false, out)) by {
            lemma_scoped(g2, s.if_stmts, con, bre);
            lemma_label_at(g2, g3, then is Ok, outside, label);
        }
        lemma_label_then(g0, g2, g3, then is Ok, label, is_t, false, o, out);
        if then is Err {
            lemma_label_close(g, 3, z, false, label, is_t, o || out, out);
        } else {
            lemma_jump_and_place(g3, after, f, label);
            let g4 = g3.emit(Inst::Jump { target: after }).emit(Inst::Label(f));
            lemma_label_then(g0, g3, g4, true, label, is_t, is_f, o || out, is_after);
            let p = is_t || is_f;
            let o = o || out || is_after;
            match s.else_stmts {
                Some(list) => {
                    let (g5, otherwise) = g4.scoped(list, con, bre);
                    assert(g4.label_to(g5, otherwise is Ok, label, false, out)) by {
                        lemma_scoped(g4, list, con, bre);
                        lemma_label_at(g4, g5, otherwise is Ok, outside, label);
                    }
                    lemma_label_then(g0, g4, g5, otherwise is Ok, label, p, false, o, out);
                    if otherwise is Err {
                        lemma_label_close(g, 3, z, false, label, p, o, out);
                    } else {
                        lemma_jump_and_place(g5, after, after, label);
                        lemma_label_then(g0, g5, z, true, label, p, is_after, o, is_after);
                        lemma_label_close(g, 3, z, true, label, p || is_after, o, out);
                    }
                },
                None => {
                    lemma_jump_and_place(g4, after, after, label);
                    lemma_label_then(g0, g4, z, true, label, p, is_after, o, is_after);
                    lemma_label_close(g, 3, z, true, label, p || is_after, o, out);
                },
            }
        }
    }
}

proof fn lemma_conditional_registers(
    g: GenState,
    s: IfStmt,
    con: Option<Lbl>,
    bre: Option<Lbl>,
)
    ensures
        g.registers_to(g.conditional(s, con, bre).0),
    decreases s, 0nat,
{
    let (t, f, after) = (g.label(0), g.label(1), g.label(2));
    let g0 = g.with_blocks(3);
    let (g1, cond) = g0.bool_unit(s.bool_unit, t, f);
    assert(g.registers_to(g1)) by {
        lemma_bool_unit(g0, s.bool_unit, t, f);
    }
    if cond is Ok {
        let g2 = g1.emit(Inst::Label(t));
        lemma_registers_label(g, g1, t);
        let (g3, then) = g2.scoped(s.if_stmts, con, bre);
        assert(g.registers_to(g3)) by {
            lemma_scoped(g2, s.if_stmts, con, bre);
            lemma_registers_then(g, g2, g3);
        }
        if then is Ok {
            let g4 = g3.emit(Inst::Jump { target: after }).emit(Inst::Label(f));
            lemma_registers_jump(g, g3, after, f);
            match s.else_stmts {
                Some(list) => {
                    let (g5, otherwise) = g4.scoped(list, con, bre);
                    assert(g.registers_to(g5)) by {
                        lemma_scoped(g4, list, con, bre);
                        lemma_registers_then(g, g4, g5);
                    }
                    lemma_registers_jump(g, g5, after, after);
                },
                None => {
                    lemma_registers_jump(g, g4, after, after);
                },
            }
        }
    }
}

pub proof fn lemma_while_loop(g: GenState, s: WhileStmt)
    ensures
        g.numbers_to(g.while_loop(s).0, g.while_loop(s).1 is Ok, Set::empty()),
    decreases s, 1nat,
{
    let (z, r) = g.while_loop(s);
    let outside = Set::<Lbl>::empty();
    assert forall|label: Lbl| #[trigger]
        g.label_to(z, r is Ok, label, false, outside.contains(label)) by {
        lemma_while_loop_at(g, s, label);
    }
    lemma_while_loop_registers(g, s);
    lemma_by_label(g, z, r is Ok, outside);
}

proof fn lemma_while_loop_at(g: GenState, s: WhileStmt, label: Lbl)
    ensures
        ({
            let (z, r) = g.while_loop(s);
            g.label_to(z, r is Ok, label, false, false)
        }),
    decreases s, 0nat,
{
    let (test, body, behind) = (g.label(0), g.label(1), g.label(2));
    let (is_test, is_body, is_behind) = (label == test, label == body, label == behind);
    let z = g.while_loop(s).0;
    let g0 = g.with_blocks(3);
    lemma_jump_and_place(g0, test, test, label);
    let g1 = g0.emit(Inst::Jump { target: test }).emit(Inst::Label(test));
    let (g2, cond) = g1.bool_unit(s.bool_unit, body, behind);
    let chosen = is_body || is_behind;
    assert(g1.label_to(g2, cond is Ok, label, false, chosen)) by {
        lemma_bool_unit(g1, s.bool_unit, body, behind);
        lemma_label_at(g1, g2, cond is Ok, set![body, behind], label);
    }
    lemma_label_then(g0, g1, g2, cond is Ok, label, is_test, false, is_test, chosen);
    let o = is_test || chosen;
    if cond is Err {
        lemma_label_close(g, 3, z, false, label, is_test, o, false);
    } else {
        lemma_place(g2, body, label);
        let g3 = g2.emit(Inst::Label(body));
        lemma_label_then(g0, g2, g3, true, label, is_test, is_body, o, false);
        let (g4, inner) = g3.scoped(s.stmts, Some(test), Some(behind));
        let loops = loop_labels(Some(test), Some(behind));
        assert(g3.label_to(g4, inner is Ok, label, false, is_test || is_behind)) by {
            lemma_scoped(g3, s.stmts, Some(test), Some(behind));
            lemma_label_at(g3, g4, inner is Ok, loops, label);
        }
        let p = is_test || is_body;
        lemma_label_then(g0, g3, g4, inner is Ok, label, p, false, o, is_test || is_behind);
        if inner is Err {
            lemma_label_close(g, 3, z, false, label, p, o, false);
        } else {
            lemma_jump_and_place(g4, test, behind, label);
            lemma_label_then(g0, g4, z, true, label, p, is_behind, o, is_test);
            lemma_label_close(g, 3, z, true, label, p || is_behind, o, false);
        }
    }
}

proof fn lemma_while_loop_registers(g: GenState, s: WhileStmt)
    ensures
        g.registers_to(g.while_loop(s).0),
    decreases s, 0nat,
{
    let (test, body, behind) = (g.label(0), g.label(1), g.label(2));
    let g0 = g.with_blocks(3);
    let g1 = g0.emit(Inst::Jump { target: test }).emit(Inst::Label(test));
    lemma_registers_jump(g, g0, test, test);
    let (g2, cond) = g1.bool_unit(s.bool_unit, body, behind);
    assert(g.registers_to(g2)) by {
        lemma_bool_unit(g1, s.bool_unit, body, behind);
        lemma_registers_then(g, g1, g2);
    }
    if cond is Ok {
        let g3 = g2.emit(Inst::Label(body));
        lemma_registers_label(g, g2, body);
        let g4 = g3.scoped(s.stmts, Some(test), Some(behind)).0;
        assert(g.registers_to(g4)) by {
            lemma_scoped(g3, s.stmts, Some(test), Some(behind));
            lemma_registers_then(g, g3, g4);
        }
        lemma_registers_jump(g, g4, test, behind);
    }
}

/// What the head and the test of a `for` loop add, seen from one label.
proof fn lemma_for_entry(
    g: GenState,
    name: Seq<char>,
    start: Val,
    end: Val,
    test: Lbl,
    body: Lbl,
    behind: Lbl,
    label: Lbl,
)
    requires
        test != body,
    ensures
        ({
            let (g1, r) = g.for_head(name, start, end, test);
            &&& r is Err ==> g.label_to(g1, false, label, false, false)
            &&& r matches Ok((iter, limit)) ==> {
                let g2 = g1.for_test(iter, limit, body, behind).emit(Inst::Label(body));
                let placed = label == test || label == body;
                g.label_to(g2, true, label, placed, placed || label == behind)
            }
        }),
{
    broadcast use group_push;

    reveal(GenState::label_to);
}

proof fn lemma_for_entry_registers(
    g: GenState,
    name: Seq<char>,
    start: Val,
    end: Val,
    test: Lbl,
    body: Lbl,
    behind: Lbl,
)
    ensures
        ({
            let (g1, r) = g.for_head(name, start, end, test);
            &&& r is Err ==> g.registers_to(g1)
            &&& r matches Ok((iter, limit)) ==> g.registers_to(
                g1.for_test(iter, limit, body, behind).emit(Inst::Label(body)),
            )
        }),
{
    broadcast use group_push;

}

/// What the step of a `for` loop and its end add, seen from one label.
proof fn lemma_for_exit(
    g: GenState,
    iter: Val,
    test: Lbl,
    step: Lbl,
    behind: Lbl,
    label: Lbl,
)
    requires
        step != behind,
    ensures
        g.label_to(
            g.emit(Inst::Jump { target: step }).emit(Inst::Label(step)).for_step(iter).emit(
                Inst::Jump { target: test },
            ).emit(Inst::Label(behind)).exit(),
            true,
            label,
            label == step || label == behind,
            label == step || label == test,
        ),
{
    broadcast use group_push;

    reveal(GenState::label_to);
}

proof fn lemma_for_exit_registers(g: GenState, iter: Val, test: Lbl, step: Lbl, behind: Lbl)
    ensures
        g.registers_to(
            g.emit(Inst::Jump { target: step }).emit(Inst::Label(step)).for_step(iter).emit(
                Inst::Jump { target: test },
            ).emit(Inst::Label(behind)).exit(),
        ),
{
    broadcast use group_push;

}

pub proof fn lemma_counted_loop(g: GenState, s: ForStmt, start: Val, end: Val)
    ensures
        g.numbers_to(
            g.counted_loop(s, start, end).0,
            g.counted_loop(s, start, end).1 is Ok,
            Set::empty(),
        ),
    decreases s, 1nat,
{
    let (z, r) = g.counted_loop(s, start, end);
    let outside = Set::<Lbl>::empty();
    assert forall|label: Lbl| #[trigger]
        g.label_to(z, r is Ok, label, false, outside.contains(label)) by {
        lemma_counted_loop_at(g, s, start, end, label);
    }
    lemma_counted_loop_registers(g, s, start, end);
    lemma_by_label(g, z, r is Ok, outside);
}

#[verifier::rlimit(30)]
proof fn lemma_counted_loop_at(g: GenState, s: ForStmt, start: Val, end: Val, label: Lbl)
    ensures
        ({
            let (z, r) = g.counted_loop(s, start, end);
            g.label_to(z, r is Ok, label, false, false)
        }),
    decreases s, 0nat,
{
    let (test, body, step, behind) = (g.label(0), g.label(1), g.label(2), g.label(3));
    let z = g.counted_loop(s, start, end).0;
    let g0 = g.with_blocks(4);
    lemma_for_entry(g0, s.iterator@, start, end, test, body, behind, label);
    match g0.for_head(s.iterator@, start, end, test) {
        (g1, Err(_)) => {
            lemma_label_close(g, 4, z, false, label, false, false, false);
        },
        (g1, Ok((iter, limit))) => {
            let g2 = g1.for_test(iter, limit, body, behind).emit(Inst::Label(body));
            let (g3, inner) = g2.scoped(s.stmts, Some(step), Some(behind));
            let loops = loop_labels(Some(step), Some(behind));
            let jumps = label == step || label == behind;
            assert(g2.label_to(g3, inner is Ok, label, false, jumps)) by {
                lemma_scoped(g2, s.stmts, Some(step), Some(behind));
                lemma_label_at(g2, g3, inner is Ok, loops, label);
            }
            let p = label == test || label == body;
            let o = p || label == behind;
            lemma_label_then(g0, g2, g3, inner is Ok, label, p, false, o, jumps);
            if inner is Err {
                lemma_label_close(g, 4, z, false, label, p, o || jumps, false);
            } else {
                lemma_for_exit(g3, iter, test, step, behind, label);
                let back = label == step || label == test;
                lemma_label_then(g0, g3, z, true, label, p, jumps, o || jumps, back);
                lemma_label_close(g, 4, z, true, label, p || jumps, o || jumps || back, false);
            }
        },
    }
}

proof fn lemma_counted_loop_registers(g: GenState, s: ForStmt, start: Val, end: Val)
    ensures
        g.registers_to(g.counted_loop(s, start, end).0),
    decreases s, 0nat,
{
    let (test, body, step, behind) = (g.label(0), g.label(1), g.label(2), g.label(3));
    let z = g.counted_loop(s, start, end).0;
    let g0 = g.with_blocks(4);
    lemma_for_entry_registers(g0, s.iterator@, start, end, test, body, behind);
    if let (g1, Ok((iter, limit))) = g0.for_head(s.iterator@, start, end, test) {
        let g2 = g1.for_test(iter, limit, body, behind).emit(Inst::Label(body));
        let (g3, inner) = g2.scoped(s.stmts, Some(step), Some(behind));
        assert(g0.registers_to(g3)) by {
            lemma_scoped(g2, s.stmts, Some(step), Some(behind));
            lemma_registers_then(g0, g2, g3);
        }
        if inner is Ok {
            lemma_for_exit_registers(g3, iter, test, step, behind);
            lemma_registers_then(g0, g3, z);
        }
    }
}

proof fn lemma_for_loop(g: GenState, s: ForStmt)
    ensures
        g.numbers_to(g.for_loop(s).0, g.for_loop(s).1 is Ok, Set::empty()),
    decreases s, 2nat,
{
    lemma_bound(g, s.start);
    if let (g1, Ok(start)) = g.bound(s.start) {
        lemma_bound(g1, s.end);
        if let (g2, Ok(end)) = g1.bound(s.end) {
            lemma_counted_loop(g2, s, start, end);
        }
    }
}

proof fn lemma_parameters(g: GenState, params: Seq<Param>, n: nat)
    ensures
        g.numbers_to(g.parameters(params, n).0, g.parameters(params, n).1 is Ok, Set::empty()),
    decreases n,
{
    if n > 0 {
        lemma_parameters(g, params, (n - 1) as nat);
        broadcast use group_push;
    }
}

/// The argument registers that parameters add are new and distinct, and the
/// code does not write them.
proof fn lemma_argument_registers(g: GenState, params: Seq<Param>, n: nat)
    ensures
        ({
            let g1 = g.parameters(params, n).0;
            &&& g.args.len() <= g1.args.len()
            &&& g.vregs <= g1.vregs
            &&& forall|i: int, j: int|
                g.args.len() <= i < j < g1.args.len() ==> #[trigger] g1.args[i].id
                    != #[trigger] g1.args[j].id
            &&& forall|i: int|
                g.args.len() <= i < g1.args.len() ==> g.vregs <= (#[trigger] g1.args[i]).id
                    < g1.vregs && def_count(g1.code, g1.args[i].id) == def_count(
                    g.code,
                    g1.args[i].id,
                )
        }),
    decreases n,
{
    if n > 0 {
        lemma_argument_registers(g, params, (n - 1) as nat);
        lemma_parameters(g, params, (n - 1) as nat);
        broadcast use group_push;
    }
}

proof fn lemma_no_code(code: Seq<Inst>)
    requires
        code.len() == 0,
    ensures
        forall|id: nat| #[trigger] def_count(code, id) == 0,
        forall|label: Lbl| #[trigger] label_count(code, label) == 0,
        forall|label: Lbl| !#[trigger] targeted(code, label),
{
    reveal(def_count);
    reveal(label_count);
    reveal(targeted);
}

/// Code that is the entry label alone.
proof fn lemma_first_label(code: Seq<Inst>, entry: Lbl)
    requires
        code.len() == 0,
    ensures
        ({
            let first = code.push(Inst::Label(entry));
            &&& forall|id: nat| #[trigger] def_count(first, id) == 0
            &&& forall|label: Lbl| #[trigger]
                label_count(first, label) == if label == entry {
                    1nat
                } else {
                    0nat
                }
            &&& forall|label: Lbl| !#[trigger] targeted(first, label)
        }),
{
    broadcast use group_push;

    lemma_no_code(code);
}

/// Single assignment: in the code of a function every register is written at
/// most once, a register that is written is one that was handed out, and the
/// argument registers that the function takes are distinct and not written at
/// all.
#[verifier::rlimit(40)]
pub proof fn law_single_assignment(g: GenState, f: FnDef)
    requires
        g.code.len() == 0,
    ensures
        ({
            let (out, _) = g.function(f);
            &&& forall|id: nat|
                {
                    &&& #[trigger] def_count(out.code, id) <= 1
                    &&& def_count(out.code, id) == 1 ==> g.vregs <= id < out.vregs
                }
            &&& forall|i: int|
                g.args.len() <= i < out.args.len() ==> def_count(
                    out.code,
                    (#[trigger] out.args[i]).id,
                ) == 0
            &&& forall|i: int, j: int|
                g.args.len() <= i < j < out.args.len() ==> #[trigger] out.args[i].id
                    != #[trigger] out.args[j].id
        }),
{
    broadcast use group_push;

    lemma_no_code(g.code);
    let name = f.fn_decl.identifier@;
    if g.env.functions.contains_key(name) {
        let sig = g.env.functions[name];
        lemma_first_label(g.code, Lbl::Function(g.link_name(name)));
        let g1 = g.entered(name, sig.ret);
        lemma_parameters(g1, sig.params, sig.params.len());
        lemma_argument_registers(g1, sig.params, sig.params.len());
        if let (g2, Ok(_)) = g1.parameters(sig.params, sig.params.len()) {
            lemma_stmts(g2, f.stmts, f.stmts@.len(), None, None);
            crate::ir::gen::growth::lemma_stmts(g2, f.stmts, f.stmts@.len(), None, None);
        }
    }
}

/// Labels: in the code of a function no label is placed twice, and if the
/// function was lowered, every block whose number was handed out is placed
/// exactly once, and every jump goes to such a block.
#[verifier::rlimit(40)]
pub proof fn law_labels(g: GenState, f: FnDef)
    requires
        g.code.len() == 0,
    ensures
        ({
            let (out, r) = g.function(f);
            &&& forall|label: Lbl| #[trigger] label_count(out.code, label) <= 1
            &&& r is Ok ==> forall|k: nat|
                g.blocks <= k < out.blocks ==> #[trigger] label_count(out.code, Lbl::Block(k)) == 1
            &&& r is Ok ==> forall|label: Lbl| #[trigger]
                targeted(out.code, label) ==> label is Block && label_count(out.code, label) == 1
        }),
{
    broadcast use group_push;

    lemma_no_code(g.code);
    let name = f.fn_decl.identifier@;
    if g.env.functions.contains_key(name) {
        let sig = g.env.functions[name];
        lemma_first_label(g.code, Lbl::Function(g.link_name(name)));
        let g1 = g.entered(name, sig.ret);
        lemma_parameters(g1, sig.params, sig.params.len());
        if let (g2, Ok(_)) = g1.parameters(sig.params, sig.params.len()) {
            lemma_stmts(g2, f.stmts, f.stmts@.len(), None, None);
        }
    }
}

} // verus!
