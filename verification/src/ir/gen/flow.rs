//! Control flow: where the code of an expression leads, depending on how its
//! comparisons turn out.
//!
//! A piece of code is run with the results of its comparisons given.  A jump to
//! a label that the piece places goes on there; a jump to any other label leaves
//! the piece.

use crate::ast::expr::{
    ArithExpr, ArithExprInner, ArrayExpr, BoolBiOp, BoolBiOpExpr, BoolExpr, BoolExprInner,
    BoolUnit, BoolUnitInner, ComExpr, ExprUnit, ExprUnitInner, FnCall, LeftVal, LeftValInner,
    MemberExpr, RightVal, RightValInner,
};
use crate::ast::stmt::{CodeBlockStmt, ForStmt, IfStmt, WhileStmt};
use crate::ir::error::Fault;
use crate::ir::function::{GenState, Lowered};
use crate::ir::registry::Param;
use crate::ir::stmt::{ArithBinOp, CmpPredicate, Inst, Lbl};
use crate::ir::types::Ty;
use crate::ir::value::Val;
use vstd::prelude::*;

verus! {

/// The results of comparisons, by the registers that hold them.
pub type Outcomes = spec_fn(Val) -> bool;

/// Whether the label is placed at position `i` of a piece of code.
pub open spec fn placed(piece: Seq<Inst>, label: Lbl, i: int) -> bool {
    0 <= i < piece.len() && piece[i] == Inst::Label(label)
}

/// Where a piece of code places the label.
pub open spec fn find(piece: Seq<Inst>, label: Lbl) -> Option<int> {
    if exists|i: int| placed(piece, label, i) {
        Some(choose|i: int| placed(piece, label, i))
    } else {
        None
    }
}

/// Whether no label is placed twice.
pub open spec fn labels_distinct(piece: Seq<Inst>) -> bool {
    forall|label: Lbl, i: int, j: int| #[trigger]
        placed(piece, label, i) && #[trigger] placed(piece, label, j) ==> i == j
}

/// What comes after an instruction: another one of the piece, a label outside,
/// or nothing.
pub enum Next {
    At(int),
    Out(Lbl),
    Done,
}

/// What comes after a jump to the label.
pub open spec fn goto(piece: Seq<Inst>, label: Lbl) -> Next {
    match find(piece, label) {
        Some(i) => Next::At(i),
        None => Next::Out(label),
    }
}

/// What comes after the instruction at `pc`.
pub open spec fn next(piece: Seq<Inst>, pc: int, outcomes: Outcomes) -> Next {
    match piece[pc] {
        Inst::Jump { target } => goto(piece, target),
        Inst::CJump { cond, true_label, false_label } => goto(
            piece,
            if outcomes(cond) {
                true_label
            } else {
                false_label
            },
        ),
        Inst::Return(_) => Next::Done,
        _ => Next::At(pc + 1),
    }
}

/// Whether `k` steps from `a` lead to `b`.
pub open spec fn steps(piece: Seq<Inst>, a: int, b: int, outcomes: Outcomes, k: nat) -> bool
    decreases k,
{
    if k == 0 {
        a == b
    } else {
        &&& 0 <= a < piece.len()
        &&& next(piece, a, outcomes) matches Next::At(c)
        &&& steps(piece, c, b, outcomes, (k - 1) as nat)
    }
}

/// Whether a run from `a` gets to `b`.
pub open spec fn gets(piece: Seq<Inst>, a: int, b: int, outcomes: Outcomes) -> bool {
    exists|k: nat| steps(piece, a, b, outcomes, k)
}

/// Whether a run from `a` leaves the piece by a jump to the label.
pub open spec fn leaves(piece: Seq<Inst>, a: int, label: Lbl, outcomes: Outcomes) -> bool {
    exists|b: int|
        0 <= b < piece.len() && #[trigger] gets(piece, a, b, outcomes) && next(piece, b, outcomes)
            == Next::Out(label)
}

proof fn lemma_steps_add(
    piece: Seq<Inst>,
    a: int,
    b: int,
    c: int,
    outcomes: Outcomes,
    j: nat,
    k: nat,
)
    requires
        steps(piece, a, b, outcomes, j),
        steps(piece, b, c, outcomes, k),
    ensures
        steps(piece, a, c, outcomes, j + k),
    decreases j,
{
    if j > 0 {
        let next_pc = next(piece, a, outcomes)->At_0;
        lemma_steps_add(piece, next_pc, b, c, outcomes, (j - 1) as nat, k);
    }
}

proof fn lemma_gets_add(piece: Seq<Inst>, a: int, b: int, c: int, outcomes: Outcomes)
    requires
        gets(piece, a, b, outcomes),
        gets(piece, b, c, outcomes),
    ensures
        gets(piece, a, c, outcomes),
{
    let j = choose|j: nat| steps(piece, a, b, outcomes, j);
    let k = choose|k: nat| steps(piece, b, c, outcomes, k);
    lemma_steps_add(piece, a, b, c, outcomes, j, k);
}

proof fn lemma_gets_self(piece: Seq<Inst>, a: int, outcomes: Outcomes)
    ensures
        gets(piece, a, a, outcomes),
{
    assert(steps(piece, a, a, outcomes, 0));
}

proof fn lemma_gets_next(piece: Seq<Inst>, a: int, outcomes: Outcomes)
    requires
        0 <= a < piece.len(),
        next(piece, a, outcomes) is At,
    ensures
        gets(piece, a, next(piece, a, outcomes)->At_0, outcomes),
{
    let b = next(piece, a, outcomes)->At_0;
    assert(steps(piece, b, b, outcomes, 0));
    assert(steps(piece, a, b, outcomes, 1));
}

/// A run inside a part of a piece is a run inside the piece.
proof fn lemma_steps_within(
    before: Seq<Inst>,
    part: Seq<Inst>,
    after: Seq<Inst>,
    a: int,
    b: int,
    outcomes: Outcomes,
    k: nat,
)
    requires
        labels_distinct(before + part + after),
        steps(part, a, b, outcomes, k),
    ensures
        steps(before + part + after, before.len() + a, before.len() + b, outcomes, k),
    decreases k,
{
    if k > 0 {
        let c = next(part, a, outcomes)->At_0;
        lemma_steps_within(before, part, after, c, b, outcomes, (k - 1) as nat);
        lemma_next_within(before, part, after, a, outcomes);
    }
}

proof fn lemma_next_within(
    before: Seq<Inst>,
    part: Seq<Inst>,
    after: Seq<Inst>,
    a: int,
    outcomes: Outcomes,
)
    requires
        labels_distinct(before + part + after),
        0 <= a < part.len(),
    ensures
        ({
            let whole = before + part + after;
            match next(part, a, outcomes) {
                Next::At(c) => next(whole, before.len() + a, outcomes) == Next::At(
                    before.len() + c,
                ),
                Next::Out(label) => next(whole, before.len() + a, outcomes) == goto(whole, label),
                Next::Done => next(whole, before.len() + a, outcomes) == Next::Done,
            }
        }),
{
    let whole = before + part + after;
    assert(whole[before.len() + a] == part[a]);
    let target = match part[a] {
        Inst::Jump { target } => Some(target),
        Inst::CJump { cond, true_label, false_label } => Some(
            if outcomes(cond) {
                true_label
            } else {
                false_label
            },
        ),
        _ => None,
    };
    if let Some(label) = target {
        if let Some(i) = find(part, label) {
            assert(placed(part, label, i));
            assert(placed(whole, label, before.len() + i));
            let j = find(whole, label)->Some_0;
            assert(placed(whole, label, j));
        }
    }
}

impl GenState {
    /// The code that was added between two states.
    pub open spec fn added(self, later: GenState) -> Seq<Inst> {
        later.code.skip(self.code.len() as int)
    }

    /// Whether the code that was added runs from its first instruction to its
    /// end.
    pub open spec fn passes_to(self, later: GenState, outcomes: Outcomes) -> bool {
        gets(self.added(later), 0, self.added(later).len() as int, outcomes)
    }

    /// Whether the label was handed out before this state, or names a function.
    pub open spec fn knows(self, label: Lbl) -> bool {
        match label {
            Lbl::Block(k) => k < self.blocks,
            Lbl::Function(_) => true,
        }
    }

    /// Whether the code that was added places each label once, and only labels
    /// that were handed out meanwhile.
    spec fn places_own(self, later: GenState) -> bool {
        &&& self.grows_to(later)
        &&& labels_distinct(self.added(later))
        &&& forall|label: Lbl, i: int| #[trigger]
            placed(self.added(later), label, i) ==> !self.knows(label)
    }
}

/// The run of a stage, from state `a` to state `b`, within the code that is
/// added from `g` to `z`.
proof fn lemma_stage(g: GenState, a: GenState, b: GenState, z: GenState, outcomes: Outcomes)
    requires
        g.grows_to(a),
        a.grows_to(b),
        b.grows_to(z),
        labels_distinct(g.added(z)),
        a.passes_to(b, outcomes),
    ensures
        gets(
            g.added(z),
            a.code.len() - g.code.len(),
            b.code.len() - g.code.len(),
            outcomes,
        ),
{
    let (before, part, after) = (g.added(a), a.added(b), b.added(z));
    assert(g.added(z) =~= before + part + after);
    let k = choose|k: nat| steps(part, 0, part.len() as int, outcomes, k);
    lemma_steps_within(before, part, after, 0, part.len() as int, outcomes, k);
}

/// The same where the stage leaves by a jump to a label: the run goes on where
/// the label is placed, or leaves the whole.
proof fn lemma_stage_leaves(
    g: GenState,
    a: GenState,
    b: GenState,
    z: GenState,
    label: Lbl,
    outcomes: Outcomes,
)
    requires
        g.grows_to(a),
        a.grows_to(b),
        b.grows_to(z),
        labels_distinct(g.added(z)),
        leaves(a.added(b), 0, label, outcomes),
    ensures
        match find(g.added(z), label) {
            Some(i) => gets(g.added(z), a.code.len() - g.code.len(), i, outcomes),
            None => leaves(g.added(z), a.code.len() - g.code.len(), label, outcomes),
        },
{
    let (before, part, after) = (g.added(a), a.added(b), b.added(z));
    let whole = g.added(z);
    assert(whole =~= before + part + after);
    let q = choose|q: int|
        0 <= q < part.len() && #[trigger] gets(part, 0, q, outcomes) && next(part, q, outcomes)
            == Next::Out(label);
    let k = choose|k: nat| steps(part, 0, q, outcomes, k);
    lemma_steps_within(before, part, after, 0, q, outcomes, k);
    lemma_next_within(before, part, after, q, outcomes);
    let from = before.len() as int;
    assert(gets(whole, from, from + q, outcomes));
    if let Some(i) = find(whole, label) {
        lemma_gets_next(whole, from + q, outcomes);
        lemma_gets_add(whole, from, from + q, i, outcomes);
    }
}

/// A run that gets somewhere and leaves from there, leaves.
proof fn lemma_gets_leaves(piece: Seq<Inst>, a: int, b: int, label: Lbl, outcomes: Outcomes)
    requires
        gets(piece, a, b, outcomes),
        leaves(piece, b, label, outcomes),
    ensures
        leaves(piece, a, label, outcomes),
{
    let q = choose|q: int|
        0 <= q < piece.len() && #[trigger] gets(piece, b, q, outcomes) && next(piece, q, outcomes)
            == Next::Out(label);
    lemma_gets_add(piece, a, b, q, outcomes);
}

/// A label is found where it is placed.
proof fn lemma_find(piece: Seq<Inst>, label: Lbl, i: int)
    requires
        labels_distinct(piece),
        placed(piece, label, i),
    ensures
        find(piece, label) == Some(i),
{
    let j = choose|j: int| placed(piece, label, j);
    assert(placed(piece, label, j));
}

proof fn lemma_two_stages(g: GenState, a: GenState, z: GenState, outcomes: Outcomes)
    requires
        g.grows_to(a),
        a.grows_to(z),
        labels_distinct(g.added(z)),
        g.passes_to(a, outcomes),
        a.passes_to(z, outcomes),
    ensures
        g.passes_to(z, outcomes),
{
    lemma_stage(g, g, a, z, outcomes);
    lemma_stage(g, a, z, z, outcomes);
    lemma_gets_add(
        g.added(z),
        0,
        a.code.len() - g.code.len(),
        z.code.len() - g.code.len(),
        outcomes,
    );
}

/// Instructions that do not jump run through.
proof fn lemma_straight(g: GenState, z: GenState, outcomes: Outcomes)
    requires
        g.grows_to(z),
        forall|i: int|
            g.code.len() <= i < z.code.len() ==> {
                &&& !(#[trigger] z.code[i] is Jump)
                &&& !(z.code[i] is CJump)
                &&& !(z.code[i] is Return)
            },
    ensures
        g.passes_to(z, outcomes),
{
    lemma_straight_from(g, z, 0, outcomes);
}

proof fn lemma_straight_from(g: GenState, z: GenState, from: int, outcomes: Outcomes)
    requires
        g.grows_to(z),
        0 <= from <= z.code.len() - g.code.len(),
        forall|i: int|
            g.code.len() <= i < z.code.len() ==> {
                &&& !(#[trigger] z.code[i] is Jump)
                &&& !(z.code[i] is CJump)
                &&& !(z.code[i] is Return)
            },
    ensures
        gets(g.added(z), from, g.added(z).len() as int, outcomes),
    decreases z.code.len() - g.code.len() - from,
{
    let piece = g.added(z);
    if from < piece.len() {
        assert(piece[from] == z.code[g.code.len() + from]);
        lemma_straight_from(g, z, from + 1, outcomes);
        lemma_gets_next(piece, from, outcomes);
        lemma_gets_add(piece, from, from + 1, piece.len() as int, outcomes);
    } else {
        lemma_gets_self(piece, from, outcomes);
    }
}

// -----------------------------------------------------------------------
// Labels of a piece
// -----------------------------------------------------------------------

proof fn lemma_label_counted(code: Seq<Inst>, n: int, label: Lbl, i: int)
    requires
        0 <= n <= i < code.len(),
        code[i] == Inst::Label(label),
    ensures
        crate::ir::gen::numbering::label_count(code, label)
            >= crate::ir::gen::numbering::label_count(code.take(n), label) + 1,
    decreases code.len(),
{
    reveal(crate::ir::gen::numbering::label_count);
    let shorter = code.drop_last();
    assert(shorter.take(n) =~= code.take(n));
    if i < code.len() - 1 {
        lemma_label_counted(shorter, n, label, i);
    } else {
        lemma_label_count_grows(shorter, n, label);
    }
}

proof fn lemma_label_count_grows(code: Seq<Inst>, n: int, label: Lbl)
    requires
        0 <= n <= code.len(),
    ensures
        crate::ir::gen::numbering::label_count(code, label)
            >= crate::ir::gen::numbering::label_count(code.take(n), label),
    decreases code.len(),
{
    reveal(crate::ir::gen::numbering::label_count);
    if n < code.len() {
        let shorter = code.drop_last();
        assert(shorter.take(n) =~= code.take(n));
        lemma_label_count_grows(shorter, n, label);
    } else {
        assert(code.take(n) =~= code);
    }
}

proof fn lemma_label_counted_twice(code: Seq<Inst>, n: int, label: Lbl, i: int, j: int)
    requires
        0 <= n <= i < j < code.len(),
        code[i] == Inst::Label(label),
        code[j] == Inst::Label(label),
    ensures
        crate::ir::gen::numbering::label_count(code, label)
            >= crate::ir::gen::numbering::label_count(code.take(n), label) + 2,
{
    lemma_label_counted(code, j, label, j);
    lemma_label_counted(code.take(j), n, label, i);
    assert(code.take(j).take(n) =~= code.take(n));
}

/// The numbering says which labels a piece places.
proof fn lemma_places_own(g: GenState, z: GenState, ok: bool, outside: Set<Lbl>)
    requires
        g.grows_to(z),
        g.numbers_to(z, ok, outside),
    ensures
        g.places_own(z),
{
    let n = g.code.len() as int;
    assert(z.code.take(n) =~= g.code);
    let piece = g.added(z);
    assert forall|label: Lbl, i: int| #[trigger] placed(piece, label, i) implies !g.knows(
        label,
    ) by {
        lemma_label_counted(z.code, n, label, n + i);
    }
    assert forall|label: Lbl, i: int, j: int| #[trigger]
        placed(piece, label, i) && #[trigger] placed(piece, label, j) implies i == j by {
        if i < j {
            lemma_label_counted_twice(z.code, n, label, n + i, n + j);
        } else if j < i {
            lemma_label_counted_twice(z.code, n, label, n + j, n + i);
        }
    }
}

// -----------------------------------------------------------------------
// Truth of boolean expressions
// -----------------------------------------------------------------------

impl GenState {
    /// Whether a boolean expression is true, given how its comparisons turn
    /// out.  The state and the labels say which registers hold the results.
    pub open spec fn holds(self, e: BoolExpr, t: Lbl, f: Lbl, outcomes: Outcomes) -> bool
        decreases e, 0nat,
    {
        match e.inner {
            BoolExprInner::BoolBiOpExpr(biop) => self.biop_holds(*biop, t, f, outcomes),
            BoolExprInner::BoolUnit(unit) => self.unit_holds(*unit, t, f, outcomes),
        }
    }

    /// `&&` is true if both operands are, `||` if one of them is.
    pub open spec fn biop_holds(
        self,
        e: BoolBiOpExpr,
        t: Lbl,
        f: Lbl,
        outcomes: Outcomes,
    ) -> bool
        decreases e, 1nat,
    {
        let left = self.left_holds(e, t, f, outcomes);
        let right = self.after_left(e, t, f).holds(*e.right, t, f, outcomes);
        match e.op {
            BoolBiOp::And => left && right,
            BoolBiOp::Or => left || right,
        }
    }

    /// Whether the left operand of `&&` or `||` is true.
    pub open spec fn left_holds(
        self,
        e: BoolBiOpExpr,
        t: Lbl,
        f: Lbl,
        outcomes: Outcomes,
    ) -> bool
        decreases e, 0nat,
    {
        let undecided = self.label(0);
        match e.op {
            BoolBiOp::And => self.with_blocks(1).holds(*e.left, undecided, f, outcomes),
            BoolBiOp::Or => self.with_blocks(1).holds(*e.left, t, undecided, outcomes),
        }
    }

    /// The outcome of lowering the left operand of `&&` or `||`.
    pub open spec fn left_operand(self, e: BoolBiOpExpr, t: Lbl, f: Lbl) -> Lowered<()> {
        let undecided = self.label(0);
        match e.op {
            BoolBiOp::And => self.with_blocks(1).branch(*e.left, undecided, f),
            BoolBiOp::Or => self.with_blocks(1).branch(*e.left, t, undecided),
        }
    }

    /// The state in which the right operand of `&&` or `||` is met.
    pub open spec fn after_left(self, e: BoolBiOpExpr, t: Lbl, f: Lbl) -> GenState {
        self.left_operand(e, t, f).0.emit(Inst::Label(self.label(0)))
    }

    /// A negation is true if its operand is not.
    pub open spec fn unit_holds(self, u: BoolUnit, t: Lbl, f: Lbl, outcomes: Outcomes) -> bool
        decreases u, 0nat,
    {
        match u.inner {
            BoolUnitInner::ComExpr(e) => outcomes(self.compared(*e)),
            BoolUnitInner::BoolExpr(e) => self.holds(*e, t, f, outcomes),
            BoolUnitInner::BoolUOpExpr(e) => !self.unit_holds(*e.cond, f, t, outcomes),
        }
    }

    /// The register that holds the result of a comparison.
    pub open spec fn compared(self, e: ComExpr) -> Val {
        let (g1, l) = self.unit(*e.left);
        let (g2, r) = g1.unit(*e.right);
        let (g3, _) = g2.numeric_pair(l->Ok_0, r->Ok_0);
        Val::Local(g3.fresh(Ty::I1))
    }
}

// -----------------------------------------------------------------------
// Expressions run through
// -----------------------------------------------------------------------

proof fn lemma_arith(g: GenState, e: ArithExpr, outcomes: Outcomes)
    requires
        g.arith(e).1 is Ok,
    ensures
        g.passes_to(g.arith(e).0, outcomes),
    decreases e, 0nat, 0nat,
{
    match e.inner {
        ArithExprInner::ArithBiOpExpr(biop) => {
            let z = g.arith(e).0;
            crate::ir::gen::growth::lemma_arith(g, *biop.left);
            crate::ir::gen::numbering::lemma_arith(g, e);
            let (g1, l) = g.arith(*biop.left);
            crate::ir::gen::growth::lemma_arith(g1, *biop.right);
            let (g2, r) = g1.arith(*biop.right);
            assert(g2.grows_to(z));
            lemma_places_own(g, z, true, Set::empty());
            lemma_arith(g, *biop.left, outcomes);
            lemma_arith(g1, *biop.right, outcomes);
            lemma_straight(g2, z, outcomes);
            lemma_three_stages(g, g1, g2, z, outcomes);
        },
        ArithExprInner::ExprUnit(unit) => {
            lemma_unit(g, *unit, outcomes);
        },
    }
}

proof fn lemma_three_stages(
    g: GenState,
    a: GenState,
    b: GenState,
    z: GenState,
    outcomes: Outcomes,
)
    requires
        g.grows_to(a),
        a.grows_to(b),
        b.grows_to(z),
        labels_distinct(g.added(z)),
        g.passes_to(a, outcomes),
        a.passes_to(b, outcomes),
        b.passes_to(z, outcomes),
    ensures
        g.passes_to(z, outcomes),
{
    let whole = g.added(z);
    let n = g.code.len();
    lemma_stage(g, g, a, z, outcomes);
    lemma_stage(g, a, b, z, outcomes);
    lemma_stage(g, b, z, z, outcomes);
    lemma_gets_add(whole, 0, a.code.len() - n, b.code.len() - n, outcomes);
    lemma_gets_add(whole, 0, b.code.len() - n, z.code.len() - n, outcomes);
}

/// A stage that runs through, and instructions behind it that do not jump.
proof fn lemma_then_straight(g: GenState, a: GenState, z: GenState, outcomes: Outcomes)
    requires
        g.grows_to(a),
        a.grows_to(z),
        labels_distinct(g.added(z)),
        g.passes_to(a, outcomes),
        forall|i: int|
            a.code.len() <= i < z.code.len() ==> {
                &&& !(#[trigger] z.code[i] is Jump)
                &&& !(z.code[i] is CJump)
                &&& !(z.code[i] is Return)
            },
    ensures
        g.passes_to(z, outcomes),
{
    lemma_straight(a, z, outcomes);
    lemma_two_stages(g, a, z, outcomes);
}

proof fn lemma_unit(g: GenState, u: ExprUnit, outcomes: Outcomes)
    requires
        g.unit(u).1 is Ok,
    ensures
        g.passes_to(g.unit(u).0, outcomes),
    decreases u, 0nat, 0nat,
{
    let z = g.unit(u).0;
    crate::ir::gen::growth::lemma_unit(g, u);
    crate::ir::gen::numbering::lemma_unit(g, u);
    lemma_places_own(g, z, true, Set::empty());
    match u.inner {
        ExprUnitInner::ArithExpr(e) => {
            crate::ir::gen::growth::lemma_arith(g, *e);
            lemma_arith(g, *e, outcomes);
            lemma_then_straight(g, g.arith(*e).0, z, outcomes);
        },
        ExprUnitInner::FnCall(c) => {
            crate::ir::gen::growth::lemma_call(g, *c);
            lemma_call(g, *c, outcomes);
            lemma_then_straight(g, g.call(*c).0, z, outcomes);
        },
        ExprUnitInner::ArrayExpr(e) => {
            crate::ir::gen::growth::lemma_array(g, *e);
            lemma_array(g, *e, outcomes);
            lemma_then_straight(g, g.array(*e).0, z, outcomes);
        },
        ExprUnitInner::MemberExpr(e) => {
            crate::ir::gen::growth::lemma_member(g, *e);
            lemma_member(g, *e, outcomes);
            lemma_then_straight(g, g.member(*e).0, z, outcomes);
        },
        ExprUnitInner::Cast(cast) => {
            crate::ir::gen::growth::lemma_unit(g, *cast.expr);
            lemma_unit(g, *cast.expr, outcomes);
            lemma_then_straight(g, g.unit(*cast.expr).0, z, outcomes);
        },
        _ => {
            lemma_straight(g, z, outcomes);
        },
    }
}

proof fn lemma_array(g: GenState, e: ArrayExpr, outcomes: Outcomes)
    requires
        g.array(e).1 is Ok,
    ensures
        g.passes_to(g.array(e).0, outcomes),
    decreases e, 0nat, 0nat,
{
    let z = g.array(e).0;
    crate::ir::gen::growth::lemma_array(g, e);
    crate::ir::gen::numbering::lemma_array(g, e);
    lemma_places_own(g, z, true, Set::empty());
    crate::ir::gen::growth::lemma_left(g, *e.arr);
    lemma_left(g, *e.arr, outcomes);
    lemma_then_straight(g, g.left(*e.arr).0, z, outcomes);
}

proof fn lemma_member(g: GenState, e: MemberExpr, outcomes: Outcomes)
    requires
        g.member(e).1 is Ok,
    ensures
        g.passes_to(g.member(e).0, outcomes),
    decreases e, 0nat, 0nat,
{
    let z = g.member(e).0;
    crate::ir::gen::growth::lemma_member(g, e);
    crate::ir::gen::numbering::lemma_member(g, e);
    lemma_places_own(g, z, true, Set::empty());
    crate::ir::gen::growth::lemma_left(g, *e.struct_id);
    lemma_left(g, *e.struct_id, outcomes);
    lemma_then_straight(g, g.left(*e.struct_id).0, z, outcomes);
}

proof fn lemma_left(g: GenState, l: LeftVal, outcomes: Outcomes)
    requires
        g.left(l).1 is Ok,
    ensures
        g.passes_to(g.left(l).0, outcomes),
    decreases l, 0nat, 0nat,
{
    match l.inner {
        LeftValInner::Id(_) => {
            lemma_straight(g, g, outcomes);
        },
        LeftValInner::ArrayExpr(e) => {
            lemma_array(g, *e, outcomes);
        },
        LeftValInner::MemberExpr(e) => {
            lemma_member(g, *e, outcomes);
        },
    }
}

/// The code of a value runs from its first instruction to its end, however the
/// comparisons in it turn out.
pub proof fn law_values_run_through(g: GenState, r: RightVal, outcomes: Outcomes)
    requires
        g.right(r).1 is Ok,
    ensures
        g.passes_to(g.right(r).0, outcomes),
    decreases r, 0nat, 0nat,
{
    match r.inner {
        RightValInner::ArithExpr(e) => {
            lemma_arith(g, *e, outcomes);
        },
        RightValInner::BoolExpr(e) => {
            law_bool_value(g, *e, outcomes);
        },
    }
}

proof fn lemma_explicit_args(
    g: GenState,
    c: FnCall,
    n: nat,
    first: Seq<Val>,
    params: Seq<Param>,
    outcomes: Outcomes,
)
    requires
        g.explicit_args(c, n, first, params).1 is Ok,
    ensures
        g.passes_to(g.explicit_args(c, n, first, params).0, outcomes),
    decreases c, 0nat, n,
{
    let z = g.explicit_args(c, n, first, params).0;
    if n > 0 {
        crate::ir::gen::growth::lemma_explicit_args(g, c, n, first, params);
        crate::ir::gen::numbering::lemma_explicit_args(g, c, n, first, params);
        lemma_places_own(g, z, true, Set::empty());
        crate::ir::gen::growth::lemma_explicit_args(g, c, (n - 1) as nat, first, params);
        lemma_explicit_args(g, c, (n - 1) as nat, first, params, outcomes);
        let g1 = g.explicit_args(c, (n - 1) as nat, first, params).0;
        crate::ir::gen::growth::lemma_right(g1, c.vals[n - 1]);
        law_values_run_through(g1, c.vals[n - 1], outcomes);
        let g2 = g1.right(c.vals[n - 1]).0;
        lemma_straight(g2, z, outcomes);
        lemma_three_stages(g, g1, g2, z, outcomes);
    } else {
        lemma_straight(g, z, outcomes);
    }
}

proof fn lemma_call(g: GenState, c: FnCall, outcomes: Outcomes)
    requires
        g.call(c).1 is Ok,
    ensures
        g.passes_to(g.call(c).0, outcomes),
    decreases c, 1nat, 0nat,
{
    let z = g.call(c).0;
    crate::ir::gen::growth::lemma_call(g, c);
    crate::ir::gen::numbering::lemma_call(g, c);
    lemma_places_own(g, z, true, Set::empty());
    crate::ir::gen::growth::lemma_callee(g, c);
    let g1 = g.callee(c).0;
    let (receiver, name) = g.callee(c).1->Ok_0;
    match c.receiver {
        Some(place) => {
            lemma_left(g, *place, outcomes);
        },
        None => {
            lemma_straight(g, g1, outcomes);
        },
    }
    let sig = g1.env.functions[name];
    let g2 = g1.receiver_args(receiver, sig.params).0;
    let first = g1.receiver_args(receiver, sig.params).1->Ok_0;
    crate::ir::gen::growth::lemma_explicit_args(g2, c, c.vals@.len(), first, sig.params);
    lemma_explicit_args(g2, c, c.vals@.len(), first, sig.params, outcomes);
    let g3 = g2.explicit_args(c, c.vals@.len(), first, sig.params).0;
    assert(g3.grows_to(z));
    lemma_straight(g1, g2, outcomes);
    lemma_straight(g3, z, outcomes);
    lemma_stage(g, g, g1, z, outcomes);
    lemma_stage(g, g1, g2, z, outcomes);
    lemma_stage(g, g2, g3, z, outcomes);
    lemma_stage(g, g3, z, z, outcomes);
    let whole = g.added(z);
    let n = g.code.len();
    lemma_gets_add(whole, 0, g1.code.len() - n, g2.code.len() - n, outcomes);
    lemma_gets_add(whole, 0, g2.code.len() - n, g3.code.len() - n, outcomes);
    lemma_gets_add(whole, 0, g3.code.len() - n, z.code.len() - n, outcomes);
}

// -----------------------------------------------------------------------
// Boolean expressions branch
// -----------------------------------------------------------------------

/// The label that a boolean expression jumps to.
pub open spec fn chosen(holds: bool, t: Lbl, f: Lbl) -> Lbl {
    if holds {
        t
    } else {
        f
    }
}

/// The code of a boolean expression jumps to the first label if the expression
/// is true, and to the second if it is not.
pub proof fn law_branch(g: GenState, e: BoolExpr, t: Lbl, f: Lbl, outcomes: Outcomes)
    requires
        g.branch(e, t, f).1 is Ok,
        g.knows(t),
        g.knows(f),
    ensures
        leaves(
            g.added(g.branch(e, t, f).0),
            0,
            chosen(g.holds(e, t, f, outcomes), t, f),
            outcomes,
        ),
    decreases e, 0nat, 0nat,
{
    match e.inner {
        BoolExprInner::BoolBiOpExpr(biop) => {
            lemma_bool_biop(g, *biop, t, f, outcomes);
        },
        BoolExprInner::BoolUnit(unit) => {
            law_bool_unit(g, *unit, t, f, outcomes);
        },
    }
}

proof fn lemma_bool_biop(g: GenState, e: BoolBiOpExpr, t: Lbl, f: Lbl, outcomes: Outcomes)
    requires
        g.bool_biop(e, t, f).1 is Ok,
        g.knows(t),
        g.knows(f),
    ensures
        leaves(
            g.added(g.bool_biop(e, t, f).0),
            0,
            chosen(g.biop_holds(e, t, f, outcomes), t, f),
            outcomes,
        ),
    decreases e, 0nat, 0nat,
{
    let z = g.bool_biop(e, t, f).0;
    let whole = g.added(z);
    let undecided = g.label(0);
    let g0 = g.with_blocks(1);
    crate::ir::gen::growth::lemma_bool_biop(g, e, t, f);
    crate::ir::gen::numbering::lemma_bool_biop(g, e, t, f);
    lemma_places_own(g, z, true, set![t, f]);
    let (lt, lf) = match e.op {
        BoolBiOp::And => (undecided, f),
        BoolBiOp::Or => (t, undecided),
    };
    let g1 = g0.branch(*e.left, lt, lf).0;
    crate::ir::gen::growth::lemma_branch(g0, *e.left, lt, lf);
    law_branch(g0, *e.left, lt, lf, outcomes);
    let g2 = g1.emit(Inst::Label(undecided));
    crate::ir::gen::growth::lemma_branch(g2, *e.right, t, f);
    law_branch(g2, *e.right, t, f, outcomes);
    let left = chosen(g0.holds(*e.left, lt, lf, outcomes), lt, lf);
    let right = chosen(g2.holds(*e.right, t, f, outcomes), t, f);
    assert(g.added(g1) =~= g0.added(g1));
    lemma_not_placed(g, z, t);
    lemma_not_placed(g, z, f);
    lemma_stage_leaves(g, g, g1, z, left, outcomes);
    if left == undecided {
        let p = g1.code.len() - g.code.len();
        assert(g2.code[g1.code.len() as int] == Inst::Label(undecided));
        assert(z.code[g1.code.len() as int] == g2.code[g1.code.len() as int]);
        assert(placed(whole, undecided, p));
        lemma_find(whole, undecided, p);
        lemma_gets_next(whole, p, outcomes);
        lemma_gets_add(whole, 0, p, p + 1, outcomes);
        lemma_stage_leaves(g, g2, z, z, right, outcomes);
        lemma_gets_leaves(whole, 0, p + 1, right, outcomes);
    }
}

/// A label that was known before is not placed.
proof fn lemma_not_placed(g: GenState, z: GenState, label: Lbl)
    requires
        g.places_own(z),
        g.knows(label),
    ensures
        find(g.added(z), label) is None,
{
}

/// The same of a comparison, a parenthesised expression or a negation.
pub proof fn law_bool_unit(g: GenState, u: BoolUnit, t: Lbl, f: Lbl, outcomes: Outcomes)
    requires
        g.bool_unit(u, t, f).1 is Ok,
        g.knows(t),
        g.knows(f),
    ensures
        leaves(
            g.added(g.bool_unit(u, t, f).0),
            0,
            chosen(g.unit_holds(u, t, f, outcomes), t, f),
            outcomes,
        ),
    decreases u, 0nat, 0nat,
{
    match u.inner {
        BoolUnitInner::ComExpr(e) => {
            lemma_comparison(g, *e, t, f, outcomes);
        },
        BoolUnitInner::BoolExpr(e) => {
            law_branch(g, *e, t, f, outcomes);
        },
        BoolUnitInner::BoolUOpExpr(e) => {
            law_bool_unit(g, *e.cond, f, t, outcomes);
        },
    }
}

proof fn lemma_comparison(g: GenState, e: ComExpr, t: Lbl, f: Lbl, outcomes: Outcomes)
    requires
        g.comparison(e, t, f).1 is Ok,
        g.knows(t),
        g.knows(f),
    ensures
        leaves(
            g.added(g.comparison(e, t, f).0),
            0,
            chosen(outcomes(g.compared(e)), t, f),
            outcomes,
        ),
    decreases e, 0nat, 0nat,
{
    let z = g.comparison(e, t, f).0;
    let whole = g.added(z);
    let n = g.code.len();
    crate::ir::gen::growth::lemma_comparison(g, e, t, f);
    crate::ir::gen::numbering::lemma_comparison(g, e, t, f);
    lemma_places_own(g, z, true, set![t, f]);
    lemma_not_placed(g, z, t);
    lemma_not_placed(g, z, f);
    crate::ir::gen::growth::lemma_unit(g, *e.left);
    lemma_unit(g, *e.left, outcomes);
    let (g1, l) = g.unit(*e.left);
    crate::ir::gen::growth::lemma_unit(g1, *e.right);
    lemma_unit(g1, *e.right, outcomes);
    let (g2, r) = g1.unit(*e.right);
    let g3 = g2.numeric_pair(l->Ok_0, r->Ok_0).0;
    // The comparison itself stands before the jump.
    let g4 = GenState { code: z.code.drop_last(), ..z };
    assert(g2.grows_to(g4));
    assert(g4.grows_to(z));
    lemma_straight(g2, g4, outcomes);
    lemma_stage(g, g, g1, z, outcomes);
    lemma_stage(g, g1, g2, z, outcomes);
    lemma_stage(g, g2, g4, z, outcomes);
    let end = g4.code.len() - n;
    lemma_gets_add(whole, 0, g1.code.len() - n, g2.code.len() - n, outcomes);
    lemma_gets_add(whole, 0, g2.code.len() - n, end, outcomes);
    assert(whole[end] == z.code.last());
    assert(z.code.last() == Inst::CJump {
        cond: g.compared(e),
        true_label: t,
        false_label: f,
    });
    assert(next(whole, end, outcomes) == Next::Out(chosen(outcomes(g.compared(e)), t, f)));
}

/// A boolean expression as a value: the run ends behind the code; before it
/// does, it stores 1 into the slot if the expression is true, else 0, and of
/// the three instructions that follow the last one loads the slot.
pub proof fn law_bool_value(g: GenState, e: BoolExpr, outcomes: Outcomes)
    requires
        g.bool_value(e).1 is Ok,
    ensures
        g.passes_to(g.bool_value(e).0, outcomes),
        stores_truth(g, e, outcomes),
    decreases e, 1nat, 0nat,
{
    let z = g.bool_value(e).0;
    let whole = g.added(z);
    let n = g.code.len();
    let (t, f, after) = (g.label(0), g.label(1), g.label(2));
    let slot = Val::Local(g.fresh(Ty::I32.ptr()));
    crate::ir::gen::growth::lemma_bool_value(g, e);
    crate::ir::gen::numbering::lemma_bool_value(g, e);
    lemma_places_own(g, z, true, Set::empty());
    let g1 = g.with_blocks(3).with_slot(Ty::I32);
    crate::ir::gen::growth::lemma_branch(g1, e, t, f);
    law_branch(g1, e, t, f, outcomes);
    let g2 = g1.branch(e, t, f).0;
    let p = g2.code.len() - n;
    assert(g.grows_to(g1));
    assert(g2.grows_to(z));
    lemma_straight(g, g1, outcomes);
    lemma_stage(g, g, g1, z, outcomes);
    let holds = g1.holds(e, t, f, outcomes);
    lemma_stage_leaves(g, g1, g2, z, chosen(holds, t, f), outcomes);
    assert(z.code.len() == g2.code.len() + 8);
    assert(whole[p] == Inst::Label(t));
    assert(whole[p + 1] == Inst::Store { src: Val::Int(1), ptr: slot });
    assert(whole[p + 2] == Inst::Jump { target: after });
    assert(whole[p + 3] == Inst::Label(f));
    assert(whole[p + 4] == Inst::Store { src: Val::Int(0), ptr: slot });
    assert(whole[p + 5] == Inst::Jump { target: after });
    assert(whole[p + 6] == Inst::Label(after));
    assert(whole[p + 7] is Load);
    assert(placed(whole, t, p));
    assert(placed(whole, f, p + 3));
    assert(placed(whole, after, p + 6));
    lemma_find(whole, t, p);
    lemma_find(whole, f, p + 3);
    lemma_find(whole, after, p + 6);
    let start = if holds {
        p
    } else {
        p + 3
    };
    lemma_gets_add(whole, 0, g1.code.len() - n, start, outcomes);
    lemma_gets_next(whole, start, outcomes);
    lemma_gets_add(whole, 0, start, start + 1, outcomes);
    let store = start + 1;
    reveal_with_fuel(steps, 5);
    assert(steps(whole, store, whole.len() as int, outcomes, 4));
    lemma_gets_add(whole, 0, store, whole.len() as int, outcomes);
    assert(stored_at(g, e, outcomes, store));
}

/// Whether the run of a boolean value gets to a store of its truth at `i`, from
/// where four steps lead to the end: the store, a jump, a label, and a load of
/// the value.
pub open spec fn stored_at(g: GenState, e: BoolExpr, outcomes: Outcomes, i: int) -> bool {
    let (z, v) = g.bool_value(e);
    let code = g.added(z);
    let slot = Val::Local(g.fresh(Ty::I32.ptr()));
    let truth = g.with_blocks(3).with_slot(Ty::I32).holds(e, g.label(0), g.label(1), outcomes);
    &&& gets(code, 0, i, outcomes)
    &&& 0 <= i < code.len()
    &&& code[i] == Inst::Store {
        src: Val::Int(
            if truth {
                1
            } else {
                0
            },
        ),
        ptr: slot,
    }
    &&& steps(code, i, code.len() as int, outcomes, 4)
    &&& code.last() == Inst::Load { dst: v->Ok_0, ptr: slot }
}

/// Whether the run of a boolean value stores its truth, and then loads it.
pub open spec fn stores_truth(g: GenState, e: BoolExpr, outcomes: Outcomes) -> bool {
    exists|i: int| stored_at(g, e, outcomes, i)
}

/// A negation is its operand with the two labels swapped, so a double negation
/// is its operand.
pub proof fn law_negation_swaps(g: GenState, u: BoolUnit, t: Lbl, f: Lbl)
    requires
        u.inner is BoolUOpExpr,
    ensures
        ({
            let cond = *u.inner->BoolUOpExpr_0.cond;
            &&& g.bool_unit(u, t, f) == g.bool_unit(cond, f, t)
            &&& cond.inner is BoolUOpExpr ==> g.bool_unit(u, t, f) == g.bool_unit(
                *cond.inner->BoolUOpExpr_0.cond,
                t,
                f,
            )
        }),
{
    let cond = *u.inner->BoolUOpExpr_0.cond;
    assert(g.bool_unit(u, t, f) == g.bool_unit(cond, f, t));
}

/// Short circuit: where the left operand of `&&` or `||` decides, the run leaves
/// from the code of the left operand.
pub proof fn law_short_circuit(
    g: GenState,
    e: BoolBiOpExpr,
    t: Lbl,
    f: Lbl,
    outcomes: Outcomes,
)
    requires
        g.bool_biop(e, t, f).1 is Ok,
        g.knows(t),
        g.knows(f),
        g.left_holds(e, t, f, outcomes) == (e.op == BoolBiOp::Or),
    ensures
        leaves(
            g.added(g.left_operand(e, t, f).0),
            0,
            chosen(e.op == BoolBiOp::Or, t, f),
            outcomes,
        ),
        leaves(
            g.added(g.bool_biop(e, t, f).0),
            0,
            chosen(e.op == BoolBiOp::Or, t, f),
            outcomes,
        ),
{
    let undecided = g.label(0);
    let g0 = g.with_blocks(1);
    let (lt, lf) = match e.op {
        BoolBiOp::And => (undecided, f),
        BoolBiOp::Or => (t, undecided),
    };
    law_branch(g0, *e.left, lt, lf, outcomes);
    assert(g.added(g.left_operand(e, t, f).0) =~= g0.added(g.left_operand(e, t, f).0));
    lemma_bool_biop(g, e, t, f, outcomes);
}

// -----------------------------------------------------------------------
// Statements
// -----------------------------------------------------------------------

/// An `if` goes to the label of its first block if its condition is true, and
/// to the label of its second block if it is not.
pub proof fn law_if_chooses(
    g: GenState,
    s: IfStmt,
    con: Option<Lbl>,
    bre: Option<Lbl>,
    outcomes: Outcomes,
)
    requires
        g.conditional(s, con, bre).1 is Ok,
    ensures
        ({
            let code = g.added(g.conditional(s, con, bre).0);
            let (t, f) = (g.label(0), g.label(1));
            let cond = g.with_blocks(3).bool_unit(s.bool_unit, t, f).0;
            let then = cond.emit(Inst::Label(t)).scoped(s.if_stmts, con, bre).0;
            let truth = g.with_blocks(3).unit_holds(s.bool_unit, t, f, outcomes);
            let at = if truth {
                cond.code.len() - g.code.len()
            } else {
                then.code.len() + 1 - g.code.len()
            };
            &&& placed(code, chosen(truth, t, f), at)
            &&& gets(code, 0, at, outcomes)
        }),
{
    let z = g.conditional(s, con, bre).0;
    let whole = g.added(z);
    let n = g.code.len() as int;
    let (t, f, after) = (g.label(0), g.label(1), g.label(2));
    let g0 = g.with_blocks(3);
    crate::ir::gen::growth::lemma_conditional(g, s, con, bre);
    crate::ir::gen::numbering::lemma_conditional(g, s, con, bre);
    lemma_places_own(g, z, true, crate::ir::gen::numbering::loop_labels(con, bre));
    crate::ir::gen::growth::lemma_bool_unit(g0, s.bool_unit, t, f);
    law_bool_unit(g0, s.bool_unit, t, f, outcomes);
    let g1 = g0.bool_unit(s.bool_unit, t, f).0;
    let g2 = g1.emit(Inst::Label(t));
    crate::ir::gen::growth::lemma_scoped(g2, s.if_stmts, con, bre);
    let g3 = g2.scoped(s.if_stmts, con, bre).0;
    let g4 = g3.emit(Inst::Jump { target: after }).emit(Inst::Label(f));
    if let Some(list) = s.else_stmts {
        crate::ir::gen::growth::lemma_scoped(g4, list, con, bre);
    }
    assert(g4.grows_to(z));
    assert(g1.grows_to(z));
    assert(g.added(g1) =~= g0.added(g1));
    assert(z.code[g1.code.len() as int] == g4.code[g1.code.len() as int]);
    assert(g4.code[g1.code.len() as int] == g2.code[g1.code.len() as int]) by {
        assert(g3.code[g1.code.len() as int] == g2.code[g1.code.len() as int]);
    }
    let second = g3.code.len() as int + 1;
    assert(z.code[second] == g4.code[second]);
    assert(placed(whole, t, g1.code.len() - n));
    assert(placed(whole, f, g3.code.len() + 1 - n));
    lemma_find(whole, t, g1.code.len() - n);
    lemma_find(whole, f, g3.code.len() + 1 - n);
    let truth = g0.unit_holds(s.bool_unit, t, f, outcomes);
    lemma_stage_leaves(g, g, g1, z, chosen(truth, t, f), outcomes);
}

/// Both blocks of an `if` go to the merge point behind it when they finish, and
/// there the code of the `if` ends.
pub proof fn law_if_merges(
    g: GenState,
    s: IfStmt,
    con: Option<Lbl>,
    bre: Option<Lbl>,
    outcomes: Outcomes,
)
    requires
        g.conditional(s, con, bre).1 is Ok,
    ensures
        ({
            let code = g.added(g.conditional(s, con, bre).0);
            let (t, f, after) = (g.label(0), g.label(1), g.label(2));
            let cond = g.with_blocks(3).bool_unit(s.bool_unit, t, f).0;
            let first = cond.emit(Inst::Label(t)).scoped(s.if_stmts, con, bre).0;
            let last = code.len() - 1;
            &&& placed(code, after, last)
            &&& next(code, first.code.len() - g.code.len(), outcomes) == Next::At(last)
            &&& next(code, last - 1, outcomes) == Next::At(last)
        }),
{
    let z = g.conditional(s, con, bre).0;
    let whole = g.added(z);
    let n = g.code.len() as int;
    let (t, f, after) = (g.label(0), g.label(1), g.label(2));
    let g0 = g.with_blocks(3);
    crate::ir::gen::growth::lemma_conditional(g, s, con, bre);
    crate::ir::gen::numbering::lemma_conditional(g, s, con, bre);
    lemma_places_own(g, z, true, crate::ir::gen::numbering::loop_labels(con, bre));
    crate::ir::gen::growth::lemma_bool_unit(g0, s.bool_unit, t, f);
    let g2 = g0.bool_unit(s.bool_unit, t, f).0.emit(Inst::Label(t));
    crate::ir::gen::growth::lemma_scoped(g2, s.if_stmts, con, bre);
    let g3 = g2.scoped(s.if_stmts, con, bre).0;
    let g4 = g3.emit(Inst::Jump { target: after }).emit(Inst::Label(f));
    if let Some(list) = s.else_stmts {
        crate::ir::gen::growth::lemma_scoped(g4, list, con, bre);
    }
    assert(g4.grows_to(z));
    let end = g3.code.len() as int;
    assert(z.code[end] == g4.code[end]);
    assert(whole[end - n] == Inst::Jump { target: after });
    let last = whole.len() - 1;
    assert(whole[last - 1] == Inst::Jump { target: after });
    assert(placed(whole, after, last));
    lemma_find(whole, after, last);
}

/// A `while` loop starts with its test, enters its body if the condition is
/// true, and goes behind the loop if it is not; behind the body it goes back to
/// the test.
pub proof fn law_while_chooses(g: GenState, s: WhileStmt, outcomes: Outcomes)
    requires
        g.while_loop(s).1 is Ok,
    ensures
        ({
            let code = g.added(g.while_loop(s).0);
            let (test, body, behind) = (g.label(0), g.label(1), g.label(2));
            let start = g.with_blocks(3).emit(Inst::Jump { target: test }).emit(
                Inst::Label(test),
            );
            let cond = start.bool_unit(s.bool_unit, body, behind).0;
            let truth = start.unit_holds(s.bool_unit, body, behind, outcomes);
            let last = code.len() - 1;
            let at = if truth {
                cond.code.len() - g.code.len()
            } else {
                last
            };
            &&& placed(code, test, 1)
            &&& gets(code, 0, 1, outcomes)
            &&& placed(code, chosen(truth, body, behind), at)
            &&& gets(code, 1, at, outcomes)
            &&& next(code, last - 1, outcomes) == Next::At(1)
        }),
{
    let z = g.while_loop(s).0;
    let whole = g.added(z);
    let n = g.code.len() as int;
    let (test, body, behind) = (g.label(0), g.label(1), g.label(2));
    let g0 = g.with_blocks(3);
    crate::ir::gen::growth::lemma_while_loop(g, s);
    crate::ir::gen::numbering::lemma_while_loop(g, s);
    lemma_places_own(g, z, true, Set::empty());
    let g1 = g0.emit(Inst::Jump { target: test }).emit(Inst::Label(test));
    crate::ir::gen::growth::lemma_bool_unit(g1, s.bool_unit, body, behind);
    law_bool_unit(g1, s.bool_unit, body, behind, outcomes);
    let g2 = g1.bool_unit(s.bool_unit, body, behind).0;
    let g3 = g2.emit(Inst::Label(body));
    crate::ir::gen::growth::lemma_scoped(g3, s.stmts, Some(test), Some(behind));
    let g4 = g3.scoped(s.stmts, Some(test), Some(behind)).0;
    assert(g.grows_to(g1));
    assert(g4.grows_to(z));
    assert(g2.grows_to(z));
    let last = whole.len() - 1;
    assert(z.code[n] == g1.code[n]) by {
        assert(g2.code[n] == g1.code[n]);
        assert(g4.code[n] == g3.code[n]);
    }
    assert(z.code[n + 1] == g1.code[n + 1]) by {
        assert(g2.code[n + 1] == g1.code[n + 1]);
        assert(g4.code[n + 1] == g3.code[n + 1]);
    }
    assert(z.code[g2.code.len() as int] == Inst::Label(body)) by {
        assert(g4.code[g2.code.len() as int] == g3.code[g2.code.len() as int]);
    }
    assert(whole[0] == Inst::Jump { target: test });
    assert(placed(whole, test, 1));
    assert(placed(whole, body, g2.code.len() - n));
    assert(placed(whole, behind, last));
    assert(whole[last - 1] == Inst::Jump { target: test });
    lemma_find(whole, test, 1);
    lemma_find(whole, body, g2.code.len() - n);
    lemma_find(whole, behind, last);
    lemma_gets_next(whole, 0, outcomes);
    lemma_gets_next(whole, 1, outcomes);
    let truth = g1.unit_holds(s.bool_unit, body, behind, outcomes);
    let at = if truth {
        g2.code.len() - n
    } else {
        last
    };
    lemma_stage_leaves(g, g1, g2, z, chosen(truth, body, behind), outcomes);
    lemma_gets_add(whole, 1, 2, at, outcomes);
}

/// A counted loop fills the slots of its iterator and its end, and gets to the
/// test.  The test compares what the two slots hold; the run enters the body if
/// the iterator is below the end, and goes behind the loop if it is not.
/// Behind the body the iterator goes up by one, and the run is back at the test.
pub proof fn law_for_chooses(
    g: GenState,
    s: ForStmt,
    start: Val,
    end: Val,
    outcomes: Outcomes,
)
    requires
        g.counted_loop(s, start, end).1 is Ok,
    ensures
        ({
            let code = g.added(g.counted_loop(s, start, end).0);
            let (test, body, step, behind) = (g.label(0), g.label(1), g.label(2), g.label(3));
            let iter = Val::Local(g.fresh(Ty::I32.ptr()));
            let last = code.len() - 1;
            &&& code.len() >= 18
            &&& code[1] == Inst::Store { src: start, ptr: iter }
            &&& placed(code, test, 5)
            &&& gets(code, 0, 5, outcomes)
            &&& code[8] matches Inst::Cmp { predicate, left, right, dst }
            &&& predicate == CmpPredicate::Slt
            &&& code[6] == Inst::Load { dst: left, ptr: iter }
            &&& code[7] matches Inst::Load { dst: limit, ptr }
            &&& limit == right
            &&& code[3] == Inst::Store { src: end, ptr }
            &&& placed(code, body, 10)
            &&& placed(code, behind, last)
            &&& gets(
                code,
                5,
                if outcomes(dst) {
                    10
                } else {
                    last
                },
                outcomes,
            )
            &&& placed(code, step, last - 5)
            &&& code[last - 4] matches Inst::Load { dst: current, ptr: from }
            &&& from == iter
            &&& code[last - 3] matches Inst::BiOp { kind, left: l, right: r, dst: stepped }
            &&& kind == ArithBinOp::Add
            &&& l == current
            &&& r == Val::Int(1)
            &&& code[last - 2] == Inst::Store { src: stepped, ptr: iter }
            &&& gets(code, last - 6, 5, outcomes)
        }),
{
    let z = g.counted_loop(s, start, end).0;
    let whole = g.added(z);
    let n = g.code.len() as int;
    let (test, body, step, behind) = (g.label(0), g.label(1), g.label(2), g.label(3));
    let g0 = g.with_blocks(4);
    crate::ir::gen::growth::lemma_counted_loop(g, s, start, end);
    crate::ir::gen::numbering::lemma_counted_loop(g, s, start, end);
    lemma_places_own(g, z, true, Set::empty());
    let g1 = g0.for_head(s.iterator@, start, end, test).0;
    let (iter, limit) = g0.for_head(s.iterator@, start, end, test).1->Ok_0;
    let g2 = g1.for_test(iter, limit, body, behind).emit(Inst::Label(body));
    crate::ir::gen::growth::lemma_scoped(g2, s.stmts, Some(step), Some(behind));
    let g3 = g2.scoped(s.stmts, Some(step), Some(behind)).0;
    assert(g2.code.len() == n + 11);
    assert(z.code.len() == g3.code.len() + 7);
    let last = whole.len() - 1;
    assert forall|i: int| 0 <= i < 11 implies #[trigger] whole[i] == g2.code[n + i] by {
        assert(g3.code[n + i] == g2.code[n + i]);
    }
    assert(whole[4] == Inst::Jump { target: test });
    assert(whole[5] == Inst::Label(test));
    assert(placed(whole, test, 5));
    assert(whole[10] == Inst::Label(body));
    assert(placed(whole, body, 10));
    assert(whole[last - 5] == Inst::Label(step));
    assert(placed(whole, step, last - 5));
    assert(placed(whole, behind, last));
    lemma_find(whole, test, 5);
    lemma_find(whole, body, 10);
    lemma_find(whole, step, last - 5);
    lemma_find(whole, behind, last);
    reveal_with_fuel(steps, 8);
    assert(whole[0] is Alloca && whole[1] is Store && whole[2] is Alloca && whole[3] is Store);
    assert(steps(whole, 0, 5, outcomes, 5));
    assert(whole[6] is Load && whole[7] is Load && whole[8] is Cmp);
    let cond = whole[8]->Cmp_dst;
    assert(whole[9] == Inst::CJump { cond, true_label: body, false_label: behind });
    let at = if outcomes(cond) {
        10
    } else {
        last
    };
    assert(steps(whole, 5, at, outcomes, 5));
    assert(whole[last - 6] == Inst::Jump { target: step });
    assert(whole[last - 4] is Load && whole[last - 3] is BiOp && whole[last - 2] is Store);
    assert(whole[last - 1] == Inst::Jump { target: test });
    assert(steps(whole, last - 6, 5, outcomes, 6));
}

/// `continue` and `break` jump to the labels of the loop around them; outside a
/// loop they are rejected.
pub proof fn law_loop_jumps(g: GenState, s: CodeBlockStmt, con: Option<Lbl>, bre: Option<Lbl>)
    ensures
        s.inner is Continue ==> g.block(s, con, bre) == match con {
            Some(target) => (g.emit(Inst::Jump { target }), Ok::<(), Fault>(())),
            None => (g, Err(Fault::InvalidContinueInst)),
        },
        s.inner is Break ==> g.block(s, con, bre) == match bre {
            Some(target) => (g.emit(Inst::Jump { target }), Ok::<(), Fault>(())),
            None => (g, Err(Fault::InvalidBreakInst)),
        },
{
}

} // verus!
