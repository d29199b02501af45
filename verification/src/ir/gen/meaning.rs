//! What expressions compute.
//!
//! Registers are written once, so a run gives each of them a value, and every
//! instruction that computes is an equation between those values.  Whatever
//! values satisfy the equations of an expression's code, the operand that the
//! expression was lowered to has the value of the expression.

use crate::ast::expr::{
    ArithBiOp, ArithExpr, ArithExprInner, BoolBiOp, BoolBiOpExpr, BoolExpr, BoolExprInner,
    BoolUnit, BoolUnitInner, ComExpr, ComOp, ExprUnit, ExprUnitInner, RightVal, RightValInner,
};
use crate::ast::stmt::{
    AssignmentStmt, IfStmt, RangeBound, RangeBoundInner, ReturnStmt, WhileStmt,
};
use crate::ir::function::GenState;
use crate::ir::gen::flow::Outcomes;
use crate::ir::stmt::{
    ArithBinOp, CmpPredicate, FloatBinOp, FloatCmpPredicate, Inst, Lbl,
};
use crate::ir::types::Ty;
use crate::ir::value::Val;
use vstd::prelude::*;

verus! {

/// What a register can hold, as far as arithmetic sees it.
pub enum Word {
    Int(i32),
    /// The bit pattern of an `f32`.
    Float(u32),
    Truth(bool),
    Other,
}

impl Word {
    pub open spec fn integer(self) -> i32 {
        match self {
            Word::Int(n) => n,
            _ => 0,
        }
    }

    pub open spec fn bits(self) -> u32 {
        match self {
            Word::Float(bits) => bits,
            _ => 0,
        }
    }
}

/// Float arithmetic on bit patterns.
pub struct FloatUnit {
    pub apply: spec_fn(ArithBiOp, u32, u32) -> u32,
    pub compare: spec_fn(ComOp, u32, u32) -> bool,
    pub from_int: spec_fn(i32) -> u32,
    pub to_int: spec_fn(u32) -> i32,
}

/// The values of operands.
pub type Values = spec_fn(Val) -> Word;

/// A number reduced to 32 bits, in two's complement.
pub open spec fn wrapped(n: int) -> i32 {
    ((n + 0x8000_0000) % 0x1_0000_0000 - 0x8000_0000) as i32
}

/// A quotient rounded toward zero.
pub open spec fn truncated(a: int, b: int) -> int {
    let q = (if a < 0 {
        -a
    } else {
        a
    }) / (if b < 0 {
        -b
    } else {
        b
    });
    if (a < 0) == (b < 0) {
        q
    } else {
        -q
    }
}

/// What an operator of the language computes on integers.  The quotient by 0 is
/// left open.
pub open spec fn int_result(op: ArithBiOp, a: i32, b: i32) -> i32 {
    match op {
        ArithBiOp::Add => wrapped(a + b),
        ArithBiOp::Sub => wrapped(a - b),
        ArithBiOp::Mul => wrapped(a * b),
        ArithBiOp::Div => wrapped(truncated(a as int, b as int)),
    }
}

/// Whether a comparison of the language holds of two integers.
pub open spec fn int_relation(op: ComOp, a: i32, b: i32) -> bool {
    match op {
        ComOp::Lt => a < b,
        ComOp::Le => a <= b,
        ComOp::Gt => a > b,
        ComOp::Ge => a >= b,
        ComOp::Eq => a == b,
        ComOp::Ne => a != b,
    }
}

/// Whether an instruction's result is what it computes from its operands.
pub open spec fn satisfied(inst: Inst, values: Values, fp: FloatUnit) -> bool {
    match inst {
        Inst::BiOp { kind, left, right, dst } => {
            let (a, b) = (values(left).integer(), values(right).integer());
            values(dst) == Word::Int(
                match kind {
                    ArithBinOp::Add => wrapped(a + b),
                    ArithBinOp::Sub => wrapped(a - b),
                    ArithBinOp::Mul => wrapped(a * b),
                    ArithBinOp::SDiv => wrapped(truncated(a as int, b as int)),
                },
            )
        },
        Inst::FBiOp { float_kind, left, right, dst } => {
            let (a, b) = (values(left).bits(), values(right).bits());
            values(dst) == Word::Float(
                match float_kind {
                    FloatBinOp::FAdd => (fp.apply)(ArithBiOp::Add, a, b),
                    FloatBinOp::FSub => (fp.apply)(ArithBiOp::Sub, a, b),
                    FloatBinOp::FMul => (fp.apply)(ArithBiOp::Mul, a, b),
                    FloatBinOp::FDiv => (fp.apply)(ArithBiOp::Div, a, b),
                },
            )
        },
        Inst::Cmp { predicate, left, right, dst } => {
            let (a, b) = (values(left).integer(), values(right).integer());
            values(dst) == Word::Truth(
                match predicate {
                    CmpPredicate::Eq => a == b,
                    CmpPredicate::Ne => a != b,
                    CmpPredicate::Sgt => a > b,
                    CmpPredicate::Sge => a >= b,
                    CmpPredicate::Slt => a < b,
                    CmpPredicate::Sle => a <= b,
                },
            )
        },
        Inst::FCmp { float_predicate, left, right, dst } => {
            let (a, b) = (values(left).bits(), values(right).bits());
            values(dst) == Word::Truth(
                match float_predicate {
                    FloatCmpPredicate::Oeq => (fp.compare)(ComOp::Eq, a, b),
                    FloatCmpPredicate::One => (fp.compare)(ComOp::Ne, a, b),
                    FloatCmpPredicate::Ogt => (fp.compare)(ComOp::Gt, a, b),
                    FloatCmpPredicate::Oge => (fp.compare)(ComOp::Ge, a, b),
                    FloatCmpPredicate::Olt => (fp.compare)(ComOp::Lt, a, b),
                    FloatCmpPredicate::Ole => (fp.compare)(ComOp::Le, a, b),
                },
            )
        },
        Inst::SiToFp { src, dst } => values(dst) == Word::Float((fp.from_int)(values(src).integer())),
        Inst::FpToSi { src, dst } => values(dst) == Word::Int((fp.to_int)(values(src).bits())),
        _ => true,
    }
}

/// Whether constants stand for themselves, and every instruction of the code is
/// satisfied.
pub open spec fn consistent_values(code: Seq<Inst>, values: Values, fp: FloatUnit) -> bool {
    &&& forall|n: i32| #[trigger] values(Val::Int(n)) == Word::Int(n)
    &&& forall|bits: u32| #[trigger] values(Val::Float(bits)) == Word::Float(bits)
    &&& forall|i: int| 0 <= i < code.len() ==> satisfied(#[trigger] code[i], values, fp)
}

/// A value of one numeric type converted to another.
pub open spec fn converted(w: Word, from: Ty, to: Ty, fp: FloatUnit) -> Word {
    if from == Ty::I32 && to == Ty::F32 {
        Word::Float((fp.from_int)(w.integer()))
    } else if from == Ty::F32 && to == Ty::I32 {
        Word::Int((fp.to_int)(w.bits()))
    } else {
        w
    }
}

/// What an operator computes on two numbers: on floats if one of them is a
/// float, else on integers.
pub open spec fn combined(op: ArithBiOp, a: Word, s: Ty, b: Word, t: Ty, fp: FloatUnit) -> Word {
    if s == Ty::F32 || t == Ty::F32 {
        Word::Float(
            (fp.apply)(
                op,
                converted(a, s, Ty::F32, fp).bits(),
                converted(b, t, Ty::F32, fp).bits(),
            ),
        )
    } else {
        Word::Int(int_result(op, a.integer(), b.integer()))
    }
}

/// Whether a comparison holds of two numbers: of floats if one of them is a
/// float, else of integers.
pub open spec fn related(op: ComOp, a: Word, s: Ty, b: Word, t: Ty, fp: FloatUnit) -> bool {
    if s == Ty::F32 || t == Ty::F32 {
        (fp.compare)(
            op,
            converted(a, s, Ty::F32, fp).bits(),
            converted(b, t, Ty::F32, fp).bits(),
        )
    } else {
        int_relation(op, a.integer(), b.integer())
    }
}

impl GenState {
    /// The value of an arithmetic expression.  What is read from memory or
    /// returned by a call is given by the values of the registers that hold it.
    pub open spec fn meaning(self, e: ArithExpr, values: Values, fp: FloatUnit) -> Word
        decreases e,
    {
        match e.inner {
            ArithExprInner::ArithBiOpExpr(biop) => {
                let (g, l) = self.arith(*biop.left);
                let (_, r) = g.arith(*biop.right);
                combined(
                    biop.op,
                    self.meaning(*biop.left, values, fp),
                    l->Ok_0.ty(),
                    g.meaning(*biop.right, values, fp),
                    r->Ok_0.ty(),
                    fp,
                )
            },
            ArithExprInner::ExprUnit(unit) => self.unit_meaning(*unit, values, fp),
        }
    }

    /// The value of an expression unit: a literal stands for itself, a cast
    /// converts, parentheses change nothing.
    pub open spec fn unit_meaning(self, u: ExprUnit, values: Values, fp: FloatUnit) -> Word
        decreases u,
    {
        let given = values(self.unit(u).1->Ok_0);
        match u.inner {
            ExprUnitInner::Num(n) => Word::Int(n),
            ExprUnitInner::FloatNum(bits) => Word::Float(bits),
            ExprUnitInner::ArithExpr(e) => if is_number(self.arith(*e).1->Ok_0) {
                self.meaning(*e, values, fp)
            } else {
                given
            },
            ExprUnitInner::Cast(cast) => {
                let to = Ty::of(cast.target_type);
                if is_number(self.unit(*cast.expr).1->Ok_0) && (to == Ty::I32 || to == Ty::F32) {
                    converted(
                        self.unit_meaning(*cast.expr, values, fp),
                        self.unit(*cast.expr).1->Ok_0.ty(),
                        to,
                        fp,
                    )
                } else {
                    given
                }
            },
            _ => given,
        }
    }

    /// Whether a boolean expression is true of the values of its operands.
    pub open spec fn truth(
        self,
        e: BoolExpr,
        t: Lbl,
        f: Lbl,
        values: Values,
        fp: FloatUnit,
    ) -> bool
        decreases e, 0nat,
    {
        match e.inner {
            BoolExprInner::BoolBiOpExpr(biop) => self.biop_truth(*biop, t, f, values, fp),
            BoolExprInner::BoolUnit(unit) => self.unit_truth(*unit, t, f, values, fp),
        }
    }

    pub open spec fn biop_truth(
        self,
        e: BoolBiOpExpr,
        t: Lbl,
        f: Lbl,
        values: Values,
        fp: FloatUnit,
    ) -> bool
        decreases e, 0nat,
    {
        let undecided = self.label(0);
        let right = self.after_left(e, t, f).truth(*e.right, t, f, values, fp);
        match e.op {
            BoolBiOp::And => self.with_blocks(1).truth(*e.left, undecided, f, values, fp) && right,
            BoolBiOp::Or => self.with_blocks(1).truth(*e.left, t, undecided, values, fp) || right,
        }
    }

    pub open spec fn unit_truth(
        self,
        u: BoolUnit,
        t: Lbl,
        f: Lbl,
        values: Values,
        fp: FloatUnit,
    ) -> bool
        decreases u, 0nat,
    {
        match u.inner {
            BoolUnitInner::ComExpr(e) => self.comparison_truth(*e, values, fp),
            BoolUnitInner::BoolExpr(e) => self.truth(*e, t, f, values, fp),
            BoolUnitInner::BoolUOpExpr(e) => !self.unit_truth(*e.cond, f, t, values, fp),
        }
    }

    pub open spec fn comparison_truth(self, e: ComExpr, values: Values, fp: FloatUnit) -> bool {
        let (g, l) = self.unit(*e.left);
        let (_, r) = g.unit(*e.right);
        related(
            e.op,
            self.unit_meaning(*e.left, values, fp),
            l->Ok_0.ty(),
            g.unit_meaning(*e.right, values, fp),
            r->Ok_0.ty(),
            fp,
        )
    }
}

/// Whether the operand is an `i32` or an `f32` that is not in memory.
pub open spec fn is_number(v: Val) -> bool {
    (v.ty() == Ty::I32 || v.ty() == Ty::F32) && !(v is Global)
}

/// How comparisons turn out, given the values of the registers.
pub open spec fn outcomes_of(values: Values) -> Outcomes {
    |v: Val| values(v) == Word::Truth(true)
}

/// The values are consistent with every part of the code.
proof fn lemma_part(
    g: GenState,
    a: GenState,
    b: GenState,
    z: GenState,
    values: Values,
    fp: FloatUnit,
)
    requires
        g.grows_to(a),
        a.grows_to(b),
        b.grows_to(z),
        consistent_values(g.added(z), values, fp),
    ensures
        consistent_values(a.added(b), values, fp),
{
    let whole = g.added(z);
    let part = a.added(b);
    assert forall|i: int| 0 <= i < part.len() implies satisfied(#[trigger] part[i], values, fp) by {
        let j = a.code.len() - g.code.len() + i;
        assert(b.code[a.code.len() + i] == z.code[a.code.len() + i]);
        assert(whole[j] == part[i]);
    }
}

/// A conversion computes the converted value.
proof fn lemma_convert(g: GenState, v: Val, target: Ty, values: Values, fp: FloatUnit)
    requires
        g.convert(v, target).1 is Ok,
        consistent_values(g.added(g.convert(v, target).0), values, fp),
    ensures
        values(g.convert(v, target).1->Ok_0) == converted(values(v), v.ty(), target, fp),
{
    let z = g.convert(v, target).0;
    if z.code.len() > g.code.len() {
        assert(g.added(z)[0] == z.code[g.code.len() as int]);
        assert(satisfied(g.added(z)[0], values, fp));
    }
}

proof fn lemma_numeric_pair(g: GenState, l: Val, r: Val, values: Values, fp: FloatUnit)
    requires
        g.numeric_pair(l, r).1 is Ok,
        consistent_values(g.added(g.numeric_pair(l, r).0), values, fp),
    ensures
        ({
            let (a, b, ty) = g.numeric_pair(l, r).1->Ok_0;
            &&& values(a) == converted(values(l), l.ty(), ty, fp)
            &&& values(b) == converted(values(r), r.ty(), ty, fp)
            &&& ty == if l.ty() == Ty::F32 || r.ty() == Ty::F32 {
                Ty::F32
            } else {
                Ty::I32
            }
            &&& ty == Ty::I32 ==> l.ty() == Ty::I32 && r.ty() == Ty::I32
        }),
{
    let z = g.numeric_pair(l, r).0;
    if l.ty() == Ty::F32 || r.ty() == Ty::F32 {
        let g1 = g.convert(l, Ty::F32).0;
        assert(g.grows_to(g1));
        assert(g1.grows_to(z));
        lemma_part(g, g, g1, z, values, fp);
        lemma_part(g, g1, z, z, values, fp);
        lemma_convert(g, l, Ty::F32, values, fp);
        lemma_convert(g1, r, Ty::F32, values, fp);
    }
}

proof fn lemma_numeric_biop(
    g: GenState,
    op: ArithBiOp,
    l: Val,
    r: Val,
    values: Values,
    fp: FloatUnit,
)
    requires
        g.numeric_biop(op, l, r).1 is Ok,
        consistent_values(g.added(g.numeric_biop(op, l, r).0), values, fp),
    ensures
        values(g.numeric_biop(op, l, r).1->Ok_0) == combined(
            op,
            values(l),
            l.ty(),
            values(r),
            r.ty(),
            fp,
        ),
{
    let z = g.numeric_biop(op, l, r).0;
    let g1 = g.numeric_pair(l, r).0;
    assert(g.grows_to(g1));
    assert(g1.grows_to(z));
    lemma_part(g, g, g1, z, values, fp);
    lemma_part(g, g1, z, z, values, fp);
    lemma_numeric_pair(g, l, r, values, fp);
    assert(g1.added(z)[0] == z.code[g1.code.len() as int]);
    assert(satisfied(g1.added(z)[0], values, fp));
}

/// The operand that an arithmetic expression is lowered to has the value of the
/// expression: operators and conversions compute what they stand for.
pub proof fn law_arith_computes(g: GenState, e: ArithExpr, values: Values, fp: FloatUnit)
    requires
        g.arith(e).1 is Ok,
        consistent_values(g.added(g.arith(e).0), values, fp),
    ensures
        values(g.arith(e).1->Ok_0) == g.meaning(e, values, fp),
    decreases e,
{
    match e.inner {
        ArithExprInner::ArithBiOpExpr(biop) => {
            let z = g.arith(e).0;
            crate::ir::gen::growth::lemma_arith(g, *biop.left);
            let (g1, l) = g.arith(*biop.left);
            crate::ir::gen::growth::lemma_arith(g1, *biop.right);
            let (g2, r) = g1.arith(*biop.right);
            assert(g2.grows_to(z));
            lemma_part(g, g, g1, z, values, fp);
            lemma_part(g, g1, g2, z, values, fp);
            lemma_part(g, g2, z, z, values, fp);
            law_arith_computes(g, *biop.left, values, fp);
            law_arith_computes(g1, *biop.right, values, fp);
            lemma_numeric_biop(g2, biop.op, l->Ok_0, r->Ok_0, values, fp);
        },
        ArithExprInner::ExprUnit(unit) => {
            law_unit_computes(g, *unit, values, fp);
        },
    }
}

/// The same of an expression unit.
pub proof fn law_unit_computes(g: GenState, u: ExprUnit, values: Values, fp: FloatUnit)
    requires
        g.unit(u).1 is Ok,
        consistent_values(g.added(g.unit(u).0), values, fp),
    ensures
        values(g.unit(u).1->Ok_0) == g.unit_meaning(u, values, fp),
    decreases u,
{
    let z = g.unit(u).0;
    match u.inner {
        ExprUnitInner::ArithExpr(e) => {
            crate::ir::gen::growth::lemma_arith(g, *e);
            let (g1, v) = g.arith(*e);
            if is_number(v->Ok_0) {
                lemma_part(g, g, g1, z, values, fp);
                law_arith_computes(g, *e, values, fp);
            }
        },
        ExprUnitInner::Cast(cast) => {
            crate::ir::gen::growth::lemma_unit(g, *cast.expr);
            let (g1, v) = g.unit(*cast.expr);
            let to = Ty::of(cast.target_type);
            if is_number(v->Ok_0) && (to == Ty::I32 || to == Ty::F32) {
                assert(g1.grows_to(z));
                lemma_part(g, g, g1, z, values, fp);
                lemma_part(g, g1, z, z, values, fp);
                law_unit_computes(g, *cast.expr, values, fp);
                lemma_convert(g1, v->Ok_0, to, values, fp);
            }
        },
        _ => {},
    }
}

/// How the comparisons of a boolean expression turn out makes it hold exactly
/// if it is true of the values of its operands.
pub proof fn law_truth(
    g: GenState,
    e: BoolExpr,
    t: Lbl,
    f: Lbl,
    values: Values,
    fp: FloatUnit,
)
    requires
        g.branch(e, t, f).1 is Ok,
        consistent_values(g.added(g.branch(e, t, f).0), values, fp),
    ensures
        g.holds(e, t, f, outcomes_of(values)) == g.truth(e, t, f, values, fp),
    decreases e, 0nat,
{
    match e.inner {
        BoolExprInner::BoolBiOpExpr(biop) => {
            lemma_biop_truth(g, *biop, t, f, values, fp);
        },
        BoolExprInner::BoolUnit(unit) => {
            law_unit_truth(g, *unit, t, f, values, fp);
        },
    }
}

proof fn lemma_biop_truth(
    g: GenState,
    e: BoolBiOpExpr,
    t: Lbl,
    f: Lbl,
    values: Values,
    fp: FloatUnit,
)
    requires
        g.bool_biop(e, t, f).1 is Ok,
        consistent_values(g.added(g.bool_biop(e, t, f).0), values, fp),
    ensures
        g.biop_holds(e, t, f, outcomes_of(values)) == g.biop_truth(e, t, f, values, fp),
    decreases e, 0nat,
{
    let z = g.bool_biop(e, t, f).0;
    let undecided = g.label(0);
    let g0 = g.with_blocks(1);
    let (lt, lf) = match e.op {
        BoolBiOp::And => (undecided, f),
        BoolBiOp::Or => (t, undecided),
    };
    crate::ir::gen::growth::lemma_branch(g0, *e.left, lt, lf);
    let g1 = g0.branch(*e.left, lt, lf).0;
    let g2 = g1.emit(Inst::Label(undecided));
    crate::ir::gen::growth::lemma_branch(g2, *e.right, t, f);
    assert(g.added(g1) =~= g0.added(g1));
    lemma_part(g, g, g1, z, values, fp);
    lemma_part(g, g2, z, z, values, fp);
    law_truth(g0, *e.left, lt, lf, values, fp);
    law_truth(g2, *e.right, t, f, values, fp);
}

/// The same of a comparison, a parenthesised expression or a negation.
pub proof fn law_unit_truth(
    g: GenState,
    u: BoolUnit,
    t: Lbl,
    f: Lbl,
    values: Values,
    fp: FloatUnit,
)
    requires
        g.bool_unit(u, t, f).1 is Ok,
        consistent_values(g.added(g.bool_unit(u, t, f).0), values, fp),
    ensures
        g.unit_holds(u, t, f, outcomes_of(values)) == g.unit_truth(u, t, f, values, fp),
    decreases u, 0nat,
{
    match u.inner {
        BoolUnitInner::ComExpr(e) => {
            lemma_comparison_truth(g, *e, t, f, values, fp);
        },
        BoolUnitInner::BoolExpr(e) => {
            law_truth(g, *e, t, f, values, fp);
        },
        BoolUnitInner::BoolUOpExpr(e) => {
            law_unit_truth(g, *e.cond, f, t, values, fp);
        },
    }
}

proof fn lemma_comparison_truth(
    g: GenState,
    e: ComExpr,
    t: Lbl,
    f: Lbl,
    values: Values,
    fp: FloatUnit,
)
    requires
        g.comparison(e, t, f).1 is Ok,
        consistent_values(g.added(g.comparison(e, t, f).0), values, fp),
    ensures
        values(g.compared(e)) == Word::Truth(g.comparison_truth(e, values, fp)),
{
    let z = g.comparison(e, t, f).0;
    crate::ir::gen::growth::lemma_unit(g, *e.left);
    let (g1, l) = g.unit(*e.left);
    crate::ir::gen::growth::lemma_unit(g1, *e.right);
    let (g2, r) = g1.unit(*e.right);
    let g3 = g2.numeric_pair(l->Ok_0, r->Ok_0).0;
    assert(g2.grows_to(g3));
    assert(g3.grows_to(z));
    lemma_part(g, g, g1, z, values, fp);
    lemma_part(g, g1, g2, z, values, fp);
    lemma_part(g, g2, g3, z, values, fp);
    lemma_part(g, g3, z, z, values, fp);
    law_unit_computes(g, *e.left, values, fp);
    law_unit_computes(g1, *e.right, values, fp);
    lemma_numeric_pair(g2, l->Ok_0, r->Ok_0, values, fp);
    assert(g3.added(z)[0] == z.code[g3.code.len() as int]);
    assert(satisfied(g3.added(z)[0], values, fp));
}

impl GenState {
    /// Where the test of a `while` loop starts.
    pub open spec fn loop_test(self) -> GenState {
        self.with_blocks(3).emit(Inst::Jump { target: self.label(0) }).emit(
            Inst::Label(self.label(0)),
        )
    }
}

/// The code of a boolean expression jumps to the first label if the expression
/// is true of the values of its operands, and to the second if it is not.
pub proof fn law_branch_correct(
    g: GenState,
    e: BoolExpr,
    t: Lbl,
    f: Lbl,
    values: Values,
    fp: FloatUnit,
)
    requires
        g.branch(e, t, f).1 is Ok,
        g.knows(t),
        g.knows(f),
        consistent_values(g.added(g.branch(e, t, f).0), values, fp),
    ensures
        crate::ir::gen::flow::leaves(
            g.added(g.branch(e, t, f).0),
            0,
            crate::ir::gen::flow::chosen(g.truth(e, t, f, values, fp), t, f),
            outcomes_of(values),
        ),
{
    crate::ir::gen::flow::law_branch(g, e, t, f, outcomes_of(values));
    law_truth(g, e, t, f, values, fp);
}

/// An `if` runs its first block if its condition is true of the values of its
/// operands, and its second block if it is not.
pub proof fn law_if_correct(
    g: GenState,
    s: IfStmt,
    con: Option<Lbl>,
    bre: Option<Lbl>,
    values: Values,
    fp: FloatUnit,
)
    requires
        g.conditional(s, con, bre).1 is Ok,
        consistent_values(
            g.added(g.with_blocks(3).bool_unit(s.bool_unit, g.label(0), g.label(1)).0),
            values,
            fp,
        ),
    ensures
        ({
            let code = g.added(g.conditional(s, con, bre).0);
            let (t, f) = (g.label(0), g.label(1));
            let truth = g.with_blocks(3).unit_truth(s.bool_unit, t, f, values, fp);
            exists|at: int|
                crate::ir::gen::flow::placed(code, crate::ir::gen::flow::chosen(truth, t, f), at)
                    && #[trigger] crate::ir::gen::flow::gets(code, 0, at, outcomes_of(values))
        }),
{
    let (t, f) = (g.label(0), g.label(1));
    let g0 = g.with_blocks(3);
    assert(g.added(g0.bool_unit(s.bool_unit, t, f).0) =~= g0.added(
        g0.bool_unit(s.bool_unit, t, f).0,
    ));
    law_unit_truth(g0, s.bool_unit, t, f, values, fp);
    crate::ir::gen::flow::law_if_chooses(g, s, con, bre, outcomes_of(values));
}

/// From its test, a `while` loop enters its body if its condition is true of the
/// values of its operands, and goes behind the loop if it is not.
pub proof fn law_while_correct(g: GenState, s: WhileStmt, values: Values, fp: FloatUnit)
    requires
        g.while_loop(s).1 is Ok,
        consistent_values(
            g.loop_test().added(g.loop_test().bool_unit(s.bool_unit, g.label(1), g.label(2)).0),
            values,
            fp,
        ),
    ensures
        ({
            let code = g.added(g.while_loop(s).0);
            let (body, behind) = (g.label(1), g.label(2));
            let truth = g.loop_test().unit_truth(s.bool_unit, body, behind, values, fp);
            exists|at: int|
                crate::ir::gen::flow::placed(
                    code,
                    crate::ir::gen::flow::chosen(truth, body, behind),
                    at,
                ) && #[trigger] crate::ir::gen::flow::gets(code, 1, at, outcomes_of(values))
        }),
{
    law_unit_truth(g.loop_test(), s.bool_unit, g.label(1), g.label(2), values, fp);
    crate::ir::gen::flow::law_while_chooses(g, s, outcomes_of(values));
}

// -----------------------------------------------------------------------
// What statements do with values
// -----------------------------------------------------------------------

impl GenState {
    /// The value of a right-hand side.  That of a boolean expression is read
    /// from the slot that its truth was stored into.
    pub open spec fn value(self, r: RightVal, values: Values, fp: FloatUnit) -> Word {
        match r.inner {
            RightValInner::ArithExpr(e) => self.meaning(*e, values, fp),
            RightValInner::BoolExpr(_) => values(self.right(r).1->Ok_0),
        }
    }
}

/// The operand that a right-hand side is lowered to has its value.
pub proof fn law_value_computes(g: GenState, r: RightVal, values: Values, fp: FloatUnit)
    requires
        g.right(r).1 is Ok,
        consistent_values(g.added(g.right(r).0), values, fp),
    ensures
        values(g.right(r).1->Ok_0) == g.value(r, values, fp),
{
    if let RightValInner::ArithExpr(e) = r.inner {
        law_arith_computes(g, *e, values, fp);
    }
}

/// A right-hand side that is converted has its value, converted.
proof fn lemma_converted_value(
    g: GenState,
    a: GenState,
    r: RightVal,
    target: Ty,
    z: GenState,
    values: Values,
    fp: FloatUnit,
)
    requires
        g.grows_to(a),
        GenState::then_convert(a.right(r), target).1 is Ok,
        GenState::then_convert(a.right(r), target).0.grows_to(z),
        consistent_values(g.added(z), values, fp),
    ensures
        values(GenState::then_convert(a.right(r), target).1->Ok_0) == converted(
            a.value(r, values, fp),
            a.right(r).1->Ok_0.ty(),
            target,
            fp,
        ),
{
    crate::ir::gen::growth::lemma_right(a, r);
    let (b, v) = a.right(r);
    let c = b.convert(v->Ok_0, target).0;
    assert(b.grows_to(c));
    lemma_part(g, a, b, z, values, fp);
    lemma_part(g, b, c, z, values, fp);
    law_value_computes(a, r, values, fp);
    lemma_convert(b, v->Ok_0, target, values, fp);
}

/// `return e` returns the value of `e`, converted to the type that the function
/// returns.
pub proof fn law_return_computes(
    g: GenState,
    s: ReturnStmt,
    ret: Ty,
    values: Values,
    fp: FloatUnit,
)
    requires
        s.val is Some,
        g.ret == Some(ret),
        g.give_back(s).1 is Ok,
        consistent_values(g.added(g.give_back(s).0), values, fp),
    ensures
        ({
            let e = s.val->Some_0;
            &&& g.give_back(s).0.code.last() matches Inst::Return(Some(given))
            &&& given.ty() == ret
            &&& values(given) == converted(
                g.value(e, values, fp),
                g.right(e).1->Ok_0.ty(),
                ret,
                fp,
            )
        }),
{
    let e = s.val->Some_0;
    let z = g.give_back(s).0;
    let (c, w) = GenState::then_convert(g.right(e), ret);
    crate::ir::gen::growth::lemma_right(g, e);
    assert(c.grows_to(z));
    lemma_converted_value(g, g, e, ret, z, values, fp);
}

/// An assignment stores the value of its right side, converted to the type of
/// the place, at the address of its left side.
pub proof fn law_assignment_computes(
    g: GenState,
    s: AssignmentStmt,
    values: Values,
    fp: FloatUnit,
)
    requires
        g.assign(s).1 is Ok,
        consistent_values(g.added(g.assign(s).0), values, fp),
    ensures
        ({
            let (g1, address) = g.left(s.left_val);
            &&& g.assign(s).0.code.last() matches Inst::Store { src, ptr }
            &&& ptr == address->Ok_0
            &&& src.ty() == ptr.ty().stored()
            &&& values(src) == converted(
                g1.value(s.right_val, values, fp),
                g1.right(s.right_val).1->Ok_0.ty(),
                ptr.ty().stored(),
                fp,
            )
        }),
{
    let z = g.assign(s).0;
    crate::ir::gen::growth::lemma_left(g, s.left_val);
    let (g1, address) = g.left(s.left_val);
    let target = address->Ok_0.ty().stored();
    crate::ir::gen::growth::lemma_right(g1, s.right_val);
    let (c, w) = GenState::then_convert(g1.right(s.right_val), target);
    assert(c.grows_to(z));
    lemma_converted_value(g, g1, s.right_val, target, z, values, fp);
}

/// The operand that a bound of a range is lowered to has the value of the bound,
/// as an `i32`: a literal stands for itself, an expression for its value, a
/// variable for what a load of it gives, and a call for its result.
pub proof fn law_bound_computes(g: GenState, b: RangeBound, values: Values, fp: FloatUnit)
    requires
        g.bound(b).1 is Ok,
        consistent_values(g.added(g.bound(b).0), values, fp),
    ensures
        ({
            let operand = g.bound(b).1->Ok_0;
            &&& operand.ty() == Ty::I32
            &&& match b.inner {
                RangeBoundInner::Num(n) => values(operand) == Word::Int(n),
                RangeBoundInner::ArithExpr(e) => values(operand) == converted(
                    g.meaning(*e, values, fp),
                    g.arith(*e).1->Ok_0.ty(),
                    Ty::I32,
                    fp,
                ),
                RangeBoundInner::FnCall(c) => g.call(*c).1 matches Ok(Some(result)) && values(
                    operand,
                ) == converted(values(result), result.ty(), Ty::I32, fp),
                RangeBoundInner::Id(id) => {
                    let address = g.variable(id@)->Ok_0;
                    crate::ir::gen::places::is_read(address) ==> (g.added(
                        g.bound(b).0,
                    )[0] matches Inst::Load { dst, ptr } && ptr == address && dst.ty()
                        == address.ty().stored() && values(operand) == converted(
                        values(dst),
                        dst.ty(),
                        Ty::I32,
                        fp,
                    ))
                },
            }
        }),
{
    let z = g.bound(b).0;
    match b.inner {
        RangeBoundInner::Num(n) => {},
        RangeBoundInner::ArithExpr(e) => {
            crate::ir::gen::growth::lemma_arith(g, *e);
            let (g1, v) = g.arith(*e);
            assert(g1.grows_to(z));
            lemma_part(g, g, g1, z, values, fp);
            lemma_part(g, g1, z, z, values, fp);
            law_arith_computes(g, *e, values, fp);
            lemma_convert(g1, v->Ok_0, Ty::I32, values, fp);
        },
        RangeBoundInner::FnCall(c) => {
            crate::ir::gen::growth::lemma_call(g, *c);
            let (g1, v) = g.call(*c);
            assert(g1.grows_to(z));
            lemma_part(g, g1, z, z, values, fp);
            lemma_convert(g1, v->Ok_0->Some_0, Ty::I32, values, fp);
        },
        RangeBoundInner::Id(id) => {
            let address = g.variable(id@)->Ok_0;
            let (g1, v) = g.load_scalar(address);
            assert(g.grows_to(g1));
            assert(g1.grows_to(z));
            lemma_part(g, g1, z, z, values, fp);
            lemma_convert(g1, v, Ty::I32, values, fp);
            if crate::ir::gen::places::is_read(address) {
                assert(g.added(z)[0] == z.code[g.code.len() as int]);
                assert(z.code[g.code.len() as int] == g1.code[g.code.len() as int]);
            }
        },
    }
}

} // verus!
