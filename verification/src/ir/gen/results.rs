//! What lowered expressions give: the types of values, places and conversions.

use crate::ast::expr::{
    ArithExpr, ArithExprInner, ExprUnit, ExprUnitInner, FnCall, IndexExpr, LeftVal,
    RightVal,
};
use crate::ast::stmt::RangeBound;
use crate::ir::error::Fault;
use crate::ir::function::GenState;
use crate::ir::types::Ty;
use crate::ir::value::Val;
use vstd::prelude::*;

verus! {

impl Ty {
    /// Whether values of the type can be computed with.
    pub open spec fn numeric(self) -> bool {
        self == Ty::I32 || self == Ty::F32
    }
}

impl GenState {
    /// Whether an arithmetic expression stands for a number: an operation does,
    /// and so does a unit that does.
    pub open spec fn arith_is_number(self, e: ArithExpr) -> bool
        decreases e,
    {
        match e.inner {
            ArithExprInner::ArithBiOpExpr(_) => true,
            ArithExprInner::ExprUnit(u) => self.unit_is_number(*u),
        }
    }

    /// Whether a unit stands for a number: a literal, a call, a cast to a number
    /// type, and a variable, element or member of a number type.
    pub open spec fn unit_is_number(self, u: ExprUnit) -> bool
        decreases u,
    {
        match u.inner {
            ExprUnitInner::Num(_) => true,
            ExprUnitInner::FloatNum(_) => true,
            ExprUnitInner::FnCall(_) => true,
            ExprUnitInner::Id(id) => self.variable(id@) matches Ok(v) ==> v.ty().stored().numeric(),
            ExprUnitInner::ArrayExpr(e) => self.array(*e).1 matches Ok(
                v,
            ) ==> v.ty().stored().numeric(),
            ExprUnitInner::MemberExpr(e) => self.member(*e).1 matches Ok(
                v,
            ) ==> v.ty().stored().numeric(),
            ExprUnitInner::ArithExpr(e) => self.arith_is_number(*e),
            ExprUnitInner::Cast(cast) => Ty::of(cast.target_type).numeric(),
            ExprUnitInner::Reference(_) => false,
        }
    }

    /// Whether one of the units that an arithmetic expression is made of gives
    /// an `f32`.
    pub open spec fn some_unit_is_float(self, e: ArithExpr) -> bool
        decreases e,
    {
        match e.inner {
            ArithExprInner::ArithBiOpExpr(biop) => self.some_unit_is_float(*biop.left)
                || self.arith(*biop.left).0.some_unit_is_float(*biop.right),
            ArithExprInner::ExprUnit(u) => self.unit(*u).1 matches Ok(v) && v.ty() == Ty::F32,
        }
    }
}

/// A conversion gives a value of the target type.  It fails exactly on types
/// that differ and are not both numbers, and adds nothing where they are equal.
pub proof fn law_conversion(g: GenState, v: Val, target: Ty)
    ensures
        g.convert(v, target).1 matches Ok(w) ==> w.ty() == target,
        g.convert(v, target).1 is Ok <==> v.ty() == target || (v.ty().numeric()
            && target.numeric()),
        v.ty() == target ==> g.convert(v, target) == (g, Ok::<Val, Fault>(v)),
{
}

/// What was converted once need not be converted again: a second conversion to
/// the same type, in any state, gives the same value and adds nothing.
pub proof fn law_conversion_settles(g: GenState, v: Val, target: Ty, later: GenState)
    ensures
        g.convert(v, target).1 matches Ok(w) ==> later.convert(w, target) == (later, Ok::<
            Val,
            Fault,
        >(w)),
{
}

/// The operands of an operation come to one type: `f32` if one of them is
/// `f32`, else `i32`.  It fails exactly where one of them is no number.
pub proof fn law_common_type(g: GenState, left: Val, right: Val)
    ensures
        g.numeric_pair(left, right).1 matches Ok((l, r, ty)) ==> {
            &&& l.ty() == ty
            &&& r.ty() == ty
            &&& ty == if left.ty() == Ty::F32 || right.ty() == Ty::F32 {
                Ty::F32
            } else {
                Ty::I32
            }
        },
        g.numeric_pair(left, right).1 is Ok <==> left.ty().numeric() && right.ty().numeric(),
{
}

/// A call gives a number, if it gives anything.
pub proof fn law_call_gives_number(g: GenState, c: FnCall)
    ensures
        g.call(c).1 matches Ok(Some(v)) ==> v.ty().numeric(),
{
}

/// An arithmetic expression that stands for a number gives one.
pub proof fn law_arith_gives_number(g: GenState, e: ArithExpr)
    requires
        g.arith_is_number(e),
    ensures
        g.arith(e).1 matches Ok(v) ==> v.ty().numeric(),
    decreases e,
{
    if let ArithExprInner::ExprUnit(u) = e.inner {
        law_unit_gives_number(g, *u);
    }
}

/// An operation lowers its left operand, then its right operand, then itself;
/// the first of these that fails is what the whole fails with.
pub proof fn law_left_to_right(g: GenState, e: ArithExpr)
    requires
        e.inner is ArithBiOpExpr,
    ensures
        ({
            let biop = e.inner->ArithBiOpExpr_0;
            let (g1, left) = g.arith(*biop.left);
            let (g2, right) = g1.arith(*biop.right);
            g.arith(e) == match (left, right) {
                (Err(fault), _) => (g1, Err(fault)),
                (Ok(_), Err(fault)) => (g2, Err(fault)),
                (Ok(l), Ok(r)) => g2.numeric_biop(biop.op, l, r),
            }
        }),
{
}

/// An arithmetic expression gives an `f32` exactly if one of its units does; an
/// operation gives an `i32` otherwise.
pub proof fn law_float_spreads(g: GenState, e: ArithExpr)
    ensures
        g.arith(e).1 matches Ok(v) ==> {
            &&& v.ty() == Ty::F32 <==> g.some_unit_is_float(e)
            &&& e.inner is ArithBiOpExpr ==> v.ty().numeric()
        },
    decreases e,
{
    if let ArithExprInner::ArithBiOpExpr(biop) = e.inner {
        law_float_spreads(g, *biop.left);
        if let (g1, Ok(l)) = g.arith(*biop.left) {
            law_float_spreads(g1, *biop.right);
            if let (g2, Ok(r)) = g1.arith(*biop.right) {
                law_common_type(g2, l, r);
            }
        }
    }
}

/// Who uses a number in an expression gets its value, not its address: what is
/// stored is loaded.
pub proof fn law_unit_gives_number(g: GenState, u: ExprUnit)
    requires
        g.unit_is_number(u),
    ensures
        g.unit(u).1 matches Ok(v) ==> v.ty().numeric(),
    decreases u,
{
    match u.inner {
        ExprUnitInner::ArithExpr(e) => {
            law_arith_gives_number(g, *e);
        },
        ExprUnitInner::FnCall(c) => {
            law_call_gives_number(g, *c);
        },
        ExprUnitInner::Cast(cast) => {
            if let (g1, Ok(v)) = g.unit(*cast.expr) {
                law_conversion(g1, v, Ty::of(cast.target_type));
            }
        },
        _ => {},
    }
}

/// A truth value is an `i32`, and so it converts to any number type.
pub proof fn law_truth_is_i32(g: GenState, r: RightVal)
    requires
        r.inner is BoolExpr,
    ensures
        g.right(r).1 matches Ok(v) ==> v.ty() == Ty::I32,
{
}

/// A place is addressable, and an element or a member is a pointer.
pub proof fn law_place_addressable(g: GenState, l: LeftVal)
    ensures
        g.left(l).1 matches Ok(p) ==> p.addressable() && (l.inner is Id || p.ty() is Pointer),
{
}

/// A reference is a pointer to an array of unknown extent, with the elements of
/// the array that it refers to; it fails exactly where the variable is unknown
/// or no array.
pub proof fn law_reference(g: GenState, name: Seq<char>)
    ensures
        match g.variable(name) {
            Ok(v) => match v.ty().element() {
                Some(element) => g.reference(name).1 matches Ok(p) && p.ty() == Ty::Array(
                    Box::new(element),
                    None,
                ).ptr(),
                None => g.reference(name).1 is Err,
            },
            Err(_) => g.reference(name).1 is Err,
        },
{
}

/// An index is an `i32`, and so is each bound of a range.
pub proof fn law_index_and_bound_are_i32(g: GenState, e: IndexExpr, b: RangeBound)
    ensures
        g.index(e).1 matches Ok(v) ==> v.ty() == Ty::I32,
        g.bound(b).1 matches Ok(v) ==> v.ty() == Ty::I32,
{
}

} // verus!
