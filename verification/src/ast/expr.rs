//! Expression nodes.

use crate::ast::types::{Pos, TypeSpecifier};
use vstd::prelude::*;

verus! {

/// Binary arithmetic operators.
#[derive(Debug, Clone, Copy, PartialEq, Eq, Structural)]
pub enum ArithBiOp {
    Add,
    Sub,
    Mul,
    Div,
}

/// Comparison operators.
#[derive(Debug, Clone, Copy, PartialEq, Eq, Structural)]
pub enum ComOp {
    Lt,
    Le,
    Gt,
    Ge,
    Eq,
    Ne,
}

/// Binary boolean operators.
#[derive(Debug, Clone, Copy, PartialEq, Eq, Structural)]
pub enum BoolBiOp {
    And,
    Or,
}

/// Unary boolean operators.
#[derive(Debug, Clone, Copy, PartialEq, Eq, Structural)]
pub enum BoolUOp {
    Not,
}

/// An array index: a variable or a literal.
#[derive(Debug)]
pub enum IndexExprInner {
    Id(String),
    Num(usize),
}

#[derive(Debug)]
pub struct IndexExpr {
    pub inner: IndexExprInner,
}

/// An element access, `arr[idx]`.
#[derive(Debug)]
pub struct ArrayExpr {
    pub arr: Box<LeftVal>,
    pub idx: Box<IndexExpr>,
}

/// A member access, `struct_id.member_id`.
#[derive(Debug)]
pub struct MemberExpr {
    pub struct_id: Box<LeftVal>,
    pub member_id: String,
}

#[derive(Debug)]
pub enum LeftValInner {
    Id(String),
    ArrayExpr(Box<ArrayExpr>),
    MemberExpr(Box<MemberExpr>),
}

/// An assignable place.
#[derive(Debug)]
pub struct LeftVal {
    pub inner: LeftValInner,
}

/// A list of right-hand-side values.
pub type RightValList = Vec<RightVal>;

/// A call: `name(..)`, `prefix::name(..)` or `receiver.name(..)`.
#[derive(Debug)]
pub struct FnCall {
    pub receiver: Option<Box<LeftVal>>,
    pub module_prefix: Option<String>,
    pub name: String,
    pub vals: RightValList,
}

/// An explicit conversion, `expr as target_type`.
#[derive(Debug)]
pub struct CastExpr {
    pub expr: Box<ExprUnit>,
    pub target_type: TypeSpecifier,
}

#[derive(Debug)]
pub enum ExprUnitInner {
    Num(i32),
    /// A float literal, held as the bit pattern of its `f32` value.
    FloatNum(u32),
    Id(String),
    ArithExpr(Box<ArithExpr>),
    FnCall(Box<FnCall>),
    ArrayExpr(Box<ArrayExpr>),
    MemberExpr(Box<MemberExpr>),
    Reference(String),
    Cast(Box<CastExpr>),
}

/// The smallest unit of an arithmetic expression.
#[derive(Debug)]
pub struct ExprUnit {
    pub pos: Pos,
    pub inner: ExprUnitInner,
}

#[derive(Debug)]
pub struct ArithBiOpExpr {
    pub op: ArithBiOp,
    pub left: Box<ArithExpr>,
    pub right: Box<ArithExpr>,
}

#[derive(Debug)]
pub enum ArithExprInner {
    ArithBiOpExpr(Box<ArithBiOpExpr>),
    ExprUnit(Box<ExprUnit>),
}

#[derive(Debug)]
pub struct ArithExpr {
    pub pos: Pos,
    pub inner: ArithExprInner,
}

/// A comparison of two expression units.
#[derive(Debug)]
pub struct ComExpr {
    pub op: ComOp,
    pub left: Box<ExprUnit>,
    pub right: Box<ExprUnit>,
}

#[derive(Debug)]
pub struct BoolUOpExpr {
    pub op: BoolUOp,
    pub cond: Box<BoolUnit>,
}

#[derive(Debug)]
pub struct BoolBiOpExpr {
    pub op: BoolBiOp,
    pub left: Box<BoolExpr>,
    pub right: Box<BoolExpr>,
}

#[derive(Debug)]
pub enum BoolUnitInner {
    ComExpr(Box<ComExpr>),
    BoolExpr(Box<BoolExpr>),
    BoolUOpExpr(Box<BoolUOpExpr>),
}

#[derive(Debug)]
pub struct BoolUnit {
    pub inner: BoolUnitInner,
}

#[derive(Debug)]
pub enum BoolExprInner {
    BoolBiOpExpr(Box<BoolBiOpExpr>),
    BoolUnit(Box<BoolUnit>),
}

#[derive(Debug)]
pub struct BoolExpr {
    pub inner: BoolExprInner,
}

#[derive(Debug)]
pub enum RightValInner {
    ArithExpr(Box<ArithExpr>),
    BoolExpr(Box<BoolExpr>),
}

/// A right-hand-side value.
#[derive(Debug)]
pub struct RightVal {
    pub inner: RightValInner,
}

impl FnCall {
    /// The name under which the call is written: `prefix::name`, or `name`
    /// where there is no prefix.
    pub open spec fn qualified(&self) -> Seq<char> {
        match self.module_prefix {
            Some(prefix) => prefix@ + "::"@ + self.name@,
            None => self.name@,
        }
    }

    pub fn qualified_name(&self) -> (name: String)
        ensures
            name@ == self.qualified(),
    {
        match &self.module_prefix {
            Some(prefix) => {
                let mut name = prefix.clone();
                name.append("::");
                name.append(self.name.as_str());
                name
            },
            None => self.name.clone(),
        }
    }
}

// -----------------------------------------------------------------------
// Copies
// -----------------------------------------------------------------------
//
// `a.equals(b)` says that the two trees hold the same nodes, names and
// literals.  A copy equals what it was made from.

impl IndexExpr {
    pub open spec fn equals(self, other: IndexExpr) -> bool {
        match (self.inner, other.inner) {
            (IndexExprInner::Id(a), IndexExprInner::Id(b)) => a@ == b@,
            (IndexExprInner::Num(a), IndexExprInner::Num(b)) => a == b,
            _ => false,
        }
    }
}

impl ArrayExpr {
    pub open spec fn equals(self, other: ArrayExpr) -> bool
        decreases self,
    {
        self.arr.equals(*other.arr) && self.idx.equals(*other.idx)
    }
}

impl MemberExpr {
    pub open spec fn equals(self, other: MemberExpr) -> bool
        decreases self,
    {
        self.struct_id.equals(*other.struct_id) && self.member_id@ == other.member_id@
    }
}

impl LeftVal {
    pub open spec fn equals(self, other: LeftVal) -> bool
        decreases self,
    {
        match (self.inner, other.inner) {
            (LeftValInner::Id(a), LeftValInner::Id(b)) => a@ == b@,
            (LeftValInner::ArrayExpr(a), LeftValInner::ArrayExpr(b)) => a.equals(*b),
            (LeftValInner::MemberExpr(a), LeftValInner::MemberExpr(b)) => a.equals(*b),
            _ => false,
        }
    }
}

impl FnCall {
    pub open spec fn equals(self, other: FnCall) -> bool
        decreases self,
    {
        &&& match (self.receiver, other.receiver) {
            (Some(a), Some(b)) => a.equals(*b),
            (None, None) => true,
            _ => false,
        }
        &&& match (self.module_prefix, other.module_prefix) {
            (Some(a), Some(b)) => a@ == b@,
            (None, None) => true,
            _ => false,
        }
        &&& self.name@ == other.name@
        &&& self.vals.len() == other.vals.len()
        &&& forall|i: int|
            #![trigger self.vals[i]]
            0 <= i < self.vals.len() ==> self.vals[i].equals(other.vals[i])
    }
}

impl CastExpr {
    pub open spec fn equals(self, other: CastExpr) -> bool
        decreases self,
    {
        self.expr.equals(*other.expr) && self.target_type == other.target_type
    }
}

impl ExprUnit {
    pub open spec fn equals(self, other: ExprUnit) -> bool
        decreases self,
    {
        &&& self.pos == other.pos
        &&& match (self.inner, other.inner) {
            (ExprUnitInner::Num(a), ExprUnitInner::Num(b)) => a == b,
            (ExprUnitInner::FloatNum(a), ExprUnitInner::FloatNum(b)) => a == b,
            (ExprUnitInner::Id(a), ExprUnitInner::Id(b)) => a@ == b@,
            (ExprUnitInner::ArithExpr(a), ExprUnitInner::ArithExpr(b)) => a.equals(*b),
            (ExprUnitInner::FnCall(a), ExprUnitInner::FnCall(b)) => a.equals(*b),
            (ExprUnitInner::ArrayExpr(a), ExprUnitInner::ArrayExpr(b)) => a.equals(*b),
            (ExprUnitInner::MemberExpr(a), ExprUnitInner::MemberExpr(b)) => a.equals(*b),
            (ExprUnitInner::Reference(a), ExprUnitInner::Reference(b)) => a@ == b@,
            (ExprUnitInner::Cast(a), ExprUnitInner::Cast(b)) => a.equals(*b),
            _ => false,
        }
    }
}

impl ArithBiOpExpr {
    pub open spec fn equals(self, other: ArithBiOpExpr) -> bool
        decreases self,
    {
        self.op == other.op && self.left.equals(*other.left) && self.right.equals(*other.right)
    }
}

impl ArithExpr {
    pub open spec fn equals(self, other: ArithExpr) -> bool
        decreases self,
    {
        &&& self.pos == other.pos
        &&& match (self.inner, other.inner) {
            (ArithExprInner::ArithBiOpExpr(a), ArithExprInner::ArithBiOpExpr(b)) => a.equals(*b),
            (ArithExprInner::ExprUnit(a), ArithExprInner::ExprUnit(b)) => a.equals(*b),
            _ => false,
        }
    }
}

impl ComExpr {
    pub open spec fn equals(self, other: ComExpr) -> bool
        decreases self,
    {
        self.op == other.op && self.left.equals(*other.left) && self.right.equals(*other.right)
    }
}

impl BoolUOpExpr {
    pub open spec fn equals(self, other: BoolUOpExpr) -> bool
        decreases self,
    {
        self.op == other.op && self.cond.equals(*other.cond)
    }
}

impl BoolBiOpExpr {
    pub open spec fn equals(self, other: BoolBiOpExpr) -> bool
        decreases self,
    {
        self.op == other.op && self.left.equals(*other.left) && self.right.equals(*other.right)
    }
}

impl BoolUnit {
    pub open spec fn equals(self, other: BoolUnit) -> bool
        decreases self,
    {
        match (self.inner, other.inner) {
            (BoolUnitInner::ComExpr(a), BoolUnitInner::ComExpr(b)) => a.equals(*b),
            (BoolUnitInner::BoolExpr(a), BoolUnitInner::BoolExpr(b)) => a.equals(*b),
            (BoolUnitInner::BoolUOpExpr(a), BoolUnitInner::BoolUOpExpr(b)) => a.equals(*b),
            _ => false,
        }
    }
}

impl BoolExpr {
    pub open spec fn equals(self, other: BoolExpr) -> bool
        decreases self,
    {
        match (self.inner, other.inner) {
            (BoolExprInner::BoolBiOpExpr(a), BoolExprInner::BoolBiOpExpr(b)) => a.equals(*b),
            (BoolExprInner::BoolUnit(a), BoolExprInner::BoolUnit(b)) => a.equals(*b),
            _ => false,
        }
    }
}

impl RightVal {
    pub open spec fn equals(self, other: RightVal) -> bool
        decreases self,
    {
        match (self.inner, other.inner) {
            (RightValInner::ArithExpr(a), RightValInner::ArithExpr(b)) => a.equals(*b),
            (RightValInner::BoolExpr(a), RightValInner::BoolExpr(b)) => a.equals(*b),
            _ => false,
        }
    }
}

impl Clone for IndexExpr {
    fn clone(&self) -> (copy: Self)
        ensures
            copy.equals(*self),
    {
        let inner = match &self.inner {
            IndexExprInner::Id(id) => IndexExprInner::Id(id.clone()),
            IndexExprInner::Num(n) => IndexExprInner::Num(*n),
        };
        IndexExpr { inner }
    }
}

impl Clone for ArrayExpr {
    fn clone(&self) -> (copy: Self)
        ensures
            copy.equals(*self),
        decreases self,
    {
        ArrayExpr {
            arr: Box::new((&*self.arr).clone()),
            idx: Box::new((&*self.idx).clone()),
        }
    }
}

impl Clone for MemberExpr {
    fn clone(&self) -> (copy: Self)
        ensures
            copy.equals(*self),
        decreases self,
    {
        MemberExpr {
            struct_id: Box::new((&*self.struct_id).clone()),
            member_id: self.member_id.clone(),
        }
    }
}

impl Clone for LeftVal {
    fn clone(&self) -> (copy: Self)
        ensures
            copy.equals(*self),
        decreases self,
    {
        let inner = match &self.inner {
            LeftValInner::Id(id) => LeftValInner::Id(id.clone()),
            LeftValInner::ArrayExpr(e) => LeftValInner::ArrayExpr(Box::new((&**e).clone())),
            LeftValInner::MemberExpr(e) => LeftValInner::MemberExpr(Box::new((&**e).clone())),
        };
        LeftVal { inner }
    }
}

impl Clone for FnCall {
    fn clone(&self) -> (copy: Self)
        ensures
            copy.equals(*self),
        decreases self,
    {
        let receiver = match &self.receiver {
            Some(r) => Some(Box::new((&**r).clone())),
            None => None,
        };
        let module_prefix = match &self.module_prefix {
            Some(p) => Some(p.clone()),
            None => None,
        };
        let mut vals: Vec<RightVal> = Vec::new();
        let mut i: usize = 0;
        while i < self.vals.len()
            invariant
                i <= self.vals.len(),
                vals.len() == i,
                forall|j: int| #![trigger vals[j]] 0 <= j < i ==> vals[j].equals(self.vals[j]),
            decreases self.vals.len() - i,
        {
            assert(decreases_to!(self => self.vals[i as int]));
            let val = (&self.vals[i]).clone();
            vals.push(val);
            i += 1;
        }
        FnCall { receiver, module_prefix, name: self.name.clone(), vals }
    }
}

impl Clone for CastExpr {
    fn clone(&self) -> (copy: Self)
        ensures
            copy.equals(*self),
        decreases self,
    {
        CastExpr {
            expr: Box::new((&*self.expr).clone()),
            target_type: self.target_type.clone(),
        }
    }
}

impl Clone for ExprUnit {
    fn clone(&self) -> (copy: Self)
        ensures
            copy.equals(*self),
        decreases self,
    {
        let inner = match &self.inner {
            ExprUnitInner::Num(n) => ExprUnitInner::Num(*n),
            ExprUnitInner::FloatNum(bits) => ExprUnitInner::FloatNum(*bits),
            ExprUnitInner::Id(id) => ExprUnitInner::Id(id.clone()),
            ExprUnitInner::ArithExpr(e) => ExprUnitInner::ArithExpr(Box::new((&**e).clone())),
            ExprUnitInner::FnCall(e) => ExprUnitInner::FnCall(Box::new((&**e).clone())),
            ExprUnitInner::ArrayExpr(e) => ExprUnitInner::ArrayExpr(Box::new((&**e).clone())),
            ExprUnitInner::MemberExpr(e) => ExprUnitInner::MemberExpr(Box::new((&**e).clone())),
            ExprUnitInner::Reference(id) => ExprUnitInner::Reference(id.clone()),
            ExprUnitInner::Cast(e) => ExprUnitInner::Cast(Box::new((&**e).clone())),
        };
        ExprUnit { pos: self.pos, inner }
    }
}

impl Clone for ArithBiOpExpr {
    fn clone(&self) -> (copy: Self)
        ensures
            copy.equals(*self),
        decreases self,
    {
        ArithBiOpExpr {
            op: self.op,
            left: Box::new((&*self.left).clone()),
            right: Box::new((&*self.right).clone()),
        }
    }
}

impl Clone for ArithExpr {
    fn clone(&self) -> (copy: Self)
        ensures
            copy.equals(*self),
        decreases self,
    {
        let inner = match &self.inner {
            ArithExprInner::ArithBiOpExpr(e) => {
                ArithExprInner::ArithBiOpExpr(Box::new((&**e).clone()))
            },
            ArithExprInner::ExprUnit(e) => ArithExprInner::ExprUnit(Box::new((&**e).clone())),
        };
        ArithExpr { pos: self.pos, inner }
    }
}

impl Clone for ComExpr {
    fn clone(&self) -> (copy: Self)
        ensures
            copy.equals(*self),
        decreases self,
    {
        ComExpr {
            op: self.op,
            left: Box::new((&*self.left).clone()),
            right: Box::new((&*self.right).clone()),
        }
    }
}

impl Clone for BoolUOpExpr {
    fn clone(&self) -> (copy: Self)
        ensures
            copy.equals(*self),
        decreases self,
    {
        BoolUOpExpr { op: self.op, cond: Box::new((&*self.cond).clone()) }
    }
}

impl Clone for BoolBiOpExpr {
    fn clone(&self) -> (copy: Self)
        ensures
            copy.equals(*self),
        decreases self,
    {
        BoolBiOpExpr {
            op: self.op,
            left: Box::new((&*self.left).clone()),
            right: Box::new((&*self.right).clone()),
        }
    }
}

impl Clone for BoolUnit {
    fn clone(&self) -> (copy: Self)
        ensures
            copy.equals(*self),
        decreases self,
    {
        let inner = match &self.inner {
            BoolUnitInner::ComExpr(e) => BoolUnitInner::ComExpr(Box::new((&**e).clone())),
            BoolUnitInner::BoolExpr(e) => BoolUnitInner::BoolExpr(Box::new((&**e).clone())),
            BoolUnitInner::BoolUOpExpr(e) => BoolUnitInner::BoolUOpExpr(Box::new((&**e).clone())),
        };
        BoolUnit { inner }
    }
}

impl Clone for BoolExpr {
    fn clone(&self) -> (copy: Self)
        ensures
            copy.equals(*self),
        decreases self,
    {
        let inner = match &self.inner {
            BoolExprInner::BoolBiOpExpr(e) => {
                BoolExprInner::BoolBiOpExpr(Box::new((&**e).clone()))
            },
            BoolExprInner::BoolUnit(e) => BoolExprInner::BoolUnit(Box::new((&**e).clone())),
        };
        BoolExpr { inner }
    }
}

impl Clone for RightVal {
    fn clone(&self) -> (copy: Self)
        ensures
            copy.equals(*self),
        decreases self,
    {
        let inner = match &self.inner {
            RightValInner::ArithExpr(e) => RightValInner::ArithExpr(Box::new((&**e).clone())),
            RightValInner::BoolExpr(e) => RightValInner::BoolExpr(Box::new((&**e).clone())),
        };
        RightVal { inner }
    }
}

// -----------------------------------------------------------------------
// What equality of trees means
// -----------------------------------------------------------------------

/// Units that are equal stand at the same position, are of the same kind, and
/// have the same literal, the same name, or equal parts.
pub proof fn law_equal_units(a: ExprUnit, b: ExprUnit)
    ensures
        a.equals(b) <==> a.pos == b.pos && match a.inner {
            ExprUnitInner::Num(n) => b.inner matches ExprUnitInner::Num(m) && n == m,
            ExprUnitInner::FloatNum(n) => b.inner matches ExprUnitInner::FloatNum(m) && n == m,
            ExprUnitInner::Id(n) => b.inner matches ExprUnitInner::Id(m) && n@ == m@,
            ExprUnitInner::ArithExpr(n) => b.inner matches ExprUnitInner::ArithExpr(m) && n.equals(
                *m,
            ),
            ExprUnitInner::FnCall(n) => b.inner matches ExprUnitInner::FnCall(m) && n.equals(*m),
            ExprUnitInner::ArrayExpr(n) => b.inner matches ExprUnitInner::ArrayExpr(m) && n.equals(
                *m,
            ),
            ExprUnitInner::MemberExpr(n) => b.inner matches ExprUnitInner::MemberExpr(m)
                && n.equals(*m),
            ExprUnitInner::Reference(n) => b.inner matches ExprUnitInner::Reference(m) && n@ == m@,
            ExprUnitInner::Cast(n) => b.inner matches ExprUnitInner::Cast(m) && n.equals(*m),
        },
{
}

/// The same of places and of what leads to them.
pub proof fn law_equal_places(
    a: LeftVal,
    b: LeftVal,
    c: ArrayExpr,
    d: ArrayExpr,
    e: MemberExpr,
    f: MemberExpr,
    i: IndexExpr,
    j: IndexExpr,
)
    ensures
        a.equals(b) <==> match a.inner {
            LeftValInner::Id(n) => b.inner matches LeftValInner::Id(m) && n@ == m@,
            LeftValInner::ArrayExpr(n) => b.inner matches LeftValInner::ArrayExpr(m) && n.equals(
                *m,
            ),
            LeftValInner::MemberExpr(n) => b.inner matches LeftValInner::MemberExpr(m) && n.equals(
                *m,
            ),
        },
        c.equals(d) <==> c.arr.equals(*d.arr) && c.idx.equals(*d.idx),
        e.equals(f) <==> e.struct_id.equals(*f.struct_id) && e.member_id@ == f.member_id@,
        i.equals(j) <==> match i.inner {
            IndexExprInner::Id(n) => j.inner matches IndexExprInner::Id(m) && n@ == m@,
            IndexExprInner::Num(n) => j.inner matches IndexExprInner::Num(m) && n == m,
        },
{
}

/// The same of calls and casts.
pub proof fn law_equal_calls(a: FnCall, b: FnCall, c: CastExpr, d: CastExpr)
    ensures
        a.equals(b) ==> {
            &&& a.name@ == b.name@
            &&& a.vals@.len() == b.vals@.len()
            &&& forall|i: int|
                0 <= i < a.vals@.len() ==> (#[trigger] a.vals@[i]).equals(b.vals@[i])
            &&& a.receiver is Some <==> b.receiver is Some
            &&& a.receiver matches Some(r) ==> r.equals(*b.receiver->Some_0)
            &&& a.module_prefix is Some <==> b.module_prefix is Some
            &&& a.module_prefix matches Some(p) ==> p@ == b.module_prefix->Some_0@
        },
        c.equals(d) <==> c.expr.equals(*d.expr) && c.target_type == d.target_type,
{
    if a.equals(b) {
        assert forall|i: int| 0 <= i < a.vals@.len() implies (#[trigger] a.vals@[i]).equals(
            b.vals@[i],
        ) by {
            assert(a.vals[i].equals(b.vals[i]));
        }
    }
}

/// The same of arithmetic expressions and right-hand sides.
pub proof fn law_equal_expressions(a: ArithExpr, b: ArithExpr, r: RightVal, s: RightVal)
    ensures
        a.equals(b) <==> a.pos == b.pos && match a.inner {
            ArithExprInner::ExprUnit(u) => b.inner matches ArithExprInner::ExprUnit(v) && u.equals(
                *v,
            ),
            ArithExprInner::ArithBiOpExpr(o) => b.inner matches ArithExprInner::ArithBiOpExpr(p)
                && o.op == p.op && o.left.equals(*p.left) && o.right.equals(*p.right),
        },
        r.equals(s) <==> match r.inner {
            RightValInner::ArithExpr(x) => s.inner matches RightValInner::ArithExpr(y) && x.equals(
                *y,
            ),
            RightValInner::BoolExpr(x) => s.inner matches RightValInner::BoolExpr(y) && x.equals(
                *y,
            ),
        },
{
}

/// The same of boolean expressions.
pub proof fn law_equal_conditions(a: BoolExpr, b: BoolExpr, u: BoolUnit, v: BoolUnit)
    ensures
        a.equals(b) <==> match a.inner {
            BoolExprInner::BoolUnit(x) => b.inner matches BoolExprInner::BoolUnit(y) && x.equals(
                *y,
            ),
            BoolExprInner::BoolBiOpExpr(x) => b.inner matches BoolExprInner::BoolBiOpExpr(y)
                && x.op == y.op && x.left.equals(*y.left) && x.right.equals(*y.right),
        },
        u.equals(v) <==> match u.inner {
            BoolUnitInner::ComExpr(x) => v.inner matches BoolUnitInner::ComExpr(y) && x.op == y.op
                && x.left.equals(*y.left) && x.right.equals(*y.right),
            BoolUnitInner::BoolExpr(x) => v.inner matches BoolUnitInner::BoolExpr(y) && x.equals(
                *y,
            ),
            BoolUnitInner::BoolUOpExpr(x) => v.inner matches BoolUnitInner::BoolUOpExpr(y) && x.op
                == y.op && x.cond.equals(*y.cond),
        },
{
}

} // verus!
