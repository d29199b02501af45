//! IR generation for function bodies.
//!
//! This module translates an AST function definition ([`FnDef`]) into a
//! flat sequence of IR statements by walking each statement and expression node.
//! It handles local variable allocation, control-flow (if / while / for / break /
//! continue), arithmetic and boolean expressions, array and struct member
//! access, and function calls.

use crate::ast::decl::{ArrayInitializer, FnDef, VarDecl, VarDeclInner, VarDef, VarDefInner};
use crate::ast::expr::{
    ArithBiOp, ArithExpr, ArithExprInner, ArrayExpr, BoolBiOp, BoolBiOpExpr, BoolExpr,
    BoolExprInner, BoolUnit, BoolUnitInner, ComExpr, ExprUnit, ExprUnitInner, FnCall, IndexExpr,
    IndexExprInner, LeftVal, LeftValInner, MemberExpr, RightVal, RightValInner, RightValList,
};
use crate::ast::stmt::{
    AssignmentStmt, CallStmt, CodeBlockStmt, CodeBlockStmtInner, ForStmt, IfStmt, RangeBound,
    RangeBoundInner, ReturnStmt, VarDeclStmtInner, WhileStmt,
};
use crate::ast::types::TypeSpecifier;
use crate::common::names::same_name;
use crate::ir::error::{Error, Fault};
use crate::ir::function::{FunctionGenerator, GenState, Lowered};
use crate::ir::gen::conversions::{compose_var_decl_dtype, compose_var_def_dtype};
use crate::ir::registry::{FunctionType, Param, Registry, StructType};
use crate::ir::stmt::{
    ArithBinOp, BlockLabel, CmpPredicate, FloatBinOp, FloatCmpPredicate, Inst, Lbl, StmtInner,
};
use crate::ir::types::{Dtype, Ty};
use crate::ir::value::{Local, Operand, Val};
use vstd::prelude::*;

verus! {

// -----------------------------------------------------------------------
// Contracts
// -----------------------------------------------------------------------

/// Whether a step can be carried out: it does not end in a trap, and the
/// numbers it hands out are machine numbers.
pub open spec fn feasible<T>(out: Lowered<T>) -> bool {
    out.0.fits() && !(out.1 matches Err(Fault::Trap))
}

/// Whether a result is the operand, or reports the fault, of an outcome.
pub open spec fn gives(res: Result<Operand, Error>, out: Result<Val, Fault>) -> bool {
    match (res, out) {
        (Ok(operand), Ok(val)) => operand@ == val,
        (Err(e), Err(fault)) => e.reports(fault),
        _ => false,
    }
}

/// Whether a result that may have no operand is that of an outcome.
pub open spec fn gives_optional(
    res: Result<Option<Operand>, Error>,
    out: Result<Option<Val>, Fault>,
) -> bool {
    match (res, out) {
        (Ok(operand), Ok(val)) => crate::ir::stmt::optional_val(operand) == val,
        (Err(e), Err(fault)) => e.reports(fault),
        _ => false,
    }
}

/// Whether a result is the pair of operands, and their type, of an outcome.
pub open spec fn gives_pair(
    res: Result<(Operand, Operand, Dtype), Error>,
    out: Result<(Val, Val, Ty), Fault>,
) -> bool {
    match (res, out) {
        (Ok((left, right, dtype)), Ok((l, r, ty))) => left@ == l && right@ == r && dtype@ == ty,
        (Err(e), Err(fault)) => e.reports(fault),
        _ => false,
    }
}

/// Whether a result without a value is that of an outcome.
pub open spec fn ends(res: Result<(), Error>, out: Result<(), Fault>) -> bool {
    match (res, out) {
        (Ok(_), Ok(_)) => true,
        (Err(e), Err(fault)) => e.reports(fault),
        _ => false,
    }
}

/// The model of an optional label.
pub open spec fn optional_label(label: Option<&BlockLabel>) -> Option<Lbl> {
    match label {
        Some(label) => Some(label@),
        None => None,
    }
}

// -----------------------------------------------------------------------
// Helpers
// -----------------------------------------------------------------------

/// Builds an i32-typed [`Operand`] for a GEP index.
///
/// Array/struct indices are `usize` in the AST and source-language domain
/// but must be lowered to `i32` to match LLVM IR's GEP index width.
fn array_index_operand(index: usize) -> (operand: Operand)
    requires
        index <= i32::MAX,
    ensures
        operand@ == Val::Int(index as i32),
{
    Operand::from(index as i32)
}

fn method_name(impl_name: &str, method: &str) -> (path: String)
    ensures
        path@ == crate::ir::gen::scheme::method_path(impl_name@, method@),
{
    let mut path = impl_name.to_owned();
    path.append("::");
    path.append(method);
    path
}

/// The struct whose method a function of that name is: what stands before the
/// last `::`, if it is the name of a struct.
fn impl_type_from_function_name(name: &str, registry: &Registry) -> (impl_type: Option<String>)
    ensures
        match crate::ir::gen::scheme::path_head(name@) {
            Some(head) => if registry.structs().contains_key(head) {
                impl_type is Some && impl_type->0@ == head
            } else {
                impl_type is None
            },
            None => impl_type is None,
        },
{
    let len = name.unicode_len();
    let mut end: usize = len;
    while end >= 2
        invariant
            end <= len,
            len == name@.len(),
            forall|j: int|
                j + 1 >= end ==> !#[trigger] crate::ir::gen::scheme::separator_at(name@, j),
        decreases end,
    {
        let at: usize = end - 2;
        if name.get_char(at) == ':' && name.get_char(at + 1) == ':' {
            proof {
                assert(crate::ir::gen::scheme::separator_at(name@, at as int));
                let last = choose|i: int|
                    crate::ir::gen::scheme::separator_at(name@, i) && forall|j: int|
                        crate::ir::gen::scheme::separator_at(name@, j) ==> j <= i;
                assert(forall|j: int|
                    crate::ir::gen::scheme::separator_at(name@, j) ==> j <= at);
                assert(last == at);
                assert(crate::ir::gen::scheme::path_head(name@) == Some(name@.take(at as int)));
                assert(name@.subrange(0, at as int) =~= name@.take(at as int));
            }
            let impl_name = name.substring_char(0, at);
            return if registry.struct_types.contains_key(impl_name) {
                Some(impl_name.to_owned())
            } else {
                None
            };
        }
        end = end - 1;
    }
    assert(forall|j: int| !crate::ir::gen::scheme::separator_at(name@, j));
    None
}

/// Returns the element type of the array pointed to by `base_ptr`.
fn array_element_dtype(base_ptr: &Operand) -> (element: Dtype)
    requires
        GenState::array_behind(base_ptr@) is Some,
    ensures
        GenState::array_behind(base_ptr@) == Some(element@),
{
    reveal_with_fuel(Dtype::ty, 3);
    match base_ptr.dtype() {
        Dtype::Pointer { pointee } => match *pointee {
            Dtype::Array { element, length } => *element,
            _ => vstd::pervasive::unreached(),
        },
        _ => vstd::pervasive::unreached(),
    }
}

// -----------------------------------------------------------------------
// Conversions, loads and variables
// -----------------------------------------------------------------------

impl<'ir> FunctionGenerator<'ir> {
    /// Inserts a local variable into the current scope's symbol table.
    ///
    /// Records the identifier for scope-exit cleanup.  Returns
    /// `VariableRedefinition` if a variable with the same name already exists
    /// in the symbol table.
    fn insert_scoped_local(&mut self, identifier: &str, variable: Local) -> (res: Result<
        (),
        Error,
    >)
        ensures
            final(self)@ == old(self)@.bind(identifier@, variable@).0,
            ends(res, old(self)@.bind(identifier@, variable@).1),
    {
        let ghost before = self@;
        let known = self.local_variables.contains_key(identifier);
        self.local_variables.insert(identifier.to_owned(), variable);
        assert(self@.locals =~= before.locals.insert(identifier@, variable@));
        if known {
            return Err(Error::VariableRedefinition { symbol: identifier.to_owned() });
        }
        self.record_scoped_local(identifier.to_owned());
        Ok(())
    }

    /// Creates a new pointer-typed local and emits an `alloca` for it.
    ///
    /// Returns the resulting [`Local`] whose type is `*pointee`.
    fn allocate_pointer_local(&mut self, pointee: Dtype) -> (local: Local)
        requires
            old(self)@.with_slot(pointee@).fits(),
        ensures
            final(self)@ == old(self)@.with_slot(pointee@),
            local@ == old(self)@.fresh(pointee@.ptr()),
    {
        let local = self.fresh_local(Dtype::ptr_to(pointee));
        self.emit_alloca(Operand::from(&local));
        local
    }

    /// Returns the value type stored behind a pointer-like operand.
    fn storage_value_dtype(ptr: &Operand) -> (dtype: Dtype)
        ensures
            dtype@ == ptr@.ty().stored(),
    {
        match ptr.dtype() {
            Dtype::Pointer { pointee } => *pointee,
            other => other,
        }
    }

    /// Inserts the IR conversion needed to coerce an operand to `target`.
    pub fn coerce_operand(&mut self, operand: Operand, target: &Dtype) -> (res: Result<
        Operand,
        Error,
    >)
        requires
            feasible(old(self)@.convert(operand@, target@)),
        ensures
            final(self)@ == old(self)@.convert(operand@, target@).0,
            gives(res, old(self)@.convert(operand@, target@).1),
    {
        let dtype = operand.dtype();
        if dtype == *target {
            return Ok(operand);
        }
        match (dtype, target) {
            (Dtype::I32, Dtype::F32) => {
                let dst = Operand::from(self.fresh_local(Dtype::F32));
                self.emit_sitofp(operand, dst.clone());
                Ok(dst)
            },
            (Dtype::F32, Dtype::I32) => {
                let dst = Operand::from(self.fresh_local(Dtype::I32));
                self.emit_fptosi(operand, dst.clone());
                Ok(dst)
            },
            (actual, expected) => Err(
                Error::TypeMismatch {
                    symbol: "conversion".to_owned(),
                    expected: expected.clone(),
                    actual,
                },
            ),
        }
    }

    /// Coerces arithmetic operands to a common numeric type.
    fn coerce_numeric_pair(&mut self, left: Operand, right: Operand) -> (res: Result<
        (Operand, Operand, Dtype),
        Error,
    >)
        requires
            feasible(old(self)@.numeric_pair(left@, right@)),
        ensures
            final(self)@ == old(self)@.numeric_pair(left@, right@).0,
            gives_pair(res, old(self)@.numeric_pair(left@, right@).1),
    {
        let left_dtype = left.dtype();
        let right_dtype = right.dtype();
        match (&left_dtype, &right_dtype) {
            (Dtype::F32, _) | (_, Dtype::F32) => {
                let left = match self.coerce_operand(left, &Dtype::F32) {
                    Ok(left) => left,
                    Err(e) => return Err(e),
                };
                let right = match self.coerce_operand(right, &Dtype::F32) {
                    Ok(right) => right,
                    Err(e) => return Err(e),
                };
                Ok((left, right, Dtype::F32))
            },
            (Dtype::I32, Dtype::I32) => Ok((left, right, Dtype::I32)),
            (actual, expected) => Err(
                Error::TypeMismatch {
                    symbol: "numeric expression".to_owned(),
                    expected: expected.clone(),
                    actual: actual.clone(),
                },
            ),
        }
    }

    /// Loads an addressable scalar operand into an SSA value.
    fn load_scalar_operand(&mut self, operand: Operand) -> (value: Operand)
        requires
            old(self)@.load_scalar(operand@).0.fits(),
        ensures
            final(self)@ == old(self)@.load_scalar(operand@).0,
            value@ == old(self)@.load_scalar(operand@).1,
    {
        reveal_with_fuel(Dtype::ty, 2);
        let is_global = match &operand {
            Operand::Global(_) => true,
            _ => false,
        };
        let loaded_type = match operand.dtype() {
            Dtype::Pointer { pointee } => {
                let aggregate = match &*pointee {
                    Dtype::Array { element, length } => true,
                    Dtype::Struct { name } => true,
                    _ => false,
                };
                if operand.is_addressable() && !aggregate {
                    Some(*pointee)
                } else {
                    None
                }
            },
            Dtype::I32 => if is_global {
                Some(Dtype::I32)
            } else {
                None
            },
            Dtype::F32 => if is_global {
                Some(Dtype::F32)
            } else {
                None
            },
            _ => None,
        };
        match loaded_type {
            Some(dtype) => {
                let dst = Operand::from(self.fresh_local(dtype));
                self.emit_load(dst.clone(), operand);
                dst
            },
            None => operand,
        }
    }

    /// Allocates stack space for a scalar local and initializes it with `right_val`.
    fn define_scalar_local(&mut self, pointee: Dtype, right_val: Operand) -> (local: Local)
        requires
            old(self)@.with_slot(pointee@).fits(),
        ensures
            final(self)@ == old(self)@.with_slot(pointee@).emit(
                Inst::Store {
                    src: right_val@,
                    ptr: Val::Local(old(self)@.fresh(pointee@.ptr())),
                },
            ),
            local@ == old(self)@.fresh(pointee@.ptr()),
    {
        let local = self.allocate_pointer_local(pointee);
        self.emit_store(right_val, Operand::from(&local));
        local
    }

    /// Resolves the element/scalar type of a local variable.
    ///
    /// For typed declarations the base comes directly from the AST annotation.
    /// For **untyped scalars**, the base comes from the resolved-types map
    /// produced by the type inference pass (falling back to `i32` when
    /// inference could not determine anything — e.g. a declared-but-never-used
    /// local).  **Untyped arrays** always default to `i32` elements because
    /// TeaLang does not support inferring an array's element type.
    fn local_base_dtype(
        &self,
        identifier: &str,
        annotation: &Option<TypeSpecifier>,
        is_scalar: bool,
    ) -> (dtype: Dtype)
        ensures
            dtype@ == self@.base_type(identifier@, *annotation, is_scalar),
    {
        match annotation {
            Some(t) => Dtype::from_specifier(t),
            None => if is_scalar {
                match self.resolved_types.get(identifier) {
                    Some(dtype) => dtype.clone(),
                    None => Dtype::I32,
                }
            } else {
                Dtype::I32
            },
        }
    }

    /// Determines the storage type for a local variable *declaration*
    /// (no initialiser).
    fn plan_local_decl_storage(&self, decl: &VarDecl) -> (dtype: Dtype)
        ensures
            dtype@ == self@.decl_type(*decl),
    {
        let is_scalar = match &decl.inner {
            VarDeclInner::Scalar => true,
            VarDeclInner::Array(_) => false,
        };
        let base = self.local_base_dtype(
            decl.identifier.as_str(),
            &decl.type_specifier,
            is_scalar,
        );
        compose_var_decl_dtype(base, &decl.inner)
    }

    /// Lowers a local variable declaration (without an initialiser) by
    /// allocating a stack slot of the declaration's storage type and
    /// inserting it into the current scope's symbol table.
    pub fn handle_local_var_decl(&mut self, decl: &VarDecl) -> (res: Result<(), Error>)
        requires
            feasible(old(self)@.declare(*decl)),
        ensures
            final(self)@ == old(self)@.declare(*decl).0,
            ends(res, old(self)@.declare(*decl).1),
    {
        let pointee = self.plan_local_decl_storage(decl);
        let variable = self.allocate_pointer_local(pointee);
        self.insert_scoped_local(decl.identifier.as_str(), variable)
    }
}

// -----------------------------------------------------------------------
// The operand stack of arithmetic expressions
// -----------------------------------------------------------------------

/// What is still to be done on an arithmetic expression: evaluate a
/// subexpression, or apply an operator to the two topmost operands.
enum Frame<'a> {
    Expr(&'a ArithExpr),
    Apply(&'a ArithBiOp),
}

/// How many frames an expression unfolds to.
spec fn frames_in(e: ArithExpr) -> nat
    decreases e,
{
    match e.inner {
        ArithExprInner::ArithBiOpExpr(biop) => frames_in(*biop.left) + frames_in(*biop.right) + 2,
        ArithExprInner::ExprUnit(_) => 1,
    }
}

spec fn work(frames: Seq<Frame>) -> nat
    decreases frames.len(),
{
    if frames.len() == 0 {
        0
    } else {
        work(frames.drop_last()) + match frames.last() {
            Frame::Expr(e) => frames_in(*e),
            Frame::Apply(_) => 1,
        }
    }
}

/// What becomes of the operands when all frames are worked off, the last first.
spec fn finish(g: GenState, frames: Seq<Frame>, operands: Seq<Val>) -> Lowered<Seq<Val>>
    decreases frames.len(),
{
    if frames.len() == 0 {
        (g, Ok(operands))
    } else {
        match frames.last() {
            Frame::Expr(e) => match g.arith(*e) {
                (g, Err(fault)) => (g, Err(fault)),
                (g, Ok(v)) => finish(g, frames.drop_last(), operands.push(v)),
            },
            Frame::Apply(op) => if operands.len() < 2 {
                (g, Err(Fault::Trap))
            } else {
                let n = operands.len();
                match g.numeric_biop(*op, operands[n - 2], operands[n - 1]) {
                    (g, Err(fault)) => (g, Err(fault)),
                    (g, Ok(v)) => finish(g, frames.drop_last(), operands.take(n - 2).push(v)),
                }
            },
        }
    }
}

proof fn lemma_finish_grows(g: GenState, frames: Seq<Frame>, operands: Seq<Val>)
    ensures
        g.evaluates_to(finish(g, frames, operands).0),
    decreases frames.len(),
{
    if frames.len() > 0 {
        match frames.last() {
            Frame::Expr(e) => {
                crate::ir::gen::growth::lemma_arith(g, *e);
                if let (g1, Ok(v)) = g.arith(*e) {
                    lemma_finish_grows(g1, frames.drop_last(), operands.push(v));
                }
            },
            Frame::Apply(op) => {
                let n = operands.len();
                if n >= 2 {
                    if let (g1, Ok(v)) = g.numeric_biop(*op, operands[n - 2], operands[n - 1]) {
                        lemma_finish_grows(g1, frames.drop_last(), operands.take(n - 2).push(v));
                    }
                }
            },
        }
    }
}

/// Replacing an operation by its operator and operands changes nothing.
proof fn lemma_unfold(g: GenState, rest: Seq<Frame>, e: &ArithExpr, operands: Seq<Val>)
    requires
        e.inner is ArithBiOpExpr,
    ensures
        ({
            let biop = e.inner->ArithBiOpExpr_0;
            let unfolded = rest.push(Frame::Apply(&biop.op)).push(Frame::Expr(&biop.right)).push(
                Frame::Expr(&biop.left),
            );
            finish(g, unfolded, operands) == finish(g, rest.push(Frame::Expr(e)), operands)
                && work(unfolded) < work(rest.push(Frame::Expr(e)))
        }),
{
    let biop = e.inner->ArithBiOpExpr_0;
    let f1 = rest.push(Frame::Apply(&biop.op));
    let f2 = f1.push(Frame::Expr(&biop.right));
    let f3 = f2.push(Frame::Expr(&biop.left));
    let whole = rest.push(Frame::Expr(e));
    assert(f3.drop_last() =~= f2);
    assert(f2.drop_last() =~= f1);
    assert(f1.drop_last() =~= rest);
    assert(whole.drop_last() =~= rest);
    reveal_with_fuel(finish, 4);
    reveal_with_fuel(work, 4);
    if let (g1, Ok(l)) = g.arith(*biop.left) {
        if let (g2, Ok(r)) = g1.arith(*biop.right) {
            assert(operands.push(l).push(r).take(operands.len() as int) =~= operands);
        }
    }
}

// -----------------------------------------------------------------------
// Expression and value handlers
// -----------------------------------------------------------------------

impl<'ir> FunctionGenerator<'ir> {
    /// Emits a numeric binary operation after applying integer/float promotion.
    pub fn emit_numeric_biop(&mut self, op: &ArithBiOp, left: Operand, right: Operand) -> (res: Result<
        Operand,
        Error,
    >)
        requires
            feasible(old(self)@.numeric_biop(*op, left@, right@)),
        ensures
            final(self)@ == old(self)@.numeric_biop(*op, left@, right@).0,
            gives(res, old(self)@.numeric_biop(*op, left@, right@).1),
    {
        let (left, right, dtype) = match self.coerce_numeric_pair(left, right) {
            Ok(pair) => pair,
            Err(e) => return Err(e),
        };
        let is_float = match &dtype {
            Dtype::F32 => true,
            _ => false,
        };
        let dst = Operand::from(self.fresh_local(dtype));
        if is_float {
            self.emit_fbiop(FloatBinOp::from_op(op), left, right, dst.clone());
        } else {
            self.emit_biop(ArithBinOp::from_op(op), left, right, dst.clone());
        }
        Ok(dst)
    }

    /// Lowers an arithmetic expression (binary operation or a single unit).
    pub fn handle_arith_expr(&mut self, expr: &ArithExpr) -> (res: Result<Operand, Error>)
        requires
            feasible(old(self)@.arith(*expr)),
        ensures
            final(self)@ == old(self)@.arith(*expr).0,
            gives(res, old(self)@.arith(*expr).1),
        decreases expr, 0nat, 0nat,
    {
        let ghost before = self@;
        let mut frames: Vec<Frame> = Vec::new();
        frames.push(Frame::Expr(expr));
        let mut operands: Vec<Operand> = Vec::new();
        let ghost whole = finish(before, frames@, Seq::empty());
        proof {
            reveal_with_fuel(finish, 2);
            assert(frames@.drop_last() =~= Seq::empty());
            assert(crate::ir::stmt::vals(operands@) =~= Seq::empty());
            if let (g, Ok(v)) = before.arith(*expr) {
                assert(whole == (g, Ok::<Seq<Val>, Fault>(Seq::empty().push(v))));
            }
        }
        while frames.len() > 0
            invariant
                before == old(self)@,
                finish(self@, frames@, crate::ir::stmt::vals(operands@)) == whole,
                feasible(whole),
                whole.0 == before.arith(*expr).0,
                match before.arith(*expr).1 {
                    Ok(v) => whole.1 == Ok::<Seq<Val>, Fault>(seq![v]),
                    Err(fault) => whole.1 == Err::<Seq<Val>, Fault>(fault),
                },
                forall|i: int|
                    #![trigger frames[i]]
                    0 <= i < frames.len() ==> (frames[i] matches Frame::Expr(e) ==> *e == *expr
                        || decreases_to!(expr => e)),
            decreases work(frames@),
        {
            let ghost prior = frames@;
            let ghost stack = crate::ir::stmt::vals(operands@);
            let frame = match frames.pop() {
                Some(frame) => frame,
                None => vstd::pervasive::unreached(),
            };
            proof {
                assert(frames@ =~= prior.drop_last());
                assert(prior =~= frames@.push(frame));
            }
            match frame {
                Frame::Expr(e) => match &e.inner {
                    ArithExprInner::ArithBiOpExpr(biop) => {
                        proof {
                            lemma_unfold(self@, frames@, e, stack);
                        }
                        frames.push(Frame::Apply(&biop.op));
                        frames.push(Frame::Expr(&biop.right));
                        frames.push(Frame::Expr(&biop.left));
                    },
                    ArithExprInner::ExprUnit(unit) => {
                        proof {
                            if let (g, Ok(v)) = self@.arith(*e) {
                                lemma_finish_grows(g, frames@, stack.push(v));
                            }
                        }
                        let operand = match self.handle_expr_unit(unit) {
                            Ok(operand) => operand,
                            Err(e) => return Err(e),
                        };
                        operands.push(operand);
                        assert(crate::ir::stmt::vals(operands@) =~= stack.push(operand@));
                    },
                },
                Frame::Apply(op) => {
                    let ghost n = stack.len() as int;
                    assert(n >= 2);
                    proof {
                        if let (g, Ok(v)) = self@.numeric_biop(*op, stack[n - 2], stack[n - 1]) {
                            lemma_finish_grows(g, frames@, stack.take(n - 2).push(v));
                        }
                    }
                    let (right, left) = match (operands.pop(), operands.pop()) {
                        (Some(right), Some(left)) => (right, left),
                        _ => vstd::pervasive::unreached(),
                    };
                    let operand = match self.emit_numeric_biop(op, left, right) {
                        Ok(operand) => operand,
                        Err(e) => return Err(e),
                    };
                    operands.push(operand);
                    assert(crate::ir::stmt::vals(operands@) =~= stack.take(n - 2).push(operand@));
                },
            }
        }
        assert(crate::ir::stmt::vals(operands@).len() == operands.len());
        match operands.pop() {
            Some(operand) => Ok(operand),
            None => vstd::pervasive::unreached(),
        }
    }

    /// Lowers a single expression unit to an [`Operand`].
    ///
    /// After resolving the unit's inner form, performs an implicit load for
    /// addressable scalar pointers and for global scalars.
    fn handle_expr_unit(&mut self, unit: &ExprUnit) -> (res: Result<Operand, Error>)
        requires
            feasible(old(self)@.unit(*unit)),
        ensures
            final(self)@ == old(self)@.unit(*unit).0,
            gives(res, old(self)@.unit(*unit).1),
        decreases unit, 0nat, 0nat,
    {
        let operand = match &unit.inner {
            ExprUnitInner::Num(num) => return Ok(Operand::from(*num)),
            ExprUnitInner::FloatNum(bits) => return Ok(Operand::Float(*bits)),
            ExprUnitInner::Id(id) => match self.lookup_variable(id.as_str()) {
                Err(e) => return Err(e),
                Ok(operand) => {
                    // Arrays cannot be used directly as scalar values.
                    if is_array_or_pointer_to_array(&operand) {
                        return Err(Error::ArrayUsedAsValue { symbol: id.clone() });
                    }
                    operand
                },
            },
            ExprUnitInner::ArithExpr(expr) => match self.handle_arith_expr(expr) {
                Ok(operand) => operand,
                Err(e) => return Err(e),
            },
            ExprUnitInner::FnCall(fn_call) => match self.lower_fn_call(fn_call) {
                Ok(Some(operand)) => operand,
                Ok(None) => return Err(Error::InvalidExprUnit { expr_unit: unit.clone() }),
                Err(e) => return Err(e),
            },
            ExprUnitInner::ArrayExpr(expr) => match self.handle_array_expr(expr) {
                Ok(operand) => operand,
                Err(e) => return Err(e),
            },
            ExprUnitInner::MemberExpr(expr) => match self.handle_member_expr(expr) {
                Ok(operand) => operand,
                Err(e) => return Err(e),
            },
            ExprUnitInner::Reference(id) => return self.handle_reference_expr(id.as_str()),
            ExprUnitInner::Cast(cast) => {
                let value = match self.handle_expr_unit(&cast.expr) {
                    Ok(value) => value,
                    Err(e) => return Err(e),
                };
                let target = Dtype::from_specifier(&cast.target_type);
                match self.coerce_operand(value, &target) {
                    Ok(operand) => operand,
                    Err(e) => return Err(e),
                }
            },
        };
        Ok(self.load_scalar_operand(operand))
    }

    /// Lowers a reference expression (`&id`) to a pointer to the array's first element.
    ///
    /// The variable must be (or point to) an array; emits a GEP with index 0 to
    /// yield a `*[element_type; ?]` operand.
    fn handle_reference_expr(&mut self, id: &str) -> (res: Result<Operand, Error>)
        requires
            feasible(old(self)@.reference(id@)),
        ensures
            final(self)@ == old(self)@.reference(id@).0,
            gives(res, old(self)@.reference(id@).1),
    {
        reveal_with_fuel(Dtype::ty, 3);
        let operand = match self.lookup_variable(id) {
            Ok(operand) => operand,
            Err(e) => return Err(e),
        };
        let element = match operand.dtype() {
            Dtype::Pointer { pointee } => match *pointee {
                Dtype::Array { element, length } => element,
                _ => return Err(Error::InvalidReference { symbol: id.to_owned() }),
            },
            Dtype::Array { element, length } => element,
            _ => return Err(Error::InvalidReference { symbol: id.to_owned() }),
        };
        let target = Operand::from(
            self.fresh_local(Dtype::ptr_to(Dtype::Array { element, length: None })),
        );
        self.emit_gep(target.clone(), operand, Operand::from(0i32));
        Ok(target)
    }

    /// Lowers a right-hand-side value (arithmetic or boolean expression) to an [`Operand`].
    fn handle_right_val(&mut self, val: &RightVal) -> (res: Result<Operand, Error>)
        requires
            feasible(old(self)@.right(*val)),
        ensures
            final(self)@ == old(self)@.right(*val).0,
            gives(res, old(self)@.right(*val).1),
        decreases val, 0nat, 0nat,
    {
        match &val.inner {
            RightValInner::ArithExpr(expr) => self.handle_arith_expr(expr),
            RightValInner::BoolExpr(expr) => self.handle_bool_expr_as_value(expr),
        }
    }

    /// Lowers an array element access expression (`arr[idx]`) to an element pointer.
    ///
    /// Loads the base pointer if it is itself pointer-typed (e.g., a parameter
    /// passed as a pointer-to-pointer), then computes the element address via GEP.
    fn handle_array_expr(&mut self, expr: &ArrayExpr) -> (res: Result<Operand, Error>)
        requires
            feasible(old(self)@.array(*expr)),
        ensures
            final(self)@ == old(self)@.array(*expr).0,
            gives(res, old(self)@.array(*expr).1),
        decreases expr, 0nat, 0nat,
    {
        reveal_with_fuel(Dtype::ty, 3);
        let arr = match self.handle_left_val(&expr.arr) {
            Ok(arr) => arr,
            Err(e) => return Err(e),
        };
        // If the array is accessed through a pointer-to-pointer (e.g., a function parameter
        // holding a pointer to an array), load the inner pointer first.
        let inner_pointer = match arr.dtype() {
            Dtype::Pointer { pointee } => match &*pointee {
                Dtype::Pointer { pointee: _ } => Some(*pointee),
                _ => None,
            },
            _ => None,
        };
        let arr = match inner_pointer {
            Some(dtype) => {
                let loaded = Operand::from(self.fresh_local(dtype));
                self.emit_load(loaded.clone(), arr);
                loaded
            },
            None => arr,
        };
        let target_dtype = match arr.dtype() {
            Dtype::Pointer { pointee } => match *pointee {
                Dtype::Array { element, length } => Dtype::Pointer { pointee: element },
                other => Dtype::ptr_to(other),
            },
            Dtype::Array { element, length } => Dtype::Pointer { pointee: element },
            _ => return Err(Error::InvalidArrayExpression),
        };
        let target = Operand::from(self.fresh_local(target_dtype));
        let index = match self.handle_index_expr(&expr.idx) {
            Ok(index) => index,
            Err(e) => return Err(e),
        };
        self.emit_gep(target.clone(), arr, index);
        Ok(target)
    }

    /// Lowers a struct member access expression (`s.member`) to a member pointer.
    ///
    /// Looks up the struct type in the registry, finds the member's field index,
    /// and emits a GEP to yield a pointer to that member.
    fn handle_member_expr(&mut self, expr: &MemberExpr) -> (res: Result<Operand, Error>)
        requires
            feasible(old(self)@.member(*expr)),
        ensures
            final(self)@ == old(self)@.member(*expr).0,
            gives(res, old(self)@.member(*expr).1),
        decreases expr, 0nat, 0nat,
    {
        let s = match self.handle_left_val(&expr.struct_id) {
            Ok(s) => s,
            Err(e) => return Err(e),
        };
        let registry = self.registry;
        let dtype = s.dtype();
        let struct_type = match dtype.struct_type_name() {
            Some(name) => match registry.struct_types.get(name.as_str()) {
                Some(struct_type) => struct_type,
                None => return Err(Error::InvalidStructMemberExpression { expr: expr.clone() }),
            },
            None => return Err(Error::InvalidStructMemberExpression { expr: expr.clone() }),
        };
        let at = match find_member(struct_type, expr.member_id.as_str()) {
            Some(at) => at,
            None => return Err(Error::InvalidStructMemberExpression { expr: expr.clone() }),
        };
        let member = &struct_type.elements[at].1;
        let member_index: i32 = match i32::try_from(member.index) {
            Ok(index) => index,
            Err(_) => return Err(Error::InvalidStructMemberExpression { expr: expr.clone() }),
        };
        match &member.dtype {
            Dtype::Void => {
                return Err(Error::InvalidStructMemberExpression { expr: expr.clone() });
            },
            _ => {},
        }
        let target = Operand::from(self.fresh_local(Dtype::ptr_to(member.dtype.clone())));
        self.emit_gep(target.clone(), s, Operand::from(member_index));
        Ok(target)
    }

    /// Resolves a left-hand-side value to an addressable [`Operand`] (a pointer).
    ///
    /// For a simple identifier, looks up the symbol; for array and member
    /// expressions, delegates to the respective handlers.
    fn handle_left_val(&mut self, val: &LeftVal) -> (res: Result<Operand, Error>)
        requires
            feasible(old(self)@.left(*val)),
        ensures
            final(self)@ == old(self)@.left(*val).0,
            gives(res, old(self)@.left(*val).1),
        decreases val, 0nat, 0nat,
    {
        match &val.inner {
            LeftValInner::Id(id) => self.lookup_variable(id.as_str()),
            LeftValInner::ArrayExpr(expr) => self.handle_array_expr(expr),
            LeftValInner::MemberExpr(expr) => self.handle_member_expr(expr),
        }
    }

    /// Lowers an array index expression to an `i32` operand.
    ///
    /// Variable indices are loaded from their stack slot; numeric literals are
    /// returned directly as immediate operands.
    fn handle_index_expr(&mut self, expr: &IndexExpr) -> (res: Result<Operand, Error>)
        requires
            feasible(old(self)@.index(*expr)),
        ensures
            final(self)@ == old(self)@.index(*expr).0,
            gives(res, old(self)@.index(*expr).1),
    {
        match &expr.inner {
            IndexExprInner::Id(id) => {
                let src = match self.lookup_variable(id.as_str()) {
                    Ok(src) => src,
                    Err(e) => return Err(e),
                };
                let idx = Operand::from(self.fresh_local(Dtype::I32));
                self.emit_load(idx.clone(), src);
                Ok(idx)
            },
            IndexExprInner::Num(num) => Ok(array_index_operand(*num)),
        }
    }

    /// Lowers a function call and optionally returns its result operand.
    fn lower_fn_call(&mut self, fn_call: &FnCall) -> (res: Result<Option<Operand>, Error>)
        requires
            feasible(old(self)@.call(*fn_call)),
        ensures
            final(self)@ == old(self)@.call(*fn_call).0,
            gives_optional(res, old(self)@.call(*fn_call).1),
        decreases fn_call, 1nat, 0nat,
    {
        let ghost before = self@;
        proof {
            if let (g, Ok((receiver, name))) = before.callee(*fn_call) {
                if g.env.functions.contains_key(name) {
                    let sig = g.env.functions[name];
                    if let (g, Ok(first)) = g.receiver_args(receiver, sig.params) {
                        let n = fn_call.vals@.len();
                        crate::ir::gen::growth::lemma_explicit_args(
                            g,
                            *fn_call,
                            n,
                            first,
                            sig.params,
                        );
                    }
                }
            }
        }
        let (receiver, function_name) = match &fn_call.receiver {
            Some(left) => {
                let receiver_ptr = match self.handle_left_val(left) {
                    Ok(receiver_ptr) => receiver_ptr,
                    Err(e) => return Err(e),
                };
                let dtype = receiver_ptr.dtype();
                let function_name = match dtype.struct_type_name() {
                    Some(name) => method_name(name.as_str(), fn_call.name.as_str()),
                    None => {
                        return Err(Error::FunctionNotDefined { symbol: fn_call.name.clone() });
                    },
                };
                (Some(receiver_ptr), function_name)
            },
            None => {
                let in_self = match &fn_call.module_prefix {
                    Some(prefix) => same_name(prefix.as_str(), "Self"),
                    None => false,
                };
                if in_self {
                    match &self.current_impl_type {
                        Some(impl_name) => (
                            None,
                            method_name(impl_name.as_str(), fn_call.name.as_str()),
                        ),
                        None => {
                            return Err(
                                Error::FunctionNotDefined { symbol: fn_call.qualified_name() },
                            );
                        },
                    }
                } else {
                    (None, fn_call.qualified_name())
                }
            },
        };
        let ghost target = crate::ir::stmt::optional_val(receiver);
        assert(before.callee(*fn_call) == (
            self@,
            Ok::<(Option<Val>, Seq<char>), Fault>((target, function_name@)),
        ));
        let registry = self.registry;
        let function_type = match registry.function_types.get(function_name.as_str()) {
            Some(function_type) => function_type,
            None => return Err(Error::FunctionNotDefined { symbol: function_name }),
        };
        let ghost params = function_type@.params;
        let ghost g1 = self@;
        assert(g1.env.functions[function_name@] == function_type@);
        let mut args: Vec<Operand> = Vec::new();
        match receiver {
            Some(receiver) => {
                let receiver = if function_type.arguments.len() > 0 {
                    match self.coerce_operand(receiver, &function_type.arguments[0].1) {
                        Ok(receiver) => receiver,
                        Err(e) => return Err(e),
                    }
                } else {
                    receiver
                };
                args.push(receiver);
            },
            None => {},
        }
        let ghost first = crate::ir::stmt::vals(args@);
        let ghost g2 = self@;
        let explicit_offset: usize = args.len();
        proof {
            assert(first =~= (match target {
                Some(_) => seq![args[0]@],
                None => Seq::empty(),
            }));
            assert(g1.receiver_args(target, params) == (g2, Ok::<Seq<Val>, Fault>(first)));
        }
        let mut idx: usize = 0;
        while idx < fn_call.vals.len()
            invariant
                before == old(self)@,
                idx <= fn_call.vals.len(),
                before.callee(*fn_call) == (
                    g1,
                    Ok::<(Option<Val>, Seq<char>), Fault>((target, function_name@)),
                ),
                g1.env.functions.contains_key(function_name@),
                g1.env.functions[function_name@] == function_type@,
                params == function_type@.params,
                g1.receiver_args(target, params) == (g2, Ok::<Seq<Val>, Fault>(first)),
                feasible(before.call(*fn_call)),
                feasible(g2.explicit_args(*fn_call, fn_call.vals@.len(), first, params)),
                explicit_offset == first.len() <= 1,
                g2.explicit_args(*fn_call, idx as nat, first, params) == (
                    self@,
                    Ok::<Seq<Val>, Fault>(crate::ir::stmt::vals(args@)),
                ),
            decreases fn_call.vals.len() - idx,
        {
            let ghost g = self@;
            let ghost passed = crate::ir::stmt::vals(args@);
            let ghost position = idx + explicit_offset;
            proof {
                crate::ir::gen::growth::lemma_args_part(
                    g2,
                    *fn_call,
                    (idx + 1) as nat,
                    fn_call.vals@.len(),
                    first,
                    params,
                );
                assert(decreases_to!(fn_call => fn_call.vals[idx as int]));
            }
            let right_val = match self.handle_right_val(&fn_call.vals[idx]) {
                Ok(right_val) => right_val,
                Err(e) => return Err(e),
            };
            let within = function_type.arguments.len() > explicit_offset && idx
                < function_type.arguments.len() - explicit_offset;
            let right_val = if within {
                match self.coerce_operand(
                    right_val,
                    &function_type.arguments[idx + explicit_offset].1,
                ) {
                    Ok(right_val) => right_val,
                    Err(e) => return Err(e),
                }
            } else {
                right_val
            };
            args.push(right_val);
            assert(crate::ir::stmt::vals(args@) =~= passed.push(right_val@));
            idx += 1;
        }
        let retval = match &function_type.return_dtype {
            Dtype::Void => None,
            Dtype::I32 => Some(Operand::from(self.fresh_local(Dtype::I32))),
            Dtype::F32 => Some(Operand::from(self.fresh_local(Dtype::F32))),
            _ => vstd::pervasive::unreached(),
        };
        let link_name = self.resolve_link_name(function_name.as_str());
        let result = match &retval {
            Some(operand) => Some(operand.clone()),
            None => None,
        };
        self.emit_call(link_name, retval, args);
        Ok(result)
    }
}

// -----------------------------------------------------------------------
// Boolean expression handlers
// -----------------------------------------------------------------------

impl<'ir> FunctionGenerator<'ir> {
    /// Lowers a boolean expression to a materialized `i32` value (0 or 1).
    ///
    /// Allocates a temporary `i32` stack slot, evaluates the expression as a
    /// branch (writing 1 on the true path and 0 on the false path), then loads
    /// and returns the result.
    fn handle_bool_expr_as_value(&mut self, expr: &BoolExpr) -> (res: Result<Operand, Error>)
        requires
            feasible(old(self)@.bool_value(*expr)),
        ensures
            final(self)@ == old(self)@.bool_value(*expr).0,
            gives(res, old(self)@.bool_value(*expr).1),
        decreases expr, 1nat, 0nat,
    {
        let ghost before = self@;
        proof {
            crate::ir::gen::growth::lemma_branch(
                before.with_blocks(3).with_slot(Ty::I32),
                *expr,
                before.label(0),
                before.label(1),
            );
        }
        let true_label = self.alloc_basic_block();
        let false_label = self.alloc_basic_block();
        let after_label = self.alloc_basic_block();

        // Allocate stack storage for the materialised boolean result.
        let bool_evaluated = Operand::from(self.fresh_local(Dtype::ptr_to(Dtype::I32)));
        self.emit_alloca(bool_evaluated.clone());
        assert(self@ == before.with_blocks(3).with_slot(Ty::I32));

        // Branch-based evaluation; result is written into bool_evaluated.
        match self.handle_bool_expr_as_branch(expr, true_label.clone(), false_label.clone()) {
            Ok(_) => {},
            Err(e) => return Err(e),
        }
        self.emit_bool_materialization(
            true_label,
            false_label,
            after_label,
            bool_evaluated.clone(),
        );

        // Load the materialised 0/1 value back into a register.
        let loaded = Operand::from(self.fresh_local(Dtype::I32));
        self.emit_load(loaded.clone(), bool_evaluated);
        Ok(loaded)
    }

    /// Lowers a boolean expression as a branching construct.
    ///
    /// Jumps to `true_label` if the expression evaluates to true, or to
    /// `false_label` otherwise.
    fn handle_bool_expr_as_branch(
        &mut self,
        expr: &BoolExpr,
        true_label: BlockLabel,
        false_label: BlockLabel,
    ) -> (res: Result<(), Error>)
        requires
            feasible(old(self)@.branch(*expr, true_label@, false_label@)),
        ensures
            final(self)@ == old(self)@.branch(*expr, true_label@, false_label@).0,
            ends(res, old(self)@.branch(*expr, true_label@, false_label@).1),
        decreases expr, 0nat, 0nat,
    {
        match &expr.inner {
            BoolExprInner::BoolBiOpExpr(biop) => {
                self.handle_bool_biop_expr(biop, true_label, false_label)
            },
            BoolExprInner::BoolUnit(unit) => self.handle_bool_unit(unit, true_label, false_label),
        }
    }

    /// Emits the true/false branches that write an integer 0 or 1 into `bool_ptr`.
    ///
    /// - True path: stores 1 and jumps to `after_label`.
    /// - False path: stores 0 and jumps to `after_label`.
    ///
    /// Finishes by emitting `after_label` as the merge point.
    fn emit_bool_materialization(
        &mut self,
        true_label: BlockLabel,
        false_label: BlockLabel,
        after_label: BlockLabel,
        bool_ptr: Operand,
    )
        ensures
            final(self)@ == old(self)@.materialized(
                true_label@,
                false_label@,
                after_label@,
                bool_ptr@,
            ),
    {
        // True path: store 1 and jump to the merge point.
        self.emit_label(true_label);
        self.emit_store(Operand::from(1i32), bool_ptr.clone());
        self.emit_jump(after_label.clone());

        // False path: store 0 and jump to the merge point.
        self.emit_label(false_label);
        self.emit_store(Operand::from(0i32), bool_ptr);
        self.emit_jump(after_label.clone());

        self.emit_label(after_label);
    }

    /// Lowers a binary boolean expression (`&&` or `||`) using short-circuit evaluation.
    ///
    /// For `&&`: evaluate the left operand; jump to `false_label` immediately if
    /// false, otherwise fall through to evaluate the right operand.
    ///
    /// For `||`: evaluate the left operand; jump to `true_label` immediately if
    /// true, otherwise fall through to evaluate the right operand.
    fn handle_bool_biop_expr(
        &mut self,
        expr: &BoolBiOpExpr,
        true_label: BlockLabel,
        false_label: BlockLabel,
    ) -> (res: Result<(), Error>)
        requires
            feasible(old(self)@.bool_biop(*expr, true_label@, false_label@)),
        ensures
            final(self)@ == old(self)@.bool_biop(*expr, true_label@, false_label@).0,
            ends(res, old(self)@.bool_biop(*expr, true_label@, false_label@).1),
        decreases expr, 0nat, 0nat,
    {
        proof {
            let g = old(self)@.with_blocks(1);
            let undecided = old(self)@.label(0);
            let left = match expr.op {
                BoolBiOp::And => g.branch(*expr.left, undecided, false_label@),
                BoolBiOp::Or => g.branch(*expr.left, true_label@, undecided),
            };
            crate::ir::gen::growth::lemma_branch(g, *expr.left, undecided, false_label@);
            crate::ir::gen::growth::lemma_branch(g, *expr.left, true_label@, undecided);
            crate::ir::gen::growth::lemma_branch(
                left.0.emit(Inst::Label(undecided)),
                *expr.right,
                true_label@,
                false_label@,
            );
        }
        let eval_right_label = self.alloc_basic_block();
        match &expr.op {
            BoolBiOp::And => {
                // Short-circuit AND: only evaluate the right side if the left side is true.
                match self.handle_bool_expr_as_branch(
                    &expr.left,
                    eval_right_label.clone(),
                    false_label.clone(),
                ) {
                    Ok(_) => {},
                    Err(e) => return Err(e),
                }
                self.emit_label(eval_right_label);
                self.handle_bool_expr_as_branch(&expr.right, true_label, false_label)
            },
            BoolBiOp::Or => {
                // Short-circuit OR: only evaluate the right side if the left side is false.
                match self.handle_bool_expr_as_branch(
                    &expr.left,
                    true_label.clone(),
                    eval_right_label.clone(),
                ) {
                    Ok(_) => {},
                    Err(e) => return Err(e),
                }
                self.emit_label(eval_right_label);
                self.handle_bool_expr_as_branch(&expr.right, true_label, false_label)
            },
        }
    }

    /// Lowers a boolean unit (comparison, sub-expression, or negation) as a branch.
    ///
    /// For a negation (`!expr`), the true and false labels are swapped so that
    /// the inner expression's result is inverted.
    pub fn handle_bool_unit(
        &mut self,
        unit: &BoolUnit,
        true_label: BlockLabel,
        false_label: BlockLabel,
    ) -> (res: Result<(), Error>)
        requires
            feasible(old(self)@.bool_unit(*unit, true_label@, false_label@)),
        ensures
            final(self)@ == old(self)@.bool_unit(*unit, true_label@, false_label@).0,
            ends(res, old(self)@.bool_unit(*unit, true_label@, false_label@).1),
        decreases unit, 0nat, 0nat,
    {
        match &unit.inner {
            BoolUnitInner::ComExpr(expr) => {
                self.handle_com_op_expr(expr, true_label, false_label)
            },
            BoolUnitInner::BoolExpr(expr) => {
                self.handle_bool_expr_as_branch(expr, true_label, false_label)
            },
            BoolUnitInner::BoolUOpExpr(expr) => {
                self.handle_bool_unit(&expr.cond, false_label, true_label)
            },
        }
    }

    /// Lowers a comparison expression into a conditional branch.
    ///
    /// Emits a `cmp` instruction (result type `i1`) followed by a conditional
    /// jump to `true_label` or `false_label`.
    fn handle_com_op_expr(
        &mut self,
        expr: &ComExpr,
        true_label: BlockLabel,
        false_label: BlockLabel,
    ) -> (res: Result<(), Error>)
        requires
            feasible(old(self)@.comparison(*expr, true_label@, false_label@)),
        ensures
            final(self)@ == old(self)@.comparison(*expr, true_label@, false_label@).0,
            ends(res, old(self)@.comparison(*expr, true_label@, false_label@).1),
        decreases expr, 0nat, 0nat,
    {
        proof {
            if let (g, Ok(_)) = old(self)@.unit(*expr.left) {
                crate::ir::gen::growth::lemma_unit(g, *expr.right);
            }
        }
        let left = match self.handle_expr_unit(&expr.left) {
            Ok(left) => left,
            Err(e) => return Err(e),
        };
        let right = match self.handle_expr_unit(&expr.right) {
            Ok(right) => right,
            Err(e) => return Err(e),
        };
        let (left, right, dtype) = match self.coerce_numeric_pair(left, right) {
            Ok(pair) => pair,
            Err(e) => return Err(e),
        };
        let is_float = match &dtype {
            Dtype::F32 => true,
            _ => false,
        };
        let dst = Operand::from(self.fresh_local(Dtype::I1));
        if is_float {
            self.emit_fcmp(FloatCmpPredicate::from_op(&expr.op), left, right, dst.clone());
        } else {
            self.emit_cmp(CmpPredicate::from_op(&expr.op), left, right, dst.clone());
        }
        self.emit_cjump(dst, true_label, false_label);
        Ok(())
    }
}

// -----------------------------------------------------------------------
// Statement handlers
// -----------------------------------------------------------------------

impl<'ir> FunctionGenerator<'ir> {
    /// Lowers an assignment statement (`left = right`).
    ///
    /// `handle_left_val` yields a pointer to the destination's stack slot and
    /// `handle_right_val` yields the value to store, so the assignment is a
    /// single `store` instruction.
    pub fn handle_assignment_stmt(&mut self, stmt: &AssignmentStmt) -> (res: Result<(), Error>)
        requires
            feasible(old(self)@.assign(*stmt)),
        ensures
            final(self)@ == old(self)@.assign(*stmt).0,
            ends(res, old(self)@.assign(*stmt).1),
    {
        proof {
            if let (g, Ok(_)) = old(self)@.left(stmt.left_val) {
                crate::ir::gen::growth::lemma_right(g, stmt.right_val);
            }
        }
        let left = match self.handle_left_val(&stmt.left_val) {
            Ok(left) => left,
            Err(e) => return Err(e),
        };
        let target_dtype = Self::storage_value_dtype(&left);
        let right = match self.handle_right_val(&stmt.right_val) {
            Ok(right) => right,
            Err(e) => return Err(e),
        };
        let right = match self.coerce_operand(right, &target_dtype) {
            Ok(right) => right,
            Err(e) => return Err(e),
        };
        self.emit_store(right, left);
        Ok(())
    }

    /// Stores a flat list of values into a stack-allocated array.
    ///
    /// For each value, computes an element pointer via GEP using the value's
    /// position as the index and emits a `store` instruction.
    ///
    /// # Parameters
    /// - `base_ptr`: operand pointing to the first element of the array.
    /// - `vals`: list of right-hand-side values to store sequentially.
    pub fn init_array(&mut self, base_ptr: &Operand, vals: &RightValList) -> (res: Result<
        (),
        Error,
    >)
        requires
            feasible(old(self)@.initialize_list(base_ptr@, vals@)),
        ensures
            final(self)@ == old(self)@.initialize_list(base_ptr@, vals@).0,
            ends(res, old(self)@.initialize_list(base_ptr@, vals@).1),
    {
        let ghost before = self@;
        let element_dtype = array_element_dtype(base_ptr);
        let ghost element = element_dtype@;
        let mut i: usize = 0;
        while i < vals.len()
            invariant
                before == old(self)@,
                i <= vals.len(),
                element == element_dtype@,
                GenState::array_behind(base_ptr@) == Some(element),
                feasible(before.store_list(base_ptr@, element, vals@, vals@.len())),
                before.store_list(base_ptr@, element, vals@, i as nat) == (
                    self@,
                    Ok::<(), Fault>(()),
                ),
            decreases vals.len() - i,
        {
            proof {
                crate::ir::gen::growth::lemma_list_part(
                    before,
                    base_ptr@,
                    element,
                    vals@,
                    (i + 1) as nat,
                    vals@.len(),
                );
                crate::ir::gen::growth::lemma_right(self@.taken(), vals[i as int]);
            }
            let element_ptr = Operand::from(
                self.fresh_local(Dtype::ptr_to(element_dtype.clone())),
            );
            let right_elem = match self.handle_right_val(&vals[i]) {
                Ok(right_elem) => right_elem,
                Err(e) => return Err(e),
            };
            let right_elem = match self.coerce_operand(right_elem, &element_dtype) {
                Ok(right_elem) => right_elem,
                Err(e) => return Err(e),
            };
            self.emit_gep(element_ptr.clone(), base_ptr.clone(), array_index_operand(i));
            self.emit_store(right_elem, element_ptr);
            i += 1;
        }
        Ok(())
    }

    /// Initializes an array from an [`ArrayInitializer`].
    ///
    /// Delegates to [`Self::init_array`] for explicit element lists.  For fill
    /// initializers, evaluates the fill value once and repeats the store for
    /// every index up to `count`.
    pub fn init_array_from(
        &mut self,
        base_ptr: &Operand,
        initializer: &ArrayInitializer,
    ) -> (res: Result<(), Error>)
        requires
            feasible(old(self)@.initialize(base_ptr@, *initializer)),
        ensures
            final(self)@ == old(self)@.initialize(base_ptr@, *initializer).0,
            ends(res, old(self)@.initialize(base_ptr@, *initializer).1),
    {
        match initializer {
            ArrayInitializer::ExplicitList(vals) => self.init_array(base_ptr, vals),
            ArrayInitializer::Fill { val, count } => {
                let element_dtype = array_element_dtype(base_ptr);
                let ghost element = element_dtype@;
                proof {
                    if let (g, Ok(v)) = GenState::then_convert(
                        old(self)@.right(**val),
                        element,
                    ) {
                        crate::ir::gen::growth::lemma_store_fill(
                            g,
                            base_ptr@,
                            element,
                            v,
                            *count as nat,
                        );
                    }
                }
                let fill_val = match self.handle_right_val(val) {
                    Ok(fill_val) => fill_val,
                    Err(e) => return Err(e),
                };
                let fill_val = match self.coerce_operand(fill_val, &element_dtype) {
                    Ok(fill_val) => fill_val,
                    Err(e) => return Err(e),
                };
                let ghost start = self@;
                let ghost v = fill_val@;
                let mut i: usize = 0;
                while i < *count
                    invariant
                        i <= *count,
                        element == element_dtype@,
                        v == fill_val@,
                        feasible(start.store_fill(base_ptr@, element, v, *count as nat)),
                        start.store_fill(base_ptr@, element, v, i as nat) == (
                            self@,
                            Ok::<(), Fault>(()),
                        ),
                    decreases *count - i,
                {
                    proof {
                        crate::ir::gen::growth::lemma_fill_part(
                            start,
                            base_ptr@,
                            element,
                            v,
                            (i + 1) as nat,
                            *count as nat,
                        );
                    }
                    let element_ptr = Operand::from(
                        self.fresh_local(Dtype::ptr_to(element_dtype.clone())),
                    );
                    self.emit_gep(element_ptr.clone(), base_ptr.clone(), array_index_operand(i));
                    self.emit_store(fill_val.clone(), element_ptr);
                    i += 1;
                }
                Ok(())
            },
        }
    }

    /// Lowers a local variable definition (declaration with an initializer)
    /// by allocating a stack slot and storing the initial value into it.
    pub fn handle_local_var_def(&mut self, def: &VarDef) -> (res: Result<(), Error>)
        requires
            feasible(old(self)@.define(*def)),
        ensures
            final(self)@ == old(self)@.define(*def).0,
            ends(res, old(self)@.define(*def).1),
    {
        let is_scalar = match &def.inner {
            VarDefInner::Scalar(_) => true,
            VarDefInner::Array(_) => false,
        };
        let base = self.local_base_dtype(def.identifier.as_str(), &def.type_specifier, is_scalar);
        let pointee = compose_var_def_dtype(base, &def.inner);
        let ghost ty = pointee@;
        assert(ty == old(self)@.def_type(*def));
        let variable: Local = match &def.inner {
            VarDefInner::Scalar(scalar) => {
                let right_val = match self.handle_right_val(&scalar.val) {
                    Ok(right_val) => right_val,
                    Err(e) => return Err(e),
                };
                let right_val = match self.coerce_operand(right_val, &pointee) {
                    Ok(right_val) => right_val,
                    Err(e) => return Err(e),
                };
                self.define_scalar_local(pointee, right_val)
            },
            VarDefInner::Array(array) => {
                proof {
                    crate::ir::gen::growth::lemma_initialize(
                        old(self)@.with_slot(ty),
                        Val::Local(old(self)@.fresh(ty.ptr())),
                        array.initializer,
                    );
                }
                let local = self.allocate_pointer_local(pointee);
                match self.init_array_from(&Operand::from(&local), &array.initializer) {
                    Ok(_) => {},
                    Err(e) => return Err(e),
                }
                local
            },
        };
        self.insert_scoped_local(def.identifier.as_str(), variable)
    }

    /// Lowers a standalone function call statement.
    ///
    /// Evaluates each argument, allocates a temporary for a non-void return
    /// value (which is subsequently discarded), and emits the `call` instruction.
    pub fn handle_call_stmt(&mut self, stmt: &CallStmt) -> (res: Result<(), Error>)
        requires
            feasible(old(self)@.call(stmt.fn_call)),
        ensures
            final(self)@ == old(self)@.call(stmt.fn_call).0,
            match (res, old(self)@.call(stmt.fn_call).1) {
                (Ok(_), Ok(_)) => true,
                (Err(e), Err(fault)) => e.reports(fault),
                _ => false,
            },
    {
        match self.lower_fn_call(&stmt.fn_call) {
            Ok(_) => Ok(()),
            Err(e) => Err(e),
        }
    }

    /// Lowers a `return` statement.
    ///
    /// Emits a void `return` when no value is present, or evaluates the return
    /// expression and emits a value-carrying `return` otherwise.
    pub fn handle_return_stmt(&mut self, stmt: &ReturnStmt) -> (res: Result<(), Error>)
        requires
            feasible(old(self)@.give_back(*stmt)),
        ensures
            final(self)@ == old(self)@.give_back(*stmt).0,
            ends(res, old(self)@.give_back(*stmt).1),
    {
        match &stmt.val {
            None => {
                self.emit_return(None);
            },
            Some(val) => {
                proof {
                    crate::ir::gen::growth::lemma_right(old(self)@, *val);
                }
                let val = match self.handle_right_val(val) {
                    Ok(val) => val,
                    Err(e) => return Err(e),
                };
                let target = match &self.current_return_dtype {
                    Some(target) => Some(target.clone()),
                    None => None,
                };
                let val = match target {
                    Some(target) => match self.coerce_operand(val, &target) {
                        Ok(val) => val,
                        Err(e) => return Err(e),
                    },
                    None => val,
                };
                self.emit_return(Some(val));
            },
        }
        Ok(())
    }

    /// Lowers a `continue` statement by jumping to where the enclosing loop goes
    /// on: the test of a `while`, the step of a `for`.
    ///
    /// Returns `InvalidContinueInst` if called outside of a loop context.
    pub fn handle_continue_stmt(&mut self, con_label: Option<&BlockLabel>) -> (res: Result<
        (),
        Error,
    >)
        ensures
            match con_label {
                Some(label) => res is Ok && final(self)@ == old(self)@.emit(
                    Inst::Jump { target: label@ },
                ),
                None => res == Err::<(), Error>(Error::InvalidContinueInst) && final(self)@
                    == old(self)@,
            },
    {
        match con_label {
            Some(label) => {
                self.emit_jump(label.clone());
                Ok(())
            },
            None => Err(Error::InvalidContinueInst),
        }
    }

    /// Lowers a `break` statement by jumping to the enclosing loop's exit label.
    ///
    /// Returns `InvalidBreakInst` if called outside of a loop context.
    pub fn handle_break_stmt(&mut self, bre_label: Option<&BlockLabel>) -> (res: Result<
        (),
        Error,
    >)
        ensures
            match bre_label {
                Some(label) => res is Ok && final(self)@ == old(self)@.emit(
                    Inst::Jump { target: label@ },
                ),
                None => res == Err::<(), Error>(Error::InvalidBreakInst) && final(self)@
                    == old(self)@,
            },
    {
        match bre_label {
            Some(label) => {
                self.emit_jump(label.clone());
                Ok(())
            },
            None => Err(Error::InvalidBreakInst),
        }
    }

    /// Dispatches a single code-block statement to the appropriate handler.
    ///
    /// `con_label` and `bre_label` are the jump targets for `continue` and
    /// `break` inside the current loop, respectively.  Both are `None` when the
    /// statement is not nested inside a loop.
    pub fn handle_block(
        &mut self,
        stmt: &CodeBlockStmt,
        con_label: Option<&BlockLabel>,
        bre_label: Option<&BlockLabel>,
    ) -> (res: Result<(), Error>)
        requires
            feasible(
                old(self)@.block(*stmt, optional_label(con_label), optional_label(bre_label)),
            ),
        ensures
            final(self)@ == old(self)@.block(
                *stmt,
                optional_label(con_label),
                optional_label(bre_label),
            ).0,
            ends(
                res,
                old(self)@.block(*stmt, optional_label(con_label), optional_label(bre_label)).1,
            ),
        decreases stmt, 0nat,
    {
        match &stmt.inner {
            CodeBlockStmtInner::Assignment(s) => self.handle_assignment_stmt(s),
            CodeBlockStmtInner::VarDecl(s) => match &s.inner {
                VarDeclStmtInner::Decl(d) => self.handle_local_var_decl(d),
                VarDeclStmtInner::Def(d) => self.handle_local_var_def(d),
            },
            CodeBlockStmtInner::Call(s) => self.handle_call_stmt(s),
            CodeBlockStmtInner::If(s) => self.handle_if_stmt(s, con_label, bre_label),
            CodeBlockStmtInner::While(s) => self.handle_while_stmt(s),
            CodeBlockStmtInner::For(s) => self.handle_for_stmt(s, con_label, bre_label),
            CodeBlockStmtInner::Return(s) => self.handle_return_stmt(s),
            CodeBlockStmtInner::Continue(_) => self.handle_continue_stmt(con_label),
            CodeBlockStmtInner::Break(_) => self.handle_break_stmt(bre_label),
            CodeBlockStmtInner::Null(_) => Ok(()),
        }
    }

    /// Lowers the statements of a list in order.
    fn handle_stmts(
        &mut self,
        list: &Vec<CodeBlockStmt>,
        con_label: Option<&BlockLabel>,
        bre_label: Option<&BlockLabel>,
    ) -> (res: Result<(), Error>)
        requires
            feasible(
                old(self)@.stmts(
                    *list,
                    list@.len(),
                    optional_label(con_label),
                    optional_label(bre_label),
                ),
            ),
        ensures
            final(self)@ == old(self)@.stmts(
                *list,
                list@.len(),
                optional_label(con_label),
                optional_label(bre_label),
            ).0,
            ends(
                res,
                old(self)@.stmts(
                    *list,
                    list@.len(),
                    optional_label(con_label),
                    optional_label(bre_label),
                ).1,
            ),
        decreases list, list@.len(),
    {
        let ghost before = self@;
        let ghost con = optional_label(con_label);
        let ghost bre = optional_label(bre_label);
        let mut i: usize = 0;
        while i < list.len()
            invariant
                before == old(self)@,
                con == optional_label(con_label),
                bre == optional_label(bre_label),
                i <= list.len(),
                feasible(before.stmts(*list, list@.len(), con, bre)),
                before.stmts(*list, i as nat, con, bre) == (self@, Ok::<(), Fault>(())),
            decreases list.len() - i,
        {
            proof {
                crate::ir::gen::growth::lemma_stmts_part(
                    before,
                    *list,
                    (i + 1) as nat,
                    list@.len(),
                    con,
                    bre,
                );
                assert(decreases_to!(list => list[i as int]));
            }
            match self.handle_block(&list[i], con_label, bre_label) {
                Ok(_) => {},
                Err(e) => return Err(e),
            }
            i += 1;
        }
        Ok(())
    }

    /// Lowers the statements of a list in a scope of their own, so that any
    /// locals are cleaned up.
    fn handle_scoped_stmts(
        &mut self,
        list: &Vec<CodeBlockStmt>,
        con_label: Option<&BlockLabel>,
        bre_label: Option<&BlockLabel>,
    ) -> (res: Result<(), Error>)
        requires
            feasible(
                old(self)@.scoped(*list, optional_label(con_label), optional_label(bre_label)),
            ),
        ensures
            final(self)@ == old(self)@.scoped(
                *list,
                optional_label(con_label),
                optional_label(bre_label),
            ).0,
            ends(
                res,
                old(self)@.scoped(*list, optional_label(con_label), optional_label(bre_label)).1,
            ),
        decreases list, list@.len() + 1,
    {
        self.enter_scope();
        match self.handle_stmts(list, con_label, bre_label) {
            Ok(_) => {},
            Err(e) => return Err(e),
        }
        self.exit_scope();
        Ok(())
    }

    /// Lowers an `if` / `else` statement into branching IR.
    ///
    /// Allocates three basic blocks (`true_label`, `false_label`, `after_label`)
    /// and emits a conditional branch on the boolean condition.  Both the
    /// then-branch and the (possibly absent) else-branch jump to `after_label`
    /// when they finish.
    ///
    /// `con_label` and `bre_label` are threaded through to nested statements so
    /// that `continue` / `break` inside the branches target the correct loop.
    #[verifier::rlimit(30)]
    pub fn handle_if_stmt(
        &mut self,
        stmt: &IfStmt,
        con_label: Option<&BlockLabel>,
        bre_label: Option<&BlockLabel>,
    ) -> (res: Result<(), Error>)
        requires
            feasible(
                old(self)@.conditional(
                    *stmt,
                    optional_label(con_label),
                    optional_label(bre_label),
                ),
            ),
        ensures
            final(self)@ == old(self)@.conditional(
                *stmt,
                optional_label(con_label),
                optional_label(bre_label),
            ).0,
            ends(
                res,
                old(self)@.conditional(
                    *stmt,
                    optional_label(con_label),
                    optional_label(bre_label),
                ).1,
            ),
        decreases stmt, 0nat,
    {
        let ghost before = self@;
        proof {
            lemma_conditional_steps(
                before,
                *stmt,
                optional_label(con_label),
                optional_label(bre_label),
            );
        }
        let true_label = self.alloc_basic_block();
        let false_label = self.alloc_basic_block();
        let after_label = self.alloc_basic_block();
        assert(self@ == before.with_blocks(3));

        // Evaluate the condition; jump to the appropriate branch.
        match self.handle_bool_unit(&stmt.bool_unit, true_label.clone(), false_label.clone()) {
            Ok(_) => {},
            Err(e) => return Err(e),
        }

        // Emit the then-branch, then jump past the else-branch to the merge point.
        self.emit_label(true_label);
        match self.handle_scoped_stmts(&stmt.if_stmts, con_label, bre_label) {
            Ok(_) => {},
            Err(e) => return Err(e),
        }
        self.emit_jump(after_label.clone());

        // Emit the (possibly absent) else-branch.
        self.emit_label(false_label);
        match &stmt.else_stmts {
            Some(else_stmts) => {
                match self.handle_scoped_stmts(else_stmts, con_label, bre_label) {
                    Ok(_) => {},
                    Err(e) => return Err(e),
                }
            },
            None => {},
        }
        self.emit_jump(after_label.clone());

        // Merge point reached by both branches.
        self.emit_label(after_label);
        Ok(())
    }

    /// Lowers a `while` loop into branching IR.
    ///
    /// Structure:
    /// ```text
    ///   entry → test_label ←── back-edge
    ///                ↓ true        ↓ false
    ///           true_label    false_label
    /// ```
    /// `continue` inside the body targets `test_label`; `break` targets `false_label`.
    pub fn handle_while_stmt(&mut self, stmt: &WhileStmt) -> (res: Result<(), Error>)
        requires
            feasible(old(self)@.while_loop(*stmt)),
        ensures
            final(self)@ == old(self)@.while_loop(*stmt).0,
            ends(res, old(self)@.while_loop(*stmt).1),
        decreases stmt, 0nat,
    {
        let ghost before = self@;
        proof {
            let (test, body, behind) = (before.label(0), before.label(1), before.label(2));
            let g0 = before.with_blocks(3).emit(Inst::Jump { target: test }).emit(
                Inst::Label(test),
            );
            crate::ir::gen::growth::lemma_bool_unit(g0, stmt.bool_unit, body, behind);
            if let (g1, Ok(_)) = g0.bool_unit(stmt.bool_unit, body, behind) {
                crate::ir::gen::growth::lemma_scoped(
                    g1.emit(Inst::Label(body)),
                    stmt.stmts,
                    Some(test),
                    Some(behind),
                );
            }
        }
        let test_label = self.alloc_basic_block();
        let true_label = self.alloc_basic_block();
        let false_label = self.alloc_basic_block();
        assert(self@ == before.with_blocks(3));

        // Jump unconditionally into the loop test from the predecessor block.
        self.emit_jump(test_label.clone());

        // Emit the loop condition test.
        self.emit_label(test_label.clone());
        match self.handle_bool_unit(&stmt.bool_unit, true_label.clone(), false_label.clone()) {
            Ok(_) => {},
            Err(e) => return Err(e),
        }

        // Loop body; `continue` → test_label, `break` → false_label.
        self.emit_label(true_label);
        match self.handle_scoped_stmts(&stmt.stmts, Some(&test_label), Some(&false_label)) {
            Ok(_) => {},
            Err(e) => return Err(e),
        }
        // Back-edge: jump back to the loop condition.
        self.emit_jump(test_label);

        self.emit_label(false_label);
        Ok(())
    }

    /// Lowers one side of a `for i in start..end` range to an i32 value.
    fn handle_range_bound(&mut self, bound: &RangeBound) -> (res: Result<Operand, Error>)
        requires
            feasible(old(self)@.bound(*bound)),
        ensures
            final(self)@ == old(self)@.bound(*bound).0,
            gives(res, old(self)@.bound(*bound).1),
    {
        let value = match &bound.inner {
            RangeBoundInner::ArithExpr(expr) => match self.handle_arith_expr(expr) {
                Ok(value) => value,
                Err(e) => return Err(e),
            },
            RangeBoundInner::FnCall(fn_call) => match self.lower_fn_call(fn_call) {
                Ok(Some(value)) => value,
                Ok(None) => {
                    let copy: FnCall = (&**fn_call).clone();
                    let expr_unit = ExprUnit {
                        pos: bound.pos,
                        inner: ExprUnitInner::FnCall(Box::new(copy)),
                    };
                    return Err(Error::InvalidExprUnit { expr_unit });
                },
                Err(e) => return Err(e),
            },
            RangeBoundInner::Num(num) => Operand::from(*num),
            RangeBoundInner::Id(id) => {
                let operand = match self.lookup_variable(id.as_str()) {
                    Ok(operand) => operand,
                    Err(e) => return Err(e),
                };
                self.load_scalar_operand(operand)
            },
        };
        self.coerce_operand(value, &Dtype::I32)
    }

    /// Lowers a `for` loop statement.
    pub fn handle_for_stmt(
        &mut self,
        stmt: &ForStmt,
        _con_label: Option<&BlockLabel>,
        _bre_label: Option<&BlockLabel>,
    ) -> (res: Result<(), Error>)
        requires
            feasible(old(self)@.for_loop(*stmt)),
        ensures
            final(self)@ == old(self)@.for_loop(*stmt).0,
            ends(res, old(self)@.for_loop(*stmt).1),
        decreases stmt, 1nat,
    {
        proof {
            if let (g1, Ok(start)) = old(self)@.bound(stmt.start) {
                crate::ir::gen::growth::lemma_bound(g1, stmt.end);
                if let (g2, Ok(end)) = g1.bound(stmt.end) {
                    crate::ir::gen::growth::lemma_counted_loop(g2, *stmt, start, end);
                }
            }
        }
        let start = match self.handle_range_bound(&stmt.start) {
            Ok(start) => start,
            Err(e) => return Err(e),
        };
        let end = match self.handle_range_bound(&stmt.end) {
            Ok(end) => end,
            Err(e) => return Err(e),
        };
        self.handle_counted_loop(stmt, start, end)
    }

    /// Lowers the loop of a `for` statement whose bounds have been evaluated.
    fn handle_counted_loop(&mut self, stmt: &ForStmt, start: Operand, end: Operand) -> (res: Result<
        (),
        Error,
    >)
        requires
            feasible(old(self)@.counted_loop(*stmt, start@, end@)),
        ensures
            final(self)@ == old(self)@.counted_loop(*stmt, start@, end@).0,
            ends(res, old(self)@.counted_loop(*stmt, start@, end@).1),
        decreases stmt, 0nat,
    {
        let ghost before = self@;
        let ghost g0 = before.with_blocks(4);
        proof {
            lemma_counted_loop_steps(before, *stmt, start@, end@);
        }
        let test_label = self.alloc_basic_block();
        let body_label = self.alloc_basic_block();
        let step_label = self.alloc_basic_block();
        let exit_label = self.alloc_basic_block();
        assert(self@ == g0);

        let (iter_slot, end_slot) = match self.emit_for_head(
            stmt.iterator.as_str(),
            start,
            end,
            test_label.clone(),
        ) {
            Ok(slots) => slots,
            Err(e) => return Err(e),
        };
        self.emit_for_test(&iter_slot, &end_slot, body_label.clone(), exit_label.clone());

        self.emit_label(body_label);
        match self.handle_scoped_stmts(&stmt.stmts, Some(&step_label), Some(&exit_label)) {
            Ok(_) => {},
            Err(e) => return Err(e),
        }
        self.emit_jump(step_label.clone());

        self.emit_label(step_label);
        self.emit_for_step(&iter_slot);
        self.emit_jump(test_label);

        self.emit_label(exit_label);
        self.exit_scope();
        Ok(())
    }

    /// Opens the scope of a `for` loop, reserves and fills the slots of the
    /// iterator and the end, and enters the test.  Returns the two slots.
    fn emit_for_head(
        &mut self,
        iterator: &str,
        start: Operand,
        end: Operand,
        test_label: BlockLabel,
    ) -> (res: Result<(Local, Local), Error>)
        requires
            feasible(old(self)@.for_head(iterator@, start@, end@, test_label@)),
        ensures
            final(self)@ == old(self)@.for_head(iterator@, start@, end@, test_label@).0,
            match (res, old(self)@.for_head(iterator@, start@, end@, test_label@).1) {
                (Ok(slots), Ok(vals)) => Val::Local(slots.0@) == vals.0 && Val::Local(slots.1@)
                    == vals.1,
                (Err(e), Err(fault)) => e.reports(fault),
                _ => false,
            },
    {
        self.enter_scope();
        let iter_slot = self.allocate_pointer_local(Dtype::I32);
        match self.insert_scoped_local(iterator, iter_slot.clone()) {
            Ok(_) => {},
            Err(e) => return Err(e),
        }
        self.emit_store(start, Operand::from(&iter_slot));

        let end_slot = self.allocate_pointer_local(Dtype::I32);
        self.emit_store(end, Operand::from(&end_slot));

        self.emit_jump(test_label.clone());
        self.emit_label(test_label);
        Ok((iter_slot, end_slot))
    }

    /// Emits the test of a `for` loop: into the body while the iterator is
    /// below the end, else behind the loop.
    fn emit_for_test(
        &mut self,
        iter_slot: &Local,
        end_slot: &Local,
        body_label: BlockLabel,
        exit_label: BlockLabel,
    )
        requires
            old(self)@.for_test(
                Val::Local(iter_slot@),
                Val::Local(end_slot@),
                body_label@,
                exit_label@,
            ).fits(),
        ensures
            final(self)@ == old(self)@.for_test(
                Val::Local(iter_slot@),
                Val::Local(end_slot@),
                body_label@,
                exit_label@,
            ),
    {
        let iter_val = Operand::from(self.fresh_local(Dtype::I32));
        self.emit_load(iter_val.clone(), Operand::from(iter_slot));
        let end_val = Operand::from(self.fresh_local(Dtype::I32));
        self.emit_load(end_val.clone(), Operand::from(end_slot));
        let cond = Operand::from(self.fresh_local(Dtype::I1));
        self.emit_cmp(CmpPredicate::Slt, iter_val, end_val, cond.clone());
        self.emit_cjump(cond, body_label, exit_label);
    }

    /// Emits the step of a `for` loop: the iterator goes up by one.
    fn emit_for_step(&mut self, iter_slot: &Local)
        requires
            old(self)@.for_step(Val::Local(iter_slot@)).fits(),
        ensures
            final(self)@ == old(self)@.for_step(Val::Local(iter_slot@)),
    {
        let iter_current = Operand::from(self.fresh_local(Dtype::I32));
        self.emit_load(iter_current.clone(), Operand::from(iter_slot));
        let iter_next = Operand::from(self.fresh_local(Dtype::I32));
        self.emit_biop(ArithBinOp::Add, iter_current, Operand::from(1i32), iter_next.clone());
        self.emit_store(iter_next, Operand::from(iter_slot));
    }
}

// -----------------------------------------------------------------------
// Function entry-point generation
// -----------------------------------------------------------------------

impl<'ir> FunctionGenerator<'ir> {
    /// Takes over one argument: allocates the register that carries its value
    /// and, unless it is a method's receiver, a stack slot that it is stored to.
    fn handle_parameter(&mut self, id: &String, dtype: &Dtype) -> (res: Result<(), Error>)
        requires
            feasible(old(self)@.parameter(Param { name: id@, ty: dtype@ })),
        ensures
            final(self)@ == old(self)@.parameter(Param { name: id@, ty: dtype@ }).0,
            ends(res, old(self)@.parameter(Param { name: id@, ty: dtype@ }).1),
    {
        reveal_with_fuel(Dtype::ty, 2);
        let ghost before = self@;
        if self.local_variables.contains_key(id.as_str()) {
            return Err(Error::VariableRedefinition { symbol: id.clone() });
        }

        // Allocate a virtual register that carries the incoming argument value.
        let arg_local = self.fresh_local(dtype.clone());
        self.arguments.push(arg_local.clone());
        assert(self@.args =~= before.args.push(arg_local@));

        // The `self` parameter of a method is a struct pointer already; a slot
        // of its own would put the base of `self.field` one level too deep.
        let points_to_struct = match dtype {
            Dtype::Pointer { pointee } => match &**pointee {
                Dtype::Struct { name } => true,
                _ => false,
            },
            _ => false,
        };
        let ghost taken = self@;
        if same_name(id.as_str(), "self") && points_to_struct {
            self.local_variables.insert(id.clone(), arg_local);
            assert(self@.locals =~= before.locals.insert(id@, arg_local@));
            return Ok(());
        }

        // Allocate a stack slot (pointer to the argument type) for the argument.
        let slot = self.fresh_local(Dtype::ptr_to(dtype.clone()));
        self.emit_alloca(Operand::from(&slot));
        // Store the incoming value into the newly allocated stack slot.
        self.emit_store(Operand::from(arg_local), Operand::from(&slot));
        let ghost spilled = self@;
        self.local_variables.insert(id.clone(), slot);
        assert(self@.locals =~= spilled.locals.insert(id@, slot@));
        Ok(())
    }

    /// Takes over every argument in order.
    fn handle_parameters(&mut self, function_type: &FunctionType) -> (res: Result<(), Error>)
        requires
            feasible(
                old(self)@.parameters(function_type@.params, function_type@.params.len()),
            ),
        ensures
            final(self)@ == old(self)@.parameters(
                function_type@.params,
                function_type@.params.len(),
            ).0,
            ends(
                res,
                old(self)@.parameters(function_type@.params, function_type@.params.len()).1,
            ),
    {
        let ghost before = self@;
        let ghost params = function_type@.params;
        let mut i: usize = 0;
        while i < function_type.arguments.len()
            invariant
                i <= function_type.arguments.len(),
                before == old(self)@,
                params == function_type@.params,
                feasible(before.parameters(params, params.len())),
                before.parameters(params, i as nat) == (self@, Ok::<(), Fault>(())),
            decreases function_type.arguments.len() - i,
        {
            proof {
                crate::ir::gen::growth::lemma_parameters_part(
                    before,
                    params,
                    (i + 1) as nat,
                    params.len(),
                );
            }
            match self.handle_parameter(
                &function_type.arguments[i].0,
                &function_type.arguments[i].1,
            ) {
                Ok(_) => {},
                Err(e) => return Err(e),
            }
            i += 1;
        }
        Ok(())
    }

    /// Appends an implicit return if the last instruction is not already a
    /// return.
    fn append_return(&mut self, identifier: &String, return_dtype: &Dtype) -> (res: Result<
        (),
        Error,
    >)
        requires
            feasible(old(self)@.returned(identifier@, return_dtype@)),
        ensures
            final(self)@ == old(self)@.returned(identifier@, return_dtype@).0,
            ends(res, old(self)@.returned(identifier@, return_dtype@).1),
    {
        let val = match return_dtype {
            Dtype::I32 => Some(Operand::from(0i32)),
            Dtype::F32 => Some(Operand::Float(0)),
            Dtype::Void => None,
            other => {
                return Err(
                    Error::UnsupportedReturnType {
                        symbol: identifier.clone(),
                        dtype: other.clone(),
                    },
                );
            },
        };
        if self.irs.len() > 0 {
            let ends_in_return = match &self.irs[self.irs.len() - 1].inner {
                StmtInner::Return(_) => true,
                _ => false,
            };
            assert(ends_in_return == (self@.code.last() is Return));
            if !ends_in_return {
                self.emit_return(val);
            }
        }
        Ok(())
    }

    /// Generates IR for a complete function definition.
    ///
    /// Emits the function entry label, allocates stack slots for every argument
    /// (alloca + store pattern), lowers each statement in the body, and appends
    /// an implicit return if the last instruction is not already a `return`.
    ///
    /// # Parameters
    /// - `from`: the AST node for the function being compiled.
    ///
    /// # Errors
    /// Returns an error if the function is not registered in the type registry,
    /// an argument name is redefined, or the return type is unsupported, and
    /// any error of the body.
    pub fn generate(&mut self, from: &FnDef) -> (res: Result<(), Error>)
        requires
            feasible(old(self)@.function(*from)),
        ensures
            final(self)@ == old(self)@.function(*from).0,
            ends(res, old(self)@.function(*from).1),
    {
        let ghost before = self@;
        let identifier = &from.fn_decl.identifier;
        let registry = self.registry;
        self.current_impl_type = impl_type_from_function_name(identifier.as_str(), registry);
        assert(self@ == (GenState {
            impl_type: before.impl_type_of(identifier@),
            ..before
        }));
        let function_type = match registry.function_types.get(identifier.as_str()) {
            Some(function_type) => function_type,
            None => return Err(Error::FunctionNotDefined { symbol: identifier.clone() }),
        };
        let ghost sig = function_type@;
        assert(before.env.functions[identifier@] == sig);
        self.current_return_dtype = Some(function_type.return_dtype.clone());
        // The entry label is the function's link name so that the IR's
        // entry-block label matches the `@symbol` emitted by the printer.
        let entry_label = self.resolve_link_name(identifier.as_str());
        self.emit_label(BlockLabel::Function(entry_label));
        assert(self@ == before.entered(identifier@, sig.ret));
        proof {
            let (g, _) = self@.parameters(sig.params, sig.params.len());
            crate::ir::gen::growth::lemma_stmts(g, from.stmts, from.stmts@.len(), None, None);
        }

        // Spill every argument to the stack (alloca + store) so they are addressable.
        match self.handle_parameters(function_type) {
            Ok(_) => {},
            Err(e) => return Err(e),
        }

        // Lower the function body statement by statement.
        match self.handle_stmts(&from.stmts, None, None) {
            Ok(_) => {},
            Err(e) => return Err(e),
        }

        self.append_return(identifier, &function_type.return_dtype)
    }
}

/// Where an `if` can be lowered, so can its parts.
proof fn lemma_conditional_steps(
    g: GenState,
    s: IfStmt,
    con: Option<Lbl>,
    bre: Option<Lbl>,
)
    requires
        feasible(g.conditional(s, con, bre)),
    ensures
        ({
            let (t, f, after) = (g.label(0), g.label(1), g.label(2));
            let cond = g.with_blocks(3).bool_unit(s.bool_unit, t, f);
            &&& g.with_blocks(3).fits()
            &&& feasible(cond)
            &&& cond.1 is Ok ==> {
                let then = cond.0.emit(Inst::Label(t)).scoped(s.if_stmts, con, bre);
                &&& feasible(then)
                &&& then.1 is Ok ==> (s.else_stmts matches Some(list) ==> feasible(
                    then.0.emit(Inst::Jump { target: after }).emit(Inst::Label(f)).scoped(
                        list,
                        con,
                        bre,
                    ),
                ))
            }
        }),
{
    let (t, f, after) = (g.label(0), g.label(1), g.label(2));
    crate::ir::gen::growth::lemma_bool_unit(g.with_blocks(3), s.bool_unit, t, f);
    if let (g1, Ok(_)) = g.with_blocks(3).bool_unit(s.bool_unit, t, f) {
        let g2 = g1.emit(Inst::Label(t));
        crate::ir::gen::growth::lemma_scoped(g2, s.if_stmts, con, bre);
        if let (g3, Ok(_)) = g2.scoped(s.if_stmts, con, bre) {
            let g4 = g3.emit(Inst::Jump { target: after }).emit(Inst::Label(f));
            if let Some(list) = s.else_stmts {
                crate::ir::gen::growth::lemma_scoped(g4, list, con, bre);
            }
        }
    }
}

/// Where a counted loop can be lowered, so can its parts.
proof fn lemma_counted_loop_steps(g: GenState, s: ForStmt, start: Val, end: Val)
    requires
        feasible(g.counted_loop(s, start, end)),
    ensures
        ({
            let (test, body, step, behind) = (g.label(0), g.label(1), g.label(2), g.label(3));
            let head = g.with_blocks(4).for_head(s.iterator@, start, end, test);
            &&& g.with_blocks(4).fits()
            &&& feasible(head)
            &&& head.1 matches Ok((iter, limit)) ==> {
                let g1 = head.0.for_test(iter, limit, body, behind);
                let inner = g1.emit(Inst::Label(body)).scoped(s.stmts, Some(step), Some(behind));
                &&& g1.fits()
                &&& feasible(inner)
                &&& inner.1 is Ok ==> inner.0.emit(Inst::Jump { target: step }).emit(
                    Inst::Label(step),
                ).for_step(iter).fits()
            }
        }),
{
    let (test, body, step, behind) = (g.label(0), g.label(1), g.label(2), g.label(3));
    let g0 = g.with_blocks(4);
    crate::ir::gen::growth::lemma_for_head(g0, s.iterator@, start, end, test);
    if let (g1, Ok((iter, limit))) = g0.for_head(s.iterator@, start, end, test) {
        crate::ir::gen::growth::lemma_for_test(g1, iter, limit, body, behind);
        let g2 = g1.for_test(iter, limit, body, behind).emit(Inst::Label(body));
        crate::ir::gen::growth::lemma_scoped(g2, s.stmts, Some(step), Some(behind));
        if let (g3, Ok(_)) = g2.scoped(s.stmts, Some(step), Some(behind)) {
            let g4 = g3.emit(Inst::Jump { target: step }).emit(Inst::Label(step));
            crate::ir::gen::growth::lemma_for_step(g4, iter);
        }
    }
}

/// Whether the operand is an array, or points to one.
fn is_array_or_pointer_to_array(operand: &Operand) -> (is_array: bool)
    ensures
        is_array == (operand@.ty().element() is Some),
{
    reveal_with_fuel(Dtype::ty, 2);
    match operand.dtype() {
        Dtype::Pointer { pointee } => match *pointee {
            Dtype::Array { element, length } => true,
            _ => false,
        },
        Dtype::Array { element, length } => true,
        _ => false,
    }
}

/// The position of the first member of that name.
fn find_member(struct_type: &StructType, name: &str) -> (at: Option<usize>)
    ensures
        match at {
            Some(i) => i < struct_type.elements.len()
                && crate::ir::gen::scheme::member_named(struct_type@, name@) == Some(
                struct_type@[i as int],
            ),
            None => crate::ir::gen::scheme::member_named(struct_type@, name@) is None,
        },
{
    let mut i: usize = 0;
    assert(struct_type@.skip(0) =~= struct_type@);
    while i < struct_type.elements.len()
        invariant
            i <= struct_type.elements.len(),
            crate::ir::gen::scheme::member_named(struct_type@, name@)
                == crate::ir::gen::scheme::member_named(struct_type@.skip(i as int), name@),
        decreases struct_type.elements.len() - i,
    {
        assert(struct_type@.skip(i as int).drop_first() =~= struct_type@.skip(i + 1));
        if same_name(struct_type.elements[i].0.as_str(), name) {
            return Some(i);
        }
        i += 1;
    }
    None
}

/// What a step asks of its state: only that it is no trap, and that the counters
/// it leaves are machine numbers.  It may well end in an error.
pub proof fn law_feasible_steps<T>(out: Lowered<T>)
    ensures
        feasible(out) <==> out.0.vregs <= usize::MAX && out.0.blocks <= usize::MAX && (out.1 is Ok
            || out.1->Err_0 != Fault::Trap),
{
}

/// A result is a value exactly where the outcome is one, and then the same; and
/// it is an error exactly where the outcome is a fault, and then reports it.
pub proof fn law_results_match(
    value: Result<Operand, Error>,
    optional: Result<Option<Operand>, Error>,
    pair: Result<(Operand, Operand, Dtype), Error>,
    nothing: Result<(), Error>,
    v: Result<Val, Fault>,
    o: Result<Option<Val>, Fault>,
    p: Result<(Val, Val, Ty), Fault>,
    n: Result<(), Fault>,
)
    ensures
        gives(value, v) ==> (value is Ok <==> v is Ok) && (v matches Ok(w) ==> value->Ok_0@ == w)
            && (v matches Err(fault) ==> value->Err_0.reports(fault)),
        gives_optional(optional, o) ==> (optional is Ok <==> o is Ok) && (o matches Ok(w) ==> (w
            is Some <==> optional->Ok_0 is Some) && (w matches Some(x) ==> optional->Ok_0->Some_0@
            == x)) && (o matches Err(fault) ==> optional->Err_0.reports(fault)),
        gives_pair(pair, p) ==> (pair is Ok <==> p is Ok) && (p matches Ok((l, r, ty))
            ==> pair->Ok_0.0@ == l && pair->Ok_0.1@ == r && pair->Ok_0.2@ == ty) && (p matches Err(
            fault,
        ) ==> pair->Err_0.reports(fault)),
        ends(nothing, n) ==> (nothing is Ok <==> n is Ok) && (n matches Err(fault)
            ==> nothing->Err_0.reports(fault)),
{
}

/// A label that is given is passed on as it is, and none as none.
pub proof fn law_optional_label(label: Option<&BlockLabel>)
    ensures
        label is None ==> optional_label(label) is None,
        label matches Some(l) ==> optional_label(label) == Some(l@),
{
}

} // verus!
