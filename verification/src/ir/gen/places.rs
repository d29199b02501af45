//! What names, members, elements and conversions come to: which address a place
//! has, and which instruction reads it.

use crate::ast::expr::{
    ArithBiOp, ArrayExpr, ExprUnit, ExprUnitInner, IndexExpr, IndexExprInner, LeftVal,
    LeftValInner, MemberExpr, RightVal, RightValInner,
};
use crate::ir::error::Fault;
use crate::ir::function::GenState;
use crate::ir::registry::Field;
use crate::ir::stmt::{ArithBinOp, FloatBinOp, Inst};
use crate::ir::types::Ty;
use crate::ir::value::{Reg, Val};
use vstd::prelude::*;

verus! {

// -----------------------------------------------------------------------
// Names
// -----------------------------------------------------------------------

/// A name stands for the local of that name; where there is none, for the
/// global; and where there is none either, it is reported as unknown.
pub proof fn law_name_resolved(g: GenState, name: Seq<char>)
    ensures
        match g.variable(name) {
            Ok(Val::Local(reg)) => g.locals.contains_key(name) && reg == g.locals[name],
            Ok(Val::Global { name: global, ty }) => {
                &&& !g.locals.contains_key(name)
                &&& g.env.globals.contains_key(name)
                &&& global == name
                &&& ty == g.env.globals[name]
            },
            Ok(_) => false,
            Err(fault) => {
                &&& fault == Fault::VariableNotDefined(name)
                &&& !g.locals.contains_key(name)
                &&& !g.env.globals.contains_key(name)
            },
        },
{
}

/// A name that is introduced stands for its register from then on, and every
/// other name for what it stood for.  It fails exactly on a name that is known,
/// and reports that name.
pub proof fn law_name_introduced(g: GenState, name: Seq<char>, reg: Reg, other: Seq<char>)
    ensures
        g.bind(name, reg).1 is Ok <==> !g.locals.contains_key(name),
        g.bind(name, reg).1 matches Err(fault) ==> fault == Fault::VariableRedefinition(name),
        g.bind(name, reg).0.variable(name) == Ok::<Val, Fault>(Val::Local(reg)),
        other != name ==> g.bind(name, reg).0.variable(other) == g.variable(other),
        g.bind(name, reg).0.code == g.code,
{
}

/// The symbol of a function is the one that it is linked under, if there is
/// one, and else its name.
pub proof fn law_symbol_of_function(g: GenState, name: Seq<char>)
    ensures
        g.env.links.contains_key(name) ==> g.link_name(name) == g.env.links[name],
        !g.env.links.contains_key(name) ==> g.link_name(name) == name,
{
}

/// The struct of a method can be read off the method's name: it is what stands
/// before the last `::`.
pub proof fn law_method_belongs_to_struct(impl_name: Seq<char>, method: Seq<char>)
    requires
        forall|i: int| !#[trigger] crate::ir::gen::scheme::separator_at(method, i),
        method.len() == 0 || method[0] != ':',
    ensures
        crate::ir::gen::scheme::path_head(
            crate::ir::gen::scheme::method_path(impl_name, method),
        ) == Some(impl_name),
{
    reveal_strlit("::");
    let path = crate::ir::gen::scheme::method_path(impl_name, method);
    let n = impl_name.len() as int;
    assert(path.len() == n + 2 + method.len());
    assert(path[n] == ':' && path[n + 1] == ':');
    assert(crate::ir::gen::scheme::separator_at(path, n));
    assert forall|j: int| crate::ir::gen::scheme::separator_at(path, j) implies j <= n by {
        if j == n + 1 {
            assert(path[n + 2] == method[0]);
        } else if j > n + 1 {
            assert(path[j] == method[j - n - 2]);
            assert(path[j + 1] == method[j - n - 1]);
            assert(crate::ir::gen::scheme::separator_at(method, j - n - 2));
        }
    }
    let last = choose|i: int|
        crate::ir::gen::scheme::separator_at(path, i) && forall|j: int|
            crate::ir::gen::scheme::separator_at(path, j) ==> j <= i;
    assert(last == n);
    assert(path.take(n) =~= impl_name);
}

/// What stands before the last `::` of a name is followed by it, and no `::`
/// stands further behind; a name without `::` has no such part.
pub proof fn law_path_head(name: Seq<char>)
    ensures
        match crate::ir::gen::scheme::path_head(name) {
            Some(head) => {
                &&& head.len() + 2 <= name.len()
                &&& head == name.take(head.len() as int)
                &&& name[head.len() as int] == ':'
                &&& name[head.len() as int + 1] == ':'
                &&& forall|j: int|
                    head.len() < j && j + 1 < name.len() ==> !(#[trigger] name[j] == ':' && name[j
                        + 1] == ':')
            },
            None => forall|j: int|
                0 <= j && j + 1 < name.len() ==> !(#[trigger] name[j] == ':' && name[j + 1] == ':'),
        },
{
    if exists|i: int| crate::ir::gen::scheme::separator_at(name, i) {
        let some = choose|i: int| crate::ir::gen::scheme::separator_at(name, i);
        lemma_last_separator(name, some, name.len() as int);
        let last = choose|i: int|
            crate::ir::gen::scheme::separator_at(name, i) && forall|j: int|
                crate::ir::gen::scheme::separator_at(name, j) ==> j <= i;
        assert(crate::ir::gen::scheme::separator_at(name, last));
        assert forall|j: int| last < j && j + 1 < name.len() implies !(#[trigger] name[j] == ':'
            && name[j + 1] == ':') by {
            assert(!crate::ir::gen::scheme::separator_at(name, j));
        }
    } else {
        assert forall|j: int| 0 <= j && j + 1 < name.len() implies !(#[trigger] name[j] == ':'
            && name[j + 1] == ':') by {
            assert(!crate::ir::gen::scheme::separator_at(name, j));
        }
    }
}

proof fn lemma_last_separator(name: Seq<char>, some: int, end: int)
    requires
        crate::ir::gen::scheme::separator_at(name, some),
        some <= end,
        forall|j: int| crate::ir::gen::scheme::separator_at(name, j) ==> j <= end,
    ensures
        exists|i: int|
            crate::ir::gen::scheme::separator_at(name, i) && forall|j: int|
                crate::ir::gen::scheme::separator_at(name, j) ==> j <= i,
    decreases end - some,
{
    if crate::ir::gen::scheme::separator_at(name, end) {
    } else {
        lemma_last_separator(name, some, end - 1);
    }
}

// -----------------------------------------------------------------------
// Addresses
// -----------------------------------------------------------------------

/// The address of a variable is what its name stands for; no code is needed.
pub proof fn law_place_of_name(g: GenState, l: LeftVal)
    requires
        l.inner is Id,
    ensures
        g.left(l) == (g, g.variable(l.inner->Id_0@)),
{
}

/// An element or a member has the same address as a place that it has as a
/// value before it is loaded.
pub proof fn law_place_of_part(g: GenState, l: LeftVal)
    ensures
        l.inner matches LeftValInner::ArrayExpr(e) ==> g.left(l) == g.array(*e),
        l.inner matches LeftValInner::MemberExpr(e) ==> g.left(l) == g.member(*e),
{
}

/// A value is of the struct that its type names, or that its type points to.
pub proof fn law_struct_of_type(ty: Ty)
    ensures
        match ty.struct_name() {
            Some(name) => ty == Ty::Struct(name) || ty == Ty::Struct(name).ptr(),
            None => !(ty is Struct) && !(ty is Pointer && ty.stored() is Struct),
        },
        ty is Pointer ==> ty == ty.stored().ptr(),
        !(ty is Pointer) ==> ty.stored() == ty,
        ty.element() matches Some(element) ==> ty.stored() is Array && *(ty.stored()->Array_0)
            == element,
        ty.element() is None ==> !(ty.stored() is Array),
{
}

/// A member that is found is the first of that name, and one that is not found
/// is not there.
pub proof fn law_member_is_first(fields: Seq<Field>, name: Seq<char>)
    ensures
        match crate::ir::gen::scheme::member_named(fields, name) {
            Some(field) => exists|i: int|
                {
                    &&& 0 <= i < fields.len()
                    &&& #[trigger] fields[i] == field
                    &&& field.name == name
                    &&& forall|j: int| 0 <= j < i ==> (#[trigger] fields[j]).name != name
                },
            None => forall|j: int| 0 <= j < fields.len() ==> (#[trigger] fields[j]).name != name,
        },
    decreases fields.len(),
{
    if fields.len() > 0 {
        let rest = fields.drop_first();
        if fields[0].name != name {
            law_member_is_first(rest, name);
            if let Some(field) = crate::ir::gen::scheme::member_named(rest, name) {
                let i = choose|i: int|
                    {
                        &&& 0 <= i < rest.len()
                        &&& #[trigger] rest[i] == field
                        &&& field.name == name
                        &&& forall|j: int| 0 <= j < i ==> (#[trigger] rest[j]).name != name
                    };
                assert(fields[i + 1] == field);
                assert forall|j: int| 0 <= j < i + 1 implies (#[trigger] fields[j]).name != name by {
                    if j > 0 {
                        assert(rest[j - 1] == fields[j]);
                    }
                }
            } else {
                assert forall|j: int| 0 <= j < fields.len() implies (#[trigger] fields[j]).name
                    != name by {
                    if j > 0 {
                        assert(rest[j - 1] == fields[j]);
                    }
                }
            }
        }
    }
}

proof fn lemma_member_at(fields: Seq<Field>, name: Seq<char>, i: int)
    requires
        0 <= i < fields.len(),
        fields[i].name == name,
        forall|j: int| 0 <= j < i ==> (#[trigger] fields[j]).name != name,
    ensures
        crate::ir::gen::scheme::member_named(fields, name) == Some(fields[i]),
    decreases i,
{
    if i > 0 {
        let rest = fields.drop_first();
        assert(fields[0].name != name);
        assert forall|j: int| 0 <= j < i - 1 implies (#[trigger] rest[j]).name != name by {
            assert(rest[j] == fields[j + 1]);
        }
        lemma_member_at(rest, name, i - 1);
    }
}

/// The address of `s.m`, where `m` is the first member of that name, at position
/// `i` of the struct that `s` is: the address of `s`, moved on by the index that
/// the member was declared with.  That is the only instruction it adds, and the
/// result points to the type of the member.
pub proof fn law_member_addressed(g: GenState, e: MemberExpr, type_id: Seq<char>, i: int)
    requires
        g.left(*e.struct_id).1 is Ok,
        g.left(*e.struct_id).1->Ok_0.ty() == Ty::Struct(type_id) || g.left(
            *e.struct_id,
        ).1->Ok_0.ty() == Ty::Struct(type_id).ptr(),
        g.env.structs.contains_key(type_id),
        0 <= i < g.env.structs[type_id].len(),
        g.env.structs[type_id][i].name == e.member_id@,
        forall|j: int|
            0 <= j < i ==> (#[trigger] g.env.structs[type_id][j]).name != e.member_id@,
        g.env.structs[type_id][i].index <= i32::MAX,
        !(g.env.structs[type_id][i].ty is Void),
    ensures
        ({
            let (g1, s) = g.left(*e.struct_id);
            let field = g.env.structs[type_id][i];
            &&& g.member(e).1 matches Ok(address)
            &&& address.ty() == field.ty.ptr()
            &&& g.member(e).0.code == g1.code.push(
                Inst::Gep {
                    new_ptr: address,
                    base_ptr: s->Ok_0,
                    index: Val::Int(field.index as i32),
                },
            )
        }),
{
    crate::ir::gen::growth::lemma_left(g, *e.struct_id);
    lemma_member_at(g.env.structs[type_id], e.member_id@, i);
}

/// Two members of one value that were declared with different indices are at
/// different distances from its address.
pub proof fn law_members_apart(g: GenState, a: MemberExpr, b: MemberExpr)
    requires
        a.struct_id == b.struct_id,
        g.member(a).1 is Ok,
        g.member(b).1 is Ok,
    ensures
        ({
            let s = g.left(*a.struct_id).1->Ok_0.ty();
            let g1 = g.left(*a.struct_id).0;
            let m = g1.member_of(s, a.member_id@)->Some_0;
            let n = g1.member_of(s, b.member_id@)->Some_0;
            let at = g.member(a).0.code.last();
            let bt = g.member(b).0.code.last();
            &&& at is Gep && bt is Gep
            &&& at->Gep_base_ptr == bt->Gep_base_ptr
            &&& m.index != n.index ==> at->Gep_index != bt->Gep_index
        }),
{
}

/// A member access is rejected, with the whole access reported, exactly where
/// its left side is a place but has no such member: it is no struct, or one that
/// is not declared, or one without a member of that name whose index is that of
/// an instruction and which is not void.
pub proof fn law_member_rejected(g: GenState, e: MemberExpr)
    ensures
        ({
            let (g1, s) = g.left(*e.struct_id);
            match s {
                Err(fault) => g.member(e) == (g1, Err::<Val, Fault>(fault)),
                Ok(s) => {
                    let found = s.ty().struct_name() matches Some(type_id)
                        && g.env.structs.contains_key(type_id) && (
                    crate::ir::gen::scheme::member_named(
                        g.env.structs[type_id],
                        e.member_id@,
                    ) matches Some(field) && field.index <= i32::MAX && !(field.ty is Void));
                    &&& found <==> g.member(e).1 is Ok
                    &&& !found ==> g.member(e) == (
                        g1,
                        Err::<Val, Fault>(Fault::InvalidStructMemberExpression(e)),
                    )
                },
            }
        }),
{
    crate::ir::gen::growth::lemma_left(g, *e.struct_id);
}

/// The base of an element access is the address of the array.  Where a variable
/// holds that address, it is read from the variable.
pub proof fn law_array_base(g: GenState, p: Val)
    ensures
        ({
            let (g1, base) = g.array_base(p);
            if p.ty() is Pointer && p.ty().stored() is Pointer {
                &&& base.ty() == p.ty().stored()
                &&& base == Val::Local(g.fresh(base.ty()))
                &&& g1.code == g.code.push(Inst::Load { dst: base, ptr: p })
                &&& g1.vregs == g.vregs + 1
            } else {
                base == p && g1 == g
            }
        }),
{
}

/// The address of `a[i]`: the base of the array, moved on by the value of the
/// index.  The result points to an element; behind a plain pointer, to what the
/// pointer points to.  What is neither array nor pointer is rejected, and faults
/// of the array and of the index are passed on.
pub proof fn law_element_addressed(g: GenState, e: ArrayExpr)
    ensures
        ({
            let (g1, p) = g.left(*e.arr);
            let (g2, base) = g1.array_base(p->Ok_0);
            let (g3, index) = g2.taken().index(*e.idx);
            let out = g.array(e);
            if p is Err {
                out == (g1, Err::<Val, Fault>(p->Err_0))
            } else if !(base.ty() is Pointer) && !(base.ty() is Array) {
                out == (g2, Err::<Val, Fault>(Fault::InvalidArrayExpression))
            } else if index is Err {
                out == (g3, Err::<Val, Fault>(index->Err_0))
            } else {
                &&& out.1 matches Ok(address)
                &&& address.ty() == match base.ty().stored() {
                    Ty::Array(element, _) => element.ptr(),
                    other => other.ptr(),
                }
                &&& address == Val::Local(g2.fresh(address.ty()))
                &&& out.0.code == g3.code.push(
                    Inst::Gep { new_ptr: address, base_ptr: base, index: index->Ok_0 },
                )
            }
        }),
{
}

/// An index: a literal is the number itself, and adds no code; the value of a
/// variable is read from the variable, as an `i32`.
pub proof fn law_index_value(g: GenState, e: IndexExpr)
    ensures
        match e.inner {
            IndexExprInner::Num(n) => {
                &&& g.index(e).0 == g
                &&& n <= i32::MAX ==> (g.index(e).1 matches Ok(Val::Int(k)) && k == n)
                &&& n > i32::MAX ==> g.index(e).1 == Err::<Val, Fault>(Fault::Trap)
            },
            IndexExprInner::Id(id) => match g.variable(id@) {
                Err(fault) => g.index(e) == (g, Err::<Val, Fault>(fault)),
                Ok(variable) => {
                    &&& g.index(e).1 matches Ok(value)
                    &&& value == Val::Local(g.fresh(Ty::I32))
                    &&& g.index(e).0.code == g.code.push(
                        Inst::Load { dst: value, ptr: variable },
                    )
                },
            },
        },
{
}

/// The address of an array, `&a`, is that of its element 0; it adds just the
/// instruction that computes it.
pub proof fn law_reference_addressed(g: GenState, name: Seq<char>)
    ensures
        match g.variable(name) {
            Err(fault) => g.reference(name) == (g, Err::<Val, Fault>(fault)),
            Ok(array) => match array.ty().element() {
                None => g.reference(name) == (
                    g,
                    Err::<Val, Fault>(Fault::InvalidReference(name)),
                ),
                Some(element) => {
                    &&& g.reference(name).1 matches Ok(address)
                    &&& address.ty() == Ty::Array(Box::new(element), None).ptr()
                    &&& g.reference(name).0.code == g.code.push(
                        Inst::Gep { new_ptr: address, base_ptr: array, index: Val::Int(0) },
                    )
                },
            },
        },
{
}

// -----------------------------------------------------------------------
// Values
// -----------------------------------------------------------------------

/// Whether the address is one that a use as a value reads from: of a scalar or
/// of a pointer, but not of an array or a struct.
pub open spec fn is_read(address: Val) -> bool {
    match address {
        Val::Global { name, ty: Ty::I32 } => true,
        Val::Global { name, ty: Ty::F32 } => true,
        _ => address.ty() is Pointer && !(address.ty().stored() is Array) && !(
        address.ty().stored() is Struct),
    }
}

/// Whether an outcome gives what is stored at an address: by one load of that
/// type behind the code of `g`, where the address is one that is read from, and
/// else the address itself.
pub open spec fn gives_stored(
    g: GenState,
    address: Val,
    out: (GenState, Result<Val, Fault>),
) -> bool {
    if is_read(address) {
        &&& out.1 matches Ok(value)
        &&& value == Val::Local(g.fresh(address.ty().stored()))
        &&& out.0.code == g.code.push(Inst::Load { dst: value, ptr: address })
    } else {
        out == (g, Ok::<Val, Fault>(address))
    }
}

/// A variable, element or member that is used as a value gives what is stored at
/// its address.  An array variable is rejected, under its name.
pub proof fn law_place_read(g: GenState, u: ExprUnit)
    ensures
        match u.inner {
            ExprUnitInner::Id(id) => match g.variable(id@) {
                Err(fault) => g.unit(u) == (g, Err::<Val, Fault>(fault)),
                Ok(address) => if address.ty().stored() is Array {
                    g.unit(u) == (g, Err::<Val, Fault>(Fault::ArrayUsedAsValue(id@)))
                } else {
                    gives_stored(g, address, g.unit(u))
                },
            },
            ExprUnitInner::ArrayExpr(e) => match g.array(*e) {
                (g1, Err(fault)) => g.unit(u) == (g1, Err::<Val, Fault>(fault)),
                (g1, Ok(address)) => gives_stored(g1, address, g.unit(u)),
            },
            ExprUnitInner::MemberExpr(e) => match g.member(*e) {
                (g1, Err(fault)) => g.unit(u) == (g1, Err::<Val, Fault>(fault)),
                (g1, Ok(address)) => gives_stored(g1, address, g.unit(u)),
            },
            _ => true,
        },
{
}

/// A literal is a constant of its value, and adds no code; a reference is the
/// address of its array; parentheses around a number change nothing; and a call
/// gives its result, or is rejected as a whole if it has none.
pub proof fn law_plain_units(g: GenState, u: ExprUnit)
    ensures
        u.inner matches ExprUnitInner::Num(n) ==> g.unit(u) == (g, Ok::<Val, Fault>(Val::Int(n))),
        u.inner matches ExprUnitInner::FloatNum(bits) ==> g.unit(u) == (g, Ok::<Val, Fault>(
            Val::Float(bits),
        )),
        u.inner matches ExprUnitInner::Reference(id) ==> g.unit(u) == g.reference(id@),
        u.inner matches ExprUnitInner::ArithExpr(e) ==> match g.arith(*e) {
            (g1, Err(fault)) => g.unit(u) == (g1, Err::<Val, Fault>(fault)),
            (g1, Ok(v)) => gives_stored(g1, v, g.unit(u)),
        },
        u.inner matches ExprUnitInner::FnCall(c) ==> match g.call(*c) {
            (g1, Err(fault)) => g.unit(u) == (g1, Err::<Val, Fault>(fault)),
            (g1, Ok(None)) => g.unit(u) == (g1, Err::<Val, Fault>(Fault::InvalidExprUnit(u))),
            (g1, Ok(Some(v))) => g.unit(u) == (g1, Ok::<Val, Fault>(v)),
        },
{
    if let ExprUnitInner::FnCall(c) = u.inner {
        lemma_call_result(g, *c);
    }
}

proof fn lemma_call_result(g: GenState, c: crate::ast::expr::FnCall)
    ensures
        g.call(c).1 matches Ok(Some(v)) ==> v is Local && (v.ty() == Ty::I32 || v.ty() == Ty::F32),
{
}

/// A cast to a number type converts the value of its operand, and adds nothing
/// behind the conversion.
pub proof fn law_cast_converts(g: GenState, u: ExprUnit)
    requires
        u.inner is Cast,
        Ty::of(u.inner->Cast_0.target_type) == Ty::I32 || Ty::of(u.inner->Cast_0.target_type)
            == Ty::F32,
    ensures
        ({
            let target = Ty::of(u.inner->Cast_0.target_type);
            let (g1, v) = g.unit(*u.inner->Cast_0.expr);
            match v {
                Err(fault) => g.unit(u) == (g1, Err::<Val, Fault>(fault)),
                Ok(v) => match g1.convert(v, target) {
                    (g2, Ok(w)) => if w is Global {
                        gives_stored(g2, w, g.unit(u))
                    } else {
                        g.unit(u) == (g2, Ok::<Val, Fault>(w))
                    },
                    (g2, Err(fault)) => g.unit(u) == (g2, Err::<Val, Fault>(fault)),
                },
            }
        }),
{
}

/// A right-hand-side value is that of its arithmetic or boolean expression.
pub proof fn law_value_of(g: GenState, r: RightVal)
    ensures
        r.inner matches RightValInner::ArithExpr(e) ==> g.right(r) == g.arith(*e),
        r.inner matches RightValInner::BoolExpr(e) ==> g.right(r) == g.bool_value(*e),
{
}

/// A conversion between numbers is one instruction, from the value given to a
/// new register of the other type.  One that does not exist is reported with
/// both types, and adds nothing.
pub proof fn law_conversion_code(g: GenState, v: Val, target: Ty)
    ensures
        ({
            let (g1, out) = g.convert(v, target);
            if v.ty() == target {
                g1 == g && out == Ok::<Val, Fault>(v)
            } else if v.ty() == Ty::I32 && target == Ty::F32 {
                &&& out matches Ok(w)
                &&& w == Val::Local(g.fresh(Ty::F32))
                &&& g1.code == g.code.push(Inst::SiToFp { src: v, dst: w })
            } else if v.ty() == Ty::F32 && target == Ty::I32 {
                &&& out matches Ok(w)
                &&& w == Val::Local(g.fresh(Ty::I32))
                &&& g1.code == g.code.push(Inst::FpToSi { src: v, dst: w })
            } else {
                &&& g1 == g
                &&& out matches Err(Fault::TypeMismatch { symbol, expected, actual })
                &&& symbol == "conversion"@
                &&& expected == target
                &&& actual == v.ty()
            }
        }),
{
}

/// An operation on two numbers converts the left one, then the right one, to
/// the common type, and then is one instruction on the two, of the operator's
/// kind, into a new register of that type.
pub proof fn law_operation_code(g: GenState, op: ArithBiOp, left: Val, right: Val)
    requires
        left.ty() == Ty::I32 || left.ty() == Ty::F32,
        right.ty() == Ty::I32 || right.ty() == Ty::F32,
    ensures
        ({
            let ty = if left.ty() == Ty::F32 || right.ty() == Ty::F32 {
                Ty::F32
            } else {
                Ty::I32
            };
            let (g1, l) = g.convert(left, ty);
            let (g2, r) = g1.convert(right, ty);
            let (g3, out) = g.numeric_biop(op, left, right);
            &&& g.numeric_pair(left, right) == (g2, Ok::<(Val, Val, Ty), Fault>(
                (l->Ok_0, r->Ok_0, ty),
            ))
            &&& out matches Ok(dst)
            &&& dst == Val::Local(g2.fresh(ty))
            &&& g3.code == g2.code.push(
                if ty == Ty::F32 {
                    Inst::FBiOp {
                        float_kind: match op {
                            ArithBiOp::Add => FloatBinOp::FAdd,
                            ArithBiOp::Sub => FloatBinOp::FSub,
                            ArithBiOp::Mul => FloatBinOp::FMul,
                            ArithBiOp::Div => FloatBinOp::FDiv,
                        },
                        left: l->Ok_0,
                        right: r->Ok_0,
                        dst,
                    }
                } else {
                    Inst::BiOp {
                        kind: match op {
                            ArithBiOp::Add => ArithBinOp::Add,
                            ArithBiOp::Sub => ArithBinOp::Sub,
                            ArithBiOp::Mul => ArithBinOp::Mul,
                            ArithBiOp::Div => ArithBinOp::SDiv,
                        },
                        left: l->Ok_0,
                        right: r->Ok_0,
                        dst,
                    }
                },
            )
        }),
{
}

/// Operands that are not both numbers are rejected, with their types reported:
/// beside an `f32`, as one that does not convert to it; else as a pair.
pub proof fn law_operands_rejected(g: GenState, left: Val, right: Val)
    requires
        !((left.ty() == Ty::I32 || left.ty() == Ty::F32) && (right.ty() == Ty::I32 || right.ty()
            == Ty::F32)),
    ensures
        g.numeric_pair(left, right).1 matches Err(
            Fault::TypeMismatch { symbol, expected, actual },
        ) && if left.ty() == Ty::F32 {
            symbol == "conversion"@ && expected == Ty::F32 && actual == right.ty()
        } else if right.ty() == Ty::F32 {
            symbol == "conversion"@ && expected == Ty::F32 && actual == left.ty()
        } else {
            symbol == "numeric expression"@ && expected == right.ty() && actual == left.ty()
        },
{
}

} // verus!
