//! Where values are kept: arguments, array elements and variables.

use crate::ast::expr::{ExprUnit, ExprUnitInner, RightVal};
use crate::ir::function::GenState;
use crate::ir::registry::Param;
use crate::ir::stmt::Inst;
use crate::ir::types::Ty;
use crate::ir::value::{Reg, Val};
use vstd::prelude::*;

verus! {

/// Whether the code reserves the slot and stores the value into it.
pub open spec fn spilled(code: Seq<Inst>, value: Val, slot: Val) -> bool {
    exists|i: int|
        0 <= i && i + 1 < code.len() && #[trigger] code[i] == Inst::Alloca { dst: slot }
            && code[i + 1] == Inst::Store { src: value, ptr: slot }
}

/// Whether the name of a parameter stands for the address of its argument: a
/// receiver is the address itself, any other argument is spilled to a slot.
pub open spec fn addressed(g: GenState, p: Param, arg: Reg) -> bool {
    &&& g.locals.contains_key(p.name)
    &&& arg.ty == p.ty
    &&& if GenState::is_receiver(p) {
        g.locals[p.name] == arg
    } else {
        &&& g.locals[p.name].ty == p.ty.ptr()
        &&& spilled(g.code, Val::Local(arg), Val::Local(g.locals[p.name]))
    }
}

/// Every parameter gets an argument register of its type, and its name stands
/// for the address of the argument.
pub proof fn law_arguments_addressable(g: GenState, params: Seq<Param>, n: nat)
    requires
        g.args.len() == 0,
        n <= params.len(),
        g.parameters(params, n).1 is Ok,
    ensures
        ({
            let g1 = g.parameters(params, n).0;
            &&& g1.args.len() == n
            &&& forall|i: int| 0 <= i < n ==> addressed(g1, params[i], #[trigger] g1.args[i])
        }),
    decreases n,
{
    if n > 0 {
        law_arguments_addressable(g, params, (n - 1) as nat);
        let g0 = g.parameters(params, (n - 1) as nat).0;
        let g1 = g.parameters(params, n).0;
        let p = params[n - 1];
        assert forall|i: int| 0 <= i < n implies addressed(
            g1,
            params[i],
            #[trigger] g1.args[i],
        ) by {
            let q = params[i];
            if i < n - 1 {
                assert(g1.args[i] == g0.args[i]);
                assert(addressed(g0, q, g0.args[i]));
                assert(q.name != p.name);
                if !GenState::is_receiver(q) {
                    let slot = Val::Local(g0.locals[q.name]);
                    let arg = Val::Local(g0.args[i]);
                    let j = choose|j: int|
                        0 <= j && j + 1 < g0.code.len() && #[trigger] g0.code[j]
                            == Inst::Alloca { dst: slot } && g0.code[j + 1] == Inst::Store {
                            src: arg,
                            ptr: slot,
                        };
                    assert(g1.code[j] == Inst::Alloca { dst: slot });
                    assert(spilled(g1.code, arg, slot));
                }
            } else if !GenState::is_receiver(p) {
                let j = g0.code.len() as int;
                let slot = Val::Local(g1.locals[p.name]);
                assert(g1.code[j] == Inst::Alloca { dst: slot });
                assert(spilled(g1.code, Val::Local(g1.args[i]), slot));
            }
        }
    }
}

/// Whether the code from position `from` on computes the address of element
/// `k` of an array, and stores a value of that type there.
pub open spec fn element_stored(
    code: Seq<Inst>,
    from: int,
    base: Val,
    element: Ty,
    k: int,
    v: Val,
) -> bool {
    exists|i: int|
        {
            &&& from <= i
            &&& i + 1 < code.len()
            &&& #[trigger] code[i] matches Inst::Gep { new_ptr, base_ptr, index }
            &&& new_ptr.ty() == element.ptr()
            &&& base_ptr == base
            &&& index == Val::Int(k as i32)
            &&& code[i + 1] == Inst::Store { src: v, ptr: new_ptr }
        }
}

/// An explicit list is stored element by element: the value at position `k`
/// goes, as the element type, into element `k`.
pub proof fn law_list_stored(
    g: GenState,
    base: Val,
    element: Ty,
    list: Seq<RightVal>,
    n: nat,
    k: int,
)
    requires
        g.store_list(base, element, list, n).1 is Ok,
        0 <= k < n,
    ensures
        exists|v: Val|
            v.ty() == element && #[trigger] element_stored(
                g.store_list(base, element, list, n).0.code,
                g.code.len() as int,
                base,
                element,
                k,
                v,
            ),
    decreases n,
{
    let g0 = g.store_list(base, element, list, (n - 1) as nat).0;
    let z = g.store_list(base, element, list, n).0;
    let from = g.code.len() as int;
    crate::ir::gen::growth::lemma_store_list(g, base, element, list, (n - 1) as nat);
    crate::ir::gen::growth::lemma_right(g0.taken(), list[n - 1]);
    assert(g0.grows_to(z));
    if k < n - 1 {
        law_list_stored(g, base, element, list, (n - 1) as nat, k);
        let v = choose|v: Val|
            v.ty() == element && #[trigger] element_stored(g0.code, from, base, element, k, v);
        lemma_element_stays(g0, z, from, base, element, k, v);
    } else {
        let (g1, v) = GenState::then_convert(g0.taken().right(list[n - 1]), element);
        let i = g1.code.len() as int;
        assert(z.code[i] is Gep);
        assert(element_stored(z.code, from, base, element, k, v->Ok_0));
    }
}

proof fn lemma_element_stays(
    g: GenState,
    z: GenState,
    from: int,
    base: Val,
    element: Ty,
    k: int,
    v: Val,
)
    requires
        0 <= from,
        g.grows_to(z),
        element_stored(g.code, from, base, element, k, v),
    ensures
        element_stored(z.code, from, base, element, k, v),
{
    let i = choose|i: int|
        {
            &&& from <= i
            &&& i + 1 < g.code.len()
            &&& #[trigger] g.code[i] matches Inst::Gep { new_ptr, base_ptr, index }
            &&& new_ptr.ty() == element.ptr()
            &&& base_ptr == base
            &&& index == Val::Int(k as i32)
            &&& g.code[i + 1] == Inst::Store { src: v, ptr: new_ptr }
        };
    assert(z.code[i] == g.code[i]);
    assert(z.code[i + 1] == g.code[i + 1]);
}

/// A fill value is stored into every element, and its code is not repeated:
/// each element adds just an address and a store.
pub proof fn law_fill_stored(g: GenState, base: Val, element: Ty, v: Val, n: nat)
    requires
        g.store_fill(base, element, v, n).1 is Ok,
    ensures
        g.store_fill(base, element, v, n).0.code.len() == g.code.len() + 2 * n,
        forall|k: int|
            0 <= k < n ==> #[trigger] element_stored(
                g.store_fill(base, element, v, n).0.code,
                g.code.len() as int,
                base,
                element,
                k,
                v,
            ),
    decreases n,
{
    if n > 0 {
        law_fill_stored(g, base, element, v, (n - 1) as nat);
        let g0 = g.store_fill(base, element, v, (n - 1) as nat).0;
        let z = g.store_fill(base, element, v, n).0;
        let from = g.code.len() as int;
        assert forall|k: int| 0 <= k < n implies #[trigger] element_stored(
            z.code,
            from,
            base,
            element,
            k,
            v,
        ) by {
            if k < n - 1 {
                lemma_element_stays(g0, z, from, base, element, k, v);
            } else {
                assert(z.code[g0.code.len() as int] is Gep);
            }
        }
    }
}

/// A variable of type `i32` or `f32` is read by a load: its use in an expression
/// gives a new register of that type, and adds the load and nothing else.
pub proof fn law_scalar_variable_loaded(g: GenState, u: ExprUnit)
    requires
        u.inner matches ExprUnitInner::Id(name) && g.variable(name@) matches Ok(v) && (v.ty()
            == Ty::I32.ptr() || v.ty() == Ty::F32.ptr() || (v is Global && (v.ty() == Ty::I32
            || v.ty() == Ty::F32))),
    ensures
        ({
            let v = g.variable(u.inner->Id_0@)->Ok_0;
            let dst = Val::Local(g.fresh(v.ty().stored()));
            g.unit(u) == (g.taken().emit(Inst::Load { dst, ptr: v }), Ok::<
                Val,
                crate::ir::error::Fault,
            >(dst))
        }),
{
}

} // verus!
