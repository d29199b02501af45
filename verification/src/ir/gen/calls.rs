//! What a call calls, and what it passes.

use crate::ast::expr::FnCall;
use crate::ir::error::Fault;
use crate::ir::function::GenState;
use crate::ir::registry::Param;
use crate::ir::stmt::Inst;
use crate::ir::types::Ty;
use crate::ir::value::Val;
use vstd::prelude::*;

verus! {

/// A call without a receiver is written under its name, with its prefix and
/// `::` in front if it has one.
pub proof fn law_qualified_name(c: FnCall)
    ensures
        c.module_prefix is None ==> c.qualified() == c.name@,
        c.module_prefix matches Some(prefix) ==> {
            let n = prefix@.len() as int;
            &&& c.qualified().len() == n + 2 + c.name@.len()
            &&& c.qualified().take(n) == prefix@
            &&& c.qualified()[n] == ':'
            &&& c.qualified()[n + 1] == ':'
            &&& c.qualified().skip(n + 2) == c.name@
        },
{
    reveal_strlit("::");
    if let Some(prefix) = c.module_prefix {
        let n = prefix@.len() as int;
        assert(c.qualified().take(n) =~= prefix@);
        assert(c.qualified().skip(n + 2) =~= c.name@);
    }
}

/// Whether a name is that of a struct's method.
pub open spec fn names_method(name: Seq<char>, type_id: Seq<char>, method: Seq<char>) -> bool {
    let n = type_id.len() as int;
    &&& name.len() == n + 2 + method.len()
    &&& name.take(n) == type_id
    &&& name[n] == ':'
    &&& name[n + 1] == ':'
    &&& name.skip(n + 2) == method
}

proof fn lemma_names_method(type_id: Seq<char>, method: Seq<char>)
    ensures
        names_method(crate::ir::gen::scheme::method_path(type_id, method), type_id, method),
{
    reveal_strlit("::");
    let name = crate::ir::gen::scheme::method_path(type_id, method);
    let n = type_id.len() as int;
    assert(name.take(n) =~= type_id);
    assert(name.skip(n + 2) =~= method);
}

/// What a call calls.  With a receiver: the method of that name of the struct
/// that the receiver is, with the receiver's address.  With the prefix `Self`:
/// the method of that name of the struct that the function belongs to.  Else
/// the function as it is written.
pub proof fn law_callee(g: GenState, c: FnCall)
    ensures
        match c.receiver {
            Some(receiver) => match g.left(*receiver) {
                (g1, Err(fault)) => g.callee(c) == (
                    g1,
                    Err::<(Option<Val>, Seq<char>), Fault>(fault),
                ),
                (g1, Ok(address)) => {
                    &&& g.callee(c).0 == g1
                    &&& match address.ty().struct_name() {
                        None => g.callee(c).1 == Err::<(Option<Val>, Seq<char>), Fault>(
                            Fault::FunctionNotDefined(c.name@),
                        ),
                        Some(type_id) => g.callee(c).1 matches Ok((Some(first), name)) && first
                            == address && names_method(name, type_id, c.name@),
                    }
                },
            },
            None => {
                &&& g.callee(c).0 == g
                &&& if c.module_prefix is Some && c.module_prefix->0@ == "Self"@ {
                    match g.impl_type {
                        None => g.callee(c).1 == Err::<(Option<Val>, Seq<char>), Fault>(
                            Fault::FunctionNotDefined(c.qualified()),
                        ),
                        Some(type_id) => g.callee(c).1 matches Ok((None, name)) && names_method(
                            name,
                            type_id,
                            c.name@,
                        ),
                    }
                } else {
                    g.callee(c).1 == Ok::<(Option<Val>, Seq<char>), Fault>((None, c.qualified()))
                }
            },
        },
{
    if let Some(receiver) = c.receiver {
        if let (g1, Ok(address)) = g.left(*receiver) {
            if let Some(type_id) = address.ty().struct_name() {
                lemma_names_method(type_id, c.name@);
            }
        }
    } else if let Some(type_id) = g.impl_type {
        lemma_names_method(type_id, c.name@);
    }
}

/// A receiver is the first argument, converted to the type of the first
/// parameter if there is one; without a receiver there is no such argument.
pub proof fn law_receiver_passed(g: GenState, receiver: Option<Val>, params: Seq<Param>)
    ensures
        match receiver {
            None => g.receiver_args(receiver, params) == (g, Ok::<Seq<Val>, Fault>(Seq::empty())),
            Some(address) => if params.len() == 0 {
                g.receiver_args(receiver, params) == (g, Ok::<Seq<Val>, Fault>(seq![address]))
            } else {
                match g.convert(address, params[0].ty) {
                    (g1, Ok(v)) => g.receiver_args(receiver, params) == (
                        g1,
                        Ok::<Seq<Val>, Fault>(seq![v]),
                    ),
                    (g1, Err(fault)) => g.receiver_args(receiver, params) == (
                        g1,
                        Err::<Seq<Val>, Fault>(fault),
                    ),
                }
            },
        },
{
}

/// Whether an outcome is that of an argument: the value, converted to the type
/// of the parameter at its position if there is one.
pub open spec fn passed_as(
    value: (GenState, Result<Val, Fault>),
    params: Seq<Param>,
    position: int,
    out: (GenState, Result<Val, Fault>),
) -> bool {
    match value {
        (g, Err(fault)) => out == (g, Err::<Val, Fault>(fault)),
        (g, Ok(v)) => if position < params.len() {
            out == g.convert(v, params[position].ty)
        } else {
            out == (g, Ok::<Val, Fault>(v))
        },
    }
}

/// The arguments of a call are evaluated in order, each in the state that those
/// before it left, and passed in that order behind the receiver.
pub proof fn law_arguments_in_order(
    g: GenState,
    c: FnCall,
    n: nat,
    first: Seq<Val>,
    params: Seq<Param>,
    k: int,
)
    requires
        0 <= k < n <= c.vals@.len(),
        g.explicit_args(c, n, first, params).1 is Ok,
    ensures
        ({
            let args = g.explicit_args(c, n, first, params).1->Ok_0;
            let before = g.explicit_args(c, k as nat, first, params);
            let after = g.explicit_args(c, (k + 1) as nat, first, params);
            &&& args.len() == first.len() + n
            &&& args.take(first.len() as int) == first
            &&& before.1 is Ok
            &&& after.1 is Ok
            &&& passed_as(
                before.0.right(c.vals@[k]),
                params,
                first.len() + k,
                (after.0, Ok::<Val, Fault>(args[first.len() + k])),
            )
        }),
    decreases n,
{
    let m = (n - 1) as nat;
    let (g1, shorter) = g.explicit_args(c, m, first, params);
    let args = g.explicit_args(c, n, first, params).1->Ok_0;
    lemma_args_len(g, c, m, first, params);
    assert(args.take(first.len() as int) =~= first) by {
        assert(shorter->Ok_0.take(first.len() as int) == first);
        assert forall|i: int| 0 <= i < first.len() implies args[i] == first[i] by {
            assert(shorter->Ok_0.take(first.len() as int)[i] == first[i]);
        }
    }
    if k < m {
        law_arguments_in_order(g, c, m, first, params, k);
        assert(args[first.len() + k] == shorter->Ok_0[first.len() + k]);
    }
}

proof fn lemma_args_len(g: GenState, c: FnCall, n: nat, first: Seq<Val>, params: Seq<Param>)
    requires
        n <= c.vals@.len(),
        g.explicit_args(c, n, first, params).1 is Ok,
    ensures
        ({
            let args = g.explicit_args(c, n, first, params).1->Ok_0;
            &&& args.len() == first.len() + n
            &&& args.take(first.len() as int) == first
        }),
    decreases n,
{
    let args = g.explicit_args(c, n, first, params).1->Ok_0;
    if n > 0 {
        let m = (n - 1) as nat;
        lemma_args_len(g, c, m, first, params);
        let shorter = g.explicit_args(c, m, first, params).1->Ok_0;
        assert forall|i: int| 0 <= i < first.len() implies args[i] == first[i] by {
            assert(shorter.take(first.len() as int)[i] == first[i]);
        }
    }
    assert(args.take(first.len() as int) =~= first);
}

/// The arguments of a call fail with the first argument that fails, and only
/// then.
pub proof fn law_arguments_rejected(
    g: GenState,
    c: FnCall,
    n: nat,
    first: Seq<Val>,
    params: Seq<Param>,
)
    requires
        n < c.vals@.len(),
        g.explicit_args(c, n, first, params).1 is Ok,
    ensures
        ({
            let before = g.explicit_args(c, n, first, params);
            let after = g.explicit_args(c, n + 1, first, params);
            exists|out: (GenState, Result<Val, Fault>)|
                {
                    &&& #[trigger] passed_as(
                        before.0.right(c.vals@[n as int]),
                        params,
                        (first.len() + n) as int,
                        out,
                    )
                    &&& after.0 == out.0
                    &&& match out.1 {
                        Ok(v) => after.1 == Ok::<Seq<Val>, Fault>(before.1->Ok_0.push(v)),
                        Err(fault) => after.1 == Err::<Seq<Val>, Fault>(fault),
                    }
                }
        }),
{
    let before = g.explicit_args(c, n, first, params);
    lemma_args_len(g, c, n, first, params);
    let out = GenState::pass(
        before.0.right(c.vals@[n as int]),
        params,
        (first.len() + n) as int,
    );
    assert(passed_as(
        before.0.right(c.vals@[n as int]),
        params,
        (first.len() + n) as int,
        out,
    ));
}

/// A call is one instruction behind the code of its receiver and arguments: it
/// names the symbol of what is called, passes all arguments, and gives a new
/// register of the return type, unless that is void.  A function that is not
/// declared is reported under the name that was looked up.
pub proof fn law_call_code(g: GenState, c: FnCall)
    ensures
        match g.callee(c) {
            (g1, Err(fault)) => g.call(c) == (g1, Err::<Option<Val>, Fault>(fault)),
            (g1, Ok((receiver, name))) => if !g1.env.functions.contains_key(name) {
                g.call(c) == (g1, Err::<Option<Val>, Fault>(Fault::FunctionNotDefined(name)))
            } else {
                let sig = g1.env.functions[name];
                match g1.receiver_args(receiver, sig.params) {
                    (g2, Err(fault)) => g.call(c) == (g2, Err::<Option<Val>, Fault>(fault)),
                    (g2, Ok(first)) => match g2.explicit_args(
                        c,
                        c.vals@.len(),
                        first,
                        sig.params,
                    ) {
                        (g3, Err(fault)) => g.call(c) == (g3, Err::<Option<Val>, Fault>(fault)),
                        (g3, Ok(args)) => match sig.ret {
                            Ty::Void => {
                                &&& g.call(c).1 == Ok::<Option<Val>, Fault>(None)
                                &&& g.call(c).0.code == g3.code.push(
                                    Inst::Call { func_name: g3.link_name(name), res: None, args },
                                )
                            },
                            Ty::I32 | Ty::F32 => {
                                let res = Some(Val::Local(g3.fresh(sig.ret)));
                                &&& g.call(c).1 == Ok::<Option<Val>, Fault>(res)
                                &&& g.call(c).0.code == g3.code.push(
                                    Inst::Call { func_name: g3.link_name(name), res, args },
                                )
                            },
                            _ => g.call(c).1 == Err::<Option<Val>, Fault>(Fault::Trap),
                        },
                    },
                }
            },
        },
{
}

} // verus!
