//! Scopes: what a statement introduces, and what is left of it behind a block.

use crate::ast::decl::{VarDecl, VarDef, VarDefInner};
use crate::ast::stmt::{
    CodeBlockStmt, CodeBlockStmtInner, ForStmt, IfStmt, VarDeclStmtInner, WhileStmt,
};
use crate::ir::error::Fault;
use crate::ir::function::GenState;
use crate::ir::stmt::{Inst, Lbl};
use crate::ir::types::Ty;
use crate::ir::value::{Reg, Val};
use vstd::prelude::*;

verus! {

impl GenState {
    /// Whether the innermost scope has, from position `from` on, introduced
    /// the name.
    pub open spec fn introduced(self, from: int, name: Seq<char>) -> bool {
        exists|i: int| from <= i < self.scopes.last().len() && self.scopes.last()[i] == name
    }

    /// What statements do to the names: those that are known stay what they
    /// are, and those that come to be known are noted in the innermost scope.
    pub open spec fn binds_to(self, later: GenState) -> bool {
        &&& later.scopes.len() == self.scopes.len()
        &&& forall|name: Seq<char>|
            #[trigger] self.locals.contains_key(name) ==> later.locals.contains_key(name)
                && later.locals[name] == self.locals[name]
        &&& self.scopes.len() > 0 ==> {
            let from = self.scopes.last().len() as int;
            &&& later.scopes.drop_last() == self.scopes.drop_last()
            &&& from <= later.scopes.last().len()
            &&& forall|i: int|
                0 <= i < from ==> #[trigger] later.scopes.last()[i] == self.scopes.last()[i]
            &&& forall|i: int|
                from <= i < later.scopes.last().len() ==> !self.locals.contains_key(
                    #[trigger] later.scopes.last()[i],
                )
            &&& forall|name: Seq<char>|
                #[trigger] later.locals.contains_key(name) <==> self.locals.contains_key(name)
                    || later.introduced(from, name)
        }
    }
}

proof fn lemma_same(g: GenState, later: GenState)
    requires
        later.locals == g.locals,
        later.scopes == g.scopes,
    ensures
        g.binds_to(later),
{
}

proof fn lemma_then(g: GenState, middle: GenState, later: GenState)
    requires
        g.binds_to(middle),
        middle.binds_to(later),
    ensures
        g.binds_to(later),
{
    if g.scopes.len() > 0 {
        let from = g.scopes.last().len() as int;
        let between = middle.scopes.last().len() as int;
        assert(later.scopes.drop_last() == g.scopes.drop_last());
        assert(from <= between <= later.scopes.last().len());
        assert forall|i: int| 0 <= i < from implies #[trigger] later.scopes.last()[i]
            == g.scopes.last()[i] by {
            assert(later.scopes.last()[i] == middle.scopes.last()[i]);
        }
        assert forall|i: int| from <= i < later.scopes.last().len() implies !g.locals.contains_key(
            #[trigger] later.scopes.last()[i],
        ) by {
            let name = later.scopes.last()[i];
            if i < between {
                assert(middle.scopes.last()[i] == name);
            } else if g.locals.contains_key(name) {
                assert(middle.locals.contains_key(name));
            }
        }
        assert forall|name: Seq<char>| #[trigger]
            later.locals.contains_key(name) <==> g.locals.contains_key(name) || later.introduced(
                from,
                name,
            ) by {
            if middle.introduced(from, name) {
                let i = choose|i: int|
                    from <= i < middle.scopes.last().len() && middle.scopes.last()[i] == name;
                assert(later.scopes.last()[i] == name);
            }
            if later.introduced(between, name) {
                let i = choose|i: int|
                    between <= i < later.scopes.last().len() && later.scopes.last()[i] == name;
                assert(later.scopes.last()[i] == name);
            }
            if later.introduced(from, name) {
                let i = choose|i: int|
                    from <= i < later.scopes.last().len() && later.scopes.last()[i] == name;
                if i < between {
                    assert(middle.scopes.last()[i] == name);
                    assert(middle.introduced(from, name));
                } else {
                    assert(later.introduced(between, name));
                }
                assert(middle.locals.contains_key(name) || later.introduced(between, name));
            }
            assert(middle.locals.contains_key(name) <==> g.locals.contains_key(name)
                || middle.introduced(from, name));
        }
    }
}

proof fn lemma_bind(g: GenState, name: Seq<char>, reg: Reg)
    requires
        g.bind(name, reg).1 is Ok,
    ensures
        g.binds_to(g.bind(name, reg).0),
        g.bind(name, reg).0.locals == g.locals.insert(name, reg),
{
    let later = g.bind(name, reg).0;
    if g.scopes.len() > 0 {
        let from = g.scopes.last().len() as int;
        assert(later.scopes.drop_last() =~= g.scopes.drop_last());
        assert(later.scopes.last() == g.scopes.last().push(name));
        assert(later.scopes.last()[from] == name);
        assert(later.introduced(from, name));
    }
}

/// Closing a scope gives back the names that were known when it was opened.
proof fn lemma_exit(g: GenState, later: GenState)
    requires
        g.enter().binds_to(later),
    ensures
        later.exit().locals == g.locals,
        later.exit().scopes == g.scopes,
{
    let inner = g.enter();
    assert(inner.scopes.last().len() == 0);
    assert(inner.scopes.drop_last() =~= g.scopes);
    assert(later.exit().locals =~= g.locals) by {
        let gone = later.scopes.last();
        assert forall|name: Seq<char>| g.locals.contains_key(
            name,
        ) <==> #[trigger] later.exit().locals.contains_key(name) by {
            assert(later.locals.contains_key(name) <==> inner.locals.contains_key(name)
                || later.introduced(0, name));
            if gone.contains(name) {
                let i = choose|i: int| 0 <= i < gone.len() && gone[i] == name;
                assert(!inner.locals.contains_key(later.scopes.last()[i]));
            }
            if later.introduced(0, name) {
                let i = choose|i: int| 0 <= i < gone.len() && gone[i] == name;
                assert(gone.contains(name));
            }
        }
        assert forall|name: Seq<char>| #[trigger] g.locals.contains_key(name) implies g.locals[name]
            == later.exit().locals[name] by {
            assert(inner.locals.contains_key(name));
            assert(later.locals.contains_key(name));
        }
    }
}

proof fn lemma_declare(g: GenState, d: VarDecl)
    requires
        g.declare(d).1 is Ok,
    ensures
        g.binds_to(g.declare(d).0),
{
    let ty = g.decl_type(d);
    lemma_same(g, g.with_slot(ty));
    lemma_bind(g.with_slot(ty), d.identifier@, g.fresh(ty.ptr()));
    lemma_then(g, g.with_slot(ty), g.declare(d).0);
}

proof fn lemma_define(g: GenState, d: VarDef)
    requires
        g.define(d).1 is Ok,
    ensures
        g.binds_to(g.define(d).0),
{
    let ty = g.def_type(d);
    match d.inner {
        VarDefInner::Scalar(scalar) => {
            crate::ir::gen::growth::lemma_right(g, scalar.val);
            if let (g1, Ok(v)) = GenState::then_convert(g.right(scalar.val), ty) {
                let slot = g1.fresh(ty.ptr());
                let g2 = g1.with_slot(ty).emit(Inst::Store { src: v, ptr: Val::Local(slot) });
                lemma_same(g, g2);
                lemma_bind(g2, d.identifier@, slot);
                lemma_then(g, g2, g.define(d).0);
            }
        },
        VarDefInner::Array(array) => {
            let slot = g.fresh(ty.ptr());
            let g1 = g.with_slot(ty);
            crate::ir::gen::growth::lemma_initialize(g1, Val::Local(slot), array.initializer);
            let g2 = g1.initialize(Val::Local(slot), array.initializer).0;
            lemma_same(g, g2);
            lemma_bind(g2, d.identifier@, slot);
            lemma_then(g, g2, g.define(d).0);
        },
    }
}

/// A statement that was lowered leaves every known name what it was, and notes
/// those it introduced in the innermost scope.
pub proof fn law_known_names_stay(
    g: GenState,
    s: CodeBlockStmt,
    con: Option<Lbl>,
    bre: Option<Lbl>,
)
    requires
        g.block(s, con, bre).1 is Ok,
    ensures
        g.binds_to(g.block(s, con, bre).0),
    decreases s, 0nat,
{
    match s.inner {
        CodeBlockStmtInner::Assignment(s) => {
            crate::ir::gen::growth::lemma_assign(g, *s);
        },
        CodeBlockStmtInner::VarDecl(s) => match s.inner {
            VarDeclStmtInner::Decl(d) => {
                lemma_declare(g, d);
            },
            VarDeclStmtInner::Def(d) => {
                lemma_define(g, d);
            },
        },
        CodeBlockStmtInner::Call(s) => {
            crate::ir::gen::growth::lemma_call(g, s.fn_call);
        },
        CodeBlockStmtInner::If(s) => {
            law_if_restores_scope(g, *s, con, bre);
        },
        CodeBlockStmtInner::While(s) => {
            law_while_restores_scope(g, *s);
        },
        CodeBlockStmtInner::For(s) => {
            law_for_restores_scope(g, *s);
        },
        CodeBlockStmtInner::Return(s) => {
            crate::ir::gen::growth::lemma_give_back(g, *s);
        },
        CodeBlockStmtInner::Continue(_) => {},
        CodeBlockStmtInner::Break(_) => {},
        CodeBlockStmtInner::Null(_) => {},
    }
}

proof fn lemma_stmts(
    g: GenState,
    list: Vec<CodeBlockStmt>,
    n: nat,
    con: Option<Lbl>,
    bre: Option<Lbl>,
)
    requires
        g.stmts(list, n, con, bre).1 is Ok,
    ensures
        g.binds_to(g.stmts(list, n, con, bre).0),
    decreases list, n,
{
    if n > 0 {
        lemma_stmts(g, list, (n - 1) as nat, con, bre);
        let g1 = g.stmts(list, (n - 1) as nat, con, bre).0;
        law_known_names_stay(g1, list[n - 1], con, bre);
        lemma_then(g, g1, g.stmts(list, n, con, bre).0);
    } else {
        lemma_same(g, g);
    }
}

/// Behind a block the names are those that were known before it: what the
/// block introduced is unknown again.
pub proof fn law_block_restores_scope(
    g: GenState,
    list: Vec<CodeBlockStmt>,
    con: Option<Lbl>,
    bre: Option<Lbl>,
)
    requires
        g.scoped(list, con, bre).1 is Ok,
    ensures
        g.scoped(list, con, bre).0.locals == g.locals,
        g.scoped(list, con, bre).0.scopes == g.scopes,
    decreases list, list@.len() + 1,
{
    lemma_stmts(g.enter(), list, list@.len(), con, bre);
    lemma_exit(g, g.enter().stmts(list, list@.len(), con, bre).0);
}

/// Behind an `if` the names are those that were known before it.
pub proof fn law_if_restores_scope(g: GenState, s: IfStmt, con: Option<Lbl>, bre: Option<Lbl>)
    requires
        g.conditional(s, con, bre).1 is Ok,
    ensures
        g.conditional(s, con, bre).0.locals == g.locals,
        g.conditional(s, con, bre).0.scopes == g.scopes,
    decreases s, 0nat,
{
    let (t, f, after) = (g.label(0), g.label(1), g.label(2));
    crate::ir::gen::growth::lemma_bool_unit(g.with_blocks(3), s.bool_unit, t, f);
    let g1 = g.with_blocks(3).bool_unit(s.bool_unit, t, f).0.emit(Inst::Label(t));
    law_block_restores_scope(g1, s.if_stmts, con, bre);
    if let Some(list) = s.else_stmts {
        let g2 = g1.scoped(s.if_stmts, con, bre).0;
        law_block_restores_scope(
            g2.emit(Inst::Jump { target: after }).emit(Inst::Label(f)),
            list,
            con,
            bre,
        );
    }
}

/// Behind a `while` loop the names are those that were known before it.
pub proof fn law_while_restores_scope(g: GenState, s: WhileStmt)
    requires
        g.while_loop(s).1 is Ok,
    ensures
        g.while_loop(s).0.locals == g.locals,
        g.while_loop(s).0.scopes == g.scopes,
    decreases s, 0nat,
{
    let (test, body, behind) = (g.label(0), g.label(1), g.label(2));
    let g1 = g.with_blocks(3).emit(Inst::Jump { target: test }).emit(Inst::Label(test));
    crate::ir::gen::growth::lemma_bool_unit(g1, s.bool_unit, body, behind);
    let g2 = g1.bool_unit(s.bool_unit, body, behind).0.emit(Inst::Label(body));
    law_block_restores_scope(g2, s.stmts, Some(test), Some(behind));
}

proof fn lemma_counted_loop(g: GenState, s: ForStmt, start: Val, end: Val)
    requires
        g.counted_loop(s, start, end).1 is Ok,
    ensures
        g.counted_loop(s, start, end).0.locals == g.locals,
        g.counted_loop(s, start, end).0.scopes == g.scopes,
    decreases s, 0nat,
{
    let (test, body, step, behind) = (g.label(0), g.label(1), g.label(2), g.label(3));
    let g0 = g.with_blocks(4);
    let opened = g0.enter().with_slot(Ty::I32);
    lemma_bind(opened, s.iterator@, g0.fresh(Ty::I32.ptr()));
    lemma_same(g0.enter(), opened);
    let g1 = g0.for_head(s.iterator@, start, end, test).0;
    let (iter, limit) = g0.for_head(s.iterator@, start, end, test).1->Ok_0;
    lemma_then(g0.enter(), opened, g1);
    let g2 = g1.for_test(iter, limit, body, behind).emit(Inst::Label(body));
    law_block_restores_scope(g2, s.stmts, Some(step), Some(behind));
    lemma_exit(g0, g1);
}

/// Behind a `for` loop the names are those that were known before it; so its
/// iterator is known in the body only.
pub proof fn law_for_restores_scope(g: GenState, s: ForStmt)
    requires
        g.for_loop(s).1 is Ok,
    ensures
        g.for_loop(s).0.locals == g.locals,
        g.for_loop(s).0.scopes == g.scopes,
    decreases s, 1nat,
{
    crate::ir::gen::growth::lemma_bound(g, s.start);
    let g1 = g.bound(s.start).0;
    crate::ir::gen::growth::lemma_bound(g1, s.end);
    lemma_counted_loop(g1.bound(s.end).0, s, g.bound(s.start).1->Ok_0, g1.bound(s.end).1->Ok_0);
}

/// A name that is known cannot be declared or defined anew, not even in an
/// inner scope; a name that is not known can be declared.
pub proof fn law_no_redefinition(g: GenState, decl: VarDecl, def: VarDef)
    ensures
        g.locals.contains_key(decl.identifier@) ==> g.declare(decl).1 == Err::<(), Fault>(
            Fault::VariableRedefinition(decl.identifier@),
        ),
        !g.locals.contains_key(decl.identifier@) ==> g.declare(decl).1 is Ok,
        g.locals.contains_key(def.identifier@) ==> g.define(def).1 is Err,
{
    let ty = g.def_type(def);
    match def.inner {
        VarDefInner::Scalar(scalar) => {
            crate::ir::gen::growth::lemma_right(g, scalar.val);
        },
        VarDefInner::Array(array) => {
            crate::ir::gen::growth::lemma_initialize(
                g.with_slot(ty),
                Val::Local(g.fresh(ty.ptr())),
                array.initializer,
            );
        },
    }
}

} // verus!
