//! The state of the lowering of one function, and the primitive steps that
//! change it.

use crate::common::names::NameMap;
use crate::ir::error::{Error, Fault};
use crate::ir::module::GlobalDef;
use crate::ir::registry::{Field, Registry, Sig};
use crate::ir::stmt::{
    ArithBinOp, BlockLabel, CmpPredicate, FloatBinOp, FloatCmpPredicate, Inst, Lbl, Stmt,
    StmtInner,
};
use crate::ir::types::{Dtype, Ty};
use crate::ir::value::{Global, Local, LocalId, Operand, Reg, Val};
use vstd::hash_map::StringHashMap;
use vstd::prelude::*;

verus! {

/// Lowers one function body to a flat sequence of IR statements.
pub struct FunctionGenerator<'ir> {
    pub registry: &'ir Registry,
    pub global_list: &'ir NameMap<GlobalDef>,
    /// The types that inference found for variables declared without one.
    pub resolved_types: &'ir NameMap<Dtype>,
    /// The variables in scope, each with the register that holds its address.
    pub local_variables: StringHashMap<Local>,
    pub arguments: Vec<Local>,
    pub irs: Vec<Stmt>,
    /// The names that each open scope introduced, innermost last.
    pub scope_locals: Vec<Vec<String>>,
    pub next_vreg: usize,
    pub next_basic_block: usize,
    pub current_impl_type: Option<String>,
    pub current_return_dtype: Option<Dtype>,
}

/// What the surrounding program declares.
pub struct Env {
    pub structs: Map<Seq<char>, Seq<Field>>,
    pub functions: Map<Seq<char>, Sig>,
    pub links: Map<Seq<char>, Seq<char>>,
    pub globals: Map<Seq<char>, Ty>,
    pub inferred: Map<Seq<char>, Ty>,
}

/// The model of a [`FunctionGenerator`].
pub struct GenState {
    pub env: Env,
    pub locals: Map<Seq<char>, Reg>,
    pub scopes: Seq<Seq<Seq<char>>>,
    pub args: Seq<Reg>,
    pub code: Seq<Inst>,
    /// How many register numbers have been handed out.
    pub vregs: nat,
    /// How many block numbers have been handed out.
    pub blocks: nat,
    pub impl_type: Option<Seq<char>>,
    pub ret: Option<Ty>,
}

/// The outcome of a lowering step: the state that it leaves, and its value or
/// the fault that ended it.
pub type Lowered<T> = (GenState, Result<T, Fault>);

pub open spec fn names(list: Seq<String>) -> Seq<Seq<char>> {
    list.map_values(|s: String| s@)
}

impl<'ir> View for FunctionGenerator<'ir> {
    type V = GenState;

    open spec fn view(&self) -> GenState {
        GenState {
            env: Env {
                structs: self.registry.structs(),
                functions: self.registry.functions(),
                links: self.registry.links(),
                globals: self.global_list@.map_values(|g: GlobalDef| g.dtype@),
                inferred: self.resolved_types@.map_values(|t: Dtype| t@),
            },
            locals: self.local_variables@.map_values(|l: Local| l@),
            scopes: self.scope_locals@.map_values(|scope: Vec<String>| names(scope@)),
            args: self.arguments@.map_values(|l: Local| l@),
            code: self.irs@.map_values(|s: Stmt| s@),
            vregs: self.next_vreg as nat,
            blocks: self.next_basic_block as nat,
            impl_type: match self.current_impl_type {
                Some(name) => Some(name@),
                None => None,
            },
            ret: match self.current_return_dtype {
                Some(dtype) => Some(dtype@),
                None => None,
            },
        }
    }
}

impl GenState {
    /// Appends an instruction.
    pub open spec fn emit(self, inst: Inst) -> GenState {
        GenState { code: self.code.push(inst), ..self }
    }

    /// The next register, of type `ty`.
    pub open spec fn fresh(self, ty: Ty) -> Reg {
        Reg { id: self.vregs, ty }
    }

    /// Hands out the next register number.
    pub open spec fn taken(self) -> GenState {
        GenState { vregs: self.vregs + 1, ..self }
    }

    /// The label of the block that is `k` further than the next one.
    pub open spec fn label(self, k: nat) -> Lbl {
        Lbl::Block(self.blocks + k)
    }

    /// Hands out the next `n` block numbers.
    pub open spec fn with_blocks(self, n: nat) -> GenState {
        GenState { blocks: self.blocks + n, ..self }
    }

    /// Opens a scope.
    pub open spec fn enter(self) -> GenState {
        GenState { scopes: self.scopes.push(Seq::empty()), ..self }
    }

    /// Closes the innermost scope: the names that it introduced are forgotten.
    pub open spec fn exit(self) -> GenState {
        if self.scopes.len() == 0 {
            self
        } else {
            GenState {
                locals: forget(self.locals, self.scopes.last()),
                scopes: self.scopes.drop_last(),
                ..self
            }
        }
    }

    /// Notes that the innermost open scope introduced `name`.
    pub open spec fn noted(self, name: Seq<char>) -> GenState {
        if self.scopes.len() == 0 {
            self
        } else {
            GenState {
                scopes: self.scopes.drop_last().push(self.scopes.last().push(name)),
                ..self
            }
        }
    }

    /// The symbol of a function.
    pub open spec fn link_name(self, name: Seq<char>) -> Seq<char> {
        if self.env.links.contains_key(name) {
            self.env.links[name]
        } else {
            name
        }
    }

    /// What a variable's name stands for: a local before a global.
    pub open spec fn variable(self, name: Seq<char>) -> Result<Val, Fault> {
        if self.locals.contains_key(name) {
            Ok(Val::Local(self.locals[name]))
        } else if self.env.globals.contains_key(name) {
            Ok(Val::Global { name, ty: self.env.globals[name] })
        } else {
            Err(Fault::VariableNotDefined(name))
        }
    }

    /// Whether the numbers handed out are machine numbers.
    pub open spec fn fits(self) -> bool {
        self.vregs <= usize::MAX && self.blocks <= usize::MAX
    }
}

/// A table without some names.
pub open spec fn forget(
    locals: Map<Seq<char>, Reg>,
    gone: Seq<Seq<char>>,
) -> Map<Seq<char>, Reg> {
    Map::new(
        |name: Seq<char>| locals.contains_key(name) && !gone.contains(name),
        |name: Seq<char>| locals[name],
    )
}

impl<'ir> FunctionGenerator<'ir> {
    /// A generator that has lowered nothing yet.
    pub fn new(
        registry: &'ir Registry,
        global_list: &'ir NameMap<GlobalDef>,
        resolved_types: &'ir NameMap<Dtype>,
    ) -> (generator: Self)
        ensures
            generator@ == (GenState {
                env: Env {
                    structs: registry.structs(),
                    functions: registry.functions(),
                    links: registry.links(),
                    globals: global_list@.map_values(|g: GlobalDef| g.dtype@),
                    inferred: resolved_types@.map_values(|t: Dtype| t@),
                },
                locals: Map::empty(),
                scopes: Seq::empty(),
                args: Seq::empty(),
                code: Seq::empty(),
                vregs: 0,
                blocks: 0,
                impl_type: None,
                ret: None,
            }),
    {
        let generator = FunctionGenerator {
            registry,
            global_list,
            resolved_types,
            local_variables: StringHashMap::new(),
            arguments: Vec::new(),
            irs: Vec::new(),
            scope_locals: Vec::new(),
            next_vreg: 0,
            next_basic_block: 0,
            current_impl_type: None,
            current_return_dtype: None,
        };
        proof {
            let g = generator@;
            assert(g.locals =~= Map::empty());
            assert(g.scopes =~= Seq::empty());
            assert(g.args =~= Seq::empty());
            assert(g.code =~= Seq::empty());
        }
        generator
    }

    /// Hands out the next register.
    pub fn fresh_local(&mut self, dtype: Dtype) -> (local: Local)
        requires
            old(self)@.taken().fits(),
        ensures
            final(self)@ == old(self)@.taken(),
            local@ == old(self)@.fresh(dtype@),
    {
        let id = LocalId(self.next_vreg);
        self.next_vreg = self.next_vreg + 1;
        Local { dtype, id }
    }

    /// Hands out the next block label.
    pub fn alloc_basic_block(&mut self) -> (label: BlockLabel)
        requires
            old(self)@.with_blocks(1).fits(),
        ensures
            final(self)@ == old(self)@.with_blocks(1),
            label@ == old(self)@.label(0),
    {
        let label = BlockLabel::BasicBlock(self.next_basic_block);
        self.next_basic_block = self.next_basic_block + 1;
        label
    }

    fn push(&mut self, inner: StmtInner)
        ensures
            final(self)@ == old(self)@.emit((Stmt { inner })@),
    {
        let ghost before = self@;
        self.irs.push(Stmt { inner });
        assert(self@.code =~= before.code.push((Stmt { inner })@));
    }

    pub fn emit_label(&mut self, label: BlockLabel)
        ensures
            final(self)@ == old(self)@.emit(Inst::Label(label@)),
    {
        self.push(StmtInner::Label(label));
    }

    pub fn emit_alloca(&mut self, dst: Operand)
        ensures
            final(self)@ == old(self)@.emit(Inst::Alloca { dst: dst@ }),
    {
        self.push(StmtInner::Alloca { dst });
    }

    pub fn emit_load(&mut self, dst: Operand, ptr: Operand)
        ensures
            final(self)@ == old(self)@.emit(Inst::Load { dst: dst@, ptr: ptr@ }),
    {
        self.push(StmtInner::Load { dst, ptr });
    }

    pub fn emit_store(&mut self, src: Operand, ptr: Operand)
        ensures
            final(self)@ == old(self)@.emit(Inst::Store { src: src@, ptr: ptr@ }),
    {
        self.push(StmtInner::Store { src, ptr });
    }

    pub fn emit_gep(&mut self, new_ptr: Operand, base_ptr: Operand, index: Operand)
        ensures
            final(self)@ == old(self)@.emit(
                Inst::Gep { new_ptr: new_ptr@, base_ptr: base_ptr@, index: index@ },
            ),
    {
        self.push(StmtInner::Gep { new_ptr, base_ptr, index });
    }

    pub fn emit_biop(&mut self, kind: ArithBinOp, left: Operand, right: Operand, dst: Operand)
        ensures
            final(self)@ == old(self)@.emit(
                Inst::BiOp { kind, left: left@, right: right@, dst: dst@ },
            ),
    {
        self.push(StmtInner::BiOp { kind, left, right, dst });
    }

    pub fn emit_fbiop(
        &mut self,
        float_kind: FloatBinOp,
        left: Operand,
        right: Operand,
        dst: Operand,
    )
        ensures
            final(self)@ == old(self)@.emit(
                Inst::FBiOp { float_kind, left: left@, right: right@, dst: dst@ },
            ),
    {
        self.push(StmtInner::FBiOp { float_kind, left, right, dst });
    }

    pub fn emit_cmp(
        &mut self,
        predicate: CmpPredicate,
        left: Operand,
        right: Operand,
        dst: Operand,
    )
        ensures
            final(self)@ == old(self)@.emit(
                Inst::Cmp { predicate, left: left@, right: right@, dst: dst@ },
            ),
    {
        self.push(StmtInner::Cmp { predicate, left, right, dst });
    }

    pub fn emit_fcmp(
        &mut self,
        float_predicate: FloatCmpPredicate,
        left: Operand,
        right: Operand,
        dst: Operand,
    )
        ensures
            final(self)@ == old(self)@.emit(
                Inst::FCmp { float_predicate, left: left@, right: right@, dst: dst@ },
            ),
    {
        self.push(StmtInner::FCmp { float_predicate, left, right, dst });
    }

    pub fn emit_sitofp(&mut self, src: Operand, dst: Operand)
        ensures
            final(self)@ == old(self)@.emit(Inst::SiToFp { src: src@, dst: dst@ }),
    {
        self.push(StmtInner::SiToFp { src, dst });
    }

    pub fn emit_fptosi(&mut self, src: Operand, dst: Operand)
        ensures
            final(self)@ == old(self)@.emit(Inst::FpToSi { src: src@, dst: dst@ }),
    {
        self.push(StmtInner::FpToSi { src, dst });
    }

    pub fn emit_call(&mut self, func_name: String, res: Option<Operand>, args: Vec<Operand>)
        ensures
            final(self)@ == old(self)@.emit(
                Inst::Call {
                    func_name: func_name@,
                    res: crate::ir::stmt::optional_val(res),
                    args: crate::ir::stmt::vals(args@),
                },
            ),
    {
        self.push(StmtInner::Call { func_name, res, args });
    }

    pub fn emit_jump(&mut self, target: BlockLabel)
        ensures
            final(self)@ == old(self)@.emit(Inst::Jump { target: target@ }),
    {
        self.push(StmtInner::Jump { target });
    }

    pub fn emit_cjump(&mut self, cond: Operand, true_label: BlockLabel, false_label: BlockLabel)
        ensures
            final(self)@ == old(self)@.emit(
                Inst::CJump {
                    cond: cond@,
                    true_label: true_label@,
                    false_label: false_label@,
                },
            ),
    {
        self.push(StmtInner::CJump { cond, true_label, false_label });
    }

    pub fn emit_return(&mut self, val: Option<Operand>)
        ensures
            final(self)@ == old(self)@.emit(Inst::Return(crate::ir::stmt::optional_val(val))),
    {
        self.push(StmtInner::Return(val));
    }

    /// Opens a scope.
    pub fn enter_scope(&mut self)
        ensures
            final(self)@ == old(self)@.enter(),
    {
        let ghost before = self@;
        self.scope_locals.push(Vec::new());
        assert(names(Seq::<String>::empty()) =~= Seq::empty());
        assert(self@.scopes =~= before.enter().scopes);
    }

    /// Closes the innermost scope and forgets the names that it introduced.
    pub fn exit_scope(&mut self)
        ensures
            final(self)@ == old(self)@.exit(),
    {
        let ghost before = self@;
        match self.scope_locals.pop() {
            Some(gone) => {
                let ghost list = names(gone@);
                proof {
                    assert(self@.scopes =~= before.scopes.drop_last());
                    assert(forget(before.locals, list.take(0)) =~= before.locals);
                }
                let mut i: usize = 0;
                while i < gone.len()
                    invariant
                        i <= gone.len(),
                        list == names(gone@),
                        self@ == (GenState {
                            locals: forget(before.locals, list.take(i as int)),
                            scopes: before.scopes.drop_last(),
                            ..before
                        }),
                    decreases gone.len() - i,
                {
                    let ghost kept = self@.locals;
                    self.local_variables.remove(gone[i].as_str());
                    proof {
                        assert(self@.locals =~= kept.remove(list[i as int]));
                        let shorter = list.take(i as int);
                        let longer = list.take(i + 1);
                        assert(longer =~= shorter.push(list[i as int]));
                        assert forall|name: Seq<char>| longer.contains(name) == (shorter.contains(
                            name,
                        ) || name == list[i as int]) by {
                            if shorter.contains(name) {
                                let k = choose|k: int| 0 <= k < shorter.len() && shorter[k] == name;
                                assert(longer[k] == name);
                            }
                            if name == list[i as int] {
                                assert(longer[i as int] == name);
                            }
                        }
                        assert(self@.locals =~= forget(before.locals, longer));
                    }
                    i += 1;
                }
                assert(list.take(list.len() as int) =~= list);
            },
            None => {},
        }
    }

    /// Notes that the innermost open scope introduced `name`.
    pub fn record_scoped_local(&mut self, name: String)
        ensures
            final(self)@ == old(self)@.noted(name@),
    {
        let ghost before = self@;
        match self.scope_locals.pop() {
            Some(mut scope) => {
                scope.push(name);
                assert(names(scope@) =~= before.scopes.last().push(name@));
                self.scope_locals.push(scope);
                assert(self@.scopes =~= before.noted(name@).scopes);
            },
            None => {},
        }
    }

    /// The symbol of a function.
    pub fn resolve_link_name(&self, name: &str) -> (symbol: String)
        ensures
            symbol@ == self@.link_name(name@),
    {
        match self.registry.link_names.get(name) {
            Some(symbol) => symbol.clone(),
            None => name.to_owned(),
        }
    }

    /// What a variable's name stands for: a local before a global.
    pub fn lookup_variable(&self, name: &str) -> (found: Result<Operand, Error>)
        ensures
            match (found, self@.variable(name@)) {
                (Ok(operand), Ok(val)) => operand@ == val,
                (Err(e), Err(fault)) => e.reports(fault),
                _ => false,
            },
    {
        match self.local_variables.get(name) {
            Some(local) => Ok(Operand::from(local)),
            None => match self.global_list.get(name) {
                Some(def) => Ok(
                    Operand::Global(
                        Global { dtype: def.dtype.clone(), identifier: name.to_owned() },
                    ),
                ),
                None => Err(Error::VariableNotDefined { symbol: name.to_owned() }),
            },
        }
    }
}

/// The model of a generator holds its code, its arguments and its open scopes in
/// their order, its variables under their names, and its counters.
pub proof fn law_generator_shown(generator: FunctionGenerator)
    ensures
        ({
            let g = generator@;
            &&& g.code.len() == generator.irs@.len()
            &&& forall|i: int| 0 <= i < g.code.len() ==> #[trigger] g.code[i] == generator.irs@[i]@
            &&& g.args.len() == generator.arguments@.len()
            &&& forall|i: int|
                0 <= i < g.args.len() ==> #[trigger] g.args[i] == generator.arguments@[i]@
            &&& forall|name: Seq<char>| #[trigger]
                g.locals.contains_key(name) <==> generator.local_variables@.contains_key(name)
            &&& forall|name: Seq<char>| #[trigger]
                g.locals.contains_key(name) ==> g.locals[name]
                    == generator.local_variables@[name]@
            &&& forall|name: Seq<char>| #[trigger]
                g.env.globals.contains_key(name) <==> generator.global_list@.contains_key(name)
            &&& forall|name: Seq<char>| #[trigger]
                g.env.globals.contains_key(name) ==> g.env.globals[name]
                    == generator.global_list@[name].dtype@
            &&& forall|name: Seq<char>| #[trigger]
                g.env.inferred.contains_key(name) <==> generator.resolved_types@.contains_key(name)
            &&& forall|name: Seq<char>| #[trigger]
                g.env.inferred.contains_key(name) ==> g.env.inferred[name]
                    == generator.resolved_types@[name]@
            &&& g.env.structs == generator.registry.structs()
            &&& g.env.functions == generator.registry.functions()
            &&& g.env.links == generator.registry.links()
            &&& g.vregs == generator.next_vreg
            &&& g.blocks == generator.next_basic_block
        }),
{
}

} // verus!
