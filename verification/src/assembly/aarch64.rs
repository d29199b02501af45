//! Code generation for AArch64.

pub mod aapcs;
pub mod frame;
pub mod inst;
pub mod listing;
pub mod types;

pub use inst::Instruction;
pub use types::{BinOp, Operand, Register};

use crate::assembly::common::layout::{Layout, StructLayouts};
use crate::assembly::common::stack_frame::Frame;
use crate::assembly::error::Error;
use crate::common::target::Target;
use crate::ir::module::{Function, FunctionBody, GlobalDef, Module};
use crate::ir::registry::Registry;
use crate::ir::types::{Dtype, Ty};
use crate::ir::value::Local;
use aapcs::{classify_args, ArgumentLocation};
use frame::FrameLayout;
use listing::Directive;
use types::RegisterSize;
use vstd::prelude::*;

verus! {

/// A global variable as it stands in the data section.
#[derive(Debug)]
pub struct GeneratedGlobal {
    pub symbol: String,
    pub data: GlobalData,
}

/// The contents of a global variable.
#[derive(Debug)]
pub enum GlobalData {
    Word { value: i64 },
    Array { words: Vec<i64>, zero_bytes: i64 },
}

/// A function as it stands in the text section.
#[derive(Debug)]
pub struct GeneratedFunction {
    pub symbol: String,
    pub frame_size: i64,
    pub insts: Vec<Instruction>,
    /// Whether this function uses any FP register.  Drives the FP half
    /// of the caller-saved bracket: only FP-using functions preserve
    /// the `s18`–`s25` pool around their calls.
    pub uses_fp: bool,
}

/// The model of a [`GlobalData`].
pub enum Data {
    Word { value: int },
    Array { words: Seq<i64>, zero_bytes: int },
}

impl View for GlobalData {
    type V = Data;

    open spec fn view(&self) -> Data {
        match self {
            GlobalData::Word { value } => Data::Word { value: *value as int },
            GlobalData::Array { words, zero_bytes } => Data::Array {
                words: words@,
                zero_bytes: *zero_bytes as int,
            },
        }
    }
}

/// Whether some instruction names a float register.
pub open spec fn any_uses_fp(insts: Seq<Instruction>) -> bool {
    exists|i: int| 0 <= i < insts.len() && (#[trigger] insts[i]).uses_fp()
}

/// Whether the instruction stream uses any FP register — a dedicated
/// FP opcode or an `S32`-sized `Mov` / `Ldr` / `Str`.  Drives the FP
/// half of the caller-saved register bracket.
pub fn stream_uses_fp(insts: &[Instruction]) -> (uses: bool)
    ensures
        uses == any_uses_fp(insts@),
{
    let mut i: usize = 0;
    while i < insts.len()
        invariant
            i <= insts@.len(),
            forall|j: int| 0 <= j < i ==> !(#[trigger] insts@[j]).uses_fp(),
        decreases insts@.len() - i,
    {
        let uses = match &insts[i] {
            Instruction::FBinOp { op: _, dst: _, lhs: _, rhs: _ } => true,
            Instruction::FCmp { lhs: _, rhs: _ } => true,
            Instruction::Scvtf { dst: _, src: _ } => true,
            Instruction::Fcvtzs { dst: _, src: _ } => true,
            Instruction::Fmov { dst: _, src: _ } => true,
            Instruction::Mov { size, dst: _, src: _ } => *size == RegisterSize::S32,
            Instruction::Ldr { size, dst: _, addr: _ } => *size == RegisterSize::S32,
            Instruction::Str { size, val: _, addr: _ } => *size == RegisterSize::S32,
            _ => false,
        };
        if uses {
            assert(insts@[i as int].uses_fp());
            return true;
        }
        i += 1;
    }
    false
}

/// The types of a function's arguments.
pub open spec fn argument_types(arguments: Seq<Local>) -> Seq<Ty> {
    Seq::new(arguments.len(), |i: int| arguments[i].dtype@)
}

/// How an argument at a location gets into its virtual register.
pub open spec fn lifted(arg: Local, loc: ArgumentLocation) -> Instruction {
    let dst = Register::Virtual(arg.id.0);
    let size = RegisterSize::of(arg.dtype@)->Some_0;
    match loc {
        ArgumentLocation::Gpr(n) => Instruction::Mov {
            size,
            dst,
            src: Operand::Register(Register::Physical(n)),
        },
        ArgumentLocation::Fpr(n) => Instruction::Fmov {
            dst,
            src: Operand::Register(Register::Physical(n)),
        },
        ArgumentLocation::Stack { offset } => Instruction::Ldr {
            size,
            dst,
            addr: FrameLayout::incoming_addr(offset as int),
        },
    }
}

/// The instructions that lift every argument, in order.
pub open spec fn entry_shim(arguments: Seq<Local>) -> Seq<Instruction> {
    let tys = argument_types(arguments);
    Seq::new(
        arguments.len(),
        |i: int| lifted(arguments[i], crate::assembly::aarch64::aapcs::location(tys, i)),
    )
}

/// Whether the frame offsets of `n` arguments are machine numbers.
pub open spec fn arguments_fit(n: nat) -> bool {
    n * aapcs::OUTGOING_ARG_SLOT_BYTES + frame::STACK_ARG_FP_BASE <= i64::MAX
}

/// What a global variable holds: an `i32` its first initial value or 0; an
/// array its initial values, as many as it is long, and zeros for the rest.  Or
/// the type that no global can have.
pub open spec fn global_data(structs: Map<Seq<char>, Layout>, def: GlobalDef) -> Result<
    Data,
    Ty,
> {
    let inits = match def.initializers {
        Some(list) => list@.map_values(|v: i32| v as i64),
        None => Seq::empty(),
    };
    match def.dtype@ {
        Ty::I32 => Ok(
            Data::Word {
                value: if inits.len() > 0 {
                    inits[0] as int
                } else {
                    0
                },
            },
        ),
        Ty::Array(element, Some(len)) => match crate::assembly::common::layout::layout_of(
            structs,
            *element,
        ) {
            Err(t) => Err(t),
            Ok(l) => {
                let kept = if inits.len() < len {
                    inits.len() as int
                } else {
                    len as int
                };
                Ok(Data::Array { words: inits.take(kept), zero_bytes: (len - kept) * l.size })
            },
        },
        t => Err(t),
    }
}

/// A global array takes the bytes of all its elements: its words, at four bytes
/// each, and its zeros.  This holds of elements of four bytes, and of any
/// elements where there are no initial values.
pub proof fn law_global_covers_array(
    structs: Map<Seq<char>, Layout>,
    def: GlobalDef,
    element: Ty,
    len: usize,
    layout: Layout,
)
    requires
        def.dtype@ == Ty::Array(Box::new(element), Some(len)),
        crate::assembly::common::layout::layout_of(structs, element) == Ok::<_, Ty>(layout),
        layout.size == 4 || def.initializers is None,
    ensures
        global_data(structs, def) matches Ok(Data::Array { words, zero_bytes }) && 4 * words.len()
            + zero_bytes == len * layout.size,
{
}

/// Whether a global can be laid out at all: an array has a length, and its
/// zeros are a machine number of bytes.
pub open spec fn global_fits(structs: Map<Seq<char>, Layout>, def: GlobalDef) -> bool {
    let inits = match def.initializers {
        Some(list) => list@.len() as int,
        None => 0,
    };
    match def.dtype@ {
        Ty::Array(_, None) => false,
        Ty::Array(element, Some(len)) => match crate::assembly::common::layout::layout_of(
            structs,
            *element,
        ) {
            Ok(l) => inits < len ==> (len - inits) * l.size <= i64::MAX,
            Err(_) => true,
        },
        _ => true,
    }
}

/// Instruction selection and register allocation, which a generator hands the
/// body of each function to.
pub trait Backend {
    /// Selects the instructions of a function's blocks, over virtual registers.
    fn select(
        &self,
        symbol: &String,
        frame: &FrameLayout,
        layouts: &StructLayouts,
        target: Target,
        body: &FunctionBody,
    ) -> Result<Vec<Instruction>, Error>;

    /// Replaces the virtual registers by the machine's; those that are spilled
    /// get slots in the frame.
    fn allocate(&self, insts: Vec<Instruction>, frame: FrameLayout) -> Result<
        (Vec<Instruction>, FrameLayout),
        Error,
    >;
}

/// What is known of a function before its instructions are selected: its
/// symbol, the frame of its `alloca`s, and the shim that lifts its arguments.
#[derive(Debug)]
pub struct FunctionEntry {
    pub symbol: String,
    pub frame: FrameLayout,
    pub shim: Vec<Instruction>,
}

/// Generates assembly for a whole program.
pub struct AArch64AsmGenerator<'a> {
    module: &'a Module,
    registry: &'a Registry,
    target: Target,
    globals: Vec<GeneratedGlobal>,
    functions: Vec<GeneratedFunction>,
}

impl<'a> AArch64AsmGenerator<'a> {
    /// The program that assembly is generated for.
    pub closed spec fn program(&self) -> Module {
        *self.module
    }

    /// The types of the program.
    pub closed spec fn types(&self) -> Registry {
        *self.registry
    }

    pub closed spec fn platform(&self) -> Target {
        self.target
    }

    /// The globals generated so far.
    pub closed spec fn data(&self) -> Seq<GeneratedGlobal> {
        self.globals@
    }

    /// The functions generated so far.
    pub closed spec fn text(&self) -> Seq<GeneratedFunction> {
        self.functions@
    }

    /// A generator that has generated nothing yet.
    pub fn new(module: &'a Module, registry: &'a Registry, target: Target) -> (generator: Self)
        ensures
            generator.program() == *module,
            generator.types() == *registry,
            generator.platform() == target,
            generator.data() == Seq::<GeneratedGlobal>::empty(),
            generator.text() == Seq::<GeneratedFunction>::empty(),
    {
        AArch64AsmGenerator {
            module,
            registry,
            target,
            globals: Vec::new(),
            functions: Vec::new(),
        }
    }

    /// Emits the function-entry shim that lifts each incoming AAPCS64
    /// argument from its calling-convention slot (`x_`, `s_`, or
    /// stack) into the vreg that the function body refers to.
    /// Classification is delegated to [`classify_args`] so that the
    /// callee and the call sites agree on every argument's location by
    /// construction.
    pub fn handle_arguments(body: &FunctionBody) -> (insts: Result<Vec<Instruction>, Error>)
        requires
            arguments_fit(body.arguments@.len()),
        ensures
            match insts {
                Ok(i) => {
                    &&& aapcs::first_unpassable(argument_types(body.arguments@)) is None
                    &&& i@ == entry_shim(body.arguments@)
                },
                Err(e) => aapcs::first_unpassable(argument_types(body.arguments@)) == Some(e.ty()),
            },
    {
        let ghost args = body.arguments@;
        let ghost tys = argument_types(args);
        let mut dtypes: Vec<&Dtype> = Vec::new();
        let mut i: usize = 0;
        while i < body.arguments.len()
            invariant
                i <= body.arguments@.len(),
                dtypes@.len() == i,
                forall|j: int| 0 <= j < i ==> *(#[trigger] dtypes@[j]) == body.arguments@[j].dtype,
            decreases body.arguments@.len() - i,
        {
            dtypes.push(&body.arguments[i].dtype);
            i += 1;
        }
        assert(aapcs::types_of(dtypes@) =~= tys);
        let locs = match classify_args(&dtypes) {
            Ok(locs) => locs,
            Err(e) => {
                return Err(e);
            },
        };
        let mut insts: Vec<Instruction> = Vec::new();
        let mut i: usize = 0;
        while i < body.arguments.len()
            invariant
                i <= body.arguments@.len(),
                args == body.arguments@,
                tys == argument_types(args),
                arguments_fit(args.len()),
                aapcs::first_unpassable(tys) is None,
                locs@ == aapcs::locations(tys),
                insts@.len() == i,
                forall|j: int| 0 <= j < i ==> #[trigger] insts@[j] == entry_shim(args)[j],
            decreases body.arguments@.len() - i,
        {
            proof {
                aapcs::lemma_all_passable(tys, i as int);
                aapcs::law_location_in_range(tys, i as int);
                aapcs::lemma_counts_grow(tys, i as int, i as int);
            }
            let arg = &body.arguments[i];
            let dst = Register::Virtual(arg.id.0);
            let size = match RegisterSize::try_from(&arg.dtype) {
                Ok(size) => size,
                Err(e) => {
                    return Err(e);
                },
            };
            let inst = match locs[i] {
                ArgumentLocation::Gpr(n) => Instruction::Mov {
                    size,
                    dst,
                    src: Operand::Register(Register::Physical(n)),
                },
                ArgumentLocation::Fpr(n) => Instruction::Fmov {
                    dst,
                    src: Operand::Register(Register::Physical(n)),
                },
                ArgumentLocation::Stack { offset } => Instruction::Ldr {
                    size,
                    dst,
                    addr: FrameLayout::incoming_arg_addr(offset),
                },
            };
            insts.push(inst);
            i += 1;
        }
        assert(insts@ =~= entry_shim(args));
        Ok(insts)
    }

    /// Lays out one global variable.
    pub fn handle_global(
        layouts: &StructLayouts,
        name: &str,
        def: &GlobalDef,
        target: Target,
    ) -> (global: Result<GeneratedGlobal, Error>)
        requires
            global_fits(layouts@, *def),
        ensures
            match global {
                Ok(g) => {
                    &&& g.symbol@ == target.symbol(name@)
                    &&& global_data(layouts@, *def) == Ok::<_, Ty>(g.data@)
                },
                Err(e) => global_data(layouts@, *def) == Err::<Data, _>(e.ty()),
            },
    {
        let symbol = target.mangle_symbol(name);
        reveal_with_fuel(Dtype::ty, 2);
        let data = match &def.dtype {
            Dtype::I32 => {
                let value: i64 = match &def.initializers {
                    Some(inits) => if inits.len() > 0 {
                        inits[0] as i64
                    } else {
                        0
                    },
                    None => 0,
                };
                GlobalData::Word { value }
            },
            Dtype::Array { element, length } => {
                let len: usize = match length {
                    Some(len) => *len,
                    None => vstd::pervasive::unreached(),
                };
                let (elem_size, _) = match layouts.size_align_of(element) {
                    Ok(layout) => layout,
                    Err(e) => {
                        return Err(e);
                    },
                };
                match &def.initializers {
                    Some(inits) => {
                        let words = first_words(inits, len);
                        let remaining: usize = if inits.len() < len {
                            len - inits.len()
                        } else {
                            0
                        };
                        let zero_bytes = zero_size(remaining, elem_size);
                        GlobalData::Array { words, zero_bytes }
                    },
                    None => {
                        let zero_bytes = zero_size(len, elem_size);
                        let words: Vec<i64> = Vec::new();
                        assert(words@ =~= Seq::<i64>::empty().take(0));
                        GlobalData::Array { words, zero_bytes }
                    },
                }
            },
            _ => {
                return Err(Error::UnsupportedDtype { dtype: def.dtype.clone() });
            },
        };
        Ok(GeneratedGlobal { symbol, data })
    }

    /// What is written out, in order: the data section, unless there are no
    /// globals, and the text section.
    pub fn output(&self) -> (lines: Vec<Directive<'_>>)
        ensures
            lines@ == listing::data_section(self.data()) + listing::text_section(self.text()),
    {
        let mut lines: Vec<Directive<'_>> = Vec::new();
        listing::push_data_section(&mut lines, &self.globals);
        listing::push_text_section(&mut lines, &self.functions);
        assert(lines@ =~= listing::data_section(self.data()) + listing::text_section(self.text()));
        lines
    }

    /// What is known of a function before its instructions are selected.
    pub fn begin_function(
        layouts: &StructLayouts,
        link_name: &str,
        body: &FunctionBody,
        target: Target,
    ) -> (entry: Result<FunctionEntry, Error>)
        requires
            arguments_fit(body.arguments@.len()),
        ensures
            match entry {
                Ok(e) => begins(layouts@, link_name@, *body, target, e),
                Err(e) => rejected_at_entry(layouts@, *body) == Some(e.ty()),
            },
    {
        let symbol = target.mangle_symbol(link_name);
        let frame = match FrameLayout::from_blocks(body.blocks.as_slice(), layouts) {
            Ok(frame) => frame,
            Err(e) => {
                return Err(e);
            },
        };
        let shim = match Self::handle_arguments(body) {
            Ok(shim) => shim,
            Err(e) => {
                return Err(e);
            },
        };
        Ok(FunctionEntry { symbol, frame, shim })
    }

    /// A function whose registers have been allocated.  `uses_fp` is what
    /// [`stream_uses_fp`] said of it before.
    pub fn finish_function(
        symbol: String,
        insts: Vec<Instruction>,
        frame: &FrameLayout,
        uses_fp: bool,
    ) -> (function: GeneratedFunction)
        ensures
            function.symbol == symbol,
            function.frame_size == frame@.rounded(),
            function.insts == insts,
            function.uses_fp == uses_fp,
    {
        GeneratedFunction { symbol, frame_size: frame.frame_size(), insts, uses_fp }
    }

    /// Generates the whole program: every global, and every function that has a
    /// body.  One without a body is defined in another object file.
    pub fn generate<B: Backend>(&mut self, backend: &B) -> (done: Result<(), Error>)
        requires
            program_fits(old(self).program(), old(self).types()),
        ensures
            final(self).program() == old(self).program(),
            final(self).types() == old(self).types(),
            final(self).platform() == old(self).platform(),
            match crate::assembly::common::layout::struct_layouts(
                old(self).types().struct_types.order(),
            ) {
                Err(t) => {
                    &&& done matches Err(e) && e.ty() == t
                    &&& final(self).data() == old(self).data()
                    &&& final(self).text() == old(self).text()
                },
                Ok(structs) => exists|layouts: StructLayouts|
                    layouts@ == structs && #[trigger] program_done(
                        *backend,
                        layouts,
                        old(self).program(),
                        old(self).platform(),
                        old(self).text(),
                        final(self).data(),
                        final(self).text(),
                        done,
                    ),
            },
    {
        let layouts = match StructLayouts::from_struct_types(&self.registry.struct_types) {
            Ok(layouts) => layouts,
            Err(e) => {
                return Err(e);
            },
        };
        let ghost before = *self;
        let ghost globals = self.module.global_list.order();
        let ghost functions = self.module.function_list.order();

        self.globals.clear();
        let mut i: usize = 0;
        while i < self.module.global_list.len()
            invariant
                i <= globals.len(),
                program_fits(*before.module, *before.registry),
                crate::assembly::common::layout::struct_layouts(
                    before.registry.struct_types.order(),
                ) == Ok::<_, Ty>(layouts@),
                globals == before.module.global_list.order(),
                self.module == before.module,
                self.registry == before.registry,
                self.target == before.target,
                self.functions == before.functions,
                before == *old(self),
                self.globals@.len() == i,
                globals_done(layouts@, globals, self.target, self.globals@),
            decreases globals.len() - i,
        {
            let name = self.module.global_list.name_at(i);
            let def = self.module.global_list.value_at(i);
            assert(global_fits(layouts@, globals[i as int].1));
            match Self::handle_global(&layouts, name, def, self.target) {
                Ok(global) => {
                    self.globals.push(global);
                },
                Err(e) => {
                    proof {
                        let done = Err::<(), Error>(e);
                        assert(program_done(
                            *backend,
                            layouts,
                            old(self).program(),
                            old(self).platform(),
                            old(self).text(),
                            self.data(),
                            self.text(),
                            done,
                        ));
                    }
                    return Err(e);
                },
            }
            i += 1;
        }

        self.functions.clear();
        let mut i: usize = 0;
        assert(bodied(functions.take(0)) =~= Seq::empty());
        while i < self.module.function_list.len()
            invariant
                i <= functions.len(),
                program_fits(*before.module, *before.registry),
                crate::assembly::common::layout::struct_layouts(
                    before.registry.struct_types.order(),
                ) == Ok::<_, Ty>(layouts@),
                globals == before.module.global_list.order(),
                functions == before.module.function_list.order(),
                self.module == before.module,
                self.registry == before.registry,
                self.target == before.target,
                before == *old(self),
                self.globals@.len() == globals.len(),
                globals_done(layouts@, globals, self.target, self.globals@),
                self.functions@.len() == bodied(functions.take(i as int)).len(),
                functions_done(
                    *backend,
                    layouts,
                    bodied(functions),
                    self.target,
                    self.functions@,
                ),
            decreases functions.len() - i,
        {
            proof {
                lemma_bodied(functions, i as int);
            }
            let func = self.module.function_list.value_at(i);
            if let Some(body) = &func.body {
                assert(functions[i as int].1.body is Some);
                match Self::handle_function(
                    backend,
                    &layouts,
                    func.link_name.as_str(),
                    body,
                    self.target,
                ) {
                    Ok(function) => {
                        self.functions.push(function);
                    },
                    Err(e) => {
                        proof {
                            let done = Err::<(), Error>(e);
                            assert(program_done(
                                *backend,
                                layouts,
                                old(self).program(),
                                old(self).platform(),
                                old(self).text(),
                                self.data(),
                                self.text(),
                                done,
                            ));
                        }
                        return Err(e);
                    },
                }
            }
            i += 1;
            proof {
                if i < functions.len() {
                    lemma_bodied(functions, i as int);
                }
            }
        }
        proof {
            assert(functions.take(i as int) =~= functions);
            let done = Ok::<(), Error>(());
            assert(program_done(
                *backend,
                layouts,
                old(self).program(),
                old(self).platform(),
                old(self).text(),
                self.data(),
                self.text(),
                done,
            ));
        }
        Ok(())
    }

    /// Generates one function: the shim for its arguments, then the
    /// instructions of its blocks, all with their registers allocated.
    pub fn handle_function<B: Backend>(
        backend: &B,
        layouts: &StructLayouts,
        link_name: &str,
        body: &FunctionBody,
        target: Target,
    ) -> (function: Result<GeneratedFunction, Error>)
        requires
            arguments_fit(body.arguments@.len()),
        ensures
            generated(*backend, *layouts, link_name@, *body, target, function),
    {
        let entry = match Self::begin_function(layouts, link_name, body, target) {
            Ok(entry) => entry,
            Err(e) => {
                return Err(e);
            },
        };
        let ghost begun = entry;
        let selected = backend.select(&entry.symbol, &entry.frame, layouts, target, body);
        let ghost selection = selected;
        let mut insts = entry.shim;
        let mut rest = match selected {
            Ok(rest) => rest,
            Err(e) => {
                assert(selects(*backend, *layouts, *body, target, begun, selection));
                return Err(e);
            },
        };
        insts.append(&mut rest);
        let uses_fp = stream_uses_fp(insts.as_slice());
        let ghost stream = insts;
        let allocated = backend.allocate(insts, entry.frame);
        let ghost allocation = allocated;
        proof {
            assert(selects(*backend, *layouts, *body, target, begun, selection));
            assert(allocates(*backend, stream, begun.frame, allocation));
        }
        let (insts, frame) = match allocated {
            Ok(result) => result,
            Err(e) => {
                return Err(e);
            },
        };
        Ok(Self::finish_function(entry.symbol, insts, &frame, uses_fp))
    }
}

/// The functions of a program that have bodies, in order.
pub open spec fn bodied(order: Seq<(Seq<char>, Function)>) -> Seq<Function>
    decreases order.len(),
{
    if order.len() == 0 {
        Seq::empty()
    } else {
        let before = bodied(order.drop_last());
        if order.last().1.body is Some {
            before.push(order.last().1)
        } else {
            before
        }
    }
}

/// Whether the first globals of a program are laid out like this.
pub open spec fn globals_done(
    structs: Map<Seq<char>, Layout>,
    order: Seq<(Seq<char>, GlobalDef)>,
    target: Target,
    data: Seq<GeneratedGlobal>,
) -> bool {
    &&& data.len() <= order.len()
    &&& forall|i: int|
        0 <= i < data.len() ==> {
            &&& (#[trigger] data[i]).symbol@ == target.symbol(order[i].0)
            &&& global_data(structs, order[i].1) == Ok::<_, Ty>(data[i].data@)
        }
}

/// Whether the first functions of a program may be generated like this.
pub open spec fn functions_done<B: Backend>(
    backend: B,
    layouts: StructLayouts,
    functions: Seq<Function>,
    target: Target,
    text: Seq<GeneratedFunction>,
) -> bool {
    &&& text.len() <= functions.len()
    &&& forall|i: int|
        0 <= i < text.len() ==> generated(
            backend,
            layouts,
            functions[i].link_name@,
            functions[i].body->Some_0,
            target,
            Ok(#[trigger] text[i]),
        )
}

/// Whether machine numbers are large enough for a program.
pub open spec fn program_fits(program: Module, types: Registry) -> bool {
    &&& crate::assembly::common::layout::struct_layouts(
        types.struct_types.order(),
    ) matches Ok(structs) ==> forall|i: int|
        0 <= i < program.global_list.order().len() ==> global_fits(
            structs,
            (#[trigger] program.global_list.order()[i]).1,
        )
    &&& forall|i: int|
        0 <= i < program.function_list.order().len() ==> {
            (#[trigger] program.function_list.order()[i]).1.body matches Some(body)
                ==> arguments_fit(body.arguments@.len())
        }
}

/// What a generation leaves, where the structs have the given layouts: all
/// globals and all functions with bodies; or, where one of them is rejected,
/// those before it.
pub open spec fn program_done<B: Backend>(
    backend: B,
    layouts: StructLayouts,
    program: Module,
    target: Target,
    before: Seq<GeneratedFunction>,
    data: Seq<GeneratedGlobal>,
    text: Seq<GeneratedFunction>,
    done: Result<(), Error>,
) -> bool {
    let globals = program.global_list.order();
    let functions = bodied(program.function_list.order());
    &&& globals_done(layouts@, globals, target, data)
    &&& if data.len() < globals.len() {
        &&& done matches Err(e) && global_data(layouts@, globals[data.len() as int].1) == Err::<
            Data,
            _,
        >(e.ty())
        &&& text == before
    } else {
        &&& functions_done(backend, layouts, functions, target, text)
        &&& match done {
            Ok(_) => text.len() == functions.len(),
            Err(e) => text.len() < functions.len() && generated(
                backend,
                layouts,
                functions[text.len() as int].link_name@,
                functions[text.len() as int].body->Some_0,
                target,
                Err(e),
            ),
        }
    }
}

/// Where a function with a body stands among those with bodies.
proof fn lemma_bodied(order: Seq<(Seq<char>, Function)>, n: int)
    requires
        0 <= n < order.len(),
    ensures
        bodied(order.take(n)).len() <= bodied(order).len(),
        order[n].1.body is Some ==> bodied(order.take(n)).len() < bodied(order).len() && bodied(
            order,
        )[bodied(order.take(n)).len() as int] == order[n].1,
        bodied(order.take(n + 1)) == if order[n].1.body is Some {
            bodied(order.take(n)).push(order[n].1)
        } else {
            bodied(order.take(n))
        },
    decreases order.len(),
{
    assert(order.take(n + 1).drop_last() =~= order.take(n));
    if n < order.len() - 1 {
        let shorter = order.drop_last();
        lemma_bodied(shorter, n);
        assert(shorter.take(n) =~= order.take(n));
        assert(shorter[n] == order[n]);
    } else {
        assert(order.take(n) =~= order.drop_last());
    }
}

/// The type that keeps a function from being generated, if there is one: of an
/// `alloca` before one of an argument.
pub open spec fn rejected_at_entry(structs: Map<Seq<char>, Layout>, body: FunctionBody) -> Option<
    Ty,
> {
    match frame::frame_of(body.blocks@, structs) {
        Err(t) => Some(t),
        Ok(_) => aapcs::first_unpassable(argument_types(body.arguments@)),
    }
}

/// Whether an entry is that of a function.
pub open spec fn begins(
    structs: Map<Seq<char>, Layout>,
    link_name: Seq<char>,
    body: FunctionBody,
    target: Target,
    entry: FunctionEntry,
) -> bool {
    &&& rejected_at_entry(structs, body) is None
    &&& entry.symbol@ == target.symbol(link_name)
    &&& frame::frame_of(body.blocks@, structs) == Ok::<_, Ty>(entry.frame@)
    &&& entry.shim@ == entry_shim(body.arguments@)
}

/// Whether the backend may select these instructions for a function.
pub open spec fn selects<B: Backend>(
    backend: B,
    layouts: StructLayouts,
    body: FunctionBody,
    target: Target,
    entry: FunctionEntry,
    selected: Result<Vec<Instruction>, Error>,
) -> bool {
    call_ensures(
        B::select,
        (&backend, &entry.symbol, &entry.frame, &layouts, target, &body),
        selected,
    )
}

/// Whether the backend may allocate the registers of a stream like this.
pub open spec fn allocates<B: Backend>(
    backend: B,
    stream: Vec<Instruction>,
    frame: FrameLayout,
    allocated: Result<(Vec<Instruction>, FrameLayout), Error>,
) -> bool {
    call_ensures(B::allocate, (&backend, stream, frame), allocated)
}

/// Whether a function may be generated like this: it is rejected for the type
/// of an `alloca` or argument; or by the backend, which is handed the entry and
/// then the stream of shim and selected instructions; or it is what the backend
/// made of that stream, under the function's symbol, with the size of the frame
/// that the backend gave back.
pub open spec fn generated<B: Backend>(
    backend: B,
    layouts: StructLayouts,
    link_name: Seq<char>,
    body: FunctionBody,
    target: Target,
    function: Result<GeneratedFunction, Error>,
) -> bool {
    match rejected_at_entry(layouts@, body) {
        Some(t) => function matches Err(e) && e.ty() == t,
        None => exists|entry: FunctionEntry, selected: Result<Vec<Instruction>, Error>|
            {
                &&& begins(layouts@, link_name, body, target, entry)
                &&& #[trigger] selects(backend, layouts, body, target, entry, selected)
                &&& match selected {
                    Err(e) => function == Err::<GeneratedFunction, _>(e),
                    Ok(rest) => allocated_from(backend, entry, rest@, function),
                }
            },
    }
}

/// The part of [`generated`] that follows the selection.
pub open spec fn allocated_from<B: Backend>(
    backend: B,
    entry: FunctionEntry,
    rest: Seq<Instruction>,
    function: Result<GeneratedFunction, Error>,
) -> bool {
    exists|
        stream: Vec<Instruction>,
        allocated: Result<(Vec<Instruction>, FrameLayout), Error>,
    |
        {
            &&& stream@ == entry.shim@ + rest
            &&& #[trigger] allocates(backend, stream, entry.frame, allocated)
            &&& match allocated {
                Err(e) => function == Err::<GeneratedFunction, _>(e),
                Ok((insts, frame)) => function matches Ok(f) && {
                    &&& f.symbol == entry.symbol
                    &&& f.frame_size == frame@.rounded()
                    &&& f.insts == insts
                    &&& f.uses_fp == any_uses_fp(stream@)
                },
            }
        }
}

/// A generation that ends well leaves one entry for each global of the program,
/// and one for each function that has a body, in order and under their symbols,
/// whatever was there before.
pub proof fn law_generation_complete<B: Backend>(
    backend: B,
    layouts: StructLayouts,
    program: Module,
    target: Target,
    before: Seq<GeneratedFunction>,
    data: Seq<GeneratedGlobal>,
    text: Seq<GeneratedFunction>,
)
    requires
        program_done(backend, layouts, program, target, before, data, text, Ok(())),
    ensures
        ({
            let globals = program.global_list.order();
            let functions = bodied(program.function_list.order());
            &&& data.len() == globals.len()
            &&& forall|i: int|
                0 <= i < data.len() ==> (#[trigger] data[i]).symbol@ == target.symbol(globals[i].0)
                    && global_data(layouts@, globals[i].1) == Ok::<_, Ty>(data[i].data@)
            &&& text.len() == functions.len()
            &&& forall|i: int|
                0 <= i < text.len() ==> (#[trigger] text[i]).symbol@ == target.symbol(
                    functions[i].link_name@,
                )
            &&& forall|i: int|
                0 <= i < text.len() ==> generated(
                    backend,
                    layouts,
                    functions[i].link_name@,
                    functions[i].body->Some_0,
                    target,
                    Ok(#[trigger] text[i]),
                )
        }),
{
}

/// Whether a backend gives the same each time that it is handed the same.
pub open spec fn repeatable<B: Backend>(backend: B) -> bool {
    &&& forall|
        layouts1: StructLayouts,
        layouts2: StructLayouts,
        body: FunctionBody,
        target: Target,
        entry1: FunctionEntry,
        entry2: FunctionEntry,
        selected1: Result<Vec<Instruction>, Error>,
        selected2: Result<Vec<Instruction>, Error>,
    |
        {
            &&& #[trigger] selects(backend, layouts1, body, target, entry1, selected1)
            &&& #[trigger] selects(backend, layouts2, body, target, entry2, selected2)
            &&& layouts1@ == layouts2@
            &&& entry1.symbol@ == entry2.symbol@
            &&& entry1.frame@ == entry2.frame@
        } ==> match (selected1, selected2) {
            (Ok(a), Ok(b)) => inst::same_insts(a@, b@),
            (Err(_), Err(_)) => true,
            _ => false,
        }
    &&& forall|
        stream1: Vec<Instruction>,
        stream2: Vec<Instruction>,
        frame1: FrameLayout,
        frame2: FrameLayout,
        allocated1: Result<(Vec<Instruction>, FrameLayout), Error>,
        allocated2: Result<(Vec<Instruction>, FrameLayout), Error>,
    |
        {
            &&& #[trigger] allocates(backend, stream1, frame1, allocated1)
            &&& #[trigger] allocates(backend, stream2, frame2, allocated2)
            &&& inst::same_insts(stream1@, stream2@)
            &&& frame1@ == frame2@
        } ==> match (allocated1, allocated2) {
            (Ok((a, f)), Ok((b, g))) => inst::same_insts(a@, b@) && f@ == g@,
            (Err(_), Err(_)) => true,
            _ => false,
        }
}

/// Whether two functions are written the same.
pub open spec fn same_function(a: GeneratedFunction, b: GeneratedFunction) -> bool {
    &&& a.symbol@ == b.symbol@
    &&& a.frame_size == b.frame_size
    &&& inst::same_insts(a.insts@, b.insts@)
    &&& a.uses_fp == b.uses_fp
}

/// Two generations of one program that end well leave the same globals; and, if
/// the backend gives the same for the same, the same functions.
pub proof fn law_generation_repeats<B: Backend>(
    backend: B,
    layouts1: StructLayouts,
    layouts2: StructLayouts,
    program: Module,
    target: Target,
    before1: Seq<GeneratedFunction>,
    before2: Seq<GeneratedFunction>,
    data1: Seq<GeneratedGlobal>,
    data2: Seq<GeneratedGlobal>,
    text1: Seq<GeneratedFunction>,
    text2: Seq<GeneratedFunction>,
)
    requires
        layouts1@ == layouts2@,
        program_done(backend, layouts1, program, target, before1, data1, text1, Ok(())),
        program_done(backend, layouts2, program, target, before2, data2, text2, Ok(())),
    ensures
        data1.len() == data2.len(),
        forall|i: int|
            0 <= i < data1.len() ==> (#[trigger] data1[i]).symbol@ == data2[i].symbol@
                && data1[i].data@ == data2[i].data@,
        text1.len() == text2.len(),
        repeatable(backend) ==> forall|i: int|
            0 <= i < text1.len() ==> same_function(#[trigger] text1[i], text2[i]),
{
    let functions = bodied(program.function_list.order());
    assert forall|i: int| 0 <= i < data1.len() implies (#[trigger] data1[i]).symbol@
        == data2[i].symbol@ && data1[i].data@ == data2[i].data@ by {
        assert(global_data(layouts2@, program.global_list.order()[i].1) == Ok::<_, Ty>(
            data2[i].data@,
        ));
    }
    if repeatable(backend) {
        assert forall|i: int| 0 <= i < text1.len() implies same_function(
            #[trigger] text1[i],
            text2[i],
        ) by {
            let body = functions[i].body->Some_0;
            let name = functions[i].link_name@;
            assert(generated(backend, layouts2, name, body, target, Ok(text2[i])));
            lemma_repeated(backend, layouts1, layouts2, name, body, target, text1[i], text2[i]);
        }
    }
}

proof fn lemma_repeated<B: Backend>(
    backend: B,
    layouts1: StructLayouts,
    layouts2: StructLayouts,
    link_name: Seq<char>,
    body: FunctionBody,
    target: Target,
    a: GeneratedFunction,
    b: GeneratedFunction,
)
    requires
        repeatable(backend),
        layouts1@ == layouts2@,
        generated(backend, layouts1, link_name, body, target, Ok(a)),
        generated(backend, layouts2, link_name, body, target, Ok(b)),
    ensures
        same_function(a, b),
{
    let (entry1, selected1) = choose|entry: FunctionEntry, selected: Result<Vec<Instruction>, Error>|
        {
            &&& begins(layouts1@, link_name, body, target, entry)
            &&& #[trigger] selects(backend, layouts1, body, target, entry, selected)
            &&& match selected {
                Err(e) => Ok::<GeneratedFunction, Error>(a) == Err::<GeneratedFunction, _>(e),
                Ok(rest) => allocated_from(backend, entry, rest@, Ok(a)),
            }
        };
    let (entry2, selected2) = choose|entry: FunctionEntry, selected: Result<Vec<Instruction>, Error>|
        {
            &&& begins(layouts2@, link_name, body, target, entry)
            &&& #[trigger] selects(backend, layouts2, body, target, entry, selected)
            &&& match selected {
                Err(e) => Ok::<GeneratedFunction, Error>(b) == Err::<GeneratedFunction, _>(e),
                Ok(rest) => allocated_from(backend, entry, rest@, Ok(b)),
            }
        };
    let (stream1, allocated1) = choose|
        stream: Vec<Instruction>,
        allocated: Result<(Vec<Instruction>, FrameLayout), Error>,
    |
        {
            &&& stream@ == entry1.shim@ + selected1->Ok_0@
            &&& #[trigger] allocates(backend, stream, entry1.frame, allocated)
            &&& match allocated {
                Err(e) => Ok::<GeneratedFunction, Error>(a) == Err::<GeneratedFunction, _>(e),
                Ok((insts, frame)) => a.symbol == entry1.symbol && a.frame_size == frame@.rounded()
                    && a.insts == insts && a.uses_fp == any_uses_fp(stream@),
            }
        };
    let (stream2, allocated2) = choose|
        stream: Vec<Instruction>,
        allocated: Result<(Vec<Instruction>, FrameLayout), Error>,
    |
        {
            &&& stream@ == entry2.shim@ + selected2->Ok_0@
            &&& #[trigger] allocates(backend, stream, entry2.frame, allocated)
            &&& match allocated {
                Err(e) => Ok::<GeneratedFunction, Error>(b) == Err::<GeneratedFunction, _>(e),
                Ok((insts, frame)) => b.symbol == entry2.symbol && b.frame_size == frame@.rounded()
                    && b.insts == insts && b.uses_fp == any_uses_fp(stream@),
            }
        };
    assert(inst::same_insts(selected1->Ok_0@, selected2->Ok_0@));
    assert forall|i: int| 0 <= i < stream1@.len() implies (#[trigger] stream1@[i]).same(
        stream2@[i],
    ) by {
        let n = entry1.shim@.len() as int;
        if i >= n {
            assert(selected1->Ok_0@[i - n].same(selected2->Ok_0@[i - n]));
        }
    }
    lemma_same_fp(stream1@, stream2@);
    assert(inst::same_insts(stream1@, stream2@));
}

proof fn lemma_same_fp(a: Seq<Instruction>, b: Seq<Instruction>)
    requires
        inst::same_insts(a, b),
    ensures
        any_uses_fp(a) == any_uses_fp(b),
{
    if any_uses_fp(a) {
        let i = choose|i: int| 0 <= i < a.len() && (#[trigger] a[i]).uses_fp();
        assert(a[i].same(b[i]));
        assert(b[i].uses_fp());
    }
    if any_uses_fp(b) {
        let i = choose|i: int| 0 <= i < b.len() && (#[trigger] b[i]).uses_fp();
        assert(a[i].same(b[i]));
        assert(a[i].uses_fp());
    }
}

/// A global `i32` holds its first initial value, or 0; element `k` of a global
/// array with an initial value for it holds that value.  An array has as many
/// words as it has initial values, but no more than it has elements, and zeros
/// for the elements that are left.  Nothing else can be global, and is reported.
pub proof fn law_global_contents(structs: Map<Seq<char>, Layout>, def: GlobalDef)
    ensures
        match def.dtype@ {
            Ty::I32 => global_data(structs, def) matches Ok(Data::Word { value }) && value == (
            match def.initializers {
                Some(list) => if list@.len() > 0 {
                    list@[0] as int
                } else {
                    0
                },
                None => 0,
            }),
            Ty::Array(element, Some(len)) => match crate::assembly::common::layout::layout_of(
                structs,
                *element,
            ) {
                Err(t) => global_data(structs, def) == Err::<Data, Ty>(t),
                Ok(l) => global_data(structs, def) matches Ok(Data::Array { words, zero_bytes })
                    && match def.initializers {
                    Some(list) => {
                        &&& words.len() <= list@.len()
                        &&& words.len() <= len
                        &&& words.len() == list@.len() || words.len() == len
                        &&& forall|k: int|
                            0 <= k < words.len() ==> #[trigger] words[k] == list@[k]
                        &&& zero_bytes == (len - words.len()) * l.size
                    },
                    None => words.len() == 0 && zero_bytes == len * l.size,
                },
            },
            other => global_data(structs, def) == Err::<Data, Ty>(other),
        },
{
}

/// Whether an instruction reads the value at an argument's location into a
/// virtual register.
pub open spec fn reads_location(inst: Instruction, loc: ArgumentLocation, into: usize) -> bool {
    match loc {
        ArgumentLocation::Gpr(n) => inst matches Instruction::Mov { size, dst, src } && dst
            == Register::Virtual(into) && src == Operand::Register(Register::Physical(n)),
        ArgumentLocation::Fpr(n) => inst matches Instruction::Fmov { dst, src } && dst
            == Register::Virtual(into) && src == Operand::Register(Register::Physical(n)),
        ArgumentLocation::Stack { offset } => inst matches Instruction::Ldr { size, dst, addr }
            && dst == Register::Virtual(into) && addr == FrameLayout::incoming_addr(offset as int),
    }
}

/// The shim at a function's entry has one instruction for each argument, in
/// order; it reads the argument from where the calling convention passes it, in
/// the size of its type, into the register that the body knows it by.
pub proof fn law_arguments_lifted(arguments: Seq<Local>, i: int)
    requires
        0 <= i < arguments.len(),
        aapcs::first_unpassable(argument_types(arguments)) is None,
    ensures
        ({
            let inst = entry_shim(arguments)[i];
            let loc = aapcs::location(argument_types(arguments), i);
            let ty = arguments[i].dtype@;
            let size = match ty {
                Ty::Pointer(_) => RegisterSize::X64,
                Ty::F32 => RegisterSize::S32,
                _ => RegisterSize::W32,
            };
            &&& entry_shim(arguments).len() == arguments.len()
            &&& argument_types(arguments).len() == arguments.len()
            &&& argument_types(arguments)[i] == ty
            &&& reads_location(inst, loc, arguments[i].id.0)
            &&& inst matches Instruction::Mov { size: s, dst, src } ==> s == size
            &&& inst matches Instruction::Ldr { size: s, dst, addr } ==> s == size
        }),
{
    aapcs::lemma_all_passable(argument_types(arguments), i);
}

/// A function with a body has its place among those with bodies, behind all that
/// are declared before it; and only those have one.
pub proof fn law_bodies_in_order(order: Seq<(Seq<char>, Function)>, i: int)
    requires
        0 <= i < order.len(),
    ensures
        bodied(order.take(0)).len() == 0,
        bodied(order.take(i + 1)).len() == bodied(order.take(i)).len() + if order[i].1.body is Some {
            1int
        } else {
            0
        },
        order[i].1.body is Some ==> {
            let at = bodied(order.take(i)).len() as int;
            at < bodied(order).len() && bodied(order)[at] == order[i].1
        },
        i == order.len() - 1 ==> bodied(order.take(i + 1)).len() == bodied(order).len(),
{
    lemma_bodied(order, i);
    if i == order.len() - 1 {
        assert(order.take(i + 1) =~= order);
    }
}

/// A function that was generated is what register allocation made of a stream
/// that begins with the shim for the arguments and goes on with the selected
/// instructions; it stands under its symbol, has the size of the frame that
/// register allocation left, and uses float registers exactly if an instruction
/// of the stream, shim included, does.
pub proof fn law_function_generated<B: Backend>(
    backend: B,
    layouts: StructLayouts,
    link_name: Seq<char>,
    body: FunctionBody,
    target: Target,
    f: GeneratedFunction,
)
    requires
        generated(backend, layouts, link_name, body, target, Ok(f)),
    ensures
        f.symbol@ == target.symbol(link_name),
        frame::frame_of(body.blocks@, layouts@) is Ok,
        aapcs::first_unpassable(argument_types(body.arguments@)) is None,
        exists|stream: Vec<Instruction>, frame: FrameLayout, left: FrameLayout|
            {
                let shim = entry_shim(body.arguments@);
                &&& #[trigger] allocates(backend, stream, frame, Ok((f.insts, left)))
                &&& frame::frame_of(body.blocks@, layouts@) == Ok::<_, Ty>(frame@)
                &&& shim.len() <= stream@.len()
                &&& stream@.take(shim.len() as int) == shim
                &&& f.frame_size == left@.rounded()
                &&& f.uses_fp <==> exists|i: int|
                    0 <= i < stream@.len() && (#[trigger] stream@[i]).uses_fp()
            },
{
    let (entry, selected) = choose|entry: FunctionEntry, selected: Result<Vec<Instruction>, Error>|
        {
            &&& begins(layouts@, link_name, body, target, entry)
            &&& #[trigger] selects(backend, layouts, body, target, entry, selected)
            &&& match selected {
                Err(e) => Ok::<GeneratedFunction, Error>(f) == Err::<GeneratedFunction, _>(e),
                Ok(rest) => allocated_from(backend, entry, rest@, Ok(f)),
            }
        };
    let rest = selected->Ok_0@;
    let (stream, allocated) = choose|
        stream: Vec<Instruction>,
        allocated: Result<(Vec<Instruction>, FrameLayout), Error>,
    |
        {
            &&& stream@ == entry.shim@ + rest
            &&& #[trigger] allocates(backend, stream, entry.frame, allocated)
            &&& match allocated {
                Err(e) => Ok::<GeneratedFunction, Error>(f) == Err::<GeneratedFunction, _>(e),
                Ok((insts, frame)) => f.symbol == entry.symbol && f.frame_size == frame@.rounded()
                    && f.insts == insts && f.uses_fp == any_uses_fp(stream@),
            }
        };
    let left = (allocated->Ok_0).1;
    assert(allocated == Ok::<(Vec<Instruction>, FrameLayout), Error>((f.insts, left)));
    assert(allocates(backend, stream, entry.frame, Ok((f.insts, left))));
    assert(stream@.take(entry.shim@.len() as int) =~= entry.shim@);
}

/// A function is rejected before its instructions are selected exactly if one of
/// its `alloca`s has no slot or one of its arguments cannot be passed, and the
/// type of the first of these is reported, `alloca`s before arguments.
pub proof fn law_function_rejected<B: Backend>(
    backend: B,
    layouts: StructLayouts,
    link_name: Seq<char>,
    body: FunctionBody,
    target: Target,
    function: Result<GeneratedFunction, Error>,
)
    requires
        generated(backend, layouts, link_name, body, target, function),
    ensures
        frame::frame_of(body.blocks@, layouts@) matches Err(t) ==> function matches Err(e) && e.ty()
            == t,
        frame::frame_of(body.blocks@, layouts@) is Ok ==> (aapcs::first_unpassable(
            argument_types(body.arguments@),
        ) matches Some(t) ==> function matches Err(e) && e.ty() == t),
{
}

/// A generation that fails has generated, in order, all that stands before what
/// it failed on: a global without contents, which is reported; or, behind all
/// globals, a function.
pub proof fn law_generation_rejected<B: Backend>(
    backend: B,
    layouts: StructLayouts,
    program: Module,
    target: Target,
    before: Seq<GeneratedFunction>,
    data: Seq<GeneratedGlobal>,
    text: Seq<GeneratedFunction>,
    e: Error,
)
    requires
        program_done(backend, layouts, program, target, before, data, text, Err(e)),
    ensures
        ({
            let globals = program.global_list.order();
            let functions = bodied(program.function_list.order());
            &&& forall|i: int|
                0 <= i < data.len() ==> (#[trigger] data[i]).symbol@ == target.symbol(globals[i].0)
                    && global_data(layouts@, globals[i].1) == Ok::<_, Ty>(data[i].data@)
            &&& data.len() < globals.len() ==> global_data(
                layouts@,
                globals[data.len() as int].1,
            ) == Err::<Data, _>(e.ty()) && text == before
            &&& data.len() >= globals.len() ==> {
                &&& data.len() == globals.len()
                &&& text.len() < functions.len()
                &&& generated(
                    backend,
                    layouts,
                    functions[text.len() as int].link_name@,
                    functions[text.len() as int].body->Some_0,
                    target,
                    Err(e),
                )
            }
        }),
{
}

/// What a program may be so that assembly can be generated for it: a global that
/// is no array always fits, an array with a length if its bytes are a machine
/// number, and so many arguments as there can be in memory.
pub proof fn law_programs_fit(
    structs: Map<Seq<char>, Layout>,
    def: GlobalDef,
    len: usize,
    element: Ty,
    arguments: nat,
)
    requires
        crate::assembly::common::layout::valid_layouts(structs),
    ensures
        !(def.dtype@ is Array) ==> global_fits(structs, def),
        def.dtype@ == Ty::Array(Box::new(element), Some(len)) && crate::assembly::common::layout::layout_of(
            structs,
            def.dtype@,
        ) is Ok ==> global_fits(structs, def),
        def.dtype@ == Ty::Array(Box::new(element), Some(len)) && crate::assembly::common::layout::layout_of(
            structs,
            element,
        ) is Err ==> global_fits(structs, def),
        arguments <= 0x0800_0000_0000_0000 ==> arguments_fit(arguments) && aapcs::offsets_fit(
            arguments,
        ),
{
    if let Ok(l) = crate::assembly::common::layout::layout_of(structs, element) {
        crate::assembly::common::layout::law_layout_valid(structs, element);
        let inits = match def.initializers {
            Some(list) => list@.len() as int,
            None => 0,
        };
        assert((len - inits) * l.size <= len * l.size) by (nonlinear_arith)
            requires
                0 <= inits,
                0 <= l.size,
        ;
    }
}

/// A program fits if each of its globals and each function with a body does.
pub proof fn law_program_fits(program: Module, types: Registry, structs: Map<Seq<char>, Layout>)
    requires
        crate::assembly::common::layout::struct_layouts(types.struct_types.order()) == Ok::<_, Ty>(
            structs,
        ),
        forall|i: int|
            0 <= i < program.global_list.order().len() ==> global_fits(
                structs,
                (#[trigger] program.global_list.order()[i]).1,
            ),
        forall|i: int|
            0 <= i < program.function_list.order().len() ==> ((
            #[trigger] program.function_list.order()[i]).1.body matches Some(body)
                ==> arguments_fit(body.arguments@.len())),
    ensures
        program_fits(program, types),
{
}

/// What is known of a function before its instructions are selected: its symbol,
/// the frame that its `alloca`s make, and the shim for its arguments.  It is
/// rejected exactly if there is no such frame, or an argument cannot be passed,
/// in that order.
pub proof fn law_function_entry(
    structs: Map<Seq<char>, Layout>,
    link_name: Seq<char>,
    body: FunctionBody,
    target: Target,
    entry: FunctionEntry,
)
    ensures
        begins(structs, link_name, body, target, entry) ==> {
            &&& entry.symbol@ == target.symbol(link_name)
            &&& Frame::empty().after_all(
                structs,
                crate::assembly::common::stack_frame::code_of(body.blocks@),
            ) == Ok::<_, Ty>(entry.frame@)
            &&& entry.shim@ == entry_shim(body.arguments@)
        },
        match Frame::empty().after_all(
            structs,
            crate::assembly::common::stack_frame::code_of(body.blocks@),
        ) {
            Err(t) => rejected_at_entry(structs, body) == Some(t),
            Ok(_) => rejected_at_entry(structs, body) == aapcs::first_unpassable(
                argument_types(body.arguments@),
            ),
        },
{
}

/// The bytes that a number of elements takes.
fn zero_size(count: usize, elem_size: i64) -> (bytes: i64)
    requires
        0 <= elem_size,
        count > 0 ==> count * elem_size <= i64::MAX,
    ensures
        bytes == count * elem_size,
{
    if count == 0 || elem_size == 0 {
        // Elements without a size take no room, however many there are.
        assert(count * elem_size == 0) by (nonlinear_arith)
            requires
                count == 0 || elem_size == 0,
        ;
        0
    } else {
        assert(count <= count * elem_size) by (nonlinear_arith)
            requires
                0 <= count,
                1 <= elem_size,
        ;
        (count as i64) * elem_size
    }
}

/// The first `len` words of a list, or all of them if there are fewer.
fn first_words(inits: &Vec<i32>, len: usize) -> (words: Vec<i64>)
    ensures
        words@ == inits@.map_values(|v: i32| v as i64).take(
            if inits@.len() < len {
                inits@.len() as int
            } else {
                len as int
            },
        ),
{
    let mut words: Vec<i64> = Vec::new();
    let mut i: usize = 0;
    while i < inits.len() && i < len
        invariant
            i <= inits@.len(),
            i <= len,
            words@ =~= inits@.map_values(|v: i32| v as i64).take(i as int),
        decreases inits@.len() - i,
    {
        words.push(inits[i] as i64);
        i += 1;
    }
    words
}

} // verus!
