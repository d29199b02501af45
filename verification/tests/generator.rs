//! Generation of whole programs, with a backend that makes the simplest choices.

use teac::assembly::aarch64::frame::FrameLayout;
use teac::assembly::aarch64::inst::Instruction;
use teac::assembly::aarch64::listing::{Directive, Section};
use teac::assembly::aarch64::types::{Addr, Operand, Register, RegisterSize, REG_FP};
use teac::assembly::aarch64::{stream_uses_fp, AArch64AsmGenerator, Backend, GlobalData};
use teac::assembly::common::layout::StructLayouts;
use teac::assembly::error::Error;
use teac::common::names::NameMap;
use teac::common::target::Target;
use teac::ir::module::{BasicBlock, Function, FunctionBody, GlobalDef, Module};
use teac::ir::registry::Registry;
use teac::ir::stmt::{BlockLabel, Stmt, StmtInner};
use teac::ir::types::Dtype;
use teac::ir::value::{Local, LocalId, Operand as Value};

/// Selects a single `ret`, and spills one double word.
struct Minimal {
    fails: bool,
}

impl Backend for Minimal {
    fn select(
        &self,
        symbol: &String,
        frame: &FrameLayout,
        _layouts: &StructLayouts,
        _target: Target,
        body: &FunctionBody,
    ) -> Result<Vec<Instruction>, Error> {
        if self.fails {
            return Err(Error::UnsupportedDtype { dtype: Dtype::Void });
        }
        assert_eq!(body.next_vreg, 5);
        assert_eq!(frame.frame_size(), 16);
        Ok(vec![Instruction::Label { label: symbol.clone() }, Instruction::Ret])
    }

    fn allocate(
        &self,
        insts: Vec<Instruction>,
        mut frame: FrameLayout,
    ) -> Result<(Vec<Instruction>, FrameLayout), Error> {
        frame.alloc_spill(RegisterSize::X64);
        frame.alloc_spill(RegisterSize::X64);
        Ok((insts, frame))
    }
}

fn array_of(element: Dtype, length: Option<usize>) -> Dtype {
    Dtype::Array { element: Box::new(element), length }
}

fn local(id: usize, dtype: Dtype) -> Local {
    Local { dtype, id: LocalId(id) }
}

fn body(arguments: Vec<Local>, slot: Dtype) -> FunctionBody {
    let dst = Value::Local(local(4, Dtype::ptr_to(slot)));
    FunctionBody {
        arguments,
        blocks: vec![BasicBlock {
            label: BlockLabel::Function("f".to_string()),
            stmts: vec![Stmt { inner: StmtInner::Alloca { dst } }],
        }],
        next_vreg: 5,
    }
}

fn module(functions: Vec<(&str, Option<FunctionBody>)>, globals: Vec<(&str, GlobalDef)>) -> Module {
    let mut m = Module { global_list: NameMap::new(), function_list: NameMap::new() };
    for (name, def) in globals {
        m.global_list.insert(name.to_string(), def);
    }
    for (name, body) in functions {
        let f = Function { link_name: format!("{}_linked", name), body };
        m.function_list.insert(name.to_string(), f);
    }
    m
}

fn no_layouts() -> StructLayouts {
    StructLayouts::from_struct_types(&NameMap::new()).unwrap()
}

#[test]
fn symbols_are_mangled() {
    assert_eq!(Target::Linux.mangle_symbol("main"), "main");
    assert_eq!(Target::Macos.mangle_symbol("main"), "_main");
}

#[test]
fn float_registers_are_found() {
    let dst = Register::Virtual(0);
    let src = Operand::Register(Register::Virtual(1));
    let addr = Addr::BaseOff { base: Register::StackPointer, offset: 0 };
    assert!(!stream_uses_fp(&[]));
    assert!(!stream_uses_fp(&[
        Instruction::Ret,
        Instruction::Mov { size: RegisterSize::W32, dst, src },
        Instruction::Ldr { size: RegisterSize::X64, dst, addr },
        Instruction::Cmp { size: RegisterSize::W32, lhs: src, rhs: src },
    ]));
    let users = vec![
        Instruction::FBinOp {
            op: teac::assembly::aarch64::BinOp::Add,
            dst,
            lhs: src,
            rhs: src,
        },
        Instruction::FCmp { lhs: src, rhs: src },
        Instruction::Scvtf { dst, src },
        Instruction::Fcvtzs { dst, src },
        Instruction::Fmov { dst, src },
        Instruction::Mov { size: RegisterSize::S32, dst, src },
        Instruction::Ldr { size: RegisterSize::S32, dst, addr },
        Instruction::Str { size: RegisterSize::S32, val: dst, addr },
    ];
    for user in users {
        assert!(stream_uses_fp(&[Instruction::Ret, user]));
    }
}

#[test]
fn arguments_are_lifted() {
    let mut arguments = vec![local(0, Dtype::F32), local(1, Dtype::ptr_to(Dtype::I32))];
    for id in 2..10 {
        arguments.push(local(id, Dtype::I32));
    }
    let insts = AArch64AsmGenerator::handle_arguments(&body(arguments, Dtype::I32)).unwrap();
    assert_eq!(insts.len(), 10);
    assert!(matches!(
        insts[0],
        Instruction::Fmov {
            dst: Register::Virtual(0),
            src: Operand::Register(Register::Physical(0)),
        }
    ));
    assert!(matches!(
        insts[1],
        Instruction::Mov {
            size: RegisterSize::X64,
            dst: Register::Virtual(1),
            src: Operand::Register(Register::Physical(0)),
        }
    ));
    assert!(matches!(
        insts[8],
        Instruction::Mov {
            size: RegisterSize::W32,
            dst: Register::Virtual(8),
            src: Operand::Register(Register::Physical(7)),
        }
    ));
    assert!(matches!(
        insts[9],
        Instruction::Ldr {
            size: RegisterSize::W32,
            dst: Register::Virtual(9),
            addr: Addr::BaseOff { base: Register::Physical(REG_FP), offset: 16 },
        }
    ));
    let bad = body(vec![local(0, array_of(Dtype::I32, Some(1)))], Dtype::I32);
    assert!(matches!(
        AArch64AsmGenerator::handle_arguments(&bad),
        Err(Error::UnsupportedDtype { dtype }) if dtype == array_of(Dtype::I32, Some(1))
    ));
}

#[test]
fn globals_are_laid_out() {
    let l = no_layouts();
    let global = |dtype: Dtype, initializers: Option<Vec<i32>>| {
        AArch64AsmGenerator::handle_global(
            &l,
            "g",
            &GlobalDef { dtype, initializers },
            Target::Macos,
        )
    };
    let word = global(Dtype::I32, Some(vec![-7, 8])).unwrap();
    assert_eq!(word.symbol, "_g");
    assert!(matches!(word.data, GlobalData::Word { value: -7 }));
    let zero = global(Dtype::I32, None).unwrap();
    assert!(matches!(zero.data, GlobalData::Word { value: 0 }));
    let empty = global(Dtype::I32, Some(vec![])).unwrap();
    assert!(matches!(empty.data, GlobalData::Word { value: 0 }));
    let part = global(array_of(Dtype::I32, Some(5)), Some(vec![1, -2])).unwrap();
    assert!(matches!(
        part.data,
        GlobalData::Array { words, zero_bytes: 12 } if words == vec![1, -2]
    ));
    let over = global(array_of(Dtype::I32, Some(2)), Some(vec![1, 2, 3])).unwrap();
    assert!(matches!(
        over.data,
        GlobalData::Array { words, zero_bytes: 0 } if words == vec![1, 2]
    ));
    let none = global(array_of(Dtype::ptr_to(Dtype::I32), Some(3)), None).unwrap();
    assert!(matches!(
        none.data,
        GlobalData::Array { words, zero_bytes: 24 } if words.is_empty()
    ));
    let nothing = array_of(array_of(Dtype::I32, Some(0)), Some(usize::MAX));
    assert!(matches!(
        global(nothing, None).unwrap().data,
        GlobalData::Array { words, zero_bytes: 0 } if words.is_empty()
    ));
    assert!(matches!(
        global(Dtype::F32, None),
        Err(Error::UnsupportedDtype { dtype: Dtype::F32 })
    ));
    assert!(matches!(
        global(array_of(Dtype::Void, Some(2)), None),
        Err(Error::UnsupportedDtype { dtype: Dtype::Void })
    ));
}

#[test]
fn a_program_is_generated_and_listed() {
    let m = module(
        vec![
            ("declared", None),
            ("f", Some(body(vec![local(0, Dtype::F32)], Dtype::I32))),
            ("g", Some(body(vec![], Dtype::I1))),
        ],
        vec![
            ("a", GlobalDef { dtype: Dtype::I32, initializers: Some(vec![3]) }),
            (
                "b",
                GlobalDef { dtype: array_of(Dtype::I32, Some(3)), initializers: Some(vec![5]) },
            ),
        ],
    );
    let registry = Registry::new();
    let mut generator = AArch64AsmGenerator::new(&m, &registry, Target::Linux);
    assert!(generator.generate(&Minimal { fails: false }).is_ok());
    let listing: Vec<String> = generator.output().iter().map(|d| show(d)).collect();
    assert_eq!(
        listing,
        vec![
            ".data", "global a", "align 2", "a:", "word 3", "global b", "align 2", "b:", "word 5",
            "zero 8", "", ".text", "global f_linked", "align 2", "f_linked:", "fp true",
            "prologue 32", "3 instructions", "", "global g_linked", "align 2", "g_linked:",
            "fp false", "prologue 32", "2 instructions", "",
        ]
    );
    // A second run starts afresh.
    assert!(generator.generate(&Minimal { fails: false }).is_ok());
    let again: Vec<String> = generator.output().iter().map(|d| show(d)).collect();
    assert_eq!(again, listing);
}

fn show(d: &Directive) -> String {
    match d {
        Directive::Section(Section::Data) => ".data".to_string(),
        Directive::Section(Section::Text) => ".text".to_string(),
        Directive::Global(s) => format!("global {}", s),
        Directive::Align(n) => format!("align {}", n),
        Directive::Label(s) => format!("{}:", s),
        Directive::Word(n) => format!("word {}", n),
        Directive::Zero(n) => format!("zero {}", n),
        Directive::Newline => String::new(),
        Directive::UsesFp(b) => format!("fp {}", b),
        Directive::Prologue(n) => format!("prologue {}", n),
        Directive::Insts(i) => format!("{} instructions", i.len()),
    }
}

#[test]
fn a_program_without_globals_has_no_data_section() {
    let m = module(vec![], vec![]);
    let registry = Registry::new();
    let mut generator = AArch64AsmGenerator::new(&m, &registry, Target::Linux);
    assert!(generator.generate(&Minimal { fails: false }).is_ok());
    let lines = generator.output();
    assert_eq!(lines.len(), 1);
    assert!(matches!(lines[0], Directive::Section(Section::Text)));
}

#[test]
fn a_program_is_rejected_at_its_first_fault() {
    let registry = Registry::new();
    let m = module(
        vec![("f", Some(body(vec![], Dtype::I32)))],
        vec![
            ("a", GlobalDef { dtype: Dtype::I32, initializers: None }),
            ("b", GlobalDef { dtype: Dtype::I1, initializers: None }),
        ],
    );
    let mut generator = AArch64AsmGenerator::new(&m, &registry, Target::Linux);
    assert!(matches!(
        generator.generate(&Minimal { fails: false }),
        Err(Error::UnsupportedDtype { dtype: Dtype::I1 })
    ));
    assert_eq!(generator.output().len(), 7);
    let m = module(
        vec![
            ("f", Some(body(vec![], Dtype::I32))),
            ("g", Some(body(vec![local(0, Dtype::Void)], Dtype::I32))),
        ],
        vec![],
    );
    let mut generator = AArch64AsmGenerator::new(&m, &registry, Target::Linux);
    assert!(matches!(
        generator.generate(&Minimal { fails: false }),
        Err(Error::UnsupportedDtype { dtype: Dtype::Void })
    ));
    assert_eq!(generator.output().len(), 8);
    assert!(generator.generate(&Minimal { fails: true }).is_err());
    assert_eq!(generator.output().len(), 1);
}
