//! Lowered code, run by a small interpreter.

use teac::ast::decl::{
    ArrayInitializer, FnDecl, FnDef, VarDef, VarDefArray, VarDefInner, VarDefScalar,
};
use teac::ast::expr::{
    ArithBiOp, ArithBiOpExpr, ArithExpr, ArithExprInner, ArrayExpr, BoolBiOp, BoolBiOpExpr,
    BoolExpr, BoolExprInner, BoolUOp, BoolUOpExpr, BoolUnit, BoolUnitInner, ComExpr, ComOp,
    ExprUnit, ExprUnitInner, FnCall, IndexExpr, IndexExprInner, LeftVal, LeftValInner, RightVal,
    RightValInner,
};
use teac::ast::stmt::{
    AssignmentStmt, BreakStmt, CodeBlockStmt, CodeBlockStmtInner, ContinueStmt, ForStmt, IfStmt,
    RangeBound, RangeBoundInner, ReturnStmt, VarDeclStmt, VarDeclStmtInner, WhileStmt,
};
use teac::ast::types::{BuiltIn, TypeSpecifier, TypeSpecifierInner};
use teac::common::names::NameMap;
use teac::ir::function::FunctionGenerator;
use teac::ir::registry::{FunctionType, Registry};
use teac::ir::stmt::{
    ArithBinOp, BlockLabel, CmpPredicate, FloatBinOp, FloatCmpPredicate, Stmt, StmtInner,
};
use teac::ir::types::Dtype;
use teac::ir::value::Operand;

// ---------------------------------------------------------------------------
// Building programs
// ---------------------------------------------------------------------------

fn num(n: i32) -> ExprUnit {
    ExprUnit { pos: 0, inner: ExprUnitInner::Num(n) }
}

fn float(f: f32) -> ExprUnit {
    ExprUnit { pos: 0, inner: ExprUnitInner::FloatNum(f.to_bits()) }
}

fn var(name: &str) -> ExprUnit {
    ExprUnit { pos: 0, inner: ExprUnitInner::Id(name.to_string()) }
}

fn elem(name: &str, idx: &str) -> ExprUnit {
    ExprUnit { pos: 0, inner: ExprUnitInner::ArrayExpr(Box::new(element(name, idx))) }
}

fn element(name: &str, idx: &str) -> ArrayExpr {
    ArrayExpr {
        arr: Box::new(place(name)),
        idx: Box::new(IndexExpr { inner: IndexExprInner::Id(idx.to_string()) }),
    }
}

fn arith(u: ExprUnit) -> ArithExpr {
    ArithExpr { pos: 0, inner: ArithExprInner::ExprUnit(Box::new(u)) }
}

fn op(op: ArithBiOp, left: ArithExpr, right: ArithExpr) -> ArithExpr {
    ArithExpr {
        pos: 0,
        inner: ArithExprInner::ArithBiOpExpr(Box::new(ArithBiOpExpr {
            op,
            left: Box::new(left),
            right: Box::new(right),
        })),
    }
}

fn value(e: ArithExpr) -> RightVal {
    RightVal { inner: RightValInner::ArithExpr(Box::new(e)) }
}

fn val(u: ExprUnit) -> RightVal {
    value(arith(u))
}

fn truth(e: BoolExpr) -> RightVal {
    RightVal { inner: RightValInner::BoolExpr(Box::new(e)) }
}

fn com(op: ComOp, left: ExprUnit, right: ExprUnit) -> BoolUnit {
    let (left, right) = (Box::new(left), Box::new(right));
    BoolUnit { inner: BoolUnitInner::ComExpr(Box::new(ComExpr { op, left, right })) }
}

fn not(cond: BoolUnit) -> BoolUnit {
    let inner = BoolUOpExpr { op: BoolUOp::Not, cond: Box::new(cond) };
    BoolUnit { inner: BoolUnitInner::BoolUOpExpr(Box::new(inner)) }
}

fn group(e: BoolExpr) -> BoolUnit {
    BoolUnit { inner: BoolUnitInner::BoolExpr(Box::new(e)) }
}

fn both(op: BoolBiOp, left: BoolUnit, right: BoolUnit) -> BoolExpr {
    let side = |u| Box::new(BoolExpr { inner: BoolExprInner::BoolUnit(Box::new(u)) });
    BoolExpr {
        inner: BoolExprInner::BoolBiOpExpr(Box::new(BoolBiOpExpr {
            op,
            left: side(left),
            right: side(right),
        })),
    }
}

fn place(name: &str) -> LeftVal {
    LeftVal { inner: LeftValInner::Id(name.to_string()) }
}

fn stmt(inner: CodeBlockStmtInner) -> CodeBlockStmt {
    CodeBlockStmt { inner }
}

fn assign(left_val: LeftVal, right_val: RightVal) -> CodeBlockStmt {
    stmt(CodeBlockStmtInner::Assignment(Box::new(AssignmentStmt { left_val, right_val })))
}

fn ret(v: RightVal) -> CodeBlockStmt {
    stmt(CodeBlockStmtInner::Return(Box::new(ReturnStmt { val: Some(v) })))
}

fn annotation(b: BuiltIn) -> Option<TypeSpecifier> {
    Some(TypeSpecifier { pos: 0, inner: TypeSpecifierInner::BuiltIn(b) })
}

fn define(name: &str, inner: VarDefInner) -> CodeBlockStmt {
    let def = VarDef {
        identifier: name.to_string(),
        type_specifier: annotation(BuiltIn::Int),
        inner,
    };
    let inner = VarDeclStmtInner::Def(def);
    stmt(CodeBlockStmtInner::VarDecl(Box::new(VarDeclStmt { inner })))
}

fn def(name: &str, v: RightVal) -> CodeBlockStmt {
    define(name, VarDefInner::Scalar(VarDefScalar { val: v }))
}

fn if_stmt(
    bool_unit: BoolUnit,
    if_stmts: Vec<CodeBlockStmt>,
    else_stmts: Option<Vec<CodeBlockStmt>>,
) -> CodeBlockStmt {
    stmt(CodeBlockStmtInner::If(Box::new(IfStmt { bool_unit, if_stmts, else_stmts })))
}

fn while_stmt(bool_unit: BoolUnit, stmts: Vec<CodeBlockStmt>) -> CodeBlockStmt {
    stmt(CodeBlockStmtInner::While(Box::new(WhileStmt { bool_unit, stmts })))
}

fn for_stmt(
    iterator: &str,
    start: RangeBoundInner,
    end: RangeBoundInner,
    stmts: Vec<CodeBlockStmt>,
) -> CodeBlockStmt {
    stmt(CodeBlockStmtInner::For(Box::new(ForStmt {
        iterator: iterator.to_string(),
        start: RangeBound { pos: 0, inner: start },
        end: RangeBound { pos: 0, inner: end },
        stmts,
    })))
}

fn function(args: &[&str], return_dtype: Dtype) -> FunctionType {
    FunctionType {
        arguments: args.iter().map(|n| (n.to_string(), Dtype::I32)).collect(),
        return_dtype,
    }
}

/// Lowers a function of two arguments.
fn lower(stmts: Vec<CodeBlockStmt>) -> Vec<Stmt> {
    let mut registry = Registry::new();
    registry.function_types.insert("f".to_string(), function(&["a", "b"], Dtype::I32));
    registry.function_types.insert("trace".to_string(), function(&["v"], Dtype::I32));
    let globals = NameMap::new();
    let inferred = NameMap::new();
    let mut generator = FunctionGenerator::new(&registry, &globals, &inferred);
    let f = FnDef { fn_decl: FnDecl { identifier: "f".to_string() }, stmts };
    assert!(generator.can_generate(&f));
    assert!(generator.generate(&f).is_ok());
    generator.irs
}

// ---------------------------------------------------------------------------
// Running code
// ---------------------------------------------------------------------------

#[derive(Clone, Copy, Debug, PartialEq)]
enum Word {
    Int(i32),
    Float(f32),
    Truth(bool),
    Address(usize),
    Unset,
}

struct Machine {
    registers: Vec<Word>,
    memory: Vec<Word>,
    /// What `trace` was called with.
    traced: Vec<i32>,
}

impl Machine {
    fn read(&self, o: &Operand) -> Word {
        match o {
            Operand::Int(n) => Word::Int(*n),
            Operand::Float(bits) => Word::Float(f32::from_bits(*bits)),
            Operand::Local(l) => {
                assert_ne!(self.registers[l.id.0], Word::Unset);
                self.registers[l.id.0]
            }
            Operand::Global(_) => panic!("no globals here"),
        }
    }

    fn integer(&self, o: &Operand) -> i32 {
        match self.read(o) {
            Word::Int(n) => n,
            other => panic!("no integer: {:?}", other),
        }
    }

    fn float(&self, o: &Operand) -> f32 {
        match self.read(o) {
            Word::Float(f) => f,
            other => panic!("no float: {:?}", other),
        }
    }

    fn address(&self, o: &Operand) -> usize {
        match self.read(o) {
            Word::Address(a) => a,
            other => panic!("no address: {:?}", other),
        }
    }

    fn write(&mut self, o: &Operand, w: Word) {
        match o {
            Operand::Local(l) => self.registers[l.id.0] = w,
            _ => panic!("not a register"),
        }
    }

    fn size(t: &Dtype) -> usize {
        match t {
            Dtype::Array { element, length } => Machine::size(element) * length.unwrap(),
            _ => 1,
        }
    }
}

fn find(code: &[Stmt], target: &BlockLabel) -> usize {
    let same = |l: &BlockLabel| match (l, target) {
        (BlockLabel::BasicBlock(a), BlockLabel::BasicBlock(b)) => a == b,
        _ => false,
    };
    code.iter()
        .position(|s| matches!(&s.inner, StmtInner::Label(l) if same(l)))
        .unwrap()
}

/// Runs the code on two arguments; gives the result and what was traced.
fn run(code: &[Stmt], a: i32, b: i32) -> (i32, Vec<i32>) {
    let mut m = Machine { registers: vec![Word::Unset; 1000], memory: vec![], traced: vec![] };
    m.registers[0] = Word::Int(a);
    m.registers[2] = Word::Int(b);
    let mut pc = 0;
    for _ in 0..100_000 {
        let mut next = pc + 1;
        match &code[pc].inner {
            StmtInner::Label(_) => {}
            StmtInner::Alloca { dst } => {
                let at = m.memory.len();
                let size = match dst.dtype() {
                    Dtype::Pointer { pointee } => Machine::size(&pointee),
                    _ => panic!("alloca of no pointer"),
                };
                m.memory.resize(at + size, Word::Unset);
                m.write(dst, Word::Address(at));
            }
            StmtInner::Load { dst, ptr } => {
                let w = m.memory[m.address(ptr)];
                m.write(dst, w);
            }
            StmtInner::Store { src, ptr } => {
                let at = m.address(ptr);
                m.memory[at] = m.read(src);
            }
            StmtInner::Gep { new_ptr, base_ptr, index } => {
                let at = m.address(base_ptr) + m.integer(index) as usize;
                m.write(new_ptr, Word::Address(at));
            }
            StmtInner::BiOp { kind, left, right, dst } => {
                let (x, y) = (m.integer(left), m.integer(right));
                let r = match kind {
                    ArithBinOp::Add => x.wrapping_add(y),
                    ArithBinOp::Sub => x.wrapping_sub(y),
                    ArithBinOp::Mul => x.wrapping_mul(y),
                    ArithBinOp::SDiv => x.wrapping_div(y),
                };
                m.write(dst, Word::Int(r));
            }
            StmtInner::FBiOp { float_kind, left, right, dst } => {
                let (x, y) = (m.float(left), m.float(right));
                let r = match float_kind {
                    FloatBinOp::FAdd => x + y,
                    FloatBinOp::FSub => x - y,
                    FloatBinOp::FMul => x * y,
                    FloatBinOp::FDiv => x / y,
                };
                m.write(dst, Word::Float(r));
            }
            StmtInner::Cmp { predicate, left, right, dst } => {
                let (x, y) = (m.integer(left), m.integer(right));
                let r = match predicate {
                    CmpPredicate::Eq => x == y,
                    CmpPredicate::Ne => x != y,
                    CmpPredicate::Sgt => x > y,
                    CmpPredicate::Sge => x >= y,
                    CmpPredicate::Slt => x < y,
                    CmpPredicate::Sle => x <= y,
                };
                m.write(dst, Word::Truth(r));
            }
            StmtInner::FCmp { float_predicate, left, right, dst } => {
                let (x, y) = (m.float(left), m.float(right));
                let r = match float_predicate {
                    FloatCmpPredicate::Oeq => x == y,
                    FloatCmpPredicate::One => x < y || x > y,
                    FloatCmpPredicate::Ogt => x > y,
                    FloatCmpPredicate::Oge => x >= y,
                    FloatCmpPredicate::Olt => x < y,
                    FloatCmpPredicate::Ole => x <= y,
                };
                m.write(dst, Word::Truth(r));
            }
            StmtInner::SiToFp { src, dst } => {
                let r = m.integer(src) as f32;
                m.write(dst, Word::Float(r));
            }
            StmtInner::FpToSi { src, dst } => {
                let r = m.float(src) as i32;
                m.write(dst, Word::Int(r));
            }
            StmtInner::Call { func_name, res, args } => {
                assert_eq!(func_name, "trace");
                let v = m.integer(&args[0]);
                m.traced.push(v);
                m.write(res.as_ref().unwrap(), Word::Int(v));
            }
            StmtInner::Jump { target } => next = find(code, target),
            StmtInner::CJump { cond, true_label, false_label } => {
                next = match m.read(cond) {
                    Word::Truth(true) => find(code, true_label),
                    Word::Truth(false) => find(code, false_label),
                    other => panic!("no condition: {:?}", other),
                };
            }
            StmtInner::Return(v) => {
                let result = m.integer(v.as_ref().unwrap());
                return (result, m.traced);
            }
        }
        pc = next;
    }
    panic!("does not end")
}

fn trace(v: i32) -> ExprUnit {
    let call = FnCall {
        receiver: None,
        module_prefix: None,
        name: "trace".to_string(),
        vals: vec![val(num(v))],
    };
    ExprUnit { pos: 0, inner: ExprUnitInner::FnCall(Box::new(call)) }
}

// ---------------------------------------------------------------------------

#[test]
fn arithmetic_is_computed() {
    let e = op(
        ArithBiOp::Sub,
        op(ArithBiOp::Mul, arith(var("a")), arith(num(3))),
        op(ArithBiOp::Div, arith(var("b")), arith(num(2))),
    );
    let code = lower(vec![ret(value(e))]);
    assert_eq!(run(&code, 5, 9).0, 11);
    assert_eq!(run(&code, -5, -9).0, -11);
    assert_eq!(run(&code, i32::MAX, 0).0, i32::MAX.wrapping_mul(3));
    let e = op(
        ArithBiOp::Add,
        op(ArithBiOp::Mul, arith(var("a")), arith(float(0.5))),
        arith(var("b")),
    );
    let code = lower(vec![ret(value(e))]);
    assert_eq!(run(&code, 5, 1).0, 3);
}

#[test]
fn operands_are_evaluated_from_left_to_right() {
    let e = op(ArithBiOp::Sub, arith(trace(8)), op(ArithBiOp::Mul, arith(trace(2)), arith(trace(3))));
    assert_eq!(run(&lower(vec![ret(value(e))]), 0, 0), (2, vec![8, 2, 3]));
}

#[test]
fn conditions_are_computed() {
    let between = both(
        BoolBiOp::And,
        com(ComOp::Le, num(0), var("a")),
        not(com(ComOp::Ge, var("a"), var("b"))),
    );
    let code = lower(vec![ret(truth(between))]);
    assert_eq!(run(&code, 3, 5).0, 1);
    assert_eq!(run(&code, 5, 5).0, 0);
    assert_eq!(run(&code, -1, 5).0, 0);
    let outside = not(group(both(
        BoolBiOp::And,
        com(ComOp::Le, num(0), var("a")),
        com(ComOp::Lt, var("a"), var("b")),
    )));
    let code = lower(vec![if_stmt(outside, vec![ret(val(num(10)))], Some(vec![ret(val(num(20)))]))]);
    assert_eq!(run(&code, 3, 5).0, 20);
    assert_eq!(run(&code, 7, 5).0, 10);
}

#[test]
fn the_right_operand_is_evaluated_only_if_needed() {
    let cond = |op: BoolBiOp| {
        both(op, com(ComOp::Eq, trace(1), var("a")), com(ComOp::Eq, trace(2), var("b")))
    };
    let and = lower(vec![ret(truth(cond(BoolBiOp::And)))]);
    assert_eq!(run(&and, 1, 2), (1, vec![1, 2]));
    assert_eq!(run(&and, 1, 0), (0, vec![1, 2]));
    assert_eq!(run(&and, 0, 2), (0, vec![1]));
    let or = lower(vec![ret(truth(cond(BoolBiOp::Or)))]);
    assert_eq!(run(&or, 1, 0), (1, vec![1]));
    assert_eq!(run(&or, 0, 2), (1, vec![1, 2]));
    assert_eq!(run(&or, 0, 0), (0, vec![1, 2]));
}

#[test]
fn loops_run() {
    // The sum of the odd numbers from a up to b, but no further than 9.
    let code = lower(vec![
        def("sum", val(num(0))),
        for_stmt(
            "i",
            RangeBoundInner::Id("a".to_string()),
            RangeBoundInner::Id("b".to_string()),
            vec![
                def(
                    "half",
                    value(op(ArithBiOp::Div, arith(var("i")), arith(num(2)))),
                ),
                def(
                    "even",
                    truth(both(
                        BoolBiOp::And,
                        com(ComOp::Eq, var("i"), var("i")),
                        com(
                            ComOp::Eq,
                            ExprUnit {
                                pos: 0,
                                inner: ExprUnitInner::ArithExpr(Box::new(op(
                                    ArithBiOp::Mul,
                                    arith(var("half")),
                                    arith(num(2)),
                                ))),
                            },
                            var("i"),
                        ),
                    )),
                ),
                if_stmt(
                    com(ComOp::Eq, var("even"), num(1)),
                    vec![stmt(CodeBlockStmtInner::Continue(ContinueStmt {}))],
                    None,
                ),
                if_stmt(
                    com(ComOp::Gt, var("i"), num(9)),
                    vec![stmt(CodeBlockStmtInner::Break(BreakStmt {}))],
                    None,
                ),
                assign(place("sum"), value(op(ArithBiOp::Add, arith(var("sum")), arith(var("i"))))),
            ],
        ),
        ret(val(var("sum"))),
    ]);
    assert_eq!(run(&code, 0, 6).0, 9);
    assert_eq!(run(&code, 0, 100).0, 25);
    assert_eq!(run(&code, 6, 6).0, 0);
    assert_eq!(run(&code, 8, 3).0, 0);
    let code = lower(vec![
        def("n", val(num(0))),
        while_stmt(
            com(ComOp::Gt, var("a"), num(0)),
            vec![
                assign(place("a"), value(op(ArithBiOp::Sub, arith(var("a")), arith(var("b"))))),
                assign(place("n"), value(op(ArithBiOp::Add, arith(var("n")), arith(num(1))))),
            ],
        ),
        ret(val(var("n"))),
    ]);
    assert_eq!(run(&code, 10, 3).0, 4);
    assert_eq!(run(&code, 0, 3).0, 0);
}

#[test]
fn the_bounds_of_a_for_loop_are_evaluated_once() {
    let code = lower(vec![
        for_stmt(
            "i",
            RangeBoundInner::ArithExpr(Box::new(arith(trace(1)))),
            RangeBoundInner::ArithExpr(Box::new(arith(trace(4)))),
            vec![assign(place("a"), val(var("i")))],
        ),
        ret(val(var("a"))),
    ]);
    assert_eq!(run(&code, 0, 0), (3, vec![1, 4]));
}

#[test]
fn arrays_are_initialised() {
    let list = ArrayInitializer::ExplicitList(vec![val(trace(5)), val(trace(6)), val(trace(7))]);
    let code = lower(vec![
        define("t", VarDefInner::Array(VarDefArray { len: 3, initializer: list })),
        assign(
            LeftVal { inner: LeftValInner::ArrayExpr(Box::new(element("t", "b"))) },
            value(op(ArithBiOp::Mul, arith(elem("t", "b")), arith(num(10)))),
        ),
        ret(val(elem("t", "a"))),
    ]);
    assert_eq!(run(&code, 0, 2), (5, vec![5, 6, 7]));
    assert_eq!(run(&code, 1, 2).0, 6);
    assert_eq!(run(&code, 2, 2).0, 70);
    let fill = ArrayInitializer::Fill { val: Box::new(val(trace(9))), count: 4 };
    let code = lower(vec![
        define("t", VarDefInner::Array(VarDefArray { len: 4, initializer: fill })),
        ret(val(elem("t", "a"))),
    ]);
    for i in 0..4 {
        assert_eq!(run(&code, i, 0), (9, vec![9]));
    }
}

#[test]
fn some_functions_cannot_be_lowered() {
    let globals = NameMap::new();
    let inferred = NameMap::new();
    let mut registry = Registry::new();
    registry.function_types.insert("f".to_string(), function(&["a"], Dtype::I32));
    let body = |stmts: Vec<CodeBlockStmt>| FnDef {
        fn_decl: FnDecl { identifier: "f".to_string() },
        stmts,
    };
    let index = |n: usize| {
        body(vec![ret(val(ExprUnit {
            pos: 0,
            inner: ExprUnitInner::ArrayExpr(Box::new(ArrayExpr {
                arr: Box::new(place("a")),
                idx: Box::new(IndexExpr { inner: IndexExprInner::Num(n) }),
            })),
        }))])
    };
    let fill = |count: usize| {
        body(vec![define(
            "t",
            VarDefInner::Array(VarDefArray {
                len: count,
                initializer: ArrayInitializer::Fill { val: Box::new(val(num(0))), count },
            }),
        )])
    };
    {
        let generator = FunctionGenerator::new(&registry, &globals, &inferred);
        assert!(generator.can_generate(&body(vec![])));
        assert!(generator.can_generate(&index(i32::MAX as usize)));
        assert!(!generator.can_generate(&index(i32::MAX as usize + 1)));
        assert!(generator.can_generate(&fill(1 << 31)));
        assert!(!generator.can_generate(&fill((1 << 31) + 1)));
    }
    registry.function_types.insert("g".to_string(), function(&[], Dtype::I1));
    let generator = FunctionGenerator::new(&registry, &globals, &inferred);
    assert!(!generator.can_generate(&body(vec![])));
}
