//! Lowering of function bodies: exact code, scopes and errors.

use teac::ast::decl::{
    ArrayInitializer, FnDecl, FnDef, VarDecl, VarDeclArray, VarDeclInner, VarDef, VarDefArray,
    VarDefInner, VarDefScalar,
};
use teac::ast::expr::{
    ArithBiOp, ArithBiOpExpr, ArithExpr, ArithExprInner, ArrayExpr, BoolBiOp, BoolBiOpExpr,
    BoolExpr, BoolExprInner, BoolUOp, BoolUOpExpr, BoolUnit, BoolUnitInner, CastExpr, ComExpr,
    ComOp, ExprUnit, ExprUnitInner, FnCall, IndexExpr, IndexExprInner, LeftVal, LeftValInner,
    MemberExpr, RightVal, RightValInner,
};
use teac::ast::stmt::{
    AssignmentStmt, BreakStmt, CallStmt, CodeBlockStmt, CodeBlockStmtInner, ContinueStmt, ForStmt,
    IfStmt, NullStmt, RangeBound, RangeBoundInner, ReturnStmt, VarDeclStmt, VarDeclStmtInner,
    WhileStmt,
};
use teac::ast::types::{ArrayTypeSpec, BuiltIn, TypeSpecifier, TypeSpecifierInner};
use teac::common::names::NameMap;
use teac::ir::error::Error;
use teac::ir::function::FunctionGenerator;
use teac::ir::module::GlobalDef;
use teac::ir::registry::{FunctionType, Registry, StructMember, StructType};
use teac::ir::stmt::{BlockLabel, Stmt, StmtInner};
use teac::ir::types::Dtype;
use teac::ir::value::Operand;

// ---------------------------------------------------------------------------
// Building programs
// ---------------------------------------------------------------------------

fn unit(inner: ExprUnitInner) -> ExprUnit {
    ExprUnit { pos: 0, inner }
}

fn num(n: i32) -> ExprUnit {
    unit(ExprUnitInner::Num(n))
}

fn float(f: f32) -> ExprUnit {
    unit(ExprUnitInner::FloatNum(f.to_bits()))
}

fn var(name: &str) -> ExprUnit {
    unit(ExprUnitInner::Id(name.to_string()))
}

fn arith(u: ExprUnit) -> ArithExpr {
    ArithExpr { pos: 0, inner: ArithExprInner::ExprUnit(Box::new(u)) }
}

fn op(op: ArithBiOp, left: ArithExpr, right: ArithExpr) -> ArithExpr {
    ArithExpr {
        pos: 0,
        inner: ArithExprInner::ArithBiOpExpr(Box::new(ArithBiOpExpr {
            op,
            left: Box::new(left),
            right: Box::new(right),
        })),
    }
}

fn value(e: ArithExpr) -> RightVal {
    RightVal { inner: RightValInner::ArithExpr(Box::new(e)) }
}

fn val(u: ExprUnit) -> RightVal {
    value(arith(u))
}

fn truth(e: BoolExpr) -> RightVal {
    RightVal { inner: RightValInner::BoolExpr(Box::new(e)) }
}

fn com(op: ComOp, left: ExprUnit, right: ExprUnit) -> BoolUnit {
    BoolUnit {
        inner: BoolUnitInner::ComExpr(Box::new(ComExpr {
            op,
            left: Box::new(left),
            right: Box::new(right),
        })),
    }
}

fn not(cond: BoolUnit) -> BoolUnit {
    BoolUnit {
        inner: BoolUnitInner::BoolUOpExpr(Box::new(BoolUOpExpr {
            op: BoolUOp::Not,
            cond: Box::new(cond),
        })),
    }
}

fn bool_unit(u: BoolUnit) -> BoolExpr {
    BoolExpr { inner: BoolExprInner::BoolUnit(Box::new(u)) }
}

fn both(op: BoolBiOp, left: BoolUnit, right: BoolUnit) -> BoolExpr {
    BoolExpr {
        inner: BoolExprInner::BoolBiOpExpr(Box::new(BoolBiOpExpr {
            op,
            left: Box::new(bool_unit(left)),
            right: Box::new(bool_unit(right)),
        })),
    }
}

fn place(name: &str) -> LeftVal {
    LeftVal { inner: LeftValInner::Id(name.to_string()) }
}

fn element(arr: LeftVal, idx: IndexExprInner) -> ArrayExpr {
    ArrayExpr { arr: Box::new(arr), idx: Box::new(IndexExpr { inner: idx }) }
}

fn member(s: LeftVal, name: &str) -> MemberExpr {
    MemberExpr { struct_id: Box::new(s), member_id: name.to_string() }
}

fn call(name: &str, vals: Vec<RightVal>) -> FnCall {
    FnCall { receiver: None, module_prefix: None, name: name.to_string(), vals }
}

fn stmt(inner: CodeBlockStmtInner) -> CodeBlockStmt {
    CodeBlockStmt { inner }
}

fn assign(left_val: LeftVal, right_val: RightVal) -> CodeBlockStmt {
    stmt(CodeBlockStmtInner::Assignment(Box::new(AssignmentStmt { left_val, right_val })))
}

fn ret(v: RightVal) -> CodeBlockStmt {
    stmt(CodeBlockStmtInner::Return(Box::new(ReturnStmt { val: Some(v) })))
}

fn int_type() -> Option<TypeSpecifier> {
    Some(TypeSpecifier { pos: 0, inner: TypeSpecifierInner::BuiltIn(BuiltIn::Int) })
}

fn float_type() -> Option<TypeSpecifier> {
    Some(TypeSpecifier { pos: 0, inner: TypeSpecifierInner::BuiltIn(BuiltIn::Float) })
}

fn scalar_def(name: &str, t: Option<TypeSpecifier>, v: RightVal) -> VarDef {
    VarDef {
        identifier: name.to_string(),
        type_specifier: t,
        inner: VarDefInner::Scalar(VarDefScalar { val: v }),
    }
}

fn def(name: &str, v: RightVal) -> CodeBlockStmt {
    let inner = VarDeclStmtInner::Def(scalar_def(name, int_type(), v));
    stmt(CodeBlockStmtInner::VarDecl(Box::new(VarDeclStmt { inner })))
}

fn array_def(name: &str, len: usize, initializer: ArrayInitializer) -> CodeBlockStmt {
    let inner = VarDeclStmtInner::Def(VarDef {
        identifier: name.to_string(),
        type_specifier: int_type(),
        inner: VarDefInner::Array(VarDefArray { len, initializer }),
    });
    stmt(CodeBlockStmtInner::VarDecl(Box::new(VarDeclStmt { inner })))
}

fn decl(name: &str, t: Option<TypeSpecifier>, inner: VarDeclInner) -> CodeBlockStmt {
    let inner = VarDeclStmtInner::Decl(VarDecl {
        identifier: name.to_string(),
        type_specifier: t,
        inner,
    });
    stmt(CodeBlockStmtInner::VarDecl(Box::new(VarDeclStmt { inner })))
}

fn if_stmt(
    bool_unit: BoolUnit,
    if_stmts: Vec<CodeBlockStmt>,
    else_stmts: Option<Vec<CodeBlockStmt>>,
) -> CodeBlockStmt {
    stmt(CodeBlockStmtInner::If(Box::new(IfStmt { bool_unit, if_stmts, else_stmts })))
}

fn while_stmt(bool_unit: BoolUnit, stmts: Vec<CodeBlockStmt>) -> CodeBlockStmt {
    stmt(CodeBlockStmtInner::While(Box::new(WhileStmt { bool_unit, stmts })))
}

fn bound(inner: RangeBoundInner) -> RangeBound {
    RangeBound { pos: 7, inner }
}

fn for_stmt(
    iterator: &str,
    start: RangeBoundInner,
    end: RangeBoundInner,
    stmts: Vec<CodeBlockStmt>,
) -> CodeBlockStmt {
    stmt(CodeBlockStmtInner::For(Box::new(ForStmt {
        iterator: iterator.to_string(),
        start: bound(start),
        end: bound(end),
        stmts,
    })))
}

fn brk() -> CodeBlockStmt {
    stmt(CodeBlockStmtInner::Break(BreakStmt {}))
}

fn cont() -> CodeBlockStmt {
    stmt(CodeBlockStmtInner::Continue(ContinueStmt {}))
}

fn call_stmt(fn_call: FnCall) -> CodeBlockStmt {
    stmt(CodeBlockStmtInner::Call(Box::new(CallStmt { fn_call })))
}

fn array_of(element: Dtype, length: Option<usize>) -> Dtype {
    Dtype::Array { element: Box::new(element), length }
}

fn point() -> Dtype {
    Dtype::Struct { name: "Point".to_string() }
}

fn function(args: Vec<(&str, Dtype)>, return_dtype: Dtype) -> FunctionType {
    FunctionType {
        arguments: args.into_iter().map(|(n, t)| (n.to_string(), t)).collect(),
        return_dtype,
    }
}

/// A program with a struct, some functions and some globals.
fn registry() -> Registry {
    let mut r = Registry::new();
    r.struct_types.insert(
        "Point".to_string(),
        StructType {
            elements: vec![
                ("x".to_string(), StructMember { dtype: Dtype::I32, index: 0 }),
                ("y".to_string(), StructMember { dtype: Dtype::F32, index: 1 }),
                ("gone".to_string(), StructMember { dtype: Dtype::Void, index: 2 }),
                ("far".to_string(), StructMember { dtype: Dtype::I32, index: 1 << 31 }),
            ],
        },
    );
    r.function_types.insert("main".to_string(), function(vec![], Dtype::I32));
    r.function_types.insert("half".to_string(), function(vec![("v", Dtype::F32)], Dtype::F32));
    r.function_types.insert("log".to_string(), function(vec![("v", Dtype::I32)], Dtype::Void));
    r.function_types.insert(
        "std::getint".to_string(),
        function(vec![], Dtype::I32),
    );
    r.function_types.insert(
        "Point::norm".to_string(),
        function(vec![("self", Dtype::ptr_to(point())), ("k", Dtype::F32)], Dtype::I32),
    );
    r.function_types.insert(
        "twice".to_string(),
        function(vec![("a", Dtype::I32), ("a", Dtype::I32)], Dtype::I32),
    );
    r.function_types.insert("odd".to_string(), function(vec![], Dtype::ptr_to(Dtype::I32)));
    r.function_types.insert("nothing".to_string(), function(vec![], Dtype::Void));
    r.link_names.insert("std::getint".to_string(), "getint".to_string());
    r.link_names.insert("Point::norm".to_string(), "Point__norm".to_string());
    r
}

fn globals() -> NameMap<GlobalDef> {
    let mut g = NameMap::new();
    g.insert("count".to_string(), GlobalDef { dtype: Dtype::I32, initializers: None });
    g.insert("ratio".to_string(), GlobalDef { dtype: Dtype::F32, initializers: None });
    g.insert(
        "table".to_string(),
        GlobalDef { dtype: array_of(Dtype::I32, Some(4)), initializers: None },
    );
    g
}

/// What the lowering of a function left.
struct Outcome {
    lines: Vec<String>,
    res: Result<(), Error>,
    vregs: usize,
    blocks: usize,
    names: Vec<bool>,
    open_scopes: usize,
    args: usize,
}

fn lower(name: &str, stmts: Vec<CodeBlockStmt>, names: &[&str]) -> Outcome {
    let registry = registry();
    let globals = globals();
    let mut inferred = NameMap::new();
    inferred.insert("guess".to_string(), Dtype::F32);
    let mut generator = FunctionGenerator::new(&registry, &globals, &inferred);
    let def = FnDef { fn_decl: FnDecl { identifier: name.to_string() }, stmts };
    let res = generator.generate(&def);
    Outcome {
        lines: generator.irs.iter().map(line).collect(),
        res,
        vregs: generator.next_vreg,
        blocks: generator.next_basic_block,
        names: names
            .iter()
            .map(|n| generator.local_variables.contains_key(*n))
            .collect(),
        open_scopes: generator.scope_locals.len(),
        args: generator.arguments.len(),
    }
}

fn body(stmts: Vec<CodeBlockStmt>) -> Outcome {
    lower("main", stmts, &[])
}

// ---------------------------------------------------------------------------
// Showing code
// ---------------------------------------------------------------------------

fn ty(t: &Dtype) -> String {
    match t {
        Dtype::Void => "void".to_string(),
        Dtype::I1 => "i1".to_string(),
        Dtype::I32 => "i32".to_string(),
        Dtype::F32 => "f32".to_string(),
        Dtype::Struct { name } => name.clone(),
        Dtype::Pointer { pointee } => format!("*{}", ty(pointee)),
        Dtype::Array { element, length } => match length {
            Some(n) => format!("[{};{}]", ty(element), n),
            None => format!("[{}]", ty(element)),
        },
    }
}

fn operand(o: &Operand) -> String {
    match o {
        Operand::Int(n) => format!("{}", n),
        Operand::Float(bits) => format!("{:?}", f32::from_bits(*bits)),
        Operand::Local(l) => format!("%{}", l.id.0),
        Operand::Global(g) => format!("@{}", g.identifier),
    }
}

fn typed(o: &Operand) -> String {
    format!("{}:{}", operand(o), ty(&o.dtype()))
}

fn label(l: &BlockLabel) -> String {
    match l {
        BlockLabel::Function(name) => name.clone(),
        BlockLabel::BasicBlock(n) => format!("b{}", n),
    }
}

fn line(s: &Stmt) -> String {
    match &s.inner {
        StmtInner::Label(l) => format!("{}:", label(l)),
        StmtInner::Alloca { dst } => format!("{} = alloca", typed(dst)),
        StmtInner::Load { dst, ptr } => format!("{} = load {}", typed(dst), operand(ptr)),
        StmtInner::Store { src, ptr } => format!("store {} {}", operand(src), operand(ptr)),
        StmtInner::Gep { new_ptr, base_ptr, index } => {
            format!("{} = gep {} {}", typed(new_ptr), operand(base_ptr), operand(index))
        }
        StmtInner::BiOp { kind, left, right, dst } => {
            format!("{} = {:?} {} {}", typed(dst), kind, operand(left), operand(right))
        }
        StmtInner::FBiOp { float_kind, left, right, dst } => {
            format!("{} = {:?} {} {}", typed(dst), float_kind, operand(left), operand(right))
        }
        StmtInner::Cmp { predicate, left, right, dst } => {
            format!("{} = {:?} {} {}", typed(dst), predicate, operand(left), operand(right))
        }
        StmtInner::FCmp { float_predicate, left, right, dst } => {
            format!("{} = {:?} {} {}", typed(dst), float_predicate, operand(left), operand(right))
        }
        StmtInner::SiToFp { src, dst } => format!("{} = sitofp {}", typed(dst), operand(src)),
        StmtInner::FpToSi { src, dst } => format!("{} = fptosi {}", typed(dst), operand(src)),
        StmtInner::Call { func_name, res, args } => {
            let args: Vec<String> = args.iter().map(operand).collect();
            match res {
                Some(r) => format!("{} = call {}({})", typed(r), func_name, args.join(", ")),
                None => format!("call {}({})", func_name, args.join(", ")),
            }
        }
        StmtInner::Jump { target } => format!("jump {}", label(target)),
        StmtInner::CJump { cond, true_label, false_label } => {
            format!("if {} {} {}", operand(cond), label(true_label), label(false_label))
        }
        StmtInner::Return(None) => "return".to_string(),
        StmtInner::Return(Some(v)) => format!("return {}", operand(v)),
    }
}

// ---------------------------------------------------------------------------
// Functions
// ---------------------------------------------------------------------------

#[test]
fn empty_functions_return_by_default() {
    let out = body(vec![]);
    assert!(out.res.is_ok());
    assert_eq!(out.lines, vec!["main:", "return 0"]);
    let out = lower("nothing", vec![], &[]);
    assert_eq!(out.lines, vec!["nothing:", "return"]);
    let out = lower("half", vec![], &["v"]);
    assert_eq!(
        out.lines,
        vec!["half:", "%1:*f32 = alloca", "store %0 %1", "return 0.0"]
    );
    assert_eq!(out.args, 1);
    assert_eq!(out.names, vec![true]);
}

#[test]
fn a_final_return_is_not_doubled() {
    let out = body(vec![ret(val(num(5)))]);
    assert_eq!(out.lines, vec!["main:", "return 5"]);
    let out = lower(
        "nothing",
        vec![stmt(CodeBlockStmtInner::Return(Box::new(ReturnStmt { val: None })))],
        &[],
    );
    assert_eq!(out.lines, vec!["nothing:", "return"]);
}

#[test]
fn a_receiver_is_not_spilled_and_the_entry_label_is_the_link_name() {
    let v = unit(ExprUnitInner::MemberExpr(Box::new(member(place("self"), "x"))));
    let out = lower("Point::norm", vec![ret(val(v))], &["self", "k"]);
    assert!(out.res.is_ok());
    assert_eq!(
        out.lines,
        vec![
            "Point__norm:",
            "%2:*f32 = alloca",
            "store %1 %2",
            "%3:*i32 = gep %0 0",
            "%4:i32 = load %3",
            "return %4",
        ]
    );
    assert_eq!(out.args, 2);
    assert_eq!(out.names, vec![true, true]);
}

#[test]
fn functions_are_rejected() {
    let out = lower("unknown", vec![], &[]);
    assert!(matches!(out.res, Err(Error::FunctionNotDefined { symbol }) if symbol == "unknown"));
    assert!(out.lines.is_empty());
    let out = lower("twice", vec![], &[]);
    assert!(matches!(out.res, Err(Error::VariableRedefinition { symbol }) if symbol == "a"));
    let out = lower("odd", vec![], &[]);
    assert!(matches!(
        out.res,
        Err(Error::UnsupportedReturnType { symbol, dtype })
            if symbol == "odd" && dtype == Dtype::ptr_to(Dtype::I32)
    ));
}

// ---------------------------------------------------------------------------
// Expressions
// ---------------------------------------------------------------------------

#[test]
fn arithmetic_is_left_to_right_and_promotes_to_float() {
    let e = op(
        ArithBiOp::Add,
        op(ArithBiOp::Mul, arith(num(2)), arith(num(3))),
        op(ArithBiOp::Sub, arith(num(4)), arith(num(1))),
    );
    let out = body(vec![ret(value(e))]);
    assert_eq!(
        out.lines,
        vec![
            "main:",
            "%0:i32 = Mul 2 3",
            "%1:i32 = Sub 4 1",
            "%2:i32 = Add %0 %1",
            "return %2",
        ]
    );
    let e = op(ArithBiOp::Div, arith(num(1)), arith(float(2.0)));
    let out = body(vec![ret(value(e))]);
    assert_eq!(
        out.lines,
        vec![
            "main:",
            "%0:f32 = sitofp 1",
            "%1:f32 = FDiv %0 2.0",
            "%2:i32 = fptosi %1",
            "return %2",
        ]
    );
    let e = op(ArithBiOp::Div, arith(num(7)), arith(num(2)));
    assert_eq!(body(vec![ret(value(e))]).lines[1], "%0:i32 = SDiv 7 2");
}

#[test]
fn variables_and_globals_are_loaded() {
    let out = body(vec![def("a", val(num(1))), ret(val(var("a")))]);
    assert_eq!(
        out.lines,
        vec![
            "main:",
            "%0:*i32 = alloca",
            "store 1 %0",
            "%1:i32 = load %0",
            "return %1",
        ]
    );
    let e = op(ArithBiOp::Add, arith(var("count")), arith(var("ratio")));
    let out = body(vec![ret(value(e))]);
    assert_eq!(
        out.lines,
        vec![
            "main:",
            "%0:i32 = load @count",
            "%1:f32 = load @ratio",
            "%2:f32 = sitofp %0",
            "%3:f32 = FAdd %2 %1",
            "%4:i32 = fptosi %3",
            "return %4",
        ]
    );
}

#[test]
fn a_local_hides_a_global() {
    let out = body(vec![def("count", val(num(3))), ret(val(var("count")))]);
    assert_eq!(out.lines[3], "%1:i32 = load %0");
}

#[test]
fn casts_convert() {
    let cast = CastExpr {
        expr: Box::new(float(2.5)),
        target_type: TypeSpecifier {
            pos: 0,
            inner: TypeSpecifierInner::BuiltIn(BuiltIn::Int),
        },
    };
    let out = body(vec![ret(val(unit(ExprUnitInner::Cast(Box::new(cast)))))]);
    assert_eq!(out.lines, vec!["main:", "%0:i32 = fptosi 2.5", "return %0"]);
}

#[test]
fn arrays_are_indexed_and_referenced() {
    let out = body(vec![
        array_def(
            "a",
            2,
            ArrayInitializer::ExplicitList(vec![val(num(4)), val(float(1.5))]),
        ),
        ret(val(unit(ExprUnitInner::ArrayExpr(Box::new(element(
            place("a"),
            IndexExprInner::Num(1),
        )))))),
    ]);
    assert_eq!(
        out.lines,
        vec![
            "main:",
            "%0:*[i32;2] = alloca",
            "%1:*i32 = gep %0 0",
            "store 4 %1",
            "%3:i32 = fptosi 1.5",
            "%2:*i32 = gep %0 1",
            "store %3 %2",
            "%4:*i32 = gep %0 1",
            "%5:i32 = load %4",
            "return %5",
        ]
    );
    let out = body(vec![assign(
        LeftVal {
            inner: LeftValInner::ArrayExpr(Box::new(element(
                place("table"),
                IndexExprInner::Id("count".to_string()),
            ))),
        },
        val(num(9)),
    )]);
    assert_eq!(
        out.lines,
        vec![
            "main:",
            "%1:i32 = load @count",
            "%0:*i32 = gep @table %1",
            "store 9 %0",
            "return 0",
        ]
    );
    let out = body(vec![
        decl("a", int_type(), VarDeclInner::Array(VarDeclArray { len: 3 })),
        call_stmt(call("log", vec![val(unit(ExprUnitInner::Reference("a".to_string())))])),
    ]);
    assert_eq!(out.lines[1..3], ["%0:*[i32;3] = alloca", "%1:*[i32] = gep %0 0"]);
    assert!(matches!(
        out.res,
        Err(Error::TypeMismatch { symbol, expected: Dtype::I32, actual })
            if symbol == "conversion" && actual == Dtype::ptr_to(array_of(Dtype::I32, None))
    ));
}

#[test]
fn a_fill_value_is_computed_once() {
    let call = unit(ExprUnitInner::FnCall(Box::new(FnCall {
        receiver: None,
        module_prefix: Some("std".to_string()),
        name: "getint".to_string(),
        vals: vec![],
    })));
    let out = body(vec![array_def(
        "a",
        3,
        ArrayInitializer::Fill { val: Box::new(val(call)), count: 2 },
    )]);
    assert_eq!(
        out.lines,
        vec![
            "main:",
            "%0:*[i32;3] = alloca",
            "%1:i32 = call getint()",
            "%2:*i32 = gep %0 0",
            "store %1 %2",
            "%3:*i32 = gep %0 1",
            "store %1 %3",
            "return 0",
        ]
    );
}

#[test]
fn calls_convert_their_arguments() {
    let out = body(vec![
        call_stmt(call("half", vec![val(num(3)), val(num(4))])),
        call_stmt(call("log", vec![val(float(1.0))])),
    ]);
    assert_eq!(
        out.lines,
        vec![
            "main:",
            "%0:f32 = sitofp 3",
            "%1:f32 = call half(%0, 4)",
            "%2:i32 = fptosi 1.0",
            "call log(%2)",
            "return 0",
        ]
    );
}

#[test]
fn methods_pass_their_receiver() {
    let t = Some(TypeSpecifier {
        pos: 0,
        inner: TypeSpecifierInner::Composite("Point".to_string()),
    });
    let method = FnCall {
        receiver: Some(Box::new(place("p"))),
        module_prefix: None,
        name: "norm".to_string(),
        vals: vec![val(num(2))],
    };
    let out = body(vec![
        decl("p", t, VarDeclInner::Scalar),
        ret(val(unit(ExprUnitInner::FnCall(Box::new(method))))),
    ]);
    assert_eq!(
        out.lines,
        vec![
            "main:",
            "%0:*Point = alloca",
            "%1:f32 = sitofp 2",
            "%2:i32 = call Point__norm(%0, %1)",
            "return %2",
        ]
    );
}

#[test]
fn self_calls_name_the_surrounding_struct() {
    let this = |name: &str| FnCall {
        receiver: None,
        module_prefix: Some("Self".to_string()),
        name: name.to_string(),
        vals: vec![],
    };
    let out = lower("Point::norm", vec![call_stmt(this("norm"))], &[]);
    assert!(out.res.is_ok());
    assert_eq!(out.lines[3], "%3:i32 = call Point__norm()");
    let out = body(vec![call_stmt(this("norm"))]);
    assert!(matches!(
        out.res,
        Err(Error::FunctionNotDefined { symbol }) if symbol == "Self::norm"
    ));
}

#[test]
fn expressions_are_rejected() {
    let out = body(vec![ret(val(var("nowhere")))]);
    assert!(matches!(out.res, Err(Error::VariableNotDefined { symbol }) if symbol == "nowhere"));
    let out = body(vec![ret(val(var("table")))]);
    assert!(matches!(out.res, Err(Error::ArrayUsedAsValue { symbol }) if symbol == "table"));
    let out = body(vec![ret(val(unit(ExprUnitInner::Reference("count".to_string()))))]);
    assert!(matches!(out.res, Err(Error::InvalidReference { symbol }) if symbol == "count"));
    let out = body(vec![ret(val(unit(ExprUnitInner::FnCall(Box::new(call(
        "log",
        vec![val(num(1))],
    ))))))]);
    assert!(matches!(
        out.res,
        Err(Error::InvalidExprUnit { expr_unit })
            if matches!(&expr_unit.inner, ExprUnitInner::FnCall(c) if c.name == "log")
    ));
    let out = body(vec![call_stmt(call("missing", vec![]))]);
    assert!(matches!(out.res, Err(Error::FunctionNotDefined { symbol }) if symbol == "missing"));
    let out = body(vec![ret(val(unit(ExprUnitInner::ArrayExpr(Box::new(element(
        place("count"),
        IndexExprInner::Num(0),
    ))))))]);
    assert!(matches!(out.res, Err(Error::InvalidArrayExpression)));
}

#[test]
fn members_are_rejected() {
    let point_type = || {
        Some(TypeSpecifier {
            pos: 0,
            inner: TypeSpecifierInner::Composite("Point".to_string()),
        })
    };
    for name in ["z", "gone", "far"] {
        let v = unit(ExprUnitInner::MemberExpr(Box::new(member(place("p"), name))));
        let out = body(vec![decl("p", point_type(), VarDeclInner::Scalar), ret(val(v))]);
        assert!(matches!(
            out.res,
            Err(Error::InvalidStructMemberExpression { expr }) if expr.member_id == name
        ));
    }
    let v = unit(ExprUnitInner::MemberExpr(Box::new(member(place("count"), "x"))));
    let out = body(vec![ret(val(v))]);
    assert!(matches!(out.res, Err(Error::InvalidStructMemberExpression { expr }) if expr.member_id == "x"));
}

#[test]
fn mixed_numeric_operands_are_rejected() {
    let point_type = Some(TypeSpecifier {
        pos: 0,
        inner: TypeSpecifierInner::Composite("Point".to_string()),
    });
    let e = op(ArithBiOp::Add, arith(var("p")), arith(num(1)));
    let out = body(vec![decl("p", point_type, VarDeclInner::Scalar), ret(value(e))]);
    assert!(matches!(
        out.res,
        Err(Error::TypeMismatch { symbol, expected: Dtype::I32, actual })
            if symbol == "numeric expression" && actual == Dtype::ptr_to(point())
    ));
}

// ---------------------------------------------------------------------------
// Control flow
// ---------------------------------------------------------------------------

#[test]
fn an_if_has_three_blocks() {
    let out = body(vec![if_stmt(
        com(ComOp::Lt, num(1), num(2)),
        vec![assign(place("count"), val(num(1)))],
        Some(vec![assign(place("count"), val(num(2)))]),
    )]);
    assert_eq!(
        out.lines,
        vec![
            "main:",
            "%0:i1 = Slt 1 2",
            "if %0 b0 b1",
            "b0:",
            "store 1 @count",
            "jump b2",
            "b1:",
            "store 2 @count",
            "jump b2",
            "b2:",
            "return 0",
        ]
    );
    assert_eq!(out.blocks, 3);
}

#[test]
fn an_if_without_else_still_has_its_block() {
    let out = body(vec![if_stmt(com(ComOp::Eq, num(1), num(2)), vec![], None)]);
    assert_eq!(
        out.lines[2..],
        ["if %0 b0 b1", "b0:", "jump b2", "b1:", "jump b2", "b2:", "return 0"]
    );
}

#[test]
fn comparisons_have_integer_and_float_forms() {
    let cases = [
        (ComOp::Lt, "Slt", "Olt"),
        (ComOp::Le, "Sle", "Ole"),
        (ComOp::Gt, "Sgt", "Ogt"),
        (ComOp::Ge, "Sge", "Oge"),
        (ComOp::Eq, "Eq", "Oeq"),
        (ComOp::Ne, "Ne", "One"),
    ];
    for (o, int_form, float_form) in cases {
        let out = body(vec![if_stmt(com(o, num(1), num(2)), vec![], None)]);
        assert_eq!(out.lines[1], format!("%0:i1 = {} 1 2", int_form));
        let out = body(vec![if_stmt(com(o, float(1.0), num(2)), vec![], None)]);
        assert_eq!(out.lines[1], "%0:f32 = sitofp 2");
        assert_eq!(out.lines[2], format!("%1:i1 = {} 1.0 %0", float_form));
    }
}

#[test]
fn negation_swaps_the_labels() {
    let plain = body(vec![if_stmt(com(ComOp::Lt, num(1), num(2)), vec![], None)]);
    let negated = body(vec![if_stmt(not(com(ComOp::Lt, num(1), num(2))), vec![], None)]);
    assert_eq!(plain.lines[2], "if %0 b0 b1");
    assert_eq!(negated.lines[2], "if %0 b1 b0");
    let twice = body(vec![if_stmt(not(not(com(ComOp::Lt, num(1), num(2)))), vec![], None)]);
    assert_eq!(twice.lines, plain.lines);
}

#[test]
fn boolean_operators_short_circuit() {
    let and = both(
        BoolBiOp::And,
        com(ComOp::Lt, num(1), num(2)),
        com(ComOp::Gt, num(3), num(4)),
    );
    let out = body(vec![ret(truth(and))]);
    assert_eq!(
        out.lines,
        vec![
            "main:",
            "%0:*i32 = alloca",
            "%1:i1 = Slt 1 2",
            "if %1 b3 b1",
            "b3:",
            "%2:i1 = Sgt 3 4",
            "if %2 b0 b1",
            "b0:",
            "store 1 %0",
            "jump b2",
            "b1:",
            "store 0 %0",
            "jump b2",
            "b2:",
            "%3:i32 = load %0",
            "return %3",
        ]
    );
    let or = both(
        BoolBiOp::Or,
        com(ComOp::Lt, num(1), num(2)),
        com(ComOp::Gt, num(3), num(4)),
    );
    let out = body(vec![ret(truth(or))]);
    assert_eq!(out.lines[3], "if %1 b0 b3");
    assert_eq!(out.lines[6], "if %2 b0 b1");
}

#[test]
fn a_while_loop_tests_first() {
    let out = body(vec![while_stmt(
        com(ComOp::Lt, var("count"), num(9)),
        vec![
            if_stmt(com(ComOp::Eq, num(1), num(1)), vec![brk()], Some(vec![cont()])),
        ],
    )]);
    assert!(out.res.is_ok());
    assert_eq!(
        out.lines,
        vec![
            "main:",
            "jump b0",
            "b0:",
            "%0:i32 = load @count",
            "%1:i1 = Slt %0 9",
            "if %1 b1 b2",
            "b1:",
            "%2:i1 = Eq 1 1",
            "if %2 b3 b4",
            "b3:",
            "jump b2",
            "jump b5",
            "b4:",
            "jump b0",
            "jump b5",
            "b5:",
            "jump b0",
            "b2:",
            "return 0",
        ]
    );
}

#[test]
fn a_for_loop_steps_on_continue() {
    let out = lower(
        "main",
        vec![for_stmt(
            "i",
            RangeBoundInner::Num(0),
            RangeBoundInner::Id("count".to_string()),
            vec![cont(), brk()],
        )],
        &["i"],
    );
    assert!(out.res.is_ok());
    assert_eq!(
        out.lines,
        vec![
            "main:",
            "%0:i32 = load @count",
            "%1:*i32 = alloca",
            "store 0 %1",
            "%2:*i32 = alloca",
            "store %0 %2",
            "jump b0",
            "b0:",
            "%3:i32 = load %1",
            "%4:i32 = load %2",
            "%5:i1 = Slt %3 %4",
            "if %5 b1 b3",
            "b1:",
            "jump b2",
            "jump b3",
            "jump b2",
            "b2:",
            "%6:i32 = load %1",
            "%7:i32 = Add %6 1",
            "store %7 %1",
            "jump b0",
            "b3:",
            "return 0",
        ]
    );
    assert_eq!(out.names, vec![false]);
    assert_eq!(out.open_scopes, 0);
}

#[test]
fn range_bounds_are_i32() {
    let out = body(vec![for_stmt(
        "i",
        RangeBoundInner::ArithExpr(Box::new(op(
            ArithBiOp::Add,
            arith(float(0.5)),
            arith(num(1)),
        ))),
        RangeBoundInner::FnCall(Box::new(call("half", vec![val(num(9))]))),
        vec![],
    )]);
    assert_eq!(
        out.lines[1..7],
        [
            "%0:f32 = sitofp 1",
            "%1:f32 = FAdd 0.5 %0",
            "%2:i32 = fptosi %1",
            "%3:f32 = sitofp 9",
            "%4:f32 = call half(%3)",
            "%5:i32 = fptosi %4",
        ]
    );
    let out = body(vec![for_stmt(
        "i",
        RangeBoundInner::Num(0),
        RangeBoundInner::FnCall(Box::new(call("nothing", vec![]))),
        vec![],
    )]);
    assert!(matches!(
        out.res,
        Err(Error::InvalidExprUnit { expr_unit }) if expr_unit.pos == 7
    ));
}

#[test]
fn break_and_continue_need_a_loop() {
    assert!(matches!(body(vec![brk()]).res, Err(Error::InvalidBreakInst)));
    assert!(matches!(body(vec![cont()]).res, Err(Error::InvalidContinueInst)));
    let inner = if_stmt(com(ComOp::Eq, num(1), num(1)), vec![brk()], None);
    assert!(matches!(body(vec![inner]).res, Err(Error::InvalidBreakInst)));
}

// ---------------------------------------------------------------------------
// Variables and scopes
// ---------------------------------------------------------------------------

#[test]
fn types_come_from_annotation_inference_or_default() {
    let out = body(vec![
        decl("f", float_type(), VarDeclInner::Scalar),
        decl("guess", None, VarDeclInner::Scalar),
        decl("plain", None, VarDeclInner::Scalar),
        stmt(CodeBlockStmtInner::Null(NullStmt {})),
    ]);
    assert_eq!(
        out.lines[1..4],
        ["%0:*f32 = alloca", "%1:*f32 = alloca", "%2:*i32 = alloca"]
    );
    let out = body(vec![decl("guess", None, VarDeclInner::Array(VarDeclArray { len: 2 }))]);
    assert_eq!(out.lines[1], "%0:*[i32;2] = alloca");
    let nested = Some(TypeSpecifier {
        pos: 0,
        inner: TypeSpecifierInner::Array(Box::new(ArrayTypeSpec {
            element_type: Box::new(TypeSpecifier {
                pos: 0,
                inner: TypeSpecifierInner::BuiltIn(BuiltIn::Int),
            }),
            len: 4,
        })),
    });
    let out = body(vec![decl("m", nested, VarDeclInner::Array(VarDeclArray { len: 3 }))]);
    assert_eq!(out.lines[1], "%0:*[[i32;4];3] = alloca");
}

#[test]
fn a_definition_is_not_in_scope_of_its_value() {
    let out = body(vec![def("a", val(var("a")))]);
    assert!(matches!(out.res, Err(Error::VariableNotDefined { symbol }) if symbol == "a"));
}

#[test]
fn names_end_with_their_block_and_cannot_be_redefined() {
    let out = lower(
        "main",
        vec![
            def("outer", val(num(1))),
            if_stmt(
                com(ComOp::Eq, num(1), num(1)),
                vec![def("inner", val(num(2)))],
                Some(vec![def("inner", val(num(3)))]),
            ),
            while_stmt(com(ComOp::Eq, num(1), num(2)), vec![def("inner", val(num(4)))]),
        ],
        &["outer", "inner"],
    );
    assert!(out.res.is_ok());
    assert_eq!(out.names, vec![true, false]);
    assert_eq!(out.open_scopes, 0);
    let out = body(vec![def("a", val(num(1))), def("a", val(num(2)))]);
    assert!(matches!(out.res, Err(Error::VariableRedefinition { symbol }) if symbol == "a"));
    let out = body(vec![
        def("a", val(num(1))),
        if_stmt(com(ComOp::Eq, num(1), num(1)), vec![def("a", val(num(2)))], None),
    ]);
    assert!(matches!(out.res, Err(Error::VariableRedefinition { symbol }) if symbol == "a"));
    let out = body(vec![
        def("i", val(num(1))),
        for_stmt("i", RangeBoundInner::Num(0), RangeBoundInner::Num(1), vec![]),
    ]);
    assert!(matches!(out.res, Err(Error::VariableRedefinition { symbol }) if symbol == "i"));
}

// ---------------------------------------------------------------------------
// What holds of all code, on one larger function
// ---------------------------------------------------------------------------

#[test]
fn statements_only_append() {
    let registry = registry();
    let globals = globals();
    let inferred = NameMap::new();
    let mut generator = FunctionGenerator::new(&registry, &globals, &inferred);
    assert!(generator.handle_block(&def("a", val(num(1))), None, None).is_ok());
    let before: Vec<String> = generator.irs.iter().map(line).collect();
    assert_eq!(before, vec!["%0:*i32 = alloca", "store 1 %0"]);
    let next = assign(place("a"), value(op(ArithBiOp::Add, arith(var("a")), arith(num(2)))));
    assert!(generator.handle_block(&next, None, None).is_ok());
    let after: Vec<String> = generator.irs.iter().map(line).collect();
    assert_eq!(after.len(), 5);
    assert_eq!(after[..2], before[..]);
    // A statement that is rejected leaves what stood before it, too.
    let unknown = assign(place("a"), val(var("unknown")));
    assert!(generator.handle_block(&unknown, None, None).is_err());
    let last: Vec<String> = generator.irs.iter().map(line).collect();
    assert_eq!(last[..5], after[..]);
}

#[test]
fn registers_are_written_once_and_labels_are_placed_once() {
    let out = body(vec![
        def("a", val(num(1))),
        for_stmt(
            "i",
            RangeBoundInner::Num(0),
            RangeBoundInner::Num(10),
            vec![
                if_stmt(
                    not(com(ComOp::Lt, var("i"), var("a"))),
                    vec![cont()],
                    Some(vec![while_stmt(com(ComOp::Ne, var("a"), num(3)), vec![brk()])]),
                ),
                assign(
                    place("a"),
                    truth(both(
                        BoolBiOp::Or,
                        com(ComOp::Ge, var("a"), float(0.5)),
                        com(ComOp::Le, num(1), var("i")),
                    )),
                ),
            ],
        ),
    ]);
    assert!(out.res.is_ok());
    let mut written: Vec<&str> = Vec::new();
    let mut placed: Vec<&str> = Vec::new();
    for l in &out.lines {
        if let Some((dst, _)) = l.split_once(" = ") {
            let register = dst.split(':').next().unwrap();
            assert!(!written.contains(&register));
            written.push(register);
        }
        if let Some(name) = l.strip_suffix(':') {
            assert!(!placed.contains(&name));
            placed.push(name);
        }
    }
    assert_eq!(written.len(), out.vregs);
    assert_eq!(placed.len(), out.blocks + 1);
    for l in &out.lines {
        let words: Vec<&str> = l.split(' ').collect();
        match words[0] {
            "jump" => assert!(placed.contains(&words[1])),
            "if" => {
                assert!(placed.contains(&words[2]));
                assert!(placed.contains(&words[3]));
            }
            _ => {}
        }
    }
    // No block falls through into the next.
    for i in 1..out.lines.len() {
        if out.lines[i].ends_with(':') {
            let before = out.lines[i - 1].split(' ').next().unwrap();
            assert!(["jump", "if", "return"].contains(&before), "{}", out.lines[i]);
        }
    }
    assert_eq!(out.lines[0], "main:");
    assert_eq!(out.lines[out.lines.len() - 1], "return 0");
}

#[test]
fn a_value_of_the_target_type_is_not_converted_again() {
    let registry = registry();
    let globals = globals();
    let inferred = NameMap::new();
    let mut generator = FunctionGenerator::new(&registry, &globals, &inferred);
    let converted = generator.coerce_operand(Operand::from(1), &Dtype::F32).unwrap();
    assert!(converted.dtype() == Dtype::F32);
    assert_eq!(generator.irs.len(), 1);
    let again = generator.coerce_operand(converted.clone(), &Dtype::F32).unwrap();
    assert_eq!(operand(&again), operand(&converted));
    assert_eq!(generator.irs.len(), 1);
    assert_eq!(generator.next_vreg, 1);
}

#[test]
fn a_float_anywhere_makes_a_float() {
    let registry = registry();
    let globals = globals();
    let inferred = NameMap::new();
    let mut generator = FunctionGenerator::new(&registry, &globals, &inferred);
    let sum = |left: ArithExpr, right: ArithExpr| op(ArithBiOp::Add, left, right);
    let whole = sum(sum(arith(num(1)), arith(num(2))), arith(num(3)));
    assert!(generator.handle_arith_expr(&whole).unwrap().dtype() == Dtype::I32);
    let mixed = sum(arith(num(1)), sum(arith(num(2)), arith(float(3.0))));
    assert!(generator.handle_arith_expr(&mixed).unwrap().dtype() == Dtype::F32);
}

#[test]
fn operands_are_written_before_they_are_read() {
    let out = body(vec![
        def("a", value(op(ArithBiOp::Mul, arith(num(2)), arith(float(0.5))))),
        while_stmt(
            com(ComOp::Lt, var("a"), var("count")),
            vec![
                assign(place("a"), truth(both(
                    BoolBiOp::And,
                    com(ComOp::Eq, var("a"), num(1)),
                    com(ComOp::Ne, var("ratio"), var("a")),
                ))),
                call_stmt(call("log", vec![val(var("a"))])),
            ],
        ),
        ret(val(var("a"))),
    ]);
    assert!(out.res.is_ok());
    let mut written: Vec<String> = Vec::new();
    for l in &out.lines {
        let (dst, rest) = match l.split_once(" = ") {
            Some((dst, rest)) => (Some(dst.split(':').next().unwrap().to_string()), rest),
            None => (None, l.as_str()),
        };
        for word in rest.split(|c: char| !c.is_alphanumeric() && c != '%') {
            if word.starts_with('%') {
                assert!(written.iter().any(|w| w == word), "{} in {}", word, l);
            }
        }
        if let Some(dst) = dst {
            written.push(dst);
        }
    }
    assert_eq!(written.len(), out.vregs);
}
