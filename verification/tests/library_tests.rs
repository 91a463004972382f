use schiro::ast::{
    BlockOrSemi, CompilationUnit, Expression, FnDecl, Literal, Statement, TopLevelDecl, TypeParams, TypeRef, WhileExpr,
};
use schiro::error::{ErrorKind, SemanticError};
use schiro::lexer::Lexer;
use schiro::lower::{lower_unit, parse_i64, BlockRole, IntOp, Step};
use schiro::machine::{fn_shape, map_named, map_return, map_type, MachineType};
use schiro::parser::Parser;
use schiro::pipeline::{check_for_executable, check_only, lex_parse, PipelineError};
use schiro::scope::{Symbol, SymbolKind, SymbolTable, Ty};
use schiro::semantic::SemanticAnalysis;
use schiro::text::decimal_string;
use schiro::token::TokenKind;

fn parse_ok(source: &str) -> CompilationUnit {
    let tokens = Lexer::new(source).tokenize();
    let mut parser = Parser::new(tokens);
    let cu = parser.parse();
    assert!(parser.errors.is_empty(), "unexpected parse errors");
    cu
}

fn semantic_errors(source: &str) -> Vec<SemanticError> {
    let cu = parse_ok(source);
    let mut semantic = SemanticAnalysis::new();
    semantic.analyze(&cu);
    semantic.errors()
}

fn named(name: &str) -> TypeRef {
    TypeRef::Named { name: name.to_string(), args: vec![] }
}

fn is_parameter(sym: &Symbol) -> bool {
    matches!(sym.kind, SymbolKind::Parameter(_))
}

// ---------------------------------------------------------------------------
// Symbol table
// ---------------------------------------------------------------------------

#[test]
fn table_starts_with_one_empty_scope() {
    let t = SymbolTable::new();
    assert_eq!(t.scopes.len(), 1);
    assert_eq!(t.current_scope(), 0);
    assert!(t.scopes[0].parent.is_none());
    assert!(t.lookup("x").is_none());
}

#[test]
fn define_then_lookup_finds_the_symbol() {
    let mut t = SymbolTable::new();
    t.define("x".to_string(), SymbolKind::Variable(Ty::Unknown), true, 3, 4);
    let s = t.lookup("x").expect("x is defined");
    assert_eq!(s.name, "x");
    assert!(s.mutable);
    assert_eq!(s.defined_at, (3, 4));
    assert!(t.lookup_in_current_scope("x").is_some());
    assert!(t.lookup("y").is_none());
}

#[test]
fn first_definition_in_a_scope_wins() {
    let mut t = SymbolTable::new();
    t.define("x".to_string(), SymbolKind::Variable(Ty::Unknown), false, 1, 1);
    t.define("x".to_string(), SymbolKind::Variable(Ty::Unknown), true, 2, 2);
    assert_eq!(t.lookup("x").unwrap().defined_at, (1, 1));
    assert_eq!(t.lookup_in_current_scope("x").unwrap().defined_at, (1, 1));
}

#[test]
fn enter_scope_keeps_outer_names_and_inner_names_shadow() {
    let mut t = SymbolTable::new();
    t.define("x".to_string(), SymbolKind::Variable(Ty::Unknown), false, 1, 1);
    let id = t.enter_scope();
    assert_eq!(id, 1);
    assert_eq!(t.current_scope(), 1);
    assert_eq!(t.scopes[1].parent, Some(0));
    assert_eq!(t.lookup("x").unwrap().defined_at, (1, 1));
    assert!(t.lookup_in_current_scope("x").is_none());
    t.define("x".to_string(), SymbolKind::Parameter(Ty::Unknown), true, 5, 5);
    assert_eq!(t.lookup("x").unwrap().defined_at, (5, 5));
    assert!(is_parameter(t.lookup("x").unwrap()));
}

#[test]
fn leave_scope_changes_nothing() {
    let mut t = SymbolTable::new();
    t.enter_scope();
    t.define("y".to_string(), SymbolKind::Variable(Ty::Unknown), false, 0, 0);
    t.leave_scope();
    assert_eq!(t.scopes.len(), 2);
    assert_eq!(t.current_scope(), 1);
    assert!(t.lookup("y").is_some());
}

// ---------------------------------------------------------------------------
// Types
// ---------------------------------------------------------------------------

#[test]
fn type_ref_generic_and_named() {
    let generics = vec!["T".to_string()];
    assert_eq!(Ty::from_type_ref(&named("T"), &generics), Ty::Generic("T".to_string()));
    assert_eq!(Ty::from_type_ref(&named("Int"), &generics), Ty::Named("Int".to_string()));
    assert_eq!(Ty::from_type_ref(&named("T"), &[]), Ty::Named("T".to_string()));
}

#[test]
fn type_ref_compound() {
    let f = TypeRef::Function {
        param_types: vec![named("A"), TypeRef::Ref(Box::new(named("B")))],
        return_type: Box::new(TypeRef::Tuple(vec![])),
    };
    let generics = vec!["A".to_string()];
    assert_eq!(
        Ty::from_type_ref(&f, &generics),
        Ty::Function(
            vec![Ty::Generic("A".to_string()), Ty::Ref(Box::new(Ty::Named("B".to_string())))],
            Box::new(Ty::Tuple(vec![])),
        )
    );
    assert_eq!(Ty::from_type_ref(&TypeRef::Self_, &[]), Ty::Self_);
    assert_eq!(
        Ty::from_type_ref(&TypeRef::Array(Box::new(TypeRef::Mut(Box::new(named("X"))))), &[]),
        Ty::Array(Box::new(Ty::Mut(Box::new(Ty::Named("X".to_string())))))
    );
}

// ---------------------------------------------------------------------------
// Resolution and checks
// ---------------------------------------------------------------------------

#[test]
fn assignment_to_undeclared_variable_is_reported() {
    let errors = semantic_errors("fn foo() { y = 1; }");
    assert_eq!(errors.len(), 1);
    assert!(matches!(&errors[0].kind, ErrorKind::UndefinedVariable(n) if n == "y"));
    assert_eq!(errors[0].span, None);
    assert_eq!((errors[0].line, errors[0].column), (0, 0));
}

#[test]
fn assignment_through_field_checks_the_root_variable() {
    let errors = semantic_errors("fn foo() { a.b = 1; }");
    assert_eq!(errors.len(), 1);
    assert!(matches!(&errors[0].kind, ErrorKind::UndefinedVariable(n) if n == "a"));
}

#[test]
fn assignment_to_immutable_parameter_is_reported_once() {
    let errors = semantic_errors("fn foo(x: Int) { x = 2; x = 3; }");
    assert_eq!(errors.len(), 2);
    for e in &errors {
        assert!(matches!(&e.kind, ErrorKind::CannotMutate(n) if n == "x"));
    }
    assert_eq!(errors[0].kind.to_display_string(), "cannot mutate immutable variable `x`");
}

#[test]
fn resolution_errors_come_before_check_errors() {
    let errors = semantic_errors("fn f(x: Int) { x = 1; z = 2; }");
    assert_eq!(errors.len(), 2);
    assert!(matches!(&errors[0].kind, ErrorKind::UndefinedVariable(n) if n == "z"));
    assert!(matches!(&errors[1].kind, ErrorKind::CannotMutate(n) if n == "x"));
}

#[test]
fn resolver_declares_top_level_names_first() {
    let cu = parse_ok("fn a() {} let B: Int = 1; class C;");
    let mut semantic = SemanticAnalysis::new();
    semantic.analyze(&cu);
    let top = &semantic.resolver.symbols.scopes[0].symbols;
    let names: Vec<&str> = top.iter().map(|s| s.name.as_str()).collect();
    assert_eq!(names, vec!["a", "B", "C"]);
    assert!(matches!(&top[2].kind, SymbolKind::Type(Ty::Named(n)) if n == "C"));
    assert!(matches!(&top[0].kind, SymbolKind::Function(fd) if fd.name == "a"));
}

#[test]
fn function_scopes_hold_parameters_and_self() {
    let cu = parse_ok("fn f(self, mut n: Int) { let k = 1; }");
    let mut semantic = SemanticAnalysis::new();
    semantic.analyze(&cu);
    let scopes = &semantic.resolver.symbols.scopes;
    assert_eq!(scopes.len(), 3);
    assert!(matches!(scopes[1].symbols[0].kind, SymbolKind::Variable(_)));
    assert!(matches!(scopes[1].symbols[1].kind, SymbolKind::Parameter(_)));
    assert!(scopes[1].symbols[1].mutable);
    assert_eq!(scopes[2].symbols[0].name, "k");
    assert_eq!(scopes[2].parent, Some(1));
}

// ---------------------------------------------------------------------------
// Messages
// ---------------------------------------------------------------------------

#[test]
fn error_kind_messages() {
    let cases: Vec<(ErrorKind, &str)> = vec![
        (ErrorKind::UndefinedVariable("v".into()), "undefined variable `v`"),
        (ErrorKind::UndefinedType("T".into()), "undefined type `T`"),
        (ErrorKind::UndefinedFunction("f".into()), "undefined function `f`"),
        (ErrorKind::UndefinedTrait("Tr".into()), "undefined trait `Tr`"),
        (ErrorKind::DuplicateDefinition("d".into()), "duplicate definition `d`"),
        (
            ErrorKind::TypeMismatch { expected: "Int".into(), found: "Bool".into() },
            "type mismatch: expected Int, found Bool",
        ),
        (ErrorKind::CannotMutate("m".into()), "cannot mutate immutable variable `m`"),
        (
            ErrorKind::WrongArity { name: "g".into(), expected: 2, found: 10 },
            "wrong number of arguments for `g`: expected 2, found 10",
        ),
        (ErrorKind::NotCallable("c".into()), "`c` is not callable"),
        (ErrorKind::NotIndexable("i".into()), "`i` is not indexable"),
        (
            ErrorKind::NoSuchField { type_: "P".into(), field: "z".into() },
            "no field `z` on type `P`",
        ),
        (
            ErrorKind::TraitNotImplemented { type_: "P".into(), trait_: "Show".into() },
            "type `P` does not implement trait `Show`",
        ),
        (ErrorKind::InvalidAssignmentTarget, "invalid assignment target"),
        (ErrorKind::UnusedVariable("u".into()), "unused variable `u`"),
        (ErrorKind::UnreachableCode, "unreachable code"),
        (ErrorKind::Internal("oops".into()), "internal error: oops"),
    ];
    for (kind, text) in cases {
        assert_eq!(kind.to_display_string(), text);
        assert_eq!(kind.duplicate().to_display_string(), text);
    }
}

#[test]
fn decimal_digits() {
    assert_eq!(decimal_string(0), "0");
    assert_eq!(decimal_string(7), "7");
    assert_eq!(decimal_string(10), "10");
    assert_eq!(decimal_string(12345), "12345");
    assert_eq!(decimal_string(usize::MAX), usize::MAX.to_string());
}

// ---------------------------------------------------------------------------
// Pipeline
// ---------------------------------------------------------------------------

#[test]
fn pipeline_error_messages() {
    assert_eq!(PipelineError::Parse("p".into()).to_display_string(), "parse error: p");
    assert_eq!(PipelineError::Semantic("s".into()).to_display_string(), "semantic error: s");
    assert_eq!(PipelineError::Codegen("c".into()).to_display_string(), "codegen error: c");
}

#[test]
fn check_only_accepts_a_valid_program() {
    assert!(check_only("").is_ok());
    assert!(check_only("fn main() -> Int { return 0; }").is_ok());
}

#[test]
fn check_only_reports_parse_errors_with_positions() {
    let errors = check_only("fn 1").unwrap_err();
    assert_eq!(errors.len(), 1);
    match &errors[0] {
        PipelineError::Parse(msg) => {
            assert!(msg.starts_with("[1:4] expected identifier, found "), "{msg}");
            assert!(msg.ends_with('\n'));
        }
        _ => panic!("expected a parse error"),
    }
}

#[test]
fn check_only_reports_semantic_errors() {
    let errors = check_only("fn f(x: Int) { x = 2; }").unwrap_err();
    assert_eq!(errors.len(), 1);
    match &errors[0] {
        PipelineError::Semantic(msg) => {
            assert_eq!(msg, "cannot mutate immutable variable `x`\n");
        }
        _ => panic!("expected a semantic error"),
    }
}

#[test]
fn lex_parse_notes_main() {
    let (cu, info) = lex_parse("fn main() {}").ok().unwrap();
    assert!(info.has_main);
    assert_eq!(cu.declarations.len(), 1);
    let (_, info) = lex_parse("fn other() {}").ok().unwrap();
    assert!(!info.has_main);
}

#[test]
fn executables_need_main() {
    assert!(check_for_executable("fn main() {}").is_ok());
    let errors = check_for_executable("fn helper() {}").unwrap_err();
    match &errors[0] {
        PipelineError::Semantic(msg) => {
            assert_eq!(msg, "no main() function found — required for executable");
        }
        _ => panic!("expected a semantic error"),
    }
}

// ---------------------------------------------------------------------------
// Machine types
// ---------------------------------------------------------------------------

#[test]
fn machine_types_of_names() {
    assert_eq!(map_named("Int"), MachineType::I32);
    assert_eq!(map_named("i64"), MachineType::I64);
    assert_eq!(map_named("i8"), MachineType::I8);
    assert_eq!(map_named("Float"), MachineType::F32);
    assert_eq!(map_named("double"), MachineType::F64);
    assert_eq!(map_named("bool"), MachineType::Bool);
    assert_eq!(map_named("str"), MachineType::Ptr);
    assert_eq!(map_named("unit"), MachineType::Void);
    assert_eq!(map_named("Vector2"), MachineType::Ptr);
}

#[test]
fn machine_types_of_types() {
    assert_eq!(map_type(&Ty::Unknown), MachineType::I32);
    assert_eq!(map_type(&Ty::Generic("T".into())), MachineType::Ptr);
    assert_eq!(map_type(&Ty::Class { name: "Bool".into(), args: vec![] }), MachineType::Bool);
    assert_eq!(map_type(&Ty::Named("Void".into())), MachineType::Void);
    assert_eq!(map_return(&Ty::Named("Void".into())), MachineType::Void);
    assert_eq!(map_return(&Ty::Named("Unit".into())), MachineType::Void);
    assert_eq!(map_return(&Ty::Ref(Box::new(Ty::Named("Int".into())))), MachineType::Ptr);
}

#[test]
fn function_shapes() {
    let cu = parse_ok("fn f(a: Int, b: Unit, c: String) -> String {} fn g() {}");
    let f = match &cu.declarations[0] {
        TopLevelDecl::Fn(f) => f,
        _ => panic!("expected a function"),
    };
    let shape = fn_shape(f);
    assert_eq!(shape.ret, MachineType::Ptr);
    assert_eq!(shape.emitted_ret, MachineType::I32);
    assert_eq!(shape.params, vec![MachineType::I32, MachineType::I32, MachineType::Ptr]);
    let g = match &cu.declarations[1] {
        TopLevelDecl::Fn(g) => g,
        _ => panic!("expected a function"),
    };
    let shape = fn_shape(g);
    assert_eq!(shape.ret, MachineType::Void);
    assert_eq!(shape.emitted_ret, MachineType::Void);
    assert!(shape.params.is_empty());
}

// ---------------------------------------------------------------------------
// Lexer and parser
// ---------------------------------------------------------------------------

#[test]
fn lexer_stays_at_eof() {
    let mut lexer = Lexer::new("x");
    assert!(matches!(lexer.next_token().kind, TokenKind::Identifier(_)));
    assert_eq!(lexer.next_token().kind, TokenKind::Eof);
    assert_eq!(lexer.next_token().kind, TokenKind::Eof);
    assert!(lexer.next().is_none());
}

#[test]
fn lexer_tokens_follow_each_other() {
    let tokens = Lexer::new("let x = 10; // done").tokenize();
    assert_eq!(tokens.len(), 5);
    for w in tokens.windows(2) {
        assert!(w[0].span.end <= w[1].span.start);
        assert!(w[0].span.start < w[0].span.end);
    }
    assert!(tokens.iter().all(|t| t.kind != TokenKind::Eof));
}

#[test]
fn lexer_unicode_identifiers_and_escapes() {
    let tokens = Lexer::new("été \"\\u{41}\"").tokenize();
    assert_eq!(tokens[0].kind, TokenKind::Identifier("été".into()));
    assert_eq!(tokens[1].kind, TokenKind::StringLiteral("A".into()));
}

#[test]
fn parser_on_no_tokens() {
    let mut parser = Parser::new(vec![]);
    let cu = parser.parse();
    assert!(cu.imports.is_empty());
    assert!(cu.declarations.is_empty());
    assert!(parser.errors.is_empty());
}

#[test]
fn parser_consumes_all_tokens_and_reports_stray_ones() {
    let tokens = Lexer::new("; fn a() {}").tokenize();
    let mut parser = Parser::new(tokens);
    let cu = parser.parse();
    assert_eq!(cu.declarations.len(), 1);
    assert_eq!(parser.errors.len(), 1);
}

#[test]
fn types_are_written_as_in_source() {
    let int = || Ty::Named("Int".to_string());
    let f = Ty::Function(vec![int(), Ty::Named("Bool".to_string())], Box::new(int()));
    assert_eq!(f.to_display_string(), "(Int, Bool) -> Int");
    let g = Ty::Function(vec![], Box::new(Ty::Unknown));
    assert_eq!(g.to_display_string(), "() -> ?");
    assert_eq!(Ty::Ref(Box::new(int())).to_display_string(), "&Int");
    assert_eq!(Ty::Mut(Box::new(int())).to_display_string(), "mut Int");
    assert_eq!(Ty::Array(Box::new(int())).to_display_string(), "[Int]");
    assert_eq!(Ty::Tuple(vec![int(), int(), int()]).to_display_string(), "(Int, Int, Int)");
    assert_eq!(Ty::Self_.to_display_string(), "Self");
    let list = Ty::Class { name: "List".to_string(), args: vec![Ty::Generic("T".to_string())] };
    assert_eq!(list.to_display_string(), "List<T>");
    let bare = Ty::Class { name: "Point".to_string(), args: vec![] };
    assert_eq!(bare.to_display_string(), "Point");
    assert_eq!(Ty::Error.to_display_string(), "!!ERROR!!");
}

fn lowered(source: &str) -> Vec<Step> {
    lower_unit(&parse_ok(source))
}

#[test]
fn integer_literals_read_as_the_standard_library_reads_them() {
    assert_eq!(parse_i64("42"), Some(42));
    assert_eq!(parse_i64("-7"), Some(-7));
    assert_eq!(parse_i64("+5"), Some(5));
    assert_eq!(parse_i64("007"), Some(7));
    assert_eq!(parse_i64(""), None);
    assert_eq!(parse_i64("-"), None);
    assert_eq!(parse_i64("12a"), None);
    assert_eq!(parse_i64("9223372036854775807"), Some(i64::MAX));
    assert_eq!(parse_i64("9223372036854775808"), None);
    assert_eq!(parse_i64("-9223372036854775808"), Some(i64::MIN));
    assert_eq!(parse_i64("-9223372036854775809"), None);
    assert_eq!(parse_i64("99999999999999999999999"), None);
}

#[test]
fn lowering_a_returned_sum() {
    let steps = lowered("fn main() -> Int { return 1 + 2; }");
    assert_eq!(steps.len(), 5);
    assert!(matches!(&steps[0], Step::Function { name, ret: MachineType::I32, params } if name == "main" && params.is_empty()));
    assert!(matches!(steps[1], Step::Int { dst: 0, ty: MachineType::I32, bits: 1 }));
    assert!(matches!(steps[2], Step::Int { dst: 1, ty: MachineType::I32, bits: 2 }));
    assert!(matches!(steps[3], Step::Arith { dst: 2, op: IntOp::Add, lhs: 0, rhs: 1 }));
    assert!(matches!(steps[4], Step::Return { value: Some(2) }));
}

#[test]
fn lowering_parameters_and_locals() {
    let steps = lowered("fn f(x: Int) { let y = x; }");
    assert_eq!(steps.len(), 6);
    assert!(matches!(&steps[0], Step::Function { ret: MachineType::Void, params, .. } if params == &vec![MachineType::I32]));
    assert!(matches!(&steps[1], Step::Param { index: 0, slot: 0, ty: MachineType::I32, name } if name == "x"));
    assert!(matches!(&steps[2], Step::Load { dst: 0, slot: 0, name } if name == "x"));
    assert!(matches!(steps[3], Step::Alloca { slot: 1, ty: MachineType::I32 }));
    assert!(matches!(steps[4], Step::Store { slot: 1, value: 0 }));
    assert!(matches!(steps[5], Step::Return { value: None }));
}

#[test]
fn lowering_a_while_loop() {
    // Parsed `while` statements stand as expressions; the statement form is
    // built by hand here.
    let cond = Expression::Literal(Literal::Bool(true));
    let body = vec![Statement::While(WhileExpr { condition: Box::new(cond), body: vec![] })];
    let fd = FnDecl {
        static_: false,
        modifier: None,
        name: "g".to_string(),
        params: TypeParams { params: vec![] },
        parameters: vec![],
        return_type: None,
        body: BlockOrSemi::Block(body),
    };
    let cu = CompilationUnit { imports: vec![], declarations: vec![TopLevelDecl::Fn(fd)] };
    let steps = lower_unit(&cu);
    assert_eq!(steps.len(), 12);
    assert!(matches!(steps[1], Step::Block { block: 0, role: BlockRole::WhileCond }));
    assert!(matches!(steps[2], Step::Block { block: 1, role: BlockRole::WhileBody }));
    assert!(matches!(steps[3], Step::Block { block: 2, role: BlockRole::WhileEnd }));
    assert!(matches!(steps[4], Step::Branch { target: 0 }));
    assert!(matches!(steps[5], Step::Position { block: 0 }));
    assert!(matches!(steps[6], Step::Int { dst: 0, ty: MachineType::Bool, bits: 1 }));
    assert!(matches!(steps[7], Step::CondBranch { cond: 0, then_: 1, else_: 2 }));
    assert!(matches!(steps[8], Step::Position { block: 1 }));
    assert!(matches!(steps[9], Step::Branch { target: 0 }));
    assert!(matches!(steps[10], Step::Position { block: 2 }));
    assert!(matches!(steps[11], Step::Return { value: None }));
}

#[test]
fn constants_after_a_return_leave_the_block_terminated() {
    let steps = lowered("fn k() -> Int { return 0; z = 1 + 2; }");
    assert_eq!(steps.len(), 6);
    assert!(matches!(steps[2], Step::Return { value: Some(0) }));
    assert!(matches!(steps[5], Step::Arith { dst: 3, .. }));
    let steps = lowered("fn h() -> Int { return 0; let x = 1 + 2; }");
    assert_eq!(steps.len(), 9);
    assert!(matches!(steps[8], Step::ReturnZero { ty: MachineType::I32 }));
}

#[test]
fn a_call_of_a_function_without_value_stops_code_generation() {
    let steps = lowered("fn v() { } fn m() -> Int { let a = v(); return 0; }");
    assert!(matches!(&steps[2], Step::Function { name, .. } if name == "m"));
    assert!(matches!(&steps[3], Step::CallWithoutValue { callee: 0, args } if args.is_empty()));
}

#[test]
fn parsed_control_flow_is_an_expression_statement_and_gives_no_steps() {
    let steps = lowered("fn g() { while true { } }");
    assert_eq!(steps.len(), 2);
    assert!(matches!(steps[1], Step::Return { value: None }));
}

fn step_uses(s: &Step) -> Vec<usize> {
    match s {
        Step::Arith { lhs, rhs, .. } => vec![*lhs, *rhs],
        Step::Neg { operand, .. } | Step::FNeg { operand, .. } | Step::Not { operand, .. } => vec![*operand],
        Step::Call { args, .. } | Step::CallWithoutValue { args, .. } => args.clone(),
        Step::Store { value, .. } => vec![*value],
        Step::Return { value: Some(v) } => vec![*v],
        Step::CondBranch { cond, .. } => vec![*cond],
        _ => vec![],
    }
}

fn step_makes(s: &Step) -> Option<usize> {
    match s {
        Step::Int { dst, .. }
        | Step::Float { dst, .. }
        | Step::Text { dst, .. }
        | Step::Null { dst }
        | Step::Load { dst, .. }
        | Step::LoadText { dst }
        | Step::Arith { dst, .. }
        | Step::Neg { dst, .. }
        | Step::FNeg { dst, .. }
        | Step::Not { dst, .. }
        | Step::Call { dst, .. } => Some(*dst),
        _ => None,
    }
}

#[test]
fn lowered_values_are_made_before_they_are_used() {
    let source = "fn sq(x: Int) -> Int { return x * x; }\n\
                  fn main() -> Int { let a = 3; let b = -a + sq(a + 1); a = !b; return b - 2 * a; }";
    let steps = lowered(source);
    let mut made = 0usize;
    for s in &steps {
        for u in step_uses(s) {
            assert!(u < made);
        }
        if let Some(d) = step_makes(s) {
            assert_eq!(d, made);
            made += 1;
        }
    }
    assert!(made >= 10);
}
