//! The front end as a whole: parsing, resolution, folding, lowering, and
//! execution of the generated code.

use whiskc::ast;
use whiskc::bytecode::Value;
use whiskc::fold::EvalConstant;
use whiskc::module::Module;
use whiskc::parser::{self, ParseContext, ParseError};
use whiskc::resolve::{resolve, ResolveError};
use whiskc::resolved;
use whiskc::symbol::{TypeId, VarId};
use whiskc::token::{Delimiter, Keyword, LiteralKeyword, Operator, Span, Token, TokenKind, Type};
use whiskc::visit::visit_expr_mut;
use whiskc::vm::{RunOutcome, VM};

fn sp() -> Span {
    Span { start: 0, end: 0 }
}

fn t(kind: TokenKind) -> Token {
    Token { kind, loc: sp() }
}

fn ident(s: &str) -> Token {
    t(TokenKind::Identifier(s.to_string()))
}

fn kw(k: Keyword) -> Token {
    t(TokenKind::Keyword(k))
}

fn d(x: Delimiter) -> Token {
    t(TokenKind::Delimiter(x))
}

fn op(o: Operator) -> Token {
    t(TokenKind::Operator(o))
}

fn lit(v: i64) -> Token {
    t(TokenKind::Literal(v))
}

fn ty(x: Type) -> Token {
    t(TokenKind::Type(x))
}

fn rint(v: i64) -> resolved::Expr {
    resolved::Expr { kind: resolved::ExprKind::Integer(v), ty: TypeId(1), loc: sp() }
}

fn rbin(o: Operator, l: resolved::Expr, r: resolved::Expr) -> resolved::Expr {
    resolved::Expr {
        kind: resolved::ExprKind::Binary(resolved::BinaryExpr {
            op: o,
            left: Box::new(l),
            right: Box::new(r),
        }),
        ty: TypeId(1),
        loc: sp(),
    }
}

#[test]
fn folding_adds_literals() {
    let mut e = rbin(Operator::Add, rint(2), rint(3));
    visit_expr_mut(&mut e);
    assert!(matches!(e.kind, resolved::ExprKind::Integer(5)));
    assert_eq!(e.ty, TypeId(1));
}

#[test]
fn folding_is_bottom_up() {
    // (1 + 2) - (4 + 5) folds all the way to -6
    let mut e = rbin(
        Operator::Sub,
        rbin(Operator::Add, rint(1), rint(2)),
        rbin(Operator::Add, rint(4), rint(5)),
    );
    visit_expr_mut(&mut e);
    assert!(matches!(e.kind, resolved::ExprKind::Integer(-6)));
}

#[test]
fn folding_leaves_nonfoldable_trees_alone() {
    let mut e = resolved::Expr {
        kind: resolved::ExprKind::Identifier(resolved::IdentExpr { sym_id: VarId(3) }),
        ty: TypeId(1),
        loc: sp(),
    };
    visit_expr_mut(&mut e);
    match e.kind {
        resolved::ExprKind::Identifier(id) => assert_eq!(id.sym_id, VarId(3)),
        _ => panic!("an identifier never folds"),
    }
}

#[test]
fn folding_is_idempotent() {
    let mut e = rbin(Operator::Add, rint(2), rbin(Operator::Sub, rint(9), rint(4)));
    visit_expr_mut(&mut e);
    assert!(matches!(e.kind, resolved::ExprKind::Integer(7)));
    visit_expr_mut(&mut e);
    assert!(matches!(e.kind, resolved::ExprKind::Integer(7)));
}

#[test]
fn folding_wraps_like_the_machine() {
    let mut e = rbin(Operator::Add, rint(i64::MAX), rint(1));
    visit_expr_mut(&mut e);
    assert!(matches!(e.kind, resolved::ExprKind::Integer(i64::MIN)));
}

#[test]
fn eval_constant_per_operator() {
    let cases: Vec<(Operator, i64, i64)> = vec![
        (Operator::Sub, 7, 2),
        (Operator::Less, 3, 4),
        (Operator::LessEqual, 4, 4),
        (Operator::Greater, 3, 4),
        (Operator::GreaterEqual, 3, 4),
        (Operator::Equal, 4, 4),
        (Operator::NotEqual, 4, 4),
    ];
    for (o, a, b) in cases {
        let e = resolved::BinaryExpr {
            op: o,
            left: Box::new(rint(a)),
            right: Box::new(rint(b)),
        };
        let folded = e.eval_constant().expect("two integer literals fold");
        match (o, folded) {
            (Operator::Sub, resolved::ExprKind::Integer(v)) => assert_eq!(v, 5),
            (Operator::Less, resolved::ExprKind::Bool(v)) => assert!(v),
            (Operator::LessEqual, resolved::ExprKind::Bool(v)) => assert!(v),
            (Operator::Greater, resolved::ExprKind::Bool(v)) => assert!(!v),
            (Operator::GreaterEqual, resolved::ExprKind::Bool(v)) => assert!(!v),
            (Operator::Equal, resolved::ExprKind::Bool(v)) => assert!(v),
            (Operator::NotEqual, resolved::ExprKind::Bool(v)) => assert!(!v),
            _ => panic!("wrong folded kind"),
        }
    }
}

#[test]
fn eval_constant_rejects_mismatched_kinds() {
    let e = resolved::BinaryExpr {
        op: Operator::Equal,
        left: Box::new(rint(1)),
        right: Box::new(resolved::Expr {
            kind: resolved::ExprKind::Bool(true),
            ty: TypeId(2),
            loc: sp(),
        }),
    };
    assert!(e.eval_constant().is_none());
}

/// `func main() { let x = 1; { let x = 2; return x; } return x; }`
fn shadowing_tokens() -> Vec<Token> {
    vec![
        kw(Keyword::Func),
        ident("main"),
        d(Delimiter::ParenOpen),
        d(Delimiter::ParenClose),
        d(Delimiter::BraceOpen),
        kw(Keyword::Let),
        ident("x"),
        d(Delimiter::Assign),
        lit(1),
        d(Delimiter::Semicolon),
        d(Delimiter::BraceOpen),
        kw(Keyword::Let),
        ident("x"),
        d(Delimiter::Assign),
        lit(2),
        d(Delimiter::Semicolon),
        kw(Keyword::Return),
        ident("x"),
        d(Delimiter::Semicolon),
        d(Delimiter::BraceClose),
        kw(Keyword::Return),
        ident("x"),
        d(Delimiter::Semicolon),
        d(Delimiter::BraceClose),
    ]
}

fn ident_of(e: &resolved::Expr) -> VarId {
    match &e.kind {
        resolved::ExprKind::Identifier(id) => id.sym_id,
        _ => panic!("expected an identifier"),
    }
}

#[test]
fn shadowing_resolves_inner_use_to_inner_binding() {
    let a = parser::parse(shadowing_tokens()).expect("parses");
    let (rast, _table) = resolve(&a).expect("resolves");
    let body = match &rast.items[0] {
        resolved::Item::Function(f) => &f.body,
        _ => panic!("one function item"),
    };
    let outer_let = match &body.stmts[0] {
        resolved::Stmt::Let(l) => l.sym_id,
        _ => panic!("first statement is the outer let"),
    };
    let inner = match &body.stmts[1] {
        resolved::Stmt::Block(b) => b,
        _ => panic!("second statement is the nested block"),
    };
    let inner_let = match &inner.stmts[0] {
        resolved::Stmt::Let(l) => l.sym_id,
        _ => panic!("nested block starts with a let"),
    };
    let inner_use = match &inner.stmts[1] {
        resolved::Stmt::Return(r) => ident_of(r.expr.as_ref().unwrap()),
        _ => panic!("nested block returns x"),
    };
    let outer_use = match &body.stmts[2] {
        resolved::Stmt::Return(r) => ident_of(r.expr.as_ref().unwrap()),
        _ => panic!("function returns x"),
    };
    assert_ne!(outer_let, inner_let);
    assert_eq!(inner_use, inner_let);
    assert_eq!(outer_use, outer_let);
}

/// `func a() int { return b(); } func b() int { return a(); }`
fn mutual_recursion_tokens() -> Vec<Token> {
    let mut v = Vec::new();
    for (name, callee) in [("a", "b"), ("b", "a")] {
        v.extend([
            kw(Keyword::Func),
            ident(name),
            d(Delimiter::ParenOpen),
            d(Delimiter::ParenClose),
            ty(Type::Int),
            d(Delimiter::BraceOpen),
            kw(Keyword::Return),
            ident(callee),
            d(Delimiter::ParenOpen),
            d(Delimiter::ParenClose),
            d(Delimiter::Semicolon),
            d(Delimiter::BraceClose),
        ]);
    }
    v
}

#[test]
fn forward_references_resolve() {
    let a = parser::parse(mutual_recursion_tokens()).expect("parses");
    assert!(resolve(&a).is_ok(), "mutually recursive functions resolve with no errors");
}

#[test]
fn resolving_twice_yields_the_same_table() {
    let a = parser::parse(shadowing_tokens()).expect("parses");
    let (_r1, t1) = resolve(&a).expect("resolves");
    let (_r2, t2) = resolve(&a).expect("resolves again");
    assert_eq!(t1, t2);
}

#[test]
fn two_unresolved_identifiers_yield_two_errors() {
    // func main() { return x + y; }
    let toks = vec![
        kw(Keyword::Func),
        ident("main"),
        d(Delimiter::ParenOpen),
        d(Delimiter::ParenClose),
        d(Delimiter::BraceOpen),
        kw(Keyword::Return),
        ident("x"),
        op(Operator::Add),
        ident("y"),
        d(Delimiter::Semicolon),
        d(Delimiter::BraceClose),
    ];
    let a = parser::parse(toks).expect("parses");
    let errs = resolve(&a).expect_err("two names are unbound");
    assert_eq!(errs.len(), 2);
    assert!(errs.iter().all(|e| matches!(e, ResolveError::UnresolvedIdentifier(_))));
}

#[test]
fn unresolved_call_is_reported() {
    let toks = vec![
        kw(Keyword::Func),
        ident("main"),
        d(Delimiter::ParenOpen),
        d(Delimiter::ParenClose),
        d(Delimiter::BraceOpen),
        kw(Keyword::Return),
        ident("nope"),
        d(Delimiter::ParenOpen),
        d(Delimiter::ParenClose),
        d(Delimiter::Semicolon),
        d(Delimiter::BraceClose),
    ];
    let a = parser::parse(toks).expect("parses");
    let errs = resolve(&a).expect_err("the callee is unbound");
    assert_eq!(errs.len(), 1);
    assert!(matches!(errs[0], ResolveError::UnresolvedCall(_)));
}

fn if_return_tokens(cond: LiteralKeyword) -> Vec<Token> {
    vec![
        kw(Keyword::Func),
        ident("main"),
        d(Delimiter::ParenOpen),
        d(Delimiter::ParenClose),
        ty(Type::Int),
        d(Delimiter::BraceOpen),
        kw(Keyword::If),
        t(TokenKind::LiteralKeyword(cond)),
        d(Delimiter::BraceOpen),
        kw(Keyword::Return),
        lit(1),
        d(Delimiter::Semicolon),
        d(Delimiter::BraceClose),
        kw(Keyword::Else),
        d(Delimiter::BraceOpen),
        kw(Keyword::Return),
        lit(2),
        d(Delimiter::Semicolon),
        d(Delimiter::BraceClose),
        d(Delimiter::BraceClose),
    ]
}

fn run_pipeline(tokens: Vec<Token>, fold: bool) -> RunOutcome {
    let mut m = Module::new("unit".to_string());
    assert!(m.parse_ast(tokens).is_none(), "parses");
    assert!(m.resolve_ast().is_none(), "resolves");
    if fold {
        assert!(m.run_passes());
    }
    let prog = m.codegen().expect("lowers");
    VM::run(&prog, 10_000)
}

#[test]
fn if_true_returns_the_then_value() {
    assert_eq!(run_pipeline(if_return_tokens(LiteralKeyword::True), false), RunOutcome::Done(
        Value::Int(1),
    ));
    assert_eq!(run_pipeline(if_return_tokens(LiteralKeyword::True), true), RunOutcome::Done(
        Value::Int(1),
    ));
}

#[test]
fn if_false_returns_the_else_value() {
    // the "then ends in return" optimization must not break the false branch
    assert_eq!(run_pipeline(if_return_tokens(LiteralKeyword::False), false), RunOutcome::Done(
        Value::Int(2),
    ));
    assert_eq!(run_pipeline(if_return_tokens(LiteralKeyword::False), true), RunOutcome::Done(
        Value::Int(2),
    ));
}

#[test]
fn arithmetic_program_end_to_end() {
    // func main() int { let x = 2 + 3; let y = x; return y + -1; }
    let toks = vec![
        kw(Keyword::Func),
        ident("main"),
        d(Delimiter::ParenOpen),
        d(Delimiter::ParenClose),
        ty(Type::Int),
        d(Delimiter::BraceOpen),
        kw(Keyword::Let),
        ident("x"),
        d(Delimiter::Assign),
        lit(2),
        op(Operator::Add),
        lit(3),
        d(Delimiter::Semicolon),
        kw(Keyword::Let),
        ident("y"),
        d(Delimiter::Assign),
        ident("x"),
        d(Delimiter::Semicolon),
        kw(Keyword::Return),
        ident("y"),
        op(Operator::Add),
        op(Operator::Sub),
        lit(1),
        d(Delimiter::Semicolon),
        d(Delimiter::BraceClose),
    ];
    assert_eq!(run_pipeline(toks.clone(), false), RunOutcome::Done(Value::Int(4)));
    assert_eq!(run_pipeline(toks, true), RunOutcome::Done(Value::Int(4)));
}

#[test]
fn call_program_end_to_end() {
    // func add1(v int) int { return v + 1; } func main() int { return add1(41); }
    let toks = vec![
        kw(Keyword::Func),
        ident("add1"),
        d(Delimiter::ParenOpen),
        ident("v"),
        ty(Type::Int),
        d(Delimiter::ParenClose),
        ty(Type::Int),
        d(Delimiter::BraceOpen),
        kw(Keyword::Return),
        ident("v"),
        op(Operator::Add),
        lit(1),
        d(Delimiter::Semicolon),
        d(Delimiter::BraceClose),
        kw(Keyword::Func),
        ident("main"),
        d(Delimiter::ParenOpen),
        d(Delimiter::ParenClose),
        ty(Type::Int),
        d(Delimiter::BraceOpen),
        kw(Keyword::Return),
        ident("add1"),
        d(Delimiter::ParenOpen),
        lit(41),
        d(Delimiter::ParenClose),
        d(Delimiter::Semicolon),
        d(Delimiter::BraceClose),
    ];
    assert_eq!(run_pipeline(toks, true), RunOutcome::Done(Value::Int(42)));
}

#[test]
fn assignment_program_end_to_end() {
    // func main() int { let x = 1; x = x + 9; return x; }
    let toks = vec![
        kw(Keyword::Func),
        ident("main"),
        d(Delimiter::ParenOpen),
        d(Delimiter::ParenClose),
        ty(Type::Int),
        d(Delimiter::BraceOpen),
        kw(Keyword::Let),
        ident("x"),
        d(Delimiter::Assign),
        lit(1),
        d(Delimiter::Semicolon),
        ident("x"),
        d(Delimiter::Assign),
        ident("x"),
        op(Operator::Add),
        lit(9),
        d(Delimiter::Semicolon),
        kw(Keyword::Return),
        ident("x"),
        d(Delimiter::Semicolon),
        d(Delimiter::BraceClose),
    ];
    assert_eq!(run_pipeline(toks, false), RunOutcome::Done(Value::Int(10)));
}

#[test]
fn parser_precedence_add_binds_tighter_than_compare() {
    // 1 + 2 < 4 && true parses as ((1 + 2) < 4) && true
    let toks = vec![
        lit(1),
        op(Operator::Add),
        lit(2),
        op(Operator::Less),
        lit(4),
        op(Operator::And),
        t(TokenKind::LiteralKeyword(LiteralKeyword::True)),
    ];
    let mut ctx = ParseContext::new(toks);
    let e = ast::Expr::parse(&mut ctx).expect("parses");
    let and = match e {
        ast::Expr::Binary(b) => b,
        _ => panic!("top is a binary node"),
    };
    assert_eq!(and.op.item, Operator::And);
    let cmp = match *and.left {
        ast::Expr::Binary(b) => b,
        _ => panic!("left of && is the comparison"),
    };
    assert_eq!(cmp.op.item, Operator::Less);
    let add = match *cmp.left {
        ast::Expr::Binary(b) => b,
        _ => panic!("left of < is the sum"),
    };
    assert_eq!(add.op.item, Operator::Add);
}

#[test]
fn parser_prefix_minus_binds_tighter_than_add() {
    // -1 + 2 parses as (-1) + 2
    let toks = vec![op(Operator::Sub), lit(1), op(Operator::Add), lit(2)];
    let mut ctx = ParseContext::new(toks);
    let e = ast::Expr::parse(&mut ctx).expect("parses");
    let add = match e {
        ast::Expr::Binary(b) => b,
        _ => panic!("top is the sum"),
    };
    assert_eq!(add.op.item, Operator::Add);
    assert!(matches!(*add.left, ast::Expr::Unary(_)));
}

#[test]
fn parser_cast_and_index_and_call() {
    // f(1, 2)[0] as int
    let toks = vec![
        ident("f"),
        d(Delimiter::ParenOpen),
        lit(1),
        d(Delimiter::Comma),
        lit(2),
        d(Delimiter::ParenClose),
        d(Delimiter::BracketOpen),
        lit(0),
        d(Delimiter::BracketClose),
        kw(Keyword::As),
        ty(Type::Int),
    ];
    let mut ctx = ParseContext::new(toks);
    let e = ast::Expr::parse(&mut ctx).expect("parses");
    let cast = match e {
        ast::Expr::Cast(c) => c,
        _ => panic!("top is the cast"),
    };
    assert_eq!(cast.ty.item, Type::Int);
    let index = match *cast.expr {
        ast::Expr::ArrayIndex(i) => i,
        _ => panic!("under the cast sits the indexing"),
    };
    let call = match *index.expr {
        ast::Expr::Call(c) => c,
        _ => panic!("under the indexing sits the call"),
    };
    assert_eq!(call.args.items.len(), 2);
}

#[test]
fn parser_array_literal() {
    let toks = vec![
        d(Delimiter::BracketOpen),
        lit(1),
        d(Delimiter::Comma),
        lit(2),
        d(Delimiter::Comma),
        d(Delimiter::BracketClose),
    ];
    let mut ctx = ParseContext::new(toks);
    let e = ast::Expr::parse(&mut ctx).expect("parses with a trailing comma");
    match e {
        ast::Expr::Array(a) => assert_eq!(a.elements.items.len(), 2),
        _ => panic!("an array literal"),
    }
}

#[test]
fn parser_missing_function_body_is_reported() {
    // func f() int 1
    let toks = vec![
        kw(Keyword::Func),
        ident("f"),
        d(Delimiter::ParenOpen),
        d(Delimiter::ParenClose),
        ty(Type::Int),
        lit(1),
    ];
    let errs = parser::parse(toks).expect_err("the body is not a block");
    assert!(errs.iter().any(|e| matches!(
        e.item,
        ParseError::Func(parser::FunctionParseError::MissingFunctionBody { .. })
    )));
}

#[test]
fn parser_unexpected_token_is_reported() {
    let toks = vec![
        kw(Keyword::Func),
        ident("f"),
        d(Delimiter::ParenOpen),
        d(Delimiter::ParenClose),
        d(Delimiter::BraceOpen),
        kw(Keyword::Return),
        d(Delimiter::ParenClose),
        d(Delimiter::Semicolon),
        d(Delimiter::BraceClose),
    ];
    let errs = parser::parse(toks).expect_err("a closing paren starts no expression");
    assert!(errs.iter().any(|e| matches!(
        e.item,
        ParseError::Expr(parser::ExprParseError::UnexpectedToken(_))
    )));
}

#[test]
fn loop_with_return_terminates() {
    // func main() int { let x = 0; loop { x = x + 1; if x > 4 { return x; } } }
    let toks = vec![
        kw(Keyword::Func),
        ident("main"),
        d(Delimiter::ParenOpen),
        d(Delimiter::ParenClose),
        ty(Type::Int),
        d(Delimiter::BraceOpen),
        kw(Keyword::Let),
        ident("x"),
        d(Delimiter::Assign),
        lit(0),
        d(Delimiter::Semicolon),
        kw(Keyword::Loop),
        d(Delimiter::BraceOpen),
        ident("x"),
        d(Delimiter::Assign),
        ident("x"),
        op(Operator::Add),
        lit(1),
        d(Delimiter::Semicolon),
        kw(Keyword::If),
        ident("x"),
        op(Operator::Greater),
        lit(4),
        d(Delimiter::BraceOpen),
        kw(Keyword::Return),
        ident("x"),
        d(Delimiter::Semicolon),
        d(Delimiter::BraceClose),
        d(Delimiter::BraceClose),
        d(Delimiter::BraceClose),
    ];
    assert_eq!(run_pipeline(toks, false), RunOutcome::Done(Value::Int(5)));
}

#[test]
fn module_tracks_its_name() {
    let m = Module::new("demo".to_string());
    assert_eq!(m.get_name(), "demo");
}

#[test]
fn extern_function_parses_and_compiles_to_an_empty_stub() {
    // extern func put(v int); func main() { put(1); }
    let toks = vec![
        kw(Keyword::Extern),
        kw(Keyword::Func),
        ident("put"),
        d(Delimiter::ParenOpen),
        ident("v"),
        ty(Type::Int),
        d(Delimiter::ParenClose),
        d(Delimiter::Semicolon),
        kw(Keyword::Func),
        ident("main"),
        d(Delimiter::ParenOpen),
        d(Delimiter::ParenClose),
        d(Delimiter::BraceOpen),
        kw(Keyword::Return),
        d(Delimiter::Semicolon),
        d(Delimiter::BraceClose),
    ];
    let mut m = Module::new("unit".to_string());
    assert!(m.parse_ast(toks).is_none());
    assert!(m.resolve_ast().is_none());
    let prog = m.codegen().expect("lowers");
    assert_eq!(prog.funcs.len(), 2);
    assert_eq!(prog.funcs[0].insts.len(), 0);
    assert_eq!(prog.entry, 1);
    assert_eq!(VM::run(&prog, 100), RunOutcome::Done(Value::Unit));
}

#[test]
fn unsupported_construct_is_a_resolve_error() {
    // func main() { return [1, 2]; } — the back end has no arrays
    let toks = vec![
        kw(Keyword::Func),
        ident("main"),
        d(Delimiter::ParenOpen),
        d(Delimiter::ParenClose),
        d(Delimiter::BraceOpen),
        kw(Keyword::Return),
        d(Delimiter::BracketOpen),
        lit(1),
        d(Delimiter::Comma),
        lit(2),
        d(Delimiter::BracketClose),
        d(Delimiter::Semicolon),
        d(Delimiter::BraceClose),
    ];
    let a = parser::parse(toks).expect("parses");
    let errs = resolve(&a).expect_err("arrays do not resolve");
    assert_eq!(errs.len(), 1);
    assert!(matches!(errs[0], ResolveError::UnsupportedExpr(_)));
}

#[test]
fn assignment_to_a_literal_is_a_codegen_error() {
    // func main() { 1 = 2; } — resolution accepts it; lowering must not
    let toks = vec![
        kw(Keyword::Func),
        ident("main"),
        d(Delimiter::ParenOpen),
        d(Delimiter::ParenClose),
        d(Delimiter::BraceOpen),
        lit(1),
        d(Delimiter::Assign),
        lit(2),
        d(Delimiter::Semicolon),
        d(Delimiter::BraceClose),
    ];
    let mut m = Module::new("unit".to_string());
    assert!(m.parse_ast(toks).is_none());
    assert!(m.resolve_ast().is_none());
    assert!(m.codegen().is_none(), "an unsupported assignment target aborts lowering");
}

#[test]
fn lowering_module_compiles_like_the_pipeline() {
    let a = parser::parse(mutual_recursion_tokens()).expect("parses");
    let (rast, table) = resolve(&a).expect("resolves");
    let m = whiskc::lowering::Module { sym_table: table, items: rast.items };
    let prog = m.codegen().expect("lowers");
    assert_eq!(prog.funcs.len(), 2);
}

#[test]
fn table_starts_with_the_primitive_types() {
    let t = whiskc::symbol::SymbolTable::new();
    assert_eq!(t.types.len(), 3);
    assert_eq!(t.types[0].get_id(), whiskc::symbol::TypeId(0));
    assert_eq!(t.types[1].get_id(), whiskc::symbol::TypeId(1));
    assert_eq!(t.types[2].get_id(), whiskc::symbol::TypeId(2));
    assert_eq!(t.types[1].name, "int");
}

#[test]
fn blocks_form_a_tree_rooted_at_the_entry_block() {
    let a = parser::parse(shadowing_tokens()).expect("parses");
    let (_rast, table) = resolve(&a).expect("resolves");
    assert_eq!(table.funcs.len(), 1);
    let entry = table.funcs[0].entry_block;
    let entry_sym = &table.blocks[entry.0];
    assert_eq!(entry_sym.parent_block, None);
    assert_eq!(entry_sym.func, table.funcs[0].get_id());
    // the nested block's parent is the entry block
    let nested = &table.blocks[1];
    assert_eq!(nested.parent_block, Some(entry));
    // both lets bind variables owned by their own blocks
    assert_eq!(table.vars.len(), 2);
    assert_eq!(table.vars[0].block, entry);
    assert_eq!(table.vars[1].block, nested.get_id());
}

#[test]
fn missing_semicolon_is_reported() {
    // func f() { 1 2; } — the first expression statement lacks its semicolon
    let toks = vec![
        kw(Keyword::Func),
        ident("f"),
        d(Delimiter::ParenOpen),
        d(Delimiter::ParenClose),
        d(Delimiter::BraceOpen),
        lit(1),
        lit(2),
        d(Delimiter::Semicolon),
        d(Delimiter::BraceClose),
    ];
    let errs = parser::parse(toks).expect_err("the first statement lacks its semicolon");
    assert!(errs.iter().any(|e| matches!(
        e.item,
        ParseError::ExpectedDelimiter(Delimiter::Semicolon)
    )));
}

#[test]
fn missing_parameter_type_is_reported() {
    let toks = vec![
        kw(Keyword::Func),
        ident("f"),
        d(Delimiter::ParenOpen),
        ident("v"),
        d(Delimiter::ParenClose),
        d(Delimiter::BraceOpen),
        d(Delimiter::BraceClose),
    ];
    let errs = parser::parse(toks).expect_err("the parameter lacks its type");
    assert!(errs.iter().any(|e| matches!(e.item, ParseError::ExpectedType)));
}

#[test]
fn missing_function_name_is_reported() {
    let toks = vec![kw(Keyword::Func), d(Delimiter::ParenOpen)];
    let errs = parser::parse(toks).expect_err("the function lacks its name");
    assert!(errs.iter().any(|e| matches!(e.item, ParseError::ExpectedIdentifier)));
}

#[test]
fn assignment_target_error_carries_its_cause() {
    let toks = vec![
        kw(Keyword::Func),
        ident("main"),
        d(Delimiter::ParenOpen),
        d(Delimiter::ParenClose),
        d(Delimiter::BraceOpen),
        lit(1),
        d(Delimiter::Assign),
        lit(2),
        d(Delimiter::Semicolon),
        d(Delimiter::BraceClose),
    ];
    let a = parser::parse(toks).expect("parses");
    let (rast, table) = resolve(&a).expect("resolves");
    let m = whiskc::lowering::Module { sym_table: table, items: rast.items };
    assert_eq!(
        m.codegen().expect_err("a literal is no assignment target"),
        whiskc::codegen::CodegenError::UnsupportedAssignmentTarget
    );
}

#[test]
fn block_trailing_value_expression_parses() {
    // { let x = 1; x + 2 } — the trailing expression is the block's value
    let toks = vec![
        d(Delimiter::BraceOpen),
        kw(Keyword::Let),
        ident("x"),
        d(Delimiter::Assign),
        lit(1),
        d(Delimiter::Semicolon),
        ident("x"),
        op(Operator::Add),
        lit(2),
        d(Delimiter::BraceClose),
    ];
    let mut ctx = ParseContext::new(toks);
    let e = ast::Expr::parse(&mut ctx).expect("parses");
    match e {
        ast::Expr::Block(b) => {
            assert_eq!(b.stmts.len(), 1);
            assert!(b.eval_expr.is_some());
        },
        _ => panic!("a braced block"),
    }
}

#[test]
fn block_trailing_value_resolves_and_runs() {
    // func main() { 1 + 2 } — the trailing value resolves as a final
    // expression statement; the function returns unit
    let toks = vec![
        kw(Keyword::Func),
        ident("main"),
        d(Delimiter::ParenOpen),
        d(Delimiter::ParenClose),
        d(Delimiter::BraceOpen),
        lit(1),
        op(Operator::Add),
        lit(2),
        d(Delimiter::BraceClose),
    ];
    assert_eq!(run_pipeline(toks, true), RunOutcome::Done(Value::Unit));
}
