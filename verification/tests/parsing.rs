use armour_lang::lexer::{try_lex, LocToken};
use armour_lang::parser::{Decl, Expr, Infix, Iter, LocExpr, Prefix, Stmt};
use armour_lang::parsing::{parse_block_stmt_eof, parse_expr_eof, parse_program};

fn toks(s: &str) -> Vec<LocToken> {
    try_lex(s).expect("lexing stopped")
}

fn expr(s: &str) -> LocExpr {
    parse_expr_eof(&toks(s)).expect("syntax error")
}

fn shape(e: &LocExpr) -> String {
    match &e.1 {
        Expr::IdentExpr(i) => i.0.clone(),
        Expr::LitExpr(l) => format!("{:?}", l),
        Expr::InfixExpr(op, a, b) => format!("({} {:?} {})", shape(a), op, shape(b)),
        Expr::PrefixExpr(op, a) => format!("({:?} {})", op, shape(a)),
        Expr::CallExpr { function, arguments, .. } => {
            let args: Vec<String> = arguments.iter().map(shape).collect();
            format!("{}[{}]", function, args.join(", "))
        }
        Expr::TupleExpr(v) => format!("tuple{}", v.len()),
        Expr::ListExpr(v) => format!("list{}", v.len()),
        Expr::IterExpr { op, .. } => format!("{:?}", op),
        Expr::IfExpr { .. } => "if".to_string(),
        Expr::IfMatchExpr { matches, .. } => format!("if-match{}", matches.len()),
        Expr::IfSomeMatchExpr { .. } => "if-some".to_string(),
    }
}

#[test]
fn operators_bind_by_precedence() {
    assert_eq!(shape(&expr("a + b * c")), "(a Plus (b Multiply c))");
    assert_eq!(shape(&expr("a * b + c")), "((a Multiply b) Plus c)");
    assert_eq!(shape(&expr("a - b - c")), "((a Minus b) Minus c)");
    assert_eq!(shape(&expr("a || b && c")), "(a Or (b And c))");
    assert_eq!(shape(&expr("a == b && c")), "((a Equal b) And c)");
    // a prefix operator takes the whole expression after it
    assert_eq!(shape(&expr("-a + b")), "(Minus (a Plus b))");
}

#[test]
fn calls_and_methods() {
    assert_eq!(shape(&expr("f(1, x)")), "f[FlatLiteral(Int(1)), x]");
    assert_eq!(shape(&expr("Label::concat(a, b)")), "Label::concat[a, b]");
    assert_eq!(shape(&expr("a.len()")), ".::len[a]");
    assert_eq!(shape(&expr("t.1")), "1[t]");
    assert_eq!(shape(&expr("Some(1)")), "option::Some[FlatLiteral(Int(1))]");
    assert_eq!(shape(&expr("(1, 2)")), "tuple2");
    assert_eq!(shape(&expr("[1, 2, 3]")), "list3");
    assert!(parse_expr_eof(&toks("(1 + )")).is_none());
}

#[test]
fn conditionals_and_iterators() {
    assert_eq!(shape(&expr("if x { 1 } else { 2 }")), "if");
    assert_eq!(shape(&expr("if x matches \"a\" && y matches 'b::c' { 1 }")), "if-match2");
    assert_eq!(shape(&expr("if let Some(v) = f() { v }")), "if-some");
    assert_eq!(shape(&expr("all x in l { x }")), "All");
    assert_eq!(shape(&expr("any [true, false]")), "Any");
    assert_eq!(shape(&expr("fold x in l { acc + x } where acc = 0")), "Fold");
    match &expr("fold x in l { acc + x } where acc = 0").1 {
        Expr::IterExpr { op: Iter::Fold, accumulator: Some((a, init)), .. } => {
            assert_eq!(a.id(), "acc");
            assert_eq!(shape(init), "FlatLiteral(Int(0))");
        }
        _ => panic!("not a fold"),
    }
}

#[test]
fn blocks_and_statements() {
    let b = parse_block_stmt_eof(&toks("{ let (a, _) = (1, 2); return a }")).expect("syntax error");
    assert_eq!(b.statements.len(), 2);
    assert!(matches!(&b.statements[0].1, Stmt::LetStmt(ids, _) if ids.len() == 2 && ids[1].id() == "_"));
    assert!(matches!(&b.statements[1].1, Stmt::ReturnStmt(_)));
    let b = parse_block_stmt_eof(&toks("async { f(); g() }")).expect("syntax error");
    assert!(b.async_tag);
    assert!(matches!(&b.statements[0].1, Stmt::ExprStmt { semi: true, .. }));
    assert!(matches!(&b.statements[1].1, Stmt::ExprStmt { semi: false, .. }));
}

#[test]
fn programs() {
    let src = "external logger @ \"log_sock\" { fn log(_) -> () fn get(str, i64) -> bool }\n\
               fn allow(x: i64, l: List<str>) -> bool { x == 1 }";
    let p = parse_program(&toks(src)).expect("syntax error");
    assert_eq!(p.len(), 2);
    match &p[0] {
        Decl::External(e) => {
            assert_eq!(e.name(), "logger");
            assert_eq!(e.url(), "log_sock");
            assert_eq!(e.headers.len(), 2);
            assert!(e.headers[0].typs.is_none());
            assert_eq!(e.headers[1].typs.as_ref().map(|v| v.len()), Some(2));
        }
        _ => panic!("not an external"),
    }
    match &p[1] {
        Decl::FnDecl(d) => {
            assert_eq!(d.name(), "allow");
            assert_eq!(d.args().len(), 2);
            assert_eq!(d.args()[1].name(), "l");
            assert!(d.typ_id().is_some());
            assert_eq!(d.loc().0, 2);
        }
        _ => panic!("not a function"),
    }
    assert!(parse_program(&toks("fn f( { }")).is_none());
    let _ = (Infix::Plus, Prefix::Not);
}
