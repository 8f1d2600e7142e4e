use armour_lang::decls;
use armour_lang::evaluate::{Code, Exp, Replies, Stop};
use armour_lang::expressions::Expr;
use armour_lang::headers::Headers;
use armour_lang::lexer::lex;
use armour_lang::literals::{FlatLiteral, Literal};
use armour_lang::parser::Decl;
use armour_lang::parsing::{parse_program, parse_type};
use armour_lang::types::{FlatTyp, Typ};

fn eval_str(src: &str) -> Result<Exp, Stop> {
    let e = Exp::from_string(src, &Headers::default()).expect("checks");
    let code = Code::new();
    let mut st = Replies::new(Vec::new());
    e.evaluate(&code, &mut st)
}

fn is_true(r: Result<Exp, Stop>) -> bool {
    matches!(r, Ok(Expr::LitExpr(Literal::FlatLiteral(FlatLiteral::Bool(true)))))
}

#[test]
fn test_fold() {
    // the code is a block, as the body of a function
    let res = eval_str("{
        let l = [1, 2];
        let r = fold x in l { acc+x } where acc=0;
        r == 3
        }");
    assert!(is_true(res));
}

#[test]
fn test_label() {
    let res = eval_str("
        Label::concat('Test', 'test') == 'Test::test' 
        ");
    assert!(is_true(res));
}

#[test]
fn label_concat_value() {
    let res = eval_str("Label::concat('a::b', 'c') == 'a::b::c'");
    assert!(is_true(res));
    let res = eval_str("Label::concat('a', 'b') == 'b::a'");
    assert!(matches!(res, Ok(Expr::LitExpr(Literal::FlatLiteral(FlatLiteral::Bool(false))))));
}

#[test]
fn checked_expression_and_block() {
    assert!(is_true(eval_str("1 + 2 == 3")));
    assert!(is_true(eval_str("{ let x = 4; x * x == 16 }")));
}

#[test]
fn syntax_and_type_errors() {
    let h = Headers::default();
    assert_eq!(Exp::from_string("1 +", &h).unwrap_err().0, "syntax error");
    let e = Exp::from_string("1 + true", &h).unwrap_err().0;
    assert!(e.starts_with("type error in \"infix\""), "{}", e);
    let e = Exp::from_string("y + 1", &h).unwrap_err().0;
    assert!(e.starts_with("undeclared variable \"y\" at line "), "{}", e);
}

fn typ_of(src: &str) -> Result<Typ<FlatTyp>, armour_lang::types::Error<FlatTyp>> {
    let text = format!("{} ", src);
    let toks = lex(&text);
    let (t, _) = parse_type(toks.as_slice(), 0, 1000).expect("a type");
    Typ::from_parse(&t)
}

#[test]
fn written_types() {
    assert_eq!(typ_of("i64").unwrap().to_string(), "i64");
    assert_eq!(typ_of("List<str>").unwrap().to_string(), "List<str>");
    assert_eq!(typ_of("Option<bool>").unwrap().to_string(), "Option<bool>");
    assert_eq!(typ_of("()").unwrap().to_string(), "unit");
    assert_eq!(typ_of("(i64, str)").unwrap().to_string(), "(i64, str)");
    assert!(matches!(typ_of("float"), Err(armour_lang::types::Error::Parse(s)) if s == "float"));
    assert!(matches!(typ_of("Set<i64>"), Err(armour_lang::types::Error::Parse(s)) if s == "expecting \"List\", got Set"));
}

fn first_fn(src: &str) -> armour_lang::parser::FnDecl {
    let toks = lex(src);
    let mut ds = parse_program(toks.as_slice()).expect("a program");
    match ds.remove(0) {
        Decl::FnDecl(d) => d,
        _ => panic!("not a function"),
    }
}

#[test]
fn function_declarations_check() {
    let d = first_fn("fn f(x: i64, y: i64) -> i64 { x + y }");
    let sig = d.typ::<FlatTyp>().unwrap();
    assert_eq!(sig.to_string(), "(i64, i64) -> i64");
    let mut h = Headers::default();
    h.add_function("f", sig).unwrap();
    let (name, e, calls) = decls::from_decl(&d, &h).unwrap();
    assert_eq!(name, "f");
    assert!(calls.is_empty());
    let code = Code::new();
    let mut st = Replies::new(Vec::new());
    let applied = e.apply(&Exp::lit(Literal::integer(2))).unwrap().apply(&Exp::lit(Literal::integer(5))).unwrap();
    let r = applied.evaluate(&code, &mut st);
    assert!(matches!(r, Ok(Expr::LitExpr(Literal::FlatLiteral(FlatLiteral::Int(7))))));
}

#[test]
fn declared_function_errors() {
    let d = first_fn("fn f(x: i64) -> bool { x }");
    let mut h = Headers::default();
    h.add_function("f", d.typ::<FlatTyp>().unwrap()).unwrap();
    let e = decls::from_decl(&d, &h).unwrap_err().0;
    assert!(e.starts_with("type error in \"f\""), "{}", e);
    let d = first_fn("fn g(x: i64) -> i64 { x }");
    let e = decls::from_decl(&d, &Headers::default()).unwrap_err().0;
    assert_eq!(e, "no current function");
    let d = first_fn("fn g(x: blob) -> i64 { 1 }");
    let e = decls::from_decl(&d, &Headers::default()).unwrap_err().0;
    assert_eq!(e, "expecting type, got blob\n");
}
