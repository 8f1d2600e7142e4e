use armour_lang::evaluate::{Replies, Stop};
use armour_lang::expressions::Expr;
use armour_lang::literals::{FlatLiteral, Literal};
use armour_lang::program::PreProgram;

const SRC: &str = "external logger @ \"log_sock\" { fn log(_) -> () }\n\
                   fn inc(x: i64) -> i64 { x + 1 }\n\
                   fn two() -> i64 { inc(1) }\n";

#[test]
fn program_loads_headers_code_and_calls() {
    let p = PreProgram::from_str(SRC).expect("loads");
    assert!(p.headers.get("logger::log").is_some());
    assert!(p.headers.get("inc").is_some());
    assert!(p.headers.get("two").is_some());
    assert!(p.code.get("inc".to_string()).is_some());
    assert!(p.code.get("logger::log".to_string()).is_none());
    assert_eq!(p.calls.len(), 1);
    assert_eq!(p.calls[0].0, "two");
    assert_eq!(p.calls[0].1.name, "inc");
    let body = p.code.get("two".to_string()).unwrap();
    let mut st = Replies::new(Vec::new());
    let r: Result<_, Stop> = body.evaluate(&p.code, &mut st);
    assert!(matches!(r, Ok(Expr::LitExpr(Literal::FlatLiteral(FlatLiteral::Int(2))))));
}

#[test]
fn program_errors() {
    let e = PreProgram::from_str("fn f() -> i64 { 1 }\nfn f() -> i64 { 2 }\n").err().unwrap().0;
    assert_eq!(e, "duplicate function \"f\"");
    let e = PreProgram::from_str("fn f(x: blob) -> i64 { 1 }\n").err().unwrap().0;
    assert!(e.starts_with("function \"f\" at line "), "{}", e);
    assert!(e.ends_with(": expecting type, got blob\n"), "{}", e);
    let e = PreProgram::from_str("external s @ \"a\" { fn g(Set<i64>) -> () }\n").err().unwrap().0;
    assert!(e.starts_with("header \"s::g\" at line "), "{}", e);
    let e = PreProgram::from_str("fn f( {\n").err().unwrap().0;
    assert_eq!(e, "syntax error");
    let e = PreProgram::from_str("fn f() -> i64 { g(1) }\n").err().unwrap().0;
    assert!(e.starts_with("undeclared function \"g\""), "{}", e);
}

#[test]
fn program_externals_and_cycles() {
    let p = PreProgram::from_buf(SRC).expect("loads");
    assert_eq!(p.externals.get("logger").map(|s| s.as_str()), Some("log_sock"));
    let e = PreProgram::from_buf("fn f(x: i64) -> i64 { f(x) }\n").err().unwrap().0;
    assert_eq!(e, "cycle detected: the function \"f\" might not terminate");
    let e = PreProgram::from_buf("fn f() -> i64 { g() }\nfn g() -> i64 { f() }\n").err().unwrap().0;
    assert!(e.starts_with("cycle detected: the function \""), "{}", e);
    // without the check, the same text loads
    assert!(PreProgram::from_str("fn f(x: i64) -> i64 { f(x) }\n").is_ok());
}

#[test]
fn program_cut_to_reachable() {
    let p = PreProgram::from_buf(SRC).expect("loads");
    let (h, c) = p.program(&vec!["two".to_string()]).expect("small");
    assert!(h.get("two").is_some());
    assert!(h.get("inc").is_some());
    assert!(h.get("logger::log").is_none());
    assert!(c.get("inc".to_string()).is_some());
    let (h, c) = p.program(&vec!["inc".to_string()]).expect("small");
    assert!(h.get("two").is_none());
    assert!(c.get("two".to_string()).is_none());
    assert!(c.get("inc".to_string()).is_some());
    let (h, _) = p.program(&Vec::new()).expect("small");
    assert!(h.get("logger::log").is_some());
}
