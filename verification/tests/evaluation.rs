use armour_lang::evaluate::{Code, Exp, Pattern, Replies, Stop};
use armour_lang::expressions::{Block, Expr};
use armour_lang::labels::Label;
use armour_lang::literals::{FlatLiteral, Literal};
use armour_lang::parser::{As, Ident, Infix, Iter, Pat, PolicyRegex};
use std::str::FromStr;

fn num(i: i64) -> Exp {
    Exp::lit(Literal::integer(i))
}

fn run(code: &Code, e: Exp) -> Result<Exp, Stop> {
    let mut st = Replies::new(Vec::new());
    e.evaluate(code, &mut st)
}

fn int_result(r: Result<Exp, Stop>) -> i64 {
    match r {
        Ok(Expr::LitExpr(Literal::FlatLiteral(FlatLiteral::Int(i)))) => i,
        other => panic!("not an integer: {:?}", other),
    }
}

fn bool_result(r: Result<Exp, Stop>) -> bool {
    match r {
        Ok(Expr::LitExpr(Literal::FlatLiteral(FlatLiteral::Bool(b)))) => b,
        other => panic!("not a Boolean: {:?}", other),
    }
}

fn fail_message(r: Result<Exp, Stop>) -> String {
    match r {
        Err(Stop::Fail(e)) => e.0,
        other => panic!("did not fail: {:?}", other),
    }
}

fn list_of(v: &[i64]) -> Literal {
    Literal::List(v.iter().map(|i| Literal::integer(*i)).collect())
}

#[test]
fn arithmetic() {
    let code = Code::new();
    let e = Exp::infix_expr(Infix::Plus, num(1), Exp::infix_expr(Infix::Multiply, num(2), num(3)));
    assert_eq!(int_result(run(&code, e)), 7);
    let e = Exp::infix_expr(Infix::Divide, num(-7), num(2));
    assert_eq!(int_result(run(&code, e)), -3);
}

#[test]
fn failures() {
    let code = Code::new();
    assert_eq!(fail_message(run(&code, Exp::var("x"))), "eval variable");
    let e = Exp::infix_expr(Infix::Plus, num(i64::MAX), num(1));
    assert_eq!(fail_message(run(&code, e)), "eval: arithmetic overflow");
    let e = Exp::infix_expr(Infix::Divide, num(1), num(0));
    assert_eq!(fail_message(run(&code, e)), "eval, infix: type error");
    let e = Exp::if_expr(num(1), num(2));
    assert_eq!(fail_message(run(&code, e)), "eval, if-expression");
}

#[test]
fn let_and_if() {
    let code = Code::new();
    let e = Exp::infix_expr(Infix::Multiply, Exp::var("x"), num(2)).let_expr(vec!["x"], num(5));
    assert_eq!(int_result(run(&code, e)), 10);
    let cond = Exp::infix_expr(Infix::LessThan, num(1), num(2));
    let e = Exp::if_else_expr(cond, num(10), num(20));
    assert_eq!(int_result(run(&code, e)), 10);
    let e = Exp::if_expr(Exp::lit(Literal::bool(false)), num(1));
    assert!(matches!(run(&code, e), Ok(Expr::LitExpr(Literal::FlatLiteral(FlatLiteral::Unit)))));
}

#[test]
fn short_circuit() {
    let code = Code::new();
    // the right operand is not evaluated: evaluating it would fail
    let e = Exp::infix_expr(Infix::And, Exp::lit(Literal::bool(false)), Exp::var("unbound"));
    assert!(!bool_result(run(&code, e)));
    let e = Exp::infix_expr(Infix::Or, Exp::lit(Literal::bool(true)), Exp::var("unbound"));
    assert!(bool_result(run(&code, e)));
    let e = Exp::infix_expr(Infix::And, Exp::lit(Literal::bool(true)), Exp::lit(Literal::bool(false)));
    assert!(!bool_result(run(&code, e)));
}

#[test]
fn functions_and_returns() {
    let mut code = Code::new();
    let double = Exp::infix_expr(Infix::Multiply, Exp::var("x"), num(2)).closure_expr("x");
    code.insert("double".to_string(), double);
    let body = Exp::BlockExpr(Block::Block, vec![Exp::return_expr(num(1)), num(2)]);
    code.insert("early".to_string(), body);
    assert_eq!(int_result(run(&code, Exp::call("double", vec![num(21)]))), 42);
    // a return ends the function's body, and the caller sees the value
    assert_eq!(int_result(run(&code, Exp::call("early", vec![]))), 1);
    let nested = Exp::call("double", vec![Exp::call("double", vec![num(3)])]);
    assert_eq!(int_result(run(&code, nested)), 12);
    assert!(code.get("double".to_string()).is_some());
    assert!(code.get("triple".to_string()).is_none());
    let mut other = Code::new();
    other.insert("triple".to_string(), Exp::infix_expr(Infix::Multiply, Exp::var("x"), num(3)).closure_expr("x"));
    let both = code.merge(&other);
    assert_eq!(int_result(run(&both, Exp::call("triple", vec![num(5)]))), 15);
    let mut cut = both;
    cut.cut(&["triple".to_string()]);
    assert!(cut.get("triple".to_string()).is_none());
}

#[test]
fn builtin_function_calls() {
    let code = Code::new();
    let e = Exp::call("i64::abs", vec![num(-4)]);
    assert_eq!(int_result(run(&code, e)), 4);
    let e = Exp::call("i64::pow", vec![num(2), num(10)]);
    assert_eq!(int_result(run(&code, e)), 1024);
    let e = Exp::call("i64::pow", vec![num(2), num(64)]);
    assert_eq!(fail_message(run(&code, e)), "eval: arithmetic overflow");
    let e = Exp::call("i64::abs", vec![Exp::lit(Literal::str("x".to_string()))]);
    assert_eq!(fail_message(run(&code, e)), "eval, call(1): type error");
}

#[test]
fn iterations() {
    let code = Code::new();
    let body = Exp::infix_expr(Infix::Multiply, Exp::var("x"), num(10));
    let e = body.iter_expr(Iter::MapEach, vec!["x"], Exp::lit(list_of(&[1, 2, 3])), None);
    match run(&code, e) {
        Ok(Expr::LitExpr(l)) => assert!(l.eq_lit(&list_of(&[10, 20, 30]))),
        other => panic!("not a list: {:?}", other),
    }
    let pos = Exp::infix_expr(Infix::GreaterThan, Exp::var("x"), num(1));
    let e = pos.iter_expr(Iter::Filter, vec!["x"], Exp::lit(list_of(&[1, 2, 3])), None);
    match run(&code, e) {
        Ok(Expr::LitExpr(l)) => assert!(l.eq_lit(&list_of(&[2, 3]))),
        other => panic!("not a list: {:?}", other),
    }
    let pos = Exp::infix_expr(Infix::GreaterThan, Exp::var("x"), num(0));
    let e = pos.iter_expr(Iter::All, vec!["x"], Exp::lit(list_of(&[1, 2, 3])), None);
    assert!(bool_result(run(&code, e)));
    let big = Exp::infix_expr(Infix::GreaterThan, Exp::var("x"), num(2));
    let e = big.iter_expr(Iter::Any, vec!["x"], Exp::lit(list_of(&[1, 2])), None);
    assert!(!bool_result(run(&code, e)));
    let sum = Exp::infix_expr(Infix::Plus, Exp::var("acc"), Exp::var("x"));
    let e = sum.iter_expr(Iter::Fold, vec!["x"], Exp::lit(list_of(&[1, 2, 3, 4])), Some(num(0)));
    assert_eq!(int_result(run(&code, e)), 10);
}

#[test]
fn outside_calls() {
    let code = Code::new();
    let e = Exp::call("Service::lookup", vec![num(1)]);
    let mut st = Replies::new(Vec::new());
    match e.dup().evaluate(&code, &mut st) {
        Err(Stop::Wait(c)) => {
            assert_eq!(c.external, "Service");
            assert_eq!(c.method, "lookup");
            assert_eq!(c.args.len(), 1);
        }
        other => panic!("did not wait: {:?}", other),
    }
    let mut st = Replies::new(vec![Ok(Literal::integer(7))]);
    assert_eq!(int_result(e.dup().evaluate(&code, &mut st)), 7);
    assert_eq!(st.next, 1);
    let mut st = Replies::new(vec![Err("boom".to_string())]);
    assert_eq!(fail_message(e.evaluate(&code, &mut st)), "boom");
    let t = Exp::call("System::getCurrentTime", vec![]);
    match run(&code, t) {
        Err(Stop::Wait(c)) => assert_eq!(c.external, "System"),
        other => panic!("did not wait: {:?}", other),
    }
    let spawn: Exp = Expr::CallExpr { function: "Logger::log".to_string(), arguments: vec![num(3)], is_async: true };
    let mut st = Replies::new(Vec::new());
    assert!(matches!(spawn.evaluate(&code, &mut st), Ok(Expr::LitExpr(Literal::FlatLiteral(FlatLiteral::Unit)))));
    assert_eq!(st.spawned.len(), 1);
    assert_eq!(st.spawned[0].method, "log");
}

#[test]
fn extra_replies_change_nothing() {
    let code = Code::new();
    let e = Exp::infix_expr(Infix::Plus, Exp::call("A::f", vec![]), Exp::call("B::g", vec![]));
    let mut one = Replies::new(vec![Ok(Literal::integer(1))]);
    match e.dup().evaluate(&code, &mut one) {
        Err(Stop::Wait(c)) => assert_eq!(c.external, "B"),
        other => panic!("did not wait: {:?}", other),
    }
    let mut two = Replies::new(vec![Ok(Literal::integer(1)), Ok(Literal::integer(2))]);
    assert_eq!(int_result(e.dup().evaluate(&code, &mut two)), 3);
    let mut three = Replies::new(vec![Ok(Literal::integer(1)), Ok(Literal::integer(2)), Ok(Literal::integer(9))]);
    assert_eq!(int_result(e.evaluate(&code, &mut three)), 3);
    assert_eq!(three.next, 2);
}

#[test]
fn regex_matches() {
    let code = Code::new();
    let pat = Pat::Sequence(vec![Pat::Lit("id-".to_string()), Pat::As(Ident::from_str("n"), As::I64)]);
    let re = PolicyRegex::from_pat(&pat).unwrap();
    let consequence = Exp::infix_expr(Infix::Plus, Exp::var("n"), num(1)).closure_expr("n");
    let e: Exp = Expr::IfMatchExpr {
        variables: vec!["n".to_string()],
        matches: vec![(Exp::lit(Literal::str("id-42".to_string())), Pattern::Regex(re.dup()))],
        consequence: Box::new(consequence.dup()),
        alternative: Some(Box::new(num(0))),
    };
    assert_eq!(int_result(run(&code, e)), 43);
    let e: Exp = Expr::IfMatchExpr {
        variables: vec!["n".to_string()],
        matches: vec![(Exp::lit(Literal::str("xx".to_string())), Pattern::Regex(re.dup()))],
        consequence: Box::new(consequence.dup()),
        alternative: Some(Box::new(num(0))),
    };
    assert_eq!(int_result(run(&code, e)), 0);
    let e: Exp = Expr::IfMatchExpr {
        variables: vec!["n".to_string()],
        matches: vec![(num(5), Pattern::Regex(re))],
        consequence: Box::new(consequence),
        alternative: None,
    };
    assert_eq!(fail_message(run(&code, e)), "eval, if-match-expression: type error");
}

#[test]
fn label_matches() {
    let code = Code::new();
    let pattern = Label::from_str("a::<x>").unwrap();
    let consequence = Exp::call("str::len", vec![Exp::var("x")]).closure_expr("x");
    let e: Exp = Expr::IfMatchExpr {
        variables: vec!["x".to_string()],
        matches: vec![(Exp::lit(Literal::label(Label::from_str("a::bcd").unwrap())), Pattern::Label(pattern))],
        consequence: Box::new(consequence),
        alternative: None,
    };
    assert_eq!(int_result(run(&code, e)), 3);
}

#[test]
fn some_matches() {
    let code = Code::new();
    let consequence = Exp::infix_expr(Infix::Plus, Exp::var("v"), num(1)).closure_expr("v");
    let e: Exp = Expr::IfSomeMatchExpr {
        expr: Box::new(Exp::lit(Literal::integer(4).some())),
        consequence: Box::new(consequence.dup()),
        alternative: Some(Box::new(num(0))),
    };
    assert_eq!(int_result(run(&code, e)), 5);
    let e: Exp = Expr::IfSomeMatchExpr {
        expr: Box::new(Exp::lit(Literal::none())),
        consequence: Box::new(consequence),
        alternative: Some(Box::new(num(0))),
    };
    assert_eq!(int_result(run(&code, e)), 0);
}

#[test]
fn lists_and_tuples() {
    let code = Code::new();
    let e = Exp::BlockExpr(Block::List, vec![num(1), Exp::infix_expr(Infix::Plus, num(1), num(1))]);
    match run(&code, e) {
        Ok(Expr::LitExpr(l)) => assert!(l.eq_lit(&list_of(&[1, 2]))),
        other => panic!("not a list: {:?}", other),
    }
    let pair = Exp::BlockExpr(Block::Tuple, vec![num(1), num(2)]);
    let e = Exp::infix_expr(Infix::Minus, Exp::var("a"), Exp::var("b")).let_expr(vec!["a", "b"], pair);
    assert_eq!(int_result(run(&code, e)), -1);
}
