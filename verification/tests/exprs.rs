use armour_lang::expressions::Expr;
use armour_lang::literals::{FlatLiteral, Literal};
use armour_lang::parser::{Infix, Iter};

type E = Expr<Literal, Literal>;

fn int_lit(e: &E) -> Option<i64> {
    match e {
        Expr::LitExpr(Literal::FlatLiteral(FlatLiteral::Int(i))) => Some(*i),
        _ => None,
    }
}

#[test]
fn closure_then_apply() {
    let body = E::infix_expr(Infix::Plus, E::var("x"), E::lit(Literal::integer(1)));
    let c = body.closure_expr("x");
    match &c {
        Expr::Closure(v, b) => {
            assert_eq!(v.0, "x");
            match &**b {
                Expr::InfixExpr(Infix::Plus, l, _) => match &**l {
                    Expr::BVar(n, 0) => assert_eq!(n.0, "x"),
                    other => panic!("not bound: {:?}", other),
                },
                other => panic!("unexpected body: {:?}", other),
            }
        }
        other => panic!("not a closure: {:?}", other),
    }
    let r = c.apply(&E::lit(Literal::integer(5))).unwrap();
    match r {
        Expr::InfixExpr(Infix::Plus, l, rr) => {
            assert_eq!(int_lit(&l), Some(5));
            assert_eq!(int_lit(&rr), Some(1));
        }
        other => panic!("unexpected result: {:?}", other),
    }
}

#[test]
fn apply_error() {
    let e = E::var("y");
    match e.apply(&E::lit(Literal::unit())) {
        Err(err) => assert_eq!(err.0, "apply: expression is not a closure"),
        Ok(x) => panic!("applied: {:?}", x),
    }
}

#[test]
fn closure_round_trip_law() {
    // applying the closure of `e` over `v` to `v` gives `e` back
    let e = E::call("f", vec![E::var("v"), E::var("w")]);
    let back = e.dup().closure_expr("v").apply(&E::var("v")).unwrap();
    match back {
        Expr::CallExpr { function, arguments, is_async } => {
            assert_eq!(function, "f");
            assert!(!is_async);
            assert_eq!(arguments.len(), 2);
            match (&arguments[0], &arguments[1]) {
                (Expr::Var(a), Expr::Var(b)) => {
                    assert_eq!(a.0, "v");
                    assert_eq!(b.0, "w")
                }
                other => panic!("unexpected arguments: {:?}", other),
            }
        }
        other => panic!("unexpected result: {:?}", other),
    }
}

#[test]
fn free_variables_and_depth() {
    let e = E::var("a").closure_expr("a");
    match &e {
        Expr::Closure(_, b) => {
            assert!(b.is_free(0));
            assert!(!b.is_free(1))
        }
        other => panic!("not a closure: {:?}", other),
    }
    let ignored = E::var("a").closure_expr("_");
    match &ignored {
        Expr::Var(a) => assert_eq!(a.0, "a"),
        other => panic!("bound: {:?}", other),
    }
    let k = E::var("b").closure_expr("a");
    match &k {
        // a free variable or a literal counts as free at every index
        Expr::Closure(_, b) => assert!(b.is_free(0) && b.is_free(3)),
        other => panic!("not a closure: {:?}", other),
    }
    assert!(e.dup().at_depth(1).is_some());
    assert!(e.dup().at_depth(2).is_none());
    assert!(E::var("a").at_depth(1).is_none());
}

#[test]
fn let_and_iter() {
    let l = E::var("x").let_expr(vec!["x"], E::lit(Literal::integer(3)));
    match l {
        Expr::Let(vs, bound, body) => {
            assert_eq!(vs, vec!["x".to_string()]);
            assert_eq!(int_lit(&bound), Some(3));
            match *body {
                Expr::Closure(_, b) => match *b {
                    Expr::BVar(_, 0) => {}
                    other => panic!("not bound: {:?}", other),
                },
                other => panic!("not a closure: {:?}", other),
            }
        }
        other => panic!("not a let: {:?}", other),
    }
    let it = E::var("x").iter_expr(Iter::All, vec!["x"], E::var("xs"), None);
    match it {
        Expr::Iter(Iter::All, vs, over, body, None) => {
            assert_eq!(vs, vec!["x".to_string()]);
            assert!(matches!(*over, Expr::Var(_)));
            assert!(matches!(*body, Expr::Closure(_, _)));
        }
        other => panic!("not an iteration: {:?}", other),
    }
}

#[test]
fn substitution_helpers() {
    let c = E::infix_expr(Infix::Minus, E::var("x"), E::var("y"))
        .closure_expr("y")
        .closure_expr("x");
    let once = c.propagate_subst(0, 0, &E::lit(Literal::integer(10)));
    match once {
        Expr::Closure(_, b) => match *b {
            Expr::InfixExpr(Infix::Minus, l, r) => {
                // the outer variable drops to index 0; the inner one is replaced
                match *l {
                    Expr::BVar(n, 0) => assert_eq!(n.0, "x"),
                    other => panic!("not bound: {:?}", other),
                }
                assert_eq!(int_lit(&r), Some(10));
            }
            other => panic!("unexpected body: {:?}", other),
        },
        other => panic!("not a closure: {:?}", other),
    }
}
