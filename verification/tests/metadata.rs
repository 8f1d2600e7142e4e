use armour_lang::evaluate::Call;
use armour_lang::labels::Label;
use armour_lang::literals::{FlatLiteral, Literal};
use armour_lang::meta::{Egress, IngressEgress, Meta};
use std::str::FromStr;

fn call(module: &str, method: &str, args: Vec<Literal>) -> Call {
    Call { external: module.to_string(), method: method.to_string(), args }
}

fn label(s: &str) -> Label {
    Label::from_str(s).unwrap()
}

fn show(r: Result<Literal, armour_lang::expressions::Error>) -> String {
    match r {
        Ok(l) => format!("{:?}", l),
        Err(e) => format!("error: {}", e.0),
    }
}

fn is_bool(r: Result<Literal, armour_lang::expressions::Error>, b: bool) -> bool {
    matches!(r, Ok(Literal::FlatLiteral(FlatLiteral::Bool(x))) if x == b)
}

#[test]
fn push_then_pop_gives_data_back() {
    let mut ie = IngressEgress::default();
    let r = ie.handle(&call("Egress", "push", vec![Literal::data(vec![1, 2, 3])]));
    assert!(matches!(r, Ok(Literal::FlatLiteral(FlatLiteral::Unit))));
    let r = ie.handle(&call("Egress", "pop", vec![]));
    match r {
        Ok(Literal::Tuple(v)) => {
            assert_eq!(v.len(), 1);
            assert!(matches!(&v[0], Literal::FlatLiteral(FlatLiteral::Data(d)) if d == &vec![1u8, 2, 3]));
        }
        other => panic!("unexpected: {}", show(other)),
    }
    // the stack is empty again
    let r = ie.handle(&call("Egress", "pop", vec![]));
    assert!(matches!(r, Ok(Literal::Tuple(v)) if v.is_empty()));
}

#[test]
fn data_lists_the_stack_bottom_first() {
    let mut ie = IngressEgress::default();
    ie.handle(&call("Ingress", "push", vec![Literal::data(vec![1])])).unwrap();
    ie.handle(&call("Ingress", "push", vec![Literal::data(vec![2])])).unwrap();
    match ie.handle(&call("Ingress", "data", vec![])) {
        Ok(Literal::List(v)) => {
            assert_eq!(v.len(), 2);
            assert!(matches!(&v[0], Literal::FlatLiteral(FlatLiteral::Data(d)) if d == &vec![1u8]));
            assert!(matches!(&v[1], Literal::FlatLiteral(FlatLiteral::Data(d)) if d == &vec![2u8]));
        }
        other => panic!("unexpected: {}", show(other)),
    }
    // the other side saw nothing
    assert!(matches!(ie.handle(&call("Egress", "data", vec![])), Ok(Literal::List(v)) if v.is_empty()));
}

#[test]
fn labels_are_added_matched_and_removed() {
    let mut ie = IngressEgress::default();
    let l = Literal::label(label("a::b"));
    assert!(is_bool(ie.handle(&call("Egress", "has_label", vec![Literal::label(label("a::b"))])), false));
    ie.handle(&call("Egress", "add_label", vec![l])).unwrap();
    assert!(is_bool(ie.handle(&call("Egress", "has_label", vec![Literal::label(label("a::b"))])), true));
    assert!(is_bool(ie.handle(&call("Egress", "has_label", vec![Literal::label(label("a::*"))])), true));
    assert!(is_bool(ie.handle(&call("Egress", "has_label", vec![Literal::label(label("a::c"))])), false));
    ie.handle(&call("Egress", "add_label", vec![Literal::label(label("x"))])).unwrap();
    ie.handle(&call("Egress", "remove_label", vec![Literal::label(label("a::*"))])).unwrap();
    assert!(is_bool(ie.handle(&call("Egress", "has_label", vec![Literal::label(label("a::b"))])), false));
    assert!(is_bool(ie.handle(&call("Egress", "has_label", vec![Literal::label(label("x"))])), true));
}

#[test]
fn set_id_then_id() {
    let mut ie = IngressEgress::new(None, label("server"));
    assert!(matches!(ie.handle(&call("Egress", "id", vec![])), Ok(Literal::Tuple(v)) if v.is_empty()));
    ie.handle(&call("Egress", "set_id", vec![])).unwrap();
    match ie.handle(&call("Egress", "id", vec![])) {
        Ok(Literal::Tuple(v)) => {
            assert_eq!(v.len(), 1);
            assert!(matches!(&v[0], Literal::FlatLiteral(FlatLiteral::Label(l)) if l.to_string() == "server"));
        }
        other => panic!("unexpected: {}", show(other)),
    }
}

#[test]
fn ingress_metadata_is_kept() {
    let m = Meta::try_from_str("client::one").unwrap();
    let mut ie = IngressEgress::new(Some(m), label("egress"));
    match ie.handle(&call("Ingress", "id", vec![])) {
        Ok(Literal::Tuple(v)) => {
            assert!(matches!(&v[0], Literal::FlatLiteral(FlatLiteral::Label(l)) if l.to_string() == "client::one"));
        }
        other => panic!("unexpected: {}", show(other)),
    }
    assert!(Meta::try_from_str("a::<").is_err());
}

#[test]
fn wipe_then_egress_is_empty() {
    let mut ie = IngressEgress::default();
    ie.handle(&call("Egress", "push", vec![Literal::data(vec![7])])).unwrap();
    assert!(ie.handle_egress(Egress).is_ok());
    ie.handle(&call("Egress", "wipe", vec![])).unwrap();
    match ie.handle_egress(Egress) {
        Err(e) => assert_eq!(e.0, "empty egress"),
        Ok(_) => panic!("egress should be empty"),
    }
}

#[test]
fn egress_carries_the_identity() {
    let mut ie = IngressEgress::default();
    ie.handle(&call("Egress", "add_label", vec![Literal::label(label("tag"))])).unwrap();
    let m = ie.handle_egress(Egress).unwrap();
    let mut ie2 = IngressEgress::new(Some(m), label("other"));
    match ie2.handle(&call("Ingress", "id", vec![])) {
        Ok(Literal::Tuple(v)) => {
            assert!(matches!(&v[0], Literal::FlatLiteral(FlatLiteral::Label(l)) if l.to_string() == "egress"));
        }
        other => panic!("unexpected: {}", show(other)),
    }
    assert!(is_bool(ie2.handle(&call("Ingress", "has_label", vec![Literal::label(label("tag"))])), true));
}

#[test]
fn bad_calls_are_errors() {
    let mut ie = IngressEgress::default();
    assert_eq!(show(ie.handle(&call("Other", "id", vec![]))), "error: eval, unknown module: Other::id");
    assert_eq!(show(ie.handle(&call("Egress", "push", vec![Literal::integer(1)]))), "error: eval, call: Egress::push");
    assert_eq!(show(ie.handle(&call("Ingress", "frobnicate", vec![]))), "error: eval, call: Ingress::frobnicate");
}
