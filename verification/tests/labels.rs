use armour_lang::labels::{Label, Node};
use std::str::FromStr;

#[test]
fn match_with() {
    let pat: Label = "a::<a>::<a>::<b>".parse().unwrap();
    let lab: Label = "a::<b>::<b>::<b>".parse().unwrap();
    if let Some(m) = pat.match_with(&lab) {
        assert_eq!(m.get_label("a"), Some(&Label::from_str("<b>").unwrap()));
        assert_eq!(m.get_label("b"), Some(&Label::from_str("<b>").unwrap()))
    } else {
        panic!("mismatch")
    }
}

#[test]
fn get() {
    assert_eq!(
        "a::b::c::d::*".parse::<Label>().unwrap().get_from(1).map(|l| l.nodes().clone()),
        Some(vec![
            Node::Str("b".to_string()),
            Node::Str("c".to_string()),
            Node::Str("d".to_string()),
            Node::Any(String::new())
        ])
    );
    assert!("a::b::c::d::*".parse::<Label>().unwrap().get_from(8).is_none())
}

#[test]
fn get_string() {
    assert_eq!(
        "a::b::c::d::*".parse::<Label>().unwrap().get_string(1),
        Some("b".to_string())
    )
}

#[test]
fn parts() {
    assert_eq!(
        "a::b::c::d".parse::<Label>().unwrap().parts(),
        Some(vec![
            "a".to_string(),
            "b".to_string(),
            "c".to_string(),
            "d".to_string()
        ])
    )
}

#[test]
fn parts_none() {
    assert_eq!("a::b::c::*".parse::<Label>().unwrap().parts(), None)
}

#[test]
fn vars() {
    assert_eq!(
        "a::<b>::c::*::<d>".parse::<Label>().unwrap().vars(),
        vec!["b".to_string(), "d".to_string()]
    )
}

#[test]
fn label_to_string_round_trip() {
    let l: Label = "a::<b>::*::**".parse().unwrap();
    assert_eq!(l.to_string(), "a::<b>::*::**");
    let again: Label = l.to_string().parse().unwrap();
    assert!(again == l);
}

#[test]
fn label_concat_and_prefix() {
    let a: Label = "a::b".parse().unwrap();
    let b: Label = "c".parse().unwrap();
    let mut c = Label::concat(&a, &b);
    assert_eq!(c.to_string(), "a::b::c");
    assert_eq!(c.len(), 3);
    c.prefix("z".to_string());
    assert_eq!(c.to_string(), "z::a::b::c");
    c.push(Node::Any(String::new()));
    assert_eq!(c.to_string(), "z::a::b::c::*");
}

#[test]
fn label_bad_syntax() {
    assert!("a::b!c".parse::<Label>().is_err());
    assert!("a::b c".parse::<Label>().is_ok());
    assert!("".parse::<Label>().is_err());
}

#[test]
fn label_matches_with_wildcards() {
    let pat: Label = "a::*::c".parse().unwrap();
    let lab: Label = "a::b::c".parse().unwrap();
    assert!(pat.matches_with(&lab));
    let rec: Label = "a::**".parse().unwrap();
    let long: Label = "a::b::c::d".parse().unwrap();
    assert!(rec.matches_with(&long));
    let other: Label = "b::c".parse().unwrap();
    assert!(!pat.matches_with(&other));
}

#[test]
fn label_login_time() {
    let l = Label::login_time(42);
    assert!(l.is_login_time());
    assert_eq!(l.to_string(), "ControlPlane::LoginTime::42");
    assert!(!"a::b::c".parse::<Label>().unwrap().is_login_time());
    assert_eq!(l.get_login_time(), Some(42));
    assert_eq!(Label::login_time(-7).get_login_time(), Some(-7));
    assert_eq!("a::b::c".parse::<Label>().unwrap().get_login_time(), None);
    assert_eq!("ControlPlane::LoginTime::x".parse::<Label>().unwrap().get_login_time(), None);
}

#[test]
fn label_round_trip() {
    for s in ["a::b::c", "*::**::x", "a::<b>::<<c>>", "x"] {
        let l: Label = s.parse().unwrap();
        assert_eq!(l.to_string(), s);
        let again: Label = l.to_string().parse().unwrap();
        assert!(again.same(&l));
    }
    assert!("a::".parse::<Label>().is_err());
    assert!("".parse::<Label>().is_err());
}

#[test]
fn node_from_regex_answers() {
    let chars = |s: &str| s.chars().collect::<Vec<char>>();
    assert_eq!(Node::from_matches(&chars("*"), false, false, false).unwrap().to_string(), "*");
    assert_eq!(Node::from_matches(&chars("<x>"), true, false, false).unwrap().to_string(), "<x>");
    assert_eq!(Node::from_matches(&chars("<<x>>"), false, true, true).unwrap().to_string(), "<<x>>");
    assert_eq!(Node::from_matches(&chars("abc"), false, false, true).unwrap().to_string(), "abc");
    assert_eq!(Node::from_matches(&chars("a-c"), false, false, false).unwrap_err(), "bad label: a-c");
}

#[test]
fn label_parse_first_bad_piece() {
    assert_eq!("a::b-::c-".parse::<Label>().unwrap_err(), "bad label: b-");
    assert_eq!("a::".parse::<Label>().unwrap_err(), "bad label: ");
    assert!("a::b::<c>".parse::<Label>().is_ok());
}
