use armour_lang::headers::Headers;
use armour_lang::types::{CPFlatTyp, FlatTyp, Signature, Typ};

#[test]
fn builtin_signatures_win() {
    let mut h: Headers<FlatTyp> = Headers::new();
    h.add_function("i64::abs", Signature::new(vec![], Typ::str())).unwrap();
    let s = h.typ("i64::abs").unwrap();
    assert_eq!(s.to_string(), "(i64) -> i64");
    assert_eq!(h.typ("Egress::pop").unwrap().to_string(), "() -> Option<data>");
    assert_eq!(h.typ("list::len").unwrap().to_string(), "(List<!>) -> i64");
}

#[test]
fn declared_functions() {
    let mut h: Headers<FlatTyp> = Headers::new();
    assert!(h.add_function("f", Signature::new(vec![Typ::i64()], Typ::bool())).is_ok());
    let e = h.add_function("f", Signature::any(Typ::unit()));
    assert_eq!(e.err().unwrap().0, "duplicate function \"f\"");
    assert_eq!(h.typ("f").unwrap().to_string(), "(_) -> unit");
    assert_eq!(h.return_typ("f").ok().unwrap().to_string(), "unit");
    assert_eq!(h.return_typ("g").err().unwrap().0, "no current function");
    h.cut(&["f".to_string()]);
    assert!(h.typ("f").is_none());
}

#[test]
fn builtin_and_internal_names() {
    assert!(Headers::<FlatTyp>::is_builtin("str::len"));
    assert!(Headers::<FlatTyp>::is_builtin("0"));
    assert!(Headers::<FlatTyp>::is_builtin("+12"));
    assert!(!Headers::<FlatTyp>::is_builtin("-1"));
    assert!(!Headers::<FlatTyp>::is_builtin("f"));
    assert!(Headers::<FlatTyp>::is_internal("Egress::wipe"));
    assert!(!Headers::<FlatTyp>::is_builtin("Egress::wipe"));
    assert!(Headers::<CPFlatTyp>::is_builtin("ControlPlane::onboard"));
    assert!(!Headers::<FlatTyp>::is_builtin("ControlPlane::onboard"));
}

#[test]
fn split_and_method() {
    assert_eq!(
        Headers::<FlatTyp>::split("a::b"),
        Some(("a".to_string(), "b".to_string()))
    );
    assert_eq!(Headers::<FlatTyp>::split("a::b::c"), None);
    assert_eq!(Headers::<FlatTyp>::split("ab"), None);
    assert_eq!(Headers::<FlatTyp>::method("str::len"), Some("len".to_string()));
    assert_eq!(Headers::<FlatTyp>::method("HttpRequest::GET"), None);
    assert_eq!(Headers::<FlatTyp>::method("i64::abs"), Some("abs".to_string()));
}

#[test]
fn resolve_dot_methods() {
    assert_eq!(
        Headers::<FlatTyp>::resolve(".::len", &[Typ::str()]),
        "str::len"
    );
    assert_eq!(
        Headers::<FlatTyp>::resolve(".::len", &[Typ::list(Typ::i64())]),
        "list::len"
    );
    assert_eq!(Headers::<FlatTyp>::resolve(".::foo", &[Typ::str()]), "foo");
    assert_eq!(Headers::<FlatTyp>::resolve("foo", &[]), "foo");
}

#[test]
fn merge_headers() {
    let mut a: Headers<FlatTyp> = Headers::new();
    a.add_function("f", Signature::any(Typ::i64())).unwrap();
    a.add_function("g", Signature::any(Typ::i64())).unwrap();
    let mut b: Headers<FlatTyp> = Headers::new();
    b.add_function("g", Signature::any(Typ::str())).unwrap();
    let m = a.merge(&b);
    assert_eq!(m.typ("f").unwrap().to_string(), "(_) -> i64");
    assert_eq!(m.typ("g").unwrap().to_string(), "(_) -> str");
}

#[test]
fn control_plane_signatures() {
    let h: Headers<CPFlatTyp> = Headers::new();
    assert_eq!(
        h.typ("OnboardingData::proposed_labels").unwrap().to_string(),
        "(onboardingData) -> List<Label>"
    );
    assert_eq!(h.typ("i64::abs").unwrap().to_string(), "(i64) -> i64");
}
