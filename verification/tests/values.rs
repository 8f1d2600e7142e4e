use armour_lang::interpret::{contains, ends_with, pow_i64, trim_end, trim_start};
use armour_lang::labels::Label;
use armour_lang::literals::{FlatLiteral, Literal, Method, Version, VecSet};
use armour_lang::parser::{As, Ident, Infix, Iter, Pat, PolicyRegex, Prefix};
use std::str::FromStr;

fn int_of(l: Option<Literal>) -> i64 {
    match l {
        Some(Literal::FlatLiteral(FlatLiteral::Int(i))) => i,
        other => panic!("not an integer: {:?}", other),
    }
}

fn bool_of(l: Option<Literal>) -> bool {
    match l {
        Some(Literal::FlatLiteral(FlatLiteral::Bool(b))) => b,
        other => panic!("not a boolean: {:?}", other),
    }
}

fn str_of(l: Option<Literal>) -> String {
    match l {
        Some(Literal::FlatLiteral(FlatLiteral::Str(s))) => s,
        other => panic!("not a string: {:?}", other),
    }
}

fn ints(v: &[i64]) -> Literal {
    Literal::List(v.iter().map(|i| Literal::integer(*i)).collect())
}

#[test]
fn integer_arithmetic() {
    let a = Literal::integer(7);
    let b = Literal::integer(-2);
    assert_eq!(int_of(a.eval_infix(Infix::Plus, &b)), 5);
    assert_eq!(int_of(a.eval_infix(Infix::Minus, &b)), 9);
    assert_eq!(int_of(a.eval_infix(Infix::Multiply, &b)), -14);
    assert_eq!(int_of(a.eval_infix(Infix::Divide, &b)), -3);
    assert_eq!(int_of(Literal::integer(-7).eval_infix(Infix::Remainder, &Literal::integer(2))), -1);
    assert!(a.eval_infix(Infix::Divide, &Literal::integer(0)).is_none());
    assert!(a.eval_infix(Infix::Remainder, &Literal::integer(0)).is_none());
    assert!(bool_of(a.eval_infix(Infix::GreaterThan, &b)));
    assert!(!bool_of(a.eval_infix(Infix::LessThanEqual, &b)));
    assert!(bool_of(a.eval_infix(Infix::NotEqual, &b)));
    assert!(bool_of(a.eval_infix(Infix::Equal, &Literal::integer(7))));
    assert!(a.eval_infix(Infix::And, &b).is_none());
}

#[test]
fn prefix_operators() {
    assert_eq!(int_of(Literal::integer(5).eval_prefix(Prefix::Minus)), -5);
    assert!(!bool_of(Literal::bool(true).eval_prefix(Prefix::Not)));
    assert!(bool_of(Literal::bool(false).eval_prefix(Prefix::Not)));
    assert!(Literal::integer(5).eval_prefix(Prefix::Not).is_none());
    assert_eq!(Prefix::Minus.to_string(), "-");
    assert_eq!(Infix::ConcatStr.to_string(), "++");
    assert_eq!(Iter::MapEach.to_string(), "map");
}

#[test]
fn booleans_and_strings() {
    let t = Literal::bool(true);
    let f = Literal::bool(false);
    assert!(!bool_of(t.eval_infix(Infix::And, &f)));
    assert!(bool_of(t.eval_infix(Infix::Or, &f)));
    let s = Literal::str("ab".to_string()).eval_infix(Infix::ConcatStr, &Literal::str("cd".to_string()));
    assert_eq!(str_of(s), "abcd");
}

#[test]
fn lists() {
    let l = ints(&[1, 2]).eval_infix(Infix::Concat, &ints(&[3])).unwrap();
    assert!(l.eq_lit(&ints(&[1, 2, 3])));
    assert!(bool_of(Literal::integer(3).eval_infix(Infix::In, &l)));
    assert!(!bool_of(Literal::integer(4).eval_infix(Infix::In, &l)));
    assert_eq!(int_of(l.eval_call1("list::len")), 3);
    let d = l.eval_call2("list::difference", &ints(&[2, 5])).unwrap();
    assert!(d.eq_lit(&ints(&[1, 3])));
    let i = l.eval_call2("list::intersection", &ints(&[3, 2, 9])).unwrap();
    assert!(i.eq_lit(&ints(&[2, 3])));
    assert!(bool_of(l.eval_call2("list::is_subset", &ints(&[1, 2, 3, 4]))));
    assert!(!bool_of(l.eval_call2("list::is_disjoint", &ints(&[3]))));
    assert!(bool_of(Some(VecSet::is_disjoint(&[Literal::integer(1)], &[Literal::integer(2)]))));
}

#[test]
fn options() {
    let some = Literal::integer(4).some();
    assert!(bool_of(some.eval_call1("option::is_some")));
    assert!(bool_of(Literal::none().eval_call1("option::is_none")));
    assert!(some.dest_some().unwrap().eq_lit(&Literal::integer(4)));
    assert!(Literal::none().dest_some().is_none());
    assert!(Literal::unit().is_unit());
    assert!(Literal::bool(true).get_bool());
}

#[test]
fn builtin_calls() {
    assert_eq!(int_of(Literal::integer(-9).eval_call1("i64::abs")), 9);
    assert_eq!(str_of(Literal::integer(-12).eval_call1("i64::to_str")), "-12");
    assert_eq!(int_of(Literal::str("héllo".to_string()).eval_call1("str::len")), 6);
    assert_eq!(str_of(Literal::str("AbC".to_string()).eval_call1("str::to_lowercase")), "abc");
    assert_eq!(str_of(Literal::str("AbC".to_string()).eval_call1("str::to_uppercase")), "ABC");
    assert_eq!(str_of(Literal::str("  x ".to_string()).eval_call1("str::trim_start")), "x ");
    assert_eq!(str_of(Literal::str("  x ".to_string()).eval_call1("str::trim_end")), "  x");
    assert_eq!(str_of(Literal::str("hello".to_string()).eval_call1("str::to_base64")), "aGVsbG8=");
    assert_eq!(str_of(Literal::data(vec![104, 105]).eval_call1("str::from_utf8")), "hi");
    assert_eq!(str_of(Literal::data(vec![0xff]).eval_call1("str::from_utf8")), "\u{fffd}");
    assert_eq!(int_of(Literal::data(vec![1, 2, 3]).eval_call1("data::len")), 3);
    assert!(Literal::integer(1).eval_call1("no::such").is_none());
    assert_eq!(int_of(Literal::integer(-3).eval_call2("i64::pow", &Literal::integer(3))), -27);
    assert_eq!(int_of(Literal::integer(3).eval_call2("i64::min", &Literal::integer(-3))), -3);
    assert_eq!(int_of(Literal::integer(3).eval_call2("i64::max", &Literal::integer(-3))), 3);
    let s = Literal::str("armour".to_string());
    assert!(bool_of(s.eval_call2("str::starts_with", &Literal::str("arm".to_string()))));
    assert!(bool_of(s.eval_call2("str::ends_with", &Literal::str("our".to_string()))));
    assert!(bool_of(s.eval_call2("str::contains", &Literal::str("mou".to_string()))));
    assert!(!bool_of(s.eval_call2("str::contains", &Literal::str("x".to_string()))));
}

#[test]
fn label_calls() {
    let pat = Literal::label(Label::from_str("a::<x>").unwrap());
    let lab = Literal::label(Label::from_str("a::b").unwrap());
    assert!(bool_of(pat.eval_call2("Label::is_match", &lab)));
    let caps = pat.eval_call2("Label::captures", &lab).unwrap();
    let parts = lab.eval_call1("Label::parts").unwrap();
    assert!(parts.dest_some().unwrap().eq_lit(&Literal::List(vec![
        Literal::str("a".to_string()),
        Literal::str("b".to_string())
    ])));
    match caps.dest_some() {
        Some(Literal::List(v)) => assert_eq!(v.len(), 1),
        other => panic!("no captures: {:?}", other),
    }
}

#[test]
fn integer_powers() {
    assert_eq!(pow_i64(2, 10), 1024);
    assert_eq!(pow_i64(-1, 7), -1);
    assert_eq!(pow_i64(-2, 63), i64::MIN);
    assert_eq!(pow_i64(0, 0), 1);
}

#[test]
fn string_helpers() {
    assert_eq!(trim_start("\t a b "), "a b ");
    assert_eq!(trim_end("\t a b \n"), "\t a b");
    assert!(ends_with("policy.armour", ".armour"));
    assert!(!ends_with("a", "ab"));
    assert!(contains("abc", ""));
    assert!(contains("abcabd", "abd"));
    assert!(!contains("ab", "ba"));
}

#[test]
fn methods_and_versions() {
    assert_eq!(Method::from_str("GET").unwrap().to_string(), "GET");
    assert!(Method::from_str("get").is_err());
    assert_eq!(Method::default().to_string(), "GET");
    assert_eq!(Version::from_str("HTTP/1.1").unwrap().to_string(), "HTTP/1.1");
    assert!(Version::from_str("HTTP/4").is_err());
}

#[test]
fn patterns_to_regex() {
    let p = Pat::Sequence(vec![
        Pat::Lit("a.b".to_string()),
        Pat::Star(Box::new(Pat::Any)),
        Pat::As(Ident::from_str("n"), As::I64),
    ]);
    assert_eq!(p.to_regex_str(false), "(a\\.b.*?(?P<_i64n>-?[[:digit:]]+))");
    assert_eq!(p.to_regex_str(true), "(a\\.b\\s*.*?\\s*(?P<_i64n>-?[[:digit:]]+))");
    let q = Pat::CaseInsensitive(Box::new(Pat::Alt(vec![
        Pat::Class("digit".to_string()),
        Pat::Opt(Box::new(Pat::Lit("x".to_string()))),
    ])));
    assert_eq!(q.to_regex_str(false), "(?i:([[:digit:]]|x?))");
    assert!(p.has_as());
    assert!(!q.has_as());
    assert!(p.same(&p.dup()));
    assert!(!p.same(&q));
}

#[test]
fn compiled_patterns() {
    let p = Pat::Sequence(vec![
        Pat::Lit("id-".to_string()),
        Pat::Plus(Box::new(Pat::Class("digit".to_string()))),
    ]);
    let r = PolicyRegex::from_pat(&p).unwrap();
    assert!(r.is_match("id-42"));
    assert!(!r.is_match("xid-42"));
    assert!(!r.is_match("id-"));
    assert!(r.same(&r.dup()));
    let v = Literal::regex(r);
    assert!(bool_of(v.eval_call2("regex::is_match", &Literal::str("id-7".to_string()))));
}

fn int_vec(v: &[i64]) -> Vec<Literal> {
    v.iter().map(|i| Literal::integer(*i)).collect()
}

fn list_len(l: Literal) -> usize {
    match l {
        Literal::List(v) => v.len(),
        _ => panic!("not a list"),
    }
}

#[test]
fn set_operations_split_the_list() {
    let x = int_vec(&[1, 2, 3, 2, 5]);
    let y = int_vec(&[2, 5, 7]);
    let d = list_len(VecSet::difference(&x, &y));
    let i = list_len(VecSet::intersection(&x, &y));
    assert_eq!((d, i), (2, 3));
    assert_eq!(d + i, x.len());
    assert!(!bool_of(Some(VecSet::is_disjoint(&x, &y))));
    assert!(!bool_of(Some(VecSet::is_subset(&x, &y))));
    let z = int_vec(&[5, 2]);
    assert_eq!(list_len(VecSet::difference(&z, &y)), 0);
    assert!(bool_of(Some(VecSet::is_subset(&z, &y))));
    let w = int_vec(&[8, 9]);
    assert_eq!(list_len(VecSet::intersection(&w, &y)), 0);
    assert!(bool_of(Some(VecSet::is_disjoint(&w, &y))));
}
