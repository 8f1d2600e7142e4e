use armour_lang::headers::Headers;
use armour_lang::policies::{
    http_policy, is_egress, is_ingress, tcp_policy, type_check, FnPolicies, FnPolicy, Protocol,
};
use armour_lang::types::{FlatTyp, Signature, Typ};

fn names(v: &[&str]) -> Vec<String> {
    v.iter().map(|s| s.to_string()).collect()
}

#[test]
fn ingress_and_egress_functions() {
    assert!(is_ingress("allow_rest_request"));
    assert!(is_ingress("allow_tcp_connection"));
    assert!(!is_ingress("allow_rest_response"));
    assert!(is_egress("allow_rest_response"));
    assert!(!is_egress("on_tcp_disconnect"));
}

#[test]
fn allow_all_is_allow_all() {
    let p = FnPolicies::allow_all(&names(&["allow_rest_request", "allow_rest_response"]));
    assert!(p.is_allow_all());
    assert!(!p.is_deny_all());
    assert!(p.is_allow_egress());
    assert!(p.is_allow_ingress());
    assert_eq!(p.get("allow_rest_request"), Some(FnPolicy::Allow));
    assert_eq!(p.get("other"), None);
}

#[test]
fn empty_policies_are_neither() {
    let p = FnPolicies::allow_all(&[]);
    assert!(!p.is_allow_all());
    assert!(!p.is_deny_all());
}

#[test]
fn egress_and_ingress_selections() {
    let fs = Protocol::HTTP.functions();
    let e = FnPolicies::deny_egress(&fs);
    assert_eq!(e.get("allow_rest_response"), Some(FnPolicy::Deny));
    assert_eq!(e.get("allow_rest_request"), None);
    assert!(e.is_deny_egress());
    assert!(e.is_deny_all());
    let i = FnPolicies::allow_ingress(&fs);
    assert_eq!(i.get("allow_rest_request"), Some(FnPolicy::Allow));
    assert_eq!(i.get("allow_rest_response"), None);
    assert!(i.is_allow_ingress());
    let d = FnPolicies::deny_ingress(&fs);
    assert!(d.is_deny_ingress());
    let a = FnPolicies::allow_egress(&fs);
    assert!(a.is_allow_egress());
    let all = FnPolicies::deny_all(&fs);
    assert!(all.is_deny_all());
}

#[test]
fn merge_prefers_right() {
    let fs = Protocol::HTTP.functions();
    let allow = FnPolicies::allow_all(&fs);
    let deny = FnPolicies::deny_egress(&fs);
    let m = allow.merge(&deny);
    assert_eq!(m.get("allow_rest_request"), Some(FnPolicy::Allow));
    assert_eq!(m.get("allow_rest_response"), Some(FnPolicy::Deny));
    assert!(!m.is_allow_all());
}

#[test]
fn set_args_replaces() {
    let mut p = FnPolicies::allow_all(&names(&["f"]));
    p.set_args("f".to_string(), 3);
    assert_eq!(p.get("f"), Some(FnPolicy::Args(3)));
}

#[test]
fn protocol_names() {
    assert_eq!(Protocol::from_str("TCP"), Ok(Protocol::TCP));
    assert_eq!(Protocol::from_str("hTTp"), Ok(Protocol::HTTP));
    assert_eq!(
        Protocol::from_str("udp"),
        Err("failed to parse protocol: udp".to_string())
    );
    assert_eq!(Protocol::TCP.to_string(), "tcp");
    assert_eq!(
        Protocol::TCP.functions(),
        vec!["allow_tcp_connection".to_string(), "on_tcp_disconnect".to_string()]
    );
}

#[test]
fn protocol_policy_functions() {
    let h = http_policy::<FlatTyp>();
    assert_eq!(
        h.functions(),
        vec!["allow_rest_request".to_string(), "allow_rest_response".to_string()]
    );
    let t = tcp_policy::<FlatTyp>();
    assert_eq!(t.functions(), Protocol::TCP.functions());
}

#[test]
fn signature_type_check() {
    let declared: Signature<FlatTyp> =
        Signature::new(vec![Typ::http_request()], Typ::bool());
    let allowed: Signature<FlatTyp> =
        Signature::new(vec![Typ::http_request()], Typ::bool());
    assert!(type_check("f", &declared, &allowed));
    let other: Signature<FlatTyp> = Signature::new(vec![Typ::i64()], Typ::bool());
    assert!(!type_check("f", &declared, &other));
    let any: Signature<FlatTyp> = Signature::any(Typ::bool());
    assert!(!type_check("f", &declared, &any));
    assert!(type_check("f", &any, &declared));
}

#[test]
fn from_headers_counts_arguments() {
    let mut h: Headers<FlatTyp> = Headers::new();
    h.add_function(
        "allow_rest_request",
        Signature::new(vec![Typ::http_request()], Typ::bool()),
    )
    .unwrap();
    let p = FnPolicies::from_headers(&h, &http_policy()).ok().unwrap();
    assert_eq!(p.get("allow_rest_request"), Some(FnPolicy::Args(1)));
    assert_eq!(p.get("allow_rest_response"), Some(FnPolicy::Allow));
}

#[test]
fn from_headers_reports_bad_signature() {
    let mut h: Headers<FlatTyp> = Headers::new();
    h.add_function(
        "allow_rest_request",
        Signature::new(vec![Typ::i64()], Typ::bool()),
    )
    .unwrap();
    match FnPolicies::from_headers(&h, &http_policy()) {
        Ok(_) => panic!("accepted a bad signature"),
        Err(e) => assert_eq!(
            e.0,
            "possible types for function \"allow_rest_request\" are: (ID, ID, HttpRequest, data) -> bool; (HttpRequest, data) -> bool; (HttpRequest) -> bool; () -> bool"
        ),
    }
}
