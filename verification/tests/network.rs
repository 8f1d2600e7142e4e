use armour_lang::evaluate::{Code, Exp, Replies, Stop};
use armour_lang::expressions::Expr;
use armour_lang::headers::Headers;
use armour_lang::literals::{FlatLiteral, Literal, Method, Version};
use armour_lang::netvals::{Connection, HttpRequest, HttpResponse, IpAddr, ID};
use armour_lang::program::PreProgram;

fn eval_str(src: &str) -> Result<Exp, Stop> {
    let e = match Exp::from_string(src, &Headers::default()) {
        Ok(e) => e,
        Err(m) => panic!("{}: {}", src, m.0),
    };
    let code = Code::new();
    let mut st = Replies::new(Vec::new());
    e.evaluate(&code, &mut st)
}

fn holds(src: &str) -> bool {
    match eval_str(src) {
        Ok(Expr::LitExpr(Literal::FlatLiteral(FlatLiteral::Bool(b)))) => b,
        other => panic!("{}: {:?}", src, other),
    }
}

#[test]
fn requests() {
    assert!(holds("HttpRequest::method(HttpRequest::POST()) == \"POST\""));
    assert!(holds("HttpRequest::version(HttpRequest::GET()) == \"HTTP/1.1\""));
    assert!(holds("HttpRequest::path(HttpRequest::set_path(HttpRequest::GET(), \"/a/b/\")) == \"/a/b/\""));
    assert!(holds("HttpRequest::query(HttpRequest::set_query(HttpRequest::GET(), \"x=1\")) == \"x=1\""));
    assert!(holds("list::len(HttpRequest::query_pairs(HttpRequest::set_query(HttpRequest::GET(), \"a=1&b=2\"))) == 2"));
    assert!(holds("(\"b\", \"2\") in HttpRequest::query_pairs(HttpRequest::set_query(HttpRequest::GET(), \"a=1&b=2\"))"));
}

#[test]
fn request_headers() {
    let r = "HttpRequest::set_header(HttpRequest::set_header(HttpRequest::GET(), \"h\", str::as_bytes(\"v\")), \"g\", str::as_bytes(\"w\"))";
    assert!(holds(&format!("if let Some(v) = HttpRequest::unique_header({}, \"h\") {{ v == str::as_bytes(\"v\") }} else {{ false }}", r)));
    assert!(holds(&format!("option::is_none(HttpRequest::header({}, \"z\"))", r)));
    let twice = format!("HttpRequest::set_header({}, \"h\", str::as_bytes(\"u\"))", r);
    assert!(holds(&format!("option::is_none(HttpRequest::unique_header({}, \"h\"))", twice)));
    assert!(holds(&format!("list::len(HttpRequest::header_pairs({})) == 3", twice)));
}

#[test]
fn responses() {
    assert!(holds("HttpResponse::status(HttpResponse::new(404)) == 404"));
    assert!(holds("option::is_none(HttpResponse::reason(HttpResponse::new(200)))"));
    assert!(holds("if let Some(x) = HttpResponse::reason(HttpResponse::set_reason(HttpResponse::new(200), \"ok\")) { x == \"ok\" } else { false }"));
}

#[test]
fn identities() {
    assert!(holds("ID::has_host(ID::add_host(ID::default(), \"x\"), \"x\")"));
    assert!(holds("!ID::has_host(ID::default(), \"x\")"));
    assert!(holds("list::len(ID::hosts(ID::add_host(ID::add_host(ID::add_host(ID::default(), \"b\"), \"a\"), \"b\"))) == 2"));
    assert!(holds("\"a\" in ID::hosts(ID::add_host(ID::add_host(ID::default(), \"b\"), \"a\"))"));
    assert!(holds("ID::has_ip(ID::add_ip(ID::default(), IpAddr::localhost()), IpAddr::from(127, 0, 0, 1))"));
    assert!(holds("IpAddr::octets(IpAddr::from(10, 0, 0, 1)).3 == 1"));
    assert!(holds("IpAddr::octets(IpAddr::from(266, 0, 0, 1)).0 == 10"));
    assert!(holds("ID::has_label(ID::add_label(ID::default(), 'a::b'), 'a::*')"));
    assert!(holds("!ID::has_label(ID::add_label(ID::default(), 'a::b'), 'c')"));
    assert!(holds("if let Some(p) = ID::port(ID::set_port(ID::default(), 80)) { p == 80 } else { false }"));
    assert!(holds("option::is_none(ID::port(ID::default()))"));
    assert!(holds("ID::add_host(ID::default(), \"x\") == ID::add_host(ID::default(), \"x\")"));
}

#[test]
fn connections() {
    assert!(holds("Connection::number(Connection::new(ID::default(), ID::default(), 7)) == 7"));
    assert!(holds(
        "\"s\" in ID::hosts(Connection::from(Connection::set_from(Connection::default(), ID::add_host(ID::default(), \"s\"))))"
    ));
    assert!(holds(
        "ID::has_host(HttpRequest::to(HttpRequest::set_to(HttpRequest::GET(), ID::add_host(ID::default(), \"d\"))), \"d\")"
    ));
}

fn strs(l: Literal) -> Vec<String> {
    match l {
        Literal::List(v) => v
            .into_iter()
            .map(|x| match x {
                Literal::FlatLiteral(FlatLiteral::Str(s)) => s,
                other => panic!("{:?}", other),
            })
            .collect(),
        other => panic!("{:?}", other),
    }
}

#[test]
fn ordered_lists() {
    let id = ID::new().add_host("b").add_host("a").add_host("b");
    assert_eq!(strs(id.hosts_lit()), vec!["a", "b"]);
    let req = HttpRequest::with_method(Method::GET).set_path("/a/b/c/");
    assert_eq!(strs(req.route()), vec!["a", "b", "c"]);
    assert_eq!(strs(HttpRequest::with_method(Method::GET).route()), vec![""]);
    assert_eq!(strs(req.set_path("x//y").route()), vec!["x", "", "y"]);
    let h = req.set_header("k", &b"1".to_vec()).set_header("j", &b"2".to_vec());
    assert_eq!(strs(h.headers()), vec!["j", "k"]);
}

#[test]
fn values_in_rust() {
    let id = ID::new().add_host("client").add_ip(IpAddr { a: 10, b: 0, c: 0, d: 2 }).set_port(8080);
    assert!(id.has_host("client"));
    assert!(id.has_ip(IpAddr { a: 10, b: 0, c: 0, d: 2 }));
    assert!(!id.has_ip(IpAddr::localhost()));
    let conn = Connection::new(&id, &ID::new(), 3);
    assert_eq!(conn.number(), 3);
    let req = HttpRequest::new(Method::PUT, Version::HTTP_20, "/x".to_string(), String::new(), conn);
    assert_eq!(req.method(), Method::PUT);
    assert_eq!(req.path(), "/x");
    let res = HttpResponse::new(Version::HTTP_11, 201, Some("made".to_string()), Connection::empty());
    assert_eq!(res.status(), 201);
}

#[test]
fn policy_over_network_values() {
    let src = "fn allow_rest_request(from: ID, to: ID, req: HttpRequest, payload: data) -> bool {\n\
               HttpRequest::method(req) == \"GET\" && ID::has_host(from, \"client\")\n\
               }\n";
    let p = PreProgram::from_str(src).expect("loads");
    let f = p.code.get("allow_rest_request".to_string()).expect("declared");
    let call = |from: ID, method: Method| {
        let args = vec![
            Literal::FlatLiteral(FlatLiteral::ID(from)),
            Literal::FlatLiteral(FlatLiteral::ID(ID::new())),
            Literal::FlatLiteral(FlatLiteral::HttpRequest(Box::new(HttpRequest::with_method(method)))),
            Literal::data(Vec::new()),
        ];
        let mut e = f.dup();
        for a in args {
            e = e.apply(&Exp::lit(a)).expect("applies");
        }
        let mut st = Replies::new(Vec::new());
        match e.evaluate(&p.code, &mut st) {
            Ok(Expr::LitExpr(Literal::FlatLiteral(FlatLiteral::Bool(b)))) => b,
            other => panic!("{:?}", other),
        }
    };
    assert!(call(ID::new().add_host("client"), Method::GET));
    assert!(!call(ID::new().add_host("other"), Method::GET));
    assert!(!call(ID::new().add_host("client"), Method::POST));
}
