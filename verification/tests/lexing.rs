use armour_lang::lexer::{lex, try_lex, Loc, LocToken, Token, Tokens};

fn toks(s: &str) -> Vec<LocToken> {
    try_lex(s).expect("lexing stopped")
}

fn kinds(s: &str) -> Vec<String> {
    toks(s).iter().map(|t| format!("{:?}", t.tok)).collect()
}

#[test]
fn statements_and_locations() {
    let ts = toks("let x = 5; // a comment\n  x");
    let k: Vec<String> = ts.iter().map(|t| format!("{:?}", t.tok)).collect();
    assert_eq!(
        k,
        vec!["Let", "Ident(\"x\")", "Assign", "IntLiteral(5)", "SemiColon", "Ident(\"x\")", "EOF"]
    );
    assert_eq!((ts[1].loc.line, ts[1].loc.column, ts[1].loc.offset), (1, 5, 4));
    assert_eq!(ts[1].loc.fragment, "x");
    assert_eq!((ts[5].loc.line, ts[5].loc.column, ts[5].loc.offset), (2, 3, 26));
    assert_eq!(ts[6].loc.fragment, "");
    let tokens = Tokens::new(&ts);
    assert_eq!(tokens.input_len(), 7);
    assert!(matches!(tokens.tok0(), Token::Let));
    assert_eq!(tokens.loc(), Loc(1, 1));
    let (rest, first) = tokens.take_split(2);
    assert_eq!(first.input_len(), 2);
    assert_eq!(rest.input_len(), 5);
    assert!(matches!(rest.tok0(), Token::Assign));
    assert_eq!(tokens.take(3).end, 3);
    assert_eq!(Loc(3, 7).to_string(), "line 3, column 7");
}

#[test]
fn numbers() {
    assert_eq!(kinds("1.5"), vec!["FloatLiteral(\"1.5\")", "EOF"]);
    assert_eq!(kinds("-5"), vec!["IntLiteral(-5)", "EOF"]);
    assert_eq!(kinds("1."), vec!["IntLiteral(1)", "Dot", "EOF"]);
    assert_eq!(kinds(".5"), vec!["Dot", "IntLiteral(5)", "EOF"]);
    assert_eq!(kinds("2e3"), vec!["FloatLiteral(\"2e3\")", "EOF"]);
    assert_eq!(kinds("1e"), vec!["Ident(\"1e\")", "EOF"]);
    assert_eq!(kinds("+5"), vec!["Plus", "IntLiteral(5)", "EOF"]);
    assert_eq!(kinds("99999999999999999999"), vec!["FloatLiteral(\"99999999999999999999\")", "EOF"]);
    // an integer too large for i64 before a point stops lexing
    assert!(try_lex("99999999999999999999.").is_none());
}

#[test]
fn strings_and_labels() {
    assert_eq!(kinds("\"a\\\"b\""), vec!["StringLiteral(\"a\\\"b\")", "EOF"]);
    assert_eq!(kinds("\"\""), vec!["StringLiteral(\"\")", "EOF"]);
    assert_eq!(kinds("b\"hi\""), vec!["DataLiteral([104, 105])", "EOF"]);
    assert_eq!(kinds("\"abc"), vec!["Illegal(\"\\\"\")", "Ident(\"abc\")", "EOF"]);
    let ts = toks("'a::<b>'");
    assert!(matches!(ts[0].tok, Token::LabelLiteral(_)));
    assert_eq!(ts[0].loc.fragment, "a::<b>");
}

#[test]
fn operators_and_words() {
    assert_eq!(
        kinds("a && b || !c <= d -> e :: f ++ g"),
        vec![
            "Ident(\"a\")", "And", "Ident(\"b\")", "Or", "Not", "Ident(\"c\")", "LessThanEqual", "Ident(\"d\")",
            "Arrow", "Ident(\"e\")", "ColonColon", "Ident(\"f\")", "PlusPlus", "Ident(\"g\")", "EOF"
        ]
    );
    assert_eq!(kinds("fn map Some true"), vec!["Function", "MapEach", "SomeKeyword", "BoolLiteral(true)", "EOF"]);
    // an operator that may take two characters is illegal at the very end
    assert_eq!(kinds("a+"), vec!["Ident(\"a\")", "Illegal(\"+\")", "EOF"]);
    assert_eq!(kinds("_x #"), vec!["Underscore", "Ident(\"x\")", "Illegal(\"#\")", "EOF"]);
    let all_ws = toks("   ");
    assert_eq!(all_ws.len(), 1);
    assert_eq!(all_ws[0].loc.fragment, "   ");
    assert_eq!(lex("x").len(), 2);
}
