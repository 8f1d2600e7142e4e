//! The parser: reads programs, blocks and expressions from the lexer's
//! tokens, rule by rule as the grammar states them.

use vstd::prelude::*;
use crate::lexer::{Loc, LocToken, LocTokV, Token, loc_tokens_view};
use crate::grammar::{
    tok, is_tok, loc_of, ident_at, tuple_ident, comma_tuple_idents, idents, ty, types, comma_types, pat_typ, as_pat,
    atom_pat, postfix_ops, postfix_pat, postfix_pats, pat_seq, bar_pats, pat, pat_no_bind, pattern, infix_op, prec_rank,
    call_function, literal_at, block_of, expr, pratt, go, infix_expr, dot_expr, call_expr, ident_expr, lit_expr, atom,
    prefix_expr, paren_expr, exprs, comma_exprs, list_expr, CondSV, if_expr, else_expr, some_match, match_expr,
    match_exprs, and_matches, iter_keyword, iter_expr, iter_acc_expr, all_any_expr, block, stmts, stmt, let_stmt,
    return_stmt, expr_stmt, param, comma_params, params, arrow_typ, fn_head, head, heads, external, fn_decl, decl, decls,
    program_spec, expr_eof_spec, block_eof_spec,
};
use crate::parser::{
    Ident, LocIdent, Typ, TypSV, typs_sv, lemma_typs_sv, Pat, PatV, As, Pattern, PatternSV, PolicyRegex, Assoc, Infix, Iter,
    Prefix, Precedence, Expr, LocExpr, LocExprSV, Stmt, LocStmt, LocStmtSV, BlockStmt, lemma_loc_exprs_sv,
    lemma_loc_stmts_sv, lemma_match_arms_sv, loc_idents_sv, Param, params_sv, opt_typ_sv, FnHead, Head, HeadSV, External,
    FnDecl, Decl, DeclSV,
};
use crate::literals::{Literal, LitV, FlatLitV, bytes_dup};
use crate::text::{str_eq, concat, i64_to_string};

verus! {

/// The models of the tokens.
pub open spec fn tv(toks: Seq<LocToken>) -> Seq<LocTokV> {
    loc_tokens_view(toks)
}

/// A rule's result against the grammar's: the same value and position,
/// within the tokens.
pub open spec fn same_res<X: View>(r: Option<(X, usize)>, s: Option<(X::V, int)>, n: nat) -> bool {
    match r {
        Some((x, q)) => s == Some((x@, q as int)) && q <= n,
        None => s is None,
    }
}

/// A list rule's result against the grammar's.
pub open spec fn same_list<X: View>(r: Option<(Vec<X>, usize)>, s: Option<(Seq<X::V>, int)>, n: nat) -> bool {
    match r {
        Some((v, q)) => s == Some((v@.map_values(|x: X| x@), q as int)) && q <= n,
        None => s is None,
    }
}

/// Putting an item in front of a list puts its model in front of the
/// models.
proof fn lemma_cons<X: View>(x: X, s: Seq<X>)
    ensures
        s.insert(0, x).map_values(|y: X| y@) == seq![x@] + s.map_values(|y: X| y@),
{
    assert(s.insert(0, x).map_values(|y: X| y@) =~= seq![x@] + s.map_values(|y: X| y@));
}

/// The place of a token.
fn loc_at(toks: &[LocToken], p: usize) -> (l: Loc)
    requires
        p < toks@.len(),
    ensures
        l == loc_of(tv(toks@), p as int),
{
    Loc(toks[p].loc.line, toks[p].loc.column)
}

/// The token at a position, if any.
fn at(toks: &[LocToken], p: usize) -> (r: Option<&Token>)
    ensures
        toks@.len() <= usize::MAX,
        match r {
            Some(k) => p < toks@.len() && tok(tv(toks@), p as int) == Some(k@),
            None => tok(tv(toks@), p as int) is None,
        },
{
    if p < toks.len() {
        Some(&toks[p].tok)
    } else {
        None
    }
}

/// An identifier.
fn parse_ident(toks: &[LocToken], p: usize) -> (r: Option<(LocIdent, usize)>)
    ensures
        same_res(r, ident_at(tv(toks@), p as int), toks@.len()),
{
    match at(toks, p) {
        Some(Token::Ident(n)) => Some((LocIdent(loc_at(toks, p), Ident(n.clone())), p + 1)),
        _ => None,
    }
}

/// An identifier or `_`.
fn tuple_ident_exec(toks: &[LocToken], p: usize) -> (r: Option<(LocIdent, usize)>)
    ensures
        same_res(r, tuple_ident(tv(toks@), p as int), toks@.len()),
{
    match at(toks, p) {
        Some(Token::Underscore) => Some((LocIdent(loc_at(toks, p), Ident::from_str("_")), p + 1)),
        _ => parse_ident(toks, p),
    }
}

/// Any number of `, x`.
fn parse_comma_tuple_idents(toks: &[LocToken], p: usize) -> (r: (Vec<LocIdent>, usize))
    requires
        p <= toks@.len(),
    ensures
        comma_tuple_idents(tv(toks@), p as int) == (r.0@.map_values(|x: LocIdent| x@), r.1 as int),
        r.1 <= toks@.len(),
    decreases toks@.len() - p,
{
    if let Some(Token::Comma) = at(toks, p) {
        if let Some((i, q)) = tuple_ident_exec(toks, p + 1) {
            let (mut is, r) = parse_comma_tuple_idents(toks, q);
            proof { lemma_cons(i, is@); }
            is.insert(0, i);
            return (is, r);
        }
    }
    let v: Vec<LocIdent> = Vec::new();
    assert(v@.map_values(|x: LocIdent| x@) =~= Seq::<(Loc, Seq<char>)>::empty());
    (v, p)
}

/// The variables that `let` and the iterators bind.
fn parse_idents(toks: &[LocToken], p: usize) -> (r: Option<(Vec<LocIdent>, usize)>)
    requires
        p <= toks@.len(),
    ensures
        same_list(r, idents(tv(toks@), p as int), toks@.len()),
{
    if let Some(Token::LParen) = at(toks, p) {
        if let Some((i, q)) = tuple_ident_exec(toks, p + 1) {
            let (mut is, r) = parse_comma_tuple_idents(toks, q);
            if is.len() > 0 {
                if let Some(Token::RParen) = at(toks, r) {
                    proof { lemma_cons(i, is@); }
                    is.insert(0, i);
                    return Some((is, r + 1));
                }
            }
        }
    }
    if let Some((i, q)) = parse_ident(toks, p) {
        let mut v: Vec<LocIdent> = Vec::new();
        v.push(i);
        assert(v@.map_values(|x: LocIdent| x@) =~= seq![v@[0]@]);
        return Some((v, q));
    }
    if let Some(Token::Underscore) = at(toks, p) {
        let mut v: Vec<LocIdent> = Vec::new();
        v.push(LocIdent(Loc(0, 0), Ident::from_str("_")));
        assert(v@.map_values(|x: LocIdent| x@) =~= seq![v@[0]@]);
        return Some((v, p + 1));
    }
    None
}

// ---------------------------------------------------------------- types

/// A written type.
pub fn parse_type(toks: &[LocToken], p: usize, f: u64) -> (r: Option<(Typ, usize)>)
    requires
        p <= toks@.len(),
    ensures
        same_res(r, ty(tv(toks@), p as int, f as nat), toks@.len()),
    decreases f, 0nat,
{
    if f == 0 {
        return None;
    }
    if let Some((id, q)) = parse_ident(toks, p) {
        if let Some(Token::LessThan) = at(toks, q) {
            if let Some((x, r)) = parse_type(toks, q + 1, f - 1) {
                if let Some(Token::GreaterThan) = at(toks, r) {
                    return Some((Typ::Cons(id, Box::new(x)), r + 1));
                }
            }
        }
        return Some((Typ::Atom(id), q));
    }
    if let Some(Token::LParen) = at(toks, p) {
        let (ts, q) = match parse_types(toks, p + 1, f - 1) {
            Some((ts, q)) => (ts, q),
            None => {
                let v: Vec<Typ> = Vec::new();
                assert(v@.map_values(|x: Typ| x@) =~= Seq::<TypSV>::empty());
                (v, p + 1)
            },
        };
        if let Some(Token::RParen) = at(toks, q) {
            proof { lemma_typs_sv(ts@); }
            assert(ts@.map_values(|x: Typ| x@) =~= ts@.map_values(|t: Typ| crate::parser::typ_sv(t)));
            return Some((Typ::Tuple(ts), q + 1));
        }
    }
    None
}

/// Types separated by commas.
pub fn parse_types(toks: &[LocToken], p: usize, f: u64) -> (r: Option<(Vec<Typ>, usize)>)
    requires
        p <= toks@.len(),
    ensures
        same_list(r, types(tv(toks@), p as int, f as nat), toks@.len()),
    decreases f, 1nat,
{
    if f == 0 {
        return None;
    }
    match parse_type(toks, p, f - 1) {
        Some((x, q)) => match parse_comma_types(toks, q, f - 1) {
            Some((mut xs, r)) => {
                proof { lemma_cons(x, xs@); }
                xs.insert(0, x);
                Some((xs, r))
            },
            None => None,
        },
        None => None,
    }
}

/// Any number of `, type`.
fn parse_comma_types(toks: &[LocToken], p: usize, f: u64) -> (r: Option<(Vec<Typ>, usize)>)
    requires
        p <= toks@.len(),
    ensures
        same_list(r, comma_types(tv(toks@), p as int, f as nat), toks@.len()),
    decreases f, 0nat,
{
    if f == 0 {
        return None;
    }
    if let Some(Token::Comma) = at(toks, p) {
        if let Some((x, q)) = parse_type(toks, p + 1, f - 1) {
            return match parse_comma_types(toks, q, f - 1) {
                Some((mut xs, r)) => {
                    proof { lemma_cons(x, xs@); }
                    xs.insert(0, x);
                    Some((xs, r))
                },
                None => None,
            };
        }
    }
    let v: Vec<Typ> = Vec::new();
    assert(v@.map_values(|x: Typ| x@) =~= Seq::<TypSV>::empty());
    Some((v, p))
}

// ------------------------------------------------------------- patterns

/// How a named part is read.
fn parse_pat_typ(toks: &[LocToken], p: usize) -> (r: Option<As>)
    ensures
        r == pat_typ(tv(toks@), p as int),
{
    match at(toks, p) {
        Some(Token::Ident(s)) => if str_eq(s.as_str(), "i64") {
            Some(As::I64)
        } else if str_eq(s.as_str(), "base64") {
            Some(As::Base64)
        } else if str_eq(s.as_str(), "str") {
            Some(As::Str)
        } else {
            None
        },
        _ => None,
    }
}

/// A named part: `[x]` or `[x as i64]`.
fn parse_as_pat(toks: &[LocToken], p: usize) -> (r: Option<(Pat, usize)>)
    requires
        p <= toks@.len(),
    ensures
        same_res(r, as_pat(tv(toks@), p as int), toks@.len()),
{
    if let Some(Token::LBracket) = at(toks, p) {
        if let Some((i, q)) = parse_ident(toks, p + 1) {
            let mut a = As::Str;
            let mut r = q;
            if let Some(Token::As) = at(toks, q) {
                if let Some(x) = parse_pat_typ(toks, q + 1) {
                    a = x;
                    r = q + 2;
                }
            }
            if let Some(Token::RBracket) = at(toks, r) {
                return Some((Pat::As(i.1, a), r + 1));
            }
        }
    }
    None
}

/// Whether a name is a known character class.
fn is_class_exec(s: &str) -> (b: bool)
    ensures
        b == crate::grammar::is_class(s@),
{
    str_eq(s, "alpha") || str_eq(s, "alphanum") || str_eq(s, "base64") || str_eq(s, "digit") || str_eq(s, "hex_digit")
        || str_eq(s, "s")
}

/// An atom of a pattern.
fn parse_atom_pat(toks: &[LocToken], p: usize, f: u64) -> (r: Option<(Pat, usize)>)
    requires
        p <= toks@.len(),
    ensures
        same_res(r, atom_pat(tv(toks@), p as int, f as nat), toks@.len()),
    decreases f, 0nat,
{
    if f == 0 {
        return None;
    }
    if let Some(Token::StringLiteral(s)) = at(toks, p) {
        return Some((Pat::Lit(s.clone()), p + 1));
    }
    if let Some(Token::Dot) = at(toks, p) {
        return Some((Pat::Any, p + 1));
    }
    if let Some(Token::Colon) = at(toks, p) {
        if let Some(Token::Ident(c)) = at(toks, p + 1) {
            if is_class_exec(c.as_str()) {
                if let Some(Token::Colon) = at(toks, p + 2) {
                    return Some((Pat::Class(c.clone()), p + 3));
                }
            }
        }
    }
    if let Some(x) = parse_as_pat(toks, p) {
        return Some(x);
    }
    if let Some(Token::LParen) = at(toks, p) {
        return match parse_pat(toks, p + 1, f - 1) {
            Some((x, q)) => if let Some(Token::RParen) = at(toks, q) {
                Some((x, q + 1))
            } else {
                None
            },
            None => None,
        };
    }
    None
}

/// Postfix operators applied, left to right.
fn parse_postfix_ops(toks: &[LocToken], p: usize, x: Pat) -> (r: (Pat, usize))
    requires
        p <= toks@.len(),
    ensures
        postfix_ops(tv(toks@), p as int, x@) == (r.0@, r.1 as int),
        r.1 <= toks@.len(),
    decreases toks@.len() - p,
{
    match at(toks, p) {
        Some(Token::Multiply) => parse_postfix_ops(toks, p + 1, Pat::Star(Box::new(x))),
        Some(Token::Plus) => parse_postfix_ops(toks, p + 1, Pat::Plus(Box::new(x))),
        Some(Token::QuestionMark) => parse_postfix_ops(toks, p + 1, Pat::Opt(Box::new(x))),
        Some(Token::Not) => parse_postfix_ops(toks, p + 1, Pat::CaseInsensitive(Box::new(x))),
        Some(Token::Percent) => parse_postfix_ops(toks, p + 1, Pat::IgnoreWhitespace(Box::new(x))),
        _ => (x, p),
    }
}

/// An atom with its postfix operators.
fn parse_postfix_pat(toks: &[LocToken], p: usize, f: u64) -> (r: Option<(Pat, usize)>)
    requires
        p <= toks@.len(),
    ensures
        same_res(r, postfix_pat(tv(toks@), p as int, f as nat), toks@.len()),
    decreases f, 1nat,
{
    if f == 0 {
        return None;
    }
    match parse_atom_pat(toks, p, f - 1) {
        Some((a, q)) => Some(parse_postfix_ops(toks, q, a)),
        None => None,
    }
}

/// Any number of postfix patterns.
fn parse_postfix_pats(toks: &[LocToken], p: usize, f: u64) -> (r: Option<(Vec<Pat>, usize)>)
    requires
        p <= toks@.len(),
    ensures
        same_list(r, postfix_pats(tv(toks@), p as int, f as nat), toks@.len()),
    decreases f, 2nat,
{
    if f == 0 {
        return None;
    }
    match parse_postfix_pat(toks, p, f - 1) {
        Some((x, q)) => match parse_postfix_pats(toks, q, f - 1) {
            Some((mut xs, r)) => {
                proof { lemma_cons(x, xs@); }
                xs.insert(0, x);
                Some((xs, r))
            },
            None => None,
        },
        None => {
            let v: Vec<Pat> = Vec::new();
            assert(v@.map_values(|x: Pat| x@) =~= Seq::<PatV>::empty());
            Some((v, p))
        },
    }
}

/// The models of patterns, element by element.
proof fn lemma_pats_map(s: Seq<Pat>)
    ensures
        crate::parser::pats_view(s) == s.map_values(|x: Pat| x@),
{
    crate::parser::lemma_pats_view_len(s);
    assert forall|k: int| 0 <= k < s.len() implies crate::parser::pats_view(s)[k] == s[k]@ by {
        crate::parser::lemma_pats_view_index(s, k);
    }
    assert(crate::parser::pats_view(s) =~= s.map_values(|x: Pat| x@));
}

/// One or more postfix patterns in sequence.
fn parse_pat_seq(toks: &[LocToken], p: usize, f: u64) -> (r: Option<(Pat, usize)>)
    requires
        p <= toks@.len(),
    ensures
        same_res(r, pat_seq(tv(toks@), p as int, f as nat), toks@.len()),
    decreases f, 3nat,
{
    if f == 0 {
        return None;
    }
    match parse_postfix_pat(toks, p, f - 1) {
        Some((x, q)) => match parse_postfix_pats(toks, q, f - 1) {
            Some((mut xs, r)) => if xs.len() == 0 {
                Some((x, r))
            } else {
                proof { lemma_cons(x, xs@); }
                xs.insert(0, x);
                proof { lemma_pats_map(xs@); }
                Some((Pat::Sequence(xs), r))
            },
            None => None,
        },
        None => None,
    }
}

/// Any number of `| sequence`.
fn parse_bar_pats(toks: &[LocToken], p: usize, f: u64) -> (r: Option<(Vec<Pat>, usize)>)
    requires
        p <= toks@.len(),
    ensures
        same_list(r, bar_pats(tv(toks@), p as int, f as nat), toks@.len()),
    decreases f, 4nat,
{
    if f == 0 {
        return None;
    }
    if let Some(Token::Bar) = at(toks, p) {
        if let Some((x, q)) = parse_pat_seq(toks, p + 1, f - 1) {
            return match parse_bar_pats(toks, q, f - 1) {
                Some((mut xs, r)) => {
                    proof { lemma_cons(x, xs@); }
                    xs.insert(0, x);
                    Some((xs, r))
                },
                None => None,
            };
        }
    }
    let v: Vec<Pat> = Vec::new();
    assert(v@.map_values(|x: Pat| x@) =~= Seq::<PatV>::empty());
    Some((v, p))
}

/// A pattern: sequences separated by `|`.
pub fn parse_pat(toks: &[LocToken], p: usize, f: u64) -> (r: Option<(Pat, usize)>)
    requires
        p <= toks@.len(),
    ensures
        same_res(r, pat(tv(toks@), p as int, f as nat), toks@.len()),
    decreases f, 5nat,
{
    if f == 0 {
        return None;
    }
    match parse_pat_seq(toks, p, f - 1) {
        Some((x, q)) => match parse_bar_pats(toks, q, f - 1) {
            Some((mut xs, r)) => if xs.len() == 0 {
                Some((x, r))
            } else {
                proof { lemma_cons(x, xs@); }
                xs.insert(0, x);
                proof { lemma_pats_map(xs@); }
                Some((Pat::Alt(xs), r))
            },
            None => None,
        },
        None => None,
    }
}

/// A pattern without named parts, compiled.
fn parse_pat_no_bind(toks: &[LocToken], p: usize, f: u64) -> (r: Option<(Literal, usize)>)
    requires
        p <= toks@.len(),
    ensures
        same_res(r, pat_no_bind(tv(toks@), p as int, f as nat), toks@.len()),
{
    match parse_pat(toks, p, f) {
        Some((x, q)) => if !x.has_as() && x.is_valid() {
            match PolicyRegex::from_pat(&x) {
                Ok(re) => Some((Literal::regex(re), q)),
                Err(_) => None,
            }
        } else {
            None
        },
        None => None,
    }
}

/// The pattern of `matches`.
pub fn parse_pattern(toks: &[LocToken], p: usize, f: u64) -> (r: Option<(Pattern, usize)>)
    requires
        p <= toks@.len(),
    ensures
        same_res(r, pattern(tv(toks@), p as int, f as nat), toks@.len()),
{
    match parse_pat(toks, p, f) {
        Some((x, q)) => Some((Pattern::Regex(x), q)),
        None => match at(toks, p) {
            Some(Token::LabelLiteral(l)) => Some((Pattern::Label(l.dup()), p + 1)),
            _ => None,
        },
    }
}

// ---------------------------------------------------------- expressions

/// The precedence and operator of a token in operator position.
fn infix_op_exec(k: &Token) -> (r: (Precedence, Option<(Assoc, Infix)>))
    ensures
        r == infix_op(k@),
{
    match k {
        Token::Equal => (Precedence::PEquals, Some((Assoc::Right, Infix::Equal))),
        Token::NotEqual => (Precedence::PEquals, Some((Assoc::Right, Infix::NotEqual))),
        Token::LessThanEqual => (Precedence::PLessGreater, Some((Assoc::Right, Infix::LessThanEqual))),
        Token::GreaterThanEqual => (Precedence::PLessGreater, Some((Assoc::Right, Infix::GreaterThanEqual))),
        Token::LessThan => (Precedence::PLessGreater, Some((Assoc::Right, Infix::LessThan))),
        Token::GreaterThan => (Precedence::PLessGreater, Some((Assoc::Right, Infix::GreaterThan))),
        Token::Or => (Precedence::POr, Some((Assoc::Right, Infix::Or))),
        Token::And => (Precedence::PAnd, Some((Assoc::Right, Infix::And))),
        Token::Plus => (Precedence::PSum, Some((Assoc::Left, Infix::Plus))),
        Token::Minus => (Precedence::PSum, Some((Assoc::Left, Infix::Minus))),
        Token::At => (Precedence::PSum, Some((Assoc::Right, Infix::Concat))),
        Token::PlusPlus => (Precedence::PSum, Some((Assoc::Right, Infix::ConcatStr))),
        Token::Multiply => (Precedence::PProduct, Some((Assoc::Left, Infix::Multiply))),
        Token::Divide => (Precedence::PProduct, Some((Assoc::Left, Infix::Divide))),
        Token::Percent => (Precedence::PProduct, Some((Assoc::Left, Infix::Remainder))),
        Token::In => (Precedence::PIn, Some((Assoc::Left, Infix::In))),
        Token::Dot => (Precedence::PDot, None),
        Token::LParen => (Precedence::PCall, None),
        Token::ColonColon => (Precedence::PModule, Some((Assoc::Right, Infix::Module))),
        _ => (Precedence::PLowest, None),
    }
}

/// The rank of a precedence.
fn rank(p: Precedence) -> (r: u8)
    ensures
        r == prec_rank(p),
{
    match p {
        Precedence::PLowest => 0,
        Precedence::POr => 1,
        Precedence::PAnd => 2,
        Precedence::PEquals => 3,
        Precedence::PLessGreater => 4,
        Precedence::PIn => 5,
        Precedence::PSum => 6,
        Precedence::PProduct => 7,
        Precedence::PDot => 8,
        Precedence::PCall => 9,
        Precedence::PModule => 10,
    }
}

/// The name that a call's function part spells.
fn call_function_exec(e: &Expr) -> (r: Option<String>)
    ensures
        match r {
            Some(s) => call_function(e@) == Some(s@),
            None => call_function(e@) is None,
        },
    decreases e,
{
    match e {
        Expr::IdentExpr(id) => Some(id.0.clone()),
        Expr::InfixExpr(Infix::Module, a, b) => match (call_function_exec(&a.1), call_function_exec(&b.1)) {
            (Some(x), Some(y)) => Some(concat(concat(x.as_str(), "::").as_str(), y.as_str())),
            _ => None,
        },
        _ => None,
    }
}

/// A literal token's value.
fn literal_exec(toks: &[LocToken], p: usize) -> (r: Option<Literal>)
    ensures
        toks@.len() <= usize::MAX,
        r is Some ==> p < toks@.len(),
        match r {
            Some(l) => literal_at(tv(toks@), p as int) == Some(l@),
            None => literal_at(tv(toks@), p as int) is None,
        },
{
    match at(toks, p) {
        Some(Token::BoolLiteral(b)) => Some(Literal::bool(*b)),
        Some(Token::DataLiteral(d)) => Some(Literal::data(bytes_dup(d))),
        Some(Token::Ident(s)) => if str_eq(s.as_str(), "None") { Some(Literal::none()) } else { None },
        Some(Token::IntLiteral(i)) => Some(Literal::integer(*i)),
        Some(Token::LabelLiteral(l)) => Some(Literal::label(l.dup())),
        Some(Token::StringLiteral(s)) => Some(Literal::str(s.clone())),
        _ => None,
    }
}

/// A block made of one expression.
fn block_of_exec(e: LocExpr) -> (b: BlockStmt)
    ensures
        b@ == block_of(e@),
{
    let LocExpr(l, x) = e;
    let mut v: Vec<LocStmt> = Vec::new();
    v.push(LocStmt(l, Stmt::ExprStmt { exp: x, async_tag: false, semi: false }));
    proof {
        lemma_loc_stmts_sv(v@);
        assert(v@.map_values(|s: LocStmt| s@) =~= block_of(e@).statements);
    }
    BlockStmt { statements: v, async_tag: false }
}

/// An expression.
pub fn parse_expr(toks: &[LocToken], p: usize, f: u64) -> (r: Option<(LocExpr, usize)>)
    requires
        p <= toks@.len(),
    ensures
        same_res(r, expr(tv(toks@), p as int, f as nat), toks@.len()),
    decreases f, 3nat,
{
    if f == 0 {
        return None;
    }
    parse_pratt_expr(toks, p, Precedence::PLowest, f - 1)
}

/// An atom and the operators after it that bind more strongly than
/// `prec`.
fn parse_pratt_expr(toks: &[LocToken], p: usize, prec: Precedence, f: u64) -> (r: Option<(LocExpr, usize)>)
    requires
        p <= toks@.len(),
    ensures
        same_res(r, pratt(tv(toks@), p as int, prec, f as nat), toks@.len()),
    decreases f, 2nat,
{
    if f == 0 {
        return None;
    }
    match parse_atom_expr(toks, p, f - 1) {
        Some((left, q)) => go_parse_pratt_expr(toks, q, prec, left, f - 1),
        None => None,
    }
}

/// The operators after `left` that bind more strongly than `prec`.
fn go_parse_pratt_expr(toks: &[LocToken], q: usize, prec: Precedence, left: LocExpr, f: u64) -> (r: Option<(LocExpr, usize)>)
    requires
        q <= toks@.len(),
    ensures
        same_res(r, go(tv(toks@), q as int, prec, left@, f as nat), toks@.len()),
    decreases f, 1nat,
{
    if f == 0 {
        return None;
    }
    let k = match at(toks, q) {
        Some(k) => k,
        None => return None,
    };
    let (pp, op) = infix_op_exec(k);
    let rp = rank(prec);
    let step = if pp == Precedence::PDot && rp < 8 {
        parse_dot_expr(toks, q, left, f - 1)
    } else if pp == Precedence::PCall && rp < 9 {
        parse_call_expr(toks, q, left, f - 1)
    } else if (matches!(op, Some((Assoc::Right, _))) && rp <= rank(pp)) || rp < rank(pp) {
        parse_infix_expr(toks, q, left, f - 1)
    } else {
        return Some((left, q));
    };
    match step {
        Some((l2, q2)) => go_parse_pratt_expr(toks, q2, prec, l2, f - 1),
        None => None,
    }
}

/// An infix operator and its right operand.
fn parse_infix_expr(toks: &[LocToken], q: usize, left: LocExpr, f: u64) -> (r: Option<(LocExpr, usize)>)
    requires
        q <= toks@.len(),
    ensures
        same_res(r, infix_expr(tv(toks@), q as int, left@, f as nat), toks@.len()),
    decreases f, 0nat,
{
    if f == 0 {
        return None;
    }
    match at(toks, q) {
        Some(k) => {
            let (pp, op) = infix_op_exec(k);
            match op {
                Some((_, o)) => match parse_pratt_expr(toks, q + 1, pp, f - 1) {
                    Some((right, r)) => Some((LocExpr(loc_at(toks, q), Expr::InfixExpr(o, Box::new(left), Box::new(right))), r)),
                    None => None,
                },
                None => None,
            }
        },
        None => None,
    }
}

/// `.n` or `.method(arguments)` after `left`.
fn parse_dot_expr(toks: &[LocToken], q: usize, left: LocExpr, f: u64) -> (r: Option<(LocExpr, usize)>)
    requires
        q <= toks@.len(),
    ensures
        same_res(r, dot_expr(tv(toks@), q as int, left@, f as nat), toks@.len()),
    decreases f, 0nat,
{
    if f == 0 {
        return None;
    }
    if let Some(Token::Dot) = at(toks, q) {
        if let Some(Token::IntLiteral(i)) = at(toks, q + 1) {
            let l0 = left.0;
            let ghost lv = left@;
            let mut args: Vec<LocExpr> = Vec::new();
            args.push(left);
            proof {
                lemma_loc_exprs_sv(args@);
                assert(args@.map_values(|e: LocExpr| e@) =~= seq![lv]);
            }
            return Some((LocExpr(l0, Expr::CallExpr { loc: loc_at(toks, q + 1), function: i64_to_string(*i), arguments: args }), q + 2));
        }
        if let Some((id, r)) = parse_ident_expr(toks, q + 1) {
            return match parse_call_expr(toks, r, id, f - 1) {
                Some((LocExpr(_, Expr::CallExpr { loc, function, arguments }), s)) => {
                    let l0 = left.0;
                    let ghost lv = left@;
                    let ghost av = arguments@;
                    let mut args = arguments;
                    args.insert(0, left);
                    proof {
                        lemma_loc_exprs_sv(av);
                        lemma_loc_exprs_sv(args@);
                        lemma_cons(lv_exec_witness(args@), av);
                        assert(args@.map_values(|e: LocExpr| e@) =~= seq![lv] + av.map_values(|e: LocExpr| e@));
                    }
                    Some((LocExpr(l0, Expr::CallExpr { loc, function: concat(".::", function.as_str()), arguments: args }), s))
                },
                _ => None,
            };
        }
    }
    None
}

/// The first of a list (for proofs about lists built by insertion).
spec fn lv_exec_witness(s: Seq<LocExpr>) -> LocExpr {
    s[0]
}

/// `(arguments)` after a function name.
fn parse_call_expr(toks: &[LocToken], q: usize, fh: LocExpr, f: u64) -> (r: Option<(LocExpr, usize)>)
    requires
        q <= toks@.len(),
    ensures
        same_res(r, call_expr(tv(toks@), q as int, fh@, f as nat), toks@.len()),
    decreases f, 0nat,
{
    if f == 0 {
        return None;
    }
    if let Some(Token::LParen) = at(toks, q) {
    } else {
        return None;
    }
    let (args, r) = match parse_exprs(toks, q + 1, f - 1) {
        Some((es, r)) => (es, r),
        None => {
            let v: Vec<LocExpr> = Vec::new();
            assert(v@.map_values(|x: LocExpr| x@) =~= Seq::<LocExprSV>::empty());
            (v, q + 1)
        },
    };
    if let Some(Token::RParen) = at(toks, r) {
        if let Some(name) = call_function_exec(&fh.1) {
            proof { lemma_loc_exprs_sv(args@); }
            return Some((LocExpr(fh.0, Expr::CallExpr { loc: fh.0, function: name, arguments: args }), r + 1));
        }
    }
    None
}

/// An identifier, or `Some`.
fn parse_ident_expr(toks: &[LocToken], p: usize) -> (r: Option<(LocExpr, usize)>)
    ensures
        same_res(r, ident_expr(tv(toks@), p as int), toks@.len()),
{
    match at(toks, p) {
        Some(Token::Ident(n)) => Some((LocExpr(loc_at(toks, p), Expr::IdentExpr(Ident(n.clone()))), p + 1)),
        Some(Token::SomeKeyword) => Some((LocExpr(loc_at(toks, p), Expr::IdentExpr(Ident::from_str("option::Some"))), p + 1)),
        _ => None,
    }
}

/// A literal, or `Regex(pattern)`.
fn parse_lit_expr(toks: &[LocToken], p: usize, f: u64) -> (r: Option<(LocExpr, usize)>)
    requires
        p <= toks@.len(),
    ensures
        same_res(r, lit_expr(tv(toks@), p as int, f as nat), toks@.len()),
{
    if let Some(l) = literal_exec(toks, p) {
        return Some((LocExpr(loc_at(toks, p), Expr::LitExpr(l)), p + 1));
    }
    if let Some(Token::Regex) = at(toks, p) {
        if let Some(Token::LParen) = at(toks, p + 1) {
            return match parse_pat_no_bind(toks, p + 2, f) {
                Some((re, q)) => if let Some(Token::RParen) = at(toks, q) {
                    Some((LocExpr(loc_at(toks, p), Expr::LitExpr(re)), q + 1))
                } else {
                    None
                },
                None => None,
            };
        }
    }
    None
}

/// The first expression that applies at a position.
fn parse_atom_expr(toks: &[LocToken], p: usize, f: u64) -> (r: Option<(LocExpr, usize)>)
    requires
        p <= toks@.len(),
    ensures
        same_res(r, atom(tv(toks@), p as int, f as nat), toks@.len()),
    decreases f, 0nat,
{
    if f == 0 {
        return None;
    }
    let g = f - 1;
    if let Some(x) = parse_lit_expr(toks, p, g) {
        return Some(x);
    }
    if let Some(x) = parse_ident_expr(toks, p) {
        return Some(x);
    }
    if let Some(x) = parse_prefix_expr(toks, p, g) {
        return Some(x);
    }
    if let Some(x) = parse_paren_expr(toks, p, g) {
        return Some(x);
    }
    if let Some(x) = parse_list_expr(toks, p, g) {
        return Some(x);
    }
    if let Some(x) = parse_if_expr(toks, p, g) {
        return Some(x);
    }
    if let Some(x) = parse_iter_expr(toks, p, g) {
        return Some(x);
    }
    if let Some(x) = parse_iter_acc_expr(toks, p, g) {
        return Some(x);
    }
    parse_all_any_expr(toks, p, g)
}

/// `-e` or `!e`.
fn parse_prefix_expr(toks: &[LocToken], p: usize, f: u64) -> (r: Option<(LocExpr, usize)>)
    requires
        p <= toks@.len(),
    ensures
        same_res(r, prefix_expr(tv(toks@), p as int, f as nat), toks@.len()),
    decreases f, 4nat,
{
    let op = match at(toks, p) {
        Some(Token::Minus) => Prefix::Minus,
        Some(Token::Not) => Prefix::Not,
        _ => return None,
    };
    match parse_expr(toks, p + 1, f) {
        Some((e, q)) => Some((LocExpr(loc_at(toks, p), Expr::PrefixExpr(op, Box::new(e))), q)),
        None => None,
    }
}

/// `()`, `(e)` or `(e, ...)`.
fn parse_paren_expr(toks: &[LocToken], p: usize, f: u64) -> (r: Option<(LocExpr, usize)>)
    requires
        p <= toks@.len(),
    ensures
        same_res(r, paren_expr(tv(toks@), p as int, f as nat), toks@.len()),
    decreases f, 6nat,
{
    if let Some(Token::LParen) = at(toks, p) {
    } else {
        return None;
    }
    let (mut es, q) = match parse_exprs(toks, p + 1, f) {
        Some((es, q)) => (es, q),
        None => {
            let v: Vec<LocExpr> = Vec::new();
            assert(v@.map_values(|x: LocExpr| x@) =~= Seq::<LocExprSV>::empty());
            (v, p + 1)
        },
    };
    if let Some(Token::RParen) = at(toks, q) {
    } else {
        return None;
    }
    let l = loc_at(toks, p);
    if es.len() == 0 {
        Some((LocExpr(l, Expr::LitExpr(Literal::unit())), q + 1))
    } else if es.len() == 1 {
        let ghost ev = es@;
        match es.pop() {
            Some(e) => {
                assert(e == ev[0]);
                Some((LocExpr(l, e.1), q + 1))
            },
            None => None,
        }
    } else {
        proof { lemma_loc_exprs_sv(es@); }
        Some((LocExpr(l, Expr::TupleExpr(es)), q + 1))
    }
}

/// Expressions separated by commas.
fn parse_exprs(toks: &[LocToken], p: usize, f: u64) -> (r: Option<(Vec<LocExpr>, usize)>)
    requires
        p <= toks@.len(),
    ensures
        same_list(r, exprs(tv(toks@), p as int, f as nat), toks@.len()),
    decreases f, 5nat,
{
    match parse_expr(toks, p, f) {
        Some((e, q)) => match parse_comma_exprs(toks, q, f) {
            Some((mut es, r)) => {
                proof { lemma_cons(e, es@); }
                es.insert(0, e);
                Some((es, r))
            },
            None => None,
        },
        None => None,
    }
}

/// Any number of `, expression`.
fn parse_comma_exprs(toks: &[LocToken], p: usize, f: u64) -> (r: Option<(Vec<LocExpr>, usize)>)
    requires
        p <= toks@.len(),
    ensures
        same_list(r, comma_exprs(tv(toks@), p as int, f as nat), toks@.len()),
    decreases f, 4nat,
{
    if f == 0 {
        return None;
    }
    if let Some(Token::Comma) = at(toks, p) {
        if let Some((e, q)) = parse_expr(toks, p + 1, f - 1) {
            return match parse_comma_exprs(toks, q, f - 1) {
                Some((mut es, r)) => {
                    proof { lemma_cons(e, es@); }
                    es.insert(0, e);
                    Some((es, r))
                },
                None => None,
            };
        }
    }
    let v: Vec<LocExpr> = Vec::new();
    assert(v@.map_values(|x: LocExpr| x@) =~= Seq::<LocExprSV>::empty());
    Some((v, p))
}

/// `[e, ...]`.
fn parse_list_expr(toks: &[LocToken], p: usize, f: u64) -> (r: Option<(LocExpr, usize)>)
    requires
        p <= toks@.len(),
    ensures
        same_res(r, list_expr(tv(toks@), p as int, f as nat), toks@.len()),
    decreases f, 6nat,
{
    if let Some(Token::LBracket) = at(toks, p) {
    } else {
        return None;
    }
    let (es, q) = match parse_exprs(toks, p + 1, f) {
        Some((es, q)) => (es, q),
        None => {
            let v: Vec<LocExpr> = Vec::new();
            assert(v@.map_values(|x: LocExpr| x@) =~= Seq::<LocExprSV>::empty());
            (v, p + 1)
        },
    };
    if let Some(Token::RBracket) = at(toks, q) {
        proof { lemma_loc_exprs_sv(es@); }
        Some((LocExpr(loc_at(toks, p), Expr::ListExpr(es)), q + 1))
    } else {
        None
    }
}

/// The condition of an `if`.
enum Cond {
    Matches(Vec<(LocExpr, Pattern)>),
    SomeMatch(LocIdent, LocExpr),
    Expr(LocExpr),
}

impl View for Cond {
    type V = CondSV;

    closed spec fn view(&self) -> CondSV {
        match self {
            Cond::Matches(v) => CondSV::Matches(v@.map_values(|x: (LocExpr, Pattern)| x@)),
            Cond::SomeMatch(i, e) => CondSV::SomeMatch(i@, e@),
            Cond::Expr(e) => CondSV::Expr(e@),
        }
    }
}

/// `if condition block [else ...]`.
#[verifier::spinoff_prover]
#[verifier::rlimit(40)]
fn parse_if_expr(toks: &[LocToken], p: usize, f: u64) -> (r: Option<(LocExpr, usize)>)
    requires
        p <= toks@.len(),
    ensures
        same_res(r, if_expr(tv(toks@), p as int, f as nat), toks@.len()),
    decreases f, 7nat,
{
    if f == 0 {
        return None;
    }
    if let Some(Token::If) = at(toks, p) {
    } else {
        return None;
    }
    let g = f - 1;
    let c: Option<(Cond, usize)> = if let Some((ms, q)) = parse_match_exprs(toks, p + 1, g) {
        Some((Cond::Matches(ms), q))
    } else if let Some((v, e, q)) = parse_some_match(toks, p + 1, g) {
        Some((Cond::SomeMatch(v, e), q))
    } else if let Some((e, q)) = parse_expr(toks, p + 1, g) {
        Some((Cond::Expr(e), q))
    } else {
        None
    };
    let (c, q) = match c {
        Some(x) => x,
        None => return None,
    };
    let (consequence, r) = match parse_block_stmt(toks, q, g) {
        Some(x) => x,
        None => return None,
    };
    let (alternative, s) = match parse_else_expr(toks, r, g) {
        Some((b, s)) => (Some(b), s),
        None => (None, r),
    };
    let e = match c {
        Cond::Expr(cond) => Expr::IfExpr { cond: Box::new(cond), consequence, alternative },
        Cond::Matches(matches) => {
            proof {
                lemma_match_arms_sv(matches@);
                assert(matches@.map_values(|a: (LocExpr, Pattern)| (a.0@, a.1@)) =~= matches@.map_values(|x: (LocExpr, Pattern)| x@));
            }
            Expr::IfMatchExpr { matches, consequence, alternative }
        },
        Cond::SomeMatch(var, ex) => Expr::IfSomeMatchExpr { var, expr: Box::new(ex), consequence, alternative },
    };
    Some((LocExpr(loc_at(toks, p), e), s))
}

/// `else block` or `else if ...`.
fn parse_else_expr(toks: &[LocToken], p: usize, f: u64) -> (r: Option<(BlockStmt, usize)>)
    requires
        p <= toks@.len(),
    ensures
        same_res(r, else_expr(tv(toks@), p as int, f as nat), toks@.len()),
    decreases f, 8nat,
{
    if let Some(Token::Else) = at(toks, p) {
    } else {
        return None;
    }
    if let Some(x) = parse_block_stmt(toks, p + 1, f) {
        return Some(x);
    }
    match parse_if_expr(toks, p + 1, f) {
        Some((e, q)) => Some((block_of_exec(e), q)),
        None => None,
    }
}

/// `let Some(x) = e`.
fn parse_some_match(toks: &[LocToken], p: usize, f: u64) -> (r: Option<(LocIdent, LocExpr, usize)>)
    requires
        p <= toks@.len(),
    ensures
        match r {
            Some((i, e, q)) => some_match(tv(toks@), p as int, f as nat) == Some((i@, e@, q as int)) && q <= toks@.len(),
            None => some_match(tv(toks@), p as int, f as nat) is None,
        },
    decreases f, 4nat,
{
    if let Some(Token::Let) = at(toks, p) {
        if let Some(Token::SomeKeyword) = at(toks, p + 1) {
            if let Some(Token::LParen) = at(toks, p + 2) {
                if let Some((id, _)) = parse_ident(toks, p + 3) {
                    if let Some(Token::RParen) = at(toks, p + 4) {
                        if let Some(Token::Assign) = at(toks, p + 5) {
                            return match parse_expr(toks, p + 6, f) {
                                Some((e, q)) => Some((id, e, q)),
                                None => None,
                            };
                        }
                    }
                }
            }
        }
    }
    None
}

/// `e matches pattern`.
fn parse_match_expr(toks: &[LocToken], p: usize, f: u64) -> (r: Option<((LocExpr, Pattern), usize)>)
    requires
        p <= toks@.len(),
    ensures
        same_res(r, match_expr(tv(toks@), p as int, f as nat), toks@.len()),
    decreases f, 4nat,
{
    match parse_expr(toks, p, f) {
        Some((e, q)) => if let Some(Token::Matches) = at(toks, q) {
            match parse_pattern(toks, q + 1, f) {
                Some((pt, r)) => Some(((e, pt), r)),
                None => None,
            }
        } else {
            None
        },
        None => None,
    }
}

/// Matches joined by `&&`.
fn parse_match_exprs(toks: &[LocToken], p: usize, f: u64) -> (r: Option<(Vec<(LocExpr, Pattern)>, usize)>)
    requires
        p <= toks@.len(),
    ensures
        same_list(r, match_exprs(tv(toks@), p as int, f as nat), toks@.len()),
    decreases f, 6nat,
{
    match parse_match_expr(toks, p, f) {
        Some((m, q)) => match parse_and_match_exprs(toks, q, f) {
            Some((mut ms, r)) => {
                proof { lemma_cons(m, ms@); }
                ms.insert(0, m);
                Some((ms, r))
            },
            None => None,
        },
        None => None,
    }
}

/// Any number of `&& e matches pattern`.
fn parse_and_match_exprs(toks: &[LocToken], p: usize, f: u64) -> (r: Option<(Vec<(LocExpr, Pattern)>, usize)>)
    requires
        p <= toks@.len(),
    ensures
        same_list(r, and_matches(tv(toks@), p as int, f as nat), toks@.len()),
    decreases f, 5nat,
{
    if f == 0 {
        return None;
    }
    if let Some(Token::And) = at(toks, p) {
        if let Some((m, q)) = parse_match_expr(toks, p + 1, f - 1) {
            return match parse_and_match_exprs(toks, q, f - 1) {
                Some((mut ms, r)) => {
                    proof { lemma_cons(m, ms@); }
                    ms.insert(0, m);
                    Some((ms, r))
                },
                None => None,
            };
        }
    }
    let v: Vec<(LocExpr, Pattern)> = Vec::new();
    assert(v@.map_values(|x: (LocExpr, Pattern)| x@) =~= Seq::<(LocExprSV, PatternSV)>::empty());
    Some((v, p))
}

/// The iterator that a keyword starts (not `fold`).
fn iter_keyword_exec(k: &Token) -> (r: Option<Iter>)
    ensures
        r == iter_keyword(k@),
{
    match k {
        Token::All => Some(Iter::All),
        Token::Any => Some(Iter::Any),
        Token::Filter => Some(Iter::Filter),
        Token::FilterMap => Some(Iter::FilterMap),
        Token::ForEach => Some(Iter::ForEach),
        Token::MapEach => Some(Iter::MapEach),
        _ => None,
    }
}

/// `all|any|filter|filter_map|foreach|map vars in e block`.
fn parse_iter_expr(toks: &[LocToken], p: usize, f: u64) -> (r: Option<(LocExpr, usize)>)
    requires
        p <= toks@.len(),
    ensures
        same_res(r, iter_expr(tv(toks@), p as int, f as nat), toks@.len()),
    decreases f, 7nat,
{
    let op = match at(toks, p) {
        Some(k) => match iter_keyword_exec(k) {
            Some(op) => op,
            None => return None,
        },
        None => return None,
    };
    let (ids, q) = match parse_idents(toks, p + 1) {
        Some(x) => x,
        None => return None,
    };
    if let Some(Token::In) = at(toks, q) {
    } else {
        return None;
    }
    let (e, r) = match parse_expr(toks, q + 1, f) {
        Some(x) => x,
        None => return None,
    };
    match parse_block_stmt(toks, r, f) {
        Some((b, s)) => {
            assert(ids@.map_values(|x: LocIdent| x@) =~= loc_idents_sv(ids@));
            Some((LocExpr(loc_at(toks, p), Expr::IterExpr { op, idents: ids, expr: Box::new(e), body: b, accumulator: None }), s))
        },
        None => None,
    }
}

/// `fold vars in e block where acc = e`.
#[verifier::spinoff_prover]
#[verifier::rlimit(40)]
fn parse_iter_acc_expr(toks: &[LocToken], p: usize, f: u64) -> (r: Option<(LocExpr, usize)>)
    requires
        p <= toks@.len(),
    ensures
        same_res(r, iter_acc_expr(tv(toks@), p as int, f as nat), toks@.len()),
    decreases f, 7nat,
{
    if let Some(Token::Fold) = at(toks, p) {
    } else {
        return None;
    }
    let (ids, q) = match parse_idents(toks, p + 1) {
        Some(x) => x,
        None => return None,
    };
    if let Some(Token::In) = at(toks, q) {
    } else {
        return None;
    }
    let (e, r) = match parse_expr(toks, q + 1, f) {
        Some(x) => x,
        None => return None,
    };
    let (b, s) = match parse_block_stmt(toks, r, f) {
        Some(x) => x,
        None => return None,
    };
    if let Some(Token::Where) = at(toks, s) {
    } else {
        return None;
    }
    let (acc, _) = match parse_ident(toks, s + 1) {
        Some(x) => x,
        None => return None,
    };
    if let Some(Token::Assign) = at(toks, s + 2) {
    } else {
        return None;
    }
    match parse_expr(toks, s + 3, f) {
        Some((a, u)) => {
            assert(ids@.map_values(|x: LocIdent| x@) =~= loc_idents_sv(ids@));
            Some((LocExpr(loc_at(toks, p), Expr::IterExpr {
                op: Iter::Fold,
                idents: ids,
                expr: Box::new(e),
                body: b,
                accumulator: Some((acc, Box::new(a))),
            }), u))
        },
        None => None,
    }
}

/// `all [..]` or `any [..]`.
fn parse_all_any_expr(toks: &[LocToken], p: usize, f: u64) -> (r: Option<(LocExpr, usize)>)
    requires
        p <= toks@.len(),
    ensures
        same_res(r, all_any_expr(tv(toks@), p as int, f as nat), toks@.len()),
    decreases f, 7nat,
{
    let op = match at(toks, p) {
        Some(Token::All) => Iter::All,
        Some(Token::Any) => Iter::Any,
        _ => return None,
    };
    match parse_list_expr(toks, p + 1, f) {
        Some((e, q)) => {
            let mut ids: Vec<LocIdent> = Vec::new();
            ids.push(LocIdent(Loc(0, 0), Ident::from_str("x")));
            assert(loc_idents_sv(ids@) =~= seq![(Loc(0, 0), "x"@)]);
            let body = block_of_exec(LocExpr(Loc(0, 0), Expr::IdentExpr(Ident::from_str("x"))));
            Some((LocExpr(loc_at(toks, p), Expr::IterExpr { op, idents: ids, expr: Box::new(e), body, accumulator: None }), q))
        },
        None => None,
    }
}

// ----------------------------------------------------------- statements

/// `[async] { statements }`.
#[verifier::spinoff_prover]
#[verifier::rlimit(40)]
pub fn parse_block_stmt(toks: &[LocToken], p: usize, f: u64) -> (r: Option<(BlockStmt, usize)>)
    requires
        p <= toks@.len(),
    ensures
        same_res(r, block(tv(toks@), p as int, f as nat), toks@.len()),
    decreases f, 2nat,
{
    if f == 0 {
        return None;
    }
    let (a, p1) = if let Some(Token::Async) = at(toks, p) { (true, p + 1) } else { (false, p) };
    if let Some(Token::LBrace) = at(toks, p1) {
    } else {
        return None;
    }
    match parse_stmts(toks, p1 + 1, f - 1) {
        Some((ss, q)) => if let Some(Token::RBrace) = at(toks, q) {
            proof { lemma_loc_stmts_sv(ss@); }
            Some((BlockStmt { statements: ss, async_tag: a }, q + 1))
        } else {
            None
        },
        None => None,
    }
}

/// Any number of statements.
fn parse_stmts(toks: &[LocToken], p: usize, f: u64) -> (r: Option<(Vec<LocStmt>, usize)>)
    requires
        p <= toks@.len(),
    ensures
        same_list(r, stmts(tv(toks@), p as int, f as nat), toks@.len()),
    decreases f, 1nat,
{
    if f == 0 {
        return None;
    }
    match parse_stmt(toks, p, f - 1) {
        Some((s, q)) => match parse_stmts(toks, q, f - 1) {
            Some((mut ss, r)) => {
                proof { lemma_cons(s, ss@); }
                ss.insert(0, s);
                Some((ss, r))
            },
            None => None,
        },
        None => {
            let v: Vec<LocStmt> = Vec::new();
            assert(v@.map_values(|x: LocStmt| x@) =~= Seq::<LocStmtSV>::empty());
            Some((v, p))
        },
    }
}

/// `let vars = e;`.
fn parse_let_stmt(toks: &[LocToken], p: usize, f: u64) -> (r: Option<(LocStmt, usize)>)
    requires
        p <= toks@.len(),
    ensures
        same_res(r, let_stmt(tv(toks@), p as int, f as nat), toks@.len()),
    decreases f, 4nat,
{
    if let Some(Token::Let) = at(toks, p) {
        if let Some((ids, q)) = parse_idents(toks, p + 1) {
            if let Some(Token::Assign) = at(toks, q) {
                if let Some((e, r)) = parse_expr(toks, q + 1, f) {
                    if let Some(Token::SemiColon) = at(toks, r) {
                        assert(ids@.map_values(|x: LocIdent| x@) =~= loc_idents_sv(ids@));
                        return Some((LocStmt(loc_at(toks, p), Stmt::LetStmt(ids, e)), r + 1));
                    }
                }
            }
        }
    }
    None
}

/// `return e`.
fn parse_return_stmt(toks: &[LocToken], p: usize, f: u64) -> (r: Option<(LocStmt, usize)>)
    requires
        p <= toks@.len(),
    ensures
        same_res(r, return_stmt(tv(toks@), p as int, f as nat), toks@.len()),
    decreases f, 4nat,
{
    if let Some(Token::Return) = at(toks, p) {
        if let Some((e, q)) = parse_expr(toks, p + 1, f) {
            return Some((LocStmt(loc_at(toks, p), Stmt::ReturnStmt(e)), q));
        }
    }
    None
}

/// `[async] e [;]`.
#[verifier::spinoff_prover]
#[verifier::rlimit(40)]
fn parse_expr_stmt(toks: &[LocToken], p: usize, f: u64) -> (r: Option<(LocStmt, usize)>)
    requires
        p <= toks@.len(),
    ensures
        same_res(r, expr_stmt(tv(toks@), p as int, f as nat), toks@.len()),
    decreases f, 4nat,
{
    let ghost t = tv(toks@);
    let a = if let Some(Token::Async) = at(toks, p) { true } else { false };
    let p1 = if a { p + 1 } else { p };
    assert(is_tok(t, p as int, crate::lexer::TokenV::Async) == a);
    match parse_expr(toks, p1, f) {
        Some((e, q)) => {
            let ghost ev = e@;
            assert(expr(t, p1 as int, f as nat) == Some((ev, q as int)));
            let semi = if let Some(Token::SemiColon) = at(toks, q) { true } else { false };
            let r = if semi { q + 1 } else { q };
            let LocExpr(l, x) = e;
            assert(l == ev.0 && x@ == ev.1);
            let st = LocStmt(l, Stmt::ExprStmt { exp: x, async_tag: a, semi });
            assert(st@ == LocStmtSV(ev.0, crate::parser::StmtSV::ExprStmt { exp: ev.1, async_tag: a, semi }));
            Some((st, r))
        },
        None => None,
    }
}

/// A statement.
fn parse_stmt(toks: &[LocToken], p: usize, f: u64) -> (r: Option<(LocStmt, usize)>)
    requires
        p <= toks@.len(),
    ensures
        same_res(r, stmt(tv(toks@), p as int, f as nat), toks@.len()),
    decreases f, 0nat,
{
    if f == 0 {
        return None;
    }
    let g = f - 1;
    if let Some(x) = parse_let_stmt(toks, p, g) {
        return Some(x);
    }
    if let Some(x) = parse_return_stmt(toks, p, g) {
        return Some(x);
    }
    parse_expr_stmt(toks, p, g)
}

// ------------------------------------------------------------- programs

/// `name: type`.
fn parse_param(toks: &[LocToken], p: usize, f: u64) -> (r: Option<(Param, usize)>)
    requires
        p <= toks@.len(),
    ensures
        match r {
            Some((x, q)) => param(tv(toks@), p as int, f as nat) == Some(((x.name@, x.typ@), q as int)) && q <= toks@.len(),
            None => param(tv(toks@), p as int, f as nat) is None,
        },
{
    match parse_ident(toks, p) {
        Some((name, q)) => if let Some(Token::Colon) = at(toks, q) {
            match parse_type(toks, q + 1, f) {
                Some((typ, r)) => Some((Param { name, typ }, r)),
                None => None,
            }
        } else {
            None
        },
        None => None,
    }
}

/// Any number of `, name: type`.
fn parse_comma_params(toks: &[LocToken], p: usize, f: u64) -> (r: Option<(Vec<Param>, usize)>)
    requires
        p <= toks@.len(),
    ensures
        match r {
            Some((v, q)) => comma_params(tv(toks@), p as int, f as nat) == Some((params_sv(v@), q as int)) && q <= toks@.len(),
            None => comma_params(tv(toks@), p as int, f as nat) is None,
        },
    decreases f,
{
    if f == 0 {
        return None;
    }
    if let Some(Token::Comma) = at(toks, p) {
        if let Some((x, q)) = parse_param(toks, p + 1, f - 1) {
            return match parse_comma_params(toks, q, f - 1) {
                Some((mut xs, r)) => {
                    let ghost old_xs = xs@;
                    xs.insert(0, x);
                    assert(params_sv(xs@) =~= seq![(x.name@, x.typ@)] + params_sv(old_xs));
                    Some((xs, r))
                },
                None => None,
            };
        }
    }
    let v: Vec<Param> = Vec::new();
    assert(params_sv(v@) =~= Seq::<((Loc, Seq<char>), TypSV)>::empty());
    Some((v, p))
}

/// Parameters separated by commas.
fn parse_params(toks: &[LocToken], p: usize, f: u64) -> (r: Option<(Vec<Param>, usize)>)
    requires
        p <= toks@.len(),
    ensures
        match r {
            Some((v, q)) => params(tv(toks@), p as int, f as nat) == Some((params_sv(v@), q as int)) && q <= toks@.len(),
            None => params(tv(toks@), p as int, f as nat) is None,
        },
{
    match parse_param(toks, p, f) {
        Some((x, q)) => match parse_comma_params(toks, q, f) {
            Some((mut xs, r)) => {
                let ghost old_xs = xs@;
                let ghost xv = (x.name@, x.typ@);
                xs.insert(0, x);
                assert(params_sv(xs@) =~= seq![xv] + params_sv(old_xs));
                Some((xs, r))
            },
            None => None,
        },
        None => None,
    }
}

/// An optional `-> type`.
fn parse_arrow_typ(toks: &[LocToken], p: usize, f: u64) -> (r: (Option<Typ>, usize))
    requires
        p <= toks@.len(),
    ensures
        arrow_typ(tv(toks@), p as int, f as nat) == (opt_typ_sv(r.0), r.1 as int),
        r.1 <= toks@.len(),
{
    if let Some(Token::Arrow) = at(toks, p) {
        if let Some((x, q)) = parse_type(toks, p + 1, f) {
            return (Some(x), q);
        }
    }
    (None, p)
}

/// `fn name(params) [-> type]`.
pub fn parse_fn_head(toks: &[LocToken], p: usize, f: u64) -> (r: Option<(FnHead, usize)>)
    requires
        p <= toks@.len(),
    ensures
        same_res(r, fn_head(tv(toks@), p as int, f as nat), toks@.len()),
{
    if let Some(Token::Function) = at(toks, p) {
    } else {
        return None;
    }
    let id = match parse_ident(toks, p + 1) {
        Some((id, _)) => id,
        None => return None,
    };
    if let Some(Token::LParen) = at(toks, p + 2) {
    } else {
        return None;
    }
    let (params, q) = match parse_params(toks, p + 3, f) {
        Some(x) => x,
        None => {
            let v: Vec<Param> = Vec::new();
            assert(params_sv(v@) =~= Seq::<((Loc, Seq<char>), TypSV)>::empty());
            (v, p + 3)
        },
    };
    if let Some(Token::RParen) = at(toks, q) {
        let (typ, r) = parse_arrow_typ(toks, q + 1, f);
        Some((FnHead { id, params, typ }, r))
    } else {
        None
    }
}

/// A header of an external function.
fn parse_head(toks: &[LocToken], p: usize, f: u64) -> (r: Option<(Head, usize)>)
    requires
        p <= toks@.len(),
    ensures
        same_res(r, head(tv(toks@), p as int, f as nat), toks@.len()),
{
    if let Some(Token::Function) = at(toks, p) {
    } else {
        return None;
    }
    let id = match parse_ident(toks, p + 1) {
        Some((id, _)) => id,
        None => return None,
    };
    if let Some(Token::LParen) = at(toks, p + 2) {
    } else {
        return None;
    }
    let (typs, q) = if let Some(Token::Underscore) = at(toks, p + 3) {
        (None, p + 4)
    } else {
        match parse_types(toks, p + 3, f) {
            Some((ts, q)) => (Some(ts), q),
            None => {
                let v: Vec<Typ> = Vec::new();
                assert(v@.map_values(|t: Typ| t@) =~= Seq::<TypSV>::empty());
                (Some(v), p + 3)
            },
        }
    };
    if let Some(Token::RParen) = at(toks, q) {
        let (typ, r) = parse_arrow_typ(toks, q + 1, f);
        Some((Head { id, typs, typ }, r))
    } else {
        None
    }
}

/// Any number of external headers.
fn parse_heads(toks: &[LocToken], p: usize, f: u64) -> (r: Option<(Vec<Head>, usize)>)
    requires
        p <= toks@.len(),
    ensures
        same_list(r, heads(tv(toks@), p as int, f as nat), toks@.len()),
    decreases f,
{
    if f == 0 {
        return None;
    }
    match parse_head(toks, p, f - 1) {
        Some((h, q)) => match parse_heads(toks, q, f - 1) {
            Some((mut hs, r)) => {
                proof { lemma_cons(h, hs@); }
                hs.insert(0, h);
                Some((hs, r))
            },
            None => None,
        },
        None => {
            let v: Vec<Head> = Vec::new();
            assert(v@.map_values(|x: Head| x@) =~= Seq::<HeadSV>::empty());
            Some((v, p))
        },
    }
}

/// `external name @ "url" { headers }`.
pub fn parse_external(toks: &[LocToken], p: usize, f: u64) -> (r: Option<(External, usize)>)
    requires
        p <= toks@.len(),
    ensures
        same_res(r, external(tv(toks@), p as int, f as nat), toks@.len()),
{
    if let Some(Token::External) = at(toks, p) {
    } else {
        return None;
    }
    let name = match parse_ident(toks, p + 1) {
        Some((id, _)) => id,
        None => return None,
    };
    if let Some(Token::At) = at(toks, p + 2) {
    } else {
        return None;
    }
    let url = match at(toks, p + 3) {
        Some(Token::StringLiteral(u)) => LocIdent(loc_at(toks, p + 3), Ident(u.clone())),
        _ => return None,
    };
    if let Some(Token::LBrace) = at(toks, p + 4) {
    } else {
        return None;
    }
    match parse_heads(toks, p + 5, f) {
        Some((headers, q)) => if let Some(Token::RBrace) = at(toks, q) {
            Some((External { name, url, headers }, q + 1))
        } else {
            None
        },
        None => None,
    }
}

/// A function: header and body.
fn parse_fn_expr(toks: &[LocToken], p: usize, f: u64) -> (r: Option<(FnDecl, usize)>)
    requires
        p <= toks@.len(),
    ensures
        same_res(r, fn_decl(tv(toks@), p as int, f as nat), toks@.len()),
{
    match parse_fn_head(toks, p, f) {
        Some((head, q)) => match parse_block_stmt(toks, q, f) {
            Some((body, r)) => Some((FnDecl { head, body }, r)),
            None => None,
        },
        None => None,
    }
}

/// A function or an external.
fn parse_decl(toks: &[LocToken], p: usize, f: u64) -> (r: Option<(Decl, usize)>)
    requires
        p <= toks@.len(),
    ensures
        same_res(r, decl(tv(toks@), p as int, f as nat), toks@.len()),
{
    match parse_fn_expr(toks, p, f) {
        Some((d, q)) => Some((Decl::FnDecl(d), q)),
        None => match parse_external(toks, p, f) {
            Some((e, q)) => Some((Decl::External(e), q)),
            None => None,
        },
    }
}

/// Any number of declarations.
fn parse_decls(toks: &[LocToken], p: usize, f: u64) -> (r: Option<(Vec<Decl>, usize)>)
    requires
        p <= toks@.len(),
    ensures
        same_list(r, decls(tv(toks@), p as int, f as nat), toks@.len()),
    decreases f,
{
    if f == 0 {
        return None;
    }
    match parse_decl(toks, p, f - 1) {
        Some((d, q)) => match parse_decls(toks, q, f - 1) {
            Some((mut ds, r)) => {
                proof { lemma_cons(d, ds@); }
                ds.insert(0, d);
                Some((ds, r))
            },
            None => None,
        },
        None => {
            let v: Vec<Decl> = Vec::new();
            assert(v@.map_values(|x: Decl| x@) =~= Seq::<DeclSV>::empty());
            Some((v, p))
        },
    }
}

/// The fuel bound of the parser.
pub const PARSE_FUEL: u64 = 0xffff_ffff_ffff_ffff;

/// A program: declarations up to the end of the text; `None` on a syntax
/// error.
pub fn parse_program(toks: &[LocToken]) -> (r: Option<Vec<Decl>>)
    ensures
        match r {
            Some(v) => program_spec(tv(toks@)) == Some(v@.map_values(|d: Decl| d@)),
            None => program_spec(tv(toks@)) is None,
        },
{
    match parse_decls(toks, 0, PARSE_FUEL) {
        Some((ds, q)) => if let Some(Token::EOF) = at(toks, q) {
            Some(ds)
        } else {
            None
        },
        None => None,
    }
}

/// An expression up to the end of the text; `None` on a syntax error.
pub fn parse_expr_eof(toks: &[LocToken]) -> (r: Option<LocExpr>)
    ensures
        match r {
            Some(e) => expr_eof_spec(tv(toks@)) == Some(e@),
            None => expr_eof_spec(tv(toks@)) is None,
        },
{
    match parse_expr(toks, 0, PARSE_FUEL) {
        Some((e, q)) => if let Some(Token::EOF) = at(toks, q) {
            Some(e)
        } else {
            None
        },
        None => None,
    }
}

/// A block up to the end of the text; `None` on a syntax error.
pub fn parse_block_stmt_eof(toks: &[LocToken]) -> (r: Option<BlockStmt>)
    ensures
        match r {
            Some(b) => block_eof_spec(tv(toks@)) == Some(b@),
            None => block_eof_spec(tv(toks@)) is None,
        },
{
    match parse_block_stmt(toks, 0, PARSE_FUEL) {
        Some((b, q)) => if let Some(Token::EOF) = at(toks, q) {
            Some(b)
        } else {
            None
        },
        None => None,
    }
}

} // verus!
