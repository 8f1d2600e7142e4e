//! The grammar of the policy language: programs, function headers, types,
//! statements, expressions (operators by precedence) and text patterns,
//! read from the lexer's tokens.
//!
//! Each rule is a spec function from the tokens, a position and a fuel
//! bound to what it reads and where it stops (`None`: the rule does not
//! apply there). Alternatives are tried in order and the first that
//! applies is taken; repetitions read as many items as apply.

use vstd::prelude::*;
use crate::lexer::{Loc, LocTokV, TokenV};
use crate::labels::NodeV;
use crate::literals::{LitV, FlatLitV};
use crate::parser::{
    Assoc, Infix, Iter, Prefix, Precedence, PatV, As, TypSV, ExprSV, LocExprSV, StmtSV, LocStmtSV, BlockSV,
    PatternSV, has_as_v, pat_valid, anchored_regex, FnHeadSV, HeadSV, ExternalSV, FnDeclSV, DeclSV,
};
use crate::regexes::regex_compiles;
use crate::text::int_decimal;

verus! {

/// An identifier with its place.
pub type IdSV = (Loc, Seq<char>);

/// The token at a position.
pub open spec fn tok(t: Seq<LocTokV>, p: int) -> Option<TokenV> {
    if 0 <= p < t.len() { Some(t[p].tok) } else { None }
}

/// Whether the token at a position is `k`.
pub open spec fn is_tok(t: Seq<LocTokV>, p: int, k: TokenV) -> bool {
    tok(t, p) == Some(k)
}

/// The place of the token at a position.
pub open spec fn loc_of(t: Seq<LocTokV>, p: int) -> Loc {
    Loc(t[p].line as u32, t[p].column as usize)
}

/// The rank of a precedence, weakest first.
pub open spec fn prec_rank(p: Precedence) -> int {
    match p {
        Precedence::PLowest => 0,
        Precedence::POr => 1,
        Precedence::PAnd => 2,
        Precedence::PEquals => 3,
        Precedence::PLessGreater => 4,
        Precedence::PIn => 5,
        Precedence::PSum => 6,
        Precedence::PProduct => 7,
        Precedence::PDot => 8,
        Precedence::PCall => 9,
        Precedence::PModule => 10,
    }
}

/// The precedence of a token in operator position, and the operator it
/// stands for with its associativity.
pub open spec fn infix_op(k: TokenV) -> (Precedence, Option<(Assoc, Infix)>) {
    match k {
        TokenV::Equal => (Precedence::PEquals, Some((Assoc::Right, Infix::Equal))),
        TokenV::NotEqual => (Precedence::PEquals, Some((Assoc::Right, Infix::NotEqual))),
        TokenV::LessThanEqual => (Precedence::PLessGreater, Some((Assoc::Right, Infix::LessThanEqual))),
        TokenV::GreaterThanEqual => (Precedence::PLessGreater, Some((Assoc::Right, Infix::GreaterThanEqual))),
        TokenV::LessThan => (Precedence::PLessGreater, Some((Assoc::Right, Infix::LessThan))),
        TokenV::GreaterThan => (Precedence::PLessGreater, Some((Assoc::Right, Infix::GreaterThan))),
        TokenV::Or => (Precedence::POr, Some((Assoc::Right, Infix::Or))),
        TokenV::And => (Precedence::PAnd, Some((Assoc::Right, Infix::And))),
        TokenV::Plus => (Precedence::PSum, Some((Assoc::Left, Infix::Plus))),
        TokenV::Minus => (Precedence::PSum, Some((Assoc::Left, Infix::Minus))),
        TokenV::At => (Precedence::PSum, Some((Assoc::Right, Infix::Concat))),
        TokenV::PlusPlus => (Precedence::PSum, Some((Assoc::Right, Infix::ConcatStr))),
        TokenV::Multiply => (Precedence::PProduct, Some((Assoc::Left, Infix::Multiply))),
        TokenV::Divide => (Precedence::PProduct, Some((Assoc::Left, Infix::Divide))),
        TokenV::Percent => (Precedence::PProduct, Some((Assoc::Left, Infix::Remainder))),
        TokenV::In => (Precedence::PIn, Some((Assoc::Left, Infix::In))),
        TokenV::Dot => (Precedence::PDot, None),
        TokenV::LParen => (Precedence::PCall, None),
        TokenV::ColonColon => (Precedence::PModule, Some((Assoc::Right, Infix::Module))),
        _ => (Precedence::PLowest, None),
    }
}

/// An identifier.
pub open spec fn ident_at(t: Seq<LocTokV>, p: int) -> Option<(IdSV, int)> {
    match tok(t, p) {
        Some(TokenV::Ident(n)) => Some(((loc_of(t, p), n), p + 1)),
        _ => None,
    }
}

/// An identifier or `_`.
pub open spec fn tuple_ident(t: Seq<LocTokV>, p: int) -> Option<(IdSV, int)> {
    if is_tok(t, p, TokenV::Underscore) {
        Some(((loc_of(t, p), "_"@), p + 1))
    } else {
        ident_at(t, p)
    }
}

/// Any number of `, x`.
pub open spec fn comma_tuple_idents(t: Seq<LocTokV>, p: int) -> (Seq<IdSV>, int)
    decreases t.len() - p,
{
    if 0 <= p && is_tok(t, p, TokenV::Comma) && tuple_ident(t, p + 1) is Some {
        let (i, q) = tuple_ident(t, p + 1)->Some_0;
        let (is, r) = comma_tuple_idents(t, q);
        (seq![i] + is, r)
    } else {
        (Seq::empty(), p)
    }
}

/// The variables that `let` and the iterators bind: `(x, _, y)`, `x` or
/// `_`.
pub open spec fn idents(t: Seq<LocTokV>, p: int) -> Option<(Seq<IdSV>, int)> {
    let tuple = if is_tok(t, p, TokenV::LParen) && tuple_ident(t, p + 1) is Some {
        let (i, q) = tuple_ident(t, p + 1)->Some_0;
        let (is, r) = comma_tuple_idents(t, q);
        if is.len() > 0 && is_tok(t, r, TokenV::RParen) { Some((seq![i] + is, r + 1)) } else { None }
    } else {
        None
    };
    if tuple is Some {
        tuple
    } else if ident_at(t, p) is Some {
        let (i, q) = ident_at(t, p)->Some_0;
        Some((seq![i], q))
    } else if is_tok(t, p, TokenV::Underscore) {
        Some((seq![(Loc(0, 0), "_"@)], p + 1))
    } else {
        None
    }
}

// ---------------------------------------------------------------- types

/// A written type: `name`, `name<type>` or `(type, ...)`.
pub open spec fn ty(t: Seq<LocTokV>, p: int, f: nat) -> Option<(TypSV, int)>
    decreases f, 0nat,
{
    if f == 0 {
        None
    } else if ident_at(t, p) is Some {
        let (id, q) = ident_at(t, p)->Some_0;
        let inner = if is_tok(t, q, TokenV::LessThan) { ty(t, q + 1, (f - 1) as nat) } else { None };
        match inner {
            Some((x, r)) if is_tok(t, r, TokenV::GreaterThan) => Some((TypSV::Cons(id, Box::new(x)), r + 1)),
            _ => Some((TypSV::Atom(id), q)),
        }
    } else if is_tok(t, p, TokenV::LParen) {
        let (ts, q) = match types(t, p + 1, (f - 1) as nat) {
            Some((ts, q)) => (ts, q),
            None => (Seq::empty(), p + 1),
        };
        if is_tok(t, q, TokenV::RParen) { Some((TypSV::Tuple(ts), q + 1)) } else { None }
    } else {
        None
    }
}

/// Types separated by commas.
pub open spec fn types(t: Seq<LocTokV>, p: int, f: nat) -> Option<(Seq<TypSV>, int)>
    decreases f, 1nat,
{
    if f == 0 {
        None
    } else {
        match ty(t, p, (f - 1) as nat) {
            Some((x, q)) => match comma_types(t, q, (f - 1) as nat) {
                Some((xs, r)) => Some((seq![x] + xs, r)),
                None => None,
            },
            None => None,
        }
    }
}

/// Any number of `, type`.
pub open spec fn comma_types(t: Seq<LocTokV>, p: int, f: nat) -> Option<(Seq<TypSV>, int)>
    decreases f, 0nat,
{
    if f == 0 {
        None
    } else if is_tok(t, p, TokenV::Comma) && ty(t, p + 1, (f - 1) as nat) is Some {
        let (x, q) = ty(t, p + 1, (f - 1) as nat)->Some_0;
        match comma_types(t, q, (f - 1) as nat) {
            Some((xs, r)) => Some((seq![x] + xs, r)),
            None => None,
        }
    } else {
        Some((Seq::empty(), p))
    }
}

// ------------------------------------------------------------- patterns

/// The character classes that patterns know.
pub open spec fn is_class(s: Seq<char>) -> bool {
    s == "alpha"@ || s == "alphanum"@ || s == "base64"@ || s == "digit"@ || s == "hex_digit"@ || s == "s"@
}

/// How a named part is read: `i64`, `base64` or `str`.
pub open spec fn pat_typ(t: Seq<LocTokV>, p: int) -> Option<As> {
    match tok(t, p) {
        Some(TokenV::Ident(s)) => if s == "i64"@ {
            Some(As::I64)
        } else if s == "base64"@ {
            Some(As::Base64)
        } else if s == "str"@ {
            Some(As::Str)
        } else {
            None
        },
        _ => None,
    }
}

/// A named part: `[x]` or `[x as i64]`.
pub open spec fn as_pat(t: Seq<LocTokV>, p: int) -> Option<(PatV, int)> {
    if is_tok(t, p, TokenV::LBracket) && ident_at(t, p + 1) is Some {
        let (i, q) = ident_at(t, p + 1)->Some_0;
        let (a, r) = if is_tok(t, q, TokenV::As) && pat_typ(t, q + 1) is Some {
            (pat_typ(t, q + 1)->Some_0, q + 2)
        } else {
            (As::Str, q)
        };
        if is_tok(t, r, TokenV::RBracket) { Some((PatV::As(i.1, a), r + 1)) } else { None }
    } else {
        None
    }
}

/// An atom of a pattern: a string, `.`, `:class:`, a named part, or a
/// pattern in parentheses.
pub open spec fn atom_pat(t: Seq<LocTokV>, p: int, f: nat) -> Option<(PatV, int)>
    decreases f, 0nat,
{
    if f == 0 {
        None
    } else if tok(t, p) matches Some(TokenV::StringLiteral(s)) {
        Some((PatV::Lit(tok(t, p)->Some_0->StringLiteral_0), p + 1))
    } else if is_tok(t, p, TokenV::Dot) {
        Some((PatV::Any, p + 1))
    } else if is_tok(t, p, TokenV::Colon) && (tok(t, p + 1) matches Some(TokenV::Ident(c)) && is_class(c))
        && is_tok(t, p + 2, TokenV::Colon) {
        Some((PatV::Class(tok(t, p + 1)->Some_0->Ident_0), p + 3))
    } else if as_pat(t, p) is Some {
        as_pat(t, p)
    } else if is_tok(t, p, TokenV::LParen) {
        match pat(t, p + 1, (f - 1) as nat) {
            Some((x, q)) => if is_tok(t, q, TokenV::RParen) { Some((x, q + 1)) } else { None },
            None => None,
        }
    } else {
        None
    }
}

/// Postfix operators applied, left to right.
pub open spec fn postfix_ops(t: Seq<LocTokV>, p: int, x: PatV) -> (PatV, int)
    decreases t.len() - p,
{
    if 0 <= p && is_tok(t, p, TokenV::Multiply) {
        postfix_ops(t, p + 1, PatV::Star(Box::new(x)))
    } else if 0 <= p && is_tok(t, p, TokenV::Plus) {
        postfix_ops(t, p + 1, PatV::Plus(Box::new(x)))
    } else if 0 <= p && is_tok(t, p, TokenV::QuestionMark) {
        postfix_ops(t, p + 1, PatV::Opt(Box::new(x)))
    } else if 0 <= p && is_tok(t, p, TokenV::Not) {
        postfix_ops(t, p + 1, PatV::CaseInsensitive(Box::new(x)))
    } else if 0 <= p && is_tok(t, p, TokenV::Percent) {
        postfix_ops(t, p + 1, PatV::IgnoreWhitespace(Box::new(x)))
    } else {
        (x, p)
    }
}

/// An atom with its postfix operators (`*`, `+`, `?`, `!`, `%`).
pub open spec fn postfix_pat(t: Seq<LocTokV>, p: int, f: nat) -> Option<(PatV, int)>
    decreases f, 1nat,
{
    if f == 0 {
        None
    } else {
        match atom_pat(t, p, (f - 1) as nat) {
            Some((a, q)) => Some(postfix_ops(t, q, a)),
            None => None,
        }
    }
}

/// Any number of postfix patterns.
pub open spec fn postfix_pats(t: Seq<LocTokV>, p: int, f: nat) -> Option<(Seq<PatV>, int)>
    decreases f, 2nat,
{
    if f == 0 {
        None
    } else {
        match postfix_pat(t, p, (f - 1) as nat) {
            Some((x, q)) => match postfix_pats(t, q, (f - 1) as nat) {
                Some((xs, r)) => Some((seq![x] + xs, r)),
                None => None,
            },
            None => Some((Seq::empty(), p)),
        }
    }
}

/// One or more postfix patterns in sequence.
pub open spec fn pat_seq(t: Seq<LocTokV>, p: int, f: nat) -> Option<(PatV, int)>
    decreases f, 3nat,
{
    if f == 0 {
        None
    } else {
        match postfix_pat(t, p, (f - 1) as nat) {
            Some((x, q)) => match postfix_pats(t, q, (f - 1) as nat) {
                Some((xs, r)) => if xs.len() == 0 {
                    Some((x, r))
                } else {
                    Some((PatV::Sequence(seq![x] + xs), r))
                },
                None => None,
            },
            None => None,
        }
    }
}

/// Any number of `| sequence`.
pub open spec fn bar_pats(t: Seq<LocTokV>, p: int, f: nat) -> Option<(Seq<PatV>, int)>
    decreases f, 4nat,
{
    if f == 0 {
        None
    } else if is_tok(t, p, TokenV::Bar) && pat_seq(t, p + 1, (f - 1) as nat) is Some {
        let (x, q) = pat_seq(t, p + 1, (f - 1) as nat)->Some_0;
        match bar_pats(t, q, (f - 1) as nat) {
            Some((xs, r)) => Some((seq![x] + xs, r)),
            None => None,
        }
    } else {
        Some((Seq::empty(), p))
    }
}

/// A pattern: sequences separated by `|`.
pub open spec fn pat(t: Seq<LocTokV>, p: int, f: nat) -> Option<(PatV, int)>
    decreases f, 5nat,
{
    if f == 0 {
        None
    } else {
        match pat_seq(t, p, (f - 1) as nat) {
            Some((x, q)) => match bar_pats(t, q, (f - 1) as nat) {
                Some((xs, r)) => if xs.len() == 0 {
                    Some((x, r))
                } else {
                    Some((PatV::Alt(seq![x] + xs), r))
                },
                None => None,
            },
            None => None,
        }
    }
}

/// A pattern without named parts, as a regular expression value.
pub open spec fn pat_no_bind(t: Seq<LocTokV>, p: int, f: nat) -> Option<(LitV, int)> {
    match pat(t, p, f) {
        Some((x, q)) => if !has_as_v(x) && pat_valid(x) && regex_compiles(anchored_regex(x)) {
            Some((LitV::Flat(FlatLitV::Regex(x, anchored_regex(x))), q))
        } else {
            None
        },
        None => None,
    }
}

/// The pattern of `matches`: a text pattern or a label.
pub open spec fn pattern(t: Seq<LocTokV>, p: int, f: nat) -> Option<(PatternSV, int)> {
    match pat(t, p, f) {
        Some((x, q)) => Some((PatternSV::Regex(x), q)),
        None => match tok(t, p) {
            Some(TokenV::LabelLiteral(l)) => Some((PatternSV::Label(l), p + 1)),
            _ => None,
        },
    }
}

// ---------------------------------------------------------- expressions

/// The name that a call's function part spells: `f` or `M::f`.
pub open spec fn call_function(e: ExprSV) -> Option<Seq<char>>
    decreases e,
{
    match e {
        ExprSV::IdentExpr(id) => Some(id),
        ExprSV::InfixExpr(Infix::Module, a, b) => match (call_function(a.1), call_function(b.1)) {
            (Some(x), Some(y)) => Some(x + "::"@ + y),
            _ => None,
        },
        _ => None,
    }
}

/// A literal token's value (floating-point literals have none here).
pub open spec fn literal_at(t: Seq<LocTokV>, p: int) -> Option<LitV> {
    match tok(t, p) {
        Some(TokenV::BoolLiteral(b)) => Some(LitV::Flat(FlatLitV::Bool(b))),
        Some(TokenV::DataLiteral(d)) => Some(LitV::Flat(FlatLitV::Data(d))),
        Some(TokenV::Ident(s)) => if s == "None"@ { Some(LitV::Tuple(Seq::empty())) } else { None },
        Some(TokenV::IntLiteral(i)) => Some(LitV::Flat(FlatLitV::Int(i))),
        Some(TokenV::LabelLiteral(l)) => Some(LitV::Flat(FlatLitV::Label(l))),
        Some(TokenV::StringLiteral(s)) => Some(LitV::Flat(FlatLitV::Str(s))),
        _ => None,
    }
}

/// A block made of one expression.
pub open spec fn block_of(e: LocExprSV) -> BlockSV {
    BlockSV {
        statements: seq![LocStmtSV(e.0, StmtSV::ExprStmt { exp: e.1, async_tag: false, semi: false })],
        async_tag: false,
    }
}

/// The iterator that a keyword starts (not `fold`).
pub open spec fn iter_keyword(k: TokenV) -> Option<Iter> {
    match k {
        TokenV::All => Some(Iter::All),
        TokenV::Any => Some(Iter::Any),
        TokenV::Filter => Some(Iter::Filter),
        TokenV::FilterMap => Some(Iter::FilterMap),
        TokenV::ForEach => Some(Iter::ForEach),
        TokenV::MapEach => Some(Iter::MapEach),
        _ => None,
    }
}

/// An expression: operators read by precedence from the weakest.
pub open spec fn expr(t: Seq<LocTokV>, p: int, f: nat) -> Option<(LocExprSV, int)>
    decreases f, 3nat,
{
    if f == 0 { None } else { pratt(t, p, Precedence::PLowest, (f - 1) as nat) }
}

/// An atom followed by the operators that bind more strongly than `prec`.
pub open spec fn pratt(t: Seq<LocTokV>, p: int, prec: Precedence, f: nat) -> Option<(LocExprSV, int)>
    decreases f, 2nat,
{
    if f == 0 {
        None
    } else {
        match atom(t, p, (f - 1) as nat) {
            Some((left, q)) => go(t, q, prec, left, (f - 1) as nat),
            None => None,
        }
    }
}

/// The operators after `left` that bind more strongly than `prec`.
pub open spec fn go(t: Seq<LocTokV>, q: int, prec: Precedence, left: LocExprSV, f: nat) -> Option<(LocExprSV, int)>
    decreases f, 1nat,
{
    if f == 0 {
        None
    } else {
        match tok(t, q) {
            None => None,
            Some(k) => {
                let (pp, op) = infix_op(k);
                let step = if pp == Precedence::PDot && prec_rank(prec) < prec_rank(Precedence::PDot) {
                    Some(dot_expr(t, q, left, (f - 1) as nat))
                } else if pp == Precedence::PCall && prec_rank(prec) < prec_rank(Precedence::PCall) {
                    Some(call_expr(t, q, left, (f - 1) as nat))
                } else if (op matches Some((Assoc::Right, _)) && prec_rank(prec) <= prec_rank(pp))
                    || prec_rank(prec) < prec_rank(pp) {
                    Some(infix_expr(t, q, left, (f - 1) as nat))
                } else {
                    None
                };
                match step {
                    Some(Some((l2, q2))) => go(t, q2, prec, l2, (f - 1) as nat),
                    Some(None) => None,
                    None => Some((left, q)),
                }
            },
        }
    }
}

/// An infix operator and its right operand.
pub open spec fn infix_expr(t: Seq<LocTokV>, q: int, left: LocExprSV, f: nat) -> Option<(LocExprSV, int)>
    decreases f, 0nat,
{
    if f == 0 {
        None
    } else {
        match tok(t, q) {
            Some(k) => match infix_op(k) {
                (pp, Some((_, op))) => match pratt(t, q + 1, pp, (f - 1) as nat) {
                    Some((right, r)) => Some((LocExprSV(loc_of(t, q), ExprSV::InfixExpr(op, Box::new(left), Box::new(right))), r)),
                    None => None,
                },
                _ => None,
            },
            None => None,
        }
    }
}

/// `.n` (a tuple's part) or `.method(arguments)` after `left`.
pub open spec fn dot_expr(t: Seq<LocTokV>, q: int, left: LocExprSV, f: nat) -> Option<(LocExprSV, int)>
    decreases f, 0nat,
{
    if f == 0 {
        None
    } else if is_tok(t, q, TokenV::Dot) && tok(t, q + 1) matches Some(TokenV::IntLiteral(i)) {
        Some((LocExprSV(left.0, ExprSV::CallExpr {
            loc: loc_of(t, q + 1),
            function: int_decimal(tok(t, q + 1)->Some_0->IntLiteral_0 as int),
            arguments: seq![left],
        }), q + 2))
    } else if is_tok(t, q, TokenV::Dot) && ident_expr(t, q + 1) is Some {
        let (id, r) = ident_expr(t, q + 1)->Some_0;
        match call_expr(t, r, id, (f - 1) as nat) {
            Some((LocExprSV(_, ExprSV::CallExpr { loc, function, arguments }), s)) => Some((LocExprSV(left.0, ExprSV::CallExpr {
                loc,
                function: ".::"@ + function,
                arguments: seq![left] + arguments,
            }), s)),
            _ => None,
        }
    } else {
        None
    }
}

/// `(arguments)` after a function name.
pub open spec fn call_expr(t: Seq<LocTokV>, q: int, fh: LocExprSV, f: nat) -> Option<(LocExprSV, int)>
    decreases f, 0nat,
{
    if f == 0 || !is_tok(t, q, TokenV::LParen) {
        None
    } else {
        let (args, r) = match exprs(t, q + 1, (f - 1) as nat) {
            Some((es, r)) => (es, r),
            None => (Seq::empty(), q + 1),
        };
        if is_tok(t, r, TokenV::RParen) && call_function(fh.1) is Some {
            Some((LocExprSV(fh.0, ExprSV::CallExpr { loc: fh.0, function: call_function(fh.1)->Some_0, arguments: args }), r + 1))
        } else {
            None
        }
    }
}

/// An identifier, or `Some` as the function `option::Some`.
pub open spec fn ident_expr(t: Seq<LocTokV>, p: int) -> Option<(LocExprSV, int)> {
    match tok(t, p) {
        Some(TokenV::Ident(n)) => Some((LocExprSV(loc_of(t, p), ExprSV::IdentExpr(n)), p + 1)),
        Some(TokenV::SomeKeyword) => Some((LocExprSV(loc_of(t, p), ExprSV::IdentExpr("option::Some"@)), p + 1)),
        _ => None,
    }
}

/// A literal, or `Regex(pattern)`.
pub open spec fn lit_expr(t: Seq<LocTokV>, p: int, f: nat) -> Option<(LocExprSV, int)> {
    if literal_at(t, p) is Some {
        Some((LocExprSV(loc_of(t, p), ExprSV::LitExpr(literal_at(t, p)->Some_0)), p + 1))
    } else if is_tok(t, p, TokenV::Regex) && is_tok(t, p + 1, TokenV::LParen) {
        match pat_no_bind(t, p + 2, f) {
            Some((r, q)) => if is_tok(t, q, TokenV::RParen) {
                Some((LocExprSV(loc_of(t, p), ExprSV::LitExpr(r)), q + 1))
            } else {
                None
            },
            None => None,
        }
    } else {
        None
    }
}

/// The first expression that applies at a position.
pub open spec fn atom(t: Seq<LocTokV>, p: int, f: nat) -> Option<(LocExprSV, int)>
    decreases f, 0nat,
{
    if f == 0 {
        None
    } else {
        let g = (f - 1) as nat;
        if lit_expr(t, p, g) is Some {
            lit_expr(t, p, g)
        } else if ident_expr(t, p) is Some {
            ident_expr(t, p)
        } else if prefix_expr(t, p, g) is Some {
            prefix_expr(t, p, g)
        } else if paren_expr(t, p, g) is Some {
            paren_expr(t, p, g)
        } else if list_expr(t, p, g) is Some {
            list_expr(t, p, g)
        } else if if_expr(t, p, g) is Some {
            if_expr(t, p, g)
        } else if iter_expr(t, p, g) is Some {
            iter_expr(t, p, g)
        } else if iter_acc_expr(t, p, g) is Some {
            iter_acc_expr(t, p, g)
        } else {
            all_any_expr(t, p, g)
        }
    }
}

/// `-e` or `!e` (the operand read as a whole expression).
pub open spec fn prefix_expr(t: Seq<LocTokV>, p: int, f: nat) -> Option<(LocExprSV, int)>
    decreases f, 4nat,
{
    let op = if is_tok(t, p, TokenV::Minus) {
        Some(Prefix::Minus)
    } else if is_tok(t, p, TokenV::Not) {
        Some(Prefix::Not)
    } else {
        None
    };
    match op {
        Some(o) => match expr(t, p + 1, f) {
            Some((e, q)) => Some((LocExprSV(loc_of(t, p), ExprSV::PrefixExpr(o, Box::new(e))), q)),
            None => None,
        },
        None => None,
    }
}

/// `()`, `(e)` or `(e, ...)`.
pub open spec fn paren_expr(t: Seq<LocTokV>, p: int, f: nat) -> Option<(LocExprSV, int)>
    decreases f, 6nat,
{
    if !is_tok(t, p, TokenV::LParen) {
        None
    } else {
        let (es, q) = match exprs(t, p + 1, f) {
            Some((es, q)) => (es, q),
            None => (Seq::empty(), p + 1),
        };
        if !is_tok(t, q, TokenV::RParen) {
            None
        } else if es.len() == 0 {
            Some((LocExprSV(loc_of(t, p), ExprSV::LitExpr(LitV::Flat(FlatLitV::Unit))), q + 1))
        } else if es.len() == 1 {
            Some((LocExprSV(loc_of(t, p), es[0].1), q + 1))
        } else {
            Some((LocExprSV(loc_of(t, p), ExprSV::TupleExpr(es)), q + 1))
        }
    }
}

/// Expressions separated by commas.
pub open spec fn exprs(t: Seq<LocTokV>, p: int, f: nat) -> Option<(Seq<LocExprSV>, int)>
    decreases f, 5nat,
{
    match expr(t, p, f) {
        Some((e, q)) => match comma_exprs(t, q, f) {
            Some((es, r)) => Some((seq![e] + es, r)),
            None => None,
        },
        None => None,
    }
}

/// Any number of `, expression`.
pub open spec fn comma_exprs(t: Seq<LocTokV>, p: int, f: nat) -> Option<(Seq<LocExprSV>, int)>
    decreases f, 4nat,
{
    if f == 0 {
        None
    } else if is_tok(t, p, TokenV::Comma) && expr(t, p + 1, (f - 1) as nat) is Some {
        let (e, q) = expr(t, p + 1, (f - 1) as nat)->Some_0;
        match comma_exprs(t, q, (f - 1) as nat) {
            Some((es, r)) => Some((seq![e] + es, r)),
            None => None,
        }
    } else {
        Some((Seq::empty(), p))
    }
}

/// `[e, ...]`.
pub open spec fn list_expr(t: Seq<LocTokV>, p: int, f: nat) -> Option<(LocExprSV, int)>
    decreases f, 6nat,
{
    if !is_tok(t, p, TokenV::LBracket) {
        None
    } else {
        let (es, q) = match exprs(t, p + 1, f) {
            Some((es, q)) => (es, q),
            None => (Seq::empty(), p + 1),
        };
        if is_tok(t, q, TokenV::RBracket) {
            Some((LocExprSV(loc_of(t, p), ExprSV::ListExpr(es)), q + 1))
        } else {
            None
        }
    }
}

/// The condition of an `if`: matches, `let Some(x) = e`, or an expression.
pub enum CondSV {
    Matches(Seq<(LocExprSV, PatternSV)>),
    SomeMatch(IdSV, LocExprSV),
    Expr(LocExprSV),
}

/// `if condition block [else ...]`.
pub open spec fn if_expr(t: Seq<LocTokV>, p: int, f: nat) -> Option<(LocExprSV, int)>
    decreases f, 7nat,
{
    if f == 0 || !is_tok(t, p, TokenV::If) {
        None
    } else {
        let g = (f - 1) as nat;
        let c = if match_exprs(t, p + 1, g) is Some {
            let (ms, q) = match_exprs(t, p + 1, g)->Some_0;
            Some((CondSV::Matches(ms), q))
        } else if some_match(t, p + 1, g) is Some {
            let (v, e, q) = some_match(t, p + 1, g)->Some_0;
            Some((CondSV::SomeMatch(v, e), q))
        } else if expr(t, p + 1, g) is Some {
            let (e, q) = expr(t, p + 1, g)->Some_0;
            Some((CondSV::Expr(e), q))
        } else {
            None
        };
        match c {
            Some((c, q)) => match block(t, q, g) {
                Some((consequence, r)) => {
                    let (alternative, s) = match else_expr(t, r, g) {
                        Some((b, s)) => (Some(b), s),
                        None => (None, r),
                    };
                    let e = match c {
                        CondSV::Expr(cond) => ExprSV::IfExpr { cond: Box::new(cond), consequence, alternative },
                        CondSV::Matches(matches) => ExprSV::IfMatchExpr { matches, consequence, alternative },
                        CondSV::SomeMatch(var, ex) => ExprSV::IfSomeMatchExpr { var, expr: Box::new(ex), consequence, alternative },
                    };
                    Some((LocExprSV(loc_of(t, p), e), s))
                },
                None => None,
            },
            None => None,
        }
    }
}

/// `else block` or `else if ...`.
pub open spec fn else_expr(t: Seq<LocTokV>, p: int, f: nat) -> Option<(BlockSV, int)>
    decreases f, 8nat,
{
    if !is_tok(t, p, TokenV::Else) {
        None
    } else if block(t, p + 1, f) is Some {
        block(t, p + 1, f)
    } else {
        match if_expr(t, p + 1, f) {
            Some((e, q)) => Some((block_of(e), q)),
            None => None,
        }
    }
}

/// `let Some(x) = e`.
pub open spec fn some_match(t: Seq<LocTokV>, p: int, f: nat) -> Option<(IdSV, LocExprSV, int)>
    decreases f, 4nat,
{
    if is_tok(t, p, TokenV::Let) && is_tok(t, p + 1, TokenV::SomeKeyword) && is_tok(t, p + 2, TokenV::LParen)
        && ident_at(t, p + 3) is Some && is_tok(t, p + 4, TokenV::RParen) && is_tok(t, p + 5, TokenV::Assign) {
        match expr(t, p + 6, f) {
            Some((e, q)) => Some((ident_at(t, p + 3)->Some_0.0, e, q)),
            None => None,
        }
    } else {
        None
    }
}

/// `e matches pattern`.
pub open spec fn match_expr(t: Seq<LocTokV>, p: int, f: nat) -> Option<((LocExprSV, PatternSV), int)>
    decreases f, 4nat,
{
    match expr(t, p, f) {
        Some((e, q)) => if is_tok(t, q, TokenV::Matches) {
            match pattern(t, q + 1, f) {
                Some((pt, r)) => Some(((e, pt), r)),
                None => None,
            }
        } else {
            None
        },
        None => None,
    }
}

/// Matches joined by `&&`.
pub open spec fn match_exprs(t: Seq<LocTokV>, p: int, f: nat) -> Option<(Seq<(LocExprSV, PatternSV)>, int)>
    decreases f, 6nat,
{
    match match_expr(t, p, f) {
        Some((m, q)) => match and_matches(t, q, f) {
            Some((ms, r)) => Some((seq![m] + ms, r)),
            None => None,
        },
        None => None,
    }
}

/// Any number of `&& e matches pattern`.
pub open spec fn and_matches(t: Seq<LocTokV>, p: int, f: nat) -> Option<(Seq<(LocExprSV, PatternSV)>, int)>
    decreases f, 5nat,
{
    if f == 0 {
        None
    } else if is_tok(t, p, TokenV::And) && match_expr(t, p + 1, (f - 1) as nat) is Some {
        let (m, q) = match_expr(t, p + 1, (f - 1) as nat)->Some_0;
        match and_matches(t, q, (f - 1) as nat) {
            Some((ms, r)) => Some((seq![m] + ms, r)),
            None => None,
        }
    } else {
        Some((Seq::empty(), p))
    }
}

/// `all|any|filter|filter_map|foreach|map vars in e block`.
pub open spec fn iter_expr(t: Seq<LocTokV>, p: int, f: nat) -> Option<(LocExprSV, int)>
    decreases f, 7nat,
{
    match tok(t, p) {
        Some(k) => match iter_keyword(k) {
            Some(op) => match idents(t, p + 1) {
                Some((ids, q)) => if is_tok(t, q, TokenV::In) {
                    match expr(t, q + 1, f) {
                        Some((e, r)) => match block(t, r, f) {
                            Some((b, s)) => Some((LocExprSV(loc_of(t, p), ExprSV::IterExpr {
                                op,
                                idents: ids,
                                expr: Box::new(e),
                                body: b,
                                accumulator: None,
                            }), s)),
                            None => None,
                        },
                        None => None,
                    }
                } else {
                    None
                },
                None => None,
            },
            None => None,
        },
        None => None,
    }
}

/// `fold vars in e block where acc = e`.
pub open spec fn iter_acc_expr(t: Seq<LocTokV>, p: int, f: nat) -> Option<(LocExprSV, int)>
    decreases f, 7nat,
{
    if !is_tok(t, p, TokenV::Fold) {
        None
    } else {
        match idents(t, p + 1) {
            Some((ids, q)) => if is_tok(t, q, TokenV::In) {
                match expr(t, q + 1, f) {
                    Some((e, r)) => match block(t, r, f) {
                        Some((b, s)) => if is_tok(t, s, TokenV::Where) && ident_at(t, s + 1) is Some
                            && is_tok(t, s + 2, TokenV::Assign) {
                            match expr(t, s + 3, f) {
                                Some((a, u)) => Some((LocExprSV(loc_of(t, p), ExprSV::IterExpr {
                                    op: Iter::Fold,
                                    idents: ids,
                                    expr: Box::new(e),
                                    body: b,
                                    accumulator: Some((ident_at(t, s + 1)->Some_0.0, Box::new(a))),
                                }), u)),
                                None => None,
                            }
                        } else {
                            None
                        },
                        None => None,
                    },
                    None => None,
                }
            } else {
                None
            },
            None => None,
        }
    }
}

/// `all [..]` or `any [..]`: the list's elements themselves tested.
pub open spec fn all_any_expr(t: Seq<LocTokV>, p: int, f: nat) -> Option<(LocExprSV, int)>
    decreases f, 7nat,
{
    let op = if is_tok(t, p, TokenV::All) {
        Some(Iter::All)
    } else if is_tok(t, p, TokenV::Any) {
        Some(Iter::Any)
    } else {
        None
    };
    match op {
        Some(op) => match list_expr(t, p + 1, f) {
            Some((e, q)) => Some((LocExprSV(loc_of(t, p), ExprSV::IterExpr {
                op,
                idents: seq![(Loc(0, 0), "x"@)],
                expr: Box::new(e),
                body: block_of(LocExprSV(Loc(0, 0), ExprSV::IdentExpr("x"@))),
                accumulator: None,
            }), q)),
            None => None,
        },
        None => None,
    }
}

// ----------------------------------------------------------- statements

/// `[async] { statements }`.
pub open spec fn block(t: Seq<LocTokV>, p: int, f: nat) -> Option<(BlockSV, int)>
    decreases f, 2nat,
{
    if f == 0 {
        None
    } else {
        let (a, p1) = if is_tok(t, p, TokenV::Async) { (true, p + 1) } else { (false, p) };
        if !is_tok(t, p1, TokenV::LBrace) {
            None
        } else {
            match stmts(t, p1 + 1, (f - 1) as nat) {
                Some((ss, q)) => if is_tok(t, q, TokenV::RBrace) {
                    Some((BlockSV { statements: ss, async_tag: a }, q + 1))
                } else {
                    None
                },
                None => None,
            }
        }
    }
}

/// Any number of statements.
pub open spec fn stmts(t: Seq<LocTokV>, p: int, f: nat) -> Option<(Seq<LocStmtSV>, int)>
    decreases f, 1nat,
{
    if f == 0 {
        None
    } else {
        match stmt(t, p, (f - 1) as nat) {
            Some((s, q)) => match stmts(t, q, (f - 1) as nat) {
                Some((ss, r)) => Some((seq![s] + ss, r)),
                None => None,
            },
            None => Some((Seq::empty(), p)),
        }
    }
}

/// `let vars = e;`.
pub open spec fn let_stmt(t: Seq<LocTokV>, p: int, f: nat) -> Option<(LocStmtSV, int)>
    decreases f, 4nat,
{
    if is_tok(t, p, TokenV::Let) && idents(t, p + 1) is Some {
        let (ids, q) = idents(t, p + 1)->Some_0;
        if is_tok(t, q, TokenV::Assign) {
            match expr(t, q + 1, f) {
                Some((e, r)) => if is_tok(t, r, TokenV::SemiColon) {
                    Some((LocStmtSV(loc_of(t, p), StmtSV::LetStmt(ids, e)), r + 1))
                } else {
                    None
                },
                None => None,
            }
        } else {
            None
        }
    } else {
        None
    }
}

/// `return e`.
pub open spec fn return_stmt(t: Seq<LocTokV>, p: int, f: nat) -> Option<(LocStmtSV, int)>
    decreases f, 4nat,
{
    if is_tok(t, p, TokenV::Return) {
        match expr(t, p + 1, f) {
            Some((e, q)) => Some((LocStmtSV(loc_of(t, p), StmtSV::ReturnStmt(e)), q)),
            None => None,
        }
    } else {
        None
    }
}

/// `[async] e [;]`.
pub open spec fn expr_stmt(t: Seq<LocTokV>, p: int, f: nat) -> Option<(LocStmtSV, int)>
    decreases f, 4nat,
{
    let (a, p1) = if is_tok(t, p, TokenV::Async) { (true, p + 1) } else { (false, p) };
    match expr(t, p1, f) {
        Some((e, q)) => {
            let (semi, r) = if is_tok(t, q, TokenV::SemiColon) { (true, q + 1) } else { (false, q) };
            Some((LocStmtSV(e.0, StmtSV::ExprStmt { exp: e.1, async_tag: a, semi }), r))
        },
        None => None,
    }
}

/// `let vars = e;`, `return e`, or `[async] e [;]`.
pub open spec fn stmt(t: Seq<LocTokV>, p: int, f: nat) -> Option<(LocStmtSV, int)>
    decreases f, 0nat,
{
    if f == 0 {
        None
    } else {
        let g = (f - 1) as nat;
        if let_stmt(t, p, g) is Some {
            let_stmt(t, p, g)
        } else if return_stmt(t, p, g) is Some {
            return_stmt(t, p, g)
        } else {
            expr_stmt(t, p, g)
        }
    }
}

// ------------------------------------------------------------- programs

/// `name: type`.
pub open spec fn param(t: Seq<LocTokV>, p: int, f: nat) -> Option<((IdSV, TypSV), int)> {
    match ident_at(t, p) {
        Some((id, q)) => if is_tok(t, q, TokenV::Colon) {
            match ty(t, q + 1, f) {
                Some((x, r)) => Some(((id, x), r)),
                None => None,
            }
        } else {
            None
        },
        None => None,
    }
}

/// Any number of `, name: type`.
pub open spec fn comma_params(t: Seq<LocTokV>, p: int, f: nat) -> Option<(Seq<(IdSV, TypSV)>, int)>
    decreases f,
{
    if f == 0 {
        None
    } else if is_tok(t, p, TokenV::Comma) && param(t, p + 1, (f - 1) as nat) is Some {
        let (x, q) = param(t, p + 1, (f - 1) as nat)->Some_0;
        match comma_params(t, q, (f - 1) as nat) {
            Some((xs, r)) => Some((seq![x] + xs, r)),
            None => None,
        }
    } else {
        Some((Seq::empty(), p))
    }
}

/// Parameters separated by commas.
pub open spec fn params(t: Seq<LocTokV>, p: int, f: nat) -> Option<(Seq<(IdSV, TypSV)>, int)> {
    match param(t, p, f) {
        Some((x, q)) => match comma_params(t, q, f) {
            Some((xs, r)) => Some((seq![x] + xs, r)),
            None => None,
        },
        None => None,
    }
}

/// An optional `-> type`.
pub open spec fn arrow_typ(t: Seq<LocTokV>, p: int, f: nat) -> (Option<TypSV>, int) {
    if is_tok(t, p, TokenV::Arrow) && ty(t, p + 1, f) is Some {
        let (x, q) = ty(t, p + 1, f)->Some_0;
        (Some(x), q)
    } else {
        (None, p)
    }
}

/// `fn name(params) [-> type]`.
pub open spec fn fn_head(t: Seq<LocTokV>, p: int, f: nat) -> Option<(FnHeadSV, int)> {
    if is_tok(t, p, TokenV::Function) && ident_at(t, p + 1) is Some && is_tok(t, p + 2, TokenV::LParen) {
        let (ps, q) = match params(t, p + 3, f) {
            Some((ps, q)) => (ps, q),
            None => (Seq::empty(), p + 3),
        };
        if is_tok(t, q, TokenV::RParen) {
            let (typ, r) = arrow_typ(t, q + 1, f);
            Some((FnHeadSV { id: ident_at(t, p + 1)->Some_0.0, params: ps, typ }, r))
        } else {
            None
        }
    } else {
        None
    }
}

/// `fn name(types) [-> type]` or `fn name(_) [-> type]` in an external.
pub open spec fn head(t: Seq<LocTokV>, p: int, f: nat) -> Option<(HeadSV, int)> {
    if is_tok(t, p, TokenV::Function) && ident_at(t, p + 1) is Some && is_tok(t, p + 2, TokenV::LParen) {
        let (typs, q) = if is_tok(t, p + 3, TokenV::Underscore) {
            (None, p + 4)
        } else {
            match types(t, p + 3, f) {
                Some((ts, q)) => (Some(ts), q),
                None => (Some(Seq::empty()), p + 3),
            }
        };
        if is_tok(t, q, TokenV::RParen) {
            let (typ, r) = arrow_typ(t, q + 1, f);
            Some((HeadSV { id: ident_at(t, p + 1)->Some_0.0, typs, typ }, r))
        } else {
            None
        }
    } else {
        None
    }
}

/// Any number of external headers.
pub open spec fn heads(t: Seq<LocTokV>, p: int, f: nat) -> Option<(Seq<HeadSV>, int)>
    decreases f,
{
    if f == 0 {
        None
    } else {
        match head(t, p, (f - 1) as nat) {
            Some((h, q)) => match heads(t, q, (f - 1) as nat) {
                Some((hs, r)) => Some((seq![h] + hs, r)),
                None => None,
            },
            None => Some((Seq::empty(), p)),
        }
    }
}

/// `external name @ "url" { headers }`.
pub open spec fn external(t: Seq<LocTokV>, p: int, f: nat) -> Option<(ExternalSV, int)> {
    if is_tok(t, p, TokenV::External) && ident_at(t, p + 1) is Some && is_tok(t, p + 2, TokenV::At)
        && (tok(t, p + 3) matches Some(TokenV::StringLiteral(u))) && is_tok(t, p + 4, TokenV::LBrace) {
        match heads(t, p + 5, f) {
            Some((hs, q)) => if is_tok(t, q, TokenV::RBrace) {
                Some((ExternalSV {
                    name: ident_at(t, p + 1)->Some_0.0,
                    url: (loc_of(t, p + 3), tok(t, p + 3)->Some_0->StringLiteral_0),
                    headers: hs,
                }, q + 1))
            } else {
                None
            },
            None => None,
        }
    } else {
        None
    }
}

/// A function: header and body.
pub open spec fn fn_decl(t: Seq<LocTokV>, p: int, f: nat) -> Option<(FnDeclSV, int)> {
    match fn_head(t, p, f) {
        Some((h, q)) => match block(t, q, f) {
            Some((b, r)) => Some((FnDeclSV { head: h, body: b }, r)),
            None => None,
        },
        None => None,
    }
}

/// A function or an external.
pub open spec fn decl(t: Seq<LocTokV>, p: int, f: nat) -> Option<(DeclSV, int)> {
    match fn_decl(t, p, f) {
        Some((d, q)) => Some((DeclSV::FnDecl(d), q)),
        None => match external(t, p, f) {
            Some((e, q)) => Some((DeclSV::External(e), q)),
            None => None,
        },
    }
}

/// Any number of declarations.
pub open spec fn decls(t: Seq<LocTokV>, p: int, f: nat) -> Option<(Seq<DeclSV>, int)>
    decreases f,
{
    if f == 0 {
        None
    } else {
        match decl(t, p, (f - 1) as nat) {
            Some((d, q)) => match decls(t, q, (f - 1) as nat) {
                Some((ds, r)) => Some((seq![d] + ds, r)),
                None => None,
            },
            None => Some((Seq::empty(), p)),
        }
    }
}

/// The fuel bound of the rules: more than any text needs.
pub open spec fn parse_fuel() -> nat {
    0xffff_ffff_ffff_ffff
}

/// A program: declarations up to the end of the text.
pub open spec fn program_spec(t: Seq<LocTokV>) -> Option<Seq<DeclSV>> {
    match decls(t, 0, parse_fuel()) {
        Some((ds, q)) => if is_tok(t, q, TokenV::EOF) { Some(ds) } else { None },
        None => None,
    }
}

/// An expression up to the end of the text.
pub open spec fn expr_eof_spec(t: Seq<LocTokV>) -> Option<LocExprSV> {
    match expr(t, 0, parse_fuel()) {
        Some((e, q)) => if is_tok(t, q, TokenV::EOF) { Some(e) } else { None },
        None => None,
    }
}

/// The arithmetic operators and their classes: `+` and `-` (1), `*`, `/`
/// and `%` (2); other tokens are in none (0).
pub open spec fn arith_op(k: TokenV) -> (int, Option<Infix>) {
    match k {
        TokenV::Plus => (1, Some(Infix::Plus)),
        TokenV::Minus => (1, Some(Infix::Minus)),
        TokenV::Multiply => (2, Some(Infix::Multiply)),
        TokenV::Divide => (2, Some(Infix::Divide)),
        TokenV::Percent => (2, Some(Infix::Remainder)),
        _ => (0, None),
    }
}

/// An integer literal read as an expression at a position.
pub open spec fn int_lit_at(t: Seq<LocTokV>, p: int, i: i64) -> LocExprSV {
    LocExprSV(loc_of(t, p), ExprSV::LitExpr(LitV::Flat(FlatLitV::Int(i))))
}

/// The arithmetic operators group to the left: `a - b + c` reads as
/// `(a - b) + c` and `a / b / c` as `(a / b) / c`. For integer literals
/// `a`, `b`, `c` and two operators of one class, the text `a o1 b o2 c`
/// reads as `o2` applied to (`o1` applied to `a` and `b`) and `c`, each
/// operation placed at its operator.
pub proof fn lemma_arith_left_assoc(t: Seq<LocTokV>, a: i64, b: i64, c: i64)
    requires
        t.len() >= 6,
        t[0].tok == TokenV::IntLiteral(a),
        t[2].tok == TokenV::IntLiteral(b),
        t[4].tok == TokenV::IntLiteral(c),
        t[5].tok == TokenV::EOF,
        arith_op(t[1].tok).0 != 0,
        arith_op(t[1].tok).0 == arith_op(t[3].tok).0,
    ensures
        expr_eof_spec(t) == Some(LocExprSV(loc_of(t, 3), ExprSV::InfixExpr(
            arith_op(t[3].tok).1.unwrap(),
            Box::new(LocExprSV(loc_of(t, 1), ExprSV::InfixExpr(
                arith_op(t[1].tok).1.unwrap(),
                Box::new(int_lit_at(t, 0, a)),
                Box::new(int_lit_at(t, 2, b)),
            ))),
            Box::new(int_lit_at(t, 4, c)),
        ))),
{
    let fu = parse_fuel();
    let pp = infix_op(t[1].tok).0;
    assert(infix_op(t[3].tok).0 == pp);
    assert(infix_op(t[1].tok).1 == Some((Assoc::Left, arith_op(t[1].tok).1.unwrap())));
    assert(infix_op(t[3].tok).1 == Some((Assoc::Left, arith_op(t[3].tok).1.unwrap())));
    assert(prec_rank(pp) == 6 || prec_rank(pp) == 7);
    let ea = int_lit_at(t, 0, a);
    let eb = int_lit_at(t, 2, b);
    let ec = int_lit_at(t, 4, c);
    let eab = LocExprSV(loc_of(t, 1), ExprSV::InfixExpr(arith_op(t[1].tok).1.unwrap(), Box::new(ea), Box::new(eb)));
    let eabc = LocExprSV(loc_of(t, 3), ExprSV::InfixExpr(arith_op(t[3].tok).1.unwrap(), Box::new(eab), Box::new(ec)));
    // the right operand `c`, which nothing follows
    assert(lit_expr(t, 4, (fu - 7) as nat) == Some((ec, 5int)));
    assert(atom(t, 4, (fu - 6) as nat) == Some((ec, 5int)));
    assert(infix_op(TokenV::EOF) == (Precedence::PLowest, None::<(Assoc, Infix)>));
    assert(go(t, 5, pp, ec, (fu - 6) as nat) == Some((ec, 5int)));
    assert(pratt(t, 4, pp, (fu - 5) as nat) == Some((ec, 5int)));
    // the middle operand `b`, which the second operator does not take
    assert(lit_expr(t, 2, (fu - 6) as nat) == Some((eb, 3int)));
    assert(atom(t, 2, (fu - 5) as nat) == Some((eb, 3int)));
    assert(go(t, 3, pp, eb, (fu - 5) as nat) == Some((eb, 3int)));
    assert(pratt(t, 2, pp, (fu - 4) as nat) == Some((eb, 3int)));
    // `a o1 b`, then `(a o1 b) o2 c`
    assert(infix_expr(t, 1, ea, (fu - 3) as nat) == Some((eab, 3int)));
    assert(infix_expr(t, 3, eab, (fu - 4) as nat) == Some((eabc, 5int)));
    assert(go(t, 5, Precedence::PLowest, eabc, (fu - 4) as nat) == Some((eabc, 5int)));
    assert(go(t, 3, Precedence::PLowest, eab, (fu - 3) as nat) == Some((eabc, 5int)));
    assert(go(t, 1, Precedence::PLowest, ea, (fu - 2) as nat) == Some((eabc, 5int)));
    assert(lit_expr(t, 0, (fu - 3) as nat) == Some((ea, 1int)));
    assert(atom(t, 0, (fu - 2) as nat) == Some((ea, 1int)));
    assert(pratt(t, 0, Precedence::PLowest, (fu - 1) as nat) == Some((eabc, 5int)));
    assert(expr(t, 0, fu) == Some((eabc, 5int)));
}

/// A block up to the end of the text.
pub open spec fn block_eof_spec(t: Seq<LocTokV>) -> Option<BlockSV> {
    match block(t, 0, parse_fuel()) {
        Some((b, q)) => if is_tok(t, q, TokenV::EOF) { Some(b) } else { None },
        None => None,
    }
}

} // verus!
