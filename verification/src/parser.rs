//! Syntax of the policy language: identifiers and the operators of
//! expressions.

use vstd::prelude::*;
use crate::lexer::Loc;
use crate::labels::{Label, NodeV};
use crate::literals::{Literal, LitV};
use crate::text::{push_str, string_push, str_eq, starts_with, trim_start_matches, trim_start_matches_str};
use crate::regexes::{CompiledRegex, compile_regex, regex_find, clone_regex, regex_compiles, regex_is_match, regex_escape, escape_spec};

verus! {

/// An identifier.
#[derive(Debug)]
pub struct Ident(pub String);

impl Ident {
    /// The identifier with the given name.
    pub fn from_str(s: &str) -> (i: Ident)
        ensures
            i.0@ == s@,
    {
        Ident(s.to_owned())
    }

    /// A copy of the identifier.
    pub fn dup(&self) -> (i: Ident)
        ensures
            i.0@ == self.0@,
    {
        Ident(self.0.clone())
    }
}

/// The iterators of the language.
#[derive(Clone, Copy, Debug, PartialEq, Eq, Structural)]
pub enum Iter {
    All,
    Any,
    Filter,
    FilterMap,
    ForEach,
    Fold,
    MapEach,
}

/// The name of an iterator.
pub open spec fn iter_text(it: Iter) -> Seq<char> {
    match it {
        Iter::All => "all"@,
        Iter::Any => "any"@,
        Iter::Filter => "filter"@,
        Iter::FilterMap => "filter_map"@,
        Iter::MapEach => "map"@,
        Iter::ForEach => "foreach"@,
        Iter::Fold => "fold"@,
    }
}

impl Iter {
    /// The name of the iterator.
    pub fn to_string(&self) -> (s: String)
        ensures
            s@ == iter_text(*self),
    {
        match self {
            Iter::All => "all".to_owned(),
            Iter::Any => "any".to_owned(),
            Iter::Filter => "filter".to_owned(),
            Iter::FilterMap => "filter_map".to_owned(),
            Iter::MapEach => "map".to_owned(),
            Iter::ForEach => "foreach".to_owned(),
            Iter::Fold => "fold".to_owned(),
        }
    }
}

/// Prefix operators.
#[derive(Clone, Copy, Debug, PartialEq, Eq, Structural)]
pub enum Prefix {
    Minus,
    Not,
}

impl Prefix {
    /// The operator's symbol.
    pub fn to_string(&self) -> (s: String)
        ensures
            s@ == (match *self {
                Prefix::Minus => "-"@,
                Prefix::Not => "!"@,
            }),
    {
        match self {
            Prefix::Minus => "-".to_owned(),
            Prefix::Not => "!".to_owned(),
        }
    }
}

/// Infix operators.
#[derive(Clone, Copy, Debug, PartialEq, Eq, Structural)]
pub enum Infix {
    Equal,
    NotEqual,
    Plus,
    Minus,
    Divide,
    Multiply,
    Remainder,
    GreaterThanEqual,
    LessThanEqual,
    GreaterThan,
    LessThan,
    And,
    Or,
    Concat,
    ConcatStr,
    Module,
    In,
    Dot,
}

/// The symbol of an infix operator.
pub open spec fn infix_text(op: Infix) -> Seq<char> {
    match op {
        Infix::Equal => "=="@,
        Infix::NotEqual => "!="@,
        Infix::Plus => "+"@,
        Infix::Minus => "-"@,
        Infix::Divide => "/"@,
        Infix::Multiply => "*"@,
        Infix::Remainder => "%"@,
        Infix::GreaterThanEqual => ">="@,
        Infix::LessThanEqual => "<="@,
        Infix::GreaterThan => ">"@,
        Infix::LessThan => "<"@,
        Infix::And => "&&"@,
        Infix::Or => "||"@,
        Infix::Concat => "@"@,
        Infix::ConcatStr => "++"@,
        Infix::Module => "::"@,
        Infix::In => "in"@,
        Infix::Dot => "."@,
    }
}

impl Infix {
    /// The operator's symbol.
    pub fn to_string(&self) -> (s: String)
        ensures
            s@ == infix_text(*self),
    {
        match self {
            Infix::Equal => "==".to_owned(),
            Infix::NotEqual => "!=".to_owned(),
            Infix::Plus => "+".to_owned(),
            Infix::Minus => "-".to_owned(),
            Infix::Divide => "/".to_owned(),
            Infix::Multiply => "*".to_owned(),
            Infix::Remainder => "%".to_owned(),
            Infix::GreaterThanEqual => ">=".to_owned(),
            Infix::LessThanEqual => "<=".to_owned(),
            Infix::GreaterThan => ">".to_owned(),
            Infix::LessThan => "<".to_owned(),
            Infix::And => "&&".to_owned(),
            Infix::Or => "||".to_owned(),
            Infix::Concat => "@".to_owned(),
            Infix::ConcatStr => "++".to_owned(),
            Infix::Module => "::".to_owned(),
            Infix::In => "in".to_owned(),
            Infix::Dot => ".".to_owned(),
        }
    }
}

/// Associativity of operators.
#[derive(Clone, Copy, Debug, PartialEq, Eq, Structural)]
pub enum Assoc {
    Left,
    Right,
}

/// Binding strength of operators, weakest first.
#[derive(Clone, Copy, Debug, PartialEq, Eq, Structural)]
pub enum Precedence {
    PLowest,
    POr,
    PAnd,
    PEquals,
    PLessGreater,
    PIn,
    PSum,
    PProduct,
    PDot,
    PCall,
    PModule,
}

/// How a named part of a pattern is read: as text, as an integer or as
/// base64 data.
#[derive(Clone, Copy, Debug, PartialEq, Eq, Structural)]
pub enum As {
    Str,
    I64,
    Base64,
}

/// Text patterns.
#[derive(Debug)]
pub enum Pat {
    Any,
    Lit(String),
    Class(String),
    Alt(Vec<Pat>),
    Sequence(Vec<Pat>),
    As(Ident, As),
    Opt(Box<Pat>),
    Star(Box<Pat>),
    Plus(Box<Pat>),
    CaseInsensitive(Box<Pat>),
    IgnoreWhitespace(Box<Pat>),
}

/// Mathematical model of a pattern.
pub enum PatV {
    Any,
    Lit(Seq<char>),
    Class(Seq<char>),
    Alt(Seq<PatV>),
    Sequence(Seq<PatV>),
    As(Seq<char>, As),
    Opt(Box<PatV>),
    Star(Box<PatV>),
    Plus(Box<PatV>),
    CaseInsensitive(Box<PatV>),
    IgnoreWhitespace(Box<PatV>),
}

/// Model of a pattern, part by part.
pub open spec fn pat_view(p: Pat) -> PatV
    decreases p,
{
    match p {
        Pat::Any => PatV::Any,
        Pat::Lit(s) => PatV::Lit(s@),
        Pat::Class(s) => PatV::Class(s@),
        Pat::Alt(v) => PatV::Alt(pats_view(v@)),
        Pat::Sequence(v) => PatV::Sequence(pats_view(v@)),
        Pat::As(id, a) => PatV::As(id.0@, a),
        Pat::Opt(b) => PatV::Opt(Box::new(pat_view(*b))),
        Pat::Star(b) => PatV::Star(Box::new(pat_view(*b))),
        Pat::Plus(b) => PatV::Plus(Box::new(pat_view(*b))),
        Pat::CaseInsensitive(b) => PatV::CaseInsensitive(Box::new(pat_view(*b))),
        Pat::IgnoreWhitespace(b) => PatV::IgnoreWhitespace(Box::new(pat_view(*b))),
    }
}

/// Models of a list of patterns.
pub open spec fn pats_view(s: Seq<Pat>) -> Seq<PatV>
    decreases s,
{
    if s.len() == 0 { Seq::empty() } else { seq![pat_view(s[0])] + pats_view(s.subrange(1, s.len() as int)) }
}

impl View for Pat {
    type V = PatV;

    open spec fn view(&self) -> PatV {
        pat_view(*self)
    }
}

/// The models of a list, one by one.
pub proof fn lemma_pats_view_index(s: Seq<Pat>, k: int)
    requires
        0 <= k < s.len(),
    ensures
        pats_view(s).len() == s.len(),
        pats_view(s)[k] == pat_view(s[k]),
    decreases s.len(),
{
    let t = s.subrange(1, s.len() as int);
    if k > 0 {
        lemma_pats_view_index(t, k - 1);
    } else if t.len() > 0 {
        lemma_pats_view_index(t, 0);
    } else {
        assert(pats_view(t) =~= Seq::<PatV>::empty());
    }
}

/// The regular expression of a character class.
pub open spec fn class_regex(s: Seq<char>) -> Option<Seq<char>> {
    if s == "alpha"@ {
        Some("[[:alpha:]]"@)
    } else if s == "alphanum"@ {
        Some("[[:alnum:]]"@)
    } else if s == "base64"@ {
        Some("(([A-Za-z0-9+/]{4})*([A-Za-z0-9+/]{2}==|[A-Za-z0-9+/]{3}=)?)"@)
    } else if s == "digit"@ {
        Some("[[:digit:]]"@)
    } else if s == "hex_digit"@ {
        Some("[[:xdigit:]]"@)
    } else if s == "s"@ {
        Some("[[:space:]]"@)
    } else {
        None
    }
}

/// Every character class of the pattern is a known one.
pub open spec fn pat_valid(p: PatV) -> bool
    decreases p,
{
    match p {
        PatV::Class(s) => class_regex(s) is Some,
        PatV::Alt(v) => pats_valid(v),
        PatV::Sequence(v) => pats_valid(v),
        PatV::Opt(b) => pat_valid(*b),
        PatV::Star(b) => pat_valid(*b),
        PatV::Plus(b) => pat_valid(*b),
        PatV::CaseInsensitive(b) => pat_valid(*b),
        PatV::IgnoreWhitespace(b) => pat_valid(*b),
        _ => true,
    }
}

/// Every pattern of the list is valid.
pub open spec fn pats_valid(s: Seq<PatV>) -> bool
    decreases s,
{
    s.len() == 0 || (pat_valid(s[0]) && pats_valid(s.subrange(1, s.len() as int)))
}

/// Texts joined by a separator.
pub open spec fn join_sep(ss: Seq<Seq<char>>, sep: Seq<char>) -> Seq<char>
    decreases ss.len(),
{
    if ss.len() == 0 {
        Seq::empty()
    } else if ss.len() == 1 {
        ss[0]
    } else {
        join_sep(ss.drop_last(), sep) + sep + ss.last()
    }
}

/// The regular expression of a pattern; `ws` allows white space between
/// the parts of a sequence.
pub open spec fn regex_text(p: PatV, ws: bool) -> Seq<char>
    decreases p,
{
    match p {
        PatV::Any => seq!['.'],
        PatV::Lit(s) => escape_spec(s),
        PatV::Class(s) => class_regex(s)->0,
        PatV::Alt(v) => seq!['('] + join_sep(regex_texts(v, ws), seq!['|']) + seq![')'],
        PatV::Sequence(v) => seq!['('] + join_sep(regex_texts(v, ws), if ws { "\\s*"@ } else { Seq::empty() }) + seq![')'],
        PatV::As(id, a) => match a {
            As::Str => "(?P<"@ + id + ">.+?)"@,
            As::I64 => "(?P<_i64"@ + id + ">-?[[:digit:]]+)"@,
            As::Base64 => "(?P<_b64"@ + id + ">([A-Za-z0-9+/]{4})*([A-Za-z0-9+/]{2}==|[A-Za-z0-9+/]{3}=)?)"@,
        },
        PatV::Opt(b) => regex_text(*b, ws) + seq!['?'],
        PatV::Star(b) => regex_text(*b, ws) + seq!['*', '?'],
        PatV::Plus(b) => regex_text(*b, ws) + seq!['+', '?'],
        PatV::CaseInsensitive(b) => "(?i:"@ + regex_text(*b, ws) + seq![')'],
        PatV::IgnoreWhitespace(b) => regex_text(*b, true),
    }
}

/// The regular expressions of a list of patterns.
pub open spec fn regex_texts(s: Seq<PatV>, ws: bool) -> Seq<Seq<char>>
    decreases s,
{
    if s.len() == 0 { Seq::empty() } else { seq![regex_text(s[0], ws)] + regex_texts(s.subrange(1, s.len() as int), ws) }
}

/// The expressions of a list, one by one.
pub proof fn lemma_regex_texts_index(s: Seq<PatV>, ws: bool, k: int)
    requires
        0 <= k < s.len(),
    ensures
        regex_texts(s, ws).len() == s.len(),
        regex_texts(s, ws)[k] == regex_text(s[k], ws),
        pats_valid(s) ==> pat_valid(s[k]),
    decreases s.len(),
{
    let t = s.subrange(1, s.len() as int);
    if k > 0 {
        lemma_regex_texts_index(t, ws, k - 1);
    } else if t.len() > 0 {
        lemma_regex_texts_index(t, ws, 0);
    } else {
        assert(regex_texts(t, ws) =~= Seq::<Seq<char>>::empty());
    }
}

/// Some part of the pattern is named.
pub open spec fn has_as_v(p: PatV) -> bool
    decreases p,
{
    match p {
        PatV::Any | PatV::Lit(_) | PatV::Class(_) => false,
        PatV::As(_, _) => true,
        PatV::Alt(v) => any_has_as(v),
        PatV::Sequence(v) => any_has_as(v),
        PatV::Opt(b) => has_as_v(*b),
        PatV::Star(b) => has_as_v(*b),
        PatV::Plus(b) => has_as_v(*b),
        PatV::CaseInsensitive(b) => has_as_v(*b),
        PatV::IgnoreWhitespace(b) => has_as_v(*b),
    }
}

/// Some pattern of the list has a named part.
pub open spec fn any_has_as(s: Seq<PatV>) -> bool
    decreases s,
{
    s.len() > 0 && (has_as_v(s[0]) || any_has_as(s.subrange(1, s.len() as int)))
}

/// The name of a named part and how it is read, from the name of its
/// capture group (`_i64` and `_b64` prefixes, removed wherever repeated).
pub open spec fn strip_as_spec(s: Seq<char>) -> (Seq<char>, As) {
    if s.len() >= 4 && s.take(4) == "_i64"@ {
        (trim_start_matches(s, "_i64"@), As::I64)
    } else if s.len() >= 4 && s.take(4) == "_b64"@ {
        (trim_start_matches(s, "_b64"@), As::Base64)
    } else {
        (s, As::Str)
    }
}

fn class_regex_exec(s: &str) -> (r: String)
    requires
        class_regex(s@) is Some,
    ensures
        r@ == class_regex(s@)->0,
{
    if str_eq(s, "alpha") {
        "[[:alpha:]]".to_owned()
    } else if str_eq(s, "alphanum") {
        "[[:alnum:]]".to_owned()
    } else if str_eq(s, "base64") {
        "(([A-Za-z0-9+/]{4})*([A-Za-z0-9+/]{2}==|[A-Za-z0-9+/]{3}=)?)".to_owned()
    } else if str_eq(s, "digit") {
        "[[:digit:]]".to_owned()
    } else if str_eq(s, "hex_digit") {
        "[[:xdigit:]]".to_owned()
    } else {
        "[[:space:]]".to_owned()
    }
}

impl Pat {
    /// The regular expression of the pattern (see `regex_text`).
    pub fn to_regex_str(&self, ignore_ws: bool) -> (s: String)
        requires
            pat_valid(self@),
        ensures
            s@ == regex_text(self@, ignore_ws),
        decreases self,
    {
        match self {
            Pat::Any => {
                let mut s = String::new();
                string_push(&mut s, '.');
                assert(s@ =~= seq!['.']);
                s
            },
            Pat::Lit(s) => regex_escape(s.as_str()),
            Pat::Class(s) => class_regex_exec(s.as_str()),
            Pat::Alt(vs) => {
                let body = Pat::join_regexes(vs, ignore_ws, "|");
                let mut s = "(".to_owned();
                push_str(&mut s, body.as_str());
                push_str(&mut s, ")");
                proof {
                    reveal_strlit("(");
                    reveal_strlit(")");
                    reveal_strlit("|");
                    assert("|"@ =~= seq!['|']);
                    assert(s@ =~= seq!['('] + body@ + seq![')']);
                }
                s
            },
            Pat::Sequence(vs) => {
                let body = Pat::join_regexes(vs, ignore_ws, if ignore_ws { "\\s*" } else { "" });
                let mut s = "(".to_owned();
                push_str(&mut s, body.as_str());
                push_str(&mut s, ")");
                proof {
                    reveal_strlit("(");
                    reveal_strlit(")");
                    reveal_strlit("");
                    assert(""@ =~= Seq::<char>::empty());
                    assert(s@ =~= seq!['('] + body@ + seq![')']);
                }
                s
            },
            Pat::As(id, a) => {
                match a {
                    As::Str => {
                        let mut s = "(?P<".to_owned();
                        push_str(&mut s, id.0.as_str());
                        push_str(&mut s, ">.+?)");
                        s
                    },
                    As::I64 => {
                        let mut s = "(?P<_i64".to_owned();
                        push_str(&mut s, id.0.as_str());
                        push_str(&mut s, ">-?[[:digit:]]+)");
                        s
                    },
                    As::Base64 => {
                        let mut s = "(?P<_b64".to_owned();
                        push_str(&mut s, id.0.as_str());
                        push_str(&mut s, ">([A-Za-z0-9+/]{4})*([A-Za-z0-9+/]{2}==|[A-Za-z0-9+/]{3}=)?)");
                        s
                    },
                }
            },
            Pat::Opt(p) => {
                let mut s = p.to_regex_str(ignore_ws);
                string_push(&mut s, '?');
                s
            },
            Pat::Star(p) => {
                let mut s = p.to_regex_str(ignore_ws);
                string_push(&mut s, '*');
                string_push(&mut s, '?');
                s
            },
            Pat::Plus(p) => {
                let mut s = p.to_regex_str(ignore_ws);
                string_push(&mut s, '+');
                string_push(&mut s, '?');
                s
            },
            Pat::CaseInsensitive(p) => {
                let mut s = "(?i:".to_owned();
                let inner = p.to_regex_str(ignore_ws);
                push_str(&mut s, inner.as_str());
                string_push(&mut s, ')');
                s
            },
            Pat::IgnoreWhitespace(p) => p.to_regex_str(true),
        }
    }

    /// The regular expressions of the patterns, joined by `sep`.
    fn join_regexes(vs: &Vec<Pat>, ws: bool, sep: &str) -> (s: String)
        requires
            pats_valid(pats_view(vs@)),
        ensures
            s@ == join_sep(regex_texts(pats_view(vs@), ws), sep@),
        decreases vs,
    {
        let ghost texts = regex_texts(pats_view(vs@), ws);
        let mut body = String::new();
        let mut i: usize = 0;
        while i < vs.len()
            invariant
                i <= vs@.len(),
                texts == regex_texts(pats_view(vs@), ws),
                pats_valid(pats_view(vs@)),
                body@ == join_sep(texts.take(i as int), sep@),
            decreases vs.len() - i,
        {
            proof {
                vstd::std_specs::vec::axiom_vec_index_decreases(*vs, i as int);
                lemma_pats_view_index(vs@, i as int);
                lemma_regex_texts_index(pats_view(vs@), ws, i as int);
            }
            if i > 0 {
                push_str(&mut body, sep);
            }
            let t = vs[i].to_regex_str(ws);
            push_str(&mut body, t.as_str());
            assert(texts.take(i + 1).drop_last() =~= texts.take(i as int));
            i = i + 1;
        }
        proof {
            lemma_pats_view_len(vs@);
            if vs@.len() > 0 {
                lemma_regex_texts_index(pats_view(vs@), ws, 0);
            } else {
                assert(pats_view(vs@) =~= Seq::<PatV>::empty());
            }
        }
        assert(texts.take(vs@.len() as int) =~= texts);
        body
    }

    /// Whether some part of the pattern is named.
    pub fn has_as(&self) -> (b: bool)
        ensures
            b == has_as_v(self@),
        decreases self,
    {
        match self {
            Pat::Any | Pat::Lit(_) | Pat::Class(_) => false,
            Pat::As(_, _) => true,
            Pat::Alt(v) | Pat::Sequence(v) => Pat::any_has_as(v),
            Pat::Opt(p) | Pat::Star(p) | Pat::Plus(p) | Pat::CaseInsensitive(p) | Pat::IgnoreWhitespace(p) => p.has_as(),
        }
    }

    /// Whether every character class of the pattern is a known one.
    pub fn is_valid(&self) -> (b: bool)
        ensures
            b == pat_valid(self@),
        decreases self,
    {
        match self {
            Pat::Class(s) => {
                let c = s.as_str();
                str_eq(c, "alpha") || str_eq(c, "alphanum") || str_eq(c, "base64") || str_eq(c, "digit")
                    || str_eq(c, "hex_digit") || str_eq(c, "s")
            },
            Pat::Alt(v) | Pat::Sequence(v) => Pat::all_valid(v),
            Pat::Opt(p) | Pat::Star(p) | Pat::Plus(p) | Pat::CaseInsensitive(p) | Pat::IgnoreWhitespace(p) => p.is_valid(),
            _ => true,
        }
    }

    fn all_valid(v: &Vec<Pat>) -> (b: bool)
        ensures
            b == pats_valid(pats_view(v@)),
        decreases v,
    {
        let mut i: usize = 0;
        assert(v@.subrange(0, v@.len() as int) =~= v@);
        while i < v.len()
            invariant
                i <= v@.len(),
                pats_valid(pats_view(v@)) == pats_valid(pats_view(v@.subrange(i as int, v@.len() as int))),
            decreases v.len() - i,
        {
            let ghost rest = v@.subrange(i as int, v@.len() as int);
            let ghost pv = pats_view(rest);
            proof {
                vstd::std_specs::vec::axiom_vec_index_decreases(*v, i as int);
                assert(rest[0] == v@[i as int]);
                assert(rest.subrange(1, rest.len() as int) =~= v@.subrange(i + 1, v@.len() as int));
                assert(pv[0] == pat_view(rest[0]));
                assert(pv.subrange(1, pv.len() as int) =~= pats_view(v@.subrange(i + 1, v@.len() as int)));
            }
            if !v[i].is_valid() {
                return false;
            }
            i = i + 1;
        }
        assert(pats_view(v@.subrange(i as int, v@.len() as int)) =~= Seq::<PatV>::empty());
        true
    }

    fn any_has_as(v: &Vec<Pat>) -> (b: bool)
        ensures
            b == any_has_as(pats_view(v@)),
        decreases v,
    {
        let mut i: usize = 0;
        assert(v@.subrange(0, v@.len() as int) =~= v@);
        while i < v.len()
            invariant
                i <= v@.len(),
                any_has_as(pats_view(v@)) == any_has_as(pats_view(v@.subrange(i as int, v@.len() as int))),
            decreases v.len() - i,
        {
            let ghost rest = v@.subrange(i as int, v@.len() as int);
            let ghost pv = pats_view(rest);
            proof {
                vstd::std_specs::vec::axiom_vec_index_decreases(*v, i as int);
                assert(rest[0] == v@[i as int]);
                assert(rest.subrange(1, rest.len() as int) =~= v@.subrange(i + 1, v@.len() as int));
                assert(pv[0] == pat_view(rest[0]));
                assert(pv.subrange(1, pv.len() as int) =~= pats_view(v@.subrange(i + 1, v@.len() as int)));
            }
            if v[i].has_as() {
                return true;
            }
            i = i + 1;
        }
        assert(pats_view(v@.subrange(i as int, v@.len() as int)) =~= Seq::<PatV>::empty());
        false
    }

    /// The name of a named part and how it is read, from the name of its
    /// capture group (see `strip_as_spec`).
    pub fn strip_as(s: &str) -> (r: (String, As))
        ensures
            (r.0@, r.1) == strip_as_spec(s@),
    {
        if starts_with(s, "_i64") {
            proof { reveal_strlit("_i64"); }
            (trim_start_matches_str(s, "_i64"), As::I64)
        } else if starts_with(s, "_b64") {
            proof { reveal_strlit("_b64"); reveal_strlit("_i64"); }
            (trim_start_matches_str(s, "_b64"), As::Base64)
        } else {
            proof { reveal_strlit("_b64"); reveal_strlit("_i64"); }
            (s.to_owned(), As::Str)
        }
    }

    /// A copy of the pattern.
    pub fn dup(&self) -> (r: Pat)
        ensures
            r@ == self@,
        decreases self,
    {
        match self {
            Pat::Any => Pat::Any,
            Pat::Lit(s) => Pat::Lit(s.clone()),
            Pat::Class(s) => Pat::Class(s.clone()),
            Pat::Alt(v) => Pat::Alt(Pat::dup_all(v)),
            Pat::Sequence(v) => Pat::Sequence(Pat::dup_all(v)),
            Pat::As(id, a) => Pat::As(id.dup(), *a),
            Pat::Opt(p) => Pat::Opt(Box::new(p.dup())),
            Pat::Star(p) => Pat::Star(Box::new(p.dup())),
            Pat::Plus(p) => Pat::Plus(Box::new(p.dup())),
            Pat::CaseInsensitive(p) => Pat::CaseInsensitive(Box::new(p.dup())),
            Pat::IgnoreWhitespace(p) => Pat::IgnoreWhitespace(Box::new(p.dup())),
        }
    }

    fn dup_all(v: &Vec<Pat>) -> (r: Vec<Pat>)
        ensures
            pats_view(r@) == pats_view(v@),
        decreases v,
    {
        let mut out: Vec<Pat> = Vec::new();
        let mut i: usize = 0;
        while i < v.len()
            invariant
                i <= v@.len(),
                out@.len() == i,
                forall|j: int| 0 <= j < i ==> (#[trigger] out@[j])@ == v@[j]@,
            decreases v.len() - i,
        {
            proof { vstd::std_specs::vec::axiom_vec_index_decreases(*v, i as int); }
            out.push(v[i].dup());
            i = i + 1;
        }
        proof { lemma_pats_view_eq(out@, v@); }
        out
    }

    /// Whether two patterns are the same.
    pub fn same(&self, other: &Pat) -> (b: bool)
        ensures
            b == (self@ == other@),
        decreases self,
    {
        match (self, other) {
            (Pat::Any, Pat::Any) => true,
            (Pat::Lit(a), Pat::Lit(b)) => str_eq(a.as_str(), b.as_str()),
            (Pat::Class(a), Pat::Class(b)) => str_eq(a.as_str(), b.as_str()),
            (Pat::Alt(a), Pat::Alt(b)) => Pat::same_all(a, b),
            (Pat::Sequence(a), Pat::Sequence(b)) => Pat::same_all(a, b),
            (Pat::As(a, x), Pat::As(b, y)) => str_eq(a.0.as_str(), b.0.as_str()) && *x == *y,
            (Pat::Opt(a), Pat::Opt(b)) => a.same(b),
            (Pat::Star(a), Pat::Star(b)) => a.same(b),
            (Pat::Plus(a), Pat::Plus(b)) => a.same(b),
            (Pat::CaseInsensitive(a), Pat::CaseInsensitive(b)) => a.same(b),
            (Pat::IgnoreWhitespace(a), Pat::IgnoreWhitespace(b)) => a.same(b),
            _ => false,
        }
    }

    fn same_all(a: &Vec<Pat>, b: &Vec<Pat>) -> (r: bool)
        ensures
            r == (pats_view(a@) == pats_view(b@)),
        decreases a,
    {
        if a.len() != b.len() {
            proof {
                if pats_view(a@) == pats_view(b@) {
                    lemma_pats_view_len(a@);
                    lemma_pats_view_len(b@);
                }
            }
            return false;
        }
        let mut i: usize = 0;
        while i < a.len()
            invariant
                i <= a@.len(),
                a@.len() == b@.len(),
                forall|j: int| 0 <= j < i ==> (#[trigger] a@[j])@ == b@[j]@,
            decreases a.len() - i,
        {
            proof { vstd::std_specs::vec::axiom_vec_index_decreases(*a, i as int); }
            if !a[i].same(&b[i]) {
                proof {
                    lemma_pats_view_index(a@, i as int);
                    lemma_pats_view_index(b@, i as int);
                }
                return false;
            }
            i = i + 1;
        }
        proof { lemma_pats_view_eq(a@, b@); }
        true
    }
}

/// A list has as many models as patterns.
pub proof fn lemma_pats_view_len(s: Seq<Pat>)
    ensures
        pats_view(s).len() == s.len(),
    decreases s.len(),
{
    if s.len() > 0 {
        lemma_pats_view_len(s.subrange(1, s.len() as int));
    }
}

/// Lists whose patterns have the same models have the same models.
pub proof fn lemma_pats_view_eq(a: Seq<Pat>, b: Seq<Pat>)
    requires
        a.len() == b.len(),
        forall|j: int| 0 <= j < a.len() ==> (#[trigger] a[j])@ == b[j]@,
    ensures
        pats_view(a) == pats_view(b),
    decreases a.len(),
{
    if a.len() > 0 {
        let (ta, tb) = (a.subrange(1, a.len() as int), b.subrange(1, b.len() as int));
        assert forall|j: int| 0 <= j < ta.len() implies (#[trigger] ta[j])@ == tb[j]@ by {
            assert(ta[j] == a[j + 1] && tb[j] == b[j + 1]);
        }
        lemma_pats_view_eq(ta, tb);
        assert(a[0]@ == b[0]@);
    } else {
        assert(pats_view(a) =~= pats_view(b));
    }
}

/// The regular expression that a pattern compiles to: the pattern's
/// expression anchored at both ends.
pub open spec fn anchored_regex(p: PatV) -> Seq<char> {
    seq!['^'] + regex_text(p, false) + seq!['$']
}

/// A pattern that the regular expression engine refused.
#[derive(Debug)]
pub struct RegexError;

/// A pattern together with its compiled regular expression.
#[derive(Debug)]
pub struct PolicyRegex(pub Pat, pub CompiledRegex);

impl PolicyRegex {
    /// Compiles a pattern, anchored at both ends.
    pub fn from_pat(p: &Pat) -> (r: Result<PolicyRegex, RegexError>)
        requires
            pat_valid(p@),
        ensures
            r is Ok <==> regex_compiles(anchored_regex(p@)),
            r matches Ok(x) ==> x.0@ == p@ && x.1.source() == anchored_regex(p@),
    {
        let mut s = String::new();
        string_push(&mut s, '^');
        let body = p.to_regex_str(false);
        push_str(&mut s, body.as_str());
        string_push(&mut s, '$');
        assert(s@ =~= anchored_regex(p@));
        match compile_regex(s.as_str()) {
            Some(re) => Ok(PolicyRegex(p.dup(), re)),
            None => Err(RegexError),
        }
    }

    /// Whether the expression matches the text.
    pub fn is_match(&self, s: &str) -> (b: bool)
        ensures
            b == regex_is_match(self.1.source(), s@),
    {
        regex_find(&self.1, s)
    }

    /// Whether two compiled patterns come from the same pattern.
    pub fn same(&self, other: &PolicyRegex) -> (b: bool)
        ensures
            b == (self.0@ == other.0@),
    {
        self.0.same(&other.0)
    }

    /// A copy.
    pub fn dup(&self) -> (r: PolicyRegex)
        ensures
            r.0@ == self.0@,
            r.1.source() == self.1.source(),
    {
        PolicyRegex(self.0.dup(), clone_regex(&self.1))
    }
}


/// An identifier with its place in the text.
#[derive(Debug)]
pub struct LocIdent(pub Loc, pub Ident);

impl LocIdent {
    /// The identifier's name.
    pub fn id(&self) -> (s: &str)
        ensures
            s@ == self.1.0@,
    {
        self.1.0.as_str()
    }

    /// A copy.
    pub fn dup(&self) -> (r: LocIdent)
        ensures
            r@ == self@,
    {
        LocIdent(self.0, self.1.dup())
    }
}

impl View for LocIdent {
    type V = (Loc, Seq<char>);

    open spec fn view(&self) -> (Loc, Seq<char>) {
        (self.0, self.1.0@)
    }
}

/// Types as written in the text: a name, a name applied to a type
/// (`List<i64>`), or a tuple.
#[derive(Debug)]
pub enum Typ {
    Atom(LocIdent),
    Cons(LocIdent, Box<Typ>),
    Tuple(Vec<Typ>),
}

/// Model of a written type.
pub enum TypSV {
    Atom((Loc, Seq<char>)),
    Cons((Loc, Seq<char>), Box<TypSV>),
    Tuple(Seq<TypSV>),
}

/// Model of a written type, part by part.
pub open spec fn typ_sv(t: Typ) -> TypSV
    decreases t,
{
    match t {
        Typ::Atom(i) => TypSV::Atom(i@),
        Typ::Cons(i, b) => TypSV::Cons(i@, Box::new(typ_sv(*b))),
        Typ::Tuple(v) => TypSV::Tuple(typs_sv(v@)),
    }
}

/// Models of a list of written types.
pub open spec fn typs_sv(s: Seq<Typ>) -> Seq<TypSV>
    decreases s,
{
    if s.len() == 0 { Seq::empty() } else { seq![typ_sv(s[0])] + typs_sv(s.subrange(1, s.len() as int)) }
}

impl View for Typ {
    type V = TypSV;

    open spec fn view(&self) -> TypSV {
        typ_sv(*self)
    }
}

/// A list view that unfolds element by element.
pub open spec fn unfolds<T, V>(lv: spec_fn(Seq<T>) -> Seq<V>, f: spec_fn(T) -> V) -> bool {
    forall|s: Seq<T>| #[trigger] lv(s) == if s.len() == 0 {
        Seq::<V>::empty()
    } else {
        seq![f(s[0])] + lv(s.subrange(1, s.len() as int))
    }
}

/// A list view that unfolds element by element maps each element.
pub proof fn lemma_unfolds_map<T, V>(lv: spec_fn(Seq<T>) -> Seq<V>, f: spec_fn(T) -> V, s: Seq<T>)
    requires
        unfolds(lv, f),
    ensures
        lv(s) == s.map_values(f),
    decreases s.len(),
{
    if s.len() > 0 {
        let t = s.subrange(1, s.len() as int);
        lemma_unfolds_map(lv, f, t);
        assert(lv(s) == seq![f(s[0])] + lv(t));
        assert(seq![f(s[0])] + t.map_values(f) =~= s.map_values(f));
    } else {
        assert(lv(s) == Seq::<V>::empty());
        assert(s.map_values(f) =~= Seq::<V>::empty());
    }
}

/// The models of written types, element by element.
pub proof fn lemma_typs_sv(s: Seq<Typ>)
    ensures
        typs_sv(s) == s.map_values(|t: Typ| typ_sv(t)),
{
    let lv = |x: Seq<Typ>| typs_sv(x);
    let f = |t: Typ| typ_sv(t);
    assert(unfolds(lv, f)) by {
        assert forall|x: Seq<Typ>| #[trigger] lv(x) == if x.len() == 0 {
            Seq::<TypSV>::empty()
        } else {
            seq![f(x[0])] + lv(x.subrange(1, x.len() as int))
        } by {}
    }
    lemma_unfolds_map(lv, f, s);
    assert(lv(s) == typs_sv(s));
}

/// A function parameter and its written type.
#[derive(Debug)]
pub struct Param {
    pub name: LocIdent,
    pub typ: Typ,
}

impl Param {
    /// The parameter's name.
    pub fn name(&self) -> (s: &str)
        ensures
            s@ == self.name@.1,
    {
        self.name.id()
    }
}

/// Model of a parameter.
pub open spec fn param_sv(p: Param) -> ((Loc, Seq<char>), TypSV) {
    (p.name@, p.typ@)
}

/// A function header: name, parameters and written return type.
#[derive(Debug)]
pub struct FnHead {
    pub id: LocIdent,
    pub params: Vec<Param>,
    pub typ: Option<Typ>,
}

impl FnHead {
    /// The function's name.
    pub fn name(&self) -> (s: &str)
        ensures
            s@ == self.id@.1,
    {
        self.id.id()
    }
}

/// The header of a function of an external service: the argument types
/// (`None` for `_`, any arguments) and the return type.
#[derive(Debug)]
pub struct Head {
    pub id: LocIdent,
    pub typs: Option<Vec<Typ>>,
    pub typ: Option<Typ>,
}

impl Head {
    /// The function's name.
    pub fn name(&self) -> (s: &str)
        ensures
            s@ == self.id@.1,
    {
        self.id.id()
    }

    /// Where the header is.
    pub fn loc(&self) -> (l: Loc)
        ensures
            l == self.id.0,
    {
        self.id.0
    }
}

/// An external service: its name, its address and its functions.
#[derive(Debug)]
pub struct External {
    pub name: LocIdent,
    pub url: LocIdent,
    pub headers: Vec<Head>,
}

impl External {
    /// The service's name.
    pub fn name(&self) -> (s: &str)
        ensures
            s@ == self.name@.1,
    {
        self.name.id()
    }

    /// The service's address.
    pub fn url(&self) -> (s: &str)
        ensures
            s@ == self.url@.1,
    {
        self.url.id()
    }
}

/// Patterns of `matches`: a text pattern or a label.
#[derive(Debug)]
pub enum Pattern {
    Regex(Pat),
    Label(Label),
}

/// Model of a `matches` pattern.
pub enum PatternSV {
    Regex(PatV),
    Label(Seq<NodeV>),
}

impl View for Pattern {
    type V = PatternSV;

    open spec fn view(&self) -> PatternSV {
        match self {
            Pattern::Regex(p) => PatternSV::Regex(p@),
            Pattern::Label(l) => PatternSV::Label(l@),
        }
    }
}

/// Expressions as written, each part with its place in the text.
#[derive(Debug)]
pub enum Expr {
    IdentExpr(Ident),
    LitExpr(Literal),
    ListExpr(Vec<LocExpr>),
    TupleExpr(Vec<LocExpr>),
    PrefixExpr(Prefix, Box<LocExpr>),
    InfixExpr(Infix, Box<LocExpr>, Box<LocExpr>),
    IterExpr {
        op: Iter,
        idents: Vec<LocIdent>,
        expr: Box<LocExpr>,
        body: BlockStmt,
        accumulator: Option<(LocIdent, Box<LocExpr>)>,
    },
    IfExpr {
        cond: Box<LocExpr>,
        consequence: BlockStmt,
        alternative: Option<BlockStmt>,
    },
    IfMatchExpr {
        matches: Vec<(LocExpr, Pattern)>,
        consequence: BlockStmt,
        alternative: Option<BlockStmt>,
    },
    IfSomeMatchExpr {
        var: LocIdent,
        expr: Box<LocExpr>,
        consequence: BlockStmt,
        alternative: Option<BlockStmt>,
    },
    CallExpr {
        loc: Loc,
        function: String,
        arguments: Vec<LocExpr>,
    },
}

/// An expression with its place.
#[derive(Debug)]
pub struct LocExpr(pub Loc, pub Expr);

/// Statements.
#[derive(Debug)]
pub enum Stmt {
    LetStmt(Vec<LocIdent>, LocExpr),
    ReturnStmt(LocExpr),
    ExprStmt {
        exp: Expr,
        async_tag: bool,
        semi: bool,
    },
}

/// A statement with its place.
#[derive(Debug)]
pub struct LocStmt(pub Loc, pub Stmt);

/// A block of statements, perhaps marked `async`.
#[derive(Debug)]
pub struct BlockStmt {
    pub statements: Vec<LocStmt>,
    pub async_tag: bool,
}

/// Model of a written expression.
pub enum ExprSV {
    IdentExpr(Seq<char>),
    LitExpr(LitV),
    ListExpr(Seq<LocExprSV>),
    TupleExpr(Seq<LocExprSV>),
    PrefixExpr(Prefix, Box<LocExprSV>),
    InfixExpr(Infix, Box<LocExprSV>, Box<LocExprSV>),
    IterExpr {
        op: Iter,
        idents: Seq<(Loc, Seq<char>)>,
        expr: Box<LocExprSV>,
        body: BlockSV,
        accumulator: Option<((Loc, Seq<char>), Box<LocExprSV>)>,
    },
    IfExpr {
        cond: Box<LocExprSV>,
        consequence: BlockSV,
        alternative: Option<BlockSV>,
    },
    IfMatchExpr {
        matches: Seq<(LocExprSV, PatternSV)>,
        consequence: BlockSV,
        alternative: Option<BlockSV>,
    },
    IfSomeMatchExpr {
        var: (Loc, Seq<char>),
        expr: Box<LocExprSV>,
        consequence: BlockSV,
        alternative: Option<BlockSV>,
    },
    CallExpr {
        loc: Loc,
        function: Seq<char>,
        arguments: Seq<LocExprSV>,
    },
}

/// Model of a written expression with its place.
pub struct LocExprSV(pub Loc, pub ExprSV);

/// Model of a statement.
pub enum StmtSV {
    LetStmt(Seq<(Loc, Seq<char>)>, LocExprSV),
    ReturnStmt(LocExprSV),
    ExprStmt {
        exp: ExprSV,
        async_tag: bool,
        semi: bool,
    },
}

/// Model of a statement with its place.
pub struct LocStmtSV(pub Loc, pub StmtSV);

/// Model of a block.
pub struct BlockSV {
    pub statements: Seq<LocStmtSV>,
    pub async_tag: bool,
}

/// The models of identifiers with their places.
pub open spec fn loc_idents_sv(s: Seq<LocIdent>) -> Seq<(Loc, Seq<char>)> {
    s.map_values(|i: LocIdent| i@)
}

/// Model of a written expression, part by part.
pub open spec fn expr_sv(e: Expr) -> ExprSV
    decreases e,
{
    match e {
        Expr::IdentExpr(i) => ExprSV::IdentExpr(i.0@),
        Expr::LitExpr(l) => ExprSV::LitExpr(l@),
        Expr::ListExpr(v) => ExprSV::ListExpr(loc_exprs_sv(v@)),
        Expr::TupleExpr(v) => ExprSV::TupleExpr(loc_exprs_sv(v@)),
        Expr::PrefixExpr(p, b) => ExprSV::PrefixExpr(p, Box::new(loc_expr_sv(*b))),
        Expr::InfixExpr(op, a, b) => ExprSV::InfixExpr(op, Box::new(loc_expr_sv(*a)), Box::new(loc_expr_sv(*b))),
        Expr::IterExpr { op, idents, expr, body, accumulator } => ExprSV::IterExpr {
            op,
            idents: loc_idents_sv(idents@),
            expr: Box::new(loc_expr_sv(*expr)),
            body: block_sv(body),
            accumulator: match accumulator {
                Some((i, a)) => Some((i@, Box::new(loc_expr_sv(*a)))),
                None => None,
            },
        },
        Expr::IfExpr { cond, consequence, alternative } => ExprSV::IfExpr {
            cond: Box::new(loc_expr_sv(*cond)),
            consequence: block_sv(consequence),
            alternative: match alternative {
                Some(b) => Some(block_sv(b)),
                None => None,
            },
        },
        Expr::IfMatchExpr { matches, consequence, alternative } => ExprSV::IfMatchExpr {
            matches: match_arms_sv(matches@),
            consequence: block_sv(consequence),
            alternative: match alternative {
                Some(b) => Some(block_sv(b)),
                None => None,
            },
        },
        Expr::IfSomeMatchExpr { var, expr, consequence, alternative } => ExprSV::IfSomeMatchExpr {
            var: var@,
            expr: Box::new(loc_expr_sv(*expr)),
            consequence: block_sv(consequence),
            alternative: match alternative {
                Some(b) => Some(block_sv(b)),
                None => None,
            },
        },
        Expr::CallExpr { loc, function, arguments } => ExprSV::CallExpr {
            loc,
            function: function@,
            arguments: loc_exprs_sv(arguments@),
        },
    }
}

/// Model of a written expression with its place.
pub open spec fn loc_expr_sv(e: LocExpr) -> LocExprSV
    decreases e,
{
    LocExprSV(e.0, expr_sv(e.1))
}

/// Models of a list of expressions.
pub open spec fn loc_exprs_sv(s: Seq<LocExpr>) -> Seq<LocExprSV>
    decreases s,
{
    if s.len() == 0 { Seq::empty() } else { seq![loc_expr_sv(s[0])] + loc_exprs_sv(s.subrange(1, s.len() as int)) }
}

/// Models of a list of `matches` arms.
pub open spec fn match_arms_sv(s: Seq<(LocExpr, Pattern)>) -> Seq<(LocExprSV, PatternSV)>
    decreases s,
{
    if s.len() == 0 {
        Seq::empty()
    } else {
        seq![(loc_expr_sv(s[0].0), s[0].1@)] + match_arms_sv(s.subrange(1, s.len() as int))
    }
}

/// Model of a statement.
pub open spec fn stmt_sv(s: Stmt) -> StmtSV
    decreases s,
{
    match s {
        Stmt::LetStmt(ids, e) => StmtSV::LetStmt(loc_idents_sv(ids@), loc_expr_sv(e)),
        Stmt::ReturnStmt(e) => StmtSV::ReturnStmt(loc_expr_sv(e)),
        Stmt::ExprStmt { exp, async_tag, semi } => StmtSV::ExprStmt { exp: expr_sv(exp), async_tag, semi },
    }
}

/// Models of a list of statements.
pub open spec fn loc_stmts_sv(s: Seq<LocStmt>) -> Seq<LocStmtSV>
    decreases s,
{
    if s.len() == 0 {
        Seq::empty()
    } else {
        seq![LocStmtSV(s[0].0, stmt_sv(s[0].1))] + loc_stmts_sv(s.subrange(1, s.len() as int))
    }
}

/// Model of a block.
pub open spec fn block_sv(b: BlockStmt) -> BlockSV
    decreases b,
{
    BlockSV { statements: loc_stmts_sv(b.statements@), async_tag: b.async_tag }
}

impl View for Expr {
    type V = ExprSV;

    open spec fn view(&self) -> ExprSV {
        expr_sv(*self)
    }
}

impl View for LocExpr {
    type V = LocExprSV;

    open spec fn view(&self) -> LocExprSV {
        loc_expr_sv(*self)
    }
}

impl View for Stmt {
    type V = StmtSV;

    open spec fn view(&self) -> StmtSV {
        stmt_sv(*self)
    }
}

impl View for LocStmt {
    type V = LocStmtSV;

    open spec fn view(&self) -> LocStmtSV {
        LocStmtSV(self.0, stmt_sv(self.1))
    }
}

impl View for BlockStmt {
    type V = BlockSV;

    open spec fn view(&self) -> BlockSV {
        block_sv(*self)
    }
}

/// The models of expressions, element by element.
pub proof fn lemma_loc_exprs_sv(s: Seq<LocExpr>)
    ensures
        loc_exprs_sv(s) == s.map_values(|e: LocExpr| e@),
{
    let lv = |x: Seq<LocExpr>| loc_exprs_sv(x);
    let f = |e: LocExpr| e@;
    assert(unfolds(lv, f)) by {
        assert forall|x: Seq<LocExpr>| #[trigger] lv(x) == if x.len() == 0 {
            Seq::<LocExprSV>::empty()
        } else {
            seq![f(x[0])] + lv(x.subrange(1, x.len() as int))
        } by {}
    }
    lemma_unfolds_map(lv, f, s);
    assert(lv(s) == loc_exprs_sv(s));
}

/// The models of statements, element by element.
pub proof fn lemma_loc_stmts_sv(s: Seq<LocStmt>)
    ensures
        loc_stmts_sv(s) == s.map_values(|e: LocStmt| e@),
{
    let lv = |x: Seq<LocStmt>| loc_stmts_sv(x);
    let f = |e: LocStmt| e@;
    assert(unfolds(lv, f)) by {
        assert forall|x: Seq<LocStmt>| #[trigger] lv(x) == if x.len() == 0 {
            Seq::<LocStmtSV>::empty()
        } else {
            seq![f(x[0])] + lv(x.subrange(1, x.len() as int))
        } by {}
    }
    lemma_unfolds_map(lv, f, s);
    assert(lv(s) == loc_stmts_sv(s));
}

/// The models of `matches` arms, element by element.
pub proof fn lemma_match_arms_sv(s: Seq<(LocExpr, Pattern)>)
    ensures
        match_arms_sv(s) == s.map_values(|a: (LocExpr, Pattern)| (a.0@, a.1@)),
{
    let lv = |x: Seq<(LocExpr, Pattern)>| match_arms_sv(x);
    let f = |a: (LocExpr, Pattern)| (a.0@, a.1@);
    assert(unfolds(lv, f)) by {
        assert forall|x: Seq<(LocExpr, Pattern)>| #[trigger] lv(x) == if x.len() == 0 {
            Seq::<(LocExprSV, PatternSV)>::empty()
        } else {
            seq![f(x[0])] + lv(x.subrange(1, x.len() as int))
        } by {}
    }
    lemma_unfolds_map(lv, f, s);
    assert(lv(s) == match_arms_sv(s));
}

/// A function: header and body.
#[derive(Debug)]
pub struct FnDecl {
    pub head: FnHead,
    pub body: BlockStmt,
}

impl FnDecl {
    /// The function's name.
    pub fn name(&self) -> (s: &str)
        ensures
            s@ == self.head.id@.1,
    {
        self.head.id.id()
    }

    /// The function's parameters.
    pub fn args(&self) -> (r: &Vec<Param>)
        ensures
            r == &self.head.params,
    {
        &self.head.params
    }

    /// The function's body.
    pub fn body(&self) -> (r: &BlockStmt)
        ensures
            r == &self.body,
    {
        &self.body
    }

    /// The written return type, if any.
    pub fn typ_id(&self) -> (r: &Option<Typ>)
        ensures
            r == &self.head.typ,
    {
        &self.head.typ
    }

    /// Where the function is.
    pub fn loc(&self) -> (l: Loc)
        ensures
            l == self.head.id.0,
    {
        self.head.id.0
    }
}

/// A declaration of a program: an external service or a function.
#[derive(Debug)]
pub enum Decl {
    External(External),
    FnDecl(FnDecl),
}

/// Model of a parameter list.
pub open spec fn params_sv(s: Seq<Param>) -> Seq<((Loc, Seq<char>), TypSV)> {
    s.map_values(|p: Param| (p.name@, p.typ@))
}

/// Model of an optional written type.
pub open spec fn opt_typ_sv(t: Option<Typ>) -> Option<TypSV> {
    match t {
        Some(x) => Some(x@),
        None => None,
    }
}

/// Model of a function header.
pub struct FnHeadSV {
    pub id: (Loc, Seq<char>),
    pub params: Seq<((Loc, Seq<char>), TypSV)>,
    pub typ: Option<TypSV>,
}

impl View for FnHead {
    type V = FnHeadSV;

    open spec fn view(&self) -> FnHeadSV {
        FnHeadSV { id: self.id@, params: params_sv(self.params@), typ: opt_typ_sv(self.typ) }
    }
}

/// Model of an external function's header.
pub struct HeadSV {
    pub id: (Loc, Seq<char>),
    pub typs: Option<Seq<TypSV>>,
    pub typ: Option<TypSV>,
}

impl View for Head {
    type V = HeadSV;

    open spec fn view(&self) -> HeadSV {
        HeadSV {
            id: self.id@,
            typs: match self.typs {
                Some(v) => Some(v@.map_values(|t: Typ| t@)),
                None => None,
            },
            typ: opt_typ_sv(self.typ),
        }
    }
}

/// Model of an external service.
pub struct ExternalSV {
    pub name: (Loc, Seq<char>),
    pub url: (Loc, Seq<char>),
    pub headers: Seq<HeadSV>,
}

impl View for External {
    type V = ExternalSV;

    open spec fn view(&self) -> ExternalSV {
        ExternalSV { name: self.name@, url: self.url@, headers: self.headers@.map_values(|h: Head| h@) }
    }
}

/// Model of a function.
pub struct FnDeclSV {
    pub head: FnHeadSV,
    pub body: BlockSV,
}

impl View for FnDecl {
    type V = FnDeclSV;

    open spec fn view(&self) -> FnDeclSV {
        FnDeclSV { head: self.head@, body: self.body@ }
    }
}

/// Model of a declaration.
pub enum DeclSV {
    External(ExternalSV),
    FnDecl(FnDeclSV),
}

impl View for Decl {
    type V = DeclSV;

    open spec fn view(&self) -> DeclSV {
        match self {
            Decl::External(e) => DeclSV::External(e@),
            Decl::FnDecl(d) => DeclSV::FnDecl(d@),
        }
    }
}

} // verus!
