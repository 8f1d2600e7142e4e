//! Lexer of the policy language: from source text to located tokens.

use vstd::prelude::*;
use vstd::utf8::{encode_utf8, encode_scalar};
use crate::text::{is_digit, i64_parse, parse_i64, str_eq, string_push, string_from_chars, chars_of, push_str,
    u64_to_string, nat_decimal};
use crate::labels::{Label, NodeV, label_parse, syntax_compiles};

verus! {

/// A source location: line and column.
#[derive(Clone, Copy, Debug, PartialEq, Eq, Default)]
pub struct Loc(pub u32, pub usize);

impl Loc {
    /// The location of code that has no place in a source text.
    pub fn dummy() -> (l: Loc)
        ensures
            l == Loc(0, 0),
    {
        Loc(0, 0)
    }

    /// `line L, column C`.
    pub fn to_string(&self) -> (s: String)
        ensures
            s@ == "line "@ + nat_decimal(self.0 as nat) + ", column "@ + nat_decimal(self.1 as nat),
    {
        let mut s = "line ".to_owned();
        push_str(&mut s, u64_to_string(self.0 as u64).as_str());
        push_str(&mut s, ", column ");
        push_str(&mut s, u64_to_string(self.1 as u64).as_str());
        s
    }
}

/// The tokens of the language. A floating-point literal keeps its text.
#[derive(Debug)]
pub enum Token {
    Illegal(String),
    EOF,
    Comment(String),
    Ident(String),
    BoolLiteral(bool),
    DataLiteral(Vec<u8>),
    FloatLiteral(String),
    IntLiteral(i64),
    LabelLiteral(Label),
    StringLiteral(String),
    SomeKeyword,
    Regex,
    Assign,
    If,
    Else,
    Async,
    Plus,
    Minus,
    Divide,
    Multiply,
    Equal,
    NotEqual,
    GreaterThanEqual,
    LessThanEqual,
    GreaterThan,
    LessThan,
    Not,
    And,
    Or,
    Dot,
    PlusPlus,
    Percent,
    QuestionMark,
    Function,
    All,
    Any,
    Filter,
    FilterMap,
    ForEach,
    Fold,
    MapEach,
    Where,
    Let,
    Return,
    In,
    Matches,
    As,
    External,
    Comma,
    Colon,
    SemiColon,
    LParen,
    RParen,
    LBrace,
    RBrace,
    LBracket,
    RBracket,
    Underscore,
    Arrow,
    Bar,
    ColonColon,
    At,
}

/// Model of a token.
pub enum TokenV {
    Illegal(Seq<char>),
    EOF,
    Comment(Seq<char>),
    Ident(Seq<char>),
    BoolLiteral(bool),
    DataLiteral(Seq<u8>),
    FloatLiteral(Seq<char>),
    IntLiteral(i64),
    LabelLiteral(Seq<NodeV>),
    StringLiteral(Seq<char>),
    SomeKeyword,
    Regex,
    Assign,
    If,
    Else,
    Async,
    Plus,
    Minus,
    Divide,
    Multiply,
    Equal,
    NotEqual,
    GreaterThanEqual,
    LessThanEqual,
    GreaterThan,
    LessThan,
    Not,
    And,
    Or,
    Dot,
    PlusPlus,
    Percent,
    QuestionMark,
    Function,
    All,
    Any,
    Filter,
    FilterMap,
    ForEach,
    Fold,
    MapEach,
    Where,
    Let,
    Return,
    In,
    Matches,
    As,
    External,
    Comma,
    Colon,
    SemiColon,
    LParen,
    RParen,
    LBrace,
    RBrace,
    LBracket,
    RBracket,
    Underscore,
    Arrow,
    Bar,
    ColonColon,
    At,
}

impl View for Token {
    type V = TokenV;

    open spec fn view(&self) -> TokenV {
        match self {
            Token::Illegal(x) => TokenV::Illegal(x@),
            Token::EOF => TokenV::EOF,
            Token::Comment(x) => TokenV::Comment(x@),
            Token::Ident(x) => TokenV::Ident(x@),
            Token::BoolLiteral(x) => TokenV::BoolLiteral(*x),
            Token::DataLiteral(x) => TokenV::DataLiteral(x@),
            Token::FloatLiteral(x) => TokenV::FloatLiteral(x@),
            Token::IntLiteral(x) => TokenV::IntLiteral(*x),
            Token::LabelLiteral(x) => TokenV::LabelLiteral(x@),
            Token::StringLiteral(x) => TokenV::StringLiteral(x@),
            Token::SomeKeyword => TokenV::SomeKeyword,
            Token::Regex => TokenV::Regex,
            Token::Assign => TokenV::Assign,
            Token::If => TokenV::If,
            Token::Else => TokenV::Else,
            Token::Async => TokenV::Async,
            Token::Plus => TokenV::Plus,
            Token::Minus => TokenV::Minus,
            Token::Divide => TokenV::Divide,
            Token::Multiply => TokenV::Multiply,
            Token::Equal => TokenV::Equal,
            Token::NotEqual => TokenV::NotEqual,
            Token::GreaterThanEqual => TokenV::GreaterThanEqual,
            Token::LessThanEqual => TokenV::LessThanEqual,
            Token::GreaterThan => TokenV::GreaterThan,
            Token::LessThan => TokenV::LessThan,
            Token::Not => TokenV::Not,
            Token::And => TokenV::And,
            Token::Or => TokenV::Or,
            Token::Dot => TokenV::Dot,
            Token::PlusPlus => TokenV::PlusPlus,
            Token::Percent => TokenV::Percent,
            Token::QuestionMark => TokenV::QuestionMark,
            Token::Function => TokenV::Function,
            Token::All => TokenV::All,
            Token::Any => TokenV::Any,
            Token::Filter => TokenV::Filter,
            Token::FilterMap => TokenV::FilterMap,
            Token::ForEach => TokenV::ForEach,
            Token::Fold => TokenV::Fold,
            Token::MapEach => TokenV::MapEach,
            Token::Where => TokenV::Where,
            Token::Let => TokenV::Let,
            Token::Return => TokenV::Return,
            Token::In => TokenV::In,
            Token::Matches => TokenV::Matches,
            Token::As => TokenV::As,
            Token::External => TokenV::External,
            Token::Comma => TokenV::Comma,
            Token::Colon => TokenV::Colon,
            Token::SemiColon => TokenV::SemiColon,
            Token::LParen => TokenV::LParen,
            Token::RParen => TokenV::RParen,
            Token::LBrace => TokenV::LBrace,
            Token::RBrace => TokenV::RBrace,
            Token::LBracket => TokenV::LBracket,
            Token::RBracket => TokenV::RBracket,
            Token::Underscore => TokenV::Underscore,
            Token::Arrow => TokenV::Arrow,
            Token::Bar => TokenV::Bar,
            Token::ColonColon => TokenV::ColonColon,
            Token::At => TokenV::At,
        }
    }
}

/// White space between tokens.
pub open spec fn is_space(c: char) -> bool {
    c == ' ' || c == '\t' || c == '\r' || c == '\n'
}

/// The first position from `i` on that is not white space.
pub open spec fn skip_ws(s: Seq<char>, i: nat) -> nat
    decreases s.len() - i,
{
    if i < s.len() && is_space(s[i as int]) { skip_ws(s, i + 1) } else { i }
}

/// The end of the run of decimal digits from `i`.
pub open spec fn digits_end(s: Seq<char>, i: nat) -> nat
    decreases s.len() - i,
{
    if i < s.len() && is_digit(s[i as int]) { digits_end(s, i + 1) } else { i }
}

/// A sign.
pub open spec fn is_sign(c: char) -> bool {
    c == '+' || c == '-'
}

/// The outcome of reading a number's text: no number, a number whose
/// exponent has no digits, or the end of the number.
pub enum FloatScan {
    NoMatch,
    Cut,
    Match(nat),
}

/// Reading the text of a number from `j`: an optional sign, digits with an
/// optional fraction (or a point and digits), and an optional exponent.
pub open spec fn float_scan(s: Seq<char>, j: nat) -> FloatScan {
    let n = s.len();
    let j0: nat = if j < n && is_sign(s[j as int]) { j + 1 } else { j };
    let m: Option<nat> = if j0 < n && is_digit(s[j0 as int]) {
        let j1 = digits_end(s, j0);
        if j1 < n && s[j1 as int] == '.' { Some(digits_end(s, j1 + 1)) } else { Some(j1) }
    } else if j0 + 1 < n && s[j0 as int] == '.' && is_digit(s[j0 as int + 1]) {
        Some(digits_end(s, j0 + 1))
    } else {
        None
    };
    match m {
        None => FloatScan::NoMatch,
        Some(j2) => if j2 < n && (s[j2 as int] == 'e' || s[j2 as int] == 'E') {
            let j3: nat = if j2 + 1 < n && is_sign(s[j2 as int + 1]) { j2 + 2 } else { j2 + 1 };
            if j3 < n && is_digit(s[j3 as int]) { FloatScan::Match(digits_end(s, j3)) } else { FloatScan::Cut }
        } else {
            FloatScan::Match(j2)
        },
    }
}

/// The outcome of reading a token at a position: not this kind of token;
/// a place where reading stops the program; or the token, where its text
/// starts and ends, and where the input it takes up ends.
pub enum Scan {
    No,
    Panic,
    Tok(TokenV, nat, nat, nat),
}

/// Reading a number: an integer, or a floating-point number by its text; a
/// number ending in a point gives its integer part (or the minus sign before
/// it); a point before digits without an exponent is a point.
pub open spec fn number_scan(s: Seq<char>, j: nat) -> Scan {
    let n = s.len();
    match float_scan(s, j) {
        FloatScan::Match(e) => {
            let fl = s.subrange(j as int, e as int);
            if fl.last() == '.' {
                if fl[0] == '-' {
                    Scan::Tok(TokenV::Minus, j, j + 1, j + 1)
                } else if is_digit(s[j as int]) {
                    let d = digits_end(s, j);
                    match i64_parse(s.subrange(j as int, d as int)) {
                        Some(v) => Scan::Tok(TokenV::IntLiteral(v), j, d, d),
                        None => Scan::Panic,
                    }
                } else {
                    Scan::No
                }
            } else if fl[0] == '.' && !fl.contains('e') {
                Scan::Tok(TokenV::Dot, j, j + 1, j + 1)
            } else {
                match i64_parse(fl) {
                    Some(v) => {
                        let k: nat = if s[j as int] == '-' { j + 1 } else { j };
                        if k < n && is_digit(s[k as int]) {
                            Scan::Tok(TokenV::IntLiteral(v), k, digits_end(s, k), digits_end(s, k))
                        } else {
                            Scan::No
                        }
                    },
                    None => Scan::Tok(TokenV::FloatLiteral(fl), j, e, e),
                }
            }
        },
        _ => Scan::No,
    }
}

/// The outcome of reading the contents of a string.
pub enum EscScan {
    Bad,
    End(nat),
}

/// Reading the contents of a string from `i` (they started at `c0`):
/// characters other than a backslash or a quote, and escaped backslashes
/// and quotes, up to a quote or the end of the input.
pub open spec fn esc_scan(s: Seq<char>, c0: nat, i: nat) -> EscScan
    decreases s.len() - i,
{
    let n = s.len();
    if i >= n {
        EscScan::End(n)
    } else if s[i as int] != '\\' && s[i as int] != '"' {
        if i + 1 >= n { EscScan::End(n) } else { esc_scan(s, c0, i + 1) }
    } else if s[i as int] == '\\' {
        if i + 1 >= n {
            EscScan::Bad
        } else if s[i as int + 1] == '\\' || s[i as int + 1] == '"' {
            if i + 2 >= n { EscScan::End(n) } else { esc_scan(s, c0, i + 2) }
        } else {
            EscScan::Bad
        }
    } else {
        if i == c0 { EscScan::Bad } else { EscScan::End(i) }
    }
}

/// Every occurrence of `p` (from the left, not overlapping) replaced by `r`.
pub open spec fn replace_all(s: Seq<char>, p: Seq<char>, r: Seq<char>) -> Seq<char>
    decreases s.len(),
{
    if s.len() == 0 {
        Seq::empty()
    } else if p.len() > 0 && s.len() >= p.len() && s.take(p.len() as int) == p {
        r + replace_all(s.skip(p.len() as int), p, r)
    } else {
        seq![s[0]] + replace_all(s.drop_first(), p, r)
    }
}

/// The value of a string's contents: escaped quotes, then escaped
/// backslashes, replaced.
pub open spec fn unescape(v: Seq<char>) -> Seq<char> {
    replace_all(replace_all(v, seq!['\\', '"'], seq!['"']), seq!['\\', '\\'], seq!['\\'])
}

/// A string token: data after `b`, text otherwise.
pub open spec fn string_token(data: bool, v: Seq<char>) -> TokenV {
    if data { TokenV::DataLiteral(encode_utf8(v)) } else { TokenV::StringLiteral(v) }
}

/// Reading a string literal (`"..."`, or `b"..."` for data); the token's
/// text is the opening quote.
pub open spec fn string_scan(s: Seq<char>, j: nat) -> Scan {
    let n = s.len();
    let b: nat = if s[j as int] == 'b' && j + 1 < n && s[j as int + 1] == '"' { 2 } else if s[j as int] == '"' { 1 } else { 0 };
    if b == 0 {
        Scan::No
    } else {
        let c0 = j + b;
        match esc_scan(s, c0, c0) {
            EscScan::Bad => if c0 < n && s[c0 as int] == '"' {
                Scan::Tok(string_token(b == 2, Seq::empty()), j, c0, c0 + 1)
            } else {
                Scan::No
            },
            EscScan::End(k) => if k < n && s[k as int] == '"' {
                Scan::Tok(string_token(b == 2, unescape(s.subrange(c0 as int, k as int))), j, c0, k + 1)
            } else {
                Scan::No
            },
        }
    }
}

/// The first quote (`'`) from `i` on.
pub open spec fn find_quote(s: Seq<char>, i: nat) -> Option<nat>
    decreases s.len() - i,
{
    if i >= s.len() { None } else if s[i as int] == '\'' { Some(i) } else { find_quote(s, i + 1) }
}

/// Reading a label literal between quotes; the token's text is the label.
pub open spec fn label_scan(s: Seq<char>, j: nat) -> Scan {
    if s[j as int] != '\'' {
        Scan::No
    } else {
        match find_quote(s, j + 1) {
            None => Scan::No,
            Some(k) => {
                let text = s.subrange(j as int + 1, k as int);
                if syntax_compiles() && label_parse(text) is Ok {
                    Scan::Tok(TokenV::LabelLiteral(label_parse(text)->Ok_0), j + 1, k, k + 1)
                } else {
                    Scan::No
                }
            },
        }
    }
}

/// A character of a word: alphanumeric or `_`.
pub open spec fn word_char(c: char) -> bool {
    char_alphanumeric(c) || c == '_'
}

/// The end of the word from `i`.
pub open spec fn word_end(s: Seq<char>, i: nat) -> nat
    decreases s.len() - i,
{
    if i < s.len() && word_char(s[i as int]) { word_end(s, i + 1) } else { i }
}

/// A reserved word's token, or an identifier.
pub open spec fn reserved(w: Seq<char>) -> TokenV {
    if w == "all"@ { TokenV::All }
    else if w == "any"@ { TokenV::Any }
    else if w == "as"@ { TokenV::As }
    else if w == "async"@ { TokenV::Async }
    else if w == "else"@ { TokenV::Else }
    else if w == "external"@ { TokenV::External }
    else if w == "false"@ { TokenV::BoolLiteral(false) }
    else if w == "filter_map"@ { TokenV::FilterMap }
    else if w == "filter"@ { TokenV::Filter }
    else if w == "fn"@ { TokenV::Function }
    else if w == "foreach"@ { TokenV::ForEach }
    else if w == "fold"@ { TokenV::Fold }
    else if w == "if"@ { TokenV::If }
    else if w == "in"@ { TokenV::In }
    else if w == "let"@ { TokenV::Let }
    else if w == "map"@ { TokenV::MapEach }
    else if w == "matches"@ { TokenV::Matches }
    else if w == "Regex"@ { TokenV::Regex }
    else if w == "return"@ { TokenV::Return }
    else if w == "Some"@ { TokenV::SomeKeyword }
    else if w == "true"@ { TokenV::BoolLiteral(true) }
    else if w == "where"@ { TokenV::Where }
    else { TokenV::Ident(w) }
}

/// Reading a reserved word or an identifier (not starting with `_`).
pub open spec fn word_scan(s: Seq<char>, j: nat) -> Scan {
    if !word_char(s[j as int]) || s[j as int] == '_' {
        Scan::No
    } else {
        let e = word_end(s, j);
        Scan::Tok(reserved(s.subrange(j as int, e as int)), j, e, e)
    }
}

/// Where a line ends: nowhere, at a position, or at a carriage return not
/// followed by a line feed.
pub enum LineEnd {
    Nowhere,
    At(nat),
    BadReturn,
}

/// The end of the line from `i`.
pub open spec fn line_end(s: Seq<char>, i: nat) -> LineEnd
    decreases s.len() - i,
{
    let n = s.len();
    if i >= n {
        LineEnd::Nowhere
    } else if s[i as int] == '\n' {
        LineEnd::At(i)
    } else if s[i as int] == '\r' {
        if i + 1 < n && s[i as int + 1] == '\n' { LineEnd::At(i) } else { LineEnd::BadReturn }
    } else {
        line_end(s, i + 1)
    }
}

/// A one-character token.
pub open spec fn one(t: TokenV, j: nat) -> Scan {
    Scan::Tok(t, j, j + 1, j + 1)
}

/// A token of one or two characters: `t2` where `c2` follows, `t1`
/// otherwise; nothing at the end of the input.
pub open spec fn two(s: Seq<char>, j: nat, c2: char, t2: TokenV, t1: TokenV) -> Scan {
    if j + 1 >= s.len() {
        Scan::No
    } else if s[j as int + 1] == c2 {
        Scan::Tok(t2, j, j + 2, j + 2)
    } else {
        one(t1, j)
    }
}

/// Reading an operator or a punctuation mark (or a comment, from `//` to
/// the end of the line).
pub open spec fn operator_scan(s: Seq<char>, j: nat) -> Scan {
    let n = s.len();
    let c = s[j as int];
    if c == '@' { one(TokenV::At, j) }
    else if c == '?' { one(TokenV::QuestionMark, j) }
    else if c == '.' { one(TokenV::Dot, j) }
    else if c == '_' { one(TokenV::Underscore, j) }
    else if c == '*' { one(TokenV::Multiply, j) }
    else if c == '%' { one(TokenV::Percent, j) }
    else if c == ',' { one(TokenV::Comma, j) }
    else if c == ';' { one(TokenV::SemiColon, j) }
    else if c == '(' { one(TokenV::LParen, j) }
    else if c == ')' { one(TokenV::RParen, j) }
    else if c == '{' { one(TokenV::LBrace, j) }
    else if c == '}' { one(TokenV::RBrace, j) }
    else if c == '[' { one(TokenV::LBracket, j) }
    else if c == ']' { one(TokenV::RBracket, j) }
    else if c == '+' { two(s, j, '+', TokenV::PlusPlus, TokenV::Plus) }
    else if c == ':' { two(s, j, ':', TokenV::ColonColon, TokenV::Colon) }
    else if c == '|' { two(s, j, '|', TokenV::Or, TokenV::Bar) }
    else if c == '-' { two(s, j, '>', TokenV::Arrow, TokenV::Minus) }
    else if c == '<' { two(s, j, '=', TokenV::LessThanEqual, TokenV::LessThan) }
    else if c == '>' { two(s, j, '=', TokenV::GreaterThanEqual, TokenV::GreaterThan) }
    else if c == '=' { two(s, j, '=', TokenV::Equal, TokenV::Assign) }
    else if c == '!' { two(s, j, '=', TokenV::NotEqual, TokenV::Not) }
    else if c == '&' {
        if j + 1 < n && s[j as int + 1] == '&' { Scan::Tok(TokenV::And, j, j + 2, j + 2) } else { Scan::No }
    } else if c == '/' {
        if j + 1 >= n {
            Scan::No
        } else if s[j as int + 1] == '/' {
            match line_end(s, j + 2) {
                LineEnd::Nowhere => Scan::Tok(TokenV::Comment(s.subrange(j as int + 2, n as int)), j + 2, n, n),
                LineEnd::At(p) => Scan::Tok(TokenV::Comment(s.subrange(j as int + 2, p as int)), j + 2, p, p),
                LineEnd::BadReturn => one(TokenV::Divide, j),
            }
        } else {
            one(TokenV::Divide, j)
        }
    } else {
        Scan::No
    }
}

/// Reading the token at `j`: a number, a string, a label, a word, an
/// operator, or else an illegal character.
pub open spec fn token_scan(s: Seq<char>, j: nat) -> Scan {
    match number_scan(s, j) {
        Scan::No => match string_scan(s, j) {
            Scan::No => match label_scan(s, j) {
                Scan::No => match word_scan(s, j) {
                    Scan::No => match operator_scan(s, j) {
                        Scan::No => Scan::Tok(TokenV::Illegal(seq![s[j as int]]), j, j + 1, j + 1),
                        t => t,
                    },
                    t => t,
                },
                t => t,
            },
            t => t,
        },
        t => t,
    }
}

/// The tokens from `i` on, each with where its text starts and ends, and
/// where reading stopped (white space is skipped around each token); `None`
/// where reading stops the program.
pub open spec fn tokens_from(s: Seq<char>, i: nat) -> Option<(Seq<(TokenV, nat, nat)>, nat)>
    decreases s.len() - i,
{
    let j = skip_ws(s, i);
    if j >= s.len() {
        Some((Seq::empty(), i))
    } else {
        match token_scan(s, j) {
            Scan::Tok(t, a, b, c) => {
                let k = skip_ws(s, c);
                if i < k <= s.len() {
                    match tokens_from(s, k) {
                        Some((rest, p)) => Some((seq![(t, a, b)] + rest, p)),
                        None => None,
                    }
                } else {
                    None
                }
            },
            _ => None,
        }
    }
}

/// The width of a character in UTF-8.
pub open spec fn char_width(c: char) -> nat {
    if (c as u32) < 0x80 { 1 } else if (c as u32) < 0x800 { 2 } else if (c as u32) < 0x10000 { 3 } else { 4 }
}

/// The length of a text in UTF-8.
pub open spec fn byte_len(s: Seq<char>) -> nat
    decreases s.len(),
{
    if s.len() == 0 { 0 } else { byte_len(s.drop_last()) + char_width(s.last()) }
}

/// The number of line feeds in a text.
pub open spec fn newlines(s: Seq<char>) -> nat
    decreases s.len(),
{
    if s.len() == 0 { 0 } else { newlines(s.drop_last()) + if s.last() == '\n' { 1nat } else { 0nat } }
}

/// The byte offset where the last line of a text starts.
pub open spec fn line_start(s: Seq<char>) -> nat
    decreases s.len(),
{
    if s.len() == 0 { 0 } else if s.last() == '\n' { byte_len(s) } else { line_start(s.drop_last()) }
}

/// Model of a located token: line (from 1), byte offset, column (in bytes,
/// from 1), its text, and the token.
pub struct LocTokV {
    pub line: nat,
    pub offset: nat,
    pub column: nat,
    pub fragment: Seq<char>,
    pub tok: TokenV,
}

/// A token located in the text.
pub open spec fn located(s: Seq<char>, t: TokenV, a: nat, b: nat) -> LocTokV {
    let pre = s.take(a as int);
    LocTokV {
        line: 1 + newlines(pre),
        offset: byte_len(pre),
        column: (byte_len(pre) - line_start(pre) + 1) as nat,
        fragment: s.subrange(a as int, b as int),
        tok: t,
    }
}

/// The tokens that are not comments, located.
pub open spec fn located_tokens(s: Seq<char>, ts: Seq<(TokenV, nat, nat)>) -> Seq<LocTokV>
    decreases ts.len(),
{
    if ts.len() == 0 {
        Seq::empty()
    } else {
        let rest = located_tokens(s, ts.drop_last());
        let t = ts.last();
        if t.0 is Comment { rest } else { rest.push(located(s, t.0, t.1, t.2)) }
    }
}

/// What lexing a text gives: its tokens without comments, then the end of
/// input where reading stopped; `None` where lexing stops the program (an
/// integer followed by a point that does not fit in `i64`).
pub open spec fn lex_v(s: Seq<char>) -> Option<Seq<LocTokV>> {
    match tokens_from(s, 0) {
        Some((ts, p)) => Some(located_tokens(s, ts).push(located(s, TokenV::EOF, p, s.len()))),
        None => None,
    }
}

/// Whether a character is alphanumeric (`char::is_alphanumeric`: the
/// Unicode Alphabetic or Numeric property).
pub uninterp spec fn char_alphanumeric(c: char) -> bool;

/// Runs `char::is_alphanumeric`. Beside naming the result, the contract
/// states what the documentation gives for ASCII: letters and digits.
#[verifier::external_body]
fn is_alphanumeric(c: char) -> (b: bool)
    ensures
        b == char_alphanumeric(c),
        (c as u32) < 0x80 ==> (b == (('a' <= c && c <= 'z') || ('A' <= c && c <= 'Z') || ('0' <= c && c <= '9'))),
{
    c.is_alphanumeric()
}

/// A text built from characters `a..b`.
fn sub_string(cs: &Vec<char>, a: usize, b: usize) -> (r: String)
    requires
        a <= b <= cs@.len(),
    ensures
        r@ == cs@.subrange(a as int, b as int),
{
    let mut r = String::new();
    let mut k: usize = a;
    while k < b
        invariant
            a <= k <= b,
            b <= cs@.len(),
            r@ == cs@.subrange(a as int, k as int),
        decreases b - k,
    {
        string_push(&mut r, cs[k]);
        assert(cs@.subrange(a as int, k + 1) =~= cs@.subrange(a as int, k as int).push(cs@[k as int]));
        k = k + 1;
    }
    r
}

/// White space between tokens.
fn is_space_exec(c: char) -> (b: bool)
    ensures
        b == is_space(c),
{
    c == ' ' || c == '\t' || c == '\r' || c == '\n'
}

/// See `skip_ws`.
fn skip_ws_exec(cs: &Vec<char>, i: usize) -> (r: usize)
    requires
        i <= cs@.len(),
    ensures
        r == skip_ws(cs@, i as nat),
        i <= r <= cs@.len(),
{
    let mut k = i;
    while k < cs.len() && is_space_exec(cs[k])
        invariant
            i <= k <= cs@.len(),
            skip_ws(cs@, i as nat) == skip_ws(cs@, k as nat),
        decreases cs.len() - k,
    {
        k = k + 1;
    }
    k
}

/// See `digits_end`.
fn digits_end_exec(cs: &Vec<char>, i: usize) -> (r: usize)
    requires
        i <= cs@.len(),
    ensures
        r == digits_end(cs@, i as nat),
        i <= r <= cs@.len(),
        i < cs@.len() && is_digit(cs@[i as int]) ==> i < r,
{
    let mut k = i;
    while k < cs.len() && '0' <= cs[k] && cs[k] <= '9'
        invariant
            i <= k <= cs@.len(),
            digits_end(cs@, i as nat) == digits_end(cs@, k as nat),
        decreases cs.len() - k,
    {
        k = k + 1;
    }
    k
}

/// See `word_end`.
fn word_end_exec(cs: &Vec<char>, i: usize) -> (r: usize)
    requires
        i <= cs@.len(),
    ensures
        r == word_end(cs@, i as nat),
        i <= r <= cs@.len(),
        i < cs@.len() && word_char(cs@[i as int]) ==> i < r,
{
    let mut k = i;
    while k < cs.len() && (is_alphanumeric(cs[k]) || cs[k] == '_')
        invariant
            i <= k <= cs@.len(),
            word_end(cs@, i as nat) == word_end(cs@, k as nat),
        decreases cs.len() - k,
    {
        k = k + 1;
    }
    k
}

/// See `FloatScan`.
enum FloatOut {
    NoMatch,
    Cut,
    Match(usize),
}

/// Model of the outcome.
spec fn float_out_view(f: FloatOut) -> FloatScan {
    match f {
        FloatOut::NoMatch => FloatScan::NoMatch,
        FloatOut::Cut => FloatScan::Cut,
        FloatOut::Match(e) => FloatScan::Match(e as nat),
    }
}

/// See `float_scan`.
fn float_scan_exec(cs: &Vec<char>, j: usize) -> (r: FloatOut)
    requires
        j < cs@.len() < usize::MAX,
    ensures
        float_out_view(r) == float_scan(cs@, j as nat),
        r matches FloatOut::Match(e) ==> j < e <= cs@.len(),
{
    let n = cs.len();
    let j0: usize = if cs[j] == '+' || cs[j] == '-' { j + 1 } else { j };
    let j2: usize = if j0 < n && '0' <= cs[j0] && cs[j0] <= '9' {
        let j1 = digits_end_exec(cs, j0);
        if j1 < n && cs[j1] == '.' { digits_end_exec(cs, j1 + 1) } else { j1 }
    } else if j0 + 1 < n && cs[j0] == '.' && '0' <= cs[j0 + 1] && cs[j0 + 1] <= '9' {
        digits_end_exec(cs, j0 + 1)
    } else {
        return FloatOut::NoMatch;
    };
    if j2 < n && (cs[j2] == 'e' || cs[j2] == 'E') {
        let j3: usize = if j2 + 1 < n && (cs[j2 + 1] == '+' || cs[j2 + 1] == '-') { j2 + 2 } else { j2 + 1 };
        if j3 < n && '0' <= cs[j3] && cs[j3] <= '9' {
            FloatOut::Match(digits_end_exec(cs, j3))
        } else {
            FloatOut::Cut
        }
    } else {
        FloatOut::Match(j2)
    }
}

/// See `Scan`.
enum ScanOut {
    No,
    Panic,
    Tok(Token, usize, usize, usize),
}

/// Model of the outcome.
spec fn scan_view(r: ScanOut) -> Scan {
    match r {
        ScanOut::No => Scan::No,
        ScanOut::Panic => Scan::Panic,
        ScanOut::Tok(t, a, b, c) => Scan::Tok(t@, a as nat, b as nat, c as nat),
    }
}

/// A token read at `j` has its text within the input and takes up input.
spec fn scan_ok(r: ScanOut, j: nat, n: nat) -> bool {
    match r {
        ScanOut::Tok(_, a, b, c) => j <= a <= b <= c <= n && j < c,
        _ => true,
    }
}

/// See `number_scan`.
fn number_scan_exec(cs: &Vec<char>, j: usize) -> (r: ScanOut)
    requires
        j < cs@.len() < usize::MAX,
    ensures
        scan_view(r) == number_scan(cs@, j as nat),
        scan_ok(r, j as nat, cs@.len()),
{
    let n = cs.len();
    match float_scan_exec(cs, j) {
        FloatOut::Match(e) => {
            let ghost fl = cs@.subrange(j as int, e as int);
            assert(fl.last() == cs@[e - 1]);
            assert(fl[0] == cs@[j as int]);
            if cs[e - 1] == '.' {
                if cs[j] == '-' {
                    ScanOut::Tok(Token::Minus, j, j + 1, j + 1)
                } else if '0' <= cs[j] && cs[j] <= '9' {
                    let d = digits_end_exec(cs, j);
                    let text = sub_string(cs, j, d);
                    match parse_i64(text.as_str()) {
                        Some(v) => ScanOut::Tok(Token::IntLiteral(v), j, d, d),
                        None => ScanOut::Panic,
                    }
                } else {
                    ScanOut::No
                }
            } else {
                let mut has_e = false;
                let mut k: usize = j;
                while k < e
                    invariant
                        j <= k <= e,
                        e <= cs@.len(),
                        fl == cs@.subrange(j as int, e as int),
                        has_e == exists|x: int| 0 <= x < k - j && fl[x] == 'e',
                    decreases e - k,
                {
                    if cs[k] == 'e' {
                        assert(fl[k - j] == 'e');
                        has_e = true;
                    }
                    k = k + 1;
                }
                assert(has_e == fl.contains('e'));
                if cs[j] == '.' && !has_e {
                    ScanOut::Tok(Token::Dot, j, j + 1, j + 1)
                } else {
                    let text = sub_string(cs, j, e);
                    match parse_i64(text.as_str()) {
                        Some(v) => {
                            let k: usize = if cs[j] == '-' { j + 1 } else { j };
                            if k < n && '0' <= cs[k] && cs[k] <= '9' {
                                let d = digits_end_exec(cs, k);
                                ScanOut::Tok(Token::IntLiteral(v), k, d, d)
                            } else {
                                ScanOut::No
                            }
                        },
                        None => ScanOut::Tok(Token::FloatLiteral(text), j, e, e),
                    }
                }
            }
        },
        _ => ScanOut::No,
    }
}

/// See `EscScan`.
enum EscOut {
    Bad,
    End(usize),
}

/// See `esc_scan`.
fn esc_scan_exec(cs: &Vec<char>, c0: usize) -> (r: EscOut)
    requires
        c0 <= cs@.len(),
    ensures
        match r {
            EscOut::Bad => esc_scan(cs@, c0 as nat, c0 as nat) is Bad,
            EscOut::End(k) => esc_scan(cs@, c0 as nat, c0 as nat) == EscScan::End(k as nat) && c0 <= k <= cs@.len(),
        },
{
    let n = cs.len();
    let mut i = c0;
    loop
        invariant
            c0 <= i <= n,
            n == cs@.len(),
            esc_scan(cs@, c0 as nat, c0 as nat) == esc_scan(cs@, c0 as nat, i as nat),
        decreases n - i,
    {
        if i >= n {
            return EscOut::End(n);
        }
        let c = cs[i];
        if c != '\\' && c != '"' {
            if i + 1 >= n {
                return EscOut::End(n);
            }
            i = i + 1;
        } else if c == '\\' {
            if i + 1 >= n {
                return EscOut::Bad;
            }
            if cs[i + 1] == '\\' || cs[i + 1] == '"' {
                if i + 2 >= n {
                    return EscOut::End(n);
                }
                i = i + 2;
            } else {
                return EscOut::Bad;
            }
        } else {
            if i == c0 {
                return EscOut::Bad;
            }
            return EscOut::End(i);
        }
    }
}

/// Every occurrence of `p0 p1` replaced by `r` (see `replace_all`).
fn replace_pair(v: &Vec<char>, p0: char, p1: char, r: char) -> (out: Vec<char>)
    ensures
        out@ == replace_all(v@, seq![p0, p1], seq![r]),
{
    let ghost p = seq![p0, p1];
    let ghost rr = seq![r];
    let mut out: Vec<char> = Vec::new();
    let mut i: usize = 0;
    assert(v@.skip(0) =~= v@);
    while i < v.len()
        invariant
            i <= v@.len(),
            p == seq![p0, p1],
            rr == seq![r],
            replace_all(v@, p, rr) == out@ + replace_all(v@.skip(i as int), p, rr),
        decreases v.len() - i,
    {
        let ghost rest = v@.skip(i as int);
        if i + 1 < v.len() && v[i] == p0 && v[i + 1] == p1 {
            assert(rest.take(2) =~= p);
            assert(rest.skip(2) =~= v@.skip(i + 2));
            out.push(r);
            assert(out@ + replace_all(v@.skip(i + 2), p, rr) =~= (out@.drop_last() + (rr + replace_all(rest.skip(2), p, rr))));
            i = i + 2;
        } else {
            assert(!(rest.len() >= p.len() && rest.take(2) == p)) by {
                if rest.len() >= 2 && rest.take(2) == p {
                    assert(rest.take(2)[0] == v@[i as int]);
                    assert(rest.take(2)[1] == v@[i + 1]);
                }
            }
            assert(rest.drop_first() =~= v@.skip(i + 1));
            let c = v[i];
            out.push(c);
            assert(out@ + replace_all(v@.skip(i + 1), p, rr) =~= (out@.drop_last() + (seq![c] + replace_all(rest.drop_first(), p, rr))));
            i = i + 1;
        }
    }
    assert(v@.skip(i as int) =~= Seq::<char>::empty());
    assert(out@ + Seq::<char>::empty() =~= out@);
    out
}

/// See `string_scan`.
fn string_scan_exec(cs: &Vec<char>, j: usize) -> (r: ScanOut)
    requires
        j < cs@.len() < usize::MAX,
    ensures
        scan_view(r) == string_scan(cs@, j as nat),
        scan_ok(r, j as nat, cs@.len()),
{
    let n = cs.len();
    let b: usize = if cs[j] == 'b' && j + 1 < n && cs[j + 1] == '"' { 2 } else if cs[j] == '"' { 1 } else { 0 };
    if b == 0 {
        return ScanOut::No;
    }
    let c0 = j + b;
    let (content, end): (Vec<char>, usize) = match esc_scan_exec(cs, c0) {
        EscOut::Bad => {
            if c0 < n && cs[c0] == '"' {
                (Vec::new(), c0)
            } else {
                return ScanOut::No;
            }
        },
        EscOut::End(k) => {
            if k < n && cs[k] == '"' {
                let mut v: Vec<char> = Vec::new();
                let mut x: usize = c0;
                while x < k
                    invariant
                        c0 <= x <= k,
                        k < cs@.len(),
                        v@ == cs@.subrange(c0 as int, x as int),
                    decreases k - x,
                {
                    v.push(cs[x]);
                    assert(cs@.subrange(c0 as int, x + 1) =~= cs@.subrange(c0 as int, x as int).push(cs@[x as int]));
                    x = x + 1;
                }
                let u1 = replace_pair(&v, '\\', '"', '"');
                let u2 = replace_pair(&u1, '\\', '\\', '\\');
                (u2, k)
            } else {
                return ScanOut::No;
            }
        },
    };
    proof {
        reveal_with_fuel(replace_all, 2);
        if end == c0 {
            assert(content@ =~= Seq::<char>::empty());
        }
    }
    let text = string_from_chars(content.as_slice());
    let tok = if b == 2 {
        Token::DataLiteral(vstd::slice::slice_to_vec(text.as_str().as_bytes()))
    } else {
        Token::StringLiteral(text)
    };
    ScanOut::Tok(tok, j, c0, end + 1)
}

/// See `find_quote`.
fn find_quote_exec(cs: &Vec<char>, i: usize) -> (r: Option<usize>)
    requires
        i <= cs@.len(),
    ensures
        match r {
            Some(k) => find_quote(cs@, i as nat) == Some(k as nat) && i <= k < cs@.len(),
            None => find_quote(cs@, i as nat) is None,
        },
{
    let mut k = i;
    while k < cs.len()
        invariant
            i <= k <= cs@.len(),
            find_quote(cs@, i as nat) == find_quote(cs@, k as nat),
        decreases cs.len() - k,
    {
        if cs[k] == '\'' {
            return Some(k);
        }
        k = k + 1;
    }
    None
}

/// See `label_scan`.
fn label_scan_exec(cs: &Vec<char>, j: usize) -> (r: ScanOut)
    requires
        j < cs@.len() < usize::MAX,
    ensures
        scan_view(r) == label_scan(cs@, j as nat),
        scan_ok(r, j as nat, cs@.len()),
{
    if cs[j] != '\'' {
        return ScanOut::No;
    }
    match find_quote_exec(cs, j + 1) {
        None => ScanOut::No,
        Some(k) => {
            let text = sub_string(cs, j + 1, k);
            match Label::from_str(text.as_str()) {
                Ok(l) => ScanOut::Tok(Token::LabelLiteral(l), j + 1, k, k + 1),
                Err(_) => ScanOut::No,
            }
        },
    }
}

/// See `reserved`.
fn reserved_exec(w: String) -> (t: Token)
    ensures
        t@ == reserved(w@),
{
    let s = w.as_str();
    if str_eq(s, "all") { Token::All }
    else if str_eq(s, "any") { Token::Any }
    else if str_eq(s, "as") { Token::As }
    else if str_eq(s, "async") { Token::Async }
    else if str_eq(s, "else") { Token::Else }
    else if str_eq(s, "external") { Token::External }
    else if str_eq(s, "false") { Token::BoolLiteral(false) }
    else if str_eq(s, "filter_map") { Token::FilterMap }
    else if str_eq(s, "filter") { Token::Filter }
    else if str_eq(s, "fn") { Token::Function }
    else if str_eq(s, "foreach") { Token::ForEach }
    else if str_eq(s, "fold") { Token::Fold }
    else if str_eq(s, "if") { Token::If }
    else if str_eq(s, "in") { Token::In }
    else if str_eq(s, "let") { Token::Let }
    else if str_eq(s, "map") { Token::MapEach }
    else if str_eq(s, "matches") { Token::Matches }
    else if str_eq(s, "Regex") { Token::Regex }
    else if str_eq(s, "return") { Token::Return }
    else if str_eq(s, "Some") { Token::SomeKeyword }
    else if str_eq(s, "true") { Token::BoolLiteral(true) }
    else if str_eq(s, "where") { Token::Where }
    else { Token::Ident(w) }
}

/// See `word_scan`.
fn word_scan_exec(cs: &Vec<char>, j: usize) -> (r: ScanOut)
    requires
        j < cs@.len() < usize::MAX,
    ensures
        scan_view(r) == word_scan(cs@, j as nat),
        scan_ok(r, j as nat, cs@.len()),
{
    let c = cs[j];
    if !(is_alphanumeric(c) || c == '_') || c == '_' {
        return ScanOut::No;
    }
    let e = word_end_exec(cs, j);
    let w = sub_string(cs, j, e);
    ScanOut::Tok(reserved_exec(w), j, e, e)
}

/// See `line_end`.
fn line_end_exec(cs: &Vec<char>, i: usize) -> (r: Option<Option<usize>>)
    requires
        i <= cs@.len(),
    ensures
        match r {
            None => line_end(cs@, i as nat) is BadReturn,
            Some(None) => line_end(cs@, i as nat) is Nowhere,
            Some(Some(p)) => line_end(cs@, i as nat) == LineEnd::At(p as nat) && i <= p < cs@.len(),
        },
{
    let n = cs.len();
    let mut k = i;
    while k < n
        invariant
            i <= k <= n,
            n == cs@.len(),
            line_end(cs@, i as nat) == line_end(cs@, k as nat),
        decreases n - k,
    {
        if cs[k] == '\n' {
            return Some(Some(k));
        }
        if cs[k] == '\r' {
            if k + 1 < n && cs[k + 1] == '\n' {
                return Some(Some(k));
            }
            return None;
        }
        k = k + 1;
    }
    Some(None)
}

/// See `two`.
fn two_exec(cs: &Vec<char>, j: usize, c2: char, t2: Token, t1: Token) -> (r: ScanOut)
    requires
        j < cs@.len() < usize::MAX,
    ensures
        scan_view(r) == two(cs@, j as nat, c2, t2@, t1@),
        scan_ok(r, j as nat, cs@.len()),
{
    if j + 1 >= cs.len() {
        ScanOut::No
    } else if cs[j + 1] == c2 {
        ScanOut::Tok(t2, j, j + 2, j + 2)
    } else {
        ScanOut::Tok(t1, j, j + 1, j + 1)
    }
}

/// See `operator_scan`.
fn operator_scan_exec(cs: &Vec<char>, j: usize) -> (r: ScanOut)
    requires
        j < cs@.len() < usize::MAX,
    ensures
        scan_view(r) == operator_scan(cs@, j as nat),
        scan_ok(r, j as nat, cs@.len()),
{
    let n = cs.len();
    let c = cs[j];
    if c == '@' { ScanOut::Tok(Token::At, j, j + 1, j + 1) }
    else if c == '?' { ScanOut::Tok(Token::QuestionMark, j, j + 1, j + 1) }
    else if c == '.' { ScanOut::Tok(Token::Dot, j, j + 1, j + 1) }
    else if c == '_' { ScanOut::Tok(Token::Underscore, j, j + 1, j + 1) }
    else if c == '*' { ScanOut::Tok(Token::Multiply, j, j + 1, j + 1) }
    else if c == '%' { ScanOut::Tok(Token::Percent, j, j + 1, j + 1) }
    else if c == ',' { ScanOut::Tok(Token::Comma, j, j + 1, j + 1) }
    else if c == ';' { ScanOut::Tok(Token::SemiColon, j, j + 1, j + 1) }
    else if c == '(' { ScanOut::Tok(Token::LParen, j, j + 1, j + 1) }
    else if c == ')' { ScanOut::Tok(Token::RParen, j, j + 1, j + 1) }
    else if c == '{' { ScanOut::Tok(Token::LBrace, j, j + 1, j + 1) }
    else if c == '}' { ScanOut::Tok(Token::RBrace, j, j + 1, j + 1) }
    else if c == '[' { ScanOut::Tok(Token::LBracket, j, j + 1, j + 1) }
    else if c == ']' { ScanOut::Tok(Token::RBracket, j, j + 1, j + 1) }
    else if c == '+' { two_exec(cs, j, '+', Token::PlusPlus, Token::Plus) }
    else if c == ':' { two_exec(cs, j, ':', Token::ColonColon, Token::Colon) }
    else if c == '|' { two_exec(cs, j, '|', Token::Or, Token::Bar) }
    else if c == '-' { two_exec(cs, j, '>', Token::Arrow, Token::Minus) }
    else if c == '<' { two_exec(cs, j, '=', Token::LessThanEqual, Token::LessThan) }
    else if c == '>' { two_exec(cs, j, '=', Token::GreaterThanEqual, Token::GreaterThan) }
    else if c == '=' { two_exec(cs, j, '=', Token::Equal, Token::Assign) }
    else if c == '!' { two_exec(cs, j, '=', Token::NotEqual, Token::Not) }
    else if c == '&' {
        if j + 1 < n && cs[j + 1] == '&' { ScanOut::Tok(Token::And, j, j + 2, j + 2) } else { ScanOut::No }
    } else if c == '/' {
        if j + 1 >= n {
            ScanOut::No
        } else if cs[j + 1] == '/' {
            match line_end_exec(cs, j + 2) {
                Some(None) => ScanOut::Tok(Token::Comment(sub_string(cs, j + 2, n)), j + 2, n, n),
                Some(Some(p)) => ScanOut::Tok(Token::Comment(sub_string(cs, j + 2, p)), j + 2, p, p),
                None => ScanOut::Tok(Token::Divide, j, j + 1, j + 1),
            }
        } else {
            ScanOut::Tok(Token::Divide, j, j + 1, j + 1)
        }
    } else {
        ScanOut::No
    }
}

/// See `token_scan`.
fn token_scan_exec(cs: &Vec<char>, j: usize) -> (r: ScanOut)
    requires
        j < cs@.len() < usize::MAX,
    ensures
        scan_view(r) == token_scan(cs@, j as nat),
        scan_ok(r, j as nat, cs@.len()),
        !(r is No),
{
    let r = number_scan_exec(cs, j);
    if !matches!(r, ScanOut::No) {
        return r;
    }
    let r = string_scan_exec(cs, j);
    if !matches!(r, ScanOut::No) {
        return r;
    }
    let r = label_scan_exec(cs, j);
    if !matches!(r, ScanOut::No) {
        return r;
    }
    let r = word_scan_exec(cs, j);
    if !matches!(r, ScanOut::No) {
        return r;
    }
    let r = operator_scan_exec(cs, j);
    if !matches!(r, ScanOut::No) {
        return r;
    }
    let mut t = String::new();
    string_push(&mut t, cs[j]);
    assert(t@ =~= seq![cs@[j as int]]);
    ScanOut::Tok(Token::Illegal(t), j, j + 1, j + 1)
}


/// UTF-8 length adds up over concatenation.
pub proof fn lemma_byte_len_concat(a: Seq<char>, b: Seq<char>)
    ensures
        byte_len(a + b) == byte_len(a) + byte_len(b),
    decreases b.len(),
{
    if b.len() == 0 {
        assert(a + b =~= a);
    } else {
        lemma_byte_len_concat(a, b.drop_last());
        assert((a + b).drop_last() =~= a + b.drop_last());
        assert((a + b).last() == b.last());
    }
}

/// `byte_len` is the length of the UTF-8 encoding.
pub proof fn lemma_encode_len(s: Seq<char>)
    ensures
        encode_utf8(s).len() == byte_len(s),
    decreases s.len(),
{
    if s.len() > 0 {
        lemma_encode_len(s.drop_first());
        vstd::utf8::char_is_scalar(s[0]);
        lemma_byte_len_concat(seq![s[0]], s.drop_first());
        assert(seq![s[0]] + s.drop_first() =~= s);
        assert(seq![s[0]].drop_last() =~= Seq::<char>::empty());
        assert(byte_len(seq![s[0]]) == char_width(s[0])) by {
            reveal_with_fuel(byte_len, 2);
        }
        let v = s[0] as u32;
        assert(encode_scalar(v).len() == char_width(s[0]));
        assert(encode_utf8(s) == encode_scalar(v) + encode_utf8(s.drop_first()));
    }
}

/// A prefix is no longer in UTF-8 than the text.
pub proof fn lemma_byte_len_prefix(s: Seq<char>, i: int)
    requires
        0 <= i <= s.len(),
    ensures
        byte_len(s.take(i)) <= byte_len(s),
{
    lemma_byte_len_concat(s.take(i), s.skip(i));
    assert(s.take(i) + s.skip(i) =~= s);
}

/// A text has no more line feeds than characters.
pub proof fn lemma_newlines_len(s: Seq<char>)
    ensures
        newlines(s) <= s.len(),
    decreases s.len(),
{
    if s.len() > 0 {
        lemma_newlines_len(s.drop_last());
    }
}

/// Where a token's text is: line (from 1), byte offset, column (in bytes,
/// from 1), and the text.
#[derive(Debug)]
pub struct Span {
    pub line: u32,
    pub offset: usize,
    pub column: usize,
    pub fragment: String,
}

/// A token with its place in the text.
#[derive(Debug)]
pub struct LocToken {
    pub loc: Span,
    pub tok: Token,
}

impl View for LocToken {
    type V = LocTokV;

    open spec fn view(&self) -> LocTokV {
        LocTokV {
            line: self.loc.line as nat,
            offset: self.loc.offset as nat,
            column: self.loc.column as nat,
            fragment: self.loc.fragment@,
            tok: self.tok@,
        }
    }
}

/// Located tokens by their models.
pub open spec fn loc_tokens_view(v: Seq<LocToken>) -> Seq<LocTokV> {
    Seq::new(v.len(), |k: int| v[k]@)
}

/// A position in the text with its line, byte offset and the byte offset
/// where its line starts.
struct Cursor {
    pos: usize,
    line: u32,
    offset: usize,
    lstart: usize,
}

/// The cursor is right about its position.
spec fn cursor_at(s: Seq<char>, c: Cursor) -> bool {
    &&& c.pos <= s.len()
    &&& c.line == 1 + newlines(s.take(c.pos as int))
    &&& c.offset == byte_len(s.take(c.pos as int))
    &&& c.lstart == line_start(s.take(c.pos as int))
    &&& c.lstart <= c.offset
}

/// The width of a character in UTF-8 (see `char_width`).
fn char_width_exec(c: char) -> (w: usize)
    ensures
        w == char_width(c),
{
    let u = c as u32;
    if u < 0x80 { 1 } else if u < 0x800 { 2 } else if u < 0x10000 { 3 } else { 4 }
}

/// Moves the cursor forward to `to`.
fn advance(cs: &Vec<char>, c: &mut Cursor, to: usize)
    requires
        cursor_at(cs@, *old(c)),
        old(c).pos <= to <= cs@.len(),
        cs@.len() < 0xffff_ffff,
        byte_len(cs@) <= usize::MAX,
    ensures
        cursor_at(cs@, *final(c)),
        final(c).pos == to,
{
    while c.pos < to
        invariant
            cursor_at(cs@, *c),
            c.pos <= to <= cs@.len(),
            cs@.len() < 0xffff_ffff,
            byte_len(cs@) <= usize::MAX,
        decreases to - c.pos,
    {
        let p = c.pos;
        let ch = cs[p];
        let w = char_width_exec(ch);
        let ghost s = cs@;
        proof {
            assert(s.take(p + 1).drop_last() =~= s.take(p as int));
            assert(s.take(p + 1).last() == ch);
            lemma_byte_len_prefix(s, p + 1);
            lemma_newlines_len(s.take(p + 1));
        }
        c.offset = c.offset + w;
        if ch == '\n' {
            c.line = c.line + 1;
            c.lstart = c.offset;
        }
        c.pos = p + 1;
    }
}

/// The tokens so far before the tokens of the rest.
pub open spec fn prepend_toks(seen: Seq<(TokenV, nat, nat)>, o: Option<(Seq<(TokenV, nat, nat)>, nat)>)
    -> Option<(Seq<(TokenV, nat, nat)>, nat)> {
    match o {
        Some((rest, p)) => Some((seen + rest, p)),
        None => None,
    }
}

/// Lexes a text (see `lex_v`): its tokens without comments, then the end
/// of input; `None` where lexing stops the program.
pub fn try_lex(buf: &str) -> (r: Option<Vec<LocToken>>)
    requires
        buf@.len() < 0xffff_ffff,
        encode_utf8(buf@).len() < usize::MAX,
    ensures
        match r {
            Some(v) => lex_v(buf@) == Some(loc_tokens_view(v@)),
            None => lex_v(buf@) is None,
        },
{
    proof { lemma_encode_len(buf@); }
    let cs = chars_of(buf);
    let ghost s = cs@;
    let n = cs.len();
    let mut out: Vec<LocToken> = Vec::new();
    let ghost mut seen: Seq<(TokenV, nat, nat)> = Seq::empty();
    let mut cur = Cursor { pos: 0, line: 1, offset: 0, lstart: 0 };
    let mut i: usize = 0;
    proof {
        assert(s.take(0) =~= Seq::<char>::empty());
        assert(loc_tokens_view(out@) =~= Seq::<LocTokV>::empty());
        match tokens_from(s, 0) {
            Some((rest, p)) => { assert(seen + rest =~= rest); },
            None => {},
        }
    }
    loop
        invariant
            s == cs@,
            s == buf@,
            n == s.len(),
            n < 0xffff_ffff,
            byte_len(s) < usize::MAX,
            i <= n,
            cursor_at(s, cur),
            cur.pos <= i,
            loc_tokens_view(out@) == located_tokens(s, seen),
            tokens_from(s, 0) == prepend_toks(seen, tokens_from(s, i as nat)),
        ensures
            tokens_from(s, i as nat) == Some((Seq::<(TokenV, nat, nat)>::empty(), i as nat)),
        decreases n - i,
    {
        let j = skip_ws_exec(&cs, i);
        if j >= n {
            break;
        }
        match token_scan_exec(&cs, j) {
            ScanOut::Tok(t, a, b, c) => {
                let k = skip_ws_exec(&cs, c);
                let ghost tv = t@;
                let ghost old_seen = seen;
                assert(tokens_from(s, i as nat) == match tokens_from(s, k as nat) {
                    Some((rest, p)) => Some((seq![(tv, a as nat, b as nat)] + rest, p)),
                    None => None::<(Seq<(TokenV, nat, nat)>, nat)>,
                });
                let is_comment = matches!(t, Token::Comment(_));
                if !is_comment {
                    advance(&cs, &mut cur, a);
                    proof {
                        lemma_byte_len_prefix(s, a + 1);
                        assert(s.take(a + 1).drop_last() =~= s.take(a as int));
                    }
                    let frag = sub_string(&cs, a, b);
                    let lt = LocToken {
                        loc: Span { line: cur.line, offset: cur.offset, column: cur.offset - cur.lstart + 1, fragment: frag },
                        tok: t,
                    };
                    let ghost ov = loc_tokens_view(out@);
                    out.push(lt);
                    assert(loc_tokens_view(out@) =~= ov.push(located(s, tv, a as nat, b as nat)));
                }
                proof {
                    seen = seen.push((tv, a as nat, b as nat));
                    assert(seen.drop_last() =~= old_seen);
                    match tokens_from(s, k as nat) {
                        Some((rest, p)) => { assert(old_seen + (seq![(tv, a as nat, b as nat)] + rest) =~= seen + rest); },
                        None => {},
                    }
                }
                i = k;
            },
            _ => {
                return None;
            },
        }
    }
    advance(&cs, &mut cur, i);
    proof { lemma_byte_len_prefix(s, i as int); }
    let frag = sub_string(&cs, i, n);
    let eof = LocToken {
        loc: Span { line: cur.line, offset: cur.offset, column: cur.offset - cur.lstart + 1, fragment: frag },
        tok: Token::EOF,
    };
    let ghost ov = loc_tokens_view(out@);
    out.push(eof);
    proof {
        assert(seen + Seq::<(TokenV, nat, nat)>::empty() =~= seen);
        assert(loc_tokens_view(out@) =~= ov.push(located(s, TokenV::EOF, i as nat, n as nat)));
    }
    Some(out)
}

/// Lexes a text whose lexing does not stop the program (see `lex_v`).
pub fn lex(buf: &str) -> (r: Vec<LocToken>)
    requires
        buf@.len() < 0xffff_ffff,
        encode_utf8(buf@).len() < usize::MAX,
        lex_v(buf@) is Some,
    ensures
        lex_v(buf@) == Some(loc_tokens_view(r@)),
{
    match try_lex(buf) {
        Some(v) => v,
        None => Vec::new(),
    }
}

/// A list of located tokens that the parser works through.
#[derive(Clone, Copy, Debug)]
pub struct Tokens<'a> {
    pub tok: &'a [LocToken],
    pub start: usize,
    pub end: usize,
}

impl<'a> Tokens<'a> {
    /// All the tokens of a list.
    pub fn new(v: &'a [LocToken]) -> (t: Tokens<'a>)
        ensures
            t.tok@ == v@,
            t.start == 0,
            t.end == v@.len(),
    {
        Tokens { tok: v, start: 0, end: v.len() }
    }

    /// The first token.
    pub fn tok0(&self) -> (t: &Token)
        requires
            self.tok@.len() > 0,
        ensures
            t@ == self.tok@[0].tok@,
    {
        &self.tok[0].tok
    }

    /// Where the first token is.
    pub fn loc(&self) -> (l: Loc)
        requires
            self.tok@.len() > 0,
        ensures
            l == Loc(self.tok@[0].loc.line, self.tok@[0].loc.column),
    {
        Loc(self.tok[0].loc.line, self.tok[0].loc.column)
    }

    /// How many tokens there are.
    pub fn input_len(&self) -> (n: usize)
        ensures
            n == self.tok@.len(),
    {
        self.tok.len()
    }

    /// The first `count` tokens.
    pub fn take(&self, count: usize) -> (t: Tokens<'a>)
        requires
            count <= self.tok@.len(),
        ensures
            t.tok@ == self.tok@.subrange(0, count as int),
            t.start == 0,
            t.end == count,
    {
        let (prefix, _) = self.tok.split_at(count);
        Tokens { tok: prefix, start: 0, end: count }
    }

    /// The tokens after the first `count`, and the first `count`.
    pub fn take_split(&self, count: usize) -> (r: (Tokens<'a>, Tokens<'a>))
        requires
            count <= self.tok@.len(),
        ensures
            r.0.tok@ == self.tok@.subrange(count as int, self.tok@.len() as int),
            r.0.start == 0,
            r.0.end == self.tok@.len() - count,
            r.1.tok@ == self.tok@.subrange(0, count as int),
            r.1.start == 0,
            r.1.end == count,
    {
        let (prefix, suffix) = self.tok.split_at(count);
        let first = Tokens { tok: prefix, start: 0, end: prefix.len() };
        let second = Tokens { tok: suffix, start: 0, end: suffix.len() };
        (second, first)
    }
}

} // verus!
