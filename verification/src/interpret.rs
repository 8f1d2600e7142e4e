//! Evaluation of the operators and built-in functions of the policy
//! language on values.

use vstd::prelude::*;
use crate::text::{str_eq, push_str, chars_of, string_from_chars, starts_with, i64_to_string, int_decimal,
    parse_usize, usize_parse};
use crate::labels::{Label, NodeV, label_text, match_spec};
use crate::netvals::{net_call1, net_call2, net_eval_call1, net_eval_call2};
use crate::parser::{Prefix, Infix};
use crate::regexes::regex_is_match;
use crate::strmap::{sorted_keys, map_of};
use vstd::arithmetic::power::pow;
use vstd::utf8::encode_utf8;
use crate::literals::{Literal, FlatLiteral, LitV, FlatLitV, flat_eq, lit_eq, lits_view, lit_view, lit_mem, lit_filter,
    VecSet, lemma_lits_view_index, lemma_lits_view_len, lemma_lits_view_from};

verus! {

/// What `str::to_lowercase` makes of a text.
pub uninterp spec fn lowercase_of(s: Seq<char>) -> Seq<char>;

/// What `str::to_uppercase` makes of a text.
pub uninterp spec fn uppercase_of(s: Seq<char>) -> Seq<char>;

/// What `String::from_utf8_lossy` makes of bytes.
pub uninterp spec fn utf8_lossy(bytes: Seq<u8>) -> Seq<char>;

/// What `base64::encode` makes of bytes (standard alphabet, padded).
pub uninterp spec fn base64_of(bytes: Seq<u8>) -> Seq<char>;

/// Runs `str::to_lowercase`; the result depends on the text alone.
#[verifier::external_body]
fn str_to_lowercase(s: &str) -> (r: String)
    ensures
        r@ == lowercase_of(s@),
{
    s.to_lowercase()
}

/// Runs `str::to_uppercase`; the result depends on the text alone.
#[verifier::external_body]
fn str_to_uppercase(s: &str) -> (r: String)
    ensures
        r@ == uppercase_of(s@),
{
    s.to_uppercase()
}

/// Runs `String::from_utf8_lossy`; the result depends on the bytes alone.
#[verifier::external_body]
fn from_utf8_lossy(d: &[u8]) -> (r: String)
    ensures
        r@ == utf8_lossy(d@),
{
    String::from_utf8_lossy(d).to_string()
}

/// Runs `base64::encode`; the result depends on the bytes alone. The
/// function stops the program when the length of the encoding overflows,
/// which the precondition rules out.
#[verifier::external_body]
fn base64_encode(d: &[u8]) -> (r: String)
    requires
        4 * ((d@.len() + 2) / 3) <= usize::MAX,
    ensures
        r@ == base64_of(d@),
{
    base64::encode(d)
}

/// White space, as `char::is_whitespace` has it (the Unicode White_Space
/// property).
pub open spec fn is_ws(c: char) -> bool {
    ('\u{9}' <= c && c <= '\u{d}') || c == ' ' || c == '\u{85}' || c == '\u{a0}' || c == '\u{1680}'
        || ('\u{2000}' <= c && c <= '\u{200a}') || c == '\u{2028}' || c == '\u{2029}' || c == '\u{202f}'
        || c == '\u{205f}' || c == '\u{3000}'
}

/// The text without its leading white space.
pub open spec fn trim_start_ws(s: Seq<char>) -> Seq<char>
    decreases s.len(),
{
    if s.len() > 0 && is_ws(s[0]) { trim_start_ws(s.skip(1)) } else { s }
}

/// The text without its trailing white space.
pub open spec fn trim_end_ws(s: Seq<char>) -> Seq<char>
    decreases s.len(),
{
    if s.len() > 0 && is_ws(s.last()) { trim_end_ws(s.drop_last()) } else { s }
}

fn is_ws_exec(c: char) -> (b: bool)
    ensures
        b == is_ws(c),
{
    ('\u{9}' <= c && c <= '\u{d}') || c == ' ' || c == '\u{85}' || c == '\u{a0}' || c == '\u{1680}'
        || ('\u{2000}' <= c && c <= '\u{200a}') || c == '\u{2028}' || c == '\u{2029}' || c == '\u{202f}'
        || c == '\u{205f}' || c == '\u{3000}'
}

/// The text without its leading white space (as `str::trim_start`).
pub fn trim_start(s: &str) -> (r: String)
    ensures
        r@ == trim_start_ws(s@),
{
    let cs = chars_of(s);
    let mut i: usize = 0;
    assert(cs@.skip(0) =~= cs@);
    while i < cs.len() && is_ws_exec(cs[i])
        invariant
            i <= cs@.len(),
            cs@ == s@,
            trim_start_ws(cs@.skip(i as int)) == trim_start_ws(s@),
        decreases cs.len() - i,
    {
        assert(cs@.skip(i as int).skip(1) =~= cs@.skip(i + 1));
        i = i + 1;
    }
    let mut out: Vec<char> = Vec::new();
    let mut k: usize = i;
    while k < cs.len()
        invariant
            i <= k <= cs@.len(),
            out@ == cs@.subrange(i as int, k as int),
        decreases cs.len() - k,
    {
        out.push(cs[k]);
        k = k + 1;
    }
    assert(out@ =~= cs@.skip(i as int));
    string_from_chars(out.as_slice())
}

/// The text without its trailing white space (as `str::trim_end`).
pub fn trim_end(s: &str) -> (r: String)
    ensures
        r@ == trim_end_ws(s@),
{
    let cs = chars_of(s);
    let mut n: usize = cs.len();
    assert(cs@.take(n as int) =~= cs@);
    while n > 0 && is_ws_exec(cs[n - 1])
        invariant
            n <= cs@.len(),
            cs@ == s@,
            trim_end_ws(cs@.take(n as int)) == trim_end_ws(s@),
        decreases n,
    {
        assert(cs@.take(n as int).drop_last() =~= cs@.take(n - 1));
        n = n - 1;
    }
    let mut out: Vec<char> = Vec::new();
    let mut k: usize = 0;
    while k < n
        invariant
            k <= n <= cs@.len(),
            out@ == cs@.take(k as int),
        decreases n - k,
    {
        out.push(cs[k]);
        assert(cs@.take(k + 1) =~= cs@.take(k as int).push(cs@[k as int]));
        k = k + 1;
    }
    string_from_chars(out.as_slice())
}

/// `s` ends with `p`.
pub open spec fn ends_with_spec(s: Seq<char>, p: Seq<char>) -> bool {
    p.len() <= s.len() && s.skip(s.len() - p.len()) == p
}

/// `p` occurs in `s`.
pub open spec fn contains_spec(s: Seq<char>, p: Seq<char>) -> bool {
    exists|i: int| 0 <= i && i + p.len() <= s.len() && #[trigger] s.subrange(i, i + p.len()) == p
}

fn occurs_at(a: &Vec<char>, i: usize, b: &Vec<char>) -> (r: bool)
    requires
        i + b@.len() <= a@.len(),
    ensures
        r == (a@.subrange(i as int, i + b@.len()) == b@),
{
    let alen = a.len();
    let mut j: usize = 0;
    while j < b.len()
        invariant
            j <= b@.len(),
            alen == a@.len(),
            i + b@.len() <= a@.len(),
            forall|k: int| 0 <= k < j ==> a@[i + k] == b@[k],
        decreases b.len() - j,
    {
        if a[i + j] != b[j] {
            assert(a@.subrange(i as int, i + b@.len())[j as int] != b@[j as int]);
            return false;
        }
        j = j + 1;
    }
    assert(a@.subrange(i as int, i + b@.len()) =~= b@);
    true
}

/// Whether `s` ends with `p` (as `str::ends_with`).
pub fn ends_with(s: &str, p: &str) -> (b: bool)
    ensures
        b == ends_with_spec(s@, p@),
{
    let sc = chars_of(s);
    let pc = chars_of(p);
    if pc.len() > sc.len() {
        return false;
    }
    let start = sc.len() - pc.len();
    let r = occurs_at(&sc, start, &pc);
    assert(sc@.skip(start as int) =~= sc@.subrange(start as int, start + pc@.len()));
    r
}

/// Whether `p` occurs in `s` (as `str::contains`).
pub fn contains(s: &str, p: &str) -> (b: bool)
    ensures
        b == contains_spec(s@, p@),
{
    let sc = chars_of(s);
    let pc = chars_of(p);
    if pc.len() == 0 {
        assert(s@.subrange(0, 0 + p@.len() as int) =~= p@);
        return true;
    }
    if pc.len() > sc.len() {
        return false;
    }
    let bound = sc.len() - pc.len() + 1;
    let mut i: usize = 0;
    while i < bound
        invariant
            bound + pc@.len() == sc@.len() + 1,
            pc@.len() > 0,
            sc@ == s@,
            pc@ == p@,
            i <= bound,
            forall|k: int| 0 <= k < i ==> #[trigger] sc@.subrange(k, k + pc@.len()) != pc@,
        decreases bound - i,
    {
        if occurs_at(&sc, i, &pc) {
            return true;
        }
        i = i + 1;
    }
    false
}

/// The value of a prefix operation, when defined: `!` negates a Boolean,
/// `-` an integer.
pub open spec fn eval_prefix_spec(p: Prefix, l: LitV) -> Option<LitV> {
    match (p, l) {
        (Prefix::Not, LitV::Flat(FlatLitV::Bool(b))) => Some(LitV::Flat(FlatLitV::Bool(!b))),
        (Prefix::Minus, LitV::Flat(FlatLitV::Int(i))) => Some(LitV::Flat(FlatLitV::Int((-i) as i64))),
        _ => None,
    }
}

/// The integer operations stay within `i64` (the operations stop the
/// program otherwise).
pub open spec fn int_op_ok(op: Infix, i: i64, j: i64) -> bool {
    match op {
        Infix::Plus => i64::MIN <= i + j <= i64::MAX,
        Infix::Minus => i64::MIN <= i - j <= i64::MAX,
        Infix::Multiply => i64::MIN <= i * j <= i64::MAX,
        Infix::Divide => !(i == i64::MIN && j == -1),
        Infix::Remainder => !(i == i64::MIN && j == -1),
        _ => true,
    }
}

/// The magnitude of an integer.
pub open spec fn magnitude(i: int) -> nat {
    if i >= 0 { i as nat } else { (-i) as nat }
}

/// Rust's integer division, rounding towards zero.
pub open spec fn trunc_div(i: int, j: int) -> int {
    let q = magnitude(i) / magnitude(j);
    if (i >= 0) == (j >= 0) { q as int } else { -q }
}

/// Rust's remainder, with the sign of the dividend.
pub open spec fn trunc_rem(i: int, j: int) -> int {
    let r = magnitude(i) % magnitude(j);
    if i >= 0 { r as int } else { -r }
}

/// The value of an infix operation on flat values, when defined.
pub open spec fn eval_infix_flat(op: Infix, a: FlatLitV, b: FlatLitV) -> Option<LitV> {
    match (op, a, b) {
        (Infix::Equal, _, _) => Some(LitV::Flat(FlatLitV::Bool(flat_eq(a, b)))),
        (Infix::NotEqual, _, _) => Some(LitV::Flat(FlatLitV::Bool(!flat_eq(a, b)))),
        (Infix::Plus, FlatLitV::Int(i), FlatLitV::Int(j)) => Some(LitV::Flat(FlatLitV::Int((i + j) as i64))),
        (Infix::Minus, FlatLitV::Int(i), FlatLitV::Int(j)) => Some(LitV::Flat(FlatLitV::Int((i - j) as i64))),
        (Infix::Divide, FlatLitV::Int(i), FlatLitV::Int(j)) =>
            if j == 0 { None } else { Some(LitV::Flat(FlatLitV::Int(trunc_div(i as int, j as int) as i64))) },
        (Infix::Multiply, FlatLitV::Int(i), FlatLitV::Int(j)) => Some(LitV::Flat(FlatLitV::Int((i * j) as i64))),
        (Infix::Remainder, FlatLitV::Int(i), FlatLitV::Int(j)) =>
            if j == 0 { None } else { Some(LitV::Flat(FlatLitV::Int(trunc_rem(i as int, j as int) as i64))) },
        (Infix::LessThan, FlatLitV::Int(i), FlatLitV::Int(j)) => Some(LitV::Flat(FlatLitV::Bool(i < j))),
        (Infix::LessThanEqual, FlatLitV::Int(i), FlatLitV::Int(j)) => Some(LitV::Flat(FlatLitV::Bool(i <= j))),
        (Infix::GreaterThan, FlatLitV::Int(i), FlatLitV::Int(j)) => Some(LitV::Flat(FlatLitV::Bool(i > j))),
        (Infix::GreaterThanEqual, FlatLitV::Int(i), FlatLitV::Int(j)) => Some(LitV::Flat(FlatLitV::Bool(i >= j))),
        (Infix::And, FlatLitV::Bool(i), FlatLitV::Bool(j)) => Some(LitV::Flat(FlatLitV::Bool(i && j))),
        (Infix::Or, FlatLitV::Bool(i), FlatLitV::Bool(j)) => Some(LitV::Flat(FlatLitV::Bool(i || j))),
        (Infix::ConcatStr, FlatLitV::Str(i), FlatLitV::Str(j)) => Some(LitV::Flat(FlatLitV::Str(i + j))),
        _ => None,
    }
}

/// The Boolean that an order comparison of two integers gives, if any.
pub open spec fn int_order_result(op: Infix, i: i64, j: i64) -> Option<bool> {
    match eval_infix_flat(op, FlatLitV::Int(i), FlatLitV::Int(j)) {
        Some(LitV::Flat(FlatLitV::Bool(b))) => Some(b),
        _ => None,
    }
}

/// The order comparisons of integers are those of arithmetic: `a >= b`
/// holds exactly when `a < b` does not, `a <= b` exactly when `a > b` does
/// not, `a >= b` is `b <= a`, and every integer is `>=` and `<=` itself.
pub proof fn lemma_int_order(i: i64, j: i64)
    ensures
        int_order_result(Infix::GreaterThanEqual, i, j) == Some(i >= j),
        int_order_result(Infix::GreaterThan, i, j) == Some(i > j),
        int_order_result(Infix::LessThanEqual, i, j) == Some(i <= j),
        int_order_result(Infix::LessThan, i, j) == Some(i < j),
        int_order_result(Infix::GreaterThanEqual, i, j)
            == Some(!int_order_result(Infix::LessThan, i, j).unwrap()),
        int_order_result(Infix::LessThanEqual, i, j)
            == Some(!int_order_result(Infix::GreaterThan, i, j).unwrap()),
        int_order_result(Infix::GreaterThanEqual, i, j) == int_order_result(Infix::LessThanEqual, j, i),
        int_order_result(Infix::GreaterThan, i, j) == int_order_result(Infix::LessThan, j, i),
        int_order_result(Infix::GreaterThanEqual, i, i) == Some(true),
        int_order_result(Infix::LessThanEqual, i, i) == Some(true),
        int_order_result(Infix::GreaterThan, i, i) == Some(false),
        int_order_result(Infix::LessThan, i, i) == Some(false),
{
}

/// The integer operation is safe to run on these values.
pub open spec fn infix_ok(op: Infix, a: LitV, b: LitV) -> bool {
    match (a, b) {
        (LitV::Flat(FlatLitV::Int(i)), LitV::Flat(FlatLitV::Int(j))) => int_op_ok(op, i, j),
        _ => true,
    }
}

/// The value of an infix operation, when defined: on flat values as
/// above; `@` concatenates lists; `in` tests membership in a list.
pub open spec fn eval_infix_spec(op: Infix, a: LitV, b: LitV) -> Option<LitV> {
    match (a, b) {
        (LitV::Flat(x), LitV::Flat(y)) => eval_infix_flat(op, x, y),
        _ => match (op, a, b) {
            (Infix::Concat, LitV::List(i), LitV::List(j)) => Some(LitV::List(i + j)),
            (Infix::In, _, LitV::List(l)) => Some(LitV::Flat(FlatLitV::Bool(lit_mem(l, a)))),
            _ => None,
        },
    }
}

fn magnitude_u64(i: i64) -> (r: u64)
    ensures
        r as int == magnitude(i as int),
{
    if i >= 0 {
        i as u64
    } else if i == i64::MIN {
        9223372036854775808u64
    } else {
        (-i) as u64
    }
}

/// Rust's division on `i64`, rounding towards zero.
fn div_trunc(i: i64, j: i64) -> (r: i64)
    requires
        j != 0,
        !(i == i64::MIN && j == -1),
    ensures
        r as int == trunc_div(i as int, j as int),
{
    let a = magnitude_u64(i);
    let b = magnitude_u64(j);
    let q = a / b;
    assert(q <= a) by (nonlinear_arith)
        requires q == a / b, b >= 1;
    if (i >= 0) == (j >= 0) {
        proof {
            if q == 9223372036854775808u64 {
                assert(a == 9223372036854775808u64);
                assert(b == 1) by (nonlinear_arith)
                    requires q == a / b, b >= 1, a == 9223372036854775808u64, q == a;
            }
        }
        q as i64
    } else if q == 9223372036854775808u64 {
        i64::MIN
    } else {
        -(q as i64)
    }
}

/// Rust's remainder on `i64`, with the sign of the dividend.
fn rem_trunc(i: i64, j: i64) -> (r: i64)
    requires
        j != 0,
    ensures
        r as int == trunc_rem(i as int, j as int),
{
    let a = magnitude_u64(i);
    let b = magnitude_u64(j);
    let r = a % b;
    assert(r < b);
    assert(b <= 9223372036854775808u64);
    if i >= 0 {
        r as i64
    } else {
        -(r as i64)
    }
}

/// `-` does not overflow.
pub open spec fn prefix_ok(p: Prefix, l: LitV) -> bool {
    match (p, l) {
        (Prefix::Minus, LitV::Flat(FlatLitV::Int(i))) => i != i64::MIN,
        _ => true,
    }
}

/// Copies of two lists, one after the other.
fn concat_lists(i: &Vec<Literal>, j: &Vec<Literal>) -> (r: Vec<Literal>)
    ensures
        lits_view(r@) == lits_view(i@) + lits_view(j@),
{
    proof {
        lemma_lits_view_len(i@);
        lemma_lits_view_len(j@);
    }
    let mut out: Vec<Literal> = Vec::new();
    let mut k: usize = 0;
    while k < i.len()
        invariant
            k <= i@.len(),
            out@.len() == k,
            lits_view(i@).len() == i@.len(),
            forall|m: int| 0 <= m < k ==> lit_view(#[trigger] out@[m]) == (lits_view(i@) + lits_view(j@))[m],
        decreases i.len() - k,
    {
        proof { lemma_lits_view_index(i@, k as int); }
        out.push(i[k].dup());
        k = k + 1;
    }
    let mut k2: usize = 0;
    while k2 < j.len()
        invariant
            k2 <= j@.len(),
            out@.len() == i@.len() + k2,
            lits_view(i@).len() == i@.len(),
            lits_view(j@).len() == j@.len(),
            forall|m: int| 0 <= m < out@.len() ==> lit_view(#[trigger] out@[m]) == (lits_view(i@) + lits_view(j@))[m],
        decreases j.len() - k2,
    {
        proof { lemma_lits_view_index(j@, k2 as int); }
        out.push(j[k2].dup());
        k2 = k2 + 1;
    }
    proof { lemma_lits_view_from(out@, lits_view(i@) + lits_view(j@)); }
    out
}

impl FlatLiteral {
    /// The value of an infix operation on flat values (see
    /// `eval_infix_flat`).
    pub fn eval_infix(&self, op: Infix, other: &FlatLiteral) -> (r: Option<Literal>)
        requires
            infix_ok(op, LitV::Flat(self@), LitV::Flat(other@)),
        ensures
            match r {
                Some(x) => eval_infix_flat(op, self@, other@) == Some(x@),
                None => eval_infix_flat(op, self@, other@) is None,
            },
    {
        match op {
            Infix::Equal => return Some(Literal::bool(self.eq_lit(other))),
            Infix::NotEqual => return Some(Literal::bool(!self.eq_lit(other))),
            _ => {},
        }
        match (self, other) {
            (FlatLiteral::Int(i), FlatLiteral::Int(j)) => {
                let (i, j) = (*i, *j);
                match op {
                    Infix::Plus => Some(Literal::integer(i + j)),
                    Infix::Minus => Some(Literal::integer(i - j)),
                    Infix::Divide => if j == 0 { None } else { Some(Literal::integer(div_trunc(i, j))) },
                    Infix::Multiply => Some(Literal::integer(i * j)),
                    Infix::Remainder => if j == 0 { None } else { Some(Literal::integer(rem_trunc(i, j))) },
                    Infix::LessThan => Some(Literal::bool(i < j)),
                    Infix::LessThanEqual => Some(Literal::bool(i <= j)),
                    Infix::GreaterThan => Some(Literal::bool(i > j)),
                    Infix::GreaterThanEqual => Some(Literal::bool(i >= j)),
                    _ => None,
                }
            },
            (FlatLiteral::Bool(i), FlatLiteral::Bool(j)) => {
                match op {
                    Infix::And => Some(Literal::bool(*i && *j)),
                    Infix::Or => Some(Literal::bool(*i || *j)),
                    _ => None,
                }
            },
            (FlatLiteral::Str(i), FlatLiteral::Str(j)) => {
                match op {
                    Infix::ConcatStr => {
                        let mut s = i.clone();
                        push_str(&mut s, j.as_str());
                        Some(Literal::str(s))
                    },
                    _ => None,
                }
            },
            _ => None,
        }
    }
}

impl Literal {
    /// The value of a prefix operation (see `eval_prefix_spec`).
    pub fn eval_prefix(&self, p: Prefix) -> (r: Option<Literal>)
        requires
            prefix_ok(p, self@),
        ensures
            match r {
                Some(x) => eval_prefix_spec(p, self@) == Some(x@),
                None => eval_prefix_spec(p, self@) is None,
            },
    {
        match (p, self) {
            (Prefix::Not, Literal::FlatLiteral(FlatLiteral::Bool(b))) => Some(Literal::bool(!*b)),
            (Prefix::Minus, Literal::FlatLiteral(FlatLiteral::Int(i))) => Some(Literal::integer(-*i)),
            _ => None,
        }
    }

    /// The value of an infix operation (see `eval_infix_spec`).
    pub fn eval_infix(&self, op: Infix, other: &Literal) -> (r: Option<Literal>)
        requires
            infix_ok(op, self@, other@),
        ensures
            match r {
                Some(x) => eval_infix_spec(op, self@, other@) == Some(x@),
                None => eval_infix_spec(op, self@, other@) is None,
            },
    {
        match (self, other) {
            (Literal::FlatLiteral(a), Literal::FlatLiteral(b)) => a.eval_infix(op, b),
            _ => match (op, self, other) {
                (Infix::Concat, Literal::List(i), Literal::List(j)) => Some(Literal::List(concat_lists(i, j))),
                (Infix::In, _, Literal::List(l)) => Some(VecSet::contains(l.as_slice(), self)),
                _ => None,
            },
        }
    }
}

/// The magnitude of a power is the power of the magnitude.
proof fn lemma_pow_magnitude(b: int, e: nat)
    ensures
        magnitude(pow(b, e)) == pow(magnitude(b) as int, e),
    decreases e,
{
    reveal(pow);
    if e > 0 {
        lemma_pow_magnitude(b, (e - 1) as nat);
        let x = pow(b, (e - 1) as nat);
        assert(magnitude(b * x) == magnitude(b) * magnitude(x)) by (nonlinear_arith);
    }
}

/// Powers of -1 alternate.
proof fn lemma_pow_minus_one(e: nat)
    ensures
        pow(-1, e) == if e % 2 == 0 { 1int } else { -1int },
    decreases e,
{
    reveal(pow);
    if e > 0 {
        lemma_pow_minus_one((e - 1) as nat);
    }
}

/// A power has the sign of its base when the exponent is odd, and is not
/// negative otherwise.
proof fn lemma_pow_sign(b: int, e: nat)
    ensures
        (b < 0 && e % 2 == 1) ==> pow(b, e) <= 0,
        !(b < 0 && e % 2 == 1) ==> pow(b, e) >= 0,
    decreases e,
{
    reveal(pow);
    if e > 0 {
        lemma_pow_sign(b, (e - 1) as nat);
        let x = pow(b, (e - 1) as nat);
        assert(b < 0 && x >= 0 ==> b * x <= 0) by (nonlinear_arith);
        assert(b < 0 && x <= 0 ==> b * x >= 0) by (nonlinear_arith);
        assert(b >= 0 && x >= 0 ==> b * x >= 0) by (nonlinear_arith);
    }
}

/// Whether `i` to the power `e` fits in an `i64` (where `i64::pow` does not
/// overflow).
pub fn pow_fits(i: i64, e: u32) -> (b: bool)
    ensures
        b == (i64::MIN <= pow(i as int, e as nat) <= i64::MAX),
{
    let m: u128 = magnitude_u64(i) as u128;
    proof {
        lemma_pow_magnitude(i as int, e as nat);
        lemma_pow_sign(i as int, e as nat);
    }
    if m <= 1 {
        proof {
            if m == 0 {
                if e == 0 { reveal(pow); } else { vstd::arithmetic::power::lemma0_pow(e as nat); }
            } else {
                vstd::arithmetic::power::lemma1_pow(e as nat);
            }
        }
        return true;
    }
    let cap: u128 = 0x8000_0000_0000_0000;
    let mut acc: u128 = 1;
    let mut k: u32 = 0;
    proof { reveal(pow); }
    while k < e
        invariant
            k <= e,
            2 <= m <= cap,
            m == magnitude(i as int),
            cap == 0x8000_0000_0000_0000u128,
            acc as int == pow(m as int, k as nat),
            acc <= cap,
        decreases e - k,
    {
        proof { reveal(pow); }
        assert(acc * m <= cap * cap) by (nonlinear_arith)
            requires acc <= cap, m <= cap;
        assert(pow(m as int, (k + 1) as nat) == m * pow(m as int, k as nat));
        assert(acc * m == m * acc) by (nonlinear_arith);
        acc = acc * m;
        assert(acc as int == pow(m as int, (k + 1) as nat));
        if acc > cap {
            proof {
                if k + 1 < e {
                    vstd::arithmetic::power::lemma_pow_increases(m as nat, (k + 1) as nat, e as nat);
                }
                lemma_pow_magnitude(i as int, e as nat);
            }
            return false;
        }
        k = k + 1;
    }
    proof { vstd::arithmetic::power::lemma_pow_positive(m as int, e as nat); }
    acc < cap || (i < 0 && e % 2 == 1)
}

/// `i` to the power `e` (as `i64::pow`), when it fits.
pub fn pow_i64(i: i64, e: u32) -> (r: i64)
    requires
        i64::MIN <= pow(i as int, e as nat) <= i64::MAX,
    ensures
        r as int == pow(i as int, e as nat),
{
    if i == 0 {
        if e == 0 {
            proof { reveal(pow); }
            return 1;
        }
        proof { vstd::arithmetic::power::lemma0_pow(e as nat); }
        return 0;
    }
    if i == 1 {
        proof { vstd::arithmetic::power::lemma1_pow(e as nat); }
        return 1;
    }
    if i == -1 {
        proof { lemma_pow_minus_one(e as nat); }
        return if e % 2 == 0 { 1 } else { -1 };
    }
    let ghost m: nat = magnitude(i as int);
    assert(m > 1);
    let mut r: i64 = 1;
    let mut k: u32 = 0;
    proof { reveal(pow); }
    while k < e
        invariant
            k <= e,
            m == magnitude(i as int),
            m > 1,
            r as int == pow(i as int, k as nat),
            i64::MIN <= pow(i as int, e as nat) <= i64::MAX,
        decreases e - k,
    {
        let ghost next = pow(i as int, (k + 1) as nat);
        proof {
            reveal(pow);
            assert(next == i * pow(i as int, k as nat));
            assert(next == (r as int) * (i as int)) by (nonlinear_arith)
                requires next == (i as int) * (r as int);
            lemma_pow_magnitude(i as int, (k + 1) as nat);
            lemma_pow_magnitude(i as int, e as nat);
            if k + 1 < e {
                vstd::arithmetic::power::lemma_pow_strictly_increases(m, (k + 1) as nat, e as nat);
            }
            assert(i64::MIN <= next <= i64::MAX);
        }
        r = r * i;
        k = k + 1;
    }
    r
}

/// The plain names of a label as a value: the option of their list.
pub open spec fn parts_lit(l: Seq<NodeV>) -> LitV {
    if forall|i: int| 0 <= i < l.len() ==> (#[trigger] l[i]) is Str {
        LitV::Tuple(seq![LitV::List(Seq::new(l.len(), |i: int| LitV::Flat(FlatLitV::Str(l[i]->Str_0))))])
    } else {
        LitV::Tuple(Seq::empty())
    }
}

/// An integer value.
pub open spec fn int_v(i: i64) -> LitV {
    LitV::Flat(FlatLitV::Int(i))
}

/// A string value.
pub open spec fn str_v(s: Seq<char>) -> LitV {
    LitV::Flat(FlatLitV::Str(s))
}

/// A Boolean value.
pub open spec fn bool_v(b: bool) -> LitV {
    LitV::Flat(FlatLitV::Bool(b))
}

/// Base64 can encode this many bytes without its length overflowing.
pub open spec fn base64_fits(n: nat) -> bool {
    4 * ((n + 2) / 3) <= usize::MAX
}

/// The one-argument built-in functions on flat values run safely here.
pub open spec fn call1_flat_ok(f: Seq<char>, a: FlatLitV) -> bool {
    match a {
        FlatLitV::Int(i) => f == "i64::abs"@ ==> i != i64::MIN,
        FlatLitV::Str(s) => f == "str::to_base64"@ ==> base64_fits(encode_utf8(s).len()),
        FlatLitV::Data(d) => f == "data::to_base64"@ ==> base64_fits(d.len()),
        _ => true,
    }
}

/// The value of a one-argument built-in function on a flat value, when
/// defined.
pub open spec fn eval_call1_flat(f: Seq<char>, a: FlatLitV) -> Option<LitV> {
    if f == "option::Some"@ {
        Some(LitV::Tuple(seq![LitV::Flat(a)]))
    } else {
        match a {
            FlatLitV::Int(i) =>
                if f == "i64::abs"@ { Some(int_v(if i < 0 { (-i) as i64 } else { i })) }
                else if f == "i64::to_str"@ { Some(str_v(int_decimal(i as int))) }
                else { net_call1(f, a) },
            FlatLitV::Str(s) =>
                if f == "str::len"@ { Some(int_v((encode_utf8(s).len() as usize) as i64)) }
                else if f == "str::to_lowercase"@ { Some(str_v(lowercase_of(s))) }
                else if f == "str::to_uppercase"@ { Some(str_v(uppercase_of(s))) }
                else if f == "str::trim_start"@ { Some(str_v(trim_start_ws(s))) }
                else if f == "str::trim_end"@ { Some(str_v(trim_end_ws(s))) }
                else if f == "str::as_bytes"@ { Some(LitV::Flat(FlatLitV::Data(encode_utf8(s)))) }
                else if f == "str::to_base64"@ { Some(str_v(base64_of(encode_utf8(s)))) }
                else { None },
            FlatLitV::Data(d) =>
                if f == "str::from_utf8"@ { Some(str_v(utf8_lossy(d))) }
                else if f == "data::to_base64"@ { Some(str_v(base64_of(d))) }
                else if f == "data::len"@ { Some(int_v(d.len() as i64)) }
                else { None },
            FlatLitV::Label(l) =>
                if f == "Label::parts"@ { Some(parts_lit(l)) } else { None },
            _ => net_call1(f, a),
        }
    }
}

/// A list reduced to its element, when all its elements equal the first.
pub open spec fn reduce_lit(v: Seq<LitV>) -> LitV {
    if v.len() > 0 && forall|k: int| 0 <= k < v.len() ==> lit_eq(v[0], #[trigger] v[k]) {
        LitV::Tuple(seq![v[0]])
    } else {
        LitV::Tuple(Seq::empty())
    }
}

/// The one-argument built-in functions run safely on this value.
pub open spec fn call1_ok(f: Seq<char>, l: LitV) -> bool {
    match l {
        LitV::Flat(a) => call1_flat_ok(f, a),
        _ => true,
    }
}

/// The value of a one-argument built-in function, when defined: options
/// are tested, lists measured and reduced, and a tuple's element is taken
/// by its number.
pub open spec fn eval_call1_spec(f: Seq<char>, l: LitV) -> Option<LitV> {
    match l {
        LitV::Flat(a) => eval_call1_flat(f, a),
        LitV::List(v) =>
            if f == "list::len"@ { Some(int_v(v.len() as i64)) }
            else if f == "list::reduce"@ { Some(reduce_lit(v)) }
            else { None },
        LitV::Tuple(t) =>
            if f == "option::is_none"@ { Some(bool_v(t.len() == 0)) }
            else if f == "option::is_some"@ { Some(bool_v(t.len() == 1)) }
            else {
                match usize_parse(f) {
                    Some(i) => if i < t.len() { Some(t[i as int]) } else { None },
                    None => None,
                }
            },
    }
}

impl FlatLiteral {
    /// The value of a one-argument built-in function (see
    /// `eval_call1_flat`).
    pub fn eval_call1(&self, f: &str) -> (r: Option<Literal>)
        requires
            call1_flat_ok(f@, self@),
        ensures
            match r {
                Some(x) => eval_call1_flat(f@, self@) == Some(x@),
                None => eval_call1_flat(f@, self@) is None,
            },
    {
        if str_eq(f, "option::Some") {
            let mut v: Vec<Literal> = Vec::new();
            v.push(Literal::FlatLiteral(self.dup()));
            proof { lemma_lits_view_from(v@, seq![LitV::Flat(self@)]); }
            return Some(Literal::Tuple(v));
        }
        match self {
            FlatLiteral::Int(i) => {
                if str_eq(f, "i64::abs") {
                    let a = if *i < 0 { -*i } else { *i };
                    assert(a == if *i < 0 { (-(*i as int)) as i64 } else { *i });
                    Some(Literal::integer(a))
                } else if str_eq(f, "i64::to_str") {
                    Some(Literal::str(i64_to_string(*i)))
                } else {
                    net_eval_call1(self, f)
                }
            },
            FlatLiteral::Str(s) => {
                let t = s.as_str();
                if str_eq(f, "str::len") {
                    Some(Literal::integer(t.len() as i64))
                } else if str_eq(f, "str::to_lowercase") {
                    Some(Literal::str(str_to_lowercase(t)))
                } else if str_eq(f, "str::to_uppercase") {
                    Some(Literal::str(str_to_uppercase(t)))
                } else if str_eq(f, "str::trim_start") {
                    Some(Literal::str(trim_start(t)))
                } else if str_eq(f, "str::trim_end") {
                    Some(Literal::str(trim_end(t)))
                } else if str_eq(f, "str::as_bytes") {
                    Some(Literal::data(vstd::slice::slice_to_vec(t.as_bytes())))
                } else if str_eq(f, "str::to_base64") {
                    Some(Literal::str(base64_encode(t.as_bytes())))
                } else {
                    None
                }
            },
            FlatLiteral::Data(d) => {
                if str_eq(f, "str::from_utf8") {
                    Some(Literal::str(from_utf8_lossy(d.as_slice())))
                } else if str_eq(f, "data::to_base64") {
                    Some(Literal::str(base64_encode(d.as_slice())))
                } else if str_eq(f, "data::len") {
                    Some(Literal::integer(d.len() as i64))
                } else {
                    None
                }
            },
            FlatLiteral::Label(l) => {
                if str_eq(f, "Label::parts") {
                    Some(parts_literal(l))
                } else {
                    None
                }
            },
            _ => net_eval_call1(self, f),
        }
    }
}

/// The plain names of a label as a value (see `parts_lit`).
fn parts_literal(l: &Label) -> (r: Literal)
    ensures
        r@ == parts_lit(l@),
{
    match l.parts() {
        Some(v) => {
            let mut out: Vec<Literal> = Vec::new();
            let mut k: usize = 0;
            while k < v.len()
                invariant
                    k <= v@.len(),
                    out@.len() == k,
                    forall|m: int| 0 <= m < k ==> lit_view(#[trigger] out@[m]) == LitV::Flat(FlatLitV::Str(v@[m]@)),
                decreases v.len() - k,
            {
                out.push(Literal::str(v[k].clone()));
                k = k + 1;
            }
            let ghost ns = l@;
            let ghost items = Seq::new(ns.len(), |i: int| LitV::Flat(FlatLitV::Str(ns[i]->Str_0)));
            proof {
                assert forall|m: int| 0 <= m < out@.len() implies lit_view(#[trigger] out@[m]) == items[m] by {
                    assert(ns[m] == NodeV::Str(v@[m]@));
                }
                lemma_lits_view_from(out@, items);
            }
            let list = Literal::List(out);
            let mut w: Vec<Literal> = Vec::new();
            w.push(list);
            proof { lemma_lits_view_from(w@, seq![LitV::List(items)]); }
            Literal::Tuple(w)
        },
        None => Literal::none(),
    }
}

impl Literal {
    /// The value of a one-argument built-in function (see
    /// `eval_call1_spec`).
    #[verifier::loop_isolation(false)]
    pub fn eval_call1(&self, f: &str) -> (r: Option<Literal>)
        requires
            call1_ok(f@, self@),
        ensures
            match r {
                Some(x) => eval_call1_spec(f@, self@) == Some(x@),
                None => eval_call1_spec(f@, self@) is None,
            },
    {
        match self {
            Literal::FlatLiteral(fl) => fl.eval_call1(f),
            Literal::List(v) => {
                proof { lemma_lits_view_len(v@); }
                if str_eq(f, "list::len") {
                    Some(Literal::integer(v.len() as i64))
                } else if str_eq(f, "list::reduce") {
                    if v.len() == 0 {
                        return Some(Literal::none());
                    }
                    let mut k: usize = 0;
                    while k < v.len()
                        invariant
                            k <= v@.len(),
                            v@.len() > 0,
                            lits_view(v@).len() == v@.len(),
                            forall|m: int| 0 <= m < k ==> lit_eq(lits_view(v@)[0], #[trigger] lits_view(v@)[m]),
                        decreases v.len() - k,
                    {
                        proof {
                            lemma_lits_view_index(v@, 0);
                            lemma_lits_view_index(v@, k as int);
                        }
                        if !v[0].eq_lit(&v[k]) {
                            assert(!lit_eq(lits_view(v@)[0], lits_view(v@)[k as int]));
                            return Some(Literal::none());
                        }
                        k = k + 1;
                    }
                    proof { lemma_lits_view_index(v@, 0); }
                    Some(v[0].some())
                } else {
                    None
                }
            },
            Literal::Tuple(t) => {
                proof { lemma_lits_view_len(t@); }
                if str_eq(f, "option::is_none") {
                    Some(Literal::bool(t.len() == 0))
                } else if str_eq(f, "option::is_some") {
                    Some(Literal::bool(t.len() == 1))
                } else {
                    match parse_usize(f) {
                        Some(i) => {
                            if i < t.len() {
                                proof { lemma_lits_view_index(t@, i as int); }
                                Some(t[i].dup())
                            } else {
                                None
                            }
                        },
                        None => None,
                    }
                }
            },
        }
    }
}

/// The pairs of a match as a value: variable name and printed label, in
/// order of the names.
pub open spec fn pairs_lit(es: Seq<(Seq<char>, Seq<NodeV>)>) -> Seq<LitV> {
    Seq::new(es.len(), |k: int| LitV::Tuple(seq![str_v(es[k].0), str_v(label_text(es[k].1))]))
}

/// What `Label::captures` gives: the option of the list of pairs of the
/// match, taken in order of the variable names.
pub open spec fn captures_v(m: Option<Map<Seq<char>, Seq<NodeV>>>, x: LitV) -> bool {
    match m {
        None => x == LitV::Tuple(Seq::empty()),
        Some(mm) => exists|es: Seq<(Seq<char>, Seq<NodeV>)>|
            sorted_keys(es) && map_of(es) == mm && x == LitV::Tuple(seq![LitV::List(#[trigger] pairs_lit(es))]),
    }
}

/// The two-argument built-in functions on flat values run safely here.
pub open spec fn call2_flat_ok(f: Seq<char>, a: FlatLitV, b: FlatLitV) -> bool {
    match (a, b) {
        (FlatLitV::Int(i), FlatLitV::Int(j)) =>
            f == "i64::pow"@ ==> i64::MIN <= pow(i as int, (j as u32) as nat) <= i64::MAX,
        _ => true,
    }
}

/// What a two-argument built-in function gives on flat values (`r`),
/// `None` where it is not defined.
pub open spec fn eval_call2_flat(f: Seq<char>, a: FlatLitV, b: FlatLitV, r: Option<LitV>) -> bool {
    match (a, b) {
        (FlatLitV::Int(i), FlatLitV::Int(j)) =>
            if f == "i64::pow"@ { r == Some(int_v(pow(i as int, (j as u32) as nat) as i64)) }
            else if f == "i64::min"@ { r == Some(int_v(if i <= j { i } else { j })) }
            else if f == "i64::max"@ { r == Some(int_v(if i >= j { i } else { j })) }
            else { r is None },
        (FlatLitV::Str(i), FlatLitV::Str(j)) =>
            if f == "str::starts_with"@ { r == Some(bool_v(j.len() <= i.len() && i.take(j.len() as int) == j)) }
            else if f == "str::ends_with"@ { r == Some(bool_v(ends_with_spec(i, j))) }
            else if f == "str::contains"@ { r == Some(bool_v(contains_spec(i, j))) }
            else { r is None },
        (FlatLitV::Str(s), FlatLitV::Regex(_, src)) =>
            if f == "str::is_match"@ { r == Some(bool_v(regex_is_match(src, s))) } else { r is None },
        (FlatLitV::Regex(_, src), FlatLitV::Str(s)) =>
            if f == "regex::is_match"@ { r == Some(bool_v(regex_is_match(src, s))) } else { r is None },
        (FlatLitV::Label(i), FlatLitV::Label(j)) =>
            if f == "Label::captures"@ { r is Some && captures_v(match_spec(i, j), r->0) }
            else if f == "Label::is_match"@ { r == Some(bool_v(match_spec(i, j) is Some)) }
            else if f == "Label::concat"@ { r == Some(LitV::Flat(FlatLitV::Label(i + j))) }
            else { r is None },
        _ => r == net_call2(f, a, b),
    }
}

/// The two-argument built-in functions run safely on these values.
pub open spec fn call2_ok(f: Seq<char>, a: LitV, b: LitV) -> bool {
    match (a, b) {
        (LitV::Flat(x), LitV::Flat(y)) => call2_flat_ok(f, x, y),
        _ => true,
    }
}

/// What a two-argument built-in function gives (`r`): on flat values as
/// above, and the set operations on lists.
pub open spec fn eval_call2_spec(f: Seq<char>, a: LitV, b: LitV, r: Option<LitV>) -> bool {
    match (a, b) {
        (LitV::Flat(x), LitV::Flat(y)) => eval_call2_flat(f, x, y, r),
        (LitV::List(x), LitV::List(y)) =>
            if f == "list::is_subset"@ {
                r == Some(bool_v(forall|i: int| 0 <= i < x.len() ==> lit_mem(y, #[trigger] x[i])))
            } else if f == "list::is_disjoint"@ {
                r == Some(bool_v(!exists|i: int| 0 <= i < x.len() && lit_mem(y, #[trigger] x[i])))
            } else if f == "list::difference"@ {
                r == Some(LitV::List(lit_filter(x, y, false)))
            } else if f == "list::intersection"@ {
                r == Some(LitV::List(lit_filter(x, y, true)))
            } else {
                r is None
            },
        _ => r is None,
    }
}

/// The pairs of a match as a list value.
fn captures_literal(m: &crate::labels::Match) -> (r: Literal)
    ensures
        captures_v(Some(m@), LitV::Tuple(seq![r@])),
{
    m.properties();
    let ps = m.pairs();
    let ghost es = m.entries();
    let mut out: Vec<Literal> = Vec::new();
    let mut k: usize = 0;
    while k < ps.len()
        invariant
            k <= ps@.len(),
            ps@.len() == es.len(),
            es == m.entries(),
            forall|i: int| 0 <= i < ps@.len() ==> (#[trigger] ps@[i]).0@ == es[i].0 && ps@[i].1@ == label_text(es[i].1),
            out@.len() == k,
            forall|i: int| 0 <= i < k ==> lit_view(#[trigger] out@[i]) == pairs_lit(es)[i],
        decreases ps.len() - k,
    {
        let mut t: Vec<Literal> = Vec::new();
        t.push(Literal::str(ps[k].0.clone()));
        t.push(Literal::str(ps[k].1.clone()));
        proof { lemma_lits_view_from(t@, seq![str_v(es[k as int].0), str_v(label_text(es[k as int].1))]); }
        out.push(Literal::Tuple(t));
        k = k + 1;
    }
    proof { lemma_lits_view_from(out@, pairs_lit(es)); }
    let r = Literal::List(out);
    assert(sorted_keys(es) && map_of(es) == m@ && LitV::Tuple(seq![r@]) == LitV::Tuple(seq![LitV::List(pairs_lit(es))]));
    r
}

impl FlatLiteral {
    /// The value of a two-argument built-in function (see
    /// `eval_call2_flat`).
    pub fn eval_call2(&self, f: &str, other: &FlatLiteral) -> (r: Option<Literal>)
        requires
            call2_flat_ok(f@, self@, other@),
        ensures
            eval_call2_flat(f@, self@, other@, match r { Some(x) => Some(x@), None => None }),
    {
        match (self, other) {
            (FlatLiteral::Int(i), FlatLiteral::Int(j)) => {
                let (i, j) = (*i, *j);
                if str_eq(f, "i64::pow") {
                    let e: u32 = j as u32;
                    let p = pow_i64(i, e);
                    assert(p == pow(i as int, e as nat) as i64);
                    Some(Literal::integer(p))
                } else if str_eq(f, "i64::min") {
                    Some(Literal::integer(if i <= j { i } else { j }))
                } else if str_eq(f, "i64::max") {
                    Some(Literal::integer(if i >= j { i } else { j }))
                } else {
                    None
                }
            },
            (FlatLiteral::Str(i), FlatLiteral::Str(j)) => {
                if str_eq(f, "str::starts_with") {
                    Some(Literal::bool(starts_with(i.as_str(), j.as_str())))
                } else if str_eq(f, "str::ends_with") {
                    Some(Literal::bool(ends_with(i.as_str(), j.as_str())))
                } else if str_eq(f, "str::contains") {
                    Some(Literal::bool(contains(i.as_str(), j.as_str())))
                } else {
                    None
                }
            },
            (FlatLiteral::Str(s), FlatLiteral::Regex(r)) => {
                if str_eq(f, "str::is_match") {
                    Some(Literal::bool(r.is_match(s.as_str())))
                } else {
                    None
                }
            },
            (FlatLiteral::Regex(r), FlatLiteral::Str(s)) => {
                if str_eq(f, "regex::is_match") {
                    Some(Literal::bool(r.is_match(s.as_str())))
                } else {
                    None
                }
            },
            (FlatLiteral::Label(i), FlatLiteral::Label(j)) => {
                if str_eq(f, "Label::captures") {
                    match i.match_with(j) {
                        Some(m) => Some(captures_literal(&m).some()),
                        None => Some(Literal::none()),
                    }
                } else if str_eq(f, "Label::is_match") {
                    Some(Literal::bool(i.matches_with(j)))
                } else if str_eq(f, "Label::concat") {
                    Some(Literal::label(Label::concat(i, j)))
                } else {
                    None
                }
            },
            _ => net_eval_call2(self, f, other),
        }
    }
}

impl Literal {
    /// The value of a two-argument built-in function (see
    /// `eval_call2_spec`).
    pub fn eval_call2(&self, f: &str, other: &Literal) -> (r: Option<Literal>)
        requires
            call2_ok(f@, self@, other@),
        ensures
            eval_call2_spec(f@, self@, other@, match r { Some(x) => Some(x@), None => None }),
    {
        match (self, other) {
            (Literal::FlatLiteral(a), Literal::FlatLiteral(b)) => a.eval_call2(f, b),
            (Literal::List(x), Literal::List(y)) => {
                proof {
                    lemma_lits_view_len(x@);
                    lemma_lits_view_len(y@);
                }
                if str_eq(f, "list::is_subset") {
                    Some(VecSet::is_subset(x.as_slice(), y.as_slice()))
                } else if str_eq(f, "list::is_disjoint") {
                    Some(VecSet::is_disjoint(x.as_slice(), y.as_slice()))
                } else if str_eq(f, "list::difference") {
                    Some(VecSet::difference(x.as_slice(), y.as_slice()))
                } else if str_eq(f, "list::intersection") {
                    Some(VecSet::intersection(x.as_slice(), y.as_slice()))
                } else {
                    None
                }
            },
            _ => None,
        }
    }
}

} // verus!
