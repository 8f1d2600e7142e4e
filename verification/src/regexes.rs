//! Regular expressions, compiled and run by the `regex` crate.

use vstd::prelude::*;

verus! {

#[verifier::external_type_specification]
#[verifier::external_body]
pub struct ExRegex(regex::Regex);

/// Whether `regex::Regex::new` accepts the pattern.
pub uninterp spec fn regex_compiles(pattern: Seq<char>) -> bool;

/// Whether the compiled pattern matches somewhere in the text
/// (`regex::Regex::is_match`).
pub uninterp spec fn regex_is_match(pattern: Seq<char>, text: Seq<char>) -> bool;

/// A compiled regular expression together with its source pattern.
#[derive(Debug)]
pub struct CompiledRegex {
    source: String,
    re: regex::Regex,
}

impl CompiledRegex {
    /// The pattern this expression was compiled from.
    pub closed spec fn source(&self) -> Seq<char> {
        self.source@
    }
}

/// Compiles a pattern with `regex::Regex::new`. The contract claims that
/// compilation succeeds exactly when the pattern is accepted (a property of
/// the pattern alone) and that the result remembers its pattern.
#[verifier::external_body]
pub(crate) fn compile_regex(pattern: &str) -> (r: Option<CompiledRegex>)
    ensures
        r is Some <==> regex_compiles(pattern@),
        r matches Some(c) ==> c.source() == pattern@,
{
    regex::Regex::new(pattern).ok().map(|re| CompiledRegex { source: pattern.to_string(), re })
}

/// Runs `regex::Regex::is_match`. The contract claims that the answer is
/// determined by the source pattern and the text.
#[verifier::external_body]
pub(crate) fn regex_find(re: &CompiledRegex, text: &str) -> (b: bool)
    ensures
        b == regex_is_match(re.source(), text@),
{
    re.re.is_match(text)
}

/// Runs `Clone::clone` on the compiled expression (`regex::Regex::clone`).
/// The contract claims that the copy has the same source pattern.
#[verifier::external_body]
pub(crate) fn clone_regex(re: &CompiledRegex) -> (r: CompiledRegex)
    ensures
        r.source() == re.source(),
{
    CompiledRegex { source: re.source.clone(), re: re.re.clone() }
}

/// The names of the capture groups of a pattern, one entry per group in the
/// order of their opening parentheses (`regex::Regex::capture_names`); the
/// first entry, for the whole match, has no name.
pub uninterp spec fn regex_group_names(pattern: Seq<char>) -> Seq<Option<Seq<char>>>;

/// The text that each capture group matched, one entry per group, at the
/// first match of the pattern in the text (`regex::Regex::captures`); `None`
/// when there is no match.
pub uninterp spec fn regex_captures(pattern: Seq<char>, text: Seq<char>) -> Option<Seq<Option<Seq<char>>>>;

/// Optional texts by their views.
pub open spec fn opt_texts(v: Seq<Option<String>>) -> Seq<Option<Seq<char>>> {
    Seq::new(v.len(), |k: int| match v[k] { Some(s) => Some(s@), None => None })
}

/// Runs `regex::Regex::capture_names`. The contract claims that the names
/// depend on the source pattern alone.
#[verifier::external_body]
pub(crate) fn group_names(re: &CompiledRegex) -> (r: Vec<Option<String>>)
    ensures
        opt_texts(r@) == regex_group_names(re.source()),
{
    re.re.capture_names().map(|n| n.map(|s| s.to_string())).collect()
}

/// Runs `regex::Regex::captures` and reads the text of each group
/// (`regex::Captures::iter`). The contract claims that the result depends on
/// the source pattern and the text alone, and that there is one entry per
/// capture group (as the crate documents for both methods).
#[verifier::external_body]
pub(crate) fn group_captures(re: &CompiledRegex, text: &str) -> (r: Option<Vec<Option<String>>>)
    ensures
        match r {
            Some(v) => regex_captures(re.source(), text@) == Some(opt_texts(v@))
                && v@.len() == regex_group_names(re.source()).len(),
            None => regex_captures(re.source(), text@) is None,
        },
{
    re.re.captures(text).map(|c| c.iter().map(|m| m.map(|m| m.as_str().to_string())).collect())
}

/// A meta character of the regular expression syntax.
pub open spec fn is_meta_character(c: char) -> bool {
    c == '\\' || c == '.' || c == '+' || c == '*' || c == '?' || c == '(' || c == ')' || c == '|' || c == '['
        || c == ']' || c == '{' || c == '}' || c == '^' || c == '$' || c == '#' || c == '&' || c == '-' || c == '~'
}

/// The text with a backslash before each meta character.
pub open spec fn escape_spec(s: Seq<char>) -> Seq<char>
    decreases s.len(),
{
    if s.len() == 0 {
        Seq::empty()
    } else {
        escape_spec(s.drop_last()) + if is_meta_character(s.last()) { seq!['\\', s.last()] } else { seq![s.last()] }
    }
}

/// Runs `regex::escape`, which puts a backslash before each meta character
/// of the text (the contract states exactly that).
#[verifier::external_body]
pub(crate) fn regex_escape(s: &str) -> (r: String)
    ensures
        r@ == escape_spec(s@),
{
    regex::escape(s)
}

} // verus!
