//! How the pretty printer highlights the words of the policy language.

use vstd::prelude::*;
use crate::text::str_eq;

verus! {

/// The classes of words: keywords (printed in cyan), control-flow words
/// (magenta) and the others (plain).
#[derive(Clone, Copy, Debug, PartialEq, Eq, Structural)]
pub enum KeyClass {
    Keyword,
    Control,
    Other,
}

/// The class of a word.
pub open spec fn key_class(data: Seq<char>) -> KeyClass {
    if data == "as"@ || data == "false"@ || data == "fn"@ || data == "in"@ || data == "let"@ || data == "true"@ {
        KeyClass::Keyword
    } else if data == "async"@ || data == "else"@ || data == "if"@ || data == "matches"@ || data == "return"@ {
        KeyClass::Control
    } else {
        KeyClass::Other
    }
}

/// The class of a word (see `key_class`).
pub fn key(data: &str) -> (c: KeyClass)
    ensures
        c == key_class(data@),
{
    if str_eq(data, "as") || str_eq(data, "false") || str_eq(data, "fn") || str_eq(data, "in")
        || str_eq(data, "let") || str_eq(data, "true") {
        KeyClass::Keyword
    } else if str_eq(data, "async") || str_eq(data, "else") || str_eq(data, "if") || str_eq(data, "matches")
        || str_eq(data, "return") {
        KeyClass::Control
    } else {
        KeyClass::Other
    }
}

} // verus!
