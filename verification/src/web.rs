//! The page that the logger's web server serves.

use vstd::prelude::*;
use crate::text::push_str;

verus! {

/// An HTML page with the given title and body.
pub open spec fn page_text(title: Seq<char>, body: Seq<char>) -> Seq<char> {
    "\n<!DOCTYPE html>\n<html>\n<head>\n<title>"@ + title + "</title>\n</head>\n<body>\n"@ + body
        + "\n</body>\n</html>"@
}

/// An HTML page with the given title and body.
pub fn page(title: &str, body: &str) -> (s: String)
    ensures
        s@ == page_text(title@, body@),
{
    let mut s = "\n<!DOCTYPE html>\n<html>\n<head>\n<title>".to_owned();
    push_str(&mut s, title);
    push_str(&mut s, "</title>\n</head>\n<body>\n");
    push_str(&mut s, body);
    push_str(&mut s, "\n</body>\n</html>");
    s
}

} // verus!
