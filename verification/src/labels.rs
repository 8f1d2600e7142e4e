//! Labels: `::`-separated sequences of nodes, used both as names and as
//! patterns with variables (`<x>`, `<<x>>`) and wildcards (`*`, `**`).

use vstd::prelude::*;
use crate::text::{str_eq, chars_of, string_from_chars, string_push, push_str, concat, i64_to_string, int_decimal, parse_i64, i64_parse};
use crate::strmap::{StrMap, sorted_keys};
use crate::regexes::{CompiledRegex, compile_regex, regex_find, regex_compiles, regex_is_match};

verus! {

/// Syntax of a variable node `<name>`.
pub const NODE_ANY_RE: &'static str = "^<[[:alpha:]][[:alnum:]]*>$";
/// Syntax of a recursive variable node `<<name>>`.
pub const NODE_REC_ANY_RE: &'static str = "^<<[[:alpha:]][[:alnum:]]*>>$";
/// Syntax of a plain node.
pub const NODE_STR_RE: &'static str = "^[[:alnum:]]([ _+-]?[[:alnum:]])*$";

/// Node element of a label.
#[derive(Clone, Debug, PartialEq, Eq, PartialOrd, Ord)]
pub enum Node {
    Any(String),
    RecAny(String),
    Str(String),
}

/// Mathematical model of a node.
pub enum NodeV {
    Any(Seq<char>),
    RecAny(Seq<char>),
    Str(Seq<char>),
}

impl View for Node {
    type V = NodeV;

    open spec fn view(&self) -> NodeV {
        match self {
            Node::Any(s) => NodeV::Any(s@),
            Node::RecAny(s) => NodeV::RecAny(s@),
            Node::Str(s) => NodeV::Str(s@),
        }
    }
}

/// How a node is printed.
pub open spec fn node_text(n: NodeV) -> Seq<char> {
    match n {
        NodeV::Any(s) => if s.len() == 0 { seq!['*'] } else { seq!['<'] + s + seq!['>'] },
        NodeV::RecAny(s) => if s.len() == 0 { seq!['*', '*'] } else { seq!['<', '<'] + s + seq!['>', '>'] },
        NodeV::Str(s) => s,
    }
}

/// How a label is printed: its nodes joined by `::`.
pub open spec fn label_text(ns: Seq<NodeV>) -> Seq<char>
    decreases ns.len(),
{
    if ns.len() == 0 {
        Seq::empty()
    } else if ns.len() == 1 {
        node_text(ns[0])
    } else {
        label_text(ns.drop_last()) + seq![':', ':'] + node_text(ns.last())
    }
}

/// `s` without its leading copies of `c`.
pub open spec fn trim_start(s: Seq<char>, c: char) -> Seq<char>
    decreases s.len(),
{
    if s.len() > 0 && s[0] == c {
        trim_start(s.drop_first(), c)
    } else {
        s
    }
}

/// `s` without its trailing copies of `c`.
pub open spec fn trim_end(s: Seq<char>, c: char) -> Seq<char>
    decreases s.len(),
{
    if s.len() > 0 && s.last() == c {
        trim_end(s.drop_last(), c)
    } else {
        s
    }
}

/// The three node regular expressions compile.
pub open spec fn syntax_compiles() -> bool {
    regex_compiles(NODE_ANY_RE@) && regex_compiles(NODE_REC_ANY_RE@) && regex_compiles(NODE_STR_RE@)
}

/// Reading one node from its text, given whether the text matches the
/// expressions of a `<x>` node, of a `<<x>>` node and of a plain name.
pub open spec fn node_decide(s: Seq<char>, any: bool, rec_any: bool, plain: bool) -> Result<NodeV, Seq<char>> {
    if s == seq!['*'] {
        Ok(NodeV::Any(Seq::empty()))
    } else if s == seq!['*', '*'] {
        Ok(NodeV::RecAny(Seq::empty()))
    } else if any {
        Ok(NodeV::Any(trim_end(trim_start(s, '<'), '>')))
    } else if rec_any {
        Ok(NodeV::RecAny(trim_end(trim_start(s, '<'), '>')))
    } else if plain {
        Ok(NodeV::Str(s))
    } else {
        Err("bad label: "@ + s)
    }
}

/// Parsing one node from its text.
pub open spec fn node_parse(s: Seq<char>) -> Result<NodeV, Seq<char>> {
    node_decide(s, regex_is_match(NODE_ANY_RE@, s), regex_is_match(NODE_REC_ANY_RE@, s), regex_is_match(NODE_STR_RE@, s))
}

/// A `::` separator starts at `i`.
pub open spec fn is_sep(s: Seq<char>, i: int) -> bool {
    0 <= i && i + 1 < s.len() && s[i] == ':' && s[i + 1] == ':'
}

/// Index of the first `::` separator, or -1.
pub open spec fn first_sep(s: Seq<char>) -> int
    decreases s.len(),
{
    if s.len() < 2 {
        -1
    } else if s[0] == ':' && s[1] == ':' {
        0
    } else {
        let r = first_sep(s.drop_first());
        if r < 0 { -1 } else { r + 1 }
    }
}

/// The pieces between `::` separators, scanning from the left.
pub open spec fn split_label(s: Seq<char>) -> Seq<Seq<char>>
    decreases s.len(),
{
    let j = first_sep(s);
    if 0 <= j && j + 2 <= s.len() {
        seq![s.take(j)] + split_label(s.skip(j + 2))
    } else {
        seq![s]
    }
}

/// Parsing a list of node texts, stopping at the first error.
pub open spec fn parse_nodes(parts: Seq<Seq<char>>) -> Result<Seq<NodeV>, Seq<char>>
    decreases parts.len(),
{
    if parts.len() == 0 {
        Ok(Seq::empty())
    } else {
        match parse_nodes(parts.drop_last()) {
            Err(e) => Err(e),
            Ok(ns) => match node_parse(parts.last()) {
                Err(e) => Err(e),
                Ok(n) => Ok(ns.push(n)),
            },
        }
    }
}

/// Parsing a label from its text.
pub open spec fn label_parse(s: Seq<char>) -> Result<Seq<NodeV>, Seq<char>> {
    parse_nodes(split_label(s))
}

/// Result of matching one pattern node against a node.
pub enum MatchNodeV {
    Mismatch,
    Match,
    Bind(Seq<char>, NodeV),
    BindRec(Seq<char>, NodeV),
}

/// Matching one pattern node against one node.
pub open spec fn node_match(p: NodeV, l: NodeV) -> MatchNodeV {
    match p {
        NodeV::Str(x) => if l == NodeV::Str(x) { MatchNodeV::Match } else { MatchNodeV::Mismatch },
        NodeV::Any(x) => if x.len() > 0 { MatchNodeV::Bind(x, l) } else { MatchNodeV::Match },
        NodeV::RecAny(x) => if x.len() > 0 { MatchNodeV::BindRec(x, l) } else { MatchNodeV::Match },
    }
}

/// Two nodes agree as one-node labels: equal plain nodes, or neither plain.
pub open spec fn same_class(a: NodeV, b: NodeV) -> bool {
    match (a, b) {
        (NodeV::Str(x), NodeV::Str(y)) => x == y,
        (NodeV::Str(_), _) => false,
        (_, NodeV::Str(_)) => false,
        _ => true,
    }
}

/// Label equality of `other` with the one-node label `[r]`
/// (see `lemma_eq_single`).
pub open spec fn eq_single(other: Seq<NodeV>, r: NodeV) -> bool {
    other.len() == 1 && same_class(other[0], r)
}

/// A pattern ending in `<<x>>` is padded with `<<x>>` up to length `n`.
pub open spec fn pattern_ext(p: Seq<NodeV>, n: nat) -> Seq<NodeV> {
    if p.len() > 0 && p.last() is RecAny && p.len() < n {
        p + Seq::new((n - p.len()) as nat, |i: int| p.last())
    } else {
        p
    }
}

/// One matching step, extending the bindings found so far.
pub open spec fn match_step(m: Map<Seq<char>, Seq<NodeV>>, p: NodeV, l: NodeV) -> Option<Map<Seq<char>, Seq<NodeV>>> {
    match node_match(p, l) {
        MatchNodeV::Mismatch => None,
        MatchNodeV::Match => Some(m),
        MatchNodeV::Bind(k, r) => if m.contains_key(k) && !eq_single(m[k], r) {
            None
        } else {
            Some(m.insert(k, seq![r]))
        },
        MatchNodeV::BindRec(k, r) => if m.contains_key(k) {
            Some(m.insert(k, m[k].push(r)))
        } else {
            Some(m.insert(k, seq![r]))
        },
    }
}

/// Matching the first `n` nodes.
pub open spec fn match_fold(p: Seq<NodeV>, l: Seq<NodeV>, n: nat) -> Option<Map<Seq<char>, Seq<NodeV>>>
    decreases n,
{
    if n == 0 {
        Some(Map::empty())
    } else {
        match match_fold(p, l, (n - 1) as nat) {
            None => None,
            Some(m) => match_step(m, p[n - 1], l[n - 1]),
        }
    }
}

/// Matching a pattern against a label: the bindings of its variables, or
/// `None` when it does not match.
pub open spec fn match_spec(p: Seq<NodeV>, l: Seq<NodeV>) -> Option<Map<Seq<char>, Seq<NodeV>>> {
    let pat = pattern_ext(p, l.len());
    if pat.len() != l.len() {
        None
    } else {
        match_fold(pat, l, l.len())
    }
}

/// Label equality: each matches the other.
pub open spec fn label_eq(a: Seq<NodeV>, b: Seq<NodeV>) -> bool {
    match_spec(a, b) is Some && match_spec(b, a) is Some
}

/// The plain name of a node.
pub open spec fn node_str(n: NodeV) -> Option<Seq<char>> {
    match n {
        NodeV::Str(s) => Some(s),
        _ => None,
    }
}

/// The variable name of a node.
pub open spec fn node_var(n: NodeV) -> Option<Seq<char>> {
    match n {
        NodeV::Any(s) => if s.len() > 0 { Some(s) } else { None },
        NodeV::RecAny(s) => if s.len() > 0 { Some(s) } else { None },
        _ => None,
    }
}

/// The variable names of a label, in order.
pub open spec fn label_vars(ns: Seq<NodeV>) -> Seq<Seq<char>>
    decreases ns.len(),
{
    if ns.len() == 0 {
        Seq::empty()
    } else {
        match node_var(ns.last()) {
            Some(v) => label_vars(ns.drop_last()).push(v),
            None => label_vars(ns.drop_last()),
        }
    }
}

/// The key by which a node is ordered: its kind (`*`-like, `**`-like or
/// plain, in that order), its name, and an end mark.
pub open spec fn node_key(n: NodeV) -> Seq<char> {
    match n {
        NodeV::Any(s) => seq!['\u{1}'] + s + seq!['\u{0}'],
        NodeV::RecAny(s) => seq!['\u{2}'] + s + seq!['\u{0}'],
        NodeV::Str(s) => seq!['\u{3}'] + s + seq!['\u{0}'],
    }
}

/// The key by which a label is ordered among labels: the keys of its
/// nodes in turn.
pub open spec fn label_key(ns: Seq<NodeV>) -> Seq<char>
    decreases ns.len(),
{
    if ns.len() == 0 { Seq::empty() } else { label_key(ns.drop_last()) + node_key(ns.last()) }
}

/// The label of a login time.
pub open spec fn login_time_label(t: int) -> Seq<NodeV> {
    seq![NodeV::Str("ControlPlane"@), NodeV::Str("LoginTime"@), NodeV::Str(int_decimal(t))]
}

/// The time that a login-time label holds.
pub open spec fn login_time_of(ns: Seq<NodeV>) -> Option<i64> {
    if is_login_time_label(ns) {
        match ns[2] {
            NodeV::Str(s) => i64_parse(s),
            _ => None,
        }
    } else {
        None
    }
}

/// Whether a label has the shape of a login time.
pub open spec fn is_login_time_label(ns: Seq<NodeV>) -> bool {
    ns.len() == 3 && ns[0] == NodeV::Str("ControlPlane"@) && ns[1] == NodeV::Str("LoginTime"@)
}

enum MatchNode {
    Mismatch,
    Match,
    Bind(String, Node),
    BindRec(String, Node),
}

impl View for MatchNode {
    type V = MatchNodeV;

    closed spec fn view(&self) -> MatchNodeV {
        match self {
            MatchNode::Mismatch => MatchNodeV::Mismatch,
            MatchNode::Match => MatchNodeV::Match,
            MatchNode::Bind(k, n) => MatchNodeV::Bind(k@, n@),
            MatchNode::BindRec(k, n) => MatchNodeV::BindRec(k@, n@),
        }
    }
}

pub(crate) fn trim_chars_start(v: &Vec<char>, c: char) -> (r: Vec<char>)
    ensures
        r@ == trim_start(v@, c),
{
    let mut i: usize = 0;
    assert(v@.skip(0) == v@);
    while i < v.len() && v[i] == c
        invariant
            i <= v.len(),
            trim_start(v@.skip(i as int), c) == trim_start(v@, c),
        decreases v.len() - i,
    {
        assert(v@.skip(i as int).len() > 0 && v@.skip(i as int)[0] == c);
        assert(v@.skip(i as int).drop_first() == v@.skip(i + 1));
        i = i + 1;
    }
    let mut r = Vec::new();
    let mut j = i;
    while j < v.len()
        invariant
            i <= j <= v.len(),
            r@ == v@.subrange(i as int, j as int),
        decreases v.len() - j,
    {
        r.push(v[j]);
        j = j + 1;
    }
    assert(r@ == v@.skip(i as int));
    r
}

pub(crate) fn trim_chars_end(v: &Vec<char>, c: char) -> (r: Vec<char>)
    ensures
        r@ == trim_end(v@, c),
{
    let mut n: usize = v.len();
    assert(v@.take(v.len() as int) == v@);
    while n > 0 && v[n - 1] == c
        invariant
            n <= v.len(),
            trim_end(v@.take(n as int), c) == trim_end(v@, c),
        decreases n,
    {
        assert(v@.take(n as int).drop_last() == v@.take(n - 1));
        n = n - 1;
    }
    assert(v@.take(v.len() as int) == v@);
    let mut r = Vec::new();
    let mut j: usize = 0;
    while j < n
        invariant
            j <= n <= v.len(),
            r@ == v@.take(j as int),
        decreases n - j,
    {
        r.push(v[j]);
        j = j + 1;
        assert(v@.take(j as int) == v@.take(j - 1).push(v@[j - 1]));
    }
    r
}

/// The compiled node expressions.
struct Syntax {
    any: CompiledRegex,
    rec_any: CompiledRegex,
    node: CompiledRegex,
}

impl Syntax {
    spec fn valid(&self) -> bool {
        self.any.source() == NODE_ANY_RE@ && self.rec_any.source() == NODE_REC_ANY_RE@
            && self.node.source() == NODE_STR_RE@
    }

    fn new() -> (r: Option<Syntax>)
        ensures
            r is Some <==> syntax_compiles(),
            r matches Some(x) ==> x.valid(),
    {
        let any = compile_regex(NODE_ANY_RE);
        let rec_any = compile_regex(NODE_REC_ANY_RE);
        let node = compile_regex(NODE_STR_RE);
        match (any, rec_any, node) {
            (Some(any), Some(rec_any), Some(node)) => Some(Syntax { any, rec_any, node }),
            _ => None,
        }
    }
}

impl Node {
    /// A copy of the node.
    pub fn dup(&self) -> (r: Node)
        ensures
            r@ == self@,
    {
        match self {
            Node::Any(s) => Node::Any(s.clone()),
            Node::RecAny(s) => Node::RecAny(s.clone()),
            Node::Str(s) => Node::Str(s.clone()),
        }
    }

    /// Structural equality of nodes.
    pub fn same(&self, other: &Node) -> (b: bool)
        ensures
            b == (self@ == other@),
    {
        match (self, other) {
            (Node::Any(x), Node::Any(y)) => str_eq(x.as_str(), y.as_str()),
            (Node::RecAny(x), Node::RecAny(y)) => str_eq(x.as_str(), y.as_str()),
            (Node::Str(x), Node::Str(y)) => str_eq(x.as_str(), y.as_str()),
            _ => false,
        }
    }

    /// The node printed (`*`, `**`, `<x>`, `<<x>>` or the plain name).
    pub fn to_string(&self) -> (s: String)
        ensures
            s@ == node_text(self@),
    {
        match self {
            Node::Any(x) => {
                if x.as_str().is_empty() {
                    proof { reveal_strlit("*"); }
                    "*".to_owned()
                } else {
                    let mut s = String::new();
                    string_push(&mut s, '<');
                    push_str(&mut s, x.as_str());
                    string_push(&mut s, '>');
                    s
                }
            },
            Node::RecAny(x) => {
                if x.as_str().is_empty() {
                    proof { reveal_strlit("**"); }
                    "**".to_owned()
                } else {
                    let mut s = String::new();
                    string_push(&mut s, '<');
                    string_push(&mut s, '<');
                    push_str(&mut s, x.as_str());
                    string_push(&mut s, '>');
                    string_push(&mut s, '>');
                    s
                }
            },
            Node::Str(x) => x.clone(),
        }
    }

    fn from_chars_with(v: &Vec<char>, syn: &Syntax) -> (r: Result<Node, String>)
        requires
            syn.valid(),
        ensures
            match r {
                Ok(n) => node_parse(v@) == Ok::<NodeV, Seq<char>>(n@),
                Err(e) => node_parse(v@) == Err::<NodeV, Seq<char>>(e@),
            },
    {
        let s = string_from_chars(v.as_slice());
        let any = regex_find(&syn.any, s.as_str());
        let rec_any = regex_find(&syn.rec_any, s.as_str());
        let plain = regex_find(&syn.node, s.as_str());
        Node::from_matches(v, any, rec_any, plain)
    }

    /// Reads a node from its text, given whether the text matches the
    /// expressions of a `<x>` node, of a `<<x>>` node and of a plain name
    /// (see `node_decide`).
    pub fn from_matches(v: &Vec<char>, any: bool, rec_any: bool, plain: bool) -> (r: Result<Node, String>)
        ensures
            match r {
                Ok(n) => node_decide(v@, any, rec_any, plain) == Ok::<NodeV, Seq<char>>(n@),
                Err(e) => node_decide(v@, any, rec_any, plain) == Err::<NodeV, Seq<char>>(e@),
            },
    {
        let s = string_from_chars(v.as_slice());
        if v.len() == 1 && v[0] == '*' {
            assert(v@ == seq!['*']);
            Ok(Node::Any(String::new()))
        } else if v.len() == 2 && v[0] == '*' && v[1] == '*' {
            assert(v@ == seq!['*', '*']);
            Ok(Node::RecAny(String::new()))
        } else if any {
            let t = trim_chars_end(&trim_chars_start(v, '<'), '>');
            Ok(Node::Any(string_from_chars(t.as_slice())))
        } else if rec_any {
            let t = trim_chars_end(&trim_chars_start(v, '<'), '>');
            Ok(Node::RecAny(string_from_chars(t.as_slice())))
        } else if plain {
            Ok(Node::Str(s))
        } else {
            Err(concat("bad label: ", s.as_str()))
        }
    }

    /// Parses a node from its text.
    pub fn from_str(s: &str) -> (r: Result<Node, String>)
        ensures
            syntax_compiles() ==> match r {
                Ok(n) => node_parse(s@) == Ok::<NodeV, Seq<char>>(n@),
                Err(e) => node_parse(s@) == Err::<NodeV, Seq<char>>(e@),
            },
            !syntax_compiles() && s@ != seq!['*'] && s@ != seq!['*', '*'] ==> r is Err,
            s@ == seq!['*'] ==> (r matches Ok(n) && n@ == NodeV::Any(Seq::empty())),
            s@ == seq!['*', '*'] ==> (r matches Ok(n) && n@ == NodeV::RecAny(Seq::empty())),
    {
        let v = chars_of(s);
        if v.len() == 1 && v[0] == '*' {
            assert(v@ == seq!['*']);
            return Ok(Node::Any(String::new()));
        }
        if v.len() == 2 && v[0] == '*' && v[1] == '*' {
            assert(v@ == seq!['*', '*']);
            return Ok(Node::RecAny(String::new()));
        }
        match Syntax::new() {
            Some(syn) => Node::from_chars_with(&v, &syn),
            None => Err(concat("bad label: ", s)),
        }
    }

    fn match_with(&self, l: &Node) -> (r: MatchNode)
        ensures
            r@ == node_match(self@, l@),
    {
        match self {
            Node::Str(x) => {
                match l {
                    Node::Str(y) => if str_eq(x.as_str(), y.as_str()) { MatchNode::Match } else { MatchNode::Mismatch },
                    _ => MatchNode::Mismatch,
                }
            },
            Node::Any(x) => if !x.as_str().is_empty() { MatchNode::Bind(x.clone(), l.dup()) } else { MatchNode::Match },
            Node::RecAny(x) => if !x.as_str().is_empty() { MatchNode::BindRec(x.clone(), l.dup()) } else { MatchNode::Match },
        }
    }

    fn get_str(&self) -> (r: Option<String>)
        ensures
            match r {
                Some(s) => node_str(self@) == Some(s@),
                None => node_str(self@) is None,
            },
    {
        if let Node::Str(s) = self {
            Some(s.clone())
        } else {
            None
        }
    }

    fn get_any(&self) -> (r: Option<String>)
        ensures
            match r {
                Some(s) => node_var(self@) == Some(s@),
                None => node_var(self@) is None,
            },
    {
        match self {
            Node::Any(s) => if !s.as_str().is_empty() { Some(s.clone()) } else { None },
            Node::RecAny(s) => if !s.as_str().is_empty() { Some(s.clone()) } else { None },
            _ => None,
        }
    }
}

} // verus!

verus! {

/// Label type representing sequences of nodes.
#[derive(Clone, Debug, PartialOrd, Ord)]
pub struct Label(Vec<Node>);

impl View for Label {
    type V = Seq<NodeV>;

    closed spec fn view(&self) -> Seq<NodeV> {
        self.0@.map_values(|n: Node| n@)
    }
}

/// Result of matching one label against another: what each variable of
/// the pattern was bound to.
pub struct Match(StrMap<Label>);

impl View for Match {
    type V = Map<Seq<char>, Seq<NodeV>>;

    closed spec fn view(&self) -> Map<Seq<char>, Seq<NodeV>> {
        self.0.map()
    }
}

impl Match {
    /// The bindings in order of their variable names.
    pub closed spec fn entries(&self) -> Seq<(Seq<char>, Seq<NodeV>)> {
        self.0.entry_seq()
    }

    /// The bindings are sorted by name and denote the map `self@`.
    pub fn properties(&self)
        ensures
            sorted_keys(self.entries()),
            self@ == crate::strmap::map_of(self.entries()),
            self.entries().len() == self@.dom().len(),
    {
        self.0.properties();
    }

    /// The label bound to a variable.
    pub fn get_label(&self, s: &str) -> (r: Option<&Label>)
        ensures
            match r {
                Some(l) => self@.contains_key(s@) && l@ == self@[s@],
                None => !self@.contains_key(s@),
            },
    {
        self.0.get(s)
    }

    /// The label bound to a variable, printed.
    pub fn get(&self, s: &str) -> (r: Option<String>)
        ensures
            match r {
                Some(t) => self@.contains_key(s@) && t@ == label_text(self@[s@]),
                None => !self@.contains_key(s@),
            },
    {
        match self.get_label(s) {
            Some(l) => Some(l.to_string()),
            None => None,
        }
    }

    /// The bindings as pairs of variable name and printed label, in order of
    /// the names.
    pub fn pairs(&self) -> (r: Vec<(String, String)>)
        ensures
            r@.len() == self.entries().len(),
            forall|i: int| 0 <= i < r@.len() ==> (#[trigger] r@[i]).0@ == self.entries()[i].0
                && r@[i].1@ == label_text(self.entries()[i].1),
    {
        let mut r: Vec<(String, String)> = Vec::new();
        let n = self.0.len();
        let mut i: usize = 0;
        while i < n
            invariant
                i <= n,
                n == self.entries().len(),
                r@.len() == i,
                forall|j: int| 0 <= j < i ==> (#[trigger] r@[j]).0@ == self.entries()[j].0
                    && r@[j].1@ == label_text(self.entries()[j].1),
            decreases n - i,
        {
            let k = self.0.key_at(i).clone();
            let v = self.0.value_at(i).to_string();
            r.push((k, v));
            i = i + 1;
        }
        r
    }

    /// The bindings printed as `<x> |-> label; <y> |-> label`.
    pub fn to_string(&self) -> (s: String)
        ensures
            s@ == match_text(self.entries()),
    {
        let mut s = String::new();
        let n = self.0.len();
        let mut i: usize = 0;
        while i < n
            invariant
                i <= n,
                n == self.entries().len(),
                s@ == match_text(self.entries().take(i as int)),
            decreases n - i,
        {
            if i > 0 {
                string_push(&mut s, ';');
                string_push(&mut s, ' ');
            }
            string_push(&mut s, '<');
            push_str(&mut s, self.0.key_at(i).as_str());
            push_str(&mut s, "> |-> ");
            let t = self.0.value_at(i).to_string();
            push_str(&mut s, t.as_str());
            proof {
                let es = self.entries();
                assert(es.take(i + 1).drop_last() == es.take(i as int));
                reveal_strlit("> |-> ");
            }
            i = i + 1;
        }
        assert(self.entries().take(n as int) == self.entries());
        s
    }
}

/// Text of one binding.
pub open spec fn binding_text(e: (Seq<char>, Seq<NodeV>)) -> Seq<char> {
    seq!['<'] + e.0 + seq!['>', ' ', '|', '-', '>', ' '] + label_text(e.1)
}

/// Text of a list of bindings, separated by `; `.
pub open spec fn match_text(es: Seq<(Seq<char>, Seq<NodeV>)>) -> Seq<char>
    decreases es.len(),
{
    if es.len() == 0 {
        Seq::empty()
    } else if es.len() == 1 {
        binding_text(es[0])
    } else {
        match_text(es.drop_last()) + seq![';', ' '] + binding_text(es.last())
    }
}

/// Once matching fails on a prefix it fails on every longer prefix.
pub proof fn lemma_fold_none(p: Seq<NodeV>, l: Seq<NodeV>, i: nat, n: nat)
    requires
        i <= n,
        match_fold(p, l, i) is None,
    ensures
        match_fold(p, l, n) is None,
    decreases n - i,
{
    if i < n {
        lemma_fold_none(p, l, i, (n - 1) as nat);
    }
}

/// Equality with a one-node label `[r]`, defined through matching, is
/// `eq_single`: this is how matching compares a repeated variable's
/// bindings.
pub proof fn lemma_eq_single(other: Seq<NodeV>, r: NodeV)
    ensures
        label_eq(other, seq![r]) == eq_single(other, r),
{
    let one = seq![r];
    reveal_with_fuel(match_fold, 2);
    assert(pattern_ext(other, 1) == other);
    if other.len() == 1 {
        assert(match_fold(other, one, 1) == match_step(Map::empty(), other[0], r));
        assert(pattern_ext(one, 1) == one);
        assert(match_fold(one, other, 1) == match_step(Map::empty(), r, other[0]));
    }
}

/// What matching the first `n` nodes keeps of each `<x>` it met: `x` stays
/// bound, and while its binding is one node, that node agrees with every
/// node that an `<x>` met; so two nodes met by `<x>` agree.
proof fn lemma_fold_bindings(p: Seq<NodeV>, l: Seq<NodeV>, n: nat)
    requires
        n <= p.len(),
        n <= l.len(),
        match_fold(p, l, n) is Some,
    ensures
        forall|i: int| #![trigger p[i]] 0 <= i < n && p[i] is Any && p[i]->Any_0.len() > 0 ==> {
            let m = match_fold(p, l, n).unwrap();
            let x = p[i]->Any_0;
            &&& m.contains_key(x)
            &&& m[x].len() >= 1
            &&& (m[x].len() == 1 ==> same_class(m[x][0], l[i]))
        },
        forall|i: int, j: int| #![trigger p[i], p[j]]
            0 <= i < j < n && p[i] is Any && p[i]->Any_0.len() > 0 && p[j] == p[i] ==> same_class(l[i], l[j]),
    decreases n,
{
    if n > 0 {
        let k = (n - 1) as nat;
        if match_fold(p, l, k) is None {
            assert(match_fold(p, l, n) is None);
        }
        lemma_fold_bindings(p, l, k);
        let m0 = match_fold(p, l, k).unwrap();
        let m = match_fold(p, l, n).unwrap();
        assert(Some(m) == match_step(m0, p[k as int], l[k as int]));
        let r = l[k as int];
        match node_match(p[k as int], r) {
            MatchNodeV::Mismatch => {},
            MatchNodeV::Match => {
                assert(m == m0);
            },
            MatchNodeV::Bind(x, r1) => {
                assert(p[k as int] == NodeV::Any(x) && x.len() > 0 && r1 == r);
                assert(m == m0.insert(x, seq![r]));
                assert forall|i: int| #![trigger p[i]] 0 <= i < n && p[i] is Any && p[i]->Any_0.len() > 0 implies {
                    let y = p[i]->Any_0;
                    &&& m.contains_key(y)
                    &&& m[y].len() >= 1
                    &&& (m[y].len() == 1 ==> same_class(m[y][0], l[i]))
                } by {
                    let y = p[i]->Any_0;
                    if y == x && i < k {
                        assert(m0.contains_key(x));
                        assert(eq_single(m0[x], r));
                        assert(same_class(m0[x][0], l[i]));
                        assert(same_class(l[i], r));
                    }
                    if y == x {
                        assert(m[y] == seq![r]);
                    } else {
                        assert(m[y] == m0[y]);
                    }
                }
                assert forall|i: int, j: int| #![trigger p[i], p[j]]
                    0 <= i < j < n && p[i] is Any && p[i]->Any_0.len() > 0 && p[j] == p[i] implies same_class(l[i], l[j]) by {
                    if j == k {
                        assert(m0.contains_key(x));
                        assert(eq_single(m0[x], r));
                        assert(same_class(m0[x][0], l[i]));
                    }
                }
            },
            MatchNodeV::BindRec(x, r1) => {
                assert(p[k as int] == NodeV::RecAny(x) && x.len() > 0 && r1 == r);
                assert forall|i: int| #![trigger p[i]] 0 <= i < n && p[i] is Any && p[i]->Any_0.len() > 0 implies {
                    let y = p[i]->Any_0;
                    &&& m.contains_key(y)
                    &&& m[y].len() >= 1
                    &&& (m[y].len() == 1 ==> same_class(m[y][0], l[i]))
                } by {
                    let y = p[i]->Any_0;
                    assert(i < k);
                    assert(m0.contains_key(y));
                    if y == x {
                        assert(m == m0.insert(x, m0[x].push(r)));
                        assert(m[y].len() >= 2);
                    } else {
                        assert(m[y] == m0[y]);
                    }
                }
            },
        }
    }
}

/// A variable `<x>` written more than once in a pattern matches the same
/// node each time: where the pattern matches a label, the nodes at the
/// places of a repeated `<x>` are the same plain node, or neither is plain.
/// So `<x>::<x>` matches `a::a` but not `a::b`.
pub proof fn lemma_repeated_variable(p: Seq<NodeV>, l: Seq<NodeV>, i: int, j: int)
    requires
        match_spec(p, l) is Some,
        0 <= i < j < p.len(),
        p[i] is Any,
        p[i]->Any_0.len() > 0,
        p[j] == p[i],
    ensures
        same_class(l[i], l[j]),
        node_str(l[i]) == node_str(l[j]),
{
    let pat = pattern_ext(p, l.len());
    assert(pat.len() == l.len());
    assert(pat[i] == p[i] && pat[j] == p[j]);
    lemma_fold_bindings(pat, l, l.len());
    assert(same_class(l[i], l[j]));
}

/// Label equality is symmetric.
pub proof fn lemma_label_eq_symmetric(a: Seq<NodeV>, b: Seq<NodeV>)
    ensures
        label_eq(a, b) == label_eq(b, a),
{
}

/// Every binding of a self-match made before the last node binds a
/// variable `x` to `<x>` itself.
proof fn lemma_self_fold(a: Seq<NodeV>, n: nat)
    requires
        n < a.len(),
        forall|i: int| 0 <= i < a.len() - 1 ==> !(#[trigger] a[i] is RecAny),
    ensures
        match_fold(a, a, n) matches Some(m) && forall|k: Seq<char>| #[trigger] m.contains_key(k) ==> m[k] == seq![NodeV::Any(k)],
    decreases n,
{
    if n > 0 {
        lemma_self_fold(a, (n - 1) as nat);
        let m = match_fold(a, a, (n - 1) as nat).unwrap();
        let x = a[n - 1];
        assert(!(x is RecAny));
        match x {
            NodeV::Any(k) => {
                if k.len() > 0 && m.contains_key(k) {
                    assert(m[k] == seq![NodeV::Any(k)]);
                    assert(eq_single(m[k], x));
                }
            },
            _ => {},
        }
    }
}

/// A label whose recursive variables (`<<x>>`, `**`) stand only at the end
/// is equal to itself.
pub proof fn lemma_label_eq_reflexive(a: Seq<NodeV>)
    requires
        forall|i: int| 0 <= i < a.len() - 1 ==> !(#[trigger] a[i] is RecAny),
    ensures
        label_eq(a, a),
{
    assert(pattern_ext(a, a.len()) == a);
    if a.len() > 0 {
        let n = (a.len() - 1) as nat;
        lemma_self_fold(a, n);
        let m = match_fold(a, a, n).unwrap();
        let x = a[a.len() - 1];
        match x {
            NodeV::Any(k) => {
                if k.len() > 0 && m.contains_key(k) {
                    assert(eq_single(m[k], x));
                }
            },
            _ => {},
        }
        assert(match_fold(a, a, a.len()) == match_step(m, x, x));
    }
}

/// A pattern of plain nodes only matches exactly the label it spells, and
/// binds nothing.
pub proof fn lemma_plain_pattern(p: Seq<NodeV>, l: Seq<NodeV>)
    requires
        forall|i: int| 0 <= i < p.len() ==> (#[trigger] p[i]) is Str,
    ensures
        match_spec(p, l) is Some <==> p == l,
        match_spec(p, l) is Some ==> match_spec(p, l) == Some(Map::<Seq<char>, Seq<NodeV>>::empty()),
{
    if p.len() > 0 {
        assert(p[p.len() - 1] is Str);
    }
    assert(pattern_ext(p, l.len()) == p);
    if p.len() == l.len() {
        lemma_plain_fold(p, l, l.len());
        if p != l {
            let i = choose|i: int| 0 <= i < p.len() && p[i] != l[i];
            if match_fold(p, l, l.len()) is Some {
                assert(p == l) by {
                    assert(p =~= l);
                }
            }
        } else {
            assert(forall|i: int| 0 <= i < p.len() ==> p[i] == l[i]);
        }
    }
}

proof fn lemma_plain_fold(p: Seq<NodeV>, l: Seq<NodeV>, n: nat)
    requires
        n <= p.len(),
        p.len() == l.len(),
        forall|i: int| 0 <= i < p.len() ==> (#[trigger] p[i]) is Str,
    ensures
        match_fold(p, l, n) is Some <==> (forall|i: int| 0 <= i < n ==> p[i] == l[i]),
        match_fold(p, l, n) is Some ==> match_fold(p, l, n) == Some(Map::<Seq<char>, Seq<NodeV>>::empty()),
    decreases n,
{
    if n > 0 {
        lemma_plain_fold(p, l, (n - 1) as nat);
        assert(p[n - 1] is Str);
        if match_fold(p, l, (n - 1) as nat) is None {
            assert(!(p[0] == l[0] && forall|i: int| 0 <= i < n - 1 ==> p[i] == l[i]) || true);
            if forall|i: int| 0 <= i < n ==> p[i] == l[i] {
                assert(forall|i: int| 0 <= i < n - 1 ==> p[i] == l[i]);
            }
        }
    }
}

impl Label {
    /// The empty label.
    pub fn new() -> (l: Label)
        ensures
            l@ == Seq::<NodeV>::empty(),
    {
        let l = Label(Vec::new());
        assert(l@ =~= Seq::<NodeV>::empty());
        l
    }

    /// A copy of the label.
    pub fn dup(&self) -> (r: Label)
        ensures
            r@ == self@,
    {
        Label::from_nodes(self.0.as_slice())
    }

    /// The label made of the given nodes.
    pub fn from_nodes(v: &[Node]) -> (r: Label)
        ensures
            r@ == v@.map_values(|n: Node| n@),
    {
        let mut out: Vec<Node> = Vec::new();
        let mut i: usize = 0;
        while i < v.len()
            invariant
                i <= v.len(),
                out@.len() == i,
                forall|j: int| 0 <= j < i ==> (#[trigger] out@[j])@ == v@[j]@,
            decreases v.len() - i,
        {
            out.push(v[i].dup());
            i = i + 1;
        }
        let r = Label(out);
        assert(r@ =~= v@.map_values(|n: Node| n@));
        r
    }

    /// The one-node label.
    pub fn from_node(n: &Node) -> (r: Label)
        ensures
            r@ == seq![n@],
    {
        let mut l = Label::new();
        l.push(n.dup());
        assert(l@ =~= seq![n@]);
        l
    }

    /// The nodes of `l1` followed by those of `l2`.
    pub fn concat(l1: &Label, l2: &Label) -> (r: Label)
        ensures
            r@ == l1@ + l2@,
            r@.len() == l1@.len() + l2@.len(),
    {
        let mut r = l1.dup();
        let mut i: usize = 0;
        while i < l2.0.len()
            invariant
                i <= l2@.len(),
                l2@.len() == l2.0@.len(),
                r@ == l1@ + l2@.take(i as int),
            decreases l2.0.len() - i,
        {
            r.push(l2.0[i].dup());
            i = i + 1;
            assert(l2@.take(i as int) == l2@.take(i - 1).push(l2@[i - 1]));
        }
        assert(l2@.take(l2@.len() as int) == l2@);
        r
    }

    /// Puts a plain node in front.
    pub fn prefix(&mut self, s: String)
        ensures
            final(self)@ == seq![NodeV::Str(s@)] + old(self)@,
    {
        self.0.insert(0, Node::Str(s));
        assert(self@ =~= seq![NodeV::Str(s@)] + old(self)@);
    }

    /// Appends a node.
    pub fn push(&mut self, n: Node)
        ensures
            final(self)@ == old(self)@.push(n@),
    {
        self.0.push(n);
        assert(self@ =~= old(self)@.push(n@));
    }

    /// Number of nodes.
    pub fn len(&self) -> (n: usize)
        ensures
            n == self@.len(),
    {
        self.0.len()
    }

    /// The node at `index`.
    pub fn get(&self, index: usize) -> (r: Option<&Node>)
        ensures
            match r {
                Some(n) => index < self@.len() && n@ == self@[index as int],
                None => index >= self@.len(),
            },
    {
        if index < self.0.len() {
            Some(&self.0[index])
        } else {
            None
        }
    }

    /// The nodes from `start` on, when `start` is within the label.
    pub fn get_from(&self, start: usize) -> (r: Option<Label>)
        ensures
            match r {
                Some(l) => start <= self@.len() && l@ == self@.skip(start as int),
                None => start > self@.len(),
            },
    {
        if start <= self.0.len() {
            let mut out: Vec<Node> = Vec::new();
            let mut i = start;
            while i < self.0.len()
                invariant
                    start <= i <= self.0@.len(),
                    out@.len() == i - start,
                    forall|j: int| 0 <= j < i - start ==> (#[trigger] out@[j])@ == self.0@[j + start]@,
                decreases self.0.len() - i,
            {
                out.push(self.0[i].dup());
                i = i + 1;
            }
            let r = Label(out);
            assert(r@ =~= self@.skip(start as int));
            Some(r)
        } else {
            None
        }
    }

    /// The plain name at `index`.
    pub fn get_string(&self, index: usize) -> (r: Option<String>)
        ensures
            match r {
                Some(s) => index < self@.len() && self@[index as int] == NodeV::Str(s@),
                None => index >= self@.len() || !(self@[index as int] is Str),
            },
    {
        match self.get(index) {
            Some(Node::Str(s)) => Some(s.clone()),
            _ => None,
        }
    }

    /// Structural equality: the same nodes in the same order (the order
    /// under which sets of labels are kept).
    pub fn same(&self, other: &Label) -> (b: bool)
        ensures
            b == (self@ == other@),
    {
        let n = self.0.len();
        if n != other.0.len() {
            assert(self@.len() != other@.len());
            return false;
        }
        let mut i: usize = 0;
        while i < n
            invariant
                n == self.0@.len(),
                n == other.0@.len(),
                i <= n,
                self@ == self.0@.map_values(|x: Node| x@),
                other@ == other.0@.map_values(|x: Node| x@),
                forall|k: int| 0 <= k < i ==> self@[k] == other@[k],
            decreases n - i,
        {
            if !self.0[i].same(&other.0[i]) {
                assert(self@[i as int] != other@[i as int]);
                return false;
            }
            i = i + 1;
        }
        assert(self@ =~= other@);
        true
    }

    /// The key by which the label is ordered among labels (see
    /// `label_key`).
    pub fn key(&self) -> (s: String)
        ensures
            s@ == label_key(self@),
    {
        let mut s = String::new();
        let mut i: usize = 0;
        while i < self.0.len()
            invariant
                i <= self.0@.len(),
                self@ == self.0@.map_values(|n: Node| n@),
                s@ == label_key(self@.take(i as int)),
            decreases self.0.len() - i,
        {
            let ghost before = s@;
            match &self.0[i] {
                Node::Any(x) => string_push(&mut s, '\u{1}'),
                Node::RecAny(x) => string_push(&mut s, '\u{2}'),
                Node::Str(x) => string_push(&mut s, '\u{3}'),
            }
            let t = match &self.0[i] {
                Node::Any(x) => x,
                Node::RecAny(x) => x,
                Node::Str(x) => x,
            };
            push_str(&mut s, t.as_str());
            string_push(&mut s, '\u{0}');
            assert(self@.take(i + 1).drop_last() =~= self@.take(i as int));
            assert(self@.take(i + 1).last() == self.0@[i as int]@);
            assert(s@ =~= before + node_key(self.0@[i as int]@));
            i = i + 1;
        }
        assert(self@.take(self@.len() as int) =~= self@);
        s
    }

    /// The nodes of the label.
    pub fn nodes(&self) -> (r: &Vec<Node>)
        ensures
            r@.map_values(|n: Node| n@) == self@,
    {
        &self.0
    }

    /// The plain names of all nodes, or `None` when some node is not plain.
    pub fn parts(&self) -> (r: Option<Vec<String>>)
        ensures
            match r {
                Some(v) => (forall|i: int| 0 <= i < self@.len() ==> (#[trigger] self@[i]) is Str)
                    && v@.len() == self@.len()
                    && forall|i: int| 0 <= i < v@.len() ==> self@[i] == NodeV::Str((#[trigger] v@[i])@),
                None => exists|i: int| 0 <= i < self@.len() && !(#[trigger] self@[i] is Str),
            },
    {
        let mut v: Vec<String> = Vec::new();
        let mut i: usize = 0;
        while i < self.0.len()
            invariant
                i <= self.0@.len(),
                self@.len() == self.0@.len(),
                v@.len() == i,
                forall|j: int| 0 <= j < i ==> self@[j] == NodeV::Str((#[trigger] v@[j])@),
            decreases self.0.len() - i,
        {
            match self.0[i].get_str() {
                Some(s) => v.push(s),
                None => {
                    assert(!(self@[i as int] is Str));
                    return None;
                },
            }
            i = i + 1;
        }
        assert forall|j: int| 0 <= j < self@.len() implies (#[trigger] self@[j]) is Str by {
            assert(self@[j] == NodeV::Str(v@[j]@));
        }
        Some(v)
    }

    /// The variable names, in order.
    pub fn vars(&self) -> (r: Vec<String>)
        ensures
            r@.map_values(|s: String| s@) == label_vars(self@),
    {
        let mut v: Vec<String> = Vec::new();
        let mut i: usize = 0;
        while i < self.0.len()
            invariant
                i <= self.0@.len(),
                self@.len() == self.0@.len(),
                v@.map_values(|s: String| s@) == label_vars(self@.take(i as int)),
            decreases self.0.len() - i,
        {
            assert(self@.take(i + 1).drop_last() == self@.take(i as int));
            match self.0[i].get_any() {
                Some(s) => {
                    v.push(s);
                },
                None => {},
            }
            i = i + 1;
            assert(v@.map_values(|s: String| s@) =~= label_vars(self@.take(i as int)));
        }
        assert(self@.take(self@.len() as int) == self@);
        v
    }

    fn same_class(a: &Node, b: &Node) -> (r: bool)
        ensures
            r == same_class(a@, b@),
    {
        match (a, b) {
            (Node::Str(x), Node::Str(y)) => str_eq(x.as_str(), y.as_str()),
            (Node::Str(_), _) => false,
            (_, Node::Str(_)) => false,
            _ => true,
        }
    }

    fn eq_single(&self, r: &Node) -> (b: bool)
        ensures
            b == eq_single(self@, r@),
    {
        self.0.len() == 1 && Label::same_class(&self.0[0], r)
    }

    fn extend_pattern(&self, n: usize) -> (r: Label)
        ensures
            r@ == pattern_ext(self@, n as nat),
    {
        let mut p = self.dup();
        let len = self.0.len();
        if len > 0 && len < n {
            match &self.0[len - 1] {
                Node::RecAny(y) => {
                    let mut i = len;
                    while i < n
                        invariant
                            len <= i <= n,
                            len == self@.len(),
                            len > 0,
                            self@.last() == NodeV::RecAny(y@),
                            p@ == self@ + Seq::new((i - len) as nat, |j: int| self@.last()),
                        decreases n - i,
                    {
                        p.push(Node::RecAny(y.clone()));
                        i = i + 1;
                        assert(p@ =~= self@ + Seq::new((i - len) as nat, |j: int| self@.last()));
                    }
                },
                _ => {},
            }
        } else {
            assert(p@ =~= pattern_ext(self@, n as nat));
        }
        p
    }

    /// Whether `self`, read as a pattern, matches `l`.
    pub fn matches_with(&self, l: &Label) -> (b: bool)
        ensures
            b == match_spec(self@, l@) is Some,
    {
        self.match_with(l).is_some()
    }

    /// Matches `self`, read as a pattern, against `l`: the bindings of its
    /// variables, or `None` when it does not match.
    pub fn match_with(&self, l: &Label) -> (r: Option<Match>)
        ensures
            match r {
                Some(m) => match_spec(self@, l@) == Some(m@),
                None => match_spec(self@, l@) is None,
            },
    {
        let pattern = self.extend_pattern(l.0.len());
        if pattern.0.len() != l.0.len() {
            return None;
        }
        let mut map: StrMap<Label> = StrMap::new();
        let n = l.0.len();
        let mut i: usize = 0;
        assert(match_fold(pattern@, l@, 0) == Some(map.map()));
        while i < n
            invariant
                i <= n,
                n == l@.len(),
                n == l.0@.len(),
                pattern.0@.len() == n,
                pattern@ == pattern_ext(self@, l@.len()),
                match_fold(pattern@, l@, i as nat) == Some(map.map()),
            decreases n - i,
        {
            let step = pattern.0[i].match_with(&l.0[i]);
            assert(pattern@[i as int] == pattern.0@[i as int]@);
            assert(l@[i as int] == l.0@[i as int]@);
            assert(match_fold(pattern@, l@, (i + 1) as nat) == match_step(map.map(), pattern@[i as int], l@[i as int]));
            match step {
                MatchNode::Mismatch => {
                    proof { lemma_fold_none(pattern@, l@, (i + 1) as nat, n as nat); }
                    return None;
                },
                MatchNode::Match => {},
                MatchNode::Bind(k, r) => {
                    let ok = match map.get(k.as_str()) {
                        Some(other) => other.eq_single(&r),
                        None => true,
                    };
                    if !ok {
                        proof { lemma_fold_none(pattern@, l@, (i + 1) as nat, n as nat); }
                        return None;
                    }
                    let ll = Label::from_node(&r);
                    map.insert(k, ll);
                },
                MatchNode::BindRec(k, r) => {
                    let nl = match map.get(k.as_str()) {
                        Some(x) => {
                            let mut x2 = x.dup();
                            x2.push(r);
                            x2
                        },
                        None => Label::from_node(&r),
                    };
                    map.insert(k, nl);
                },
            }
            i = i + 1;
        }
        Some(Match(map))
    }

    /// The first node, and the rest when there is any.
    pub fn split_first(&self) -> (r: Option<(Label, Option<Label>)>)
        ensures
            match r {
                Some((first, rest)) => self@.len() > 0 && first@ == seq![self@[0]] && match rest {
                    Some(t) => self@.len() > 1 && t@ == self@.drop_first(),
                    None => self@.len() == 1,
                },
                None => self@.len() == 0,
            },
    {
        if self.0.len() == 0 {
            None
        } else {
            let first = Label::from_node(&self.0[0]);
            if self.0.len() == 1 {
                Some((first, None))
            } else {
                match self.get_from(1) {
                    Some(rest) => Some((first, Some(rest))),
                    None => Some((first, None)),
                }
            }
        }
    }

    /// The label `ControlPlane::LoginTime::<t>`.
    pub fn login_time(t: i64) -> (r: Label)
        ensures
            r@ == login_time_label(t as int),
    {
        let mut l = Label::new();
        l.push(Node::Str("ControlPlane".to_owned()));
        l.push(Node::Str("LoginTime".to_owned()));
        l.push(Node::Str(i64_to_string(t)));
        assert(l@ =~= login_time_label(t as int));
        l
    }

    /// Whether the label is a login-time label.
    pub fn is_login_time(&self) -> (b: bool)
        ensures
            b == is_login_time_label(self@),
    {
        if self.0.len() == 3 {
            let a = Node::Str("ControlPlane".to_owned());
            let b = Node::Str("LoginTime".to_owned());
            self.0[0].same(&a) && self.0[1].same(&b)
        } else {
            false
        }
    }

    /// The login time stored in a login-time label: the number its last
    /// node reads as; `None` for other labels, and where that node is not
    /// a number.
    pub fn get_login_time(&self) -> (r: Option<i64>)
        ensures
            r == login_time_of(self@),
    {
        if self.is_login_time() {
            proof { assert(self@[2] == self.0@[2]@); }
            match &self.0[2] {
                Node::Str(s) => parse_i64(s.as_str()),
                _ => None,
            }
        } else {
            None
        }
    }

    /// The label printed: its nodes joined by `::`.
    pub fn to_string(&self) -> (s: String)
        ensures
            s@ == label_text(self@),
    {
        let mut s = String::new();
        let mut i: usize = 0;
        while i < self.0.len()
            invariant
                i <= self.0@.len(),
                self@.len() == self.0@.len(),
                s@ == label_text(self@.take(i as int)),
            decreases self.0.len() - i,
        {
            if i > 0 {
                string_push(&mut s, ':');
                string_push(&mut s, ':');
            }
            let t = self.0[i].to_string();
            push_str(&mut s, t.as_str());
            assert(self@.take(i + 1).drop_last() == self@.take(i as int));
            assert(self@.take(i + 1).last() == self@[i as int]);
            i = i + 1;
        }
        assert(self@.take(self@.len() as int) == self@);
        s
    }
}

} // verus!

verus! {

impl PartialEq for Label {
    fn eq(&self, other: &Self) -> (r: bool) {
        self.matches_with(other) && other.matches_with(self)
    }
}

impl vstd::std_specs::cmp::PartialEqSpecImpl for Label {
    open spec fn obeys_eq_spec() -> bool {
        true
    }

    open spec fn eq_spec(&self, other: &Label) -> bool {
        label_eq(self@, other@)
    }
}

impl Eq for Label {}

impl std::str::FromStr for Label {
    type Err = String;

    fn from_str(s: &str) -> Result<Label, String> {
        Label::from_str(s)
    }
}

} // verus!

verus! {

/// `first_sep` finds the first separator.
proof fn lemma_first_sep(s: Seq<char>, k: int)
    requires
        0 <= k <= s.len(),
        forall|i: int| 0 <= i < k ==> !is_sep(s, i),
        is_sep(s, k) || k + 1 >= s.len(),
    ensures
        first_sep(s) == if is_sep(s, k) { k } else { -1 },
    decreases k,
{
    if s.len() >= 2 && k > 0 {
        assert(!is_sep(s, 0));
        let t = s.drop_first();
        assert forall|i: int| 0 <= i < k - 1 implies !is_sep(t, i) by {
            assert(!is_sep(s, i + 1));
        }
        if is_sep(s, k) {
            assert(is_sep(t, k - 1));
        }
        lemma_first_sep(t, k - 1);
    }
}

/// Texts joined by `::`.
pub open spec fn colon_join(ps: Seq<Seq<char>>) -> Seq<char>
    decreases ps.len(),
{
    if ps.len() == 0 {
        Seq::empty()
    } else if ps.len() == 1 {
        ps[0]
    } else {
        colon_join(ps.drop_last()) + seq![':', ':'] + ps.last()
    }
}

/// A found separator is a separator.
proof fn lemma_first_sep_found(s: Seq<char>)
    ensures
        first_sep(s) >= -1,
        first_sep(s) >= 0 ==> is_sep(s, first_sep(s)),
    decreases s.len(),
{
    if s.len() >= 2 && !(s[0] == ':' && s[1] == ':') {
        let t = s.drop_first();
        lemma_first_sep_found(t);
        if first_sep(t) >= 0 {
            assert(s[first_sep(t) + 1] == t[first_sep(t)]);
            assert(s[first_sep(t) + 2] == t[first_sep(t) + 1]);
        }
    }
}

/// Joining a first text to the rest.
proof fn lemma_join_front(a: Seq<char>, rest: Seq<Seq<char>>)
    requires
        rest.len() > 0,
    ensures
        colon_join(seq![a] + rest) == a + seq![':', ':'] + colon_join(rest),
    decreases rest.len(),
{
    let all = seq![a] + rest;
    if rest.len() == 1 {
        assert(all.drop_last() =~= seq![a]);
        assert(all.last() == rest[0]);
    } else {
        lemma_join_front(a, rest.drop_last());
        assert(all.drop_last() =~= seq![a] + rest.drop_last());
        assert(all.last() == rest.last());
        assert(colon_join(all) == colon_join(seq![a] + rest.drop_last()) + seq![':', ':'] + rest.last());
        assert(colon_join(rest) == colon_join(rest.drop_last()) + seq![':', ':'] + rest.last());
        assert(colon_join(all) =~= a + seq![':', ':'] + colon_join(rest));
    }
}

/// Splitting text at its `::` separators and joining the pieces again
/// gives the text back.
pub proof fn lemma_split_join(s: Seq<char>)
    ensures
        split_label(s).len() > 0,
        colon_join(split_label(s)) == s,
    decreases s.len(),
{
    let j = first_sep(s);
    lemma_first_sep_found(s);
    if 0 <= j && j + 2 <= s.len() {
        let rest = s.skip(j + 2);
        lemma_split_join(rest);
        lemma_join_front(s.take(j), split_label(rest));
        assert(s =~= s.take(j) + seq![':', ':'] + rest);
    } else {
        assert(split_label(s) == seq![s]);
    }
}

/// A label's text joins its nodes' texts by `::`.
pub proof fn lemma_label_text_join(ns: Seq<NodeV>)
    ensures
        label_text(ns) == colon_join(ns.map_values(|n: NodeV| node_text(n))),
    decreases ns.len(),
{
    let ts = ns.map_values(|n: NodeV| node_text(n));
    if ns.len() > 1 {
        lemma_label_text_join(ns.drop_last());
        assert(ts.drop_last() =~= ns.drop_last().map_values(|n: NodeV| node_text(n)));
    }
}

/// The nodes of a parsed label correspond, piece by piece, to the texts
/// between its `::` separators.
proof fn lemma_parse_nodes_parts(parts: Seq<Seq<char>>, ns: Seq<NodeV>)
    requires
        parse_nodes(parts) == Ok::<Seq<NodeV>, Seq<char>>(ns),
    ensures
        ns.len() == parts.len(),
        forall|i: int| 0 <= i < ns.len() ==> node_parse(parts[i]) == Ok::<NodeV, Seq<char>>(#[trigger] ns[i]),
    decreases parts.len(),
{
    if parts.len() > 0 {
        let d = parts.drop_last();
        match parse_nodes(d) {
            Ok(ms) => {
                lemma_parse_nodes_parts(d, ms);
                assert forall|i: int| 0 <= i < ns.len() implies node_parse(parts[i]) == Ok::<NodeV, Seq<char>>(#[trigger] ns[i]) by {
                    if i < ms.len() {
                        assert(parts[i] == d[i]);
                        assert(ns[i] == ms[i]);
                    }
                }
            },
            Err(_) => {},
        }
    }
}

/// Printing a parsed label gives back the text it was read from, as long
/// as each of its nodes prints as the piece of text it was read from (as
/// `*`, `**` and plain names do).
pub proof fn lemma_label_round_trip(s: Seq<char>, ns: Seq<NodeV>)
    requires
        label_parse(s) == Ok::<Seq<NodeV>, Seq<char>>(ns),
        forall|i: int| 0 <= i < ns.len() ==> node_text(#[trigger] ns[i]) == split_label(s)[i],
    ensures
        label_text(ns) == s,
{
    let parts = split_label(s);
    lemma_parse_nodes_parts(parts, ns);
    lemma_label_text_join(ns);
    lemma_split_join(s);
    assert(ns.map_values(|n: NodeV| node_text(n)) =~= parts);
}

/// Reading pieces fails exactly when one of them is not a node, with the
/// error of the first such piece.
pub proof fn lemma_parse_nodes_error(parts: Seq<Seq<char>>)
    ensures
        parse_nodes(parts) is Err <==> exists|i: int| 0 <= i < parts.len() && (#[trigger] node_parse(parts[i])) is Err,
        parse_nodes(parts) matches Err(m) ==> exists|i: int| 0 <= i < parts.len()
            && #[trigger] node_parse(parts[i]) == Err::<NodeV, Seq<char>>(m)
            && forall|j: int| 0 <= j < i ==> (#[trigger] node_parse(parts[j])) is Ok,
    decreases parts.len(),
{
    if parts.len() > 0 {
        let d = parts.drop_last();
        lemma_parse_nodes_error(d);
        assert forall|i: int| 0 <= i < d.len() implies #[trigger] d[i] == parts[i] by {}
        match parse_nodes(d) {
            Err(m) => {
                let i = choose|i: int| 0 <= i < d.len() && #[trigger] node_parse(d[i]) == Err::<NodeV, Seq<char>>(m)
                    && forall|j: int| 0 <= j < i ==> (#[trigger] node_parse(d[j])) is Ok;
                assert(node_parse(parts[i]) == Err::<NodeV, Seq<char>>(m));
                assert forall|j: int| 0 <= j < i implies (#[trigger] node_parse(parts[j])) is Ok by {
                    assert(parts[j] == d[j]);
                }
            },
            Ok(ns) => {
                assert forall|j: int| 0 <= j < d.len() implies (#[trigger] node_parse(parts[j])) is Ok by {
                    assert(parts[j] == d[j]);
                    if node_parse(d[j]) is Err {
                        assert(exists|i: int| 0 <= i < d.len() && (#[trigger] node_parse(d[i])) is Err);
                    }
                }
                let l = parts.len() - 1;
                assert(parts[l] == parts.last());
            },
        }
    }
}

/// Reading a label fails exactly when a piece between `::` is not a node,
/// with the error (`bad label: <piece>`) of the first such piece.
pub proof fn lemma_label_parse_error(s: Seq<char>)
    ensures
        label_parse(s) is Err <==> exists|i: int| 0 <= i < split_label(s).len() && (#[trigger] node_parse(split_label(s)[i])) is Err,
        label_parse(s) matches Err(m) ==> exists|i: int| 0 <= i < split_label(s).len()
            && #[trigger] node_parse(split_label(s)[i]) == Err::<NodeV, Seq<char>>(m)
            && forall|j: int| 0 <= j < i ==> (#[trigger] node_parse(split_label(s)[j])) is Ok,
{
    lemma_parse_nodes_error(split_label(s));
}

/// Pieces `*`, `**` and plain names print as they are read.
pub proof fn lemma_node_text_parse(p: Seq<char>, n: NodeV)
    requires
        node_parse(p) == Ok::<NodeV, Seq<char>>(n),
        n is Str || p == seq!['*'] || p == seq!['*', '*'],
    ensures
        node_text(n) == p,
{
}

/// A label read from text whose pieces between `::` are plain names, `*`
/// or `**` prints as that text.
pub proof fn lemma_plain_label_round_trip(s: Seq<char>, ns: Seq<NodeV>)
    requires
        label_parse(s) == Ok::<Seq<NodeV>, Seq<char>>(ns),
        forall|i: int| 0 <= i < ns.len() ==> (#[trigger] ns[i]) is Str || split_label(s)[i] == seq!['*']
            || split_label(s)[i] == seq!['*', '*'],
    ensures
        label_text(ns) == s,
{
    let parts = split_label(s);
    lemma_parse_nodes_parts(parts, ns);
    assert forall|i: int| 0 <= i < ns.len() implies node_text(#[trigger] ns[i]) == split_label(s)[i] by {
        assert(node_parse(parts[i]) == Ok::<NodeV, Seq<char>>(ns[i]));
        lemma_node_text_parse(parts[i], ns[i]);
    }
    lemma_label_round_trip(s, ns);
}

/// Splits text at each `::`, as `str::split("::")` does.
pub fn split_colons(v: &Vec<char>) -> (r: Vec<Vec<char>>)
    ensures
        r@.map_values(|p: Vec<char>| p@) == split_label(v@),
{
    let mut parts: Vec<Vec<char>> = Vec::new();
    let mut start: usize = 0;
    let mut cur: Vec<char> = Vec::new();
    let mut i: usize = 0;
    assert(v@.skip(0) == v@);
    assert(parts@.map_values(|p: Vec<char>| p@) + split_label(v@) =~= split_label(v@));
    while i < v.len()
        invariant
            start <= i <= v.len(),
            cur@ == v@.subrange(start as int, i as int),
            forall|j: int| start <= j < i ==> !is_sep(v@, j),
            parts@.map_values(|p: Vec<char>| p@) + split_label(v@.skip(start as int)) == split_label(v@),
        decreases v.len() - i,
    {
        if i + 1 < v.len() && v[i] == ':' && v[i + 1] == ':' {
            proof {
                let t = v@.skip(start as int);
                assert forall|j: int| 0 <= j < i - start implies !is_sep(t, j) by {
                    assert(!is_sep(v@, j + start));
                }
                assert(is_sep(t, i - start));
                lemma_first_sep(t, i - start);
                assert(t.take(i - start) == cur@);
                assert(t.skip(i - start + 2) == v@.skip(i + 2));
                assert(split_label(t) == seq![cur@] + split_label(v@.skip(i + 2)));
            }
            let ghost old_parts = parts@.map_values(|p: Vec<char>| p@);
            parts.push(cur);
            assert(parts@.map_values(|p: Vec<char>| p@) =~= old_parts.push(cur@));
            cur = Vec::new();
            start = i + 2;
            i = i + 2;
        } else {
            proof {
                if !(i + 1 < v.len() && v[i as int] == ':' && v[i + 1] == ':') {
                    assert(!is_sep(v@, i as int));
                }
            }
            cur.push(v[i]);
            i = i + 1;
        }
    }
    proof {
        let t = v@.skip(start as int);
        assert forall|j: int| 0 <= j < t.len() implies !is_sep(t, j) by {
            assert(!is_sep(v@, j + start));
        }
        if t.len() >= 1 {
            lemma_first_sep(t, t.len() - 1);
        } else {
            lemma_first_sep(t, 0);
        }
        assert(split_label(t) == seq![t]);
        assert(cur@ == t);
    }
    let ghost old_parts = parts@.map_values(|p: Vec<char>| p@);
    parts.push(cur);
    assert(parts@.map_values(|p: Vec<char>| p@) =~= old_parts.push(v@.skip(start as int)));
    parts
}

/// An error on a prefix is the error of the whole list.
proof fn lemma_parse_nodes_err(parts: Seq<Seq<char>>, i: int)
    requires
        0 <= i <= parts.len(),
        parse_nodes(parts.take(i)) is Err,
    ensures
        parse_nodes(parts) == parse_nodes(parts.take(i)),
    decreases parts.len() - i,
{
    if i < parts.len() {
        assert(parts.take(i + 1).drop_last() == parts.take(i));
        lemma_parse_nodes_err(parts, i + 1);
    } else {
        assert(parts.take(i) == parts);
    }
}

impl Label {
    fn from_parts_with(parts: &Vec<Vec<char>>, syn: &Syntax) -> (r: Result<Label, String>)
        requires
            syn.valid(),
        ensures
            match r {
                Ok(l) => parse_nodes(parts@.map_values(|p: Vec<char>| p@)) == Ok::<Seq<NodeV>, Seq<char>>(l@),
                Err(e) => parse_nodes(parts@.map_values(|p: Vec<char>| p@)) == Err::<Seq<NodeV>, Seq<char>>(e@),
            },
    {
        let ghost ps = parts@.map_values(|p: Vec<char>| p@);
        let mut l = Label::new();
        let mut i: usize = 0;
        while i < parts.len()
            invariant
                i <= parts@.len(),
                ps == parts@.map_values(|p: Vec<char>| p@),
                syn.valid(),
                parse_nodes(ps.take(i as int)) == Ok::<Seq<NodeV>, Seq<char>>(l@),
            decreases parts.len() - i,
        {
            assert(ps.take(i + 1).drop_last() == ps.take(i as int));
            assert(ps.take(i + 1).last() == parts@[i as int]@);
            match Node::from_chars_with(&parts[i], syn) {
                Ok(n) => {
                    l.push(n);
                },
                Err(e) => {
                    proof { lemma_parse_nodes_err(ps, i + 1); }
                    return Err(e);
                },
            }
            i = i + 1;
        }
        assert(ps.take(parts@.len() as int) == ps);
        Ok(l)
    }

    /// Parses a label from its text: nodes separated by `::`.
    pub fn from_str(s: &str) -> (r: Result<Label, String>)
        ensures
            syntax_compiles() ==> match r {
                Ok(l) => label_parse(s@) == Ok::<Seq<NodeV>, Seq<char>>(l@),
                Err(e) => label_parse(s@) == Err::<Seq<NodeV>, Seq<char>>(e@),
            },
            !syntax_compiles() ==> r is Err,
    {
        let v = chars_of(s);
        let parts = split_colons(&v);
        match Syntax::new() {
            Some(syn) => Label::from_parts_with(&parts, &syn),
            None => Err(concat("bad label: ", s)),
        }
    }

    /// Parses a label from the texts of its nodes.
    pub fn try_from_strings(v: &Vec<String>) -> (r: Result<Label, String>)
        ensures
            syntax_compiles() ==> match r {
                Ok(l) => parse_nodes(v@.map_values(|s: String| s@)) == Ok::<Seq<NodeV>, Seq<char>>(l@),
                Err(e) => parse_nodes(v@.map_values(|s: String| s@)) == Err::<Seq<NodeV>, Seq<char>>(e@),
            },
            !syntax_compiles() ==> r is Err,
    {
        let mut parts: Vec<Vec<char>> = Vec::new();
        let mut i: usize = 0;
        while i < v.len()
            invariant
                i <= v@.len(),
                parts@.len() == i,
                forall|j: int| 0 <= j < i ==> (#[trigger] parts@[j])@ == v@[j]@,
            decreases v.len() - i,
        {
            parts.push(chars_of(v[i].as_str()));
            i = i + 1;
        }
        assert(parts@.map_values(|p: Vec<char>| p@) =~= v@.map_values(|s: String| s@));
        match Syntax::new() {
            Some(syn) => Label::from_parts_with(&parts, &syn),
            None => Err("bad label".to_owned()),
        }
    }
}

} // verus!
