//! Policies: what a proxy does with each of the functions that a protocol
//! asks a policy for, and the signatures those functions may have.

use vstd::prelude::*;
use crate::text::{str_eq, push_str, chars_of, string_from_chars};
use crate::strmap::{StrMap, Dup};
use crate::lexer::Loc;
use crate::types::{TFlatTyp, FlatTyp, Typ, TypV, Signature, SigV, LocType, flat_t, type_check_spec, loc_types_view,
    sig_text, dup_types, types_view};
use crate::headers::{Headers, headers_typ};

verus! {

/// The name of the policy function for HTTP requests.
pub const ALLOW_REST_REQUEST: &'static str = "allow_rest_request";
/// The name of the policy function for HTTP responses.
pub const ALLOW_REST_RESPONSE: &'static str = "allow_rest_response";
/// The name of the policy function for TCP connections.
pub const ALLOW_TCP_CONNECTION: &'static str = "allow_tcp_connection";
/// The name of the function called when a TCP connection ends.
pub const ON_TCP_DISCONNECT: &'static str = "on_tcp_disconnect";

/// What a proxy does with a policy function: allow, deny, or call the
/// function with the given number of arguments.
#[derive(Clone, Copy, Debug, PartialEq, Eq, Structural)]
pub enum FnPolicy {
    Allow,
    Deny,
    Args(u8),
}

impl View for FnPolicy {
    type V = FnPolicy;

    open spec fn view(&self) -> FnPolicy {
        *self
    }
}

impl Dup for FnPolicy {
    fn dup(&self) -> (r: Self) {
        *self
    }
}

impl Default for FnPolicy {
    /// Deny.
    fn default() -> (p: Self)
        ensures
            p == FnPolicy::Deny,
    {
        FnPolicy::Deny
    }
}

/// A function that decides on traffic coming in.
pub open spec fn is_ingress_spec(function: Seq<char>) -> bool {
    function == ALLOW_REST_REQUEST@ || function == ALLOW_TCP_CONNECTION@
}

/// A function that decides on traffic going out.
pub open spec fn is_egress_spec(function: Seq<char>) -> bool {
    function == ALLOW_REST_RESPONSE@
}

/// Whether a function decides on traffic coming in.
pub fn is_ingress(function: &str) -> (b: bool)
    ensures
        b == is_ingress_spec(function@),
{
    str_eq(ALLOW_REST_REQUEST, function) || str_eq(ALLOW_TCP_CONNECTION, function)
}

/// Whether a function decides on traffic going out.
pub fn is_egress(function: &str) -> (b: bool)
    ensures
        b == is_egress_spec(function@),
{
    str_eq(ALLOW_REST_RESPONSE, function)
}

/// Which functions a policy speaks of: all, ingress ones or egress ones.
pub open spec fn selected(which: u8, function: Seq<char>) -> bool {
    if which == 1 {
        is_ingress_spec(function)
    } else if which == 2 {
        is_egress_spec(function)
    } else {
        true
    }
}

/// The selected names, each with the same policy.
pub open spec fn named_policies(names: Seq<Seq<char>>, which: u8, p: FnPolicy) -> Map<Seq<char>, FnPolicy> {
    Map::new(|k: Seq<char>| names.contains(k) && selected(which, k), |k: Seq<char>| p)
}

/// Every selected function of a non-empty policy map has policy `p`.
pub open spec fn all_selected_are(m: Map<Seq<char>, FnPolicy>, which: u8, p: FnPolicy) -> bool {
    m.dom().len() > 0 && forall|k: Seq<char>| #[trigger] m.contains_key(k) && selected(which, k) ==> m[k] == p
}

/// The policy of each function, by name.
#[derive(Debug)]
pub struct FnPolicies(pub StrMap<FnPolicy>);

impl View for FnPolicies {
    type V = Map<Seq<char>, FnPolicy>;

    open spec fn view(&self) -> Map<Seq<char>, FnPolicy> {
        self.0.map()
    }
}

impl FnPolicies {
    /// No policies.
    pub fn new() -> (r: Self)
        ensures
            r@ == Map::<Seq<char>, FnPolicy>::empty(),
    {
        FnPolicies(StrMap::new())
    }

    fn selected_names(names: &[String], which: u8, p: FnPolicy) -> (r: Self)
        ensures
            r@ == named_policies(names@.map_values(|s: String| s@), which, p),
    {
        let ghost ns = names@.map_values(|s: String| s@);
        let mut m = FnPolicies::new();
        let mut i: usize = 0;
        while i < names.len()
            invariant
                i <= names@.len(),
                ns == names@.map_values(|s: String| s@),
                m@ == named_policies(ns.take(i as int), which, p),
            decreases names.len() - i,
        {
            let name = names[i].as_str();
            let keep = if which == 1 { is_ingress(name) } else if which == 2 { is_egress(name) } else { true };
            assert(ns.take(i + 1) =~= ns.take(i as int).push(ns[i as int]));
            assert(keep == selected(which, ns[i as int]));
            assert forall|k: Seq<char>| #[trigger] ns.take(i + 1).contains(k) == (ns.take(i as int).contains(k) || k == ns[i as int]) by {
                if ns.take(i + 1).contains(k) {
                    let j = choose|j: int| 0 <= j < ns.take(i + 1).len() && #[trigger] ns.take(i + 1)[j] == k;
                    if j < i {
                        assert(ns.take(i as int)[j] == k);
                    }
                }
                if ns.take(i as int).contains(k) {
                    let j = choose|j: int| 0 <= j < ns.take(i as int).len() && #[trigger] ns.take(i as int)[j] == k;
                    assert(ns.take(i + 1)[j] == k);
                }
                if k == ns[i as int] {
                    assert(ns.take(i + 1)[i as int] == k);
                }
            }
            if keep {
                m.0.insert(name.to_owned(), p);
                assert(m@ =~= named_policies(ns.take(i + 1), which, p));
            } else {
                assert(m@ =~= named_policies(ns.take(i + 1), which, p));
            }
            i = i + 1;
        }
        assert(ns.take(names@.len() as int) =~= ns);
        m
    }

    /// Allow every named function.
    pub fn allow_all(names: &[String]) -> (r: Self)
        ensures
            r@ == named_policies(names@.map_values(|s: String| s@), 0, FnPolicy::Allow),
    {
        Self::selected_names(names, 0, FnPolicy::Allow)
    }

    /// Allow the named egress functions.
    pub fn allow_egress(names: &[String]) -> (r: Self)
        ensures
            r@ == named_policies(names@.map_values(|s: String| s@), 2, FnPolicy::Allow),
    {
        Self::selected_names(names, 2, FnPolicy::Allow)
    }

    /// Allow the named ingress functions.
    pub fn allow_ingress(names: &[String]) -> (r: Self)
        ensures
            r@ == named_policies(names@.map_values(|s: String| s@), 1, FnPolicy::Allow),
    {
        Self::selected_names(names, 1, FnPolicy::Allow)
    }

    /// Deny every named function.
    pub fn deny_all(names: &[String]) -> (r: Self)
        ensures
            r@ == named_policies(names@.map_values(|s: String| s@), 0, FnPolicy::Deny),
    {
        Self::selected_names(names, 0, FnPolicy::Deny)
    }

    /// Deny the named egress functions.
    pub fn deny_egress(names: &[String]) -> (r: Self)
        ensures
            r@ == named_policies(names@.map_values(|s: String| s@), 2, FnPolicy::Deny),
    {
        Self::selected_names(names, 2, FnPolicy::Deny)
    }

    /// Deny the named ingress functions.
    pub fn deny_ingress(names: &[String]) -> (r: Self)
        ensures
            r@ == named_policies(names@.map_values(|s: String| s@), 1, FnPolicy::Deny),
    {
        Self::selected_names(names, 1, FnPolicy::Deny)
    }

    fn all_are(&self, which: u8, p: FnPolicy) -> (b: bool)
        ensures
            b == all_selected_are(self@, which, p),
    {
        self.0.properties();
        let ghost es = self.0.entry_seq();
        let n = self.0.len();
        if n == 0 {
            return false;
        }
        let mut i: usize = 0;
        while i < n
            invariant
                i <= n,
                n == es.len(),
                es == self.0.entry_seq(),
                crate::strmap::sorted_keys(es),
                self@ == crate::strmap::map_of(es),
                forall|j: int| 0 <= j < i && selected(which, #[trigger] es[j].0) ==> es[j].1 == p,
            decreases n - i,
        {
            let k = self.0.key_at(i);
            let v = *self.0.value_at(i);
            let keep = if which == 1 { is_ingress(k.as_str()) } else if which == 2 { is_egress(k.as_str()) } else { true };
            if keep && v != p {
                proof { crate::strmap::lemma_lookup(es, i as int); }
                assert(self@.contains_key(es[i as int].0) && selected(which, es[i as int].0));
                return false;
            }
            i = i + 1;
        }
        assert forall|k: Seq<char>| #[trigger] self@.contains_key(k) && selected(which, k) implies self@[k] == p by {
            let j = crate::strmap::key_index(es, k);
            assert(es[j].0 == k);
            crate::strmap::lemma_lookup(es, j);
        }
        true
    }

    /// Every function is allowed (and there is one).
    pub fn is_allow_all(&self) -> (b: bool)
        ensures
            b == all_selected_are(self@, 0, FnPolicy::Allow),
    {
        self.all_are(0, FnPolicy::Allow)
    }

    /// Every egress function is allowed (and there is some function).
    pub fn is_allow_egress(&self) -> (b: bool)
        ensures
            b == all_selected_are(self@, 2, FnPolicy::Allow),
    {
        self.all_are(2, FnPolicy::Allow)
    }

    /// Every ingress function is allowed (and there is some function).
    pub fn is_allow_ingress(&self) -> (b: bool)
        ensures
            b == all_selected_are(self@, 1, FnPolicy::Allow),
    {
        self.all_are(1, FnPolicy::Allow)
    }

    /// Every function is denied (and there is one).
    pub fn is_deny_all(&self) -> (b: bool)
        ensures
            b == all_selected_are(self@, 0, FnPolicy::Deny),
    {
        self.all_are(0, FnPolicy::Deny)
    }

    /// Every egress function is denied (and there is some function).
    pub fn is_deny_egress(&self) -> (b: bool)
        ensures
            b == all_selected_are(self@, 2, FnPolicy::Deny),
    {
        self.all_are(2, FnPolicy::Deny)
    }

    /// Every ingress function is denied (and there is some function).
    pub fn is_deny_ingress(&self) -> (b: bool)
        ensures
            b == all_selected_are(self@, 1, FnPolicy::Deny),
    {
        self.all_are(1, FnPolicy::Deny)
    }

    /// The policies of both, those of `other` winning.
    pub fn merge(&self, other: &Self) -> (r: Self)
        ensures
            r@ == self@.union_prefer_right(other@),
    {
        FnPolicies(self.0.merge(&other.0))
    }

    /// Call `k` with `u` arguments.
    pub fn set_args(&mut self, k: String, u: u8)
        ensures
            final(self)@ == old(self)@.insert(k@, FnPolicy::Args(u)),
    {
        self.0.insert(k, FnPolicy::Args(u));
    }

    /// The policy of a function.
    pub fn get(&self, name: &str) -> (r: Option<FnPolicy>)
        ensures
            match r {
                Some(p) => self@.contains_key(name@) && self@[name@] == p,
                None => !self@.contains_key(name@),
            },
    {
        match self.0.get(name) {
            Some(p) => Some(*p),
            None => None,
        }
    }
}

impl Default for FnPolicies {
    fn default() -> (r: Self)
        ensures
            r@ == Map::<Seq<char>, FnPolicy>::empty(),
    {
        FnPolicies::new()
    }
}

/// Models of a list of signatures.
pub open spec fn sigs_view<F>(v: Seq<Signature<F>>) -> Seq<SigV<F>> {
    v.map_values(|sg: Signature<F>| sg@)
}

/// The signatures that a protocol allows for each of its policy functions.
#[derive(Debug)]
pub struct ProtocolPolicy<F>(pub StrMap<Vec<Signature<F>>>);

impl<F> ProtocolPolicy<F> {
    /// Each policy function with its allowed signatures, in order of name.
    pub open spec fn entries(&self) -> Seq<(Seq<char>, Seq<SigV<F>>)> {
        self.0.entry_seq().map_values(|e: (Seq<char>, Seq<Signature<F>>)| (e.0, sigs_view(e.1)))
    }
}

impl<F> View for ProtocolPolicy<F> {
    type V = Map<Seq<char>, Seq<SigV<F>>>;

    open spec fn view(&self) -> Map<Seq<char>, Seq<SigV<F>>> {
        self.0.map().map_values(|v: Seq<Signature<F>>| sigs_view(v))
    }
}

/// Signatures with the given argument lists and one result type.
pub open spec fn sigs_returning<F>(args: Seq<Seq<TypV<F>>>, r: TypV<F>) -> Seq<SigV<F>> {
    args.map_values(|a: Seq<TypV<F>>| (Some(a), r))
}

/// The signatures of the HTTP policy functions.
pub open spec fn http_policy_spec<F: TFlatTyp>() -> Map<Seq<char>, Seq<SigV<F>>> {
    let id = flat_t::<F>(FlatTyp::ID);
    let data = flat_t::<F>(FlatTyp::Data);
    let req = flat_t::<F>(FlatTyp::HttpRequest);
    let resp = flat_t::<F>(FlatTyp::HttpResponse);
    let b = flat_t::<F>(FlatTyp::Bool);
    Map::empty().insert(
        ALLOW_REST_REQUEST@,
        sigs_returning(seq![seq![id, id, req, data], seq![req, data], seq![req], Seq::empty()], b),
    ).insert(
        ALLOW_REST_RESPONSE@,
        sigs_returning(seq![seq![id, id, resp, data], seq![resp, data], seq![resp], Seq::empty()], b),
    )
}

/// The signatures of the TCP policy functions.
pub open spec fn tcp_policy_spec<F: TFlatTyp>() -> Map<Seq<char>, Seq<SigV<F>>> {
    let conn = flat_t::<F>(FlatTyp::Connection);
    let i = flat_t::<F>(FlatTyp::I64);
    Map::empty().insert(
        ALLOW_TCP_CONNECTION@,
        sigs_returning(seq![seq![conn], Seq::empty()], flat_t::<F>(FlatTyp::Bool)),
    ).insert(
        ON_TCP_DISCONNECT@,
        sigs_returning(seq![seq![conn, i, i], seq![conn], Seq::empty()], flat_t::<F>(FlatTyp::Unit)),
    )
}

impl<F: TFlatTyp> ProtocolPolicy<F> {
    /// No functions.
    pub fn new() -> (r: Self)
        ensures
            r@ == Map::<Seq<char>, Seq<SigV<F>>>::empty(),
    {
        let r = ProtocolPolicy(StrMap::new());
        assert(r@ =~= Map::<Seq<char>, Seq<SigV<F>>>::empty());
        r
    }

    /// The policy functions, in order of name.
    pub fn functions(&self) -> (r: Vec<String>)
        ensures
            r@.map_values(|k: String| k@) == self.entries().map_values(|e: (Seq<char>, Seq<SigV<F>>)| e.0),
    {
        let r = self.0.keys();
        assert(r@.map_values(|k: String| k@) =~= self.entries().map_values(|e: (Seq<char>, Seq<SigV<F>>)| e.0));
        r
    }

    /// Sets the signatures allowed for `name`.
    pub fn insert(&mut self, name: &str, fn_policy: Vec<Signature<F>>)
        ensures
            final(self)@ == old(self)@.insert(name@, sigs_view(fn_policy@)),
    {
        let ghost v = fn_policy@;
        self.0.insert(name.to_owned(), fn_policy);
        assert(self@ =~= old(self)@.insert(name@, sigs_view(v)));
    }
}

/// The signatures with the given argument lists, each returning `r`.
fn sigs_with<F: TFlatTyp>(args: Vec<Vec<Typ<F>>>, r: &Typ<F>) -> (v: Vec<Signature<F>>)
    ensures
        sigs_view(v@) == sigs_returning(args@.map_values(|a: Vec<Typ<F>>| types_view(a@)), r@),
{
    let ghost av = args@.map_values(|a: Vec<Typ<F>>| types_view(a@));
    let mut out: Vec<Signature<F>> = Vec::new();
    let mut i: usize = 0;
    while i < args.len()
        invariant
            i <= args@.len(),
            av == args@.map_values(|a: Vec<Typ<F>>| types_view(a@)),
            out@.len() == i,
            forall|j: int| 0 <= j < i ==> (#[trigger] out@[j])@ == (Some(av[j]), r@),
        decreases args.len() - i,
    {
        let a = dup_types(&args[i]);
        out.push(Signature::new(a, r.dup()));
        i = i + 1;
    }
    assert(sigs_view(out@) =~= sigs_returning(av, r@));
    out
}

/// A list of four types.
fn types4<F>(a: Typ<F>, b: Typ<F>, c: Typ<F>, d: Typ<F>) -> (v: Vec<Typ<F>>)
    ensures
        types_view(v@) == seq![a@, b@, c@, d@],
{
    let ghost w = seq![a@, b@, c@, d@];
    let mut v = Vec::new();
    v.push(a);
    v.push(b);
    v.push(c);
    v.push(d);
    assert(types_view(v@) =~= w);
    v
}

/// A list of three types.
fn types3<F>(a: Typ<F>, b: Typ<F>, c: Typ<F>) -> (v: Vec<Typ<F>>)
    ensures
        types_view(v@) == seq![a@, b@, c@],
{
    let ghost w = seq![a@, b@, c@];
    let mut v = Vec::new();
    v.push(a);
    v.push(b);
    v.push(c);
    assert(types_view(v@) =~= w);
    v
}

/// A list of two types.
fn types2<F>(a: Typ<F>, b: Typ<F>) -> (v: Vec<Typ<F>>)
    ensures
        types_view(v@) == seq![a@, b@],
{
    let ghost w = seq![a@, b@];
    let mut v = Vec::new();
    v.push(a);
    v.push(b);
    assert(types_view(v@) =~= w);
    v
}

/// A list of one type.
fn types1<F>(a: Typ<F>) -> (v: Vec<Typ<F>>)
    ensures
        types_view(v@) == seq![a@],
{
    let ghost w = seq![a@];
    let mut v = Vec::new();
    v.push(a);
    assert(types_view(v@) =~= w);
    v
}

/// The empty list of types.
fn types0<F>() -> (v: Vec<Typ<F>>)
    ensures
        types_view(v@) == Seq::<TypV<F>>::empty(),
{
    let v = Vec::new();
    assert(types_view(v@) =~= Seq::<TypV<F>>::empty());
    v
}

/// The HTTP protocol's policy functions and their signatures.
pub fn http_policy<F: TFlatTyp>() -> (p: ProtocolPolicy<F>)
    ensures
        p@ == http_policy_spec::<F>(),
{
    let mut policy = ProtocolPolicy::new();
    let mut req: Vec<Vec<Typ<F>>> = Vec::new();
    req.push(types4(Typ::id(), Typ::id(), Typ::http_request(), Typ::data()));
    req.push(types2(Typ::http_request(), Typ::data()));
    req.push(types1(Typ::http_request()));
    req.push(types0());
    let ghost rq = req@.map_values(|a: Vec<Typ<F>>| types_view(a@));
    assert(rq =~= seq![
        seq![flat_t::<F>(FlatTyp::ID), flat_t::<F>(FlatTyp::ID), flat_t::<F>(FlatTyp::HttpRequest), flat_t::<F>(FlatTyp::Data)],
        seq![flat_t::<F>(FlatTyp::HttpRequest), flat_t::<F>(FlatTyp::Data)],
        seq![flat_t::<F>(FlatTyp::HttpRequest)],
        Seq::empty()]);
    policy.insert(ALLOW_REST_REQUEST, sigs_with(req, &Typ::bool()));
    let mut resp: Vec<Vec<Typ<F>>> = Vec::new();
    resp.push(types4(Typ::id(), Typ::id(), Typ::http_response(), Typ::data()));
    resp.push(types2(Typ::http_response(), Typ::data()));
    resp.push(types1(Typ::http_response()));
    resp.push(types0());
    let ghost rs = resp@.map_values(|a: Vec<Typ<F>>| types_view(a@));
    assert(rs =~= seq![
        seq![flat_t::<F>(FlatTyp::ID), flat_t::<F>(FlatTyp::ID), flat_t::<F>(FlatTyp::HttpResponse), flat_t::<F>(FlatTyp::Data)],
        seq![flat_t::<F>(FlatTyp::HttpResponse), flat_t::<F>(FlatTyp::Data)],
        seq![flat_t::<F>(FlatTyp::HttpResponse)],
        Seq::empty()]);
    policy.insert(ALLOW_REST_RESPONSE, sigs_with(resp, &Typ::bool()));
    assert(policy@ =~= http_policy_spec::<F>());
    policy
}

/// The TCP protocol's policy functions and their signatures.
pub fn tcp_policy<F: TFlatTyp>() -> (p: ProtocolPolicy<F>)
    ensures
        p@ == tcp_policy_spec::<F>(),
{
    let mut policy = ProtocolPolicy::new();
    let mut conn: Vec<Vec<Typ<F>>> = Vec::new();
    conn.push(types1(Typ::connection()));
    conn.push(types0());
    let ghost cv = conn@.map_values(|a: Vec<Typ<F>>| types_view(a@));
    assert(cv =~= seq![seq![flat_t::<F>(FlatTyp::Connection)], Seq::empty()]);
    policy.insert(ALLOW_TCP_CONNECTION, sigs_with(conn, &Typ::bool()));
    let mut disc: Vec<Vec<Typ<F>>> = Vec::new();
    disc.push(types3(Typ::connection(), Typ::i64(), Typ::i64()));
    disc.push(types1(Typ::connection()));
    disc.push(types0());
    let ghost dv = disc@.map_values(|a: Vec<Typ<F>>| types_view(a@));
    assert(dv =~= seq![
        seq![flat_t::<F>(FlatTyp::Connection), flat_t::<F>(FlatTyp::I64), flat_t::<F>(FlatTyp::I64)],
        seq![flat_t::<F>(FlatTyp::Connection)],
        Seq::empty()]);
    policy.insert(ON_TCP_DISCONNECT, sigs_with(disc, &Typ::unit()));
    assert(policy@ =~= tcp_policy_spec::<F>());
    policy
}

/// The protocols that policies are written for.
#[derive(Clone, Copy, Debug, PartialEq, Eq, Structural)]
pub enum Protocol {
    HTTP,
    TCP,
}

/// A protocol's policy functions and their signatures.
pub open spec fn protocol_policy_spec<F: TFlatTyp>(p: Protocol) -> Map<Seq<char>, Seq<SigV<F>>> {
    match p {
        Protocol::HTTP => http_policy_spec::<F>(),
        Protocol::TCP => tcp_policy_spec::<F>(),
    }
}

/// A protocol's policy functions, in order of name.
pub open spec fn protocol_functions(p: Protocol) -> Seq<Seq<char>> {
    match p {
        Protocol::HTTP => seq![ALLOW_REST_REQUEST@, ALLOW_REST_RESPONSE@],
        Protocol::TCP => seq![ALLOW_TCP_CONNECTION@, ON_TCP_DISCONNECT@],
    }
}

/// The functions that `functions` lists are those that the protocol's
/// policy gives signatures for.
pub proof fn lemma_functions_are_policy_keys<F: TFlatTyp>(p: Protocol)
    ensures
        protocol_functions(p).to_set() == protocol_policy_spec::<F>(p).dom(),
{
    let fs = protocol_functions(p);
    assert forall|k: Seq<char>| #[trigger] fs.to_set().contains(k) == protocol_policy_spec::<F>(p).dom().contains(k) by {
        if protocol_policy_spec::<F>(p).dom().contains(k) {
            assert(fs[0] == k || fs[1] == k);
        }
        if fs.contains(k) {
            let j = choose|j: int| 0 <= j < fs.len() && #[trigger] fs[j] == k;
            assert(j == 0 || j == 1);
        }
    }
    assert(fs.to_set() =~= protocol_policy_spec::<F>(p).dom());
}

/// ASCII letters in lower case, other characters unchanged.
pub open spec fn ascii_lower(c: char) -> char {
    if 'A' <= c && c <= 'Z' { ((c as u32) + 32) as char } else { c }
}

/// Reading a protocol's name, in any case.
pub open spec fn protocol_parse(s: Seq<char>) -> Result<Protocol, Seq<char>> {
    let l = s.map_values(|c: char| ascii_lower(c));
    if l == seq!['t', 'c', 'p'] {
        Ok(Protocol::TCP)
    } else if l == seq!['h', 't', 't', 'p'] {
        Ok(Protocol::HTTP)
    } else {
        Err("failed to parse protocol: "@ + s)
    }
}

fn lower_char(c: char) -> (r: char)
    ensures
        r == ascii_lower(c),
{
    match c {
        'A' => 'a',
        'B' => 'b',
        'C' => 'c',
        'D' => 'd',
        'E' => 'e',
        'F' => 'f',
        'G' => 'g',
        'H' => 'h',
        'I' => 'i',
        'J' => 'j',
        'K' => 'k',
        'L' => 'l',
        'M' => 'm',
        'N' => 'n',
        'O' => 'o',
        'P' => 'p',
        'Q' => 'q',
        'R' => 'r',
        'S' => 's',
        'T' => 't',
        'U' => 'u',
        'V' => 'v',
        'W' => 'w',
        'X' => 'x',
        'Y' => 'y',
        'Z' => 'z',
        _ => c,
    }
}

impl Protocol {
    /// The protocol's policy functions and their signatures.
    pub fn policy<F: TFlatTyp>(&self) -> (r: ProtocolPolicy<F>)
        ensures
            r@ == protocol_policy_spec::<F>(*self),
    {
        match self {
            Protocol::HTTP => http_policy(),
            Protocol::TCP => tcp_policy(),
        }
    }

    /// The protocol's policy functions, in order of name.
    pub fn functions(&self) -> (r: Vec<String>)
        ensures
            r@.map_values(|k: String| k@) == protocol_functions(*self),
    {
        let mut v: Vec<String> = Vec::new();
        match self {
            Protocol::HTTP => {
                v.push(ALLOW_REST_REQUEST.to_owned());
                v.push(ALLOW_REST_RESPONSE.to_owned());
            },
            Protocol::TCP => {
                v.push(ALLOW_TCP_CONNECTION.to_owned());
                v.push(ON_TCP_DISCONNECT.to_owned());
            },
        }
        assert(v@.map_values(|k: String| k@) =~= protocol_functions(*self));
        v
    }

    /// The protocol's name.
    pub fn to_string(&self) -> (s: String)
        ensures
            s@ == match *self {
                Protocol::HTTP => "http"@,
                Protocol::TCP => "tcp"@,
            },
    {
        match self {
            Protocol::HTTP => "http".to_owned(),
            Protocol::TCP => "tcp".to_owned(),
        }
    }

    /// Reads a protocol's name, in any case.
    pub fn from_str(s: &str) -> (r: Result<Protocol, String>)
        ensures
            match r {
                Ok(p) => protocol_parse(s@) == Ok::<Protocol, Seq<char>>(p),
                Err(e) => protocol_parse(s@) == Err::<Protocol, Seq<char>>(e@),
            },
    {
        let cs = chars_of(s);
        let mut low: Vec<char> = Vec::new();
        let mut i: usize = 0;
        while i < cs.len()
            invariant
                i <= cs@.len(),
                cs@ == s@,
                low@ == s@.take(i as int).map_values(|c: char| ascii_lower(c)),
            decreases cs.len() - i,
        {
            low.push(lower_char(cs[i]));
            assert(s@.take(i + 1).map_values(|c: char| ascii_lower(c)) =~= low@);
            i = i + 1;
        }
        assert(s@.take(s@.len() as int) == s@);
        let ghost l = s@.map_values(|c: char| ascii_lower(c));
        if low.len() == 3 && low[0] == 't' && low[1] == 'c' && low[2] == 'p' {
            assert(l =~= seq!['t', 'c', 'p']);
            Ok(Protocol::TCP)
        } else if low.len() == 4 && low[0] == 'h' && low[1] == 't' && low[2] == 't' && low[3] == 'p' {
            assert(l =~= seq!['h', 't', 't', 'p']);
            assert(l != seq!['t', 'c', 'p']);
            Ok(Protocol::HTTP)
        } else {
            assert(l != seq!['t', 'c', 'p']) by {
                if l =~= seq!['t', 'c', 'p'] {
                    assert(low@[0] == 't' && low@[1] == 'c' && low@[2] == 'p');
                }
            }
            assert(l != seq!['h', 't', 't', 'p']) by {
                if l =~= seq!['h', 't', 't', 'p'] {
                    assert(low@[0] == 'h' && low@[1] == 't' && low@[2] == 't' && low@[3] == 'p');
                }
            }
            let mut e = "failed to parse protocol: ".to_owned();
            push_str(&mut e, s);
            Err(e)
        }
    }
}

/// Types without locations.
pub open spec fn unlocated<F>(ts: Seq<TypV<F>>) -> Seq<(Option<Loc>, TypV<F>)> {
    ts.map_values(|t: TypV<F>| (None::<Loc>, t))
}

/// A function's signature fits an allowed one: the result types unify and,
/// where the function fixes its arguments, the allowed signature fixes them
/// too and the argument types unify pairwise.
pub open spec fn sig_fits<F: TFlatTyp>(function: Seq<char>, sig1: SigV<F>, sig2: SigV<F>) -> bool {
    &&& type_check_spec(function, seq![(None::<Loc>, sig1.1)], seq![(None::<Loc>, sig2.1)]) is Ok
    &&& match sig1.0 {
        Some(a1) => match sig2.0 {
            Some(a2) => type_check_spec(function, unlocated(a1), unlocated(a2)) is Ok,
            None => false,
        },
        None => true,
    }
}

/// Located versions of types, without locations.
fn unlocate<F: TFlatTyp>(ts: &Vec<Typ<F>>) -> (r: Vec<LocType<F>>)
    ensures
        loc_types_view(r@) == unlocated(types_view(ts@)),
{
    let mut out: Vec<LocType<F>> = Vec::new();
    let mut i: usize = 0;
    while i < ts.len()
        invariant
            i <= ts@.len(),
            out@.len() == i,
            forall|j: int| 0 <= j < i ==> (#[trigger] out@[j]).0 is None && out@[j].1@ == ts@[j]@,
        decreases ts.len() - i,
    {
        out.push((None, ts[i].dup()));
        i = i + 1;
    }
    assert(loc_types_view(out@) =~= unlocated(types_view(ts@)));
    out
}

/// One unlocated type.
fn unlocated_one<F: TFlatTyp>(t: &Typ<F>) -> (r: Vec<LocType<F>>)
    ensures
        loc_types_view(r@) == seq![(None::<Loc>, t@)],
{
    let mut v: Vec<LocType<F>> = Vec::new();
    v.push((None, t.dup()));
    assert(loc_types_view(v@) =~= seq![(None::<Loc>, t@)]);
    v
}

/// Whether a function's signature fits an allowed one (see `sig_fits`).
pub fn type_check<F: TFlatTyp>(function: &str, sig1: &Signature<F>, sig2: &Signature<F>) -> (b: bool)
    ensures
        b == sig_fits(function@, sig1@, sig2@),
{
    let r = Typ::type_check(function, unlocated_one(&sig1.1), unlocated_one(&sig2.1));
    if r.is_err() {
        return false;
    }
    match &sig1.0 {
        Some(a1) => match &sig2.0 {
            Some(a2) => Typ::type_check(function, unlocate(a1), unlocate(a2)).is_ok(),
            None => false,
        },
        None => true,
    }
}

/// Texts joined by `; `.
pub open spec fn join_semi(ss: Seq<Seq<char>>) -> Seq<char>
    decreases ss.len(),
{
    if ss.len() == 0 {
        Seq::empty()
    } else if ss.len() == 1 {
        ss[0]
    } else {
        join_semi(ss.drop_last()) + seq![';', ' '] + ss.last()
    }
}

/// The error for a function whose signature fits none of those allowed.
pub open spec fn possible_types_msg<F: TFlatTyp>(f: Seq<char>, sigs: Seq<SigV<F>>) -> Seq<char> {
    "possible types for function \""@ + f + "\" are: "@ + join_semi(sigs.map_values(|sg: SigV<F>| sig_text(sg)))
}

/// The policies that a program's headers give the functions of a protocol,
/// taken in order of name: a function that the headers do not know is
/// allowed; one that they know must fit an allowed signature (else the
/// whole fails), and is then called with its number of arguments when it
/// fixes them and that number fits in a byte.
pub open spec fn from_headers_spec<F: TFlatTyp>(h: Map<Seq<char>, SigV<F>>, es: Seq<(Seq<char>, Seq<SigV<F>>)>) -> Result<Map<Seq<char>, FnPolicy>, Seq<char>>
    decreases es.len(),
{
    if es.len() == 0 {
        Ok(Map::empty())
    } else {
        match from_headers_spec(h, es.drop_last()) {
            Err(e) => Err(e),
            Ok(m) => {
                let f = es.last().0;
                let sigs = es.last().1;
                match headers_typ(h, f) {
                    None => Ok(m.insert(f, FnPolicy::Allow)),
                    Some(sg) => if !(exists|j: int| 0 <= j < sigs.len() && sig_fits(f, sg, #[trigger] sigs[j])) {
                        Err(possible_types_msg(f, sigs))
                    } else {
                        match sg.0 {
                            Some(a) => if a.len() <= 255 { Ok(m.insert(f, FnPolicy::Args(a.len() as u8))) } else { Ok(m) },
                            None => Ok(m),
                        }
                    },
                }
            },
        }
    }
}

/// Once a prefix of the functions fails, longer prefixes fail alike.
proof fn lemma_from_headers_err_stable<F: TFlatTyp>(h: Map<Seq<char>, SigV<F>>, es: Seq<(Seq<char>, Seq<SigV<F>>)>, k: int, n: int)
    requires
        0 <= k <= n <= es.len(),
        from_headers_spec(h, es.take(k)) is Err,
    ensures
        from_headers_spec(h, es.take(n)) == from_headers_spec(h, es.take(k)),
    decreases n - k,
{
    if n > k {
        lemma_from_headers_err_stable(h, es, k, n - 1);
        assert(es.take(n).drop_last() =~= es.take(n - 1));
    }
}

/// The signatures printed and joined by `; `.
fn join_sigs<F: TFlatTyp>(sigs: &Vec<Signature<F>>) -> (s: String)
    ensures
        s@ == join_semi(sigs_view(sigs@).map_values(|sg: SigV<F>| sig_text(sg))),
{
    let ghost texts = sigs_view(sigs@).map_values(|sg: SigV<F>| sig_text(sg));
    let mut body = String::new();
    let mut i: usize = 0;
    while i < sigs.len()
        invariant
            i <= sigs@.len(),
            texts == sigs_view(sigs@).map_values(|sg: SigV<F>| sig_text(sg)),
            texts.len() == sigs@.len(),
            body@ == join_semi(texts.take(i as int)),
        decreases sigs.len() - i,
    {
        if i > 0 {
            push_str(&mut body, "; ");
            proof { reveal_strlit("; "); }
        }
        let t = sigs[i].to_string();
        push_str(&mut body, t.as_str());
        assert(texts.take(i + 1).drop_last() == texts.take(i as int));
        assert(texts[i as int] == sig_text(sigs@[i as int]@));
        i = i + 1;
    }
    assert(texts.take(sigs@.len() as int) == texts);
    body
}

impl FnPolicies {
    /// The policies that a program's headers give the functions of a
    /// protocol (see `from_headers_spec`).
    pub fn from_headers<F: TFlatTyp>(headers: &Headers<F>, proto_policy: &ProtocolPolicy<F>) -> (r: Result<FnPolicies, crate::headers::Error>)
        ensures
            match r {
                Ok(p) => from_headers_spec(headers@, proto_policy.entries()) == Ok::<Map<Seq<char>, FnPolicy>, Seq<char>>(p@),
                Err(e) => from_headers_spec(headers@, proto_policy.entries()) == Err::<Map<Seq<char>, FnPolicy>, Seq<char>>(e.0@),
            },
    {
        let ghost es = proto_policy.entries();
        let mut fn_policies = FnPolicies::new();
        let n = proto_policy.0.len();
        assert(es.take(0) =~= Seq::<(Seq<char>, Seq<SigV<F>>)>::empty());
        let mut i: usize = 0;
        while i < n
            invariant
                i <= n,
                n == es.len(),
                es == proto_policy.entries(),
                from_headers_spec(headers@, es.take(i as int)) == Ok::<Map<Seq<char>, FnPolicy>, Seq<char>>(fn_policies@),
            decreases n - i,
        {
            let function = proto_policy.0.key_at(i);
            let signatures = proto_policy.0.value_at(i);
            let ghost f = es[i as int].0;
            let ghost sigs = es[i as int].1;
            assert(f == function@);
            assert(sigs == sigs_view(signatures@));
            assert(es.take(i + 1).drop_last() =~= es.take(i as int));
            assert(es.take(i + 1).last() == es[i as int]);
            match headers.typ(function.as_str()) {
                Some(sig) => {
                    let mut found = false;
                    let mut j: usize = 0;
                    while j < signatures.len() && !found
                        invariant
                            j <= signatures@.len(),
                            sigs == sigs_view(signatures@),
                            found ==> (exists|k: int| 0 <= k < sigs.len() && sig_fits(f, sig@, #[trigger] sigs[k])),
                            !found ==> (forall|k: int| 0 <= k < j ==> !sig_fits(f, sig@, #[trigger] sigs[k])),
                        decreases signatures.len() - j + (if found { 0int } else { 1int }),
                    {
                        if type_check(function.as_str(), &sig, &signatures[j]) {
                            assert(sig_fits(f, sig@, sigs[j as int]));
                            found = true;
                        } else {
                            j = j + 1;
                        }
                    }
                    if !found {
                        let mut msg = "possible types for function \"".to_owned();
                        push_str(&mut msg, function.as_str());
                        push_str(&mut msg, "\" are: ");
                        let joined = join_sigs(signatures);
                        push_str(&mut msg, joined.as_str());
                        proof {
                            lemma_from_headers_err_stable(headers@, es, i + 1, n as int);
                            assert(es.take(n as int) =~= es);
                        }
                        return Err(crate::headers::Error(msg));
                    }
                    let ghost sv = sig@;
                    match sig.0 {
                        Some(args) => {
                            if args.len() <= 255 {
                                let k: u8 = args.len() as u8;
                                assert(sv.0->0.len() == args@.len());
                                fn_policies.0.insert(function.clone(), FnPolicy::Args(k));
                            }
                        },
                        None => {},
                    }
                },
                None => {
                    fn_policies.0.insert(function.clone(), FnPolicy::Allow);
                },
            }
            i = i + 1;
        }
        assert(es.take(n as int) =~= es);
        Ok(fn_policies)
    }
}

/// A policy built for some selected functions treats all of them alike:
/// allowing (or denying) the selected ones of a list that has some gives a
/// policy of which `is_allow_*` (or `is_deny_*`) for that selection holds.
pub proof fn lemma_named_policies_uniform(names: Seq<Seq<char>>, which: u8, p: FnPolicy, k: Seq<char>)
    requires
        names.contains(k),
        selected(which, k),
    ensures
        all_selected_are(named_policies(names, which, p), which, p),
{
    let m = named_policies(names, which, p);
    assert(m.dom().subset_of(names.to_set()));
    vstd::seq_lib::seq_to_set_is_finite(names);
    vstd::set_lib::lemma_len_subset(m.dom(), names.to_set());
    assert(m.dom().contains(k));
    vstd::set::axiom_set_contains_len(m.dom(), k);
}

/// Allowing all of a non-empty list of functions is not denying all of them.
pub proof fn lemma_allow_all_not_deny_all(names: Seq<Seq<char>>)
    requires
        names.len() > 0,
    ensures
        all_selected_are(named_policies(names, 0, FnPolicy::Allow), 0, FnPolicy::Allow),
        !all_selected_are(named_policies(names, 0, FnPolicy::Allow), 0, FnPolicy::Deny),
{
    assert(names.contains(names[0]));
    lemma_named_policies_uniform(names, 0, FnPolicy::Allow, names[0]);
    let m = named_policies(names, 0, FnPolicy::Allow);
    assert(m.contains_key(names[0]) && selected(0, names[0]));
}

/// Merging with no policies changes nothing, and merging a policy map
/// with itself gives it back.
pub proof fn lemma_merge_neutral_idempotent(m: Map<Seq<char>, FnPolicy>)
    ensures
        m.union_prefer_right(Map::empty()) == m,
        Map::<Seq<char>, FnPolicy>::empty().union_prefer_right(m) == m,
        m.union_prefer_right(m) == m,
{
    assert(m.union_prefer_right(Map::empty()) =~= m);
    assert(Map::<Seq<char>, FnPolicy>::empty().union_prefer_right(m) =~= m);
    assert(m.union_prefer_right(m) =~= m);
}

} // verus!
