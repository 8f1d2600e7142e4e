//! Values of the policy language (literals) and the list-as-set operations
//! on them.

use vstd::prelude::*;
use crate::text::str_eq;
use crate::labels::{Label, NodeV, label_eq};
use crate::parser::{PolicyRegex, PatV};
use crate::types::{FlatTyp, Typ, TypV, flat_t, ret_t, types_view};
use crate::strmap::Dup;
use crate::netvals::{IpAddr, ID, Connection, HttpRequest, HttpResponse, IdV, ConnV, ReqV, ResV, id_eq, conn_eq, req_eq, res_eq};

verus! {

/// HTTP methods.
#[derive(Clone, Copy, Debug, PartialEq, Eq, Structural)]
pub enum Method {
    GET,
    POST,
    PUT,
    DELETE,
    HEAD,
    OPTIONS,
    CONNECT,
    PATCH,
    TRACE,
}

/// The name of a method.
pub open spec fn method_text(m: Method) -> Seq<char> {
    match m {
        Method::GET => "GET"@,
        Method::POST => "POST"@,
        Method::PUT => "PUT"@,
        Method::DELETE => "DELETE"@,
        Method::HEAD => "HEAD"@,
        Method::OPTIONS => "OPTIONS"@,
        Method::CONNECT => "CONNECT"@,
        Method::PATCH => "PATCH"@,
        Method::TRACE => "TRACE"@,
    }
}

/// Reading a method's name (exactly, in capitals).
pub open spec fn method_parse(s: Seq<char>) -> Option<Method> {
    if s == "GET"@ { Some(Method::GET) }
    else if s == "POST"@ { Some(Method::POST) }
    else if s == "PUT"@ { Some(Method::PUT) }
    else if s == "DELETE"@ { Some(Method::DELETE) }
    else if s == "HEAD"@ { Some(Method::HEAD) }
    else if s == "OPTIONS"@ { Some(Method::OPTIONS) }
    else if s == "CONNECT"@ { Some(Method::CONNECT) }
    else if s == "PATCH"@ { Some(Method::PATCH) }
    else if s == "TRACE"@ { Some(Method::TRACE) }
    else { None }
}

impl Method {
    /// Reads a method's name.
    pub fn from_str(s: &str) -> (r: Result<Method, ()>)
        ensures
            match r {
                Ok(m) => method_parse(s@) == Some(m),
                Err(()) => method_parse(s@) is None,
            },
    {
        if str_eq(s, "GET") { Ok(Method::GET) }
        else if str_eq(s, "POST") { Ok(Method::POST) }
        else if str_eq(s, "PUT") { Ok(Method::PUT) }
        else if str_eq(s, "DELETE") { Ok(Method::DELETE) }
        else if str_eq(s, "HEAD") { Ok(Method::HEAD) }
        else if str_eq(s, "OPTIONS") { Ok(Method::OPTIONS) }
        else if str_eq(s, "CONNECT") { Ok(Method::CONNECT) }
        else if str_eq(s, "PATCH") { Ok(Method::PATCH) }
        else if str_eq(s, "TRACE") { Ok(Method::TRACE) }
        else { Err(()) }
    }

    /// The method's name.
    pub fn to_string(&self) -> (s: String)
        ensures
            s@ == method_text(*self),
    {
        match self {
            Method::GET => "GET".to_owned(),
            Method::POST => "POST".to_owned(),
            Method::PUT => "PUT".to_owned(),
            Method::DELETE => "DELETE".to_owned(),
            Method::HEAD => "HEAD".to_owned(),
            Method::OPTIONS => "OPTIONS".to_owned(),
            Method::CONNECT => "CONNECT".to_owned(),
            Method::PATCH => "PATCH".to_owned(),
            Method::TRACE => "TRACE".to_owned(),
        }
    }
}

impl Default for Method {
    /// `GET`.
    fn default() -> (m: Self)
        ensures
            m == Method::GET,
    {
        Method::GET
    }
}

/// HTTP versions.
#[allow(non_camel_case_types)]
#[derive(Clone, Copy, Debug, PartialEq, Eq, Structural)]
pub enum Version {
    HTTP_09,
    HTTP_10,
    HTTP_11,
    HTTP_20,
}

/// How a version is printed.
pub open spec fn version_text(v: Version) -> Seq<char> {
    match v {
        Version::HTTP_09 => "HTTP/0.9"@,
        Version::HTTP_10 => "HTTP/1.0"@,
        Version::HTTP_11 => "HTTP/1.1"@,
        Version::HTTP_20 => "HTTP/2.0"@,
    }
}

/// Reading a version, in either of its two spellings.
pub open spec fn version_parse(s: Seq<char>) -> Option<Version> {
    if s == "HTTP/0.9"@ || s == "HTTP_09"@ { Some(Version::HTTP_09) }
    else if s == "HTTP/1.0"@ || s == "HTTP_10"@ { Some(Version::HTTP_10) }
    else if s == "HTTP/1.1"@ || s == "HTTP_11"@ { Some(Version::HTTP_11) }
    else if s == "HTTP/2.0"@ || s == "HTTP_20"@ { Some(Version::HTTP_20) }
    else { None }
}

impl Version {
    /// Reads a version.
    pub fn from_str(s: &str) -> (r: Result<Version, ()>)
        ensures
            match r {
                Ok(v) => version_parse(s@) == Some(v),
                Err(()) => version_parse(s@) is None,
            },
    {
        if str_eq(s, "HTTP/0.9") || str_eq(s, "HTTP_09") { Ok(Version::HTTP_09) }
        else if str_eq(s, "HTTP/1.0") || str_eq(s, "HTTP_10") { Ok(Version::HTTP_10) }
        else if str_eq(s, "HTTP/1.1") || str_eq(s, "HTTP_11") { Ok(Version::HTTP_11) }
        else if str_eq(s, "HTTP/2.0") || str_eq(s, "HTTP_20") { Ok(Version::HTTP_20) }
        else { Err(()) }
    }

    /// The version printed.
    pub fn to_string(&self) -> (s: String)
        ensures
            s@ == version_text(*self),
    {
        match self {
            Version::HTTP_09 => "HTTP/0.9".to_owned(),
            Version::HTTP_10 => "HTTP/1.0".to_owned(),
            Version::HTTP_11 => "HTTP/1.1".to_owned(),
            Version::HTTP_20 => "HTTP/2.0".to_owned(),
        }
    }
}

impl Default for Version {
    /// HTTP/1.1.
    fn default() -> (v: Self)
        ensures
            v == Version::HTTP_11,
    {
        Version::HTTP_11
    }
}

/// What a service gives when it asks to be onboarded.
#[derive(Debug)]
pub struct OnboardingData {
    pub service_name: String,
}

impl OnboardingData {
    /// Onboarding data for the named service.
    pub fn new(service_name: String) -> (d: OnboardingData)
        ensures
            d.service_name@ == service_name@,
    {
        OnboardingData { service_name }
    }
}

/// The answer to an onboarding request.
#[derive(Debug)]
pub struct OnboardingResult {}

/// Flat values.
#[derive(Debug)]
pub enum FlatLiteral {
    Bool(bool),
    Connection(Connection),
    Data(Vec<u8>),
    HttpRequest(Box<HttpRequest>),
    HttpResponse(Box<HttpResponse>),
    ID(ID),
    IpAddr(IpAddr),
    Int(i64),
    Label(Label),
    Regex(PolicyRegex),
    Str(String),
    Unit,
}

/// Model of a flat value; a regular expression by its pattern and the
/// source of its compiled expression.
pub enum FlatLitV {
    Bool(bool),
    Connection(ConnV),
    Data(Seq<u8>),
    HttpRequest(ReqV),
    HttpResponse(ResV),
    ID(IdV),
    IpAddr(IpAddr),
    Int(i64),
    Label(Seq<NodeV>),
    Regex(PatV, Seq<char>),
    Str(Seq<char>),
    Unit,
}

impl View for FlatLiteral {
    type V = FlatLitV;

    open spec fn view(&self) -> FlatLitV {
        match self {
            FlatLiteral::Bool(b) => FlatLitV::Bool(*b),
            FlatLiteral::Connection(c) => FlatLitV::Connection(c@),
            FlatLiteral::Data(d) => FlatLitV::Data(d@),
            FlatLiteral::HttpRequest(r) => FlatLitV::HttpRequest(r@),
            FlatLiteral::HttpResponse(r) => FlatLitV::HttpResponse(r@),
            FlatLiteral::ID(i) => FlatLitV::ID(i@),
            FlatLiteral::IpAddr(i) => FlatLitV::IpAddr(*i),
            FlatLiteral::Int(i) => FlatLitV::Int(*i),
            FlatLiteral::Label(l) => FlatLitV::Label(l@),
            FlatLiteral::Regex(r) => FlatLitV::Regex(r.0@, r.1.source()),
            FlatLiteral::Str(s) => FlatLitV::Str(s@),
            FlatLiteral::Unit => FlatLitV::Unit,
        }
    }
}

/// Equality of flat values: labels are equal when each matches the other,
/// regular expressions when their patterns are equal, network values part
/// by part (labels within as above).
pub open spec fn flat_eq(a: FlatLitV, b: FlatLitV) -> bool {
    match (a, b) {
        (FlatLitV::Label(x), FlatLitV::Label(y)) => label_eq(x, y),
        (FlatLitV::Regex(x, _), FlatLitV::Regex(y, _)) => x == y,
        (FlatLitV::ID(x), FlatLitV::ID(y)) => id_eq(x, y),
        (FlatLitV::Connection(x), FlatLitV::Connection(y)) => conn_eq(x, y),
        (FlatLitV::HttpRequest(x), FlatLitV::HttpRequest(y)) => req_eq(x, y),
        (FlatLitV::HttpResponse(x), FlatLitV::HttpResponse(y)) => res_eq(x, y),
        _ => a == b,
    }
}

/// The type of a flat value.
pub open spec fn flat_lit_typ(a: FlatLitV) -> FlatTyp {
    match a {
        FlatLitV::Bool(_) => FlatTyp::Bool,
        FlatLitV::Connection(_) => FlatTyp::Connection,
        FlatLitV::Data(_) => FlatTyp::Data,
        FlatLitV::HttpRequest(_) => FlatTyp::HttpRequest,
        FlatLitV::HttpResponse(_) => FlatTyp::HttpResponse,
        FlatLitV::ID(_) => FlatTyp::ID,
        FlatLitV::IpAddr(_) => FlatTyp::IpAddr,
        FlatLitV::Int(_) => FlatTyp::I64,
        FlatLitV::Label(_) => FlatTyp::Label,
        FlatLitV::Regex(_, _) => FlatTyp::Regex,
        FlatLitV::Str(_) => FlatTyp::Str,
        FlatLitV::Unit => FlatTyp::Unit,
    }
}

pub(crate) fn bytes_eq(a: &Vec<u8>, b: &Vec<u8>) -> (r: bool)
    ensures
        r == (a@ == b@),
{
    if a.len() != b.len() {
        return false;
    }
    let mut i: usize = 0;
    while i < a.len()
        invariant
            i <= a@.len(),
            a@.len() == b@.len(),
            forall|j: int| 0 <= j < i ==> a@[j] == b@[j],
        decreases a.len() - i,
    {
        if a[i] != b[i] {
            return false;
        }
        i = i + 1;
    }
    assert(a@ =~= b@);
    true
}

pub(crate) fn bytes_dup(a: &Vec<u8>) -> (r: Vec<u8>)
    ensures
        r@ == a@,
{
    let mut out: Vec<u8> = Vec::new();
    let mut i: usize = 0;
    while i < a.len()
        invariant
            i <= a@.len(),
            out@ == a@.take(i as int),
        decreases a.len() - i,
    {
        out.push(a[i]);
        assert(a@.take(i + 1) =~= a@.take(i as int).push(a@[i as int]));
        i = i + 1;
    }
    assert(a@.take(a@.len() as int) =~= a@);
    out
}

impl FlatLiteral {
    /// Equality of flat values (see `flat_eq`).
    pub fn eq_lit(&self, other: &FlatLiteral) -> (b: bool)
        ensures
            b == flat_eq(self@, other@),
    {
        match (self, other) {
            (FlatLiteral::Bool(x), FlatLiteral::Bool(y)) => *x == *y,
            (FlatLiteral::Data(x), FlatLiteral::Data(y)) => bytes_eq(x, y),
            (FlatLiteral::Int(x), FlatLiteral::Int(y)) => *x == *y,
            (FlatLiteral::Label(x), FlatLiteral::Label(y)) => x.matches_with(y) && y.matches_with(x),
            (FlatLiteral::Regex(x), FlatLiteral::Regex(y)) => x.same(y),
            (FlatLiteral::Str(x), FlatLiteral::Str(y)) => str_eq(x.as_str(), y.as_str()),
            (FlatLiteral::Unit, FlatLiteral::Unit) => true,
            (FlatLiteral::Connection(x), FlatLiteral::Connection(y)) => x.same(y),
            (FlatLiteral::HttpRequest(x), FlatLiteral::HttpRequest(y)) => x.same(y),
            (FlatLiteral::HttpResponse(x), FlatLiteral::HttpResponse(y)) => x.same(y),
            (FlatLiteral::ID(x), FlatLiteral::ID(y)) => x.same(y),
            (FlatLiteral::IpAddr(x), FlatLiteral::IpAddr(y)) => *x == *y,
            _ => false,
        }
    }

    /// The type of the value.
    pub fn typ(&self) -> (t: FlatTyp)
        ensures
            t == flat_lit_typ(self@),
    {
        match self {
            FlatLiteral::Bool(_) => FlatTyp::Bool,
            FlatLiteral::Connection(_) => FlatTyp::Connection,
            FlatLiteral::Data(_) => FlatTyp::Data,
            FlatLiteral::HttpRequest(_) => FlatTyp::HttpRequest,
            FlatLiteral::HttpResponse(_) => FlatTyp::HttpResponse,
            FlatLiteral::ID(_) => FlatTyp::ID,
            FlatLiteral::IpAddr(_) => FlatTyp::IpAddr,
            FlatLiteral::Int(_) => FlatTyp::I64,
            FlatLiteral::Label(_) => FlatTyp::Label,
            FlatLiteral::Regex(_) => FlatTyp::Regex,
            FlatLiteral::Str(_) => FlatTyp::Str,
            FlatLiteral::Unit => FlatTyp::Unit,
        }
    }

    /// A copy of the value.
    pub fn dup(&self) -> (r: FlatLiteral)
        ensures
            r@ == self@,
    {
        match self {
            FlatLiteral::Bool(b) => FlatLiteral::Bool(*b),
            FlatLiteral::Connection(c) => FlatLiteral::Connection(c.dup()),
            FlatLiteral::Data(d) => FlatLiteral::Data(bytes_dup(d)),
            FlatLiteral::HttpRequest(r) => FlatLiteral::HttpRequest(Box::new((**r).dup())),
            FlatLiteral::HttpResponse(r) => FlatLiteral::HttpResponse(Box::new((**r).dup())),
            FlatLiteral::ID(i) => FlatLiteral::ID(i.dup()),
            FlatLiteral::IpAddr(i) => FlatLiteral::IpAddr(*i),
            FlatLiteral::Int(i) => FlatLiteral::Int(*i),
            FlatLiteral::Label(l) => FlatLiteral::Label(l.dup()),
            FlatLiteral::Regex(r) => FlatLiteral::Regex(r.dup()),
            FlatLiteral::Str(s) => FlatLiteral::Str(s.clone()),
            FlatLiteral::Unit => FlatLiteral::Unit,
        }
    }
}

/// Values: flat ones, lists, and tuples (tuples of length 0 and 1 stand
/// for options).
#[derive(Debug)]
pub enum Literal {
    FlatLiteral(FlatLiteral),
    List(Vec<Literal>),
    Tuple(Vec<Literal>),
}

/// Model of a value.
pub enum LitV {
    Flat(FlatLitV),
    List(Seq<LitV>),
    Tuple(Seq<LitV>),
}

/// Model of a value, part by part.
pub open spec fn lit_view(l: Literal) -> LitV
    decreases l,
{
    match l {
        Literal::FlatLiteral(f) => LitV::Flat(f@),
        Literal::List(v) => LitV::List(lits_view(v@)),
        Literal::Tuple(v) => LitV::Tuple(lits_view(v@)),
    }
}

/// Models of a list of values.
pub open spec fn lits_view(s: Seq<Literal>) -> Seq<LitV>
    decreases s,
{
    if s.len() == 0 { Seq::empty() } else { seq![lit_view(s[0])] + lits_view(s.subrange(1, s.len() as int)) }
}

impl View for Literal {
    type V = LitV;

    open spec fn view(&self) -> LitV {
        lit_view(*self)
    }
}

/// The models of a list, one by one.
pub proof fn lemma_lits_view_index(s: Seq<Literal>, k: int)
    requires
        0 <= k < s.len(),
    ensures
        lits_view(s).len() == s.len(),
        lits_view(s)[k] == lit_view(s[k]),
    decreases s.len(),
{
    let t = s.subrange(1, s.len() as int);
    if k > 0 {
        lemma_lits_view_index(t, k - 1);
    } else if t.len() > 0 {
        lemma_lits_view_index(t, 0);
    } else {
        assert(lits_view(t) =~= Seq::<LitV>::empty());
    }
}

/// A list has as many models as values.
pub proof fn lemma_lits_view_len(s: Seq<Literal>)
    ensures
        lits_view(s).len() == s.len(),
    decreases s.len(),
{
    if s.len() > 0 {
        lemma_lits_view_len(s.subrange(1, s.len() as int));
    }
}

/// The models of a list are those of its values.
pub proof fn lemma_lits_view_from(s: Seq<Literal>, m: Seq<LitV>)
    requires
        s.len() == m.len(),
        forall|k: int| 0 <= k < s.len() ==> lit_view(#[trigger] s[k]) == m[k],
    ensures
        lits_view(s) == m,
{
    lemma_lits_view_len(s);
    assert forall|k: int| 0 <= k < s.len() implies lits_view(s)[k] == m[k] by {
        lemma_lits_view_index(s, k);
    }
    assert(lits_view(s) =~= m);
}

/// Equality of values, part by part (flat values by `flat_eq`).
pub open spec fn lit_eq(a: LitV, b: LitV) -> bool
    decreases a,
{
    match (a, b) {
        (LitV::Flat(x), LitV::Flat(y)) => flat_eq(x, y),
        (LitV::List(x), LitV::List(y)) => lits_eq(x, y),
        (LitV::Tuple(x), LitV::Tuple(y)) => lits_eq(x, y),
        _ => false,
    }
}

/// Equality of lists of values, element by element.
pub open spec fn lits_eq(s: Seq<LitV>, t: Seq<LitV>) -> bool
    decreases s,
{
    if s.len() == 0 {
        t.len() == 0
    } else {
        t.len() > 0 && lit_eq(s[0], t[0]) && lits_eq(s.subrange(1, s.len() as int), t.subrange(1, t.len() as int))
    }
}

/// The type of a value: a list has the type of its first element (or of
/// `return` when empty), a tuple the tuple of its elements' types.
pub open spec fn lit_typ(l: LitV) -> TypV<FlatTyp>
    decreases l,
{
    match l {
        LitV::Flat(f) => TypV::Flat(flat_lit_typ(f)),
        LitV::List(v) => if v.len() > 0 { lit_typ(v[0]) } else { ret_t::<FlatTyp>() },
        LitV::Tuple(v) => TypV::Tuple(lits_typ(v)),
    }
}

/// The types of a list of values.
pub open spec fn lits_typ(s: Seq<LitV>) -> Seq<TypV<FlatTyp>>
    decreases s,
{
    if s.len() == 0 { Seq::empty() } else { seq![lit_typ(s[0])] + lits_typ(s.subrange(1, s.len() as int)) }
}

/// `x` is equal to some element of `l`.
pub open spec fn lit_mem(l: Seq<LitV>, x: LitV) -> bool {
    exists|i: int| 0 <= i < l.len() && lit_eq(x, #[trigger] l[i])
}

/// The elements of `x` that are (`keep`) or are not in `y`, in order.
pub open spec fn lit_filter(x: Seq<LitV>, y: Seq<LitV>, keep: bool) -> Seq<LitV>
    decreases x.len(),
{
    if x.len() == 0 {
        Seq::empty()
    } else {
        let rest = lit_filter(x.drop_last(), y, keep);
        if lit_mem(y, x.last()) == keep { rest.push(x.last()) } else { rest }
    }
}

/// The set operations on lists agree with each other: the difference and
/// the intersection of `x` with `y` split `x` (every element of `x` goes to
/// exactly one of them, order kept), each element of the intersection is
/// in `y` and none of the difference is; `x` is disjoint from `y` exactly
/// when the intersection is empty, and a subset of `y` exactly when the
/// difference is empty.
pub proof fn lemma_difference_intersection(x: Seq<LitV>, y: Seq<LitV>)
    ensures
        lit_filter(x, y, false).len() + lit_filter(x, y, true).len() == x.len(),
        forall|k: int| 0 <= k < lit_filter(x, y, true).len() ==> lit_mem(y, #[trigger] lit_filter(x, y, true)[k]),
        forall|k: int| 0 <= k < lit_filter(x, y, false).len() ==> !lit_mem(y, #[trigger] lit_filter(x, y, false)[k]),
        (lit_filter(x, y, true).len() == 0) == !(exists|i: int| 0 <= i < x.len() && lit_mem(y, #[trigger] x[i])),
        (lit_filter(x, y, false).len() == 0) == (forall|i: int| 0 <= i < x.len() ==> lit_mem(y, #[trigger] x[i])),
    decreases x.len(),
{
    if x.len() > 0 {
        let d = x.drop_last();
        lemma_difference_intersection(d, y);
        assert forall|i: int| 0 <= i < d.len() implies #[trigger] d[i] == x[i] by {}
        if lit_mem(y, x.last()) {
            assert(x[x.len() - 1] == x.last());
            if lit_filter(x, y, false).len() == 0 {
                assert forall|i: int| 0 <= i < x.len() implies lit_mem(y, #[trigger] x[i]) by {
                    if i < d.len() {
                        assert(d[i] == x[i]);
                    }
                }
            }
        } else {
            assert(x[x.len() - 1] == x.last());
            if lit_filter(x, y, true).len() == 0 {
                assert forall|i: int| 0 <= i < x.len() implies !lit_mem(y, #[trigger] x[i]) by {
                    if i < d.len() {
                        assert(d[i] == x[i]);
                    }
                }
            }
        }
    }
}

impl Dup for Literal {
    fn dup(&self) -> (r: Self) {
        Literal::dup(self)
    }
}

impl Literal {
    /// A copy of the value.
    pub fn dup(&self) -> (r: Literal)
        ensures
            r@ == self@,
        decreases self,
    {
        match self {
            Literal::FlatLiteral(f) => Literal::FlatLiteral(f.dup()),
            Literal::List(v) => Literal::List(Literal::dup_all(v)),
            Literal::Tuple(v) => Literal::Tuple(Literal::dup_all(v)),
        }
    }

    fn dup_all(v: &Vec<Literal>) -> (r: Vec<Literal>)
        ensures
            lits_view(r@) == lits_view(v@),
            r@.len() == v@.len(),
        decreases v,
    {
        let mut out: Vec<Literal> = Vec::new();
        let mut i: usize = 0;
        while i < v.len()
            invariant
                i <= v@.len(),
                out@.len() == i,
                forall|j: int| 0 <= j < i ==> lit_view(#[trigger] out@[j]) == lit_view(v@[j]),
            decreases v.len() - i,
        {
            proof { vstd::std_specs::vec::axiom_vec_index_decreases(*v, i as int); }
            out.push(v[i].dup());
            i = i + 1;
        }
        proof {
            lemma_lits_view_len(v@);
            assert forall|k: int| 0 <= k < v@.len() implies lit_view(#[trigger] out@[k]) == lits_view(v@)[k] by {
                lemma_lits_view_index(v@, k);
            }
            lemma_lits_view_from(out@, lits_view(v@));
        }
        out
    }

    /// Equality of values (see `lit_eq`).
    pub fn eq_lit(&self, other: &Literal) -> (b: bool)
        ensures
            b == lit_eq(self@, other@),
        decreases self,
    {
        match (self, other) {
            (Literal::FlatLiteral(x), Literal::FlatLiteral(y)) => x.eq_lit(y),
            (Literal::List(x), Literal::List(y)) => Literal::eq_all(x, y),
            (Literal::Tuple(x), Literal::Tuple(y)) => Literal::eq_all(x, y),
            _ => false,
        }
    }

    fn eq_all(x: &Vec<Literal>, y: &Vec<Literal>) -> (b: bool)
        ensures
            b == lits_eq(lits_view(x@), lits_view(y@)),
        decreases x,
    {
        let n = x.len();
        let m = y.len();
        let mut i: usize = 0;
        proof {
            assert(x@.subrange(0, n as int) =~= x@);
            assert(y@.subrange(0, m as int) =~= y@);
        }
        while i < n && i < m
            invariant
                i <= n,
                i <= m,
                n == x@.len(),
                m == y@.len(),
                lits_eq(lits_view(x@), lits_view(y@))
                    == lits_eq(lits_view(x@.subrange(i as int, n as int)), lits_view(y@.subrange(i as int, m as int))),
            decreases n - i,
        {
            let ghost (rx, ry) = (x@.subrange(i as int, n as int), y@.subrange(i as int, m as int));
            proof {
                vstd::std_specs::vec::axiom_vec_index_decreases(*x, i as int);
                let (vx, vy) = (lits_view(rx), lits_view(ry));
                assert(rx[0] == x@[i as int] && ry[0] == y@[i as int]);
                assert(rx.subrange(1, rx.len() as int) =~= x@.subrange(i + 1, n as int));
                assert(ry.subrange(1, ry.len() as int) =~= y@.subrange(i + 1, m as int));
                assert(vx.subrange(1, vx.len() as int) =~= lits_view(x@.subrange(i + 1, n as int)));
                assert(vy.subrange(1, vy.len() as int) =~= lits_view(y@.subrange(i + 1, m as int)));
            }
            if !x[i].eq_lit(&y[i]) {
                return false;
            }
            i = i + 1;
        }
        proof {
            lemma_lits_view_len(x@.subrange(i as int, n as int));
            lemma_lits_view_len(y@.subrange(i as int, m as int));
        }
        i == n && i == m
    }

    /// A Boolean.
    pub fn bool(b: bool) -> (l: Literal)
        ensures
            l@ == LitV::Flat(FlatLitV::Bool(b)),
    {
        Literal::FlatLiteral(FlatLiteral::Bool(b))
    }

    /// An integer.
    pub fn integer(i: i64) -> (l: Literal)
        ensures
            l@ == LitV::Flat(FlatLitV::Int(i)),
    {
        Literal::FlatLiteral(FlatLiteral::Int(i))
    }

    /// A string.
    pub fn str(s: String) -> (l: Literal)
        ensures
            l@ == LitV::Flat(FlatLitV::Str(s@)),
    {
        Literal::FlatLiteral(FlatLiteral::Str(s))
    }

    /// Data.
    pub fn data(v: Vec<u8>) -> (l: Literal)
        ensures
            l@ == LitV::Flat(FlatLitV::Data(v@)),
    {
        Literal::FlatLiteral(FlatLiteral::Data(v))
    }

    /// A label.
    pub fn label(l: Label) -> (r: Literal)
        ensures
            r@ == LitV::Flat(FlatLitV::Label(l@)),
    {
        Literal::FlatLiteral(FlatLiteral::Label(l))
    }

    /// A regular expression.
    pub fn regex(r: PolicyRegex) -> (l: Literal)
        ensures
            l@ == LitV::Flat(FlatLitV::Regex(r.0@, r.1.source())),
    {
        Literal::FlatLiteral(FlatLiteral::Regex(r))
    }

    /// The unit value.
    pub fn unit() -> (l: Literal)
        ensures
            l@ == LitV::Flat(FlatLitV::Unit),
    {
        Literal::FlatLiteral(FlatLiteral::Unit)
    }

    /// Whether this is the unit value.
    pub fn is_unit(&self) -> (b: bool)
        ensures
            b == (self@ == LitV::Flat(FlatLitV::Unit)),
    {
        match self {
            Literal::FlatLiteral(FlatLiteral::Unit) => true,
            _ => false,
        }
    }

    /// Whether this is a tuple.
    pub fn is_tuple(&self) -> (b: bool)
        ensures
            b == self@ is Tuple,
    {
        match self {
            Literal::Tuple(_) => true,
            _ => false,
        }
    }

    /// The empty option.
    pub fn none() -> (l: Literal)
        ensures
            l@ == LitV::Tuple(Seq::empty()),
    {
        let l = Literal::Tuple(Vec::new());
        assert(lits_view(Seq::<Literal>::empty()) =~= Seq::<LitV>::empty());
        l
    }

    /// The option holding a copy of this value.
    pub fn some(&self) -> (l: Literal)
        ensures
            l@ == LitV::Tuple(seq![self@]),
    {
        let mut v: Vec<Literal> = Vec::new();
        v.push(self.dup());
        proof { lemma_lits_view_from(v@, seq![self@]); }
        Literal::Tuple(v)
    }

    /// The content of an option holding one value.
    pub fn dest_some(&self) -> (r: Option<Literal>)
        ensures
            match r {
                Some(x) => self@ is Tuple && self@->Tuple_0.len() == 1 && x@ == self@->Tuple_0[0],
                None => !(self@ is Tuple && self@->Tuple_0.len() == 1),
            },
    {
        match self {
            Literal::Tuple(v) => {
                proof { lemma_lits_view_len(v@); }
                if v.len() == 1 {
                    proof { lemma_lits_view_index(v@, 0); }
                    Some(v[0].dup())
                } else {
                    None
                }
            },
            _ => None,
        }
    }

    /// The Boolean held; only for Booleans.
    pub fn get_bool(&self) -> (b: bool)
        requires
            self@ is Flat && self@->Flat_0 is Bool,
        ensures
            self@ == LitV::Flat(FlatLitV::Bool(b)),
    {
        match self {
            Literal::FlatLiteral(FlatLiteral::Bool(b)) => *b,
            _ => false,
        }
    }

    /// The type of the value (see `lit_typ`).
    #[verifier::loop_isolation(false)]
    pub fn typ(&self) -> (t: Typ<FlatTyp>)
        ensures
            t@ == lit_typ(self@),
        decreases self,
    {
        match self {
            Literal::FlatLiteral(f) => Typ::FlatTyp(f.typ()),
            Literal::List(v) => {
                proof { lemma_lits_view_len(v@); }
                if v.len() > 0 {
                    proof {
                        lemma_lits_view_index(v@, 0);
                        vstd::std_specs::vec::axiom_vec_index_decreases(*v, 0);
                    }
                    v[0].typ()
                } else {
                    Typ::rreturn()
                }
            },
            Literal::Tuple(v) => {
                let mut ts: Vec<Typ<FlatTyp>> = Vec::new();
                let mut i: usize = 0;
                while i < v.len()
                    invariant
                        i <= v@.len(),
                        ts@.len() == i,
                        forall|j: int| 0 <= j < i ==> (#[trigger] ts@[j])@ == lit_typ(lit_view(v@[j])),
                    decreases v.len() - i,
                {
                    proof { vstd::std_specs::vec::axiom_vec_index_decreases(*v, i as int); }
                    ts.push(v[i].typ());
                    i = i + 1;
                }
                proof { lemma_lits_typ(v@, ts@); }
                Typ::tuple(ts)
            },
        }
    }
}

/// The types of a list are those of its values.
proof fn lemma_lits_typ(s: Seq<Literal>, ts: Seq<Typ<FlatTyp>>)
    requires
        s.len() == ts.len(),
        forall|j: int| 0 <= j < s.len() ==> (#[trigger] ts[j])@ == lit_typ(lit_view(s[j])),
    ensures
        ts.map_values(|t: Typ<FlatTyp>| t@) == lits_typ(lits_view(s)),
    decreases s.len(),
{
    if s.len() > 0 {
        let (t1, ts1) = (s.subrange(1, s.len() as int), ts.subrange(1, ts.len() as int));
        assert forall|j: int| 0 <= j < t1.len() implies (#[trigger] ts1[j])@ == lit_typ(lit_view(t1[j])) by {
            assert(ts1[j] == ts[j + 1] && t1[j] == s[j + 1]);
        }
        lemma_lits_typ(t1, ts1);
        let lv = lits_view(s);
        assert(lv[0] == lit_view(s[0]));
        assert(lv.subrange(1, lv.len() as int) =~= lits_view(t1));
        assert(ts.map_values(|t: Typ<FlatTyp>| t@) =~= lits_typ(lits_view(s)));
    } else {
        assert(ts.map_values(|t: Typ<FlatTyp>| t@) =~= lits_typ(lits_view(s)));
    }
}

/// Lists of values used as sets.
pub struct VecSet;

impl VecSet {
    fn mem(l: &[Literal], x: &Literal) -> (b: bool)
        ensures
            b == lit_mem(lits_view(l@), x@),
    {
        proof { lemma_lits_view_len(l@); }
        let mut i: usize = 0;
        while i < l.len()
            invariant
                i <= l@.len(),
                lits_view(l@).len() == l@.len(),
                forall|j: int| 0 <= j < i ==> !lit_eq(x@, #[trigger] lits_view(l@)[j]),
            decreases l.len() - i,
        {
            proof { lemma_lits_view_index(l@, i as int); }
            if x.eq_lit(&l[i]) {
                return true;
            }
            i = i + 1;
        }
        false
    }

    /// Whether `x` is in `l`.
    pub fn contains(l: &[Literal], x: &Literal) -> (r: Literal)
        ensures
            r@ == LitV::Flat(FlatLitV::Bool(lit_mem(lits_view(l@), x@))),
    {
        Literal::bool(VecSet::mem(l, x))
    }

    /// Whether every element of `x` is in `y`.
    pub fn is_subset(x: &[Literal], y: &[Literal]) -> (r: Literal)
        ensures
            r@ == LitV::Flat(FlatLitV::Bool(forall|i: int| 0 <= i < x@.len()
                ==> lit_mem(lits_view(y@), #[trigger] lits_view(x@)[i]))),
    {
        proof { lemma_lits_view_len(x@); }
        let mut i: usize = 0;
        while i < x.len()
            invariant
                i <= x@.len(),
                forall|j: int| 0 <= j < i ==> lit_mem(lits_view(y@), #[trigger] lits_view(x@)[j]),
            decreases x.len() - i,
        {
            proof { lemma_lits_view_index(x@, i as int); }
            if !VecSet::mem(y, &x[i]) {
                return Literal::bool(false);
            }
            i = i + 1;
        }
        Literal::bool(true)
    }

    /// Whether no element of `x` is in `y`.
    pub fn is_disjoint(x: &[Literal], y: &[Literal]) -> (r: Literal)
        ensures
            r@ == LitV::Flat(FlatLitV::Bool(!exists|i: int| 0 <= i < x@.len()
                && lit_mem(lits_view(y@), #[trigger] lits_view(x@)[i]))),
    {
        proof { lemma_lits_view_len(x@); }
        let mut i: usize = 0;
        while i < x.len()
            invariant
                i <= x@.len(),
                forall|j: int| 0 <= j < i ==> !lit_mem(lits_view(y@), #[trigger] lits_view(x@)[j]),
            decreases x.len() - i,
        {
            proof { lemma_lits_view_index(x@, i as int); }
            if VecSet::mem(y, &x[i]) {
                return Literal::bool(false);
            }
            i = i + 1;
        }
        Literal::bool(true)
    }

    fn filter(x: &[Literal], y: &[Literal], keep: bool) -> (r: Vec<Literal>)
        ensures
            lits_view(r@) == lit_filter(lits_view(x@), lits_view(y@), keep),
    {
        proof { lemma_lits_view_len(x@); }
        let ghost xs = lits_view(x@);
        let mut out: Vec<Literal> = Vec::new();
        let mut i: usize = 0;
        assert(xs.take(0) =~= Seq::<LitV>::empty());
        proof { lemma_lits_view_from(out@, Seq::empty()); }
        while i < x.len()
            invariant
                i <= x@.len(),
                xs == lits_view(x@),
                xs.len() == x@.len(),
                lits_view(out@) == lit_filter(xs.take(i as int), lits_view(y@), keep),
            decreases x.len() - i,
        {
            proof { lemma_lits_view_index(x@, i as int); }
            let ghost before = out@;
            assert(xs.take(i + 1).drop_last() =~= xs.take(i as int));
            assert(xs.take(i + 1).last() == xs[i as int]);
            if VecSet::mem(y, &x[i]) == keep {
                let e = x[i].dup();
                out.push(e);
                proof {
                    lemma_lits_view_len(before);
                    assert forall|k: int| 0 <= k < out@.len() implies lit_view(#[trigger] out@[k])
                        == lits_view(before).push(xs[i as int])[k] by {
                        if k < before.len() {
                            lemma_lits_view_index(before, k);
                            assert(out@[k] == before[k]);
                        }
                    }
                    lemma_lits_view_from(out@, lits_view(before).push(xs[i as int]));
                }
            }
            i = i + 1;
        }
        assert(xs.take(x@.len() as int) =~= xs);
        out
    }

    /// The elements of `x` that are not in `y`.
    pub fn difference(x: &[Literal], y: &[Literal]) -> (r: Literal)
        ensures
            r@ == LitV::List(lit_filter(lits_view(x@), lits_view(y@), false)),
    {
        Literal::List(VecSet::filter(x, y, false))
    }

    /// The elements of `x` that are in `y`.
    pub fn intersection(x: &[Literal], y: &[Literal]) -> (r: Literal)
        ensures
            r@ == LitV::List(lit_filter(lits_view(x@), lits_view(y@), true)),
    {
        Literal::List(VecSet::filter(x, y, true))
    }
}

} // verus!
