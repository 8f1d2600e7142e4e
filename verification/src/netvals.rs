//! The network values of the policy language: IP addresses, endpoint
//! identities (`ID`), connections, HTTP requests and responses with their
//! header maps, and the built-in functions on them.
//!
//! Sets are kept as ordered maps: the names of an identity by themselves,
//! its addresses by their four octets, its labels by `label_key`, so that
//! they are listed in order.

use vstd::prelude::*;
use crate::strmap::{StrMap, Dup, sorted_entries};
use crate::labels::{Label, NodeV, label_key, label_eq, match_spec, trim_start, trim_end, trim_chars_start, trim_chars_end};
use crate::literals::{Literal, FlatLiteral, LitV, FlatLitV, Method, Version, lemma_lits_view_from, bytes_dup, bytes_eq};
use crate::interpret::{str_v, int_v, bool_v};
use crate::text::{string_push, str_eq, chars_of, string_from_chars};

verus! {

// ------------------------------------------------------------ addresses

/// An IPv4 address.
#[derive(Clone, Copy, Debug, PartialEq, Eq, Structural)]
pub struct IpAddr {
    pub a: u8,
    pub b: u8,
    pub c: u8,
    pub d: u8,
}

impl View for IpAddr {
    type V = IpAddr;

    open spec fn view(&self) -> IpAddr {
        *self
    }
}

impl Dup for IpAddr {
    fn dup(&self) -> (r: IpAddr) {
        *self
    }
}

impl Dup for bool {
    fn dup(&self) -> (r: bool) {
        *self
    }
}

impl Dup for Label {
    fn dup(&self) -> (r: Label) {
        Label::dup(self)
    }
}

/// The key by which an address is ordered: its four octets.
pub open spec fn ip_key(ip: IpAddr) -> Seq<char> {
    seq![ip.a as char, ip.b as char, ip.c as char, ip.d as char]
}

impl IpAddr {
    /// `127.0.0.1`.
    pub fn localhost() -> (r: IpAddr)
        ensures
            r == (IpAddr { a: 127, b: 0, c: 0, d: 1 }),
    {
        IpAddr { a: 127, b: 0, c: 0, d: 1 }
    }

    /// The key of the address (see `ip_key`).
    pub fn key(&self) -> (s: String)
        ensures
            s@ == ip_key(*self),
    {
        let mut s = String::new();
        string_push(&mut s, self.a as char);
        string_push(&mut s, self.b as char);
        string_push(&mut s, self.c as char);
        string_push(&mut s, self.d as char);
        assert(s@ =~= ip_key(*self));
        s
    }
}

/// The value of an address.
pub open spec fn ip_v(ip: IpAddr) -> LitV {
    LitV::Flat(FlatLitV::IpAddr(ip))
}

/// The octets of an address, as a tuple of integers.
pub open spec fn octets_v(ip: IpAddr) -> LitV {
    LitV::Tuple(seq![int_v(ip.a as i64), int_v(ip.b as i64), int_v(ip.c as i64), int_v(ip.d as i64)])
}

// ------------------------------------------------------------ identities

/// Model of an identity: its names, addresses (by key), port and labels
/// (by key).
pub struct IdV {
    pub hosts: Map<Seq<char>, bool>,
    pub ips: Map<Seq<char>, IpAddr>,
    pub port: Option<u16>,
    pub labels: Map<Seq<char>, Seq<NodeV>>,
}

/// The identity of an endpoint: host names, IP addresses, a port and
/// labels.
#[derive(Debug)]
pub struct ID {
    hosts: StrMap<bool>,
    ips: StrMap<IpAddr>,
    port: Option<u16>,
    labels: StrMap<Label>,
}

impl View for ID {
    type V = IdV;

    closed spec fn view(&self) -> IdV {
        IdV { hosts: self.hosts.map(), ips: self.ips.map(), port: self.port, labels: self.labels.map() }
    }
}

/// The identity with nothing.
pub open spec fn empty_id() -> IdV {
    IdV { hosts: Map::empty(), ips: Map::empty(), port: None, labels: Map::empty() }
}

/// Equality of identities: the same names, addresses and port, and labels
/// that are equal one by one in order.
pub open spec fn id_eq(a: IdV, b: IdV) -> bool {
    let la = sorted_entries(a.labels);
    let lb = sorted_entries(b.labels);
    &&& a.hosts == b.hosts
    &&& a.ips == b.ips
    &&& a.port == b.port
    &&& la.len() == lb.len()
    &&& forall|i: int| 0 <= i < la.len() ==> label_eq(#[trigger] la[i].1, lb[i].1)
}

/// Whether one of the identity's labels is matched by the pattern `l`.
pub open spec fn id_has_label(v: IdV, l: Seq<NodeV>) -> bool {
    exists|k: Seq<char>| v.labels.contains_key(k) && match_spec(l, #[trigger] v.labels[k]) is Some
}

/// The port as an option.
pub open spec fn port_v(p: Option<u16>) -> LitV {
    match p {
        Some(x) => LitV::Tuple(seq![int_v(x as i64)]),
        None => LitV::Tuple(Seq::empty()),
    }
}

/// The names, in order.
pub open spec fn hosts_v(v: IdV) -> LitV {
    LitV::List(sorted_entries(v.hosts).map_values(|e: (Seq<char>, bool)| str_v(e.0)))
}

/// The addresses, in order.
pub open spec fn ips_v(v: IdV) -> LitV {
    LitV::List(sorted_entries(v.ips).map_values(|e: (Seq<char>, IpAddr)| ip_v(e.1)))
}

/// The labels, in order.
pub open spec fn labels_v(v: IdV) -> LitV {
    LitV::List(sorted_entries(v.labels).map_values(|e: (Seq<char>, Seq<NodeV>)| LitV::Flat(FlatLitV::Label(e.1))))
}

impl ID {
    /// The identity with nothing.
    pub fn new() -> (r: ID)
        ensures
            r@ == empty_id(),
    {
        ID { hosts: StrMap::new(), ips: StrMap::new(), port: None, labels: StrMap::new() }
    }

    /// A copy.
    pub fn dup(&self) -> (r: ID)
        ensures
            r@ == self@,
    {
        ID { hosts: self.hosts.dup(), ips: self.ips.dup(), port: self.port, labels: self.labels.dup() }
    }

    /// With one more name.
    pub fn add_host(&self, h: &str) -> (r: ID)
        ensures
            r@ == (IdV { hosts: self@.hosts.insert(h@, true), ..self@ }),
    {
        let mut r = self.dup();
        r.hosts.insert(h.to_owned(), true);
        r
    }

    /// With one more address.
    pub fn add_ip(&self, ip: IpAddr) -> (r: ID)
        ensures
            r@ == (IdV { ips: self@.ips.insert(ip_key(ip), ip), ..self@ }),
    {
        let mut r = self.dup();
        r.ips.insert(ip.key(), ip);
        r
    }

    /// With one more label.
    pub fn add_label(&self, l: &Label) -> (r: ID)
        ensures
            r@ == (IdV { labels: self@.labels.insert(label_key(l@), l@), ..self@ }),
    {
        let mut r = self.dup();
        r.labels.insert(l.key(), l.dup());
        r
    }

    /// With the given port.
    pub fn set_port(&self, p: u16) -> (r: ID)
        ensures
            r@ == (IdV { port: Some(p), ..self@ }),
    {
        let mut r = self.dup();
        r.port = Some(p);
        r
    }

    /// Whether the name is one of the identity's.
    pub fn has_host(&self, h: &str) -> (b: bool)
        ensures
            b == self@.hosts.contains_key(h@),
    {
        self.hosts.contains_key(h)
    }

    /// Whether the address is one of the identity's.
    pub fn has_ip(&self, ip: IpAddr) -> (b: bool)
        ensures
            b == self@.ips.contains_key(ip_key(ip)),
    {
        self.ips.contains_key(ip.key().as_str())
    }

    /// Whether the pattern `l` matches one of the identity's labels.
    pub fn has_label(&self, l: &Label) -> (b: bool)
        ensures
            b == id_has_label(self@, l@),
    {
        self.labels.in_order();
        self.labels.properties();
        let mut i: usize = 0;
        while i < self.labels.len()
            invariant
                i <= self.labels.entry_seq().len(),
                crate::strmap::sorted_keys(self.labels.entry_seq()),
                self.labels.map() == crate::strmap::map_of(self.labels.entry_seq()),
                forall|j: int| 0 <= j < i ==> match_spec(l@, #[trigger] self.labels.entry_seq()[j].1) is None,
            decreases self.labels.entry_seq().len() - i,
        {
            if l.matches_with(self.labels.value_at(i)) {
                proof {
                    let es = self.labels.entry_seq();
                    crate::strmap::lemma_lookup(es, i as int);
                    assert(self@.labels.contains_key(es[i as int].0));
                }
                return true;
            }
            i = i + 1;
        }
        proof {
            let es = self.labels.entry_seq();
            assert forall|k: Seq<char>| self@.labels.contains_key(k) implies match_spec(l@, #[trigger] self@.labels[k]) is None by {
                assert(crate::strmap::has_key(es, k));
                let j = crate::strmap::key_index(es, k);
                crate::strmap::lemma_lookup(es, j);
            }
        }
        false
    }

    /// The port as an option.
    pub fn port_lit(&self) -> (r: Literal)
        ensures
            r@ == port_v(self@.port),
    {
        match self.port {
            Some(p) => Literal::integer(p as i64).some(),
            None => Literal::none(),
        }
    }

    /// The names, in order.
    pub fn hosts_lit(&self) -> (r: Literal)
        ensures
            r@ == hosts_v(self@),
    {
        self.hosts.in_order();
        let ghost es = self.hosts.entry_seq();
        let mut out: Vec<Literal> = Vec::new();
        let mut i: usize = 0;
        while i < self.hosts.len()
            invariant
                i <= es.len(),
                es == self.hosts.entry_seq(),
                out@.len() == i,
                forall|j: int| 0 <= j < i ==> (#[trigger] out@[j])@ == str_v(es[j].0),
            decreases es.len() - i,
        {
            out.push(Literal::str(self.hosts.key_at(i).clone()));
            i = i + 1;
        }
        proof { lemma_lits_view_from(out@, es.map_values(|e: (Seq<char>, bool)| str_v(e.0))); }
        Literal::List(out)
    }

    /// The addresses, in order.
    pub fn ips_lit(&self) -> (r: Literal)
        ensures
            r@ == ips_v(self@),
    {
        self.ips.in_order();
        let ghost es = self.ips.entry_seq();
        let mut out: Vec<Literal> = Vec::new();
        let mut i: usize = 0;
        while i < self.ips.len()
            invariant
                i <= es.len(),
                es == self.ips.entry_seq(),
                out@.len() == i,
                forall|j: int| 0 <= j < i ==> (#[trigger] out@[j])@ == ip_v(es[j].1),
            decreases es.len() - i,
        {
            out.push(Literal::FlatLiteral(FlatLiteral::IpAddr(*self.ips.value_at(i))));
            i = i + 1;
        }
        proof { lemma_lits_view_from(out@, es.map_values(|e: (Seq<char>, IpAddr)| ip_v(e.1))); }
        Literal::List(out)
    }

    /// The labels, in order.
    pub fn labels_lit(&self) -> (r: Literal)
        ensures
            r@ == labels_v(self@),
    {
        self.labels.in_order();
        let ghost es = self.labels.entry_seq();
        let mut out: Vec<Literal> = Vec::new();
        let mut i: usize = 0;
        while i < self.labels.len()
            invariant
                i <= es.len(),
                es == self.labels.entry_seq(),
                out@.len() == i,
                forall|j: int| 0 <= j < i ==> (#[trigger] out@[j])@ == LitV::Flat(FlatLitV::Label(es[j].1)),
            decreases es.len() - i,
        {
            out.push(Literal::label(self.labels.value_at(i).dup()));
            i = i + 1;
        }
        proof { lemma_lits_view_from(out@, es.map_values(|e: (Seq<char>, Seq<NodeV>)| LitV::Flat(FlatLitV::Label(e.1)))); }
        Literal::List(out)
    }

    /// Equality of identities (see `id_eq`).
    pub fn same(&self, other: &ID) -> (b: bool)
        ensures
            b == id_eq(self@, other@),
    {
        let h = same_hosts(&self.hosts, &other.hosts);
        let p = same_ips(&self.ips, &other.ips);
        let l = same_labels(&self.labels, &other.labels);
        h && p && self.port == other.port && l
    }
}

/// Two ordered maps with the same entries denote the same map, and the
/// other way round.
proof fn lemma_same_entries<V: View>(a: &StrMap<V>, b: &StrMap<V>)
    requires
        a.entry_seq() == sorted_entries(a.map()),
        b.entry_seq() == sorted_entries(b.map()),
    ensures
        (a.map() == b.map()) == (a.entry_seq() == b.entry_seq()),
{
}

fn same_hosts(a: &StrMap<bool>, b: &StrMap<bool>) -> (r: bool)
    ensures
        r == (a.map() == b.map()),
{
    a.in_order();
    b.in_order();
    proof { lemma_same_entries(a, b); }
    if a.len() != b.len() {
        return false;
    }
    let mut i: usize = 0;
    while i < a.len()
        invariant
            i <= a.entry_seq().len(),
            a.entry_seq().len() == b.entry_seq().len(),
            (a.map() == b.map()) == (a.entry_seq() == b.entry_seq()),
            forall|j: int| 0 <= j < i ==> #[trigger] a.entry_seq()[j] == b.entry_seq()[j],
        decreases a.entry_seq().len() - i,
    {
        if !str_eq(a.key_at(i).as_str(), b.key_at(i).as_str()) || *a.value_at(i) != *b.value_at(i) {
            return false;
        }
        i = i + 1;
    }
    assert(a.entry_seq() =~= b.entry_seq());
    true
}

fn same_ips(a: &StrMap<IpAddr>, b: &StrMap<IpAddr>) -> (r: bool)
    ensures
        r == (a.map() == b.map()),
{
    a.in_order();
    b.in_order();
    proof { lemma_same_entries(a, b); }
    if a.len() != b.len() {
        return false;
    }
    let mut i: usize = 0;
    while i < a.len()
        invariant
            i <= a.entry_seq().len(),
            a.entry_seq().len() == b.entry_seq().len(),
            (a.map() == b.map()) == (a.entry_seq() == b.entry_seq()),
            forall|j: int| 0 <= j < i ==> #[trigger] a.entry_seq()[j] == b.entry_seq()[j],
        decreases a.entry_seq().len() - i,
    {
        if !str_eq(a.key_at(i).as_str(), b.key_at(i).as_str()) || *a.value_at(i) != *b.value_at(i) {
            return false;
        }
        i = i + 1;
    }
    assert(a.entry_seq() =~= b.entry_seq());
    true
}

fn same_labels(a: &StrMap<Label>, b: &StrMap<Label>) -> (r: bool)
    ensures
        r == ({
            let la = sorted_entries(a.map());
            let lb = sorted_entries(b.map());
            la.len() == lb.len() && forall|i: int| 0 <= i < la.len() ==> label_eq(#[trigger] la[i].1, lb[i].1)
        }),
{
    a.in_order();
    b.in_order();
    if a.len() != b.len() {
        return false;
    }
    let mut i: usize = 0;
    while i < a.len()
        invariant
            i <= a.entry_seq().len(),
            a.entry_seq().len() == b.entry_seq().len(),
            a.entry_seq() == sorted_entries(a.map()),
            b.entry_seq() == sorted_entries(b.map()),
            forall|j: int| 0 <= j < i ==> label_eq(#[trigger] a.entry_seq()[j].1, b.entry_seq()[j].1),
        decreases a.entry_seq().len() - i,
    {
        let x = a.value_at(i);
        let y = b.value_at(i);
        if !(x.matches_with(y) && y.matches_with(x)) {
            return false;
        }
        i = i + 1;
    }
    true
}

// ------------------------------------------------------------ connections

/// Model of a connection.
pub struct ConnV {
    pub from: IdV,
    pub to: IdV,
    pub number: i64,
}

/// A connection between two endpoints, with its number.
#[derive(Debug)]
pub struct Connection {
    from: ID,
    to: ID,
    number: i64,
}

impl View for Connection {
    type V = ConnV;

    closed spec fn view(&self) -> ConnV {
        ConnV { from: self.from@, to: self.to@, number: self.number }
    }
}

/// The connection between two empty identities, number 0.
pub open spec fn empty_conn() -> ConnV {
    ConnV { from: empty_id(), to: empty_id(), number: 0 }
}

/// Equality of connections.
pub open spec fn conn_eq(a: ConnV, b: ConnV) -> bool {
    id_eq(a.from, b.from) && id_eq(a.to, b.to) && a.number == b.number
}

/// The value of an identity.
pub open spec fn id_v(v: IdV) -> LitV {
    LitV::Flat(FlatLitV::ID(v))
}

/// The value of a connection.
pub open spec fn conn_v(v: ConnV) -> LitV {
    LitV::Flat(FlatLitV::Connection(v))
}

/// The two endpoints as a pair.
pub open spec fn from_to_v(c: ConnV) -> LitV {
    LitV::Tuple(seq![id_v(c.from), id_v(c.to)])
}

impl Connection {
    /// A connection between two endpoints.
    pub fn new(from: &ID, to: &ID, number: i64) -> (r: Connection)
        ensures
            r@ == (ConnV { from: from@, to: to@, number }),
    {
        Connection { from: from.dup(), to: to.dup(), number }
    }

    /// The connection between two empty identities, number 0.
    pub fn empty() -> (r: Connection)
        ensures
            r@ == empty_conn(),
    {
        Connection { from: ID::new(), to: ID::new(), number: 0 }
    }

    /// A copy.
    pub fn dup(&self) -> (r: Connection)
        ensures
            r@ == self@,
    {
        Connection { from: self.from.dup(), to: self.to.dup(), number: self.number }
    }

    /// The source.
    pub fn from_lit(&self) -> (r: Literal)
        ensures
            r@ == id_v(self@.from),
    {
        Literal::FlatLiteral(FlatLiteral::ID(self.from.dup()))
    }

    /// The destination.
    pub fn to_lit(&self) -> (r: Literal)
        ensures
            r@ == id_v(self@.to),
    {
        Literal::FlatLiteral(FlatLiteral::ID(self.to.dup()))
    }

    /// Source and destination.
    pub fn from_to(&self) -> (r: Literal)
        ensures
            r@ == from_to_v(self@),
    {
        let mut v: Vec<Literal> = Vec::new();
        v.push(self.from_lit());
        v.push(self.to_lit());
        proof { lemma_lits_view_from(v@, seq![id_v(self@.from), id_v(self@.to)]); }
        Literal::Tuple(v)
    }

    /// The number.
    pub fn number(&self) -> (r: i64)
        ensures
            r == self@.number,
    {
        self.number
    }

    /// With another source.
    pub fn set_from(&self, from: &ID) -> (r: Connection)
        ensures
            r@ == (ConnV { from: from@, ..self@ }),
    {
        Connection { from: from.dup(), to: self.to.dup(), number: self.number }
    }

    /// With another destination.
    pub fn set_to(&self, to: &ID) -> (r: Connection)
        ensures
            r@ == (ConnV { to: to@, ..self@ }),
    {
        Connection { from: self.from.dup(), to: to.dup(), number: self.number }
    }

    /// With another number.
    pub fn set_number(&self, number: i64) -> (r: Connection)
        ensures
            r@ == (ConnV { number, ..self@ }),
    {
        Connection { from: self.from.dup(), to: self.to.dup(), number }
    }

    /// Equality of connections.
    pub fn same(&self, other: &Connection) -> (b: bool)
        ensures
            b == conn_eq(self@, other@),
    {
        self.from.same(&other.from) && self.to.same(&other.to) && self.number == other.number
    }
}

// ------------------------------------------------------------ headers

/// The values of one HTTP header.
#[derive(Debug)]
pub struct HeaderValues(pub Vec<Vec<u8>>);

impl View for HeaderValues {
    type V = Seq<Seq<u8>>;

    open spec fn view(&self) -> Seq<Seq<u8>> {
        self.0@.map_values(|v: Vec<u8>| v@)
    }
}

impl Dup for HeaderValues {
    fn dup(&self) -> (r: HeaderValues) {
        let mut out: Vec<Vec<u8>> = Vec::new();
        let mut i: usize = 0;
        while i < self.0.len()
            invariant
                i <= self.0@.len(),
                out@.len() == i,
                forall|j: int| 0 <= j < i ==> (#[trigger] out@[j])@ == self.0@[j]@,
            decreases self.0.len() - i,
        {
            out.push(bytes_dup(&self.0[i]));
            i = i + 1;
        }
        let r = HeaderValues(out);
        assert(r@ =~= self@);
        r
    }
}

/// Model of the headers of a message: the values of each header, in the
/// order they were set.
pub type HeadersV = Map<Seq<char>, Seq<Seq<u8>>>;

/// The value of bytes.
pub open spec fn data_v(d: Seq<u8>) -> LitV {
    LitV::Flat(FlatLitV::Data(d))
}

/// The values of a header, as an option of a list.
pub open spec fn header_v(h: HeadersV, k: Seq<char>) -> LitV {
    if h.contains_key(k) {
        LitV::Tuple(seq![LitV::List(h[k].map_values(|d: Seq<u8>| data_v(d)))])
    } else {
        LitV::Tuple(Seq::empty())
    }
}

/// The value of a header that is set once, as an option.
pub open spec fn unique_header_v(h: HeadersV, k: Seq<char>) -> LitV {
    if h.contains_key(k) && h[k].len() == 1 {
        LitV::Tuple(seq![data_v(h[k][0])])
    } else {
        LitV::Tuple(Seq::empty())
    }
}

/// One more value of a header.
pub open spec fn set_header_spec(h: HeadersV, k: Seq<char>, v: Seq<u8>) -> HeadersV {
    if h.contains_key(k) { h.insert(k, h[k].push(v)) } else { h.insert(k, seq![v]) }
}

/// The names of the headers, in order.
pub open spec fn headers_v(h: HeadersV) -> LitV {
    LitV::List(sorted_entries(h).map_values(|e: (Seq<char>, Seq<Seq<u8>>)| str_v(e.0)))
}

/// Each header with each of its values, in order.
pub open spec fn pairs_of(es: Seq<(Seq<char>, Seq<Seq<u8>>)>) -> Seq<LitV>
    decreases es.len(),
{
    if es.len() == 0 {
        Seq::empty()
    } else {
        let k = es.last().0;
        pairs_of(es.drop_last()) + es.last().1.map_values(|d: Seq<u8>| LitV::Tuple(seq![str_v(k), data_v(d)]))
    }
}

/// The pairs of header name and value, in order.
pub open spec fn header_pairs_v(h: HeadersV) -> LitV {
    LitV::List(pairs_of(sorted_entries(h)))
}

fn header_lit(h: &StrMap<HeaderValues>, k: &str) -> (r: Literal)
    ensures
        r@ == header_v(h.map(), k@),
{
    match h.get(k) {
        None => Literal::none(),
        Some(vs) => {
            let mut out: Vec<Literal> = Vec::new();
            let mut i: usize = 0;
            while i < vs.0.len()
                invariant
                    i <= vs.0@.len(),
                    out@.len() == i,
                    forall|j: int| 0 <= j < i ==> (#[trigger] out@[j])@ == data_v(vs@[j]),
                decreases vs.0.len() - i,
            {
                out.push(Literal::data(bytes_dup(&vs.0[i])));
                i = i + 1;
            }
            proof { lemma_lits_view_from(out@, vs@.map_values(|d: Seq<u8>| data_v(d))); }
            Literal::List(out).some()
        },
    }
}

fn unique_header_lit(h: &StrMap<HeaderValues>, k: &str) -> (r: Literal)
    ensures
        r@ == unique_header_v(h.map(), k@),
{
    match h.get(k) {
        Some(vs) => if vs.0.len() == 1 {
            Literal::data(bytes_dup(&vs.0[0])).some()
        } else {
            Literal::none()
        },
        None => Literal::none(),
    }
}

fn set_header_in(h: &mut StrMap<HeaderValues>, k: &str, v: &Vec<u8>)
    ensures
        final(h).map() == set_header_spec(old(h).map(), k@, v@),
{
    let vs = match h.get(k) {
        Some(old) => {
            let mut n = old.dup();
            let ghost before = n@;
            n.0.push(bytes_dup(v));
            assert(n@ =~= before.push(v@));
            n
        },
        None => {
            let mut n: Vec<Vec<u8>> = Vec::new();
            n.push(bytes_dup(v));
            let n = HeaderValues(n);
            assert(n@ =~= seq![v@]);
            n
        },
    };
    h.insert(k.to_owned(), vs);
}

fn headers_lit(h: &StrMap<HeaderValues>) -> (r: Literal)
    ensures
        r@ == headers_v(h.map()),
{
    h.in_order();
    let ghost es = h.entry_seq();
    let mut out: Vec<Literal> = Vec::new();
    let mut i: usize = 0;
    while i < h.len()
        invariant
            i <= es.len(),
            es == h.entry_seq(),
            out@.len() == i,
            forall|j: int| 0 <= j < i ==> (#[trigger] out@[j])@ == str_v(es[j].0),
        decreases es.len() - i,
    {
        out.push(Literal::str(h.key_at(i).clone()));
        i = i + 1;
    }
    proof { lemma_lits_view_from(out@, es.map_values(|e: (Seq<char>, Seq<Seq<u8>>)| str_v(e.0))); }
    Literal::List(out)
}

fn header_pairs_lit(h: &StrMap<HeaderValues>) -> (r: Literal)
    ensures
        r@ == header_pairs_v(h.map()),
{
    h.in_order();
    let ghost es = h.entry_seq();
    let mut out: Vec<Literal> = Vec::new();
    let ghost mut model: Seq<LitV> = Seq::empty();
    let mut i: usize = 0;
    while i < h.len()
        invariant
            i <= es.len(),
            es == h.entry_seq(),
            model == pairs_of(es.take(i as int)),
            out@.len() == model.len(),
            forall|j: int| 0 <= j < out@.len() ==> (#[trigger] out@[j])@ == model[j],
        decreases es.len() - i,
    {
        let k = h.key_at(i);
        let vs = h.value_at(i);
        let ghost base = model;
        let mut m: usize = 0;
        while m < vs.0.len()
            invariant
                m <= vs.0@.len(),
                vs@ == es[i as int].1,
                k@ == es[i as int].0,
                out@.len() == base.len() + m,
                forall|j: int| 0 <= j < base.len() ==> (#[trigger] out@[j])@ == base[j],
                forall|j: int| 0 <= j < m ==> (#[trigger] out@[base.len() + j])@ == LitV::Tuple(seq![str_v(k@), data_v(vs@[j])]),
            decreases vs.0.len() - m,
        {
            let mut t: Vec<Literal> = Vec::new();
            t.push(Literal::str(k.clone()));
            t.push(Literal::data(bytes_dup(&vs.0[m])));
            proof { lemma_lits_view_from(t@, seq![str_v(k@), data_v(vs@[m as int])]); }
            out.push(Literal::Tuple(t));
            m = m + 1;
        }
        proof {
            let add = es[i as int].1.map_values(|d: Seq<u8>| LitV::Tuple(seq![str_v(es[i as int].0), data_v(d)]));
            assert(es.take(i + 1).drop_last() =~= es.take(i as int));
            assert(es.take(i + 1).last() == es[i as int]);
            model = base + add;
            assert forall|j: int| 0 <= j < out@.len() implies (#[trigger] out@[j])@ == model[j] by {
                if j >= base.len() {
                    assert(out@[base.len() + (j - base.len())] == out@[j]);
                }
            }
        }
        i = i + 1;
    }
    proof {
        assert(es.take(es.len() as int) =~= es);
        lemma_lits_view_from(out@, model);
    }
    Literal::List(out)
}

fn same_headers(a: &StrMap<HeaderValues>, b: &StrMap<HeaderValues>) -> (r: bool)
    ensures
        r == (a.map() == b.map()),
{
    a.in_order();
    b.in_order();
    proof { lemma_same_entries(a, b); }
    if a.len() != b.len() {
        return false;
    }
    let mut i: usize = 0;
    while i < a.len()
        invariant
            i <= a.entry_seq().len(),
            a.entry_seq().len() == b.entry_seq().len(),
            (a.map() == b.map()) == (a.entry_seq() == b.entry_seq()),
            forall|j: int| 0 <= j < i ==> #[trigger] a.entry_seq()[j] == b.entry_seq()[j],
        decreases a.entry_seq().len() - i,
    {
        if !str_eq(a.key_at(i).as_str(), b.key_at(i).as_str()) || !same_values(a.value_at(i), b.value_at(i)) {
            return false;
        }
        i = i + 1;
    }
    assert(a.entry_seq() =~= b.entry_seq());
    true
}

fn same_values(a: &HeaderValues, b: &HeaderValues) -> (r: bool)
    ensures
        r == (a@ == b@),
{
    if a.0.len() != b.0.len() {
        assert(a@.len() != b@.len());
        return false;
    }
    let mut i: usize = 0;
    while i < a.0.len()
        invariant
            i <= a.0@.len(),
            a.0@.len() == b.0@.len(),
            forall|j: int| 0 <= j < i ==> #[trigger] a@[j] == b@[j],
        decreases a.0.len() - i,
    {
        if !bytes_eq(&a.0[i], &b.0[i]) {
            assert(a@[i as int] != b@[i as int]);
            return false;
        }
        i = i + 1;
    }
    assert(a@ =~= b@);
    true
}

// ------------------------------------------------------------ HTTP

/// Model of an HTTP request.
pub struct ReqV {
    pub method: Method,
    pub version: Version,
    pub path: Seq<char>,
    pub query: Seq<char>,
    pub headers: HeadersV,
    pub connection: ConnV,
}

/// An HTTP request, with the connection it came on.
#[derive(Debug)]
pub struct HttpRequest {
    method: Method,
    version: Version,
    path: String,
    query: String,
    headers: StrMap<HeaderValues>,
    connection: Connection,
}

impl View for HttpRequest {
    type V = ReqV;

    closed spec fn view(&self) -> ReqV {
        ReqV {
            method: self.method,
            version: self.version,
            path: self.path@,
            query: self.query@,
            headers: self.headers.map(),
            connection: self.connection@,
        }
    }
}

/// A request with the given method, HTTP/1.1, no path, query or headers,
/// on the empty connection.
pub open spec fn default_req(m: Method) -> ReqV {
    ReqV {
        method: m,
        version: Version::HTTP_11,
        path: Seq::empty(),
        query: Seq::empty(),
        headers: Map::empty(),
        connection: empty_conn(),
    }
}

/// Equality of requests.
pub open spec fn req_eq(a: ReqV, b: ReqV) -> bool {
    a.method == b.method && a.version == b.version && a.path == b.path && a.query == b.query
        && a.headers == b.headers && conn_eq(a.connection, b.connection)
}

/// Model of an HTTP response.
pub struct ResV {
    pub version: Version,
    pub status: u16,
    pub headers: HeadersV,
    pub reason: Option<Seq<char>>,
    pub connection: ConnV,
}

/// An HTTP response, with the connection it goes on.
#[derive(Debug)]
pub struct HttpResponse {
    version: Version,
    status: u16,
    headers: StrMap<HeaderValues>,
    reason: Option<String>,
    connection: Connection,
}

impl View for HttpResponse {
    type V = ResV;

    closed spec fn view(&self) -> ResV {
        ResV {
            version: self.version,
            status: self.status,
            headers: self.headers.map(),
            reason: match self.reason { Some(r) => Some(r@), None => None },
            connection: self.connection@,
        }
    }
}

/// A response with the given status, HTTP/1.1, no headers or reason, on
/// the empty connection.
pub open spec fn default_res(status: u16) -> ResV {
    ResV { version: Version::HTTP_11, status, headers: Map::empty(), reason: None, connection: empty_conn() }
}

/// Equality of responses.
pub open spec fn res_eq(a: ResV, b: ResV) -> bool {
    a.version == b.version && a.status == b.status && a.headers == b.headers && a.reason == b.reason
        && conn_eq(a.connection, b.connection)
}

/// A path without its leading and trailing `/`.
pub open spec fn trim_slashes(s: Seq<char>) -> Seq<char> {
    trim_end(trim_start(s, '/'), '/')
}

/// The index of the first `/` from `i` on, or the length.
pub open spec fn next_slash(s: Seq<char>, i: int) -> int
    decreases s.len() - i,
{
    if i < 0 || i >= s.len() { s.len() as int } else if s[i] == '/' { i } else { next_slash(s, i + 1) }
}

/// The pieces of `s` from `i` on between `/`s.
pub open spec fn split_slash(s: Seq<char>, i: int) -> Seq<Seq<char>>
    decreases s.len() - i,
{
    let j = next_slash(s, i);
    if i < 0 || j < i || j >= s.len() {
        seq![s.subrange(i, s.len() as int)]
    } else {
        seq![s.subrange(i, j)] + split_slash(s, j + 1)
    }
}

/// The parts of a path between `/`s, as a list.
pub open spec fn route_v(path: Seq<char>) -> LitV {
    LitV::List(split_slash(trim_slashes(path), 0).map_values(|p: Seq<char>| str_v(p)))
}

proof fn lemma_next_slash(s: Seq<char>, i: int)
    requires
        0 <= i <= s.len(),
    ensures
        i <= next_slash(s, i) <= s.len(),
        next_slash(s, i) < s.len() ==> s[next_slash(s, i)] == '/',
        forall|k: int| i <= k < next_slash(s, i) ==> s[k] != '/',
    decreases s.len() - i,
{
    if i < s.len() && s[i] != '/' {
        lemma_next_slash(s, i + 1);
    }
}

/// The pieces of a path between `/`s from `i` on.
fn split_path(cs: &Vec<char>, i: usize) -> (r: Vec<Literal>)
    requires
        i <= cs@.len(),
    ensures
        crate::literals::lits_view(r@) == split_slash(cs@, i as int).map_values(|p: Seq<char>| str_v(p)),
    decreases cs@.len() - i,
{
    proof { lemma_next_slash(cs@, i as int); }
    let mut j: usize = i;
    while j < cs.len() && cs[j] != '/'
        invariant
            i <= j <= cs@.len(),
            next_slash(cs@, i as int) == next_slash(cs@, j as int),
        decreases cs.len() - j,
    {
        j = j + 1;
    }
    let mut piece: Vec<char> = Vec::new();
    let mut k: usize = i;
    while k < j
        invariant
            i <= k <= j <= cs@.len(),
            piece@ == cs@.subrange(i as int, k as int),
        decreases j - k,
    {
        piece.push(cs[k]);
        assert(cs@.subrange(i as int, k + 1) =~= cs@.subrange(i as int, k as int).push(cs@[k as int]));
        k = k + 1;
    }
    let first = Literal::str(string_from_chars(piece.as_slice()));
    let mut out: Vec<Literal> = Vec::new();
    out.push(first);
    if j >= cs.len() {
        proof {
            lemma_lits_view_from(out@, seq![str_v(cs@.subrange(i as int, cs@.len() as int))]);
            assert(split_slash(cs@, i as int).map_values(|p: Seq<char>| str_v(p)) =~= seq![str_v(cs@.subrange(i as int, cs@.len() as int))]);
        }
        out
    } else {
        let rest = split_path(cs, j + 1);
        let ghost rs = rest@;
        let ghost rv = crate::literals::lits_view(rs);
        let ghost f0 = out@[0];
        let mut rest = rest;
        out.append(&mut rest);
        proof {
            let want = split_slash(cs@, i as int).map_values(|p: Seq<char>| str_v(p));
            assert(split_slash(cs@, i as int) == seq![cs@.subrange(i as int, j as int)] + split_slash(cs@, j + 1));
            assert(want =~= seq![str_v(cs@.subrange(i as int, j as int))] + rv);
            crate::literals::lemma_lits_view_len(rs);
            assert(out@ == seq![f0] + rs);
            assert forall|q: int| 0 <= q < out@.len() implies crate::literals::lit_view(#[trigger] out@[q]) == want[q] by {
                if q >= 1 {
                    assert(out@[q] == rs[q - 1]);
                    crate::literals::lemma_lits_view_index(rs, q - 1);
                }
            }
            lemma_lits_view_from(out@, want);
        }
        out
    }
}

/// The value of a request.
pub open spec fn req_v(v: ReqV) -> LitV {
    LitV::Flat(FlatLitV::HttpRequest(v))
}

/// The value of a response.
pub open spec fn res_v(v: ResV) -> LitV {
    LitV::Flat(FlatLitV::HttpResponse(v))
}

impl HttpRequest {
    /// A request.
    pub fn new(method: Method, version: Version, path: String, query: String, connection: Connection) -> (r: HttpRequest)
        ensures
            r@ == (ReqV { method, version, path: path@, query: query@, headers: Map::empty(), connection: connection@ }),
    {
        HttpRequest { method, version, path, query, headers: StrMap::new(), connection }
    }

    /// The request with the given method (see `default_req`).
    pub fn with_method(m: Method) -> (r: HttpRequest)
        ensures
            r@ == default_req(m),
    {
        HttpRequest {
            method: m,
            version: Version::HTTP_11,
            path: String::new(),
            query: String::new(),
            headers: StrMap::new(),
            connection: Connection::empty(),
        }
    }

    /// A copy.
    pub fn dup(&self) -> (r: HttpRequest)
        ensures
            r@ == self@,
    {
        HttpRequest {
            method: self.method,
            version: self.version,
            path: self.path.clone(),
            query: self.query.clone(),
            headers: self.headers.dup(),
            connection: self.connection.dup(),
        }
    }

    /// Equality of requests.
    pub fn same(&self, other: &HttpRequest) -> (b: bool)
        ensures
            b == req_eq(self@, other@),
    {
        self.method == other.method && self.version == other.version && str_eq(self.path.as_str(), other.path.as_str())
            && str_eq(self.query.as_str(), other.query.as_str()) && same_headers(&self.headers, &other.headers)
            && self.connection.same(&other.connection)
    }

    /// The connection.
    pub fn connection(&self) -> (r: &Connection)
        ensures
            r@ == self@.connection,
    {
        &self.connection
    }

    /// The method.
    pub fn method(&self) -> (r: Method)
        ensures
            r == self@.method,
    {
        self.method
    }

    /// The version.
    pub fn version(&self) -> (r: Version)
        ensures
            r == self@.version,
    {
        self.version
    }

    /// The path.
    pub fn path(&self) -> (r: &str)
        ensures
            r@ == self@.path,
    {
        self.path.as_str()
    }

    /// The query.
    pub fn query(&self) -> (r: &str)
        ensures
            r@ == self@.query,
    {
        self.query.as_str()
    }

    /// The parts of the path between `/`s (see `route_v`).
    pub fn route(&self) -> (r: Literal)
        ensures
            r@ == route_v(self@.path),
    {
        let cs = chars_of(self.path.as_str());
        let t = trim_chars_end(&trim_chars_start(&cs, '/'), '/');
        Literal::List(split_path(&t, 0))
    }

    /// With another path.
    pub fn set_path(&self, s: &str) -> (r: HttpRequest)
        ensures
            r@ == (ReqV { path: s@, ..self@ }),
    {
        let mut r = self.dup();
        r.path = s.to_owned();
        r
    }

    /// With another query.
    pub fn set_query(&self, s: &str) -> (r: HttpRequest)
        ensures
            r@ == (ReqV { query: s@, ..self@ }),
    {
        let mut r = self.dup();
        r.query = s.to_owned();
        r
    }

    /// The values of a header (see `header_v`).
    pub fn header(&self, k: &str) -> (r: Literal)
        ensures
            r@ == header_v(self@.headers, k@),
    {
        header_lit(&self.headers, k)
    }

    /// The value of a header set once (see `unique_header_v`).
    pub fn unique_header(&self, k: &str) -> (r: Literal)
        ensures
            r@ == unique_header_v(self@.headers, k@),
    {
        unique_header_lit(&self.headers, k)
    }

    /// With one more value of a header.
    pub fn set_header(&self, k: &str, v: &Vec<u8>) -> (r: HttpRequest)
        ensures
            r@ == (ReqV { headers: set_header_spec(self@.headers, k@, v@), ..self@ }),
    {
        let mut r = self.dup();
        set_header_in(&mut r.headers, k, v);
        r
    }

    /// The names of the headers.
    pub fn headers(&self) -> (r: Literal)
        ensures
            r@ == headers_v(self@.headers),
    {
        headers_lit(&self.headers)
    }

    /// The pairs of header name and value.
    pub fn header_pairs(&self) -> (r: Literal)
        ensures
            r@ == header_pairs_v(self@.headers),
    {
        header_pairs_lit(&self.headers)
    }

    /// With another connection.
    pub fn set_connection(&self, c: &Connection) -> (r: HttpRequest)
        ensures
            r@ == (ReqV { connection: c@, ..self@ }),
    {
        let mut r = self.dup();
        r.connection = c.dup();
        r
    }

    /// With another source.
    pub fn set_from(&self, from: &ID) -> (r: HttpRequest)
        ensures
            r@ == (ReqV { connection: ConnV { from: from@, ..self@.connection }, ..self@ }),
    {
        let mut r = self.dup();
        r.connection = self.connection.set_from(from);
        r
    }

    /// With another destination.
    pub fn set_to(&self, to: &ID) -> (r: HttpRequest)
        ensures
            r@ == (ReqV { connection: ConnV { to: to@, ..self@.connection }, ..self@ }),
    {
        let mut r = self.dup();
        r.connection = self.connection.set_to(to);
        r
    }
}

impl HttpResponse {
    /// The response with the given status (see `default_res`).
    pub fn with_status(status: u16) -> (r: HttpResponse)
        ensures
            r@ == default_res(status),
    {
        HttpResponse { version: Version::HTTP_11, status, headers: StrMap::new(), reason: None, connection: Connection::empty() }
    }

    /// A response.
    pub fn new(version: Version, status: u16, reason: Option<String>, connection: Connection) -> (r: HttpResponse)
        ensures
            r@ == (ResV { version, status, headers: Map::empty(), reason: match reason { Some(x) => Some(x@), None => None }, connection: connection@ }),
    {
        HttpResponse { version, status, headers: StrMap::new(), reason, connection }
    }

    /// A copy.
    pub fn dup(&self) -> (r: HttpResponse)
        ensures
            r@ == self@,
    {
        HttpResponse {
            version: self.version,
            status: self.status,
            headers: self.headers.dup(),
            reason: match &self.reason { Some(x) => Some(x.clone()), None => None },
            connection: self.connection.dup(),
        }
    }

    /// Equality of responses.
    pub fn same(&self, other: &HttpResponse) -> (b: bool)
        ensures
            b == res_eq(self@, other@),
    {
        let reason_same = match (&self.reason, &other.reason) {
            (Some(x), Some(y)) => str_eq(x.as_str(), y.as_str()),
            (None, None) => true,
            _ => false,
        };
        self.version == other.version && self.status == other.status && same_headers(&self.headers, &other.headers)
            && reason_same && self.connection.same(&other.connection)
    }

    /// The connection.
    pub fn connection(&self) -> (r: &Connection)
        ensures
            r@ == self@.connection,
    {
        &self.connection
    }

    /// The status.
    pub fn status(&self) -> (r: u16)
        ensures
            r == self@.status,
    {
        self.status
    }

    /// The version.
    pub fn version(&self) -> (r: Version)
        ensures
            r == self@.version,
    {
        self.version
    }

    /// The reason, as an option.
    pub fn reason(&self) -> (r: Literal)
        ensures
            r@ == match self@.reason { Some(x) => LitV::Tuple(seq![str_v(x)]), None => LitV::Tuple(Seq::empty()) },
    {
        match &self.reason {
            Some(x) => Literal::str(x.clone()).some(),
            None => Literal::none(),
        }
    }

    /// With a reason.
    pub fn set_reason(&self, s: &str) -> (r: HttpResponse)
        ensures
            r@ == (ResV { reason: Some(s@), ..self@ }),
    {
        let mut r = self.dup();
        r.reason = Some(s.to_owned());
        r
    }

    /// The values of a header (see `header_v`).
    pub fn header(&self, k: &str) -> (r: Literal)
        ensures
            r@ == header_v(self@.headers, k@),
    {
        header_lit(&self.headers, k)
    }

    /// The value of a header set once (see `unique_header_v`).
    pub fn unique_header(&self, k: &str) -> (r: Literal)
        ensures
            r@ == unique_header_v(self@.headers, k@),
    {
        unique_header_lit(&self.headers, k)
    }

    /// With one more value of a header.
    pub fn set_header(&self, k: &str, v: &Vec<u8>) -> (r: HttpResponse)
        ensures
            r@ == (ResV { headers: set_header_spec(self@.headers, k@, v@), ..self@ }),
    {
        let mut r = self.dup();
        set_header_in(&mut r.headers, k, v);
        r
    }

    /// The names of the headers.
    pub fn headers(&self) -> (r: Literal)
        ensures
            r@ == headers_v(self@.headers),
    {
        headers_lit(&self.headers)
    }

    /// The pairs of header name and value.
    pub fn header_pairs(&self) -> (r: Literal)
        ensures
            r@ == header_pairs_v(self@.headers),
    {
        header_pairs_lit(&self.headers)
    }

    /// With another connection.
    pub fn set_connection(&self, c: &Connection) -> (r: HttpResponse)
        ensures
            r@ == (ResV { connection: c@, ..self@ }),
    {
        let mut r = self.dup();
        r.connection = c.dup();
        r
    }

    /// With another source.
    pub fn set_from(&self, from: &ID) -> (r: HttpResponse)
        ensures
            r@ == (ResV { connection: ConnV { from: from@, ..self@.connection }, ..self@ }),
    {
        let mut r = self.dup();
        r.connection = self.connection.set_from(from);
        r
    }

    /// With another destination.
    pub fn set_to(&self, to: &ID) -> (r: HttpResponse)
        ensures
            r@ == (ResV { connection: ConnV { to: to@, ..self@.connection }, ..self@ }),
    {
        let mut r = self.dup();
        r.connection = self.connection.set_to(to);
        r
    }
}

// ------------------------------------------------------------ queries

/// The name and value pairs of a query, as the `url` crate reads them from
/// `http://x/?<query>` (`None` when it cannot read that address).
pub uninterp spec fn url_query_pairs(q: Seq<char>) -> Option<Seq<(Seq<char>, Seq<char>)>>;

/// Reads the pairs of a query with `url::Url::parse` and `query_pairs`: the
/// result is named `url_query_pairs` of the query.
#[verifier::external_body]
fn parse_query_pairs(q: &str) -> (r: Option<Vec<(String, String)>>)
    ensures
        match r {
            Some(v) => url_query_pairs(q@) == Some(v@.map_values(|p: (String, String)| (p.0@, p.1@))),
            None => url_query_pairs(q@) is None,
        },
{
    match url::Url::parse(&format!("http://x/?{}", q)) {
        Ok(u) => Some(u.query_pairs().map(|(k, v)| (k.into_owned(), v.into_owned())).collect()),
        Err(_) => None,
    }
}

/// The pairs of a query as a list of pairs (empty when it cannot be read).
pub open spec fn query_pairs_v(q: Seq<char>) -> LitV {
    match url_query_pairs(q) {
        Some(ps) => LitV::List(ps.map_values(|p: (Seq<char>, Seq<char>)| LitV::Tuple(seq![str_v(p.0), str_v(p.1)]))),
        None => LitV::List(Seq::empty()),
    }
}

fn query_pairs_lit(q: &str) -> (r: Literal)
    ensures
        r@ == query_pairs_v(q@),
{
    match parse_query_pairs(q) {
        None => {
            let v: Vec<Literal> = Vec::new();
            proof { lemma_lits_view_from(v@, Seq::empty()); }
            Literal::List(v)
        },
        Some(ps) => {
            let ghost pv = ps@.map_values(|p: (String, String)| (p.0@, p.1@));
            let mut out: Vec<Literal> = Vec::new();
            let mut i: usize = 0;
            while i < ps.len()
                invariant
                    i <= ps@.len(),
                    pv == ps@.map_values(|p: (String, String)| (p.0@, p.1@)),
                    out@.len() == i,
                    forall|j: int| 0 <= j < i ==> (#[trigger] out@[j])@ == LitV::Tuple(seq![str_v(pv[j].0), str_v(pv[j].1)]),
                decreases ps.len() - i,
            {
                let mut t: Vec<Literal> = Vec::new();
                t.push(Literal::str(ps[i].0.clone()));
                t.push(Literal::str(ps[i].1.clone()));
                proof { lemma_lits_view_from(t@, seq![str_v(pv[i as int].0), str_v(pv[i as int].1)]); }
                out.push(Literal::Tuple(t));
                i = i + 1;
            }
            proof { lemma_lits_view_from(out@, pv.map_values(|p: (Seq<char>, Seq<char>)| LitV::Tuple(seq![str_v(p.0), str_v(p.1)]))); }
            Literal::List(out)
        },
    }
}

// ------------------------------------------------------------ built-in functions

/// The built-in functions without arguments that make network values.
pub open spec fn net_call0(f: Seq<char>) -> Option<LitV> {
    if f == "HttpRequest::GET"@ { Some(req_v(default_req(Method::GET))) }
    else if f == "HttpRequest::POST"@ { Some(req_v(default_req(Method::POST))) }
    else if f == "HttpRequest::PUT"@ { Some(req_v(default_req(Method::PUT))) }
    else if f == "HttpRequest::DELETE"@ { Some(req_v(default_req(Method::DELETE))) }
    else if f == "HttpRequest::HEAD"@ { Some(req_v(default_req(Method::HEAD))) }
    else if f == "HttpRequest::OPTIONS"@ { Some(req_v(default_req(Method::OPTIONS))) }
    else if f == "HttpRequest::CONNECT"@ { Some(req_v(default_req(Method::CONNECT))) }
    else if f == "HttpRequest::PATCH"@ { Some(req_v(default_req(Method::PATCH))) }
    else if f == "HttpRequest::TRACE"@ { Some(req_v(default_req(Method::TRACE))) }
    else if f == "ID::default"@ { Some(id_v(empty_id())) }
    else if f == "Connection::default"@ { Some(conn_v(empty_conn())) }
    else if f == "IpAddr::localhost"@ { Some(ip_v(IpAddr { a: 127, b: 0, c: 0, d: 1 })) }
    else { None }
}

/// A request's value.
fn req_lit(r: HttpRequest) -> (l: Literal)
    ensures
        l@ == req_v(r@),
{
    Literal::FlatLiteral(FlatLiteral::HttpRequest(Box::new(r)))
}

/// A response's value.
fn res_lit(r: HttpResponse) -> (l: Literal)
    ensures
        l@ == res_v(r@),
{
    Literal::FlatLiteral(FlatLiteral::HttpResponse(Box::new(r)))
}

/// An identity's value.
fn id_lit(i: ID) -> (l: Literal)
    ensures
        l@ == id_v(i@),
{
    Literal::FlatLiteral(FlatLiteral::ID(i))
}

/// A connection's value.
fn conn_lit(c: Connection) -> (l: Literal)
    ensures
        l@ == conn_v(c@),
{
    Literal::FlatLiteral(FlatLiteral::Connection(c))
}

/// The value of a built-in function without arguments on network values
/// (see `net_call0`).
pub fn net_eval_call0(f: &str) -> (r: Option<Literal>)
    ensures
        match r { Some(x) => net_call0(f@) == Some(x@), None => net_call0(f@) is None },
{
    let m = if str_eq(f, "HttpRequest::GET") { Some(Method::GET) }
        else if str_eq(f, "HttpRequest::POST") { Some(Method::POST) }
        else if str_eq(f, "HttpRequest::PUT") { Some(Method::PUT) }
        else if str_eq(f, "HttpRequest::DELETE") { Some(Method::DELETE) }
        else if str_eq(f, "HttpRequest::HEAD") { Some(Method::HEAD) }
        else if str_eq(f, "HttpRequest::OPTIONS") { Some(Method::OPTIONS) }
        else if str_eq(f, "HttpRequest::CONNECT") { Some(Method::CONNECT) }
        else if str_eq(f, "HttpRequest::PATCH") { Some(Method::PATCH) }
        else if str_eq(f, "HttpRequest::TRACE") { Some(Method::TRACE) }
        else { None };
    match m {
        Some(m) => Some(req_lit(HttpRequest::with_method(m))),
        None => if str_eq(f, "ID::default") {
            Some(id_lit(ID::new()))
        } else if str_eq(f, "Connection::default") {
            Some(conn_lit(Connection::empty()))
        } else if str_eq(f, "IpAddr::localhost") {
            Some(Literal::FlatLiteral(FlatLiteral::IpAddr(IpAddr::localhost())))
        } else {
            None
        },
    }
}

/// The one-argument built-in functions on a request.
pub open spec fn req_call1(f: Seq<char>, r: ReqV) -> Option<LitV> {
    if f == "HttpRequest::connection"@ { Some(conn_v(r.connection)) }
    else if f == "HttpRequest::from"@ { Some(id_v(r.connection.from)) }
    else if f == "HttpRequest::to"@ { Some(id_v(r.connection.to)) }
    else if f == "HttpRequest::from_to"@ { Some(from_to_v(r.connection)) }
    else if f == "HttpRequest::method"@ { Some(str_v(crate::literals::method_text(r.method))) }
    else if f == "HttpRequest::version"@ { Some(str_v(crate::literals::version_text(r.version))) }
    else if f == "HttpRequest::path"@ { Some(str_v(r.path)) }
    else if f == "HttpRequest::route"@ { Some(route_v(r.path)) }
    else if f == "HttpRequest::query"@ { Some(str_v(r.query)) }
    else if f == "HttpRequest::query_pairs"@ { Some(query_pairs_v(r.query)) }
    else if f == "HttpRequest::header_pairs"@ { Some(header_pairs_v(r.headers)) }
    else if f == "HttpRequest::headers"@ { Some(headers_v(r.headers)) }
    else { None }
}

/// The one-argument built-in functions on a response.
pub open spec fn res_call1(f: Seq<char>, r: ResV) -> Option<LitV> {
    if f == "HttpResponse::connection"@ { Some(conn_v(r.connection)) }
    else if f == "HttpResponse::from"@ { Some(id_v(r.connection.from)) }
    else if f == "HttpResponse::to"@ { Some(id_v(r.connection.to)) }
    else if f == "HttpResponse::from_to"@ { Some(from_to_v(r.connection)) }
    else if f == "HttpResponse::status"@ { Some(int_v(r.status as i64)) }
    else if f == "HttpResponse::version"@ { Some(str_v(crate::literals::version_text(r.version))) }
    else if f == "HttpResponse::reason"@ {
        Some(match r.reason { Some(x) => LitV::Tuple(seq![str_v(x)]), None => LitV::Tuple(Seq::empty()) })
    }
    else if f == "HttpResponse::header_pairs"@ { Some(header_pairs_v(r.headers)) }
    else if f == "HttpResponse::headers"@ { Some(headers_v(r.headers)) }
    else { None }
}

/// The one-argument built-in functions on an identity.
pub open spec fn id_call1(f: Seq<char>, v: IdV) -> Option<LitV> {
    if f == "ID::labels"@ { Some(labels_v(v)) }
    else if f == "ID::hosts"@ { Some(hosts_v(v)) }
    else if f == "ID::ips"@ { Some(ips_v(v)) }
    else if f == "ID::port"@ { Some(port_v(v.port)) }
    else { None }
}

/// The one-argument built-in functions on a connection.
pub open spec fn conn_call1(f: Seq<char>, c: ConnV) -> Option<LitV> {
    if f == "Connection::from_to"@ { Some(from_to_v(c)) }
    else if f == "Connection::from"@ { Some(id_v(c.from)) }
    else if f == "Connection::to"@ { Some(id_v(c.to)) }
    else if f == "Connection::number"@ { Some(int_v(c.number)) }
    else { None }
}

/// The one-argument built-in functions on network values (and
/// `HttpResponse::new` on a status).
pub open spec fn net_call1(f: Seq<char>, a: FlatLitV) -> Option<LitV> {
    match a {
        FlatLitV::HttpRequest(r) => req_call1(f, r),
        FlatLitV::Int(code) => if f == "HttpResponse::new"@ { Some(res_v(default_res(code as u16))) } else { None },
        FlatLitV::HttpResponse(r) => res_call1(f, r),
        FlatLitV::IpAddr(ip) => if f == "IpAddr::octets"@ { Some(octets_v(ip)) } else { None },
        FlatLitV::ID(v) => id_call1(f, v),
        FlatLitV::Connection(c) => conn_call1(f, c),
        _ => None,
    }
}

fn str_lit(s: &str) -> (r: Literal)
    ensures
        r@ == str_v(s@),
{
    Literal::str(s.to_owned())
}

fn req_eval1(r: &HttpRequest, f: &str) -> (x: Option<Literal>)
    ensures
        match x { Some(x) => req_call1(f@, r@) == Some(x@), None => req_call1(f@, r@) is None },
{
    if str_eq(f, "HttpRequest::connection") { Some(conn_lit(r.connection().dup())) }
    else if str_eq(f, "HttpRequest::from") { Some(r.connection().from_lit()) }
    else if str_eq(f, "HttpRequest::to") { Some(r.connection().to_lit()) }
    else if str_eq(f, "HttpRequest::from_to") { Some(r.connection().from_to()) }
    else if str_eq(f, "HttpRequest::method") { Some(Literal::str(r.method().to_string())) }
    else if str_eq(f, "HttpRequest::version") { Some(Literal::str(r.version().to_string())) }
    else if str_eq(f, "HttpRequest::path") { Some(str_lit(r.path())) }
    else if str_eq(f, "HttpRequest::route") { Some(r.route()) }
    else if str_eq(f, "HttpRequest::query") { Some(str_lit(r.query())) }
    else if str_eq(f, "HttpRequest::query_pairs") { Some(query_pairs_lit(r.query())) }
    else if str_eq(f, "HttpRequest::header_pairs") { Some(r.header_pairs()) }
    else if str_eq(f, "HttpRequest::headers") { Some(r.headers()) }
    else { None }
}

fn res_eval1(r: &HttpResponse, f: &str) -> (x: Option<Literal>)
    ensures
        match x { Some(x) => res_call1(f@, r@) == Some(x@), None => res_call1(f@, r@) is None },
{
    if str_eq(f, "HttpResponse::connection") { Some(conn_lit(r.connection().dup())) }
    else if str_eq(f, "HttpResponse::from") { Some(r.connection().from_lit()) }
    else if str_eq(f, "HttpResponse::to") { Some(r.connection().to_lit()) }
    else if str_eq(f, "HttpResponse::from_to") { Some(r.connection().from_to()) }
    else if str_eq(f, "HttpResponse::status") { Some(Literal::integer(r.status() as i64)) }
    else if str_eq(f, "HttpResponse::version") { Some(Literal::str(r.version().to_string())) }
    else if str_eq(f, "HttpResponse::reason") { Some(r.reason()) }
    else if str_eq(f, "HttpResponse::header_pairs") { Some(r.header_pairs()) }
    else if str_eq(f, "HttpResponse::headers") { Some(r.headers()) }
    else { None }
}

fn id_eval1(v: &ID, f: &str) -> (x: Option<Literal>)
    ensures
        match x { Some(x) => id_call1(f@, v@) == Some(x@), None => id_call1(f@, v@) is None },
{
    if str_eq(f, "ID::labels") { Some(v.labels_lit()) }
    else if str_eq(f, "ID::hosts") { Some(v.hosts_lit()) }
    else if str_eq(f, "ID::ips") { Some(v.ips_lit()) }
    else if str_eq(f, "ID::port") { Some(v.port_lit()) }
    else { None }
}

fn conn_eval1(c: &Connection, f: &str) -> (x: Option<Literal>)
    ensures
        match x { Some(x) => conn_call1(f@, c@) == Some(x@), None => conn_call1(f@, c@) is None },
{
    if str_eq(f, "Connection::from_to") { Some(c.from_to()) }
    else if str_eq(f, "Connection::from") { Some(c.from_lit()) }
    else if str_eq(f, "Connection::to") { Some(c.to_lit()) }
    else if str_eq(f, "Connection::number") { Some(Literal::integer(c.number())) }
    else { None }
}

fn octets_lit(ip: IpAddr) -> (r: Literal)
    ensures
        r@ == octets_v(ip),
{
    let mut v: Vec<Literal> = Vec::new();
    v.push(Literal::integer(ip.a as i64));
    v.push(Literal::integer(ip.b as i64));
    v.push(Literal::integer(ip.c as i64));
    v.push(Literal::integer(ip.d as i64));
    proof { lemma_lits_view_from(v@, seq![int_v(ip.a as i64), int_v(ip.b as i64), int_v(ip.c as i64), int_v(ip.d as i64)]); }
    Literal::Tuple(v)
}

/// The value of a one-argument built-in function on network values (see
/// `net_call1`).
pub fn net_eval_call1(a: &FlatLiteral, f: &str) -> (r: Option<Literal>)
    ensures
        match r { Some(x) => net_call1(f@, a@) == Some(x@), None => net_call1(f@, a@) is None },
{
    match a {
        FlatLiteral::HttpRequest(r) => req_eval1(r, f),
        FlatLiteral::Int(code) => if str_eq(f, "HttpResponse::new") {
            Some(res_lit(HttpResponse::with_status(*code as u16)))
        } else {
            None
        },
        FlatLiteral::HttpResponse(r) => res_eval1(r, f),
        FlatLiteral::IpAddr(ip) => if str_eq(f, "IpAddr::octets") { Some(octets_lit(*ip)) } else { None },
        FlatLiteral::ID(v) => id_eval1(v, f),
        FlatLiteral::Connection(c) => conn_eval1(c, f),
        _ => None,
    }
}

/// The two-argument built-in functions on a request.
pub open spec fn req_call2(f: Seq<char>, r: ReqV, b: FlatLitV) -> Option<LitV> {
    match b {
        FlatLitV::Str(q) =>
            if f == "HttpRequest::set_path"@ { Some(req_v(ReqV { path: q, ..r })) }
            else if f == "HttpRequest::set_query"@ { Some(req_v(ReqV { query: q, ..r })) }
            else if f == "HttpRequest::header"@ { Some(header_v(r.headers, q)) }
            else if f == "HttpRequest::unique_header"@ { Some(unique_header_v(r.headers, q)) }
            else { None },
        FlatLitV::Connection(c) =>
            if f == "HttpRequest::set_connection"@ { Some(req_v(ReqV { connection: c, ..r })) } else { None },
        FlatLitV::ID(i) =>
            if f == "HttpRequest::set_from"@ { Some(req_v(ReqV { connection: ConnV { from: i, ..r.connection }, ..r })) }
            else if f == "HttpRequest::set_to"@ { Some(req_v(ReqV { connection: ConnV { to: i, ..r.connection }, ..r })) }
            else { None },
        _ => None,
    }
}

/// The two-argument built-in functions on a response.
pub open spec fn res_call2(f: Seq<char>, r: ResV, b: FlatLitV) -> Option<LitV> {
    match b {
        FlatLitV::Str(q) =>
            if f == "HttpResponse::header"@ { Some(header_v(r.headers, q)) }
            else if f == "HttpResponse::unique_header"@ { Some(unique_header_v(r.headers, q)) }
            else if f == "HttpResponse::set_reason"@ { Some(res_v(ResV { reason: Some(q), ..r })) }
            else { None },
        FlatLitV::Connection(c) =>
            if f == "HttpResponse::set_connection"@ { Some(res_v(ResV { connection: c, ..r })) } else { None },
        FlatLitV::ID(i) =>
            if f == "HttpResponse::set_from"@ { Some(res_v(ResV { connection: ConnV { from: i, ..r.connection }, ..r })) }
            else if f == "HttpResponse::set_to"@ { Some(res_v(ResV { connection: ConnV { to: i, ..r.connection }, ..r })) }
            else { None },
        _ => None,
    }
}

/// The two-argument built-in functions on an identity.
pub open spec fn id_call2(f: Seq<char>, v: IdV, b: FlatLitV) -> Option<LitV> {
    match b {
        FlatLitV::Label(l) =>
            if f == "ID::has_label"@ { Some(bool_v(id_has_label(v, l))) }
            else if f == "ID::add_label"@ { Some(id_v(IdV { labels: v.labels.insert(label_key(l), l), ..v })) }
            else { None },
        FlatLitV::Str(h) =>
            if f == "ID::has_host"@ { Some(bool_v(v.hosts.contains_key(h))) }
            else if f == "ID::add_host"@ { Some(id_v(IdV { hosts: v.hosts.insert(h, true), ..v })) }
            else { None },
        FlatLitV::IpAddr(ip) =>
            if f == "ID::has_ip"@ { Some(bool_v(v.ips.contains_key(ip_key(ip)))) }
            else if f == "ID::add_ip"@ { Some(id_v(IdV { ips: v.ips.insert(ip_key(ip), ip), ..v })) }
            else { None },
        FlatLitV::Int(q) =>
            if f == "ID::set_port"@ { Some(id_v(IdV { port: Some(q as u16), ..v })) } else { None },
        _ => None,
    }
}

/// The two-argument built-in functions on a connection.
pub open spec fn conn_call2(f: Seq<char>, c: ConnV, b: FlatLitV) -> Option<LitV> {
    match b {
        FlatLitV::ID(i) =>
            if f == "Connection::set_from"@ { Some(conn_v(ConnV { from: i, ..c })) }
            else if f == "Connection::set_to"@ { Some(conn_v(ConnV { to: i, ..c })) }
            else { None },
        FlatLitV::Int(n) =>
            if f == "Connection::set_number"@ { Some(conn_v(ConnV { number: n, ..c })) } else { None },
        _ => None,
    }
}

/// The two-argument built-in functions on network values.
pub open spec fn net_call2(f: Seq<char>, a: FlatLitV, b: FlatLitV) -> Option<LitV> {
    match a {
        FlatLitV::HttpRequest(r) => req_call2(f, r, b),
        FlatLitV::HttpResponse(r) => res_call2(f, r, b),
        FlatLitV::ID(v) => id_call2(f, v, b),
        FlatLitV::Connection(c) => conn_call2(f, c, b),
        _ => None,
    }
}

fn req_eval2(r: &HttpRequest, f: &str, b: &FlatLiteral) -> (x: Option<Literal>)
    ensures
        match x { Some(x) => req_call2(f@, r@, b@) == Some(x@), None => req_call2(f@, r@, b@) is None },
{
    match b {
        FlatLiteral::Str(q) => {
            if str_eq(f, "HttpRequest::set_path") { Some(req_lit(r.set_path(q.as_str()))) }
            else if str_eq(f, "HttpRequest::set_query") { Some(req_lit(r.set_query(q.as_str()))) }
            else if str_eq(f, "HttpRequest::header") { Some(r.header(q.as_str())) }
            else if str_eq(f, "HttpRequest::unique_header") { Some(r.unique_header(q.as_str())) }
            else { None }
        },
        FlatLiteral::Connection(c) =>
            if str_eq(f, "HttpRequest::set_connection") { Some(req_lit(r.set_connection(c))) } else { None },
        FlatLiteral::ID(i) => {
            if str_eq(f, "HttpRequest::set_from") { Some(req_lit(r.set_from(i))) }
            else if str_eq(f, "HttpRequest::set_to") { Some(req_lit(r.set_to(i))) }
            else { None }
        },
        _ => None,
    }
}

fn res_eval2(r: &HttpResponse, f: &str, b: &FlatLiteral) -> (x: Option<Literal>)
    ensures
        match x { Some(x) => res_call2(f@, r@, b@) == Some(x@), None => res_call2(f@, r@, b@) is None },
{
    match b {
        FlatLiteral::Str(q) => {
            if str_eq(f, "HttpResponse::header") { Some(r.header(q.as_str())) }
            else if str_eq(f, "HttpResponse::unique_header") { Some(r.unique_header(q.as_str())) }
            else if str_eq(f, "HttpResponse::set_reason") { Some(res_lit(r.set_reason(q.as_str()))) }
            else { None }
        },
        FlatLiteral::Connection(c) =>
            if str_eq(f, "HttpResponse::set_connection") { Some(res_lit(r.set_connection(c))) } else { None },
        FlatLiteral::ID(i) => {
            if str_eq(f, "HttpResponse::set_from") { Some(res_lit(r.set_from(i))) }
            else if str_eq(f, "HttpResponse::set_to") { Some(res_lit(r.set_to(i))) }
            else { None }
        },
        _ => None,
    }
}

fn id_eval2(v: &ID, f: &str, b: &FlatLiteral) -> (x: Option<Literal>)
    ensures
        match x { Some(x) => id_call2(f@, v@, b@) == Some(x@), None => id_call2(f@, v@, b@) is None },
{
    match b {
        FlatLiteral::Label(l) => {
            if str_eq(f, "ID::has_label") { Some(Literal::bool(v.has_label(l))) }
            else if str_eq(f, "ID::add_label") { Some(id_lit(v.add_label(l))) }
            else { None }
        },
        FlatLiteral::Str(h) => {
            if str_eq(f, "ID::has_host") { Some(Literal::bool(v.has_host(h.as_str()))) }
            else if str_eq(f, "ID::add_host") { Some(id_lit(v.add_host(h.as_str()))) }
            else { None }
        },
        FlatLiteral::IpAddr(ip) => {
            if str_eq(f, "ID::has_ip") { Some(Literal::bool(v.has_ip(*ip))) }
            else if str_eq(f, "ID::add_ip") { Some(id_lit(v.add_ip(*ip))) }
            else { None }
        },
        FlatLiteral::Int(q) =>
            if str_eq(f, "ID::set_port") { Some(id_lit(v.set_port(*q as u16))) } else { None },
        _ => None,
    }
}

fn conn_eval2(c: &Connection, f: &str, b: &FlatLiteral) -> (x: Option<Literal>)
    ensures
        match x { Some(x) => conn_call2(f@, c@, b@) == Some(x@), None => conn_call2(f@, c@, b@) is None },
{
    match b {
        FlatLiteral::ID(i) => {
            if str_eq(f, "Connection::set_from") { Some(conn_lit(c.set_from(i))) }
            else if str_eq(f, "Connection::set_to") { Some(conn_lit(c.set_to(i))) }
            else { None }
        },
        FlatLiteral::Int(n) =>
            if str_eq(f, "Connection::set_number") { Some(conn_lit(c.set_number(*n))) } else { None },
        _ => None,
    }
}

/// The value of a two-argument built-in function on network values (see
/// `net_call2`).
pub fn net_eval_call2(a: &FlatLiteral, f: &str, b: &FlatLiteral) -> (r: Option<Literal>)
    ensures
        match r { Some(x) => net_call2(f@, a@, b@) == Some(x@), None => net_call2(f@, a@, b@) is None },
{
    match a {
        FlatLiteral::HttpRequest(r) => req_eval2(r, f, b),
        FlatLiteral::HttpResponse(r) => res_eval2(r, f, b),
        FlatLiteral::ID(v) => id_eval2(v, f, b),
        FlatLiteral::Connection(c) => conn_eval2(c, f, b),
        _ => None,
    }
}

/// The three-argument built-in functions: setting a header, and making a
/// connection.
pub open spec fn net_call3(f: Seq<char>, a: FlatLitV, b: FlatLitV, c: FlatLitV) -> Option<LitV> {
    match (a, b, c) {
        (FlatLitV::HttpRequest(r), FlatLitV::Str(h), FlatLitV::Data(v)) =>
            if f == "HttpRequest::set_header"@ { Some(req_v(ReqV { headers: set_header_spec(r.headers, h, v), ..r })) } else { None },
        (FlatLitV::HttpResponse(r), FlatLitV::Str(h), FlatLitV::Data(v)) =>
            if f == "HttpResponse::set_header"@ { Some(res_v(ResV { headers: set_header_spec(r.headers, h, v), ..r })) } else { None },
        (FlatLitV::ID(x), FlatLitV::ID(y), FlatLitV::Int(n)) =>
            if f == "Connection::new"@ { Some(conn_v(ConnV { from: x, to: y, number: n })) } else { None },
        _ => None,
    }
}

/// The value of a three-argument built-in function (see `net_call3`).
pub fn net_eval_call3(a: &FlatLiteral, f: &str, b: &FlatLiteral, c: &FlatLiteral) -> (r: Option<Literal>)
    ensures
        match r { Some(x) => net_call3(f@, a@, b@, c@) == Some(x@), None => net_call3(f@, a@, b@, c@) is None },
{
    match (a, b, c) {
        (FlatLiteral::HttpRequest(r), FlatLiteral::Str(h), FlatLiteral::Data(v)) =>
            if str_eq(f, "HttpRequest::set_header") { Some(req_lit(r.set_header(h.as_str(), v))) } else { None },
        (FlatLiteral::HttpResponse(r), FlatLiteral::Str(h), FlatLiteral::Data(v)) =>
            if str_eq(f, "HttpResponse::set_header") { Some(res_lit(r.set_header(h.as_str(), v))) } else { None },
        (FlatLiteral::ID(x), FlatLiteral::ID(y), FlatLiteral::Int(n)) =>
            if str_eq(f, "Connection::new") { Some(conn_lit(Connection::new(x, y, *n))) } else { None },
        _ => None,
    }
}

/// The four-argument built-in function: an address from its octets (each
/// integer taken modulo 256).
pub open spec fn net_call4(f: Seq<char>, a: FlatLitV, b: FlatLitV, c: FlatLitV, d: FlatLitV) -> Option<LitV> {
    match (a, b, c, d) {
        (FlatLitV::Int(w), FlatLitV::Int(x), FlatLitV::Int(y), FlatLitV::Int(z)) =>
            if f == "IpAddr::from"@ { Some(ip_v(IpAddr { a: w as u8, b: x as u8, c: y as u8, d: z as u8 })) } else { None },
        _ => None,
    }
}

/// The value of a four-argument built-in function (see `net_call4`).
pub fn net_eval_call4(a: &FlatLiteral, f: &str, b: &FlatLiteral, c: &FlatLiteral, d: &FlatLiteral) -> (r: Option<Literal>)
    ensures
        match r { Some(x) => net_call4(f@, a@, b@, c@, d@) == Some(x@), None => net_call4(f@, a@, b@, c@, d@) is None },
{
    match (a, b, c, d) {
        (FlatLiteral::Int(w), FlatLiteral::Int(x), FlatLiteral::Int(y), FlatLiteral::Int(z)) =>
            if str_eq(f, "IpAddr::from") {
                Some(Literal::FlatLiteral(FlatLiteral::IpAddr(IpAddr { a: *w as u8, b: *x as u8, c: *y as u8, d: *z as u8 })))
            } else {
                None
            },
        _ => None,
    }
}

} // verus!
