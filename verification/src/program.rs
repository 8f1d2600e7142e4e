//! Loading a program: the headers of its functions and of the functions of
//! its external services are gathered first, then each function is checked
//! against them and kept as code, together with the calls it makes to
//! other functions of the program.

use vstd::prelude::*;
use vstd::utf8::encode_utf8;
use crate::lexer::{Loc, lex_v, try_lex};
use crate::types::{FlatTyp, SigV};
use crate::parser::{Decl, DeclSV, HeadSV, Head, FnDecl, FnDeclSV};
use crate::grammar::program_spec;
use crate::parsing::parse_program;
use crate::headers::{Headers, is_internal_spec};
use crate::checker::{Call, loc_text, type_error_text, type_error_string};
use crate::decls::{fn_sig, head_sig, from_decl_spec, from_decl, sig_res_view};
use crate::expressions::Error;
use crate::evaluate::{Code, Exp, EV, wf};
use crate::text::{push_str, str_eq};
use crate::strmap::StrMap;

verus! {

/// The message of a second declaration of a name.
pub open spec fn duplicate_text(n: Seq<char>) -> Seq<char> {
    "duplicate function \""@ + n + seq!['"']
}

/// The headers of the functions of an external service `en`, from the
/// `j`-th on, added to `h` under `en::name`.
pub open spec fn heads_pass(en: Seq<char>, hs: Seq<HeadSV>, j: int, h: Map<Seq<char>, SigV<FlatTyp>>) -> Result<Map<Seq<char>, SigV<FlatTyp>>, Seq<char>>
    decreases hs.len() - j,
{
    if j < 0 || j >= hs.len() {
        Ok(h)
    } else {
        let n = en + seq![':', ':'] + hs[j].id.1;
        match head_sig::<FlatTyp>(hs[j]) {
            Err(e) => Err("header \""@ + n + "\" at "@ + loc_text(hs[j].id.0) + ": "@ + type_error_text(e)),
            Ok(sg) => if h.contains_key(n) {
                Err(duplicate_text(n))
            } else {
                heads_pass(en, hs, j + 1, h.insert(n, sg))
            },
        }
    }
}

/// The header of a declared function added to `h`.
pub open spec fn fn_header(d: FnDeclSV, h: Map<Seq<char>, SigV<FlatTyp>>) -> Result<Map<Seq<char>, SigV<FlatTyp>>, Seq<char>> {
    let n = d.head.id.1;
    match fn_sig::<FlatTyp>(d.head) {
        Err(e) => Err("function \""@ + n + "\" at "@ + loc_text(d.head.id.0) + ": "@ + type_error_text(e)),
        Ok(sg) => if h.contains_key(n) { Err(duplicate_text(n)) } else { Ok(h.insert(n, sg)) },
    }
}

/// The headers of the declarations from the `i`-th on, added to `h`.
pub open spec fn header_pass(ds: Seq<DeclSV>, i: int, h: Map<Seq<char>, SigV<FlatTyp>>) -> Result<Map<Seq<char>, SigV<FlatTyp>>, Seq<char>>
    decreases ds.len() - i,
{
    if i < 0 || i >= ds.len() {
        Ok(h)
    } else {
        match ds[i] {
            DeclSV::FnDecl(d) => match fn_header(d, h) {
                Err(m) => Err(m),
                Ok(h2) => header_pass(ds, i + 1, h2),
            },
            DeclSV::External(x) => match heads_pass(x.name.1, x.headers, 0, h) {
                Err(m) => Err(m),
                Ok(h2) => header_pass(ds, i + 1, h2),
            },
        }
    }
}

/// The calls of function `n` to functions that are not built in, each with
/// the caller's name.
pub open spec fn program_calls(n: Seq<char>, cs: Seq<(Loc, Seq<char>)>) -> Seq<(Seq<char>, (Loc, Seq<char>))>
    decreases cs.len(),
{
    if cs.len() == 0 {
        Seq::empty()
    } else {
        let rest = program_calls(n, cs.drop_last());
        if is_internal_spec::<FlatTyp>(cs.last().1) { rest } else { rest.push((n, cs.last())) }
    }
}

/// A declared function checked against the headers `h`, fit to be
/// evaluated.
pub open spec fn fn_code(d: FnDeclSV, h: Map<Seq<char>, SigV<FlatTyp>>) -> Result<(Seq<char>, EV, Seq<(Loc, Seq<char>)>), Seq<char>> {
    match from_decl_spec(d, h) {
        Err(m) => Err(m),
        Ok((n, e, calls)) => if !wf(e) { Err("function \""@ + n + "\" cannot be evaluated"@) } else { Ok((n, e, calls)) },
    }
}

/// The functions of the declarations from the `i`-th on, checked against
/// the headers `h` and added to the code `c`, their calls to `cs`.
pub open spec fn code_pass(
    ds: Seq<DeclSV>,
    i: int,
    h: Map<Seq<char>, SigV<FlatTyp>>,
    c: Map<Seq<char>, EV>,
    cs: Seq<(Seq<char>, (Loc, Seq<char>))>,
) -> Result<(Map<Seq<char>, EV>, Seq<(Seq<char>, (Loc, Seq<char>))>), Seq<char>>
    decreases ds.len() - i,
{
    if i < 0 || i >= ds.len() {
        Ok((c, cs))
    } else {
        match ds[i] {
            DeclSV::FnDecl(d) => match fn_code(d, h) {
                Err(m) => Err(m),
                Ok((n, e, calls)) => code_pass(ds, i + 1, h, c.insert(n, e), cs + program_calls(n, calls)),
            },
            DeclSV::External(_) => code_pass(ds, i + 1, h, c, cs),
        }
    }
}

/// Loading a program from its text.
pub open spec fn pre_program_spec(buf: Seq<char>) -> Result<(Map<Seq<char>, SigV<FlatTyp>>, Map<Seq<char>, EV>, Seq<(Seq<char>, (Loc, Seq<char>))>), Seq<char>> {
    match lex_v(buf) {
        None => Err("syntax error"@),
        Some(toks) => match program_spec(toks) {
            None => Err("syntax error"@),
            Some(ds) => match header_pass(ds, 0, Map::empty()) {
                Err(m) => Err(m),
                Ok(h) => match code_pass(ds, 0, h, Map::empty(), Seq::empty()) {
                    Err(m) => Err(m),
                    Ok((c, cs)) => Ok((h, c, cs)),
                },
            },
        },
    }
}

/// The addresses of the external services declared from the `i`-th
/// declaration on, added to `m` (a later declaration of a name replaces an
/// earlier one).
pub open spec fn externals_pass(ds: Seq<DeclSV>, i: int, m: Map<Seq<char>, Seq<char>>) -> Map<Seq<char>, Seq<char>>
    decreases ds.len() - i,
{
    if i < 0 || i >= ds.len() {
        m
    } else {
        match ds[i] {
            DeclSV::External(x) => externals_pass(ds, i + 1, m.insert(x.name.1, x.url.1)),
            DeclSV::FnDecl(_) => externals_pass(ds, i + 1, m),
        }
    }
}

/// The addresses of the external services that a program's text declares.
pub open spec fn externals_of_text(buf: Seq<char>) -> Map<Seq<char>, Seq<char>> {
    match lex_v(buf) {
        Some(toks) => match program_spec(toks) {
            Some(ds) => externals_pass(ds, 0, Map::empty()),
            None => Map::empty(),
        },
        None => Map::empty(),
    }
}

/// A loaded program: the headers of its functions, their code, the calls
/// between them (caller, and where and what it calls), and the addresses of
/// its external services.
pub struct PreProgram {
    pub headers: Headers<FlatTyp>,
    pub code: Code,
    pub calls: Vec<(String, Call)>,
    pub externals: StrMap<String>,
}

/// The addresses of the external services of the declarations.
fn gather_externals(ds: &Vec<Decl>) -> (r: StrMap<String>)
    ensures
        r.map() == externals_pass(ds@.map_values(|d: Decl| d@), 0, Map::empty()),
{
    let ghost dsv = ds@.map_values(|d: Decl| d@);
    let mut m: StrMap<String> = StrMap::new();
    let mut i: usize = 0;
    while i < ds.len()
        invariant
            i <= ds@.len(),
            dsv == ds@.map_values(|d: Decl| d@),
            externals_pass(dsv, 0, Map::empty()) == externals_pass(dsv, i as int, m.map()),
        decreases ds.len() - i,
    {
        assert(dsv[i as int] == ds@[i as int]@);
        if let Decl::External(x) = &ds[i] {
            m.insert(x.name().to_owned(), x.url().to_owned());
        }
        i = i + 1;
    }
    m
}

/// The model of the calls of a program.
pub open spec fn calls_view(v: Seq<(String, Call)>) -> Seq<(Seq<char>, (Loc, Seq<char>))> {
    v.map_values(|x: (String, Call)| (x.0@, x.1@))
}

/// `<what> "<n>" at <l>: <m>`.
fn located_error(what: &str, n: &str, l: Loc, m: &str) -> (s: String)
    ensures
        s@ == what@ + n@ + "\" at "@ + loc_text(l) + ": "@ + m@,
{
    let mut s = what.to_owned();
    push_str(&mut s, n);
    push_str(&mut s, "\" at ");
    push_str(&mut s, l.to_string().as_str());
    push_str(&mut s, ": ");
    push_str(&mut s, m);
    s
}

/// Adds the headers of an external service's functions.
fn add_heads(en: &str, hs: &Vec<Head>, headers: &mut Headers<FlatTyp>) -> (r: Result<(), Error>)
    ensures
        match r {
            Ok(()) => heads_pass(en@, hs@.map_values(|x: Head| x@), 0, old(headers)@) == Ok::<Map<Seq<char>, SigV<FlatTyp>>, Seq<char>>(final(headers)@),
            Err(m) => heads_pass(en@, hs@.map_values(|x: Head| x@), 0, old(headers)@) == Err::<Map<Seq<char>, SigV<FlatTyp>>, Seq<char>>(m.0@),
        },
{
    let ghost hsv = hs@.map_values(|x: Head| x@);
    let ghost h0 = headers@;
    let mut j: usize = 0;
    while j < hs.len()
        invariant
            j <= hs@.len(),
            hsv == hs@.map_values(|x: Head| x@),
            h0 == old(headers)@,
            heads_pass(en@, hsv, 0, h0) == heads_pass(en@, hsv, j as int, headers@),
        decreases hs.len() - j,
    {
        assert(hsv[j as int] == hs@[j as int]@);
        let mut n = en.to_owned();
        push_str(&mut n, "::");
        push_str(&mut n, hs[j].name());
        proof { reveal_strlit("::"); }
        assert(n@ == en@ + seq![':', ':'] + hsv[j as int].id.1);
        let sig = match hs[j].typ::<FlatTyp>() {
            Ok(s) => s,
            Err(e) => {
                let m = type_error_string(&e);
                return Err(Error(located_error("header \"", n.as_str(), hs[j].loc(), m.as_str())));
            },
        };
        if let Err(e) = headers.add_function(n.as_str(), sig) {
            return Err(Error(e.0));
        }
        j = j + 1;
    }
    Ok(())
}

/// The calls of function `n` to functions that are not built in.
fn own_calls(n: &str, cs: &Vec<Call>) -> (r: Vec<(String, Call)>)
    ensures
        calls_view(r@) == program_calls(n@, cs@.map_values(|c: Call| c@)),
{
    let ghost csv = cs@.map_values(|c: Call| c@);
    let mut out: Vec<(String, Call)> = Vec::new();
    let mut k: usize = 0;
    assert(calls_view(out@) =~= program_calls(n@, csv.take(0)));
    while k < cs.len()
        invariant
            k <= cs@.len(),
            csv == cs@.map_values(|c: Call| c@),
            calls_view(out@) == program_calls(n@, csv.take(k as int)),
        decreases cs.len() - k,
    {
        assert(csv.take(k + 1).drop_last() =~= csv.take(k as int));
        assert(csv.take(k + 1).last() == csv[k as int]);
        if !Headers::<FlatTyp>::is_internal(cs[k].name.as_str()) {
            let ghost before = out@;
            let c = Call { loc: cs[k].loc, name: cs[k].name.clone() };
            out.push((n.to_owned(), c));
            assert(calls_view(out@) =~= calls_view(before).push((n@, csv[k as int])));
        }
        k = k + 1;
    }
    assert(csv.take(k as int) =~= csv);
    out
}

/// Adds the header of a declared function (see `fn_header`).
fn add_fn_header(d: &FnDecl, headers: &mut Headers<FlatTyp>) -> (r: Result<(), Error>)
    ensures
        match r {
            Ok(()) => fn_header(d@, old(headers)@) == Ok::<Map<Seq<char>, SigV<FlatTyp>>, Seq<char>>(final(headers)@),
            Err(m) => fn_header(d@, old(headers)@) == Err::<Map<Seq<char>, SigV<FlatTyp>>, Seq<char>>(m.0@),
        },
{
    let n = d.name();
    let sig = match d.typ::<FlatTyp>() {
        Ok(s) => s,
        Err(e) => {
            let m = type_error_string(&e);
            return Err(Error(located_error("function \"", n, d.loc(), m.as_str())));
        },
    };
    match headers.add_function(n, sig) {
        Err(e) => Err(Error(e.0)),
        Ok(()) => Ok(()),
    }
}

/// The headers of all declarations (see `header_pass`).
fn gather_headers(ds: &Vec<Decl>) -> (r: Result<Headers<FlatTyp>, Error>)
    ensures
        match r {
            Ok(h) => header_pass(ds@.map_values(|d: Decl| d@), 0, Map::empty()) == Ok::<Map<Seq<char>, SigV<FlatTyp>>, Seq<char>>(h@),
            Err(m) => header_pass(ds@.map_values(|d: Decl| d@), 0, Map::empty()) == Err::<Map<Seq<char>, SigV<FlatTyp>>, Seq<char>>(m.0@),
        },
{
    let ghost dsv = ds@.map_values(|d: Decl| d@);
    let mut headers: Headers<FlatTyp> = Headers::new();
    let mut i: usize = 0;
    while i < ds.len()
        invariant
            i <= ds@.len(),
            dsv == ds@.map_values(|d: Decl| d@),
            header_pass(dsv, 0, Map::empty()) == header_pass(dsv, i as int, headers@),
        decreases ds.len() - i,
    {
        assert(dsv[i as int] == ds@[i as int]@);
        let res = match &ds[i] {
            Decl::FnDecl(d) => add_fn_header(d, &mut headers),
            Decl::External(x) => add_heads(x.name(), &x.headers, &mut headers),
        };
        if let Err(m) = res {
            return Err(m);
        }
        i = i + 1;
    }
    Ok(headers)
}

/// A declared function checked against the headers (see `fn_code`).
fn check_fn<'a>(d: &'a FnDecl, headers: &Headers<FlatTyp>) -> (r: Result<(&'a str, Exp, Vec<Call>), Error>)
    ensures
        match r {
            Ok((n, e, cs)) => fn_code(d@, headers@) == Ok::<(Seq<char>, EV, Seq<(Loc, Seq<char>)>), Seq<char>>(
                (n@, e@, cs@.map_values(|c: Call| c@))),
            Err(m) => fn_code(d@, headers@) == Err::<(Seq<char>, EV, Seq<(Loc, Seq<char>)>), Seq<char>>(m.0@),
        },
{
    let (n, e, cs) = match from_decl(d, headers) {
        Ok(x) => x,
        Err(m) => return Err(m),
    };
    if !e.fits_evaluation() {
        let mut m = "function \"".to_owned();
        push_str(&mut m, n);
        push_str(&mut m, "\" cannot be evaluated");
        return Err(Error(m));
    }
    Ok((n, e, cs))
}

/// The code and calls of all declared functions (see `code_pass`).
fn gather_code(ds: &Vec<Decl>, headers: &Headers<FlatTyp>) -> (r: Result<(Code, Vec<(String, Call)>), Error>)
    ensures
        match r {
            Ok((c, cs)) => code_pass(ds@.map_values(|d: Decl| d@), 0, headers@, Map::empty(), Seq::empty())
                == Ok::<(Map<Seq<char>, EV>, Seq<(Seq<char>, (Loc, Seq<char>))>), Seq<char>>((c@, calls_view(cs@))),
            Err(m) => code_pass(ds@.map_values(|d: Decl| d@), 0, headers@, Map::empty(), Seq::empty())
                == Err::<(Map<Seq<char>, EV>, Seq<(Seq<char>, (Loc, Seq<char>))>), Seq<char>>(m.0@),
        },
{
    let ghost dsv = ds@.map_values(|d: Decl| d@);
    let mut code = Code::new();
    let mut calls: Vec<(String, Call)> = Vec::new();
    let mut i: usize = 0;
    assert(calls_view(calls@) =~= Seq::<(Seq<char>, (Loc, Seq<char>))>::empty());
    while i < ds.len()
        invariant
            i <= ds@.len(),
            dsv == ds@.map_values(|d: Decl| d@),
            code_pass(dsv, 0, headers@, Map::empty(), Seq::empty()) == code_pass(dsv, i as int, headers@, code@, calls_view(calls@)),
        decreases ds.len() - i,
    {
        assert(dsv[i as int] == ds@[i as int]@);
        if let Decl::FnDecl(d) = &ds[i] {
            let (n, e, cs) = match check_fn(d, headers) {
                Ok(x) => x,
                Err(m) => return Err(m),
            };
            let mut own = own_calls(n, &cs);
            let ghost before = calls_view(calls@);
            let ghost ov = calls_view(own@);
            calls.append(&mut own);
            assert(calls_view(calls@) =~= before + ov);
            code.insert(n.to_owned(), e);
        }
        i = i + 1;
    }
    Ok((code, calls))
}

impl PreProgram {
    /// Loads a program from its text (see `pre_program_spec`).
    pub fn from_str(buf: &str) -> (r: Result<PreProgram, Error>)
        requires
            buf@.len() < 0xffff_ffff,
            encode_utf8(buf@).len() < usize::MAX,
        ensures
            match r {
                Ok(p) => pre_program_spec(buf@) == Ok::<(Map<Seq<char>, SigV<FlatTyp>>, Map<Seq<char>, EV>, Seq<(Seq<char>, (Loc, Seq<char>))>), Seq<char>>(
                    (p.headers@, p.code@, calls_view(p.calls@))),
                Err(m) => pre_program_spec(buf@) == Err::<(Map<Seq<char>, SigV<FlatTyp>>, Map<Seq<char>, EV>, Seq<(Seq<char>, (Loc, Seq<char>))>), Seq<char>>(m.0@),
            },
            r matches Ok(p) ==> p.externals.map() == externals_of_text(buf@),
    {
        let toks = match try_lex(buf) {
            Some(t) => t,
            None => return Err(Error::new("syntax error")),
        };
        let ds = match parse_program(toks.as_slice()) {
            Some(ds) => ds,
            None => return Err(Error::new("syntax error")),
        };
        let headers = match gather_headers(&ds) {
            Ok(h) => h,
            Err(m) => return Err(m),
        };
        let (code, calls) = match gather_code(&ds, &headers) {
            Ok(x) => x,
            Err(m) => return Err(m),
        };
        let externals = gather_externals(&ds);
        Ok(PreProgram { headers, code, calls, externals })
    }
}

// ------------------------------------------------------------ the call graph

/// A walk along directed edges: each step is one of the edges.
pub open spec fn is_walk(es: Seq<(usize, usize)>, p: Seq<usize>) -> bool {
    p.len() >= 1 && forall|i: int| 0 <= i < p.len() - 1 ==> es.contains((#[trigger] p[i], p[i + 1]))
}

/// Node `v` lies on a cycle.
pub open spec fn on_cycle(es: Seq<(usize, usize)>, v: usize) -> bool {
    exists|p: Seq<usize>| #[trigger] is_walk(es, p) && p.len() >= 2 && p[0] == v && p.last() == v
}

/// Node `b` can be reached from node `a` (a node reaches itself).
pub open spec fn reaches(es: Seq<(usize, usize)>, a: usize, b: usize) -> bool {
    exists|p: Seq<usize>| #[trigger] is_walk(es, p) && p[0] == a && p.last() == b
}

/// A graph of `n` nodes with the given edges, fit for `petgraph`.
pub open spec fn graph_fits(n: usize, es: Seq<(usize, usize)>) -> bool {
    &&& n < 0xffff_ffff
    &&& es.len() < 0xffff_ffff
    &&& forall|i: int| 0 <= i < es.len() ==> (#[trigger] es[i]).0 < n && es[i].1 < n
}

/// Looks for a cycle with `petgraph::algo::toposort`: `None` when the graph
/// has none, otherwise a node that lies on one (the node of the `Cycle`
/// error, which toposort takes from a strongly connected component of more
/// than one node, or from a self loop).
#[verifier::external_body]
fn find_cycle(n: usize, es: &Vec<(usize, usize)>) -> (r: Option<usize>)
    requires
        graph_fits(n, es@),
    ensures
        match r {
            None => forall|v: usize| v < n ==> !on_cycle(es@, v),
            Some(v) => v < n && on_cycle(es@, v),
        },
{
    let mut g: petgraph::graph::DiGraph<(), ()> = petgraph::graph::DiGraph::new();
    for _ in 0..n {
        g.add_node(());
    }
    for (a, b) in es.iter() {
        g.add_edge(petgraph::graph::NodeIndex::new(*a), petgraph::graph::NodeIndex::new(*b), ());
    }
    match petgraph::algo::toposort(&g, None) {
        Ok(_) => None,
        Err(c) => Some(c.node_id().index()),
    }
}

/// Whether `b` can be reached from `a`, with
/// `petgraph::algo::has_path_connecting`.
#[verifier::external_body]
fn path_connects(n: usize, es: &Vec<(usize, usize)>, a: usize, b: usize) -> (r: bool)
    requires
        graph_fits(n, es@),
        a < n,
        b < n,
    ensures
        r == reaches(es@, a, b),
{
    let mut g: petgraph::graph::DiGraph<(), ()> = petgraph::graph::DiGraph::new();
    for _ in 0..n {
        g.add_node(());
    }
    for (x, y) in es.iter() {
        g.add_edge(petgraph::graph::NodeIndex::new(*x), petgraph::graph::NodeIndex::new(*y), ());
    }
    petgraph::algo::has_path_connecting(&g, petgraph::graph::NodeIndex::new(a), petgraph::graph::NodeIndex::new(b), None)
}

/// The position of `k` among `keys` from `i` on, or -1.
pub open spec fn first_pos(keys: Seq<Seq<char>>, k: Seq<char>, i: int) -> int
    decreases keys.len() - i,
{
    if i < 0 || i >= keys.len() { -1 } else if keys[i] == k { i } else { first_pos(keys, k, i + 1) }
}

/// The edges of the call graph: from the caller's node to the callee's,
/// nodes being the positions of the names among `keys`.
pub open spec fn call_edges(keys: Seq<Seq<char>>, cs: Seq<(Seq<char>, (Loc, Seq<char>))>) -> Seq<(usize, usize)>
    decreases cs.len(),
{
    if cs.len() == 0 {
        Seq::empty()
    } else {
        let rest = call_edges(keys, cs.drop_last());
        let a = first_pos(keys, cs.last().0, 0);
        let b = first_pos(keys, cs.last().1.1, 0);
        if a >= 0 && b >= 0 { rest.push((a as usize, b as usize)) } else { rest }
    }
}

/// The names of the functions of a program, in order.
pub open spec fn fn_names(h: Map<Seq<char>, SigV<FlatTyp>>) -> Seq<Seq<char>> {
    crate::strmap::sorted_entries(h).map_values(|e: (Seq<char>, SigV<FlatTyp>)| e.0)
}

proof fn lemma_first_pos(keys: Seq<Seq<char>>, k: Seq<char>, i: int)
    requires
        0 <= i <= keys.len(),
    ensures
        -1 <= first_pos(keys, k, i) < keys.len(),
        first_pos(keys, k, i) >= 0 ==> first_pos(keys, k, i) >= i && keys[first_pos(keys, k, i)] == k,
    decreases keys.len() - i,
{
    if i < keys.len() && keys[i] != k {
        lemma_first_pos(keys, k, i + 1);
    }
}

fn find_pos(keys: &Vec<String>, k: &str) -> (r: Option<usize>)
    ensures
        match r {
            Some(i) => first_pos(keys@.map_values(|s: String| s@), k@, 0) == i as int,
            None => first_pos(keys@.map_values(|s: String| s@), k@, 0) == -1,
        },
{
    let ghost ks = keys@.map_values(|s: String| s@);
    let mut i: usize = 0;
    while i < keys.len()
        invariant
            i <= keys@.len(),
            ks == keys@.map_values(|s: String| s@),
            first_pos(ks, k@, 0) == first_pos(ks, k@, i as int),
        decreases keys.len() - i,
    {
        if str_eq(keys[i].as_str(), k) {
            return Some(i);
        }
        i = i + 1;
    }
    None
}

fn edges_of(keys: &Vec<String>, cs: &Vec<(String, Call)>) -> (r: Vec<(usize, usize)>)
    ensures
        r@ == call_edges(keys@.map_values(|s: String| s@), calls_view(cs@)),
        forall|j: int| 0 <= j < r@.len() ==> (#[trigger] r@[j]).0 < keys@.len() && r@[j].1 < keys@.len(),
        r@.len() <= cs@.len(),
{
    let ghost ks = keys@.map_values(|s: String| s@);
    let ghost cv = calls_view(cs@);
    let mut out: Vec<(usize, usize)> = Vec::new();
    let mut i: usize = 0;
    while i < cs.len()
        invariant
            i <= cs@.len(),
            ks == keys@.map_values(|s: String| s@),
            cv == calls_view(cs@),
            out@ == call_edges(ks, cv.take(i as int)),
            out@.len() <= i,
            forall|j: int| 0 <= j < out@.len() ==> (#[trigger] out@[j]).0 < keys@.len() && out@[j].1 < keys@.len(),
        decreases cs.len() - i,
    {
        assert(cv.take(i + 1).drop_last() =~= cv.take(i as int));
        assert(cv.take(i + 1).last() == cv[i as int]);
        proof {
            lemma_first_pos(ks, cv[i as int].0, 0);
            lemma_first_pos(ks, cv[i as int].1.1, 0);
        }
        let a = find_pos(keys, cs[i].0.as_str());
        let b = find_pos(keys, cs[i].1.name.as_str());
        if let (Some(a), Some(b)) = (a, b) {
            out.push((a, b));
        }
        i = i + 1;
    }
    assert(cv.take(i as int) =~= cv);
    out
}

/// The function `tops[t]` is a node of the graph that reaches node `b`.
pub open spec fn kept_by(ks: Seq<Seq<char>>, es: Seq<(usize, usize)>, tops: Seq<Seq<char>>, t: int, b: int) -> bool {
    first_pos(ks, tops[t], 0) >= 0 && reaches(es, first_pos(ks, tops[t], 0) as usize, b as usize)
}

/// Some function of `tops` reaches node `b`.
pub open spec fn kept(ks: Seq<Seq<char>>, es: Seq<(usize, usize)>, tops: Seq<Seq<char>>, b: int) -> bool {
    exists|t: int| 0 <= t < tops.len() && #[trigger] kept_by(ks, es, tops, t, b)
}

/// The names of the first `n` nodes that no function of `tops` reaches.
pub open spec fn unreached_names(ks: Seq<Seq<char>>, es: Seq<(usize, usize)>, tops: Seq<Seq<char>>, n: int) -> Seq<Seq<char>>
    decreases n,
{
    if n <= 0 || n > ks.len() {
        Seq::empty()
    } else {
        let rest = unreached_names(ks, es, tops, n - 1);
        if kept(ks, es, tops, n - 1) { rest } else { rest.push(ks[n - 1]) }
    }
}

/// The message of a cycle through the function `n`.
pub open spec fn cycle_text(n: Seq<char>) -> Seq<char> {
    "cycle detected: the function \""@ + n + "\" might not terminate"@
}

impl PreProgram {
    /// The nodes and edges of the call graph.
    fn call_graph(&self) -> (r: (Vec<String>, Vec<(usize, usize)>))
        ensures
            r.0@.map_values(|s: String| s@) == fn_names(self.headers@),
            r.1@ == call_edges(fn_names(self.headers@), calls_view(self.calls@)),
            forall|j: int| 0 <= j < r.1@.len() ==> (#[trigger] r.1@[j]).0 < r.0@.len() && r.1@[j].1 < r.0@.len(),
            r.1@.len() <= self.calls@.len(),
    {
        self.headers.0.in_order();
        let keys = self.headers.0.keys();
        let es = edges_of(&keys, &self.calls);
        (keys, es)
    }

    /// Loads a program and rejects it when its functions may call each
    /// other without end: `from_str`, then a check that the call graph has
    /// no cycle.
    pub fn from_buf(buf: &str) -> (r: Result<PreProgram, Error>)
        requires
            buf@.len() < 0xffff_ffff,
            encode_utf8(buf@).len() < usize::MAX,
        ensures
            match r {
                Ok(p) => pre_program_spec(buf@) == Ok::<(Map<Seq<char>, SigV<FlatTyp>>, Map<Seq<char>, EV>, Seq<(Seq<char>, (Loc, Seq<char>))>), Seq<char>>(
                    (p.headers@, p.code@, calls_view(p.calls@)))
                    && p.externals.map() == externals_of_text(buf@)
                    && forall|v: usize| v < fn_names(p.headers@).len()
                        ==> !on_cycle(call_edges(fn_names(p.headers@), calls_view(p.calls@)), v),
                Err(m) => pre_program_spec(buf@) == Err::<(Map<Seq<char>, SigV<FlatTyp>>, Map<Seq<char>, EV>, Seq<(Seq<char>, (Loc, Seq<char>))>), Seq<char>>(m.0@)
                    || (pre_program_spec(buf@) matches Ok((h, c, cs)) && {
                        let ks = fn_names(h);
                        let es = call_edges(ks, cs);
                        (exists|v: usize| v < ks.len() && on_cycle(es, v) && m.0@ == cycle_text(ks[v as int]))
                            || (ks.len() >= 0xffff_ffff || es.len() >= 0xffff_ffff) && m.0@ == "program too large"@
                    }),
            },
    {
        let p = match PreProgram::from_str(buf) {
            Ok(p) => p,
            Err(m) => return Err(m),
        };
        let (keys, es) = p.call_graph();
        if keys.len() >= 0xffff_ffff || es.len() >= 0xffff_ffff {
            return Err(Error::new("program too large"));
        }
        match find_cycle(keys.len(), &es) {
            None => Ok(p),
            Some(v) => {
                let mut m = "cycle detected: the function \"".to_owned();
                push_str(&mut m, keys[v].as_str());
                push_str(&mut m, "\" might not terminate");
                Err(Error(m))
            },
        }
    }

    /// The program cut down to the given functions and those they call,
    /// directly or not (all of it when none are given): its headers and
    /// code without the functions that none of them reaches. `None` when the
    /// call graph is too large to build.
    pub fn program(&self, functions: &Vec<String>) -> (r: Option<(Headers<FlatTyp>, Code)>)
        ensures
            match r {
                Some((h, c)) => {
                    let ks = fn_names(self.headers@);
                    let es = call_edges(ks, calls_view(self.calls@));
                    let tops = functions@.map_values(|s: String| s@);
                    let cut = if tops.len() == 0 { Set::empty() } else { unreached_names(ks, es, tops, ks.len() as int).to_set() };
                    h@ == self.headers@.remove_keys(cut) && c@ == self.code@.remove_keys(cut)
                },
                None => fn_names(self.headers@).len() >= 0xffff_ffff || self.calls@.len() >= 0xffff_ffff,
            },
    {
        let (keys, es) = self.call_graph();
        if keys.len() >= 0xffff_ffff || self.calls.len() >= 0xffff_ffff {
            return None;
        }
        let ghost ks = keys@.map_values(|s: String| s@);
        let ghost tops = functions@.map_values(|s: String| s@);
        let mut cut: Vec<String> = Vec::new();
        if functions.len() > 0 {
            let mut b: usize = 0;
            while b < keys.len()
                invariant
                    b <= keys@.len(),
                    ks == keys@.map_values(|s: String| s@),
                    tops == functions@.map_values(|s: String| s@),
                    graph_fits(keys@.len() as usize, es@),
                    cut@.map_values(|s: String| s@) == unreached_names(ks, es@, tops, b as int),
                decreases keys.len() - b,
            {
                let mut found = false;
                let mut t: usize = 0;
                while t < functions.len()
                    invariant
                        t <= functions@.len(),
                        b < keys@.len(),
                        ks == keys@.map_values(|s: String| s@),
                        tops == functions@.map_values(|s: String| s@),
                        graph_fits(keys@.len() as usize, es@),
                        found == exists|q: int| 0 <= q < t && #[trigger] kept_by(ks, es@, tops, q, b as int),
                    decreases functions.len() - t,
                {
                    proof { lemma_first_pos(ks, tops[t as int], 0); }
                    if let Some(a) = find_pos(&keys, functions[t].as_str()) {
                        if path_connects(keys.len(), &es, a, b) {
                            assert(kept_by(ks, es@, tops, t as int, b as int));
                            found = true;
                        }
                    }
                    t = t + 1;
                }
                let ghost before = cut@.map_values(|s: String| s@);
                if !found {
                    cut.push(keys[b].clone());
                    assert(cut@.map_values(|s: String| s@) =~= before.push(ks[b as int]));
                }
                b = b + 1;
            }
        } else {
            assert(cut@.map_values(|s: String| s@) =~= Seq::<Seq<char>>::empty());
        }
        let mut h = Headers(self.headers.0.dup());
        h.cut(cut.as_slice());
        let mut c = Code::new().merge(&self.code);
        assert(c@ =~= self.code@);
        let mut i: usize = 0;
        let ghost cv = cut@.map_values(|s: String| s@);
        while i < cut.len()
            invariant
                i <= cut@.len(),
                cv == cut@.map_values(|s: String| s@),
                c@ == self.code@.remove_keys(cv.take(i as int).to_set()),
            decreases cut.len() - i,
        {
            c.remove(cut[i].as_str());
            proof {
                cv.take(i as int).lemma_push_to_set_commute(cv[i as int]);
                assert(cv.take(i + 1) =~= cv.take(i as int).push(cv[i as int]));
            }
            assert(c@ =~= self.code@.remove_keys(cv.take(i + 1).to_set()));
            i = i + 1;
        }
        assert(cv.take(cut@.len() as int) =~= cv);
        proof {
            if functions@.len() == 0 {
                assert(cv.to_set() =~= Set::<Seq<char>>::empty());
            }
        }
        Some((h, c))
    }
}

} // verus!
