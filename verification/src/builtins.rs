//! The signatures of the functions that the policy language provides:
//! methods of the built-in types and the metadata services of a proxy.

use vstd::prelude::*;
use crate::text::str_eq;
use crate::types::{FlatTyp, CPFlatTyp, TFlatTyp, Typ, TypV, Signature, SigV, flat_t, sig_to_cp_opt};

verus! {

/// A signature with no arguments.
pub(crate) fn sig0<F>(r: Typ<F>) -> (s: Signature<F>)
    ensures
        s@ == (Some(Seq::<TypV<F>>::empty()), r@),
{
    let s = Signature(Some(Vec::new()), r);
    assert(s@.0 == Some(Seq::<TypV<F>>::empty()));
    s
}

/// A signature with one argument.
pub(crate) fn sig1<F>(a: Typ<F>, r: Typ<F>) -> (s: Signature<F>)
    ensures
        s@ == (Some(seq![a@]), r@),
{
    let ghost av = a@;
    let mut v = Vec::new();
    v.push(a);
    let s = Signature(Some(v), r);
    assert(s@.0->0 =~= seq![av]);
    s
}

/// A signature with two arguments.
pub(crate) fn sig2<F>(a: Typ<F>, b: Typ<F>, r: Typ<F>) -> (s: Signature<F>)
    ensures
        s@ == (Some(seq![a@, b@]), r@),
{
    let ghost (av, bv) = (a@, b@);
    let mut v = Vec::new();
    v.push(a);
    v.push(b);
    let s = Signature(Some(v), r);
    assert(s@.0->0 =~= seq![av, bv]);
    s
}

/// A signature with three arguments.
pub(crate) fn sig3<F>(a: Typ<F>, b: Typ<F>, c: Typ<F>, r: Typ<F>) -> (s: Signature<F>)
    ensures
        s@ == (Some(seq![a@, b@, c@]), r@),
{
    let ghost (av, bv, cv) = (a@, b@, c@);
    let mut v = Vec::new();
    v.push(a);
    v.push(b);
    v.push(c);
    let s = Signature(Some(v), r);
    assert(s@.0->0 =~= seq![av, bv, cv]);
    s
}

/// A signature with four arguments.
pub(crate) fn sig4<F>(a: Typ<F>, b: Typ<F>, c: Typ<F>, d: Typ<F>, r: Typ<F>) -> (s: Signature<F>)
    ensures
        s@ == (Some(seq![a@, b@, c@, d@]), r@),
{
    let ghost (av, bv, cv, dv) = (a@, b@, c@, d@);
    let mut v = Vec::new();
    v.push(a);
    v.push(b);
    v.push(c);
    v.push(d);
    let s = Signature(Some(v), r);
    assert(s@.0->0 =~= seq![av, bv, cv, dv]);
    s
}

/// The pair type.
fn tuple2<F>(a: Typ<F>, b: Typ<F>) -> (t: Typ<F>)
    ensures
        t@ == TypV::Tuple(seq![a@, b@]),
{
    let ghost (av, bv) = (a@, b@);
    let mut v = Vec::new();
    v.push(a);
    v.push(b);
    let t = Typ::Tuple(v);
    assert(t@->Tuple_0 =~= seq![av, bv]);
    t
}

/// The quadruple type.
fn tuple4<F>(a: Typ<F>, b: Typ<F>, c: Typ<F>, d: Typ<F>) -> (t: Typ<F>)
    ensures
        t@ == TypV::Tuple(seq![a@, b@, c@, d@]),
{
    let ghost (av, bv, cv, dv) = (a@, b@, c@, d@);
    let mut v = Vec::new();
    v.push(a);
    v.push(b);
    v.push(c);
    v.push(d);
    let t = Typ::Tuple(v);
    assert(t@->Tuple_0 =~= seq![av, bv, cv, dv]);
    t
}

/// `List<t>`.
fn list_of<F>(t: Typ<F>) -> (r: Typ<F>)
    ensures
        r@ == TypV::List(Box::new(t@)),
{
    Typ::List(Box::new(t))
}

/// `Option<t>`.
fn option_of<F>(t: Typ<F>) -> (r: Typ<F>)
    ensures
        r@ == TypV::Tuple(seq![t@]),
{
    let ghost tv = t@;
    let mut v = Vec::new();
    v.push(t);
    let r = Typ::Tuple(v);
    assert(r@->Tuple_0 =~= seq![tv]);
    r
}

/// The option type of unknown content.
fn any_option_of<F>() -> (r: Typ<F>)
    ensures
        r@ == TypV::<F>::Tuple(Seq::empty()),
{
    let r = Typ::Tuple(Vec::new());
    assert(r@->Tuple_0 =~= Seq::<TypV<F>>::empty());
    r
}

/// Signatures of the built-in functions on data-plane values.
pub open spec fn dp_builtin(f: Seq<char>) -> Option<SigV<FlatTyp>> {
    if f == "option::Some"@ { Some((Some(seq![TypV::<FlatTyp>::Flat(FlatTyp::Return)]), TypV::<FlatTyp>::Flat(FlatTyp::Return))) }
    else if f == "i64::abs"@ { Some((Some(seq![TypV::<FlatTyp>::Flat(FlatTyp::I64)]), TypV::<FlatTyp>::Flat(FlatTyp::I64))) }
    else if f == "i64::to_str"@ { Some((Some(seq![TypV::<FlatTyp>::Flat(FlatTyp::I64)]), TypV::<FlatTyp>::Flat(FlatTyp::Str))) }
    else if f == "str::len"@ { Some((Some(seq![TypV::<FlatTyp>::Flat(FlatTyp::Str)]), TypV::<FlatTyp>::Flat(FlatTyp::I64))) }
    else if f == "str::to_lowercase"@ { Some((Some(seq![TypV::<FlatTyp>::Flat(FlatTyp::Str)]), TypV::<FlatTyp>::Flat(FlatTyp::Str))) }
    else if f == "str::to_uppercase"@ { Some((Some(seq![TypV::<FlatTyp>::Flat(FlatTyp::Str)]), TypV::<FlatTyp>::Flat(FlatTyp::Str))) }
    else if f == "str::trim_start"@ { Some((Some(seq![TypV::<FlatTyp>::Flat(FlatTyp::Str)]), TypV::<FlatTyp>::Flat(FlatTyp::Str))) }
    else if f == "str::trim_end"@ { Some((Some(seq![TypV::<FlatTyp>::Flat(FlatTyp::Str)]), TypV::<FlatTyp>::Flat(FlatTyp::Str))) }
    else if f == "str::as_bytes"@ { Some((Some(seq![TypV::<FlatTyp>::Flat(FlatTyp::Str)]), TypV::<FlatTyp>::Flat(FlatTyp::Data))) }
    else if f == "str::from_utf8"@ { Some((Some(seq![TypV::<FlatTyp>::Flat(FlatTyp::Data)]), TypV::<FlatTyp>::Flat(FlatTyp::Str))) }
    else if f == "str::to_base64"@ { Some((Some(seq![TypV::<FlatTyp>::Flat(FlatTyp::Str)]), TypV::<FlatTyp>::Flat(FlatTyp::Str))) }
    else if f == "str::is_match"@ { Some((Some(seq![TypV::<FlatTyp>::Flat(FlatTyp::Str), TypV::<FlatTyp>::Flat(FlatTyp::Regex)]), TypV::<FlatTyp>::Flat(FlatTyp::Bool))) }
    else if f == "regex::is_match"@ { Some((Some(seq![TypV::<FlatTyp>::Flat(FlatTyp::Regex), TypV::<FlatTyp>::Flat(FlatTyp::Str)]), TypV::<FlatTyp>::Flat(FlatTyp::Bool))) }
    else if f == "data::to_base64"@ { Some((Some(seq![TypV::<FlatTyp>::Flat(FlatTyp::Data)]), TypV::<FlatTyp>::Flat(FlatTyp::Str))) }
    else if f == "data::len"@ { Some((Some(seq![TypV::<FlatTyp>::Flat(FlatTyp::Data)]), TypV::<FlatTyp>::Flat(FlatTyp::I64))) }
    else if f == "i64::pow"@ { Some((Some(seq![TypV::<FlatTyp>::Flat(FlatTyp::I64), TypV::<FlatTyp>::Flat(FlatTyp::I64)]), TypV::<FlatTyp>::Flat(FlatTyp::I64))) }
    else if f == "i64::min"@ { Some((Some(seq![TypV::<FlatTyp>::Flat(FlatTyp::I64), TypV::<FlatTyp>::Flat(FlatTyp::I64)]), TypV::<FlatTyp>::Flat(FlatTyp::I64))) }
    else if f == "i64::max"@ { Some((Some(seq![TypV::<FlatTyp>::Flat(FlatTyp::I64), TypV::<FlatTyp>::Flat(FlatTyp::I64)]), TypV::<FlatTyp>::Flat(FlatTyp::I64))) }
    else if f == "str::starts_with"@ { Some((Some(seq![TypV::<FlatTyp>::Flat(FlatTyp::Str), TypV::<FlatTyp>::Flat(FlatTyp::Str)]), TypV::<FlatTyp>::Flat(FlatTyp::Bool))) }
    else if f == "str::ends_with"@ { Some((Some(seq![TypV::<FlatTyp>::Flat(FlatTyp::Str), TypV::<FlatTyp>::Flat(FlatTyp::Str)]), TypV::<FlatTyp>::Flat(FlatTyp::Bool))) }
    else if f == "str::contains"@ { Some((Some(seq![TypV::<FlatTyp>::Flat(FlatTyp::Str), TypV::<FlatTyp>::Flat(FlatTyp::Str)]), TypV::<FlatTyp>::Flat(FlatTyp::Bool))) }
    else if f == "HttpRequest::GET"@ { Some((Some(seq![]), TypV::<FlatTyp>::Flat(FlatTyp::HttpRequest))) }
    else if f == "HttpRequest::POST"@ { Some((Some(seq![]), TypV::<FlatTyp>::Flat(FlatTyp::HttpRequest))) }
    else if f == "HttpRequest::PUT"@ { Some((Some(seq![]), TypV::<FlatTyp>::Flat(FlatTyp::HttpRequest))) }
    else if f == "HttpRequest::DELETE"@ { Some((Some(seq![]), TypV::<FlatTyp>::Flat(FlatTyp::HttpRequest))) }
    else if f == "HttpRequest::HEAD"@ { Some((Some(seq![]), TypV::<FlatTyp>::Flat(FlatTyp::HttpRequest))) }
    else if f == "HttpRequest::OPTIONS"@ { Some((Some(seq![]), TypV::<FlatTyp>::Flat(FlatTyp::HttpRequest))) }
    else if f == "HttpRequest::CONNECT"@ { Some((Some(seq![]), TypV::<FlatTyp>::Flat(FlatTyp::HttpRequest))) }
    else if f == "HttpRequest::PATCH"@ { Some((Some(seq![]), TypV::<FlatTyp>::Flat(FlatTyp::HttpRequest))) }
    else if f == "HttpRequest::TRACE"@ { Some((Some(seq![]), TypV::<FlatTyp>::Flat(FlatTyp::HttpRequest))) }
    else if f == "HttpRequest::connection"@ { Some((Some(seq![TypV::<FlatTyp>::Flat(FlatTyp::HttpRequest)]), TypV::<FlatTyp>::Flat(FlatTyp::Connection))) }
    else if f == "HttpRequest::from"@ { Some((Some(seq![TypV::<FlatTyp>::Flat(FlatTyp::HttpRequest)]), TypV::<FlatTyp>::Flat(FlatTyp::ID))) }
    else if f == "HttpRequest::to"@ { Some((Some(seq![TypV::<FlatTyp>::Flat(FlatTyp::HttpRequest)]), TypV::<FlatTyp>::Flat(FlatTyp::ID))) }
    else if f == "HttpRequest::set_from"@ { Some((Some(seq![TypV::<FlatTyp>::Flat(FlatTyp::HttpRequest), TypV::<FlatTyp>::Flat(FlatTyp::ID)]), TypV::<FlatTyp>::Flat(FlatTyp::HttpRequest))) }
    else if f == "HttpRequest::set_to"@ { Some((Some(seq![TypV::<FlatTyp>::Flat(FlatTyp::HttpRequest), TypV::<FlatTyp>::Flat(FlatTyp::ID)]), TypV::<FlatTyp>::Flat(FlatTyp::HttpRequest))) }
    else if f == "HttpRequest::method"@ { Some((Some(seq![TypV::<FlatTyp>::Flat(FlatTyp::HttpRequest)]), TypV::<FlatTyp>::Flat(FlatTyp::Str))) }
    else if f == "HttpRequest::version"@ { Some((Some(seq![TypV::<FlatTyp>::Flat(FlatTyp::HttpRequest)]), TypV::<FlatTyp>::Flat(FlatTyp::Str))) }
    else if f == "HttpRequest::path"@ { Some((Some(seq![TypV::<FlatTyp>::Flat(FlatTyp::HttpRequest)]), TypV::<FlatTyp>::Flat(FlatTyp::Str))) }
    else if f == "HttpRequest::query"@ { Some((Some(seq![TypV::<FlatTyp>::Flat(FlatTyp::HttpRequest)]), TypV::<FlatTyp>::Flat(FlatTyp::Str))) }
    else if f == "HttpRequest::set_path"@ { Some((Some(seq![TypV::<FlatTyp>::Flat(FlatTyp::HttpRequest), TypV::<FlatTyp>::Flat(FlatTyp::Str)]), TypV::<FlatTyp>::Flat(FlatTyp::HttpRequest))) }
    else if f == "HttpRequest::set_query"@ { Some((Some(seq![TypV::<FlatTyp>::Flat(FlatTyp::HttpRequest), TypV::<FlatTyp>::Flat(FlatTyp::Str)]), TypV::<FlatTyp>::Flat(FlatTyp::HttpRequest))) }
    else if f == "HttpRequest::set_header"@ { Some((Some(seq![TypV::<FlatTyp>::Flat(FlatTyp::HttpRequest), TypV::<FlatTyp>::Flat(FlatTyp::Str), TypV::<FlatTyp>::Flat(FlatTyp::Data)]), TypV::<FlatTyp>::Flat(FlatTyp::HttpRequest))) }
    else if f == "HttpRequest::set_connection"@ { Some((Some(seq![TypV::<FlatTyp>::Flat(FlatTyp::HttpRequest), TypV::<FlatTyp>::Flat(FlatTyp::Connection)]), TypV::<FlatTyp>::Flat(FlatTyp::HttpRequest))) }
    else if f == "HttpResponse::new"@ { Some((Some(seq![TypV::<FlatTyp>::Flat(FlatTyp::I64)]), TypV::<FlatTyp>::Flat(FlatTyp::HttpResponse))) }
    else if f == "HttpResponse::connection"@ { Some((Some(seq![TypV::<FlatTyp>::Flat(FlatTyp::HttpResponse)]), TypV::<FlatTyp>::Flat(FlatTyp::Connection))) }
    else if f == "HttpResponse::from"@ { Some((Some(seq![TypV::<FlatTyp>::Flat(FlatTyp::HttpResponse)]), TypV::<FlatTyp>::Flat(FlatTyp::ID))) }
    else if f == "HttpResponse::to"@ { Some((Some(seq![TypV::<FlatTyp>::Flat(FlatTyp::HttpResponse)]), TypV::<FlatTyp>::Flat(FlatTyp::ID))) }
    else if f == "HttpResponse::set_from"@ { Some((Some(seq![TypV::<FlatTyp>::Flat(FlatTyp::HttpResponse), TypV::<FlatTyp>::Flat(FlatTyp::ID)]), TypV::<FlatTyp>::Flat(FlatTyp::HttpResponse))) }
    else if f == "HttpResponse::set_to"@ { Some((Some(seq![TypV::<FlatTyp>::Flat(FlatTyp::HttpResponse), TypV::<FlatTyp>::Flat(FlatTyp::ID)]), TypV::<FlatTyp>::Flat(FlatTyp::HttpResponse))) }
    else if f == "HttpResponse::status"@ { Some((Some(seq![TypV::<FlatTyp>::Flat(FlatTyp::HttpResponse)]), TypV::<FlatTyp>::Flat(FlatTyp::I64))) }
    else if f == "HttpResponse::version"@ { Some((Some(seq![TypV::<FlatTyp>::Flat(FlatTyp::HttpResponse)]), TypV::<FlatTyp>::Flat(FlatTyp::Str))) }
    else if f == "HttpResponse::set_reason"@ { Some((Some(seq![TypV::<FlatTyp>::Flat(FlatTyp::HttpResponse), TypV::<FlatTyp>::Flat(FlatTyp::Str)]), TypV::<FlatTyp>::Flat(FlatTyp::HttpResponse))) }
    else if f == "HttpResponse::set_header"@ { Some((Some(seq![TypV::<FlatTyp>::Flat(FlatTyp::HttpResponse), TypV::<FlatTyp>::Flat(FlatTyp::Str), TypV::<FlatTyp>::Flat(FlatTyp::Data)]), TypV::<FlatTyp>::Flat(FlatTyp::HttpResponse))) }
    else if f == "HttpResponse::set_connection"@ { Some((Some(seq![TypV::<FlatTyp>::Flat(FlatTyp::HttpResponse), TypV::<FlatTyp>::Flat(FlatTyp::Connection)]), TypV::<FlatTyp>::Flat(FlatTyp::HttpResponse))) }
    else if f == "IpAddr::localhost"@ { Some((Some(seq![]), TypV::<FlatTyp>::Flat(FlatTyp::IpAddr))) }
    else if f == "IpAddr::from"@ { Some((Some(seq![TypV::<FlatTyp>::Flat(FlatTyp::I64), TypV::<FlatTyp>::Flat(FlatTyp::I64), TypV::<FlatTyp>::Flat(FlatTyp::I64), TypV::<FlatTyp>::Flat(FlatTyp::I64)]), TypV::<FlatTyp>::Flat(FlatTyp::IpAddr))) }
    else if f == "ID::default"@ { Some((Some(seq![]), TypV::<FlatTyp>::Flat(FlatTyp::ID))) }
    else if f == "ID::add_label"@ { Some((Some(seq![TypV::<FlatTyp>::Flat(FlatTyp::ID), TypV::<FlatTyp>::Flat(FlatTyp::Label)]), TypV::<FlatTyp>::Flat(FlatTyp::ID))) }
    else if f == "ID::add_host"@ { Some((Some(seq![TypV::<FlatTyp>::Flat(FlatTyp::ID), TypV::<FlatTyp>::Flat(FlatTyp::Str)]), TypV::<FlatTyp>::Flat(FlatTyp::ID))) }
    else if f == "ID::add_ip"@ { Some((Some(seq![TypV::<FlatTyp>::Flat(FlatTyp::ID), TypV::<FlatTyp>::Flat(FlatTyp::IpAddr)]), TypV::<FlatTyp>::Flat(FlatTyp::ID))) }
    else if f == "ID::set_port"@ { Some((Some(seq![TypV::<FlatTyp>::Flat(FlatTyp::ID), TypV::<FlatTyp>::Flat(FlatTyp::I64)]), TypV::<FlatTyp>::Flat(FlatTyp::ID))) }
    else if f == "ID::has_label"@ { Some((Some(seq![TypV::<FlatTyp>::Flat(FlatTyp::ID), TypV::<FlatTyp>::Flat(FlatTyp::Label)]), TypV::<FlatTyp>::Flat(FlatTyp::Bool))) }
    else if f == "ID::has_host"@ { Some((Some(seq![TypV::<FlatTyp>::Flat(FlatTyp::ID), TypV::<FlatTyp>::Flat(FlatTyp::Str)]), TypV::<FlatTyp>::Flat(FlatTyp::Bool))) }
    else if f == "ID::has_ip"@ { Some((Some(seq![TypV::<FlatTyp>::Flat(FlatTyp::ID), TypV::<FlatTyp>::Flat(FlatTyp::IpAddr)]), TypV::<FlatTyp>::Flat(FlatTyp::Bool))) }
    else if f == "Connection::default"@ { Some((Some(seq![]), TypV::<FlatTyp>::Flat(FlatTyp::Connection))) }
    else if f == "Connection::new"@ { Some((Some(seq![TypV::<FlatTyp>::Flat(FlatTyp::ID), TypV::<FlatTyp>::Flat(FlatTyp::ID), TypV::<FlatTyp>::Flat(FlatTyp::I64)]), TypV::<FlatTyp>::Flat(FlatTyp::Connection))) }
    else if f == "Connection::from"@ { Some((Some(seq![TypV::<FlatTyp>::Flat(FlatTyp::Connection)]), TypV::<FlatTyp>::Flat(FlatTyp::ID))) }
    else if f == "Connection::to"@ { Some((Some(seq![TypV::<FlatTyp>::Flat(FlatTyp::Connection)]), TypV::<FlatTyp>::Flat(FlatTyp::ID))) }
    else if f == "Connection::number"@ { Some((Some(seq![TypV::<FlatTyp>::Flat(FlatTyp::Connection)]), TypV::<FlatTyp>::Flat(FlatTyp::I64))) }
    else if f == "Connection::set_from"@ { Some((Some(seq![TypV::<FlatTyp>::Flat(FlatTyp::Connection), TypV::<FlatTyp>::Flat(FlatTyp::ID)]), TypV::<FlatTyp>::Flat(FlatTyp::Connection))) }
    else if f == "Connection::set_to"@ { Some((Some(seq![TypV::<FlatTyp>::Flat(FlatTyp::Connection), TypV::<FlatTyp>::Flat(FlatTyp::ID)]), TypV::<FlatTyp>::Flat(FlatTyp::Connection))) }
    else if f == "Connection::set_number"@ { Some((Some(seq![TypV::<FlatTyp>::Flat(FlatTyp::Connection), TypV::<FlatTyp>::Flat(FlatTyp::I64)]), TypV::<FlatTyp>::Flat(FlatTyp::Connection))) }
    else if f == "Label::is_match"@ { Some((Some(seq![TypV::<FlatTyp>::Flat(FlatTyp::Label), TypV::<FlatTyp>::Flat(FlatTyp::Label)]), TypV::<FlatTyp>::Flat(FlatTyp::Bool))) }
    else if f == "System::getCurrentTime"@ { Some((Some(seq![]), TypV::<FlatTyp>::Flat(FlatTyp::I64))) }
    else { None }
}

/// Signatures of the data-plane metadata services.
pub open spec fn dp_internal_service(f: Seq<char>) -> Option<SigV<FlatTyp>> {
    if f == "Ingress::has_label"@ { Some((Some(seq![TypV::<FlatTyp>::Flat(FlatTyp::Label)]), TypV::<FlatTyp>::Flat(FlatTyp::Bool))) }
    else if f == "Egress::set_id"@ { Some((Some(seq![]), TypV::<FlatTyp>::Flat(FlatTyp::Unit))) }
    else if f == "Egress::has_label"@ { Some((Some(seq![TypV::<FlatTyp>::Flat(FlatTyp::Label)]), TypV::<FlatTyp>::Flat(FlatTyp::Bool))) }
    else if f == "Egress::push"@ { Some((Some(seq![TypV::<FlatTyp>::Flat(FlatTyp::Data)]), TypV::<FlatTyp>::Flat(FlatTyp::Unit))) }
    else if f == "Egress::add_label"@ { Some((Some(seq![TypV::<FlatTyp>::Flat(FlatTyp::Label)]), TypV::<FlatTyp>::Flat(FlatTyp::Unit))) }
    else if f == "Egress::remove_label"@ { Some((Some(seq![TypV::<FlatTyp>::Flat(FlatTyp::Label)]), TypV::<FlatTyp>::Flat(FlatTyp::Unit))) }
    else if f == "Egress::wipe"@ { Some((Some(seq![]), TypV::<FlatTyp>::Flat(FlatTyp::Unit))) }
    else { None }
}

/// Signatures of the built-in functions on composite values; the others come from the flat type family.
pub open spec fn typ_builtin<F: TFlatTyp>(f: Seq<char>) -> Option<SigV<F>> {
    if f == "option::is_none"@ { Some((Some(seq![TypV::<F>::Tuple(Seq::empty())]), flat_t::<F>(FlatTyp::Bool))) }
    else if f == "option::is_some"@ { Some((Some(seq![TypV::<F>::Tuple(Seq::empty())]), flat_t::<F>(FlatTyp::Bool))) }
    else if f == "list::len"@ { Some((Some(seq![TypV::List(Box::new(flat_t::<F>(FlatTyp::Return)))]), flat_t::<F>(FlatTyp::I64))) }
    else if f == "list::reduce"@ { Some((Some(seq![TypV::List(Box::new(flat_t::<F>(FlatTyp::Return)))]), TypV::Tuple(seq![flat_t::<F>(FlatTyp::Return)]))) }
    else if f == "list::is_subset"@ { Some((Some(seq![TypV::List(Box::new(flat_t::<F>(FlatTyp::Return))), TypV::List(Box::new(flat_t::<F>(FlatTyp::Return)))]), flat_t::<F>(FlatTyp::Bool))) }
    else if f == "list::is_disjoint"@ { Some((Some(seq![TypV::List(Box::new(flat_t::<F>(FlatTyp::Return))), TypV::List(Box::new(flat_t::<F>(FlatTyp::Return)))]), flat_t::<F>(FlatTyp::Bool))) }
    else if f == "list::difference"@ { Some((Some(seq![TypV::List(Box::new(flat_t::<F>(FlatTyp::Return))), TypV::List(Box::new(flat_t::<F>(FlatTyp::Return)))]), TypV::List(Box::new(flat_t::<F>(FlatTyp::Return))))) }
    else if f == "list::intersection"@ { Some((Some(seq![TypV::List(Box::new(flat_t::<F>(FlatTyp::Return))), TypV::List(Box::new(flat_t::<F>(FlatTyp::Return)))]), TypV::List(Box::new(flat_t::<F>(FlatTyp::Return))))) }
    else if f == "HttpRequest::query_pairs"@ { Some((Some(seq![flat_t::<F>(FlatTyp::HttpRequest)]), TypV::List(Box::new(TypV::Tuple(seq![flat_t::<F>(FlatTyp::Str), flat_t::<F>(FlatTyp::Str)]))))) }
    else if f == "HttpRequest::from_to"@ { Some((Some(seq![flat_t::<F>(FlatTyp::HttpRequest)]), TypV::Tuple(seq![flat_t::<F>(FlatTyp::ID), flat_t::<F>(FlatTyp::ID)]))) }
    else if f == "HttpRequest::header"@ { Some((Some(seq![flat_t::<F>(FlatTyp::HttpRequest), flat_t::<F>(FlatTyp::Str)]), TypV::Tuple(seq![TypV::List(Box::new(flat_t::<F>(FlatTyp::Data)))]))) }
    else if f == "HttpRequest::header_pairs"@ { Some((Some(seq![flat_t::<F>(FlatTyp::HttpRequest)]), TypV::List(Box::new(TypV::Tuple(seq![flat_t::<F>(FlatTyp::Str), flat_t::<F>(FlatTyp::Data)]))))) }
    else if f == "HttpResponse::reason"@ { Some((Some(seq![flat_t::<F>(FlatTyp::HttpResponse)]), TypV::Tuple(seq![flat_t::<F>(FlatTyp::Str)]))) }
    else if f == "HttpRequest::unique_header"@ { Some((Some(seq![flat_t::<F>(FlatTyp::HttpRequest), flat_t::<F>(FlatTyp::Str)]), TypV::Tuple(seq![flat_t::<F>(FlatTyp::Data)]))) }
    else if f == "HttpResponse::from_to"@ { Some((Some(seq![flat_t::<F>(FlatTyp::HttpResponse)]), TypV::Tuple(seq![flat_t::<F>(FlatTyp::ID), flat_t::<F>(FlatTyp::ID)]))) }
    else if f == "HttpResponse::header"@ { Some((Some(seq![flat_t::<F>(FlatTyp::HttpResponse), flat_t::<F>(FlatTyp::Str)]), TypV::Tuple(seq![TypV::List(Box::new(flat_t::<F>(FlatTyp::Data)))]))) }
    else if f == "HttpResponse::headers"@ { Some((Some(seq![flat_t::<F>(FlatTyp::HttpResponse)]), TypV::List(Box::new(flat_t::<F>(FlatTyp::Str))))) }
    else if f == "HttpResponse::header_pairs"@ { Some((Some(seq![flat_t::<F>(FlatTyp::HttpResponse)]), TypV::List(Box::new(TypV::Tuple(seq![flat_t::<F>(FlatTyp::Str), flat_t::<F>(FlatTyp::Data)]))))) }
    else if f == "HttpResponse::unique_header"@ { Some((Some(seq![flat_t::<F>(FlatTyp::HttpResponse), flat_t::<F>(FlatTyp::Str)]), TypV::Tuple(seq![flat_t::<F>(FlatTyp::Data)]))) }
    else if f == "IpAddr::lookup"@ { Some((Some(seq![flat_t::<F>(FlatTyp::Str)]), TypV::Tuple(seq![TypV::List(Box::new(flat_t::<F>(FlatTyp::IpAddr)))]))) }
    else if f == "IpAddr::octets"@ { Some((Some(seq![flat_t::<F>(FlatTyp::IpAddr)]), TypV::Tuple(seq![flat_t::<F>(FlatTyp::I64), flat_t::<F>(FlatTyp::I64), flat_t::<F>(FlatTyp::I64), flat_t::<F>(FlatTyp::I64)]))) }
    else if f == "ID::find_label"@ { Some((Some(seq![flat_t::<F>(FlatTyp::ID), flat_t::<F>(FlatTyp::Label)]), TypV::Tuple(seq![flat_t::<F>(FlatTyp::Label)]))) }
    else if f == "ID::labels"@ { Some((Some(seq![flat_t::<F>(FlatTyp::ID)]), TypV::List(Box::new(flat_t::<F>(FlatTyp::Label))))) }
    else if f == "ID::hosts"@ { Some((Some(seq![flat_t::<F>(FlatTyp::ID)]), TypV::List(Box::new(flat_t::<F>(FlatTyp::Str))))) }
    else if f == "ID::ips"@ { Some((Some(seq![flat_t::<F>(FlatTyp::ID)]), TypV::List(Box::new(flat_t::<F>(FlatTyp::IpAddr))))) }
    else if f == "ID::port"@ { Some((Some(seq![flat_t::<F>(FlatTyp::ID)]), TypV::Tuple(seq![flat_t::<F>(FlatTyp::I64)]))) }
    else if f == "Label::captures"@ { Some((Some(seq![flat_t::<F>(FlatTyp::Label), flat_t::<F>(FlatTyp::Label)]), TypV::Tuple(seq![TypV::List(Box::new(TypV::Tuple(seq![flat_t::<F>(FlatTyp::Str), flat_t::<F>(FlatTyp::Str)])))]))) }
    else if f == "Label::concat"@ { Some((Some(seq![flat_t::<F>(FlatTyp::Label), flat_t::<F>(FlatTyp::Label)]), flat_t::<F>(FlatTyp::Label))) }
    else if f == "Label::parts"@ { Some((Some(seq![flat_t::<F>(FlatTyp::Label)]), TypV::Tuple(seq![TypV::List(Box::new(flat_t::<F>(FlatTyp::Str)))]))) }
    else { F::builtin_spec(f) }
}

/// Signatures of the metadata services on composite values; the others come from the flat type family.
pub open spec fn typ_internal_service<F: TFlatTyp>(f: Seq<char>) -> Option<SigV<F>> {
    if f == "Egress::find_label"@ { Some((Some(seq![flat_t::<F>(FlatTyp::Label)]), TypV::Tuple(seq![flat_t::<F>(FlatTyp::Label)]))) }
    else if f == "Egress::id"@ { Some((Some(seq![]), TypV::Tuple(seq![flat_t::<F>(FlatTyp::Label)]))) }
    else if f == "Egress::data"@ { Some((Some(seq![]), TypV::List(Box::new(flat_t::<F>(FlatTyp::Data))))) }
    else if f == "Egress::pop"@ { Some((Some(seq![]), TypV::Tuple(seq![flat_t::<F>(FlatTyp::Data)]))) }
    else if f == "Ingress::id"@ { Some((Some(seq![]), TypV::Tuple(seq![flat_t::<F>(FlatTyp::Label)]))) }
    else if f == "Ingress::data"@ { Some((Some(seq![]), TypV::List(Box::new(flat_t::<F>(FlatTyp::Data))))) }
    else if f == "Ingress::find_label"@ { Some((Some(seq![flat_t::<F>(FlatTyp::Label)]), TypV::Tuple(seq![flat_t::<F>(FlatTyp::Label)]))) }
    else { F::internal_service_spec(f) }
}

/// Signatures of the control-plane built-in functions; the others are the data-plane ones.
pub open spec fn cp_builtin(f: Seq<char>) -> Option<SigV<CPFlatTyp>> {
    if f == "allow_egress"@ { Some((Some(seq![]), TypV::<CPFlatTyp>::Flat(CPFlatTyp::Policy))) }
    else if f == "allow_ingress"@ { Some((Some(seq![]), TypV::<CPFlatTyp>::Flat(CPFlatTyp::Policy))) }
    else if f == "Primitive::allow_rest_request"@ { Some((Some(seq![]), TypV::<CPFlatTyp>::Flat(CPFlatTyp::Primitive))) }
    else if f == "Primitive::allow_rest_response"@ { Some((Some(seq![]), TypV::<CPFlatTyp>::Flat(CPFlatTyp::Primitive))) }
    else if f == "Primitive::allow_tcp_connection"@ { Some((Some(seq![]), TypV::<CPFlatTyp>::Flat(CPFlatTyp::Primitive))) }
    else if f == "compile_egress"@ { Some((Some(seq![TypV::<CPFlatTyp>::Flat(CPFlatTyp::Primitive), TypV::<CPFlatTyp>::Flat(CPFlatTyp::DPFlatTyp(FlatTyp::ID))]), TypV::<CPFlatTyp>::Flat(CPFlatTyp::Policy))) }
    else if f == "compile_ingress"@ { Some((Some(seq![TypV::<CPFlatTyp>::Flat(CPFlatTyp::Primitive), TypV::<CPFlatTyp>::Flat(CPFlatTyp::DPFlatTyp(FlatTyp::ID))]), TypV::<CPFlatTyp>::Flat(CPFlatTyp::Policy))) }
    else if f == "deny_egress"@ { Some((Some(seq![]), TypV::<CPFlatTyp>::Flat(CPFlatTyp::Policy))) }
    else if f == "deny_ingress"@ { Some((Some(seq![]), TypV::<CPFlatTyp>::Flat(CPFlatTyp::Policy))) }
    else if f == "Primitive::on_tcp_disconnect"@ { Some((Some(seq![]), TypV::<CPFlatTyp>::Flat(CPFlatTyp::Primitive))) }
    else if f == "ControlPlane::onboard"@ { Some((Some(seq![TypV::<CPFlatTyp>::Flat(CPFlatTyp::DPFlatTyp(FlatTyp::ID))]), TypV::<CPFlatTyp>::Flat(CPFlatTyp::DPFlatTyp(FlatTyp::Bool)))) }
    else if f == "ControlPlane::onboarded"@ { Some((Some(seq![TypV::<CPFlatTyp>::Flat(CPFlatTyp::OnboardingData)]), TypV::Tuple(seq![TypV::<CPFlatTyp>::Flat(CPFlatTyp::DPFlatTyp(FlatTyp::ID))]))) }
    else if f == "ControlPlane::newID"@ { Some((Some(seq![TypV::<CPFlatTyp>::Flat(CPFlatTyp::OnboardingData)]), TypV::<CPFlatTyp>::Flat(CPFlatTyp::DPFlatTyp(FlatTyp::ID)))) }
    else if f == "ControlPlane::verify_credentials"@ { Some((Some(seq![TypV::<CPFlatTyp>::Flat(CPFlatTyp::OnboardingData), TypV::<CPFlatTyp>::Flat(CPFlatTyp::DPFlatTyp(FlatTyp::Label))]), TypV::<CPFlatTyp>::Flat(CPFlatTyp::DPFlatTyp(FlatTyp::Bool)))) }
    else if f == "Label::new"@ { Some((Some(seq![TypV::<CPFlatTyp>::Flat(CPFlatTyp::DPFlatTyp(FlatTyp::Str))]), TypV::<CPFlatTyp>::Flat(CPFlatTyp::DPFlatTyp(FlatTyp::Label)))) }
    else if f == "Label::login_time"@ { Some((Some(seq![TypV::<CPFlatTyp>::Flat(CPFlatTyp::DPFlatTyp(FlatTyp::I64))]), TypV::<CPFlatTyp>::Flat(CPFlatTyp::DPFlatTyp(FlatTyp::Label)))) }
    else if f == "OnboardingData::proposed_labels"@ { Some((Some(seq![TypV::<CPFlatTyp>::Flat(CPFlatTyp::OnboardingData)]), TypV::List(Box::new(TypV::<CPFlatTyp>::Flat(CPFlatTyp::DPFlatTyp(FlatTyp::Label)))))) }
    else if f == "OnboardingData::has_proposed_label"@ { Some((Some(seq![TypV::<CPFlatTyp>::Flat(CPFlatTyp::OnboardingData), TypV::<CPFlatTyp>::Flat(CPFlatTyp::DPFlatTyp(FlatTyp::Label))]), TypV::<CPFlatTyp>::Flat(CPFlatTyp::DPFlatTyp(FlatTyp::Bool)))) }
    else if f == "OnboardingData::has_ip"@ { Some((Some(seq![TypV::<CPFlatTyp>::Flat(CPFlatTyp::OnboardingData), TypV::<CPFlatTyp>::Flat(CPFlatTyp::DPFlatTyp(FlatTyp::IpAddr))]), TypV::<CPFlatTyp>::Flat(CPFlatTyp::DPFlatTyp(FlatTyp::Bool)))) }
    else if f == "OnboardingData::host"@ { Some((Some(seq![TypV::<CPFlatTyp>::Flat(CPFlatTyp::OnboardingData)]), TypV::<CPFlatTyp>::Flat(CPFlatTyp::DPFlatTyp(FlatTyp::Label)))) }
    else if f == "OnboardingData::service"@ { Some((Some(seq![TypV::<CPFlatTyp>::Flat(CPFlatTyp::OnboardingData)]), TypV::<CPFlatTyp>::Flat(CPFlatTyp::DPFlatTyp(FlatTyp::Label)))) }
    else if f == "OnboardingResult::Ok"@ { Some((Some(seq![TypV::<CPFlatTyp>::Flat(CPFlatTyp::DPFlatTyp(FlatTyp::ID)), TypV::<CPFlatTyp>::Flat(CPFlatTyp::Policy), TypV::<CPFlatTyp>::Flat(CPFlatTyp::Policy)]), TypV::<CPFlatTyp>::Flat(CPFlatTyp::OnboardingResult))) }
    else if f == "OnboardingResult::Err"@ { Some((Some(seq![TypV::<CPFlatTyp>::Flat(CPFlatTyp::DPFlatTyp(FlatTyp::Str)), TypV::<CPFlatTyp>::Flat(CPFlatTyp::DPFlatTyp(FlatTyp::ID)), TypV::<CPFlatTyp>::Flat(CPFlatTyp::Policy), TypV::<CPFlatTyp>::Flat(CPFlatTyp::Policy)]), TypV::<CPFlatTyp>::Flat(CPFlatTyp::OnboardingResult))) }
    else if f == "OnboardingResult::ErrID"@ { Some((Some(seq![TypV::<CPFlatTyp>::Flat(CPFlatTyp::DPFlatTyp(FlatTyp::Str)), TypV::<CPFlatTyp>::Flat(CPFlatTyp::DPFlatTyp(FlatTyp::ID))]), TypV::<CPFlatTyp>::Flat(CPFlatTyp::OnboardingResult))) }
    else if f == "OnboardingResult::ErrStr"@ { Some((Some(seq![TypV::<CPFlatTyp>::Flat(CPFlatTyp::DPFlatTyp(FlatTyp::Str))]), TypV::<CPFlatTyp>::Flat(CPFlatTyp::OnboardingResult))) }
    else { sig_to_cp_opt(dp_builtin(f)) }
}

/// The signature of a data-plane built-in function.
pub fn dp_builtins(f: &str) -> (r: Option<Signature<FlatTyp>>)
    ensures
        match r { Some(s) => dp_builtin(f@) == Some(s@), None => dp_builtin(f@) is None },
{
    if str_eq(f, "option::Some") { return Some(sig1(Typ::<FlatTyp>::FlatTyp(FlatTyp::Return), Typ::<FlatTyp>::FlatTyp(FlatTyp::Return))); }
    if str_eq(f, "i64::abs") { return Some(sig1(Typ::<FlatTyp>::FlatTyp(FlatTyp::I64), Typ::<FlatTyp>::FlatTyp(FlatTyp::I64))); }
    if str_eq(f, "i64::to_str") { return Some(sig1(Typ::<FlatTyp>::FlatTyp(FlatTyp::I64), Typ::<FlatTyp>::FlatTyp(FlatTyp::Str))); }
    if str_eq(f, "str::len") { return Some(sig1(Typ::<FlatTyp>::FlatTyp(FlatTyp::Str), Typ::<FlatTyp>::FlatTyp(FlatTyp::I64))); }
    if str_eq(f, "str::to_lowercase") { return Some(sig1(Typ::<FlatTyp>::FlatTyp(FlatTyp::Str), Typ::<FlatTyp>::FlatTyp(FlatTyp::Str))); }
    if str_eq(f, "str::to_uppercase") { return Some(sig1(Typ::<FlatTyp>::FlatTyp(FlatTyp::Str), Typ::<FlatTyp>::FlatTyp(FlatTyp::Str))); }
    if str_eq(f, "str::trim_start") { return Some(sig1(Typ::<FlatTyp>::FlatTyp(FlatTyp::Str), Typ::<FlatTyp>::FlatTyp(FlatTyp::Str))); }
    if str_eq(f, "str::trim_end") { return Some(sig1(Typ::<FlatTyp>::FlatTyp(FlatTyp::Str), Typ::<FlatTyp>::FlatTyp(FlatTyp::Str))); }
    if str_eq(f, "str::as_bytes") { return Some(sig1(Typ::<FlatTyp>::FlatTyp(FlatTyp::Str), Typ::<FlatTyp>::FlatTyp(FlatTyp::Data))); }
    if str_eq(f, "str::from_utf8") { return Some(sig1(Typ::<FlatTyp>::FlatTyp(FlatTyp::Data), Typ::<FlatTyp>::FlatTyp(FlatTyp::Str))); }
    if str_eq(f, "str::to_base64") { return Some(sig1(Typ::<FlatTyp>::FlatTyp(FlatTyp::Str), Typ::<FlatTyp>::FlatTyp(FlatTyp::Str))); }
    if str_eq(f, "str::is_match") { return Some(sig2(Typ::<FlatTyp>::FlatTyp(FlatTyp::Str), Typ::<FlatTyp>::FlatTyp(FlatTyp::Regex), Typ::<FlatTyp>::FlatTyp(FlatTyp::Bool))); }
    if str_eq(f, "regex::is_match") { return Some(sig2(Typ::<FlatTyp>::FlatTyp(FlatTyp::Regex), Typ::<FlatTyp>::FlatTyp(FlatTyp::Str), Typ::<FlatTyp>::FlatTyp(FlatTyp::Bool))); }
    if str_eq(f, "data::to_base64") { return Some(sig1(Typ::<FlatTyp>::FlatTyp(FlatTyp::Data), Typ::<FlatTyp>::FlatTyp(FlatTyp::Str))); }
    if str_eq(f, "data::len") { return Some(sig1(Typ::<FlatTyp>::FlatTyp(FlatTyp::Data), Typ::<FlatTyp>::FlatTyp(FlatTyp::I64))); }
    if str_eq(f, "i64::pow") { return Some(sig2(Typ::<FlatTyp>::FlatTyp(FlatTyp::I64), Typ::<FlatTyp>::FlatTyp(FlatTyp::I64), Typ::<FlatTyp>::FlatTyp(FlatTyp::I64))); }
    if str_eq(f, "i64::min") { return Some(sig2(Typ::<FlatTyp>::FlatTyp(FlatTyp::I64), Typ::<FlatTyp>::FlatTyp(FlatTyp::I64), Typ::<FlatTyp>::FlatTyp(FlatTyp::I64))); }
    if str_eq(f, "i64::max") { return Some(sig2(Typ::<FlatTyp>::FlatTyp(FlatTyp::I64), Typ::<FlatTyp>::FlatTyp(FlatTyp::I64), Typ::<FlatTyp>::FlatTyp(FlatTyp::I64))); }
    if str_eq(f, "str::starts_with") { return Some(sig2(Typ::<FlatTyp>::FlatTyp(FlatTyp::Str), Typ::<FlatTyp>::FlatTyp(FlatTyp::Str), Typ::<FlatTyp>::FlatTyp(FlatTyp::Bool))); }
    if str_eq(f, "str::ends_with") { return Some(sig2(Typ::<FlatTyp>::FlatTyp(FlatTyp::Str), Typ::<FlatTyp>::FlatTyp(FlatTyp::Str), Typ::<FlatTyp>::FlatTyp(FlatTyp::Bool))); }
    if str_eq(f, "str::contains") { return Some(sig2(Typ::<FlatTyp>::FlatTyp(FlatTyp::Str), Typ::<FlatTyp>::FlatTyp(FlatTyp::Str), Typ::<FlatTyp>::FlatTyp(FlatTyp::Bool))); }
    if str_eq(f, "HttpRequest::GET") { return Some(sig0(Typ::<FlatTyp>::FlatTyp(FlatTyp::HttpRequest))); }
    if str_eq(f, "HttpRequest::POST") { return Some(sig0(Typ::<FlatTyp>::FlatTyp(FlatTyp::HttpRequest))); }
    if str_eq(f, "HttpRequest::PUT") { return Some(sig0(Typ::<FlatTyp>::FlatTyp(FlatTyp::HttpRequest))); }
    if str_eq(f, "HttpRequest::DELETE") { return Some(sig0(Typ::<FlatTyp>::FlatTyp(FlatTyp::HttpRequest))); }
    if str_eq(f, "HttpRequest::HEAD") { return Some(sig0(Typ::<FlatTyp>::FlatTyp(FlatTyp::HttpRequest))); }
    if str_eq(f, "HttpRequest::OPTIONS") { return Some(sig0(Typ::<FlatTyp>::FlatTyp(FlatTyp::HttpRequest))); }
    if str_eq(f, "HttpRequest::CONNECT") { return Some(sig0(Typ::<FlatTyp>::FlatTyp(FlatTyp::HttpRequest))); }
    if str_eq(f, "HttpRequest::PATCH") { return Some(sig0(Typ::<FlatTyp>::FlatTyp(FlatTyp::HttpRequest))); }
    if str_eq(f, "HttpRequest::TRACE") { return Some(sig0(Typ::<FlatTyp>::FlatTyp(FlatTyp::HttpRequest))); }
    if str_eq(f, "HttpRequest::connection") { return Some(sig1(Typ::<FlatTyp>::FlatTyp(FlatTyp::HttpRequest), Typ::<FlatTyp>::FlatTyp(FlatTyp::Connection))); }
    if str_eq(f, "HttpRequest::from") { return Some(sig1(Typ::<FlatTyp>::FlatTyp(FlatTyp::HttpRequest), Typ::<FlatTyp>::FlatTyp(FlatTyp::ID))); }
    if str_eq(f, "HttpRequest::to") { return Some(sig1(Typ::<FlatTyp>::FlatTyp(FlatTyp::HttpRequest), Typ::<FlatTyp>::FlatTyp(FlatTyp::ID))); }
    if str_eq(f, "HttpRequest::set_from") { return Some(sig2(Typ::<FlatTyp>::FlatTyp(FlatTyp::HttpRequest), Typ::<FlatTyp>::FlatTyp(FlatTyp::ID), Typ::<FlatTyp>::FlatTyp(FlatTyp::HttpRequest))); }
    if str_eq(f, "HttpRequest::set_to") { return Some(sig2(Typ::<FlatTyp>::FlatTyp(FlatTyp::HttpRequest), Typ::<FlatTyp>::FlatTyp(FlatTyp::ID), Typ::<FlatTyp>::FlatTyp(FlatTyp::HttpRequest))); }
    if str_eq(f, "HttpRequest::method") { return Some(sig1(Typ::<FlatTyp>::FlatTyp(FlatTyp::HttpRequest), Typ::<FlatTyp>::FlatTyp(FlatTyp::Str))); }
    if str_eq(f, "HttpRequest::version") { return Some(sig1(Typ::<FlatTyp>::FlatTyp(FlatTyp::HttpRequest), Typ::<FlatTyp>::FlatTyp(FlatTyp::Str))); }
    if str_eq(f, "HttpRequest::path") { return Some(sig1(Typ::<FlatTyp>::FlatTyp(FlatTyp::HttpRequest), Typ::<FlatTyp>::FlatTyp(FlatTyp::Str))); }
    if str_eq(f, "HttpRequest::query") { return Some(sig1(Typ::<FlatTyp>::FlatTyp(FlatTyp::HttpRequest), Typ::<FlatTyp>::FlatTyp(FlatTyp::Str))); }
    if str_eq(f, "HttpRequest::set_path") { return Some(sig2(Typ::<FlatTyp>::FlatTyp(FlatTyp::HttpRequest), Typ::<FlatTyp>::FlatTyp(FlatTyp::Str), Typ::<FlatTyp>::FlatTyp(FlatTyp::HttpRequest))); }
    if str_eq(f, "HttpRequest::set_query") { return Some(sig2(Typ::<FlatTyp>::FlatTyp(FlatTyp::HttpRequest), Typ::<FlatTyp>::FlatTyp(FlatTyp::Str), Typ::<FlatTyp>::FlatTyp(FlatTyp::HttpRequest))); }
    if str_eq(f, "HttpRequest::set_header") { return Some(sig3(Typ::<FlatTyp>::FlatTyp(FlatTyp::HttpRequest), Typ::<FlatTyp>::FlatTyp(FlatTyp::Str), Typ::<FlatTyp>::FlatTyp(FlatTyp::Data), Typ::<FlatTyp>::FlatTyp(FlatTyp::HttpRequest))); }
    if str_eq(f, "HttpRequest::set_connection") { return Some(sig2(Typ::<FlatTyp>::FlatTyp(FlatTyp::HttpRequest), Typ::<FlatTyp>::FlatTyp(FlatTyp::Connection), Typ::<FlatTyp>::FlatTyp(FlatTyp::HttpRequest))); }
    if str_eq(f, "HttpResponse::new") { return Some(sig1(Typ::<FlatTyp>::FlatTyp(FlatTyp::I64), Typ::<FlatTyp>::FlatTyp(FlatTyp::HttpResponse))); }
    if str_eq(f, "HttpResponse::connection") { return Some(sig1(Typ::<FlatTyp>::FlatTyp(FlatTyp::HttpResponse), Typ::<FlatTyp>::FlatTyp(FlatTyp::Connection))); }
    if str_eq(f, "HttpResponse::from") { return Some(sig1(Typ::<FlatTyp>::FlatTyp(FlatTyp::HttpResponse), Typ::<FlatTyp>::FlatTyp(FlatTyp::ID))); }
    if str_eq(f, "HttpResponse::to") { return Some(sig1(Typ::<FlatTyp>::FlatTyp(FlatTyp::HttpResponse), Typ::<FlatTyp>::FlatTyp(FlatTyp::ID))); }
    if str_eq(f, "HttpResponse::set_from") { return Some(sig2(Typ::<FlatTyp>::FlatTyp(FlatTyp::HttpResponse), Typ::<FlatTyp>::FlatTyp(FlatTyp::ID), Typ::<FlatTyp>::FlatTyp(FlatTyp::HttpResponse))); }
    if str_eq(f, "HttpResponse::set_to") { return Some(sig2(Typ::<FlatTyp>::FlatTyp(FlatTyp::HttpResponse), Typ::<FlatTyp>::FlatTyp(FlatTyp::ID), Typ::<FlatTyp>::FlatTyp(FlatTyp::HttpResponse))); }
    if str_eq(f, "HttpResponse::status") { return Some(sig1(Typ::<FlatTyp>::FlatTyp(FlatTyp::HttpResponse), Typ::<FlatTyp>::FlatTyp(FlatTyp::I64))); }
    if str_eq(f, "HttpResponse::version") { return Some(sig1(Typ::<FlatTyp>::FlatTyp(FlatTyp::HttpResponse), Typ::<FlatTyp>::FlatTyp(FlatTyp::Str))); }
    if str_eq(f, "HttpResponse::set_reason") { return Some(sig2(Typ::<FlatTyp>::FlatTyp(FlatTyp::HttpResponse), Typ::<FlatTyp>::FlatTyp(FlatTyp::Str), Typ::<FlatTyp>::FlatTyp(FlatTyp::HttpResponse))); }
    if str_eq(f, "HttpResponse::set_header") { return Some(sig3(Typ::<FlatTyp>::FlatTyp(FlatTyp::HttpResponse), Typ::<FlatTyp>::FlatTyp(FlatTyp::Str), Typ::<FlatTyp>::FlatTyp(FlatTyp::Data), Typ::<FlatTyp>::FlatTyp(FlatTyp::HttpResponse))); }
    if str_eq(f, "HttpResponse::set_connection") { return Some(sig2(Typ::<FlatTyp>::FlatTyp(FlatTyp::HttpResponse), Typ::<FlatTyp>::FlatTyp(FlatTyp::Connection), Typ::<FlatTyp>::FlatTyp(FlatTyp::HttpResponse))); }
    if str_eq(f, "IpAddr::localhost") { return Some(sig0(Typ::<FlatTyp>::FlatTyp(FlatTyp::IpAddr))); }
    if str_eq(f, "IpAddr::from") { return Some(sig4(Typ::<FlatTyp>::FlatTyp(FlatTyp::I64), Typ::<FlatTyp>::FlatTyp(FlatTyp::I64), Typ::<FlatTyp>::FlatTyp(FlatTyp::I64), Typ::<FlatTyp>::FlatTyp(FlatTyp::I64), Typ::<FlatTyp>::FlatTyp(FlatTyp::IpAddr))); }
    if str_eq(f, "ID::default") { return Some(sig0(Typ::<FlatTyp>::FlatTyp(FlatTyp::ID))); }
    if str_eq(f, "ID::add_label") { return Some(sig2(Typ::<FlatTyp>::FlatTyp(FlatTyp::ID), Typ::<FlatTyp>::FlatTyp(FlatTyp::Label), Typ::<FlatTyp>::FlatTyp(FlatTyp::ID))); }
    if str_eq(f, "ID::add_host") { return Some(sig2(Typ::<FlatTyp>::FlatTyp(FlatTyp::ID), Typ::<FlatTyp>::FlatTyp(FlatTyp::Str), Typ::<FlatTyp>::FlatTyp(FlatTyp::ID))); }
    if str_eq(f, "ID::add_ip") { return Some(sig2(Typ::<FlatTyp>::FlatTyp(FlatTyp::ID), Typ::<FlatTyp>::FlatTyp(FlatTyp::IpAddr), Typ::<FlatTyp>::FlatTyp(FlatTyp::ID))); }
    if str_eq(f, "ID::set_port") { return Some(sig2(Typ::<FlatTyp>::FlatTyp(FlatTyp::ID), Typ::<FlatTyp>::FlatTyp(FlatTyp::I64), Typ::<FlatTyp>::FlatTyp(FlatTyp::ID))); }
    if str_eq(f, "ID::has_label") { return Some(sig2(Typ::<FlatTyp>::FlatTyp(FlatTyp::ID), Typ::<FlatTyp>::FlatTyp(FlatTyp::Label), Typ::<FlatTyp>::FlatTyp(FlatTyp::Bool))); }
    if str_eq(f, "ID::has_host") { return Some(sig2(Typ::<FlatTyp>::FlatTyp(FlatTyp::ID), Typ::<FlatTyp>::FlatTyp(FlatTyp::Str), Typ::<FlatTyp>::FlatTyp(FlatTyp::Bool))); }
    if str_eq(f, "ID::has_ip") { return Some(sig2(Typ::<FlatTyp>::FlatTyp(FlatTyp::ID), Typ::<FlatTyp>::FlatTyp(FlatTyp::IpAddr), Typ::<FlatTyp>::FlatTyp(FlatTyp::Bool))); }
    if str_eq(f, "Connection::default") { return Some(sig0(Typ::<FlatTyp>::FlatTyp(FlatTyp::Connection))); }
    if str_eq(f, "Connection::new") { return Some(sig3(Typ::<FlatTyp>::FlatTyp(FlatTyp::ID), Typ::<FlatTyp>::FlatTyp(FlatTyp::ID), Typ::<FlatTyp>::FlatTyp(FlatTyp::I64), Typ::<FlatTyp>::FlatTyp(FlatTyp::Connection))); }
    if str_eq(f, "Connection::from") { return Some(sig1(Typ::<FlatTyp>::FlatTyp(FlatTyp::Connection), Typ::<FlatTyp>::FlatTyp(FlatTyp::ID))); }
    if str_eq(f, "Connection::to") { return Some(sig1(Typ::<FlatTyp>::FlatTyp(FlatTyp::Connection), Typ::<FlatTyp>::FlatTyp(FlatTyp::ID))); }
    if str_eq(f, "Connection::number") { return Some(sig1(Typ::<FlatTyp>::FlatTyp(FlatTyp::Connection), Typ::<FlatTyp>::FlatTyp(FlatTyp::I64))); }
    if str_eq(f, "Connection::set_from") { return Some(sig2(Typ::<FlatTyp>::FlatTyp(FlatTyp::Connection), Typ::<FlatTyp>::FlatTyp(FlatTyp::ID), Typ::<FlatTyp>::FlatTyp(FlatTyp::Connection))); }
    if str_eq(f, "Connection::set_to") { return Some(sig2(Typ::<FlatTyp>::FlatTyp(FlatTyp::Connection), Typ::<FlatTyp>::FlatTyp(FlatTyp::ID), Typ::<FlatTyp>::FlatTyp(FlatTyp::Connection))); }
    if str_eq(f, "Connection::set_number") { return Some(sig2(Typ::<FlatTyp>::FlatTyp(FlatTyp::Connection), Typ::<FlatTyp>::FlatTyp(FlatTyp::I64), Typ::<FlatTyp>::FlatTyp(FlatTyp::Connection))); }
    if str_eq(f, "Label::is_match") { return Some(sig2(Typ::<FlatTyp>::FlatTyp(FlatTyp::Label), Typ::<FlatTyp>::FlatTyp(FlatTyp::Label), Typ::<FlatTyp>::FlatTyp(FlatTyp::Bool))); }
    if str_eq(f, "System::getCurrentTime") { return Some(sig0(Typ::<FlatTyp>::FlatTyp(FlatTyp::I64))); }
    None
}

/// The signature of a data-plane metadata service.
pub fn dp_internal(f: &str) -> (r: Option<Signature<FlatTyp>>)
    ensures
        match r { Some(s) => dp_internal_service(f@) == Some(s@), None => dp_internal_service(f@) is None },
{
    if str_eq(f, "Ingress::has_label") { return Some(sig1(Typ::<FlatTyp>::FlatTyp(FlatTyp::Label), Typ::<FlatTyp>::FlatTyp(FlatTyp::Bool))); }
    if str_eq(f, "Egress::set_id") { return Some(sig0(Typ::<FlatTyp>::FlatTyp(FlatTyp::Unit))); }
    if str_eq(f, "Egress::has_label") { return Some(sig1(Typ::<FlatTyp>::FlatTyp(FlatTyp::Label), Typ::<FlatTyp>::FlatTyp(FlatTyp::Bool))); }
    if str_eq(f, "Egress::push") { return Some(sig1(Typ::<FlatTyp>::FlatTyp(FlatTyp::Data), Typ::<FlatTyp>::FlatTyp(FlatTyp::Unit))); }
    if str_eq(f, "Egress::add_label") { return Some(sig1(Typ::<FlatTyp>::FlatTyp(FlatTyp::Label), Typ::<FlatTyp>::FlatTyp(FlatTyp::Unit))); }
    if str_eq(f, "Egress::remove_label") { return Some(sig1(Typ::<FlatTyp>::FlatTyp(FlatTyp::Label), Typ::<FlatTyp>::FlatTyp(FlatTyp::Unit))); }
    if str_eq(f, "Egress::wipe") { return Some(sig0(Typ::<FlatTyp>::FlatTyp(FlatTyp::Unit))); }
    None
}

/// The signature of a built-in function.
pub fn typ_builtins<F: TFlatTyp>(f: &str) -> (r: Option<Signature<F>>)
    ensures
        match r { Some(s) => typ_builtin::<F>(f@) == Some(s@), None => typ_builtin::<F>(f@) is None },
{
    if str_eq(f, "option::is_none") { return Some(sig1(any_option_of::<F>(), Typ::<F>::flat(FlatTyp::Bool))); }
    if str_eq(f, "option::is_some") { return Some(sig1(any_option_of::<F>(), Typ::<F>::flat(FlatTyp::Bool))); }
    if str_eq(f, "list::len") { return Some(sig1(list_of(Typ::<F>::flat(FlatTyp::Return)), Typ::<F>::flat(FlatTyp::I64))); }
    if str_eq(f, "list::reduce") { return Some(sig1(list_of(Typ::<F>::flat(FlatTyp::Return)), option_of(Typ::<F>::flat(FlatTyp::Return)))); }
    if str_eq(f, "list::is_subset") { return Some(sig2(list_of(Typ::<F>::flat(FlatTyp::Return)), list_of(Typ::<F>::flat(FlatTyp::Return)), Typ::<F>::flat(FlatTyp::Bool))); }
    if str_eq(f, "list::is_disjoint") { return Some(sig2(list_of(Typ::<F>::flat(FlatTyp::Return)), list_of(Typ::<F>::flat(FlatTyp::Return)), Typ::<F>::flat(FlatTyp::Bool))); }
    if str_eq(f, "list::difference") { return Some(sig2(list_of(Typ::<F>::flat(FlatTyp::Return)), list_of(Typ::<F>::flat(FlatTyp::Return)), list_of(Typ::<F>::flat(FlatTyp::Return)))); }
    if str_eq(f, "list::intersection") { return Some(sig2(list_of(Typ::<F>::flat(FlatTyp::Return)), list_of(Typ::<F>::flat(FlatTyp::Return)), list_of(Typ::<F>::flat(FlatTyp::Return)))); }
    if str_eq(f, "HttpRequest::query_pairs") { return Some(sig1(Typ::<F>::flat(FlatTyp::HttpRequest), list_of(tuple2(Typ::<F>::flat(FlatTyp::Str), Typ::<F>::flat(FlatTyp::Str))))); }
    if str_eq(f, "HttpRequest::from_to") { return Some(sig1(Typ::<F>::flat(FlatTyp::HttpRequest), tuple2(Typ::<F>::flat(FlatTyp::ID), Typ::<F>::flat(FlatTyp::ID)))); }
    if str_eq(f, "HttpRequest::header") { return Some(sig2(Typ::<F>::flat(FlatTyp::HttpRequest), Typ::<F>::flat(FlatTyp::Str), option_of(list_of(Typ::<F>::flat(FlatTyp::Data))))); }
    if str_eq(f, "HttpRequest::header_pairs") { return Some(sig1(Typ::<F>::flat(FlatTyp::HttpRequest), list_of(tuple2(Typ::<F>::flat(FlatTyp::Str), Typ::<F>::flat(FlatTyp::Data))))); }
    if str_eq(f, "HttpResponse::reason") { return Some(sig1(Typ::<F>::flat(FlatTyp::HttpResponse), option_of(Typ::<F>::flat(FlatTyp::Str)))); }
    if str_eq(f, "HttpRequest::unique_header") { return Some(sig2(Typ::<F>::flat(FlatTyp::HttpRequest), Typ::<F>::flat(FlatTyp::Str), option_of(Typ::<F>::flat(FlatTyp::Data)))); }
    if str_eq(f, "HttpResponse::from_to") { return Some(sig1(Typ::<F>::flat(FlatTyp::HttpResponse), tuple2(Typ::<F>::flat(FlatTyp::ID), Typ::<F>::flat(FlatTyp::ID)))); }
    if str_eq(f, "HttpResponse::header") { return Some(sig2(Typ::<F>::flat(FlatTyp::HttpResponse), Typ::<F>::flat(FlatTyp::Str), option_of(list_of(Typ::<F>::flat(FlatTyp::Data))))); }
    if str_eq(f, "HttpResponse::headers") { return Some(sig1(Typ::<F>::flat(FlatTyp::HttpResponse), list_of(Typ::<F>::flat(FlatTyp::Str)))); }
    if str_eq(f, "HttpResponse::header_pairs") { return Some(sig1(Typ::<F>::flat(FlatTyp::HttpResponse), list_of(tuple2(Typ::<F>::flat(FlatTyp::Str), Typ::<F>::flat(FlatTyp::Data))))); }
    if str_eq(f, "HttpResponse::unique_header") { return Some(sig2(Typ::<F>::flat(FlatTyp::HttpResponse), Typ::<F>::flat(FlatTyp::Str), option_of(Typ::<F>::flat(FlatTyp::Data)))); }
    if str_eq(f, "IpAddr::lookup") { return Some(sig1(Typ::<F>::flat(FlatTyp::Str), option_of(list_of(Typ::<F>::flat(FlatTyp::IpAddr))))); }
    if str_eq(f, "IpAddr::octets") { return Some(sig1(Typ::<F>::flat(FlatTyp::IpAddr), tuple4(Typ::<F>::flat(FlatTyp::I64), Typ::<F>::flat(FlatTyp::I64), Typ::<F>::flat(FlatTyp::I64), Typ::<F>::flat(FlatTyp::I64)))); }
    if str_eq(f, "ID::find_label") { return Some(sig2(Typ::<F>::flat(FlatTyp::ID), Typ::<F>::flat(FlatTyp::Label), option_of(Typ::<F>::flat(FlatTyp::Label)))); }
    if str_eq(f, "ID::labels") { return Some(sig1(Typ::<F>::flat(FlatTyp::ID), list_of(Typ::<F>::flat(FlatTyp::Label)))); }
    if str_eq(f, "ID::hosts") { return Some(sig1(Typ::<F>::flat(FlatTyp::ID), list_of(Typ::<F>::flat(FlatTyp::Str)))); }
    if str_eq(f, "ID::ips") { return Some(sig1(Typ::<F>::flat(FlatTyp::ID), list_of(Typ::<F>::flat(FlatTyp::IpAddr)))); }
    if str_eq(f, "ID::port") { return Some(sig1(Typ::<F>::flat(FlatTyp::ID), option_of(Typ::<F>::flat(FlatTyp::I64)))); }
    if str_eq(f, "Label::captures") { return Some(sig2(Typ::<F>::flat(FlatTyp::Label), Typ::<F>::flat(FlatTyp::Label), option_of(list_of(tuple2(Typ::<F>::flat(FlatTyp::Str), Typ::<F>::flat(FlatTyp::Str)))))); }
    if str_eq(f, "Label::concat") { return Some(sig2(Typ::<F>::flat(FlatTyp::Label), Typ::<F>::flat(FlatTyp::Label), Typ::<F>::flat(FlatTyp::Label))); }
    if str_eq(f, "Label::parts") { return Some(sig1(Typ::<F>::flat(FlatTyp::Label), option_of(list_of(Typ::<F>::flat(FlatTyp::Str))))); }
    F::builtins(f)
}

/// The signature of a metadata service.
pub fn typ_internal<F: TFlatTyp>(f: &str) -> (r: Option<Signature<F>>)
    ensures
        match r { Some(s) => typ_internal_service::<F>(f@) == Some(s@), None => typ_internal_service::<F>(f@) is None },
{
    if str_eq(f, "Egress::find_label") { return Some(sig1(Typ::<F>::flat(FlatTyp::Label), option_of(Typ::<F>::flat(FlatTyp::Label)))); }
    if str_eq(f, "Egress::id") { return Some(sig0(option_of(Typ::<F>::flat(FlatTyp::Label)))); }
    if str_eq(f, "Egress::data") { return Some(sig0(list_of(Typ::<F>::flat(FlatTyp::Data)))); }
    if str_eq(f, "Egress::pop") { return Some(sig0(option_of(Typ::<F>::flat(FlatTyp::Data)))); }
    if str_eq(f, "Ingress::id") { return Some(sig0(option_of(Typ::<F>::flat(FlatTyp::Label)))); }
    if str_eq(f, "Ingress::data") { return Some(sig0(list_of(Typ::<F>::flat(FlatTyp::Data)))); }
    if str_eq(f, "Ingress::find_label") { return Some(sig1(Typ::<F>::flat(FlatTyp::Label), option_of(Typ::<F>::flat(FlatTyp::Label)))); }
    F::internal_service(f)
}

/// The signature of a control-plane built-in function.
pub fn cp_builtins(f: &str) -> (r: Option<Signature<CPFlatTyp>>)
    ensures
        match r { Some(s) => cp_builtin(f@) == Some(s@), None => cp_builtin(f@) is None },
{
    if str_eq(f, "allow_egress") { return Some(sig0(Typ::<CPFlatTyp>::FlatTyp(CPFlatTyp::Policy))); }
    if str_eq(f, "allow_ingress") { return Some(sig0(Typ::<CPFlatTyp>::FlatTyp(CPFlatTyp::Policy))); }
    if str_eq(f, "Primitive::allow_rest_request") { return Some(sig0(Typ::<CPFlatTyp>::FlatTyp(CPFlatTyp::Primitive))); }
    if str_eq(f, "Primitive::allow_rest_response") { return Some(sig0(Typ::<CPFlatTyp>::FlatTyp(CPFlatTyp::Primitive))); }
    if str_eq(f, "Primitive::allow_tcp_connection") { return Some(sig0(Typ::<CPFlatTyp>::FlatTyp(CPFlatTyp::Primitive))); }
    if str_eq(f, "compile_egress") { return Some(sig2(Typ::<CPFlatTyp>::FlatTyp(CPFlatTyp::Primitive), Typ::<CPFlatTyp>::FlatTyp(CPFlatTyp::DPFlatTyp(FlatTyp::ID)), Typ::<CPFlatTyp>::FlatTyp(CPFlatTyp::Policy))); }
    if str_eq(f, "compile_ingress") { return Some(sig2(Typ::<CPFlatTyp>::FlatTyp(CPFlatTyp::Primitive), Typ::<CPFlatTyp>::FlatTyp(CPFlatTyp::DPFlatTyp(FlatTyp::ID)), Typ::<CPFlatTyp>::FlatTyp(CPFlatTyp::Policy))); }
    if str_eq(f, "deny_egress") { return Some(sig0(Typ::<CPFlatTyp>::FlatTyp(CPFlatTyp::Policy))); }
    if str_eq(f, "deny_ingress") { return Some(sig0(Typ::<CPFlatTyp>::FlatTyp(CPFlatTyp::Policy))); }
    if str_eq(f, "Primitive::on_tcp_disconnect") { return Some(sig0(Typ::<CPFlatTyp>::FlatTyp(CPFlatTyp::Primitive))); }
    if str_eq(f, "ControlPlane::onboard") { return Some(sig1(Typ::<CPFlatTyp>::FlatTyp(CPFlatTyp::DPFlatTyp(FlatTyp::ID)), Typ::<CPFlatTyp>::FlatTyp(CPFlatTyp::DPFlatTyp(FlatTyp::Bool)))); }
    if str_eq(f, "ControlPlane::onboarded") { return Some(sig1(Typ::<CPFlatTyp>::FlatTyp(CPFlatTyp::OnboardingData), option_of(Typ::<CPFlatTyp>::FlatTyp(CPFlatTyp::DPFlatTyp(FlatTyp::ID))))); }
    if str_eq(f, "ControlPlane::newID") { return Some(sig1(Typ::<CPFlatTyp>::FlatTyp(CPFlatTyp::OnboardingData), Typ::<CPFlatTyp>::FlatTyp(CPFlatTyp::DPFlatTyp(FlatTyp::ID)))); }
    if str_eq(f, "ControlPlane::verify_credentials") { return Some(sig2(Typ::<CPFlatTyp>::FlatTyp(CPFlatTyp::OnboardingData), Typ::<CPFlatTyp>::FlatTyp(CPFlatTyp::DPFlatTyp(FlatTyp::Label)), Typ::<CPFlatTyp>::FlatTyp(CPFlatTyp::DPFlatTyp(FlatTyp::Bool)))); }
    if str_eq(f, "Label::new") { return Some(sig1(Typ::<CPFlatTyp>::FlatTyp(CPFlatTyp::DPFlatTyp(FlatTyp::Str)), Typ::<CPFlatTyp>::FlatTyp(CPFlatTyp::DPFlatTyp(FlatTyp::Label)))); }
    if str_eq(f, "Label::login_time") { return Some(sig1(Typ::<CPFlatTyp>::FlatTyp(CPFlatTyp::DPFlatTyp(FlatTyp::I64)), Typ::<CPFlatTyp>::FlatTyp(CPFlatTyp::DPFlatTyp(FlatTyp::Label)))); }
    if str_eq(f, "OnboardingData::proposed_labels") { return Some(sig1(Typ::<CPFlatTyp>::FlatTyp(CPFlatTyp::OnboardingData), list_of(Typ::<CPFlatTyp>::FlatTyp(CPFlatTyp::DPFlatTyp(FlatTyp::Label))))); }
    if str_eq(f, "OnboardingData::has_proposed_label") { return Some(sig2(Typ::<CPFlatTyp>::FlatTyp(CPFlatTyp::OnboardingData), Typ::<CPFlatTyp>::FlatTyp(CPFlatTyp::DPFlatTyp(FlatTyp::Label)), Typ::<CPFlatTyp>::FlatTyp(CPFlatTyp::DPFlatTyp(FlatTyp::Bool)))); }
    if str_eq(f, "OnboardingData::has_ip") { return Some(sig2(Typ::<CPFlatTyp>::FlatTyp(CPFlatTyp::OnboardingData), Typ::<CPFlatTyp>::FlatTyp(CPFlatTyp::DPFlatTyp(FlatTyp::IpAddr)), Typ::<CPFlatTyp>::FlatTyp(CPFlatTyp::DPFlatTyp(FlatTyp::Bool)))); }
    if str_eq(f, "OnboardingData::host") { return Some(sig1(Typ::<CPFlatTyp>::FlatTyp(CPFlatTyp::OnboardingData), Typ::<CPFlatTyp>::FlatTyp(CPFlatTyp::DPFlatTyp(FlatTyp::Label)))); }
    if str_eq(f, "OnboardingData::service") { return Some(sig1(Typ::<CPFlatTyp>::FlatTyp(CPFlatTyp::OnboardingData), Typ::<CPFlatTyp>::FlatTyp(CPFlatTyp::DPFlatTyp(FlatTyp::Label)))); }
    if str_eq(f, "OnboardingResult::Ok") { return Some(sig3(Typ::<CPFlatTyp>::FlatTyp(CPFlatTyp::DPFlatTyp(FlatTyp::ID)), Typ::<CPFlatTyp>::FlatTyp(CPFlatTyp::Policy), Typ::<CPFlatTyp>::FlatTyp(CPFlatTyp::Policy), Typ::<CPFlatTyp>::FlatTyp(CPFlatTyp::OnboardingResult))); }
    if str_eq(f, "OnboardingResult::Err") { return Some(sig4(Typ::<CPFlatTyp>::FlatTyp(CPFlatTyp::DPFlatTyp(FlatTyp::Str)), Typ::<CPFlatTyp>::FlatTyp(CPFlatTyp::DPFlatTyp(FlatTyp::ID)), Typ::<CPFlatTyp>::FlatTyp(CPFlatTyp::Policy), Typ::<CPFlatTyp>::FlatTyp(CPFlatTyp::Policy), Typ::<CPFlatTyp>::FlatTyp(CPFlatTyp::OnboardingResult))); }
    if str_eq(f, "OnboardingResult::ErrID") { return Some(sig2(Typ::<CPFlatTyp>::FlatTyp(CPFlatTyp::DPFlatTyp(FlatTyp::Str)), Typ::<CPFlatTyp>::FlatTyp(CPFlatTyp::DPFlatTyp(FlatTyp::ID)), Typ::<CPFlatTyp>::FlatTyp(CPFlatTyp::OnboardingResult))); }
    if str_eq(f, "OnboardingResult::ErrStr") { return Some(sig1(Typ::<CPFlatTyp>::FlatTyp(CPFlatTyp::DPFlatTyp(FlatTyp::Str)), Typ::<CPFlatTyp>::FlatTyp(CPFlatTyp::OnboardingResult))); }
    match dp_builtins(f) { Some(s) => Some(s.to_cp()), None => None }
}

} // verus!
