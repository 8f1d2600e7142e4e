//! The type system of the policy language: flat types, composite types,
//! unification and type checking of argument lists.

use vstd::prelude::*;
use crate::text::{string_push, push_str, str_eq, u64_to_string, nat_decimal};
use crate::lexer::Loc;
use crate::builtins::{dp_builtin, dp_internal_service, cp_builtin, dp_builtins, dp_internal, cp_builtins};

verus! {

/// Flat (non-composite) types of the data plane.
#[derive(Clone, Copy, Debug, PartialEq, Eq, Structural)]
pub enum FlatTyp {
    Bool,
    Connection,
    Data,
    F64,
    HttpRequest,
    HttpResponse,
    I64,
    ID,
    IpAddr,
    Label,
    Regex,
    Return,
    Str,
    Unit,
}

/// Flat types of the control plane: those of the data plane and a few more.
#[derive(Clone, Copy, Debug, PartialEq, Eq, Structural)]
pub enum CPFlatTyp {
    DPFlatTyp(FlatTyp),
    OnboardingData,
    OnboardingResult,
    Policy,
    Primitive,
}

/// What a family of flat types offers to the type system.
pub trait TFlatTyp: Sized + Copy {
    /// The flat type standing for a data-plane flat type.
    spec fn spec_of(k: FlatTyp) -> Self;

    /// How the type is printed.
    spec fn text(self) -> Seq<char>;

    /// Reading a type name.
    spec fn parse_spec(s: Seq<char>) -> Option<Self>;

    fn of(k: FlatTyp) -> (r: Self)
        ensures
            r == Self::spec_of(k),
    ;

    fn same(&self, other: &Self) -> (b: bool)
        ensures
            b == (*self == *other),
    ;

    fn to_string(&self) -> (s: String)
        ensures
            s@ == self.text(),
    ;

    fn try_from_str(s: &str) -> (r: Option<Self>)
        ensures
            r == Self::parse_spec(s@),
    ;

    /// Signatures of the built-in functions on this family's flat types.
    spec fn builtin_spec(f: Seq<char>) -> Option<SigV<Self>>;

    /// Signatures of the metadata services on this family's flat types.
    spec fn internal_service_spec(f: Seq<char>) -> Option<SigV<Self>>;

    fn builtins(f: &str) -> (r: Option<Signature<Self>>)
        ensures
            match r {
                Some(sg) => Self::builtin_spec(f@) == Some(sg@),
                None => Self::builtin_spec(f@) is None,
            },
    ;

    fn internal_service(f: &str) -> (r: Option<Signature<Self>>)
        ensures
            match r {
                Some(sg) => Self::internal_service_spec(f@) == Some(sg@),
                None => Self::internal_service_spec(f@) is None,
            },
    ;
}

/// Name of a data-plane flat type.
pub open spec fn flat_text(t: FlatTyp) -> Seq<char> {
    match t {
        FlatTyp::Bool => "bool"@,
        FlatTyp::Connection => "Connection"@,
        FlatTyp::Data => "data"@,
        FlatTyp::F64 => "f64"@,
        FlatTyp::HttpRequest => "HttpRequest"@,
        FlatTyp::HttpResponse => "HttpResponse"@,
        FlatTyp::I64 => "i64"@,
        FlatTyp::ID => "ID"@,
        FlatTyp::IpAddr => "IpAddr"@,
        FlatTyp::Label => "Label"@,
        FlatTyp::Regex => "regex"@,
        FlatTyp::Return => "!"@,
        FlatTyp::Str => "str"@,
        FlatTyp::Unit => "unit"@,
    }
}

/// Reading the name of a data-plane flat type (`!` is not a name).
pub open spec fn flat_parse(s: Seq<char>) -> Option<FlatTyp> {
    if s == "bool"@ { Some(FlatTyp::Bool) }
    else if s == "Connection"@ { Some(FlatTyp::Connection) }
    else if s == "data"@ { Some(FlatTyp::Data) }
    else if s == "f64"@ { Some(FlatTyp::F64) }
    else if s == "HttpRequest"@ { Some(FlatTyp::HttpRequest) }
    else if s == "HttpResponse"@ { Some(FlatTyp::HttpResponse) }
    else if s == "i64"@ { Some(FlatTyp::I64) }
    else if s == "ID"@ { Some(FlatTyp::ID) }
    else if s == "IpAddr"@ { Some(FlatTyp::IpAddr) }
    else if s == "Label"@ { Some(FlatTyp::Label) }
    else if s == "regex"@ { Some(FlatTyp::Regex) }
    else if s == "str"@ { Some(FlatTyp::Str) }
    else if s == "unit"@ { Some(FlatTyp::Unit) }
    else { None }
}

impl TFlatTyp for FlatTyp {
    open spec fn spec_of(k: FlatTyp) -> Self {
        k
    }

    open spec fn text(self) -> Seq<char> {
        flat_text(self)
    }

    open spec fn parse_spec(s: Seq<char>) -> Option<Self> {
        flat_parse(s)
    }

    fn of(k: FlatTyp) -> (r: Self) {
        k
    }

    fn same(&self, other: &Self) -> (b: bool) {
        *self == *other
    }

    fn to_string(&self) -> (s: String) {
        match self {
            FlatTyp::Bool => "bool".to_owned(),
            FlatTyp::Connection => "Connection".to_owned(),
            FlatTyp::Data => "data".to_owned(),
            FlatTyp::F64 => "f64".to_owned(),
            FlatTyp::HttpRequest => "HttpRequest".to_owned(),
            FlatTyp::HttpResponse => "HttpResponse".to_owned(),
            FlatTyp::I64 => "i64".to_owned(),
            FlatTyp::ID => "ID".to_owned(),
            FlatTyp::IpAddr => "IpAddr".to_owned(),
            FlatTyp::Label => "Label".to_owned(),
            FlatTyp::Regex => "regex".to_owned(),
            FlatTyp::Return => "!".to_owned(),
            FlatTyp::Str => "str".to_owned(),
            FlatTyp::Unit => "unit".to_owned(),
        }
    }

    open spec fn builtin_spec(f: Seq<char>) -> Option<SigV<Self>> {
        dp_builtin(f)
    }

    open spec fn internal_service_spec(f: Seq<char>) -> Option<SigV<Self>> {
        dp_internal_service(f)
    }

    fn builtins(f: &str) -> (r: Option<Signature<Self>>) {
        dp_builtins(f)
    }

    fn internal_service(f: &str) -> (r: Option<Signature<Self>>) {
        dp_internal(f)
    }

    fn try_from_str(s: &str) -> (r: Option<Self>) {
        if str_eq(s, "bool") { Some(FlatTyp::Bool) }
        else if str_eq(s, "Connection") { Some(FlatTyp::Connection) }
        else if str_eq(s, "data") { Some(FlatTyp::Data) }
        else if str_eq(s, "f64") { Some(FlatTyp::F64) }
        else if str_eq(s, "HttpRequest") { Some(FlatTyp::HttpRequest) }
        else if str_eq(s, "HttpResponse") { Some(FlatTyp::HttpResponse) }
        else if str_eq(s, "i64") { Some(FlatTyp::I64) }
        else if str_eq(s, "ID") { Some(FlatTyp::ID) }
        else if str_eq(s, "IpAddr") { Some(FlatTyp::IpAddr) }
        else if str_eq(s, "Label") { Some(FlatTyp::Label) }
        else if str_eq(s, "regex") { Some(FlatTyp::Regex) }
        else if str_eq(s, "str") { Some(FlatTyp::Str) }
        else if str_eq(s, "unit") { Some(FlatTyp::Unit) }
        else { None }
    }
}

/// Name of a control-plane flat type.
pub open spec fn cp_flat_text(t: CPFlatTyp) -> Seq<char> {
    match t {
        CPFlatTyp::DPFlatTyp(d) => flat_text(d),
        CPFlatTyp::OnboardingData => "onboardingData"@,
        CPFlatTyp::OnboardingResult => "onboardingResult"@,
        CPFlatTyp::Policy => "Policy"@,
        CPFlatTyp::Primitive => "Primitive"@,
    }
}

/// Reading the name of a control-plane flat type.
pub open spec fn cp_flat_parse(s: Seq<char>) -> Option<CPFlatTyp> {
    if s == "OnboardingData"@ {
        Some(CPFlatTyp::OnboardingData)
    } else if s == "OnboardingResult"@ {
        Some(CPFlatTyp::OnboardingResult)
    } else {
        match flat_parse(s) {
            Some(d) => Some(CPFlatTyp::DPFlatTyp(d)),
            None => None,
        }
    }
}

impl TFlatTyp for CPFlatTyp {
    open spec fn spec_of(k: FlatTyp) -> Self {
        CPFlatTyp::DPFlatTyp(k)
    }

    open spec fn text(self) -> Seq<char> {
        cp_flat_text(self)
    }

    open spec fn parse_spec(s: Seq<char>) -> Option<Self> {
        cp_flat_parse(s)
    }

    fn of(k: FlatTyp) -> (r: Self) {
        CPFlatTyp::DPFlatTyp(k)
    }

    fn same(&self, other: &Self) -> (b: bool) {
        *self == *other
    }

    fn to_string(&self) -> (s: String) {
        match self {
            CPFlatTyp::DPFlatTyp(d) => d.to_string(),
            CPFlatTyp::OnboardingData => "onboardingData".to_owned(),
            CPFlatTyp::OnboardingResult => "onboardingResult".to_owned(),
            CPFlatTyp::Policy => "Policy".to_owned(),
            CPFlatTyp::Primitive => "Primitive".to_owned(),
        }
    }

    open spec fn builtin_spec(f: Seq<char>) -> Option<SigV<Self>> {
        cp_builtin(f)
    }

    open spec fn internal_service_spec(f: Seq<char>) -> Option<SigV<Self>> {
        sig_to_cp_opt(dp_internal_service(f))
    }

    fn builtins(f: &str) -> (r: Option<Signature<Self>>) {
        cp_builtins(f)
    }

    fn internal_service(f: &str) -> (r: Option<Signature<Self>>) {
        match dp_internal(f) {
            Some(sg) => Some(sg.to_cp()),
            None => None,
        }
    }

    fn try_from_str(s: &str) -> (r: Option<Self>) {
        if str_eq(s, "OnboardingData") {
            Some(CPFlatTyp::OnboardingData)
        } else if str_eq(s, "OnboardingResult") {
            Some(CPFlatTyp::OnboardingResult)
        } else {
            match FlatTyp::try_from_str(s) {
                Some(d) => Some(CPFlatTyp::DPFlatTyp(d)),
                None => None,
            }
        }
    }
}

impl CPFlatTyp {
    /// The control-plane flat type of a data-plane flat type.
    pub fn from_flat(t: FlatTyp) -> (r: CPFlatTyp)
        ensures
            r == CPFlatTyp::DPFlatTyp(t),
    {
        CPFlatTyp::DPFlatTyp(t)
    }
}

/// Types; tuples of length 0 and 1 stand for option types.
#[derive(Debug)]
pub enum Typ<F> {
    FlatTyp(F),
    List(Box<Typ<F>>),
    Tuple(Vec<Typ<F>>),
}

/// Mathematical model of a type.
pub enum TypV<F> {
    Flat(F),
    List(Box<TypV<F>>),
    Tuple(Seq<TypV<F>>),
}

/// Model of a type, part by part.
pub open spec fn typ_model<F>(t: Typ<F>) -> TypV<F>
    decreases t,
{
    match t {
        Typ::FlatTyp(f) => TypV::Flat(f),
        Typ::List(b) => TypV::List(Box::new(typ_model(*b))),
        Typ::Tuple(v) => TypV::Tuple(Seq::new(v@.len(), |i: int| if 0 <= i < v@.len() {
            proof { vstd::std_specs::vec::axiom_vec_index_decreases(v, i); }
            typ_model(v@[i])
        } else {
            TypV::Tuple(Seq::empty())
        })),
    }
}

impl<F> View for Typ<F> {
    type V = TypV<F>;

    open spec fn view(&self) -> TypV<F> {
        typ_model(*self)
    }
}

/// The type of `return` (unifies with everything).
pub open spec fn ret_t<F: TFlatTyp>() -> TypV<F> {
    TypV::Flat(F::spec_of(FlatTyp::Return))
}

/// The flat type standing for `k`.
pub open spec fn flat_t<F: TFlatTyp>(k: FlatTyp) -> TypV<F> {
    TypV::Flat(F::spec_of(k))
}

/// Unification of two types (the second refines unknown parts of the first).
pub open spec fn unify_spec<F: TFlatTyp>(a: TypV<F>, b: TypV<F>) -> TypV<F>
    decreases a,
{
    if a == ret_t::<F>() {
        b
    } else if b == ret_t::<F>() {
        a
    } else {
        match (a, b) {
            (TypV::List(l1), TypV::List(l2)) => TypV::List(Box::new(unify_spec(*l1, *l2))),
            (TypV::Tuple(l1), TypV::Tuple(l2)) => {
                if l1.len() == 0 {
                    b
                } else if l2.len() == 0 {
                    a
                } else {
                    let n = if l1.len() < l2.len() { l1.len() } else { l2.len() };
                    TypV::Tuple(Seq::new(n, |i: int| if 0 <= i < n { unify_spec(l1[i], l2[i]) } else { a }))
                }
            },
            _ => a,
        }
    }
}

/// Whether two types can be unified.
pub open spec fn can_unify_spec<F: TFlatTyp>(a: TypV<F>, b: TypV<F>) -> bool
    decreases a,
{
    if a == ret_t::<F>() || b == ret_t::<F>() {
        true
    } else {
        match (a, b) {
            (TypV::List(l1), TypV::List(l2)) => can_unify_spec(*l1, *l2),
            (TypV::Tuple(l1), TypV::Tuple(l2)) => {
                (l1.len() == l2.len() && forall|i: int| 0 <= i < l1.len() ==> can_unify_spec(#[trigger] l1[i], l2[i]))
                    || (l1.len() == 0 && l2.len() == 1)
                    || (l1.len() == 1 && l2.len() == 0)
            },
            _ => a == b,
        }
    }
}

/// Texts joined by `, `.
pub open spec fn join_comma(ss: Seq<Seq<char>>) -> Seq<char>
    decreases ss.len(),
{
    if ss.len() == 0 {
        Seq::empty()
    } else if ss.len() == 1 {
        ss[0]
    } else {
        join_comma(ss.drop_last()) + seq![',', ' '] + ss.last()
    }
}

/// How a type is printed.
pub open spec fn typ_text<F: TFlatTyp>(t: TypV<F>) -> Seq<char>
    decreases t, 1int,
{
    match t {
        TypV::Flat(f) => f.text(),
        TypV::List(b) => "List<"@ + typ_text(*b) + seq!['>'],
        TypV::Tuple(ts) => if ts.len() == 0 {
            "Option<?>"@
        } else if ts.len() == 1 {
            "Option<"@ + typ_text(ts[0]) + seq!['>']
        } else {
            seq!['('] + join_comma(parts_texts(t)) + seq![')']
        },
    }
}

/// Texts of the parts of a tuple type.
pub open spec fn parts_texts<F: TFlatTyp>(t: TypV<F>) -> Seq<Seq<char>>
    decreases t, 0int,
{
    match t {
        TypV::Tuple(ts) => Seq::new(ts.len(), |i: int| if 0 <= i < ts.len() { typ_text(ts[i]) } else { Seq::empty() }),
        _ => Seq::empty(),
    }
}

} // verus!

verus! {

/// A type with the location it comes from.
pub type LocType<F> = (Option<Loc>, Typ<F>);

/// Errors of type checking.
#[derive(Debug)]
pub enum Error<F> {
    Mismatch(String, LocType<F>, LocType<F>),
    Args(String, usize, usize),
    Parse(String),
    Dest,
}

/// Model of a type error.
pub enum ErrorV<F> {
    Mismatch(Seq<char>, (Option<Loc>, TypV<F>), (Option<Loc>, TypV<F>)),
    Args(Seq<char>, nat, nat),
    Parse(Seq<char>),
    Dest,
}

impl<F> View for Error<F> {
    type V = ErrorV<F>;

    open spec fn view(&self) -> ErrorV<F> {
        match self {
            Error::Mismatch(s, a, b) => ErrorV::Mismatch(s@, (a.0, a.1@), (b.0, b.1@)),
            Error::Args(s, i, j) => ErrorV::Args(s@, *i as nat, *j as nat),
            Error::Parse(s) => ErrorV::Parse(s@),
            Error::Dest => ErrorV::Dest,
        }
    }
}

/// Located types, by their models.
pub open spec fn loc_types_view<F>(v: Seq<LocType<F>>) -> Seq<(Option<Loc>, TypV<F>)> {
    v.map_values(|lt: LocType<F>| (lt.0, lt.1@))
}

/// Index of the first pair of types that cannot be unified, if any.
pub open spec fn first_mismatch<F: TFlatTyp>(v1: Seq<(Option<Loc>, TypV<F>)>, v2: Seq<(Option<Loc>, TypV<F>)>, n: nat) -> Option<int>
    decreases n,
{
    if n == 0 {
        None
    } else {
        match first_mismatch(v1, v2, (n - 1) as nat) {
            Some(i) => Some(i),
            None => if !can_unify_spec(v1[n - 1].1, v2[n - 1].1) { Some(n - 1) } else { None },
        }
    }
}

/// Type checking a list of types against the expected ones: equal lengths
/// and each pair unifiable; otherwise the first offending pair.
pub open spec fn type_check_spec<F: TFlatTyp>(s: Seq<char>, v1: Seq<(Option<Loc>, TypV<F>)>, v2: Seq<(Option<Loc>, TypV<F>)>) -> Result<(), ErrorV<F>> {
    if v1.len() != v2.len() {
        Err(ErrorV::Args(s, v1.len(), v2.len()))
    } else {
        match first_mismatch(v1, v2, v1.len()) {
            Some(i) => Err(ErrorV::Mismatch(s, v1[i], v2[i])),
            None => Ok(()),
        }
    }
}

/// Destructing an option type.
pub open spec fn dest_option_spec<F: TFlatTyp>(t: TypV<F>) -> Result<TypV<F>, ErrorV<F>> {
    match t {
        TypV::Tuple(ts) => if ts.len() == 0 {
            Ok(ret_t::<F>())
        } else if ts.len() == 1 {
            Ok(ts[0])
        } else {
            Err(ErrorV::Dest)
        },
        _ => Err(ErrorV::Dest),
    }
}

/// The name under which a type's methods are found.
pub open spec fn intrinsic_spec<F: TFlatTyp>(t: TypV<F>) -> Option<Seq<char>> {
    if t == ret_t::<F>() {
        None
    } else {
        match t {
            TypV::List(_) => Some("list"@),
            TypV::Tuple(ts) => if ts.len() < 2 { Some("option"@) } else { None },
            _ => Some(typ_text(t)),
        }
    }
}

/// The model of a tuple type is the tuple of the models of its parts.
pub proof fn lemma_tuple_view<F>(v: Vec<Typ<F>>)
    ensures
        Typ::Tuple(v)@ == TypV::Tuple(v@.map_values(|t: Typ<F>| t@)),
        Typ::Tuple(v)@->Tuple_0.len() == v@.len(),
        forall|i: int| 0 <= i < v@.len() ==> #[trigger] Typ::Tuple(v)@->Tuple_0[i] == v@[i]@,
{
    let t = Typ::Tuple(v);
    assert(t@->Tuple_0.len() == v@.len());
    assert forall|i: int| 0 <= i < v@.len() implies #[trigger] t@->Tuple_0[i] == v@[i]@ by {}
    assert(t@->Tuple_0 =~= v@.map_values(|t: Typ<F>| t@));
}

impl<F: TFlatTyp> Typ<F> {
    /// A copy of the type.
    #[verifier::loop_isolation(false)]
    pub fn dup(&self) -> (r: Self)
        ensures
            r@ == self@,
        decreases self,
    {
        match self {
            Typ::FlatTyp(f) => Typ::FlatTyp(*f),
            Typ::List(t) => Typ::List(Box::new(t.dup())),
            Typ::Tuple(v) => {
                let mut out: Vec<Typ<F>> = Vec::new();
                let mut i: usize = 0;
                while i < v.len()
                    invariant
                        i <= v@.len(),
                        out@.len() == i,
                        forall|j: int| 0 <= j < i ==> (#[trigger] out@[j])@ == v@[j]@,
                    decreases v.len() - i,
                {
                    proof { vstd::std_specs::vec::axiom_vec_index_decreases(*v, i as int); }
                    out.push(v[i].dup());
                    i = i + 1;
                }
                proof {
                    lemma_tuple_view(out);
                    lemma_tuple_view(*v);
                    assert(out@.map_values(|t: Typ<F>| t@) =~= v@.map_values(|t: Typ<F>| t@));
                }
                Typ::Tuple(out)
            },
        }
    }

    /// Structural equality of types.
    #[verifier::loop_isolation(false)]
    pub fn same(&self, other: &Self) -> (b: bool)
        ensures
            b == (self@ == other@),
        decreases self,
    {
        match (self, other) {
            (Typ::FlatTyp(f), Typ::FlatTyp(g)) => f.same(g),
            (Typ::List(a), Typ::List(b)) => a.same(b),
            (Typ::Tuple(v1), Typ::Tuple(v2)) => {
                proof {
                    lemma_tuple_view(*v1);
                    lemma_tuple_view(*v2);
                }
                if v1.len() != v2.len() {
                    assert(self@->Tuple_0.len() != other@->Tuple_0.len());
                    return false;
                }
                let mut i: usize = 0;
                while i < v1.len()
                    invariant
                        i <= v1@.len(),
                        v1@.len() == v2@.len(),
                        forall|j: int| 0 <= j < i ==> (#[trigger] v1@[j])@ == v2@[j]@,
                    decreases v1.len() - i,
                {
                    proof { vstd::std_specs::vec::axiom_vec_index_decreases(*v1, i as int); }
                    if !v1[i].same(&v2[i]) {
                        assert(self@->Tuple_0[i as int] != other@->Tuple_0[i as int]);
                        return false;
                    }
                    i = i + 1;
                }
                assert(self@->Tuple_0 =~= other@->Tuple_0);
                true
            },
            _ => false,
        }
    }

    /// The flat type standing for `k`.
    pub fn flat(k: FlatTyp) -> (r: Self)
        ensures
            r@ == flat_t::<F>(k),
    {
        Typ::FlatTyp(F::of(k))
    }

    /// The type of `return`, which unifies with every type.
    pub fn rreturn() -> (r: Self)
        ensures
            r@ == ret_t::<F>(),
    {
        Typ::flat(FlatTyp::Return)
    }

    /// `unit`.
    pub fn unit() -> (r: Self) ensures r@ == flat_t::<F>(FlatTyp::Unit) { Typ::flat(FlatTyp::Unit) }
    /// `bool`.
    pub fn bool() -> (r: Self) ensures r@ == flat_t::<F>(FlatTyp::Bool) { Typ::flat(FlatTyp::Bool) }
    /// `i64`.
    pub fn i64() -> (r: Self) ensures r@ == flat_t::<F>(FlatTyp::I64) { Typ::flat(FlatTyp::I64) }
    /// `str`.
    pub fn str() -> (r: Self) ensures r@ == flat_t::<F>(FlatTyp::Str) { Typ::flat(FlatTyp::Str) }
    /// `data`.
    pub fn data() -> (r: Self) ensures r@ == flat_t::<F>(FlatTyp::Data) { Typ::flat(FlatTyp::Data) }
    /// `Label`.
    pub fn label() -> (r: Self) ensures r@ == flat_t::<F>(FlatTyp::Label) { Typ::flat(FlatTyp::Label) }
    /// `ID`.
    pub fn id() -> (r: Self) ensures r@ == flat_t::<F>(FlatTyp::ID) { Typ::flat(FlatTyp::ID) }
    /// `IpAddr`.
    pub fn ip_addr() -> (r: Self) ensures r@ == flat_t::<F>(FlatTyp::IpAddr) { Typ::flat(FlatTyp::IpAddr) }
    /// `Connection`.
    pub fn connection() -> (r: Self) ensures r@ == flat_t::<F>(FlatTyp::Connection) { Typ::flat(FlatTyp::Connection) }
    /// `HttpRequest`.
    pub fn http_request() -> (r: Self) ensures r@ == flat_t::<F>(FlatTyp::HttpRequest) { Typ::flat(FlatTyp::HttpRequest) }
    /// `HttpResponse`.
    pub fn http_response() -> (r: Self) ensures r@ == flat_t::<F>(FlatTyp::HttpResponse) { Typ::flat(FlatTyp::HttpResponse) }
    /// `regex`.
    pub fn regex() -> (r: Self) ensures r@ == flat_t::<F>(FlatTyp::Regex) { Typ::flat(FlatTyp::Regex) }

    /// `List<t>`.
    pub fn list(t: Self) -> (r: Self)
        ensures
            r@ == TypV::List(Box::new(t@)),
    {
        Typ::List(Box::new(t))
    }

    /// A tuple of the given types.
    pub fn tuple(ts: Vec<Self>) -> (r: Self)
        ensures
            r@ == TypV::Tuple(ts@.map_values(|t: Typ<F>| t@)),
    {
        let r = Typ::Tuple(ts);
        assert(r@->Tuple_0 =~= ts@.map_values(|t: Typ<F>| t@));
        r
    }

    /// The option type of unknown content.
    pub fn any_option() -> (r: Self)
        ensures
            r@ == TypV::<F>::Tuple(Seq::empty()),
    {
        let r = Typ::Tuple(Vec::new());
        assert(r@->Tuple_0 =~= Seq::<TypV<F>>::empty());
        r
    }

    /// `Option<self>`.
    pub fn option(&self) -> (r: Self)
        ensures
            r@ == TypV::Tuple(seq![self@]),
    {
        let mut v = Vec::new();
        v.push(self.dup());
        let r = Typ::Tuple(v);
        assert(r@->Tuple_0 =~= seq![self@]);
        r
    }

    /// Whether this is the type of `return`.
    pub fn is_return(&self) -> (b: bool)
        ensures
            b == (self@ == ret_t::<F>()),
    {
        match self {
            Typ::FlatTyp(f) => f.same(&F::of(FlatTyp::Return)),
            _ => false,
        }
    }

    /// Unification (see `unify_spec`).
    #[verifier::loop_isolation(false)]
    pub fn unify(&self, other: &Self) -> (r: Self)
        ensures
            r@ == unify_spec(self@, other@),
        decreases self,
    {
        if self.is_return() {
            return other.dup();
        }
        if other.is_return() {
            return self.dup();
        }
        match (self, other) {
            (Typ::List(l1), Typ::List(l2)) => Typ::List(Box::new(l1.unify(l2))),
            (Typ::Tuple(l1), Typ::Tuple(l2)) => {
                if l1.len() == 0 {
                    other.dup()
                } else if l2.len() == 0 {
                    self.dup()
                } else {
                    let n = if l1.len() < l2.len() { l1.len() } else { l2.len() };
                    let mut out: Vec<Typ<F>> = Vec::new();
                    let mut i: usize = 0;
                    while i < n
                        invariant
                            i <= n,
                            n <= l1@.len(),
                            n <= l2@.len(),
                            out@.len() == i,
                            forall|j: int| 0 <= j < i ==> (#[trigger] out@[j])@ == unify_spec(l1@[j]@, l2@[j]@),
                        decreases n - i,
                    {
                        proof { vstd::std_specs::vec::axiom_vec_index_decreases(*l1, i as int); }
                        out.push(l1[i].unify(&l2[i]));
                        i = i + 1;
                    }
                    let r = Typ::Tuple(out);
                    assert(r@->Tuple_0 =~= unify_spec(self@, other@)->Tuple_0);
                    r
                }
            },
            _ => self.dup(),
        }
    }

    /// Whether two types can be unified (see `can_unify_spec`).
    #[verifier::loop_isolation(false)]
    pub fn can_unify(&self, other: &Self) -> (b: bool)
        ensures
            b == can_unify_spec(self@, other@),
        decreases self,
    {
        if self.is_return() || other.is_return() {
            return true;
        }
        match (self, other) {
            (Typ::List(l1), Typ::List(l2)) => l1.can_unify(l2),
            (Typ::Tuple(l1), Typ::Tuple(l2)) => {
                let n1 = l1.len();
                let n2 = l2.len();
                let mut all = n1 == n2;
                if all {
                    let mut i: usize = 0;
                    while i < n1
                        invariant
                            i <= n1,
                            n1 == l1@.len(),
                            n2 == l2@.len(),
                            n1 == n2,
                            all == forall|j: int| 0 <= j < i ==> can_unify_spec(#[trigger] self@->Tuple_0[j], other@->Tuple_0[j]),
                        decreases n1 - i,
                    {
                        proof { vstd::std_specs::vec::axiom_vec_index_decreases(*l1, i as int); }
                        let c = l1[i].can_unify(&l2[i]);
                        assert(self@->Tuple_0[i as int] == l1@[i as int]@);
                        assert(other@->Tuple_0[i as int] == l2@[i as int]@);
                        all = all && c;
                        i = i + 1;
                    }
                }
                all || (n1 == 0 && n2 == 1) || (n1 == 1 && n2 == 0)
            },
            _ => self.same(other),
        }
    }

    /// Whether the type is (unifiable with) `unit`.
    pub fn is_unit(&self) -> (b: bool)
        ensures
            b == can_unify_spec(self@, flat_t::<F>(FlatTyp::Unit)),
    {
        self.can_unify(&Typ::unit())
    }

    /// The content type of an option type.
    pub fn dest_option(&self) -> (r: Result<Self, Error<F>>)
        ensures
            match r {
                Ok(t) => dest_option_spec(self@) == Ok::<TypV<F>, ErrorV<F>>(t@),
                Err(e) => dest_option_spec(self@) == Err::<TypV<F>, ErrorV<F>>(e@),
            },
    {
        match self {
            Typ::Tuple(ts) => {
                if ts.len() == 0 {
                    Ok(Typ::rreturn())
                } else if ts.len() == 1 {
                    Ok(ts[0].dup())
                } else {
                    Err(Error::Dest)
                }
            },
            _ => Err(Error::Dest),
        }
    }

    /// The element type of a list type.
    pub fn dest_list(&self) -> (r: Option<Self>)
        ensures
            match r {
                Some(t) => self@ == TypV::List(Box::new(t@)),
                None => !(self@ is List),
            },
    {
        match self {
            Typ::List(t) => Some(t.dup()),
            _ => None,
        }
    }

    /// The type printed.
    #[verifier::loop_isolation(false)]
    pub fn to_string(&self) -> (s: String)
        ensures
            s@ == typ_text(self@),
        decreases self,
    {
        match self {
            Typ::FlatTyp(f) => f.to_string(),
            Typ::List(t) => {
                let mut s = "List<".to_owned();
                let inner = t.to_string();
                push_str(&mut s, inner.as_str());
                string_push(&mut s, '>');
                s
            },
            Typ::Tuple(ts) => {
                if ts.len() == 0 {
                    "Option<?>".to_owned()
                } else if ts.len() == 1 {
                    let mut s = "Option<".to_owned();
                    let inner = ts[0].to_string();
                    push_str(&mut s, inner.as_str());
                    string_push(&mut s, '>');
                    s
                } else {
                    let ghost texts = parts_texts(self@);
                    let mut body = String::new();
                    let mut i: usize = 0;
                    while i < ts.len()
                        invariant
                            i <= ts@.len(),
                            texts == parts_texts(self@),
                            self@->Tuple_0.len() == ts@.len(),
                            body@ == join_comma(texts.take(i as int)),
                        decreases ts.len() - i,
                    {
                        proof { vstd::std_specs::vec::axiom_vec_index_decreases(*ts, i as int); }
                        if i > 0 {
                            string_push(&mut body, ',');
                            string_push(&mut body, ' ');
                        }
                        let t = ts[i].to_string();
                        push_str(&mut body, t.as_str());
                        assert(texts.take(i + 1).drop_last() == texts.take(i as int));
                        assert(texts[i as int] == typ_text(ts@[i as int]@));
                        i = i + 1;
                    }
                    assert(texts.take(ts@.len() as int) == texts);
                    let mut s = String::new();
                    string_push(&mut s, '(');
                    push_str(&mut s, body.as_str());
                    string_push(&mut s, ')');
                    s
                }
            },
        }
    }

    /// The name under which the type's methods are found: `list`, `option`,
    /// the type's own name, or none for `return` and proper tuples.
    pub fn intrinsic(&self) -> (r: Option<String>)
        ensures
            match r {
                Some(s) => intrinsic_spec(self@) == Some(s@),
                None => intrinsic_spec(self@) is None,
            },
    {
        if self.is_return() {
            return None;
        }
        match self {
            Typ::List(_) => Some("list".to_owned()),
            Typ::Tuple(t) => {
                if t.len() < 2 {
                    Some("option".to_owned())
                } else {
                    None
                }
            },
            _ => Some(self.to_string()),
        }
    }

    /// Checks a list of types against the expected ones (see
    /// `type_check_spec`).
    pub fn type_check(s: &str, v1: Vec<LocType<F>>, v2: Vec<LocType<F>>) -> (r: Result<(), Error<F>>)
        ensures
            match r {
                Ok(()) => type_check_spec(s@, loc_types_view(v1@), loc_types_view(v2@)) == Ok::<(), ErrorV<F>>(()),
                Err(e) => type_check_spec(s@, loc_types_view(v1@), loc_types_view(v2@)) == Err::<(), ErrorV<F>>(e@),
            },
    {
        let ghost w1 = loc_types_view(v1@);
        let ghost w2 = loc_types_view(v2@);
        let len1 = v1.len();
        let len2 = v2.len();
        if len1 != len2 {
            return Err(Error::Args(s.to_owned(), len1, len2));
        }
        let mut i: usize = 0;
        while i < len1
            invariant
                i <= len1,
                len1 == v1@.len(),
                len2 == v2@.len(),
                len1 == len2,
                w1 == loc_types_view(v1@),
                w2 == loc_types_view(v2@),
                first_mismatch(w1, w2, i as nat) is None,
            decreases len1 - i,
        {
            if !v1[i].1.can_unify(&v2[i].1) {
                proof {
                    lemma_first_mismatch_stable(w1, w2, (i + 1) as nat, len1 as nat);
                }
                let a = (v1[i].0, v1[i].1.dup());
                let b = (v2[i].0, v2[i].1.dup());
                return Err(Error::Mismatch(s.to_owned(), a, b));
            }
            i = i + 1;
        }
        Ok(())
    }
}

/// Once found, the first mismatch stays the first.
pub proof fn lemma_first_mismatch_stable<F: TFlatTyp>(v1: Seq<(Option<Loc>, TypV<F>)>, v2: Seq<(Option<Loc>, TypV<F>)>, i: nat, n: nat)
    requires
        i <= n,
        first_mismatch(v1, v2, i) is Some,
    ensures
        first_mismatch(v1, v2, n) == first_mismatch(v1, v2, i),
    decreases n - i,
{
    if i < n {
        lemma_first_mismatch_stable(v1, v2, i, (n - 1) as nat);
    }
}

} // verus!

verus! {

/// Whether two types can be unified does not depend on their order.
pub proof fn lemma_can_unify_symmetric<F: TFlatTyp>(a: TypV<F>, b: TypV<F>)
    ensures
        can_unify_spec(a, b) == can_unify_spec(b, a),
    decreases a,
{
    if a == ret_t::<F>() || b == ret_t::<F>() {
    } else {
        match (a, b) {
            (TypV::List(l1), TypV::List(l2)) => {
                lemma_can_unify_symmetric(*l1, *l2);
            },
            (TypV::Tuple(l1), TypV::Tuple(l2)) => {
                if l1.len() == l2.len() {
                    assert forall|i: int| 0 <= i < l1.len() implies can_unify_spec(#[trigger] l1[i], l2[i]) == can_unify_spec(l2[i], l1[i]) by {
                        lemma_can_unify_symmetric(l1[i], l2[i]);
                    }
                    if forall|i: int| 0 <= i < l1.len() ==> can_unify_spec(#[trigger] l1[i], l2[i]) {
                        assert forall|i: int| 0 <= i < l2.len() implies can_unify_spec(#[trigger] l2[i], l1[i]) by {
                            assert(can_unify_spec(l1[i], l2[i]));
                        }
                    }
                    if forall|i: int| 0 <= i < l2.len() ==> can_unify_spec(#[trigger] l2[i], l1[i]) {
                        assert forall|i: int| 0 <= i < l1.len() implies can_unify_spec(#[trigger] l1[i], l2[i]) by {
                            assert(can_unify_spec(l2[i], l1[i]));
                        }
                    }
                }
            },
            _ => {},
        }
    }
}

/// Every type can be unified with itself.
pub proof fn lemma_can_unify_reflexive<F: TFlatTyp>(a: TypV<F>)
    ensures
        can_unify_spec(a, a),
    decreases a,
{
    if a != ret_t::<F>() {
        match a {
            TypV::List(l) => {
                lemma_can_unify_reflexive(*l);
            },
            TypV::Tuple(ts) => {
                assert forall|i: int| 0 <= i < ts.len() implies can_unify_spec(#[trigger] ts[i], ts[i]) by {
                    lemma_can_unify_reflexive(ts[i]);
                }
            },
            _ => {},
        }
    }
}

/// A list of types passes the check against itself.
pub proof fn lemma_type_check_reflexive<F: TFlatTyp>(s: Seq<char>, v: Seq<(Option<Loc>, TypV<F>)>)
    ensures
        type_check_spec(s, v, v) == Ok::<(), ErrorV<F>>(()),
{
    lemma_first_mismatch_none(v, v.len());
}

proof fn lemma_first_mismatch_none<F: TFlatTyp>(v: Seq<(Option<Loc>, TypV<F>)>, n: nat)
    ensures
        first_mismatch(v, v, n) is None,
    decreases n,
{
    if n > 0 {
        lemma_first_mismatch_none(v, (n - 1) as nat);
        lemma_can_unify_reflexive(v[n - 1].1);
    }
}

/// Unifying with the type of `return` gives the other type.
pub proof fn lemma_unify_return<F: TFlatTyp>(a: TypV<F>)
    ensures
        unify_spec(ret_t::<F>(), a) == a,
        unify_spec(a, ret_t::<F>()) == a,
{
}

} // verus!

verus! {

/// Model of a signature: the argument types (`None`: any arguments) and the
/// result type.
pub type SigV<F> = (Option<Seq<TypV<F>>>, TypV<F>);

/// Models of a list of types.
pub open spec fn types_view<F>(v: Seq<Typ<F>>) -> Seq<TypV<F>> {
    v.map_values(|t: Typ<F>| t@)
}

/// The signature of a function: argument types (`None`: any arguments) and
/// result type.
#[derive(Debug)]
pub struct Signature<F>(pub Option<Vec<Typ<F>>>, pub Typ<F>);

impl<F> View for Signature<F> {
    type V = SigV<F>;

    open spec fn view(&self) -> SigV<F> {
        (match self.0 {
            Some(v) => Some(types_view(v@)),
            None => None,
        }, self.1@)
    }
}

/// How a signature is printed: `(a, b) -> c`, or `(_) -> c` for any
/// arguments.
pub open spec fn sig_text<F: TFlatTyp>(s: SigV<F>) -> Seq<char> {
    seq!['('] + match s.0 {
        Some(ts) => join_comma(ts.map_values(|t: TypV<F>| typ_text(t))),
        None => seq!['_'],
    } + seq![')', ' ', '-', '>', ' '] + typ_text(s.1)
}

/// Copies of a list of types.
pub fn dup_types<F: TFlatTyp>(v: &Vec<Typ<F>>) -> (r: Vec<Typ<F>>)
    ensures
        types_view(r@) == types_view(v@),
{
    let mut out: Vec<Typ<F>> = Vec::new();
    let mut i: usize = 0;
    while i < v.len()
        invariant
            i <= v@.len(),
            out@.len() == i,
            forall|j: int| 0 <= j < i ==> (#[trigger] out@[j])@ == v@[j]@,
        decreases v.len() - i,
    {
        out.push(v[i].dup());
        i = i + 1;
    }
    assert(types_view(out@) =~= types_view(v@));
    out
}

/// The types printed and joined by `, `.
fn join_types<F: TFlatTyp>(ts: &Vec<Typ<F>>) -> (s: String)
    ensures
        s@ == join_comma(types_view(ts@).map_values(|t: TypV<F>| typ_text(t))),
{
    let ghost texts = types_view(ts@).map_values(|t: TypV<F>| typ_text(t));
    let mut body = String::new();
    let mut i: usize = 0;
    while i < ts.len()
        invariant
            i <= ts@.len(),
            texts == types_view(ts@).map_values(|t: TypV<F>| typ_text(t)),
            texts.len() == ts@.len(),
            body@ == join_comma(texts.take(i as int)),
        decreases ts.len() - i,
    {
        if i > 0 {
            string_push(&mut body, ',');
            string_push(&mut body, ' ');
        }
        let t = ts[i].to_string();
        push_str(&mut body, t.as_str());
        assert(texts.take(i + 1).drop_last() == texts.take(i as int));
        assert(texts[i as int] == typ_text(ts@[i as int]@));
        i = i + 1;
    }
    assert(texts.take(ts@.len() as int) == texts);
    body
}

impl<F: TFlatTyp> Signature<F> {
    /// A signature with the given argument types.
    pub fn new(args: Vec<Typ<F>>, typ: Typ<F>) -> (s: Self)
        ensures
            s@ == (Some(types_view(args@)), typ@),
    {
        Signature(Some(args), typ)
    }

    /// A signature that accepts any arguments.
    pub fn new_noargs(typ: Typ<F>) -> (s: Self)
        ensures
            s@ == (None::<Seq<TypV<F>>>, typ@),
    {
        Signature(None, typ)
    }

    /// A signature that accepts any arguments.
    pub fn any(typ: Typ<F>) -> (s: Self)
        ensures
            s@ == (None::<Seq<TypV<F>>>, typ@),
    {
        Signature(None, typ)
    }

    /// The argument types and the result type.
    pub fn split(self) -> (r: (Option<Vec<Typ<F>>>, Typ<F>))
        ensures
            r.0 == self.0,
            r.1 == self.1,
    {
        (self.0, self.1)
    }

    /// The argument types.
    pub fn args(self) -> (r: Option<Vec<Typ<F>>>)
        ensures
            r == self.0,
    {
        self.0
    }

    /// The result type.
    pub fn typ(self) -> (r: Typ<F>)
        ensures
            r == self.1,
    {
        self.1
    }

    /// A copy of the signature.
    pub fn dup(&self) -> (r: Self)
        ensures
            r@ == self@,
    {
        let args = match &self.0 {
            Some(v) => Some(dup_types(v)),
            None => None,
        };
        Signature(args, self.1.dup())
    }

    /// The signature printed.
    pub fn to_string(&self) -> (s: String)
        ensures
            s@ == sig_text(self@),
    {
        let mut s = String::new();
        string_push(&mut s, '(');
        match &self.0 {
            Some(ts) => {
                let j = join_types(ts);
                push_str(&mut s, j.as_str());
            },
            None => string_push(&mut s, '_'),
        }
        string_push(&mut s, ')');
        string_push(&mut s, ' ');
        string_push(&mut s, '-');
        string_push(&mut s, '>');
        string_push(&mut s, ' ');
        let t = self.1.to_string();
        push_str(&mut s, t.as_str());
        s
    }
}

impl<F: TFlatTyp> Default for Signature<F> {
    /// Any arguments, result `unit`.
    fn default() -> (s: Self)
        ensures
            s@ == (None::<Seq<TypV<F>>>, flat_t::<F>(FlatTyp::Unit)),
    {
        Signature(None, Typ::unit())
    }
}

/// The control-plane type of a data-plane type.
pub open spec fn cp_of(t: TypV<FlatTyp>) -> TypV<CPFlatTyp>
    decreases t,
{
    match t {
        TypV::Flat(f) => TypV::Flat(CPFlatTyp::DPFlatTyp(f)),
        TypV::List(b) => TypV::List(Box::new(cp_of(*b))),
        TypV::Tuple(ts) => TypV::Tuple(Seq::new(ts.len(), |i: int| if 0 <= i < ts.len() {
            cp_of(ts[i])
        } else {
            TypV::Tuple(Seq::empty())
        })),
    }
}

/// The control-plane signature of a data-plane signature.
pub open spec fn sig_to_cp(s: SigV<FlatTyp>) -> SigV<CPFlatTyp> {
    (match s.0 {
        Some(ts) => Some(ts.map_values(|t: TypV<FlatTyp>| cp_of(t))),
        None => None,
    }, cp_of(s.1))
}

/// `sig_to_cp` under an option.
pub open spec fn sig_to_cp_opt(s: Option<SigV<FlatTyp>>) -> Option<SigV<CPFlatTyp>> {
    match s {
        Some(x) => Some(sig_to_cp(x)),
        None => None,
    }
}

impl Typ<FlatTyp> {
    /// The same type over control-plane flat types.
    #[verifier::loop_isolation(false)]
    pub fn to_cp(&self) -> (r: Typ<CPFlatTyp>)
        ensures
            r@ == cp_of(self@),
        decreases self,
    {
        match self {
            Typ::FlatTyp(f) => Typ::FlatTyp(CPFlatTyp::DPFlatTyp(*f)),
            Typ::List(t) => Typ::List(Box::new(t.to_cp())),
            Typ::Tuple(v) => {
                let mut out: Vec<Typ<CPFlatTyp>> = Vec::new();
                let mut i: usize = 0;
                while i < v.len()
                    invariant
                        i <= v@.len(),
                        out@.len() == i,
                        forall|j: int| 0 <= j < i ==> (#[trigger] out@[j])@ == cp_of(v@[j]@),
                    decreases v.len() - i,
                {
                    proof { vstd::std_specs::vec::axiom_vec_index_decreases(*v, i as int); }
                    out.push(v[i].to_cp());
                    i = i + 1;
                }
                proof {
                    lemma_tuple_view(out);
                    lemma_tuple_view(*v);
                }
                let r = Typ::Tuple(out);
                assert(r@->Tuple_0 =~= cp_of(self@)->Tuple_0);
                r
            },
        }
    }
}

/// Control-plane versions of data-plane types.
fn types_to_cp(v: &Vec<Typ<FlatTyp>>) -> (r: Vec<Typ<CPFlatTyp>>)
    ensures
        types_view(r@) == types_view(v@).map_values(|t: TypV<FlatTyp>| cp_of(t)),
{
    let mut out: Vec<Typ<CPFlatTyp>> = Vec::new();
    let mut i: usize = 0;
    while i < v.len()
        invariant
            i <= v@.len(),
            out@.len() == i,
            forall|j: int| 0 <= j < i ==> (#[trigger] out@[j])@ == cp_of(v@[j]@),
        decreases v.len() - i,
    {
        out.push(v[i].to_cp());
        i = i + 1;
    }
    assert(types_view(out@) =~= types_view(v@).map_values(|t: TypV<FlatTyp>| cp_of(t)));
    out
}

impl Signature<FlatTyp> {
    /// The same signature over control-plane flat types.
    pub fn to_cp(&self) -> (r: Signature<CPFlatTyp>)
        ensures
            r@ == sig_to_cp(self@),
    {
        let args = match &self.0 {
            Some(v) => Some(types_to_cp(v)),
            None => None,
        };
        Signature(args, self.1.to_cp())
    }
}

} // verus!
