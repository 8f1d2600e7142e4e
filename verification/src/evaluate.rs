//! Evaluation of policy expressions.
//!
//! Evaluation is a pure function of the program's code, the expression and
//! the replies to the calls that it makes on the outside (external services,
//! connection metadata, the clock). It runs until it has a value, fails, or
//! reaches a call whose reply it does not have yet: then it stops and names
//! that call. The caller makes the call and evaluates again with one more
//! reply. Calls that are made without waiting for a reply are collected.

use vstd::prelude::*;
use crate::strmap::{StrMap, Dup, sorted_keys, map_of, lemma_remove_at, lemma_lookup, lemma_unique};
use crate::text::{seq_lt, lemma_seq_lt_irreflexive, lemma_seq_lt_asymmetric, lemma_seq_lt_transitive,
    lemma_seq_lt_total};
use crate::labels::{Label, NodeV, Match};
use crate::parser::{PolicyRegex, PatV};
use crate::labels::{match_spec, label_text};
use crate::literals::{Literal, FlatLiteral, LitV, FlatLitV, lits_view, lemma_lits_view_from, lemma_lits_view_index, lemma_lits_view_len};
use crate::interpret::{eval_call2_spec, pairs_lit, infix_ok, eval_infix_spec, prefix_ok, eval_prefix_spec,
    call1_ok, eval_call1_spec, call2_ok, base64_fits, pow_fits};
use crate::parser::{Infix, Prefix, Iter, As, Pat, strip_as_spec};
use crate::regexes::{regex_is_match, regex_group_names, regex_captures, opt_texts, group_names, group_captures,
    regex_find};
use crate::headers::{Headers, split_spec, is_builtin_spec};
use crate::types::FlatTyp;
use crate::netvals::{net_call0, net_call3, net_call4, net_eval_call0, net_eval_call3, net_eval_call4};
use crate::text::{i64_parse, parse_i64, str_eq, push_str};
use vstd::utf8::encode_utf8;
use crate::expressions::{Expr, Block, Error};
use crate::expressions::{ExprV, exprs_view, matches_view, lemma_exprs_view_push, depth_ok, depth_ok_seq, depth_ok_matches, bvars_ok, bvars_ok_seq,
    bvars_ok_matches, subst_v, subst_v_seq, subst_v_matches, bump, apply_v, lemma_depth_ok_mono};

verus! {

/// Patterns that `if ... matches` tests a value against.
#[derive(Debug)]
pub enum Pattern {
    Regex(PolicyRegex),
    Label(Label),
}

/// Model of a pattern: a regular expression by its pattern and the source
/// of its compiled expression; a label by its nodes.
pub enum PatternV {
    Regex(PatV, Seq<char>),
    Label(Seq<NodeV>),
}

impl View for Pattern {
    type V = PatternV;

    open spec fn view(&self) -> PatternV {
        match self {
            Pattern::Regex(r) => PatternV::Regex(r.0@, r.1.source()),
            Pattern::Label(l) => PatternV::Label(l@),
        }
    }
}

impl Dup for Pattern {
    fn dup(&self) -> (r: Pattern) {
        match self {
            Pattern::Regex(re) => Pattern::Regex(re.dup()),
            Pattern::Label(l) => Pattern::Label(l.dup()),
        }
    }
}

/// In two lists sorted by key that denote the same map, the entries are the
/// same.
pub proof fn lemma_sorted_determined<V>(a: Seq<(Seq<char>, V)>, b: Seq<(Seq<char>, V)>)
    requires
        sorted_keys(a),
        sorted_keys(b),
        map_of(a) == map_of(b),
    ensures
        a == b,
    decreases a.len(),
{
    if a.len() == 0 {
        if b.len() > 0 {
            lemma_lookup(b, 0);
            assert(map_of(a).contains_key(b[0].0));
        }
        assert(a =~= b);
    } else if b.len() == 0 {
        lemma_lookup(a, 0);
        assert(map_of(b).contains_key(a[0].0));
    } else {
        lemma_lookup(a, 0);
        lemma_lookup(b, 0);
        let ka = a[0].0;
        let kb = b[0].0;
        // the first key of each list is the least key of the map
        assert(ka == kb) by {
            lemma_seq_lt_total(ka, kb);
            if seq_lt(ka, kb) {
                let j = choose|j: int| 0 <= j < b.len() && #[trigger] b[j].0 == ka;
                if j > 0 {
                    assert(seq_lt(b[0].0, b[j].0));
                    lemma_seq_lt_asymmetric(ka, kb);
                } else {
                    lemma_seq_lt_irreflexive(ka);
                }
            } else if seq_lt(kb, ka) {
                let j = choose|j: int| 0 <= j < a.len() && #[trigger] a[j].0 == kb;
                if j > 0 {
                    assert(seq_lt(a[0].0, a[j].0));
                    lemma_seq_lt_asymmetric(kb, ka);
                } else {
                    lemma_seq_lt_irreflexive(kb);
                }
            }
        }
        assert(a[0] == b[0]);
        lemma_remove_at(a, 0);
        lemma_remove_at(b, 0);
        lemma_sorted_determined(a.remove(0), b.remove(0));
        assert(a =~= seq![a[0]] + a.remove(0));
        assert(b =~= seq![b[0]] + b.remove(0));
    }
}

/// What a two-argument built-in function gives is determined by its
/// arguments.
pub proof fn lemma_call2_determined(f: Seq<char>, a: LitV, b: LitV, r1: Option<LitV>, r2: Option<LitV>)
    requires
        eval_call2_spec(f, a, b, r1),
        eval_call2_spec(f, a, b, r2),
    ensures
        r1 == r2,
{
    match (a, b) {
        (LitV::Flat(FlatLitV::Label(i)), LitV::Flat(FlatLitV::Label(j))) => {
            if f == "Label::captures"@ {
                match match_spec(i, j) {
                    Some(mm) => {
                        let es1 = choose|es: Seq<(Seq<char>, Seq<NodeV>)>|
                            sorted_keys(es) && map_of(es) == mm && r1->0 == LitV::Tuple(seq![LitV::List(#[trigger] pairs_lit(es))]);
                        let es2 = choose|es: Seq<(Seq<char>, Seq<NodeV>)>|
                            sorted_keys(es) && map_of(es) == mm && r2->0 == LitV::Tuple(seq![LitV::List(#[trigger] pairs_lit(es))]);
                        lemma_sorted_determined(es1, es2);
                    },
                    None => {},
                }
            }
        },
        _ => {},
    }
}

/// What a two-argument built-in function gives (see `eval_call2_spec`).
pub open spec fn call2_v(f: Seq<char>, a: LitV, b: LitV) -> Option<LitV> {
    choose|r: Option<LitV>| eval_call2_spec(f, a, b, r)
}

/// Values, what evaluation gives: a literal, or a value being returned.
pub open spec fn is_value<A, B>(e: ExprV<A, B>) -> bool
    decreases e,
{
    match e {
        ExprV::LitExpr(_) => true,
        ExprV::ReturnExpr(x) => is_value(*x),
        _ => false,
    }
}

/// A value has no closures and no bound variables, and shifting leaves it
/// as it is.
pub proof fn lemma_value<A, B>(u: ExprV<A, B>, n: nat, d: nat)
    requires
        is_value(u),
    ensures
        depth_ok(u, n),
        bvars_ok(u),
        bump(u, d) == u,
    decreases u,
{
    match u {
        ExprV::ReturnExpr(x) => { lemma_value(*x, n, d); },
        _ => {},
    }
}

/// Substituting a value keeps the nesting of closures within bounds and
/// the indices of bound variables below `usize::MAX`.
pub proof fn lemma_subst_value<A, B>(e: ExprV<A, B>, i: nat, u: ExprV<A, B>, n: nat)
    requires
        is_value(u),
        depth_ok(e, n),
        bvars_ok(e),
    ensures
        depth_ok(subst_v(e, i, u), n),
        bvars_ok(subst_v(e, i, u)),
    decreases e,
{
    lemma_value(u, n, 0);
    match e {
        ExprV::Var(_) => {  },
        ExprV::BVar(_, _) => {  },
        ExprV::LitExpr(_) => {  },
        ExprV::ReturnExpr(e) => { lemma_subst_value(*e, i, u, n); },
        ExprV::PrefixExpr(_, e) => { lemma_subst_value(*e, i, u, n); },
        ExprV::InfixExpr(_, e1, e2) => { lemma_subst_value(*e1, i, u, n); lemma_subst_value(*e2, i, u, n); },
        ExprV::BlockExpr(_, es) => { lemma_subst_value_seq(es, i, u, n); },
        ExprV::Let(_, e1, e2) => { lemma_subst_value(*e1, i, u, n); lemma_subst_value(*e2, i, u, n); },
        ExprV::Iter(_, _, e1, e2, acc) => { lemma_subst_value(*e1, i, u, n); lemma_subst_value(*e2, i, u, n); match acc { Some(x) => { lemma_subst_value(*x, i, u, n); }, None => {} } },
        ExprV::Closure(_, e) => { lemma_subst_value(*e, i + 1, u, n + 1); },
        ExprV::IfExpr { cond, consequence, alternative } => { lemma_subst_value(*cond, i, u, n); lemma_subst_value(*consequence, i, u, n); match alternative { Some(x) => { lemma_subst_value(*x, i, u, n); }, None => {} } },
        ExprV::IfMatchExpr { variables: _, matches, consequence, alternative } => { lemma_subst_value_matches(matches, i, u, n); lemma_subst_value(*consequence, i, u, n); match alternative { Some(x) => { lemma_subst_value(*x, i, u, n); }, None => {} } },
        ExprV::IfSomeMatchExpr { expr, consequence, alternative } => { lemma_subst_value(*expr, i, u, n); lemma_subst_value(*consequence, i, u, n); match alternative { Some(x) => { lemma_subst_value(*x, i, u, n); }, None => {} } },
        ExprV::CallExpr { function: _, arguments, is_async: _ } => { lemma_subst_value_seq(arguments, i, u, n); },
    }
}

/// `lemma_subst_value` for each expression of a list.
pub proof fn lemma_subst_value_seq<A, B>(s: Seq<ExprV<A, B>>, i: nat, u: ExprV<A, B>, n: nat)
    requires
        is_value(u),
        depth_ok_seq(s, n),
        bvars_ok_seq(s),
    ensures
        depth_ok_seq(subst_v_seq(s, i, u), n),
        bvars_ok_seq(subst_v_seq(s, i, u)),
    decreases s,
{
    if s.len() > 0 {
        lemma_subst_value(s[0], i, u, n);
        lemma_subst_value_seq(s.subrange(1, s.len() as int), i, u, n);
        let t = subst_v_seq(s, i, u);
        assert(t[0] == subst_v(s[0], i, u));
        assert(t.subrange(1, t.len() as int) =~= subst_v_seq(s.subrange(1, s.len() as int), i, u));
    }
}

/// `lemma_subst_value` for the expression of each match arm.
pub proof fn lemma_subst_value_matches<A, B>(s: Seq<(ExprV<A, B>, B)>, i: nat, u: ExprV<A, B>, n: nat)
    requires
        is_value(u),
        depth_ok_matches(s, n),
        bvars_ok_matches(s),
    ensures
        depth_ok_matches(subst_v_matches(s, i, u), n),
        bvars_ok_matches(subst_v_matches(s, i, u)),
    decreases s,
{
    if s.len() > 0 {
        lemma_subst_value(s[0].0, i, u, n);
        lemma_subst_value_matches(s.subrange(1, s.len() as int), i, u, n);
        let t = subst_v_matches(s, i, u);
        assert(t[0] == (subst_v(s[0].0, i, u), s[0].1));
        assert(t.subrange(1, t.len() as int) =~= subst_v_matches(s.subrange(1, s.len() as int), i, u));
    }
}

/// Expressions that evaluation can take: closures nest within bounds and
/// bound variables' indices stay below `usize::MAX`.
pub open spec fn wf<A, B>(e: ExprV<A, B>) -> bool {
    depth_ok(e, 0) && bvars_ok(e)
}

/// Applying a closure to a value keeps an expression fit for evaluation.
pub proof fn lemma_apply_value<A, B>(e: ExprV<A, B>, u: ExprV<A, B>)
    requires
        wf(e),
        is_value(u),
    ensures
        apply_v(e, u) matches Some(x) ==> wf(x),
{
    match e {
        ExprV::Closure(_, b) => {
            lemma_depth_ok_mono(*b, 0);
            lemma_subst_value(*b, 0, u, 0);
        },
        _ => {},
    }
}

/// Expressions of the language over its values and patterns.
pub type Exp = Expr<Literal, Pattern>;

/// Model of an expression of the language.
pub type EV = ExprV<LitV, PatternV>;

/// A call on the outside: an external service's method, or a metadata
/// service (`Ingress`, `Egress`), or the clock (`System`), with its
/// arguments.
#[derive(Debug)]
pub struct Call {
    pub external: String,
    pub method: String,
    pub args: Vec<Literal>,
}

/// Model of a call.
pub struct CallV {
    pub external: Seq<char>,
    pub method: Seq<char>,
    pub args: Seq<LitV>,
}

impl View for Call {
    type V = CallV;

    open spec fn view(&self) -> CallV {
        CallV { external: self.external@, method: self.method@, args: lits_view(self.args@) }
    }
}

/// Why evaluation stopped without a value: it failed, or it waits for the
/// reply to a call.
#[derive(Debug)]
pub enum Stop {
    Fail(Error),
    Wait(Call),
}

/// Model of a stop.
pub enum StopV {
    Fail(Seq<char>),
    Wait(CallV),
}

impl View for Stop {
    type V = StopV;

    open spec fn view(&self) -> StopV {
        match self {
            Stop::Fail(e) => StopV::Fail(e.0@),
            Stop::Wait(c) => StopV::Wait(c@),
        }
    }
}

/// The replies to the calls that wait for one, in the order of the calls,
/// how many of them evaluation has used, and the calls made without
/// waiting.
pub struct Replies {
    pub replies: Vec<Result<Literal, String>>,
    pub next: usize,
    pub spawned: Vec<Call>,
}

/// Model of the replies.
pub struct RepliesV {
    pub replies: Seq<Result<LitV, Seq<char>>>,
    pub next: nat,
    pub spawned: Seq<CallV>,
}

/// Replies by their views.
pub open spec fn replies_view(v: Seq<Result<Literal, String>>) -> Seq<Result<LitV, Seq<char>>> {
    Seq::new(v.len(), |k: int| match v[k] { Ok(l) => Ok(l@), Err(m) => Err(m@) })
}

/// Calls by their views.
pub open spec fn calls_view(v: Seq<Call>) -> Seq<CallV> {
    Seq::new(v.len(), |k: int| v[k]@)
}

impl View for Replies {
    type V = RepliesV;

    open spec fn view(&self) -> RepliesV {
        RepliesV { replies: replies_view(self.replies@), next: self.next as nat, spawned: calls_view(self.spawned@) }
    }
}

/// The functions of a program, by name.
pub struct Code(StrMap<Exp>);

impl View for Code {
    type V = Map<Seq<char>, EV>;

    closed spec fn view(&self) -> Map<Seq<char>, EV> {
        self.0.map()
    }
}

/// Every function of the program is fit for evaluation.
pub open spec fn code_wf(code: Map<Seq<char>, EV>) -> bool {
    forall|k: Seq<char>| #[trigger] code.contains_key(k) ==> wf(code[k])
}

impl Code {
    #[verifier::type_invariant]
    spec fn inv(self) -> bool {
        code_wf(self.0.map())
    }

    /// A program without functions.
    pub fn new() -> (c: Code)
        ensures
            c@ == Map::<Seq<char>, EV>::empty(),
    {
        let m: StrMap<Exp> = StrMap::new();
        assert(m.map() =~= Map::<Seq<char>, EV>::empty());
        Code(m)
    }

    /// The function of that name.
    pub fn get(&self, s: String) -> (r: Option<Exp>)
        ensures
            match r {
                Some(e) => self@.contains_key(s@) && e@ == self@[s@],
                None => !self@.contains_key(s@),
            },
    {
        match self.0.get(s.as_str()) {
            Some(e) => Some(e.dup()),
            None => None,
        }
    }

    /// Adds (or replaces) a function, giving back the one it replaces.
    pub fn insert(&mut self, s: String, e: Exp) -> (r: Option<Exp>)
        requires
            wf(e@),
        ensures
            final(self)@ == old(self)@.insert(s@, e@),
            match r {
                Some(o) => old(self)@.contains_key(s@) && o@ == old(self)@[s@],
                None => !old(self)@.contains_key(s@),
            },
    {
        proof { use_type_invariant(&*self); }
        let ghost sv = s@;
        let ghost evw = e@;
        let mut m = StrMap::new();
        std::mem::swap(&mut m, &mut self.0);
        let r = m.insert(s, e);
        assert(code_wf(m.map())) by {
            assert forall|k: Seq<char>| #[trigger] m.map().contains_key(k) implies wf(m.map()[k]) by {
                if k != sv {
                    assert(old(self)@.contains_key(k));
                }
            }
        }
        self.0 = m;
        r
    }

    /// Removes a function.
    pub fn remove(&mut self, s: &str)
        ensures
            final(self)@ == old(self)@.remove(s@),
    {
        proof { use_type_invariant(&*self); }
        let mut m = StrMap::new();
        std::mem::swap(&mut m, &mut self.0);
        m.remove(s);
        assert(code_wf(m.map())) by {
            assert forall|k: Seq<char>| #[trigger] m.map().contains_key(k) implies wf(m.map()[k]) by {
                assert(old(self)@.contains_key(k));
            }
        }
        self.0 = m;
    }

    /// The functions of both programs; the second's where both have one.
    pub fn merge(&self, other: &Code) -> (r: Code)
        ensures
            r@ == self@.union_prefer_right(other@),
    {
        proof {
            use_type_invariant(self);
            use_type_invariant(other);
        }
        let m = self.0.merge(&other.0);
        assert(code_wf(m.map())) by {
            assert forall|k: Seq<char>| #[trigger] m.map().contains_key(k) implies wf(m.map()[k]) by {
                if other@.contains_key(k) {
                    assert(other.0.map().contains_key(k));
                } else {
                    assert(self.0.map().contains_key(k));
                }
            }
        }
        Code(m)
    }

    /// Removes the functions of those names.
    pub fn cut(&mut self, set: &[String])
        ensures
            final(self)@ == old(self)@.remove_keys(names_set(set@)),
    {
        proof { use_type_invariant(&*self); }
        let mut m = StrMap::new();
        std::mem::swap(&mut m, &mut self.0);
        let ghost start = m.map();
        let mut i: usize = 0;
        while i < set.len()
            invariant
                i <= set@.len(),
                start == old(self)@,
                code_wf(start),
                m.map() == start.remove_keys(names_set(set@.take(i as int))),
            decreases set.len() - i,
        {
            let ghost before = m.map();
            m.remove(set[i].as_str());
            let ghost a = set@.take(i as int);
            let ghost b = set@.take(i + 1);
            assert(names_set(b) =~= names_set(a).insert(set@[i as int]@)) by {
                assert forall|k: Seq<char>| names_set(b).contains(k) implies names_set(a).insert(set@[i as int]@).contains(k) by {
                    let j = choose|j: int| 0 <= j < b.len() && #[trigger] b[j]@ == k;
                    if j < i {
                        assert(a[j] == b[j]);
                    }
                }
                assert forall|k: Seq<char>| names_set(a).insert(set@[i as int]@).contains(k) implies names_set(b).contains(k) by {
                    if k == set@[i as int]@ {
                        assert(b[i as int]@ == k);
                    } else {
                        let j = choose|j: int| 0 <= j < a.len() && #[trigger] a[j]@ == k;
                        assert(b[j] == a[j]);
                    }
                }
            }
            assert(m.map() =~= start.remove_keys(names_set(b)));
            i = i + 1;
        }
        assert(set@.take(set@.len() as int) =~= set@);
        assert(code_wf(m.map())) by {
            assert forall|k: Seq<char>| #[trigger] m.map().contains_key(k) implies wf(m.map()[k]) by {
                assert(start.contains_key(k));
            }
        }
        self.0 = m;
    }
}

/// Evaluation failing with a message.
pub open spec fn fail_v(m: Seq<char>) -> Result<EV, StopV> {
    Err(StopV::Fail(m))
}

/// A literal expression.
pub open spec fn lit_e(l: LitV) -> EV {
    ExprV::LitExpr(l)
}

/// The unit value as an expression.
pub open spec fn unit_e() -> EV {
    ExprV::LitExpr(LitV::Flat(FlatLitV::Unit))
}

/// The message of a failed closure application.
pub open spec fn apply_error() -> Seq<char> {
    "apply: expression is not a closure"@
}

/// The message where an integer operation would overflow; evaluation
/// stops there.
pub open spec fn overflow_error() -> Seq<char> {
    "eval: arithmetic overflow"@
}

/// The message where the nesting of evaluation exceeds the fuel.
pub open spec fn fuel_error() -> Seq<char> {
    "eval: out of fuel"@
}

/// The message where a value taken as a Boolean is not one.
pub open spec fn not_bool_error() -> Seq<char> {
    "eval: not a Boolean"@
}

/// The message where `fold` has no accumulator.
pub open spec fn no_acc_error() -> Seq<char> {
    "eval, fold: no accumulator"@
}

/// The message where a named group of a regular expression took no part in
/// the match.
pub open spec fn missing_group_error() -> Seq<char> {
    "eval, if-match-expression: unmatched group"@
}

/// The first value being returned in a list of values.
pub open spec fn first_return(vs: Seq<EV>) -> Option<EV>
    decreases vs.len(),
{
    if vs.len() == 0 {
        None
    } else if vs[0] is ReturnExpr {
        Some(vs[0])
    } else {
        first_return(vs.subrange(1, vs.len() as int))
    }
}

/// The literals of a list of literal expressions.
pub open spec fn lits_of(vs: Seq<EV>) -> Option<Seq<LitV>> {
    if forall|k: int| 0 <= k < vs.len() ==> (#[trigger] vs[k]) is LitExpr {
        Some(Seq::new(vs.len(), |k: int| vs[k]->LitExpr_0))
    } else {
        None
    }
}

/// Applying a closure to the literals bound to the names, one after the
/// other from index `k`; `_` binds nothing.
pub open spec fn apply_names_v(e: EV, vs: Seq<Seq<char>>, ls: Seq<LitV>, k: nat) -> Option<EV>
    decreases vs.len() - k,
{
    if k >= vs.len() {
        Some(e)
    } else if vs[k as int] == seq!['_'] {
        apply_names_v(e, vs, ls, k + 1)
    } else {
        match apply_v(e, lit_e(ls[k as int])) {
            Some(e2) => apply_names_v(e2, vs, ls, k + 1),
            None => None,
        }
    }
}

/// Applying a function to its arguments, one after the other from index `k`.
pub open spec fn apply_all_v(e: EV, args: Seq<EV>, k: nat) -> Option<EV>
    decreases args.len() - k,
{
    if k >= args.len() {
        Some(e)
    } else {
        match apply_v(e, args[k as int]) {
            Some(e2) => apply_all_v(e2, args, k + 1),
            None => None,
        }
    }
}

/// The value of a value being returned, once it reaches a function's end.
pub open spec fn strip_return_v(e: EV) -> EV {
    match e {
        ExprV::ReturnExpr(x) => *x,
        _ => e,
    }
}

/// The result of an infix operation on two evaluated operands.
pub open spec fn infix_result(op: Infix, v1: EV, v2: EV) -> Result<EV, StopV> {
    if v1 is ReturnExpr {
        Ok(v1)
    } else if v2 is ReturnExpr {
        Ok(v2)
    } else {
        match (v1, v2) {
            (ExprV::LitExpr(l1), ExprV::LitExpr(l2)) =>
                if !infix_ok(op, l1, l2) {
                    fail_v(overflow_error())
                } else {
                    match eval_infix_spec(op, l1, l2) {
                        Some(r) => Ok(lit_e(r)),
                        None => fail_v("eval, infix: type error"@),
                    }
                },
            _ => fail_v("eval, infix: failed"@),
        }
    }
}

/// The result of a prefix operation on an evaluated operand.
pub open spec fn prefix_result(p: Prefix, v: EV) -> Result<EV, StopV> {
    match v {
        ExprV::ReturnExpr(_) => Ok(v),
        ExprV::LitExpr(l) =>
            if !prefix_ok(p, l) {
                fail_v(overflow_error())
            } else {
                match eval_prefix_spec(p, l) {
                    Some(r) => Ok(lit_e(r)),
                    None => fail_v("eval prefix: type error"@),
                }
            },
        _ => fail_v("eval, prefix"@),
    }
}

/// A Boolean literal expression.
pub open spec fn bool_e(v: EV, b: bool) -> bool {
    v == lit_e(LitV::Flat(FlatLitV::Bool(b)))
}

/// A list or a tuple of evaluated elements.
pub open spec fn collect_result(b: Block, vs: Seq<EV>) -> Result<EV, StopV> {
    match first_return(vs) {
        Some(r) => Ok(r),
        None => match lits_of(vs) {
            Some(ls) => Ok(lit_e(if b == Block::List { LitV::List(ls) } else { LitV::Tuple(ls) })),
            None => fail_v("arg is not a literal"@),
        },
    }
}

/// `Iterator::all` on values taken as Booleans.
pub open spec fn all_bool(ls: Seq<LitV>) -> Result<bool, Seq<char>>
    decreases ls.len(),
{
    if ls.len() == 0 {
        Ok(true)
    } else {
        match ls[0] {
            LitV::Flat(FlatLitV::Bool(b)) => if !b { Ok(false) } else { all_bool(ls.subrange(1, ls.len() as int)) },
            _ => Err(not_bool_error()),
        }
    }
}

/// `Iterator::any` on values taken as Booleans.
pub open spec fn any_bool(ls: Seq<LitV>) -> Result<bool, Seq<char>>
    decreases ls.len(),
{
    if ls.len() == 0 {
        Ok(false)
    } else {
        match ls[0] {
            LitV::Flat(FlatLitV::Bool(b)) => if b { Ok(true) } else { any_bool(ls.subrange(1, ls.len() as int)) },
            _ => Err(not_bool_error()),
        }
    }
}

/// The elements whose flag is true (every flag a Boolean).
pub open spec fn filter_by(ls: Seq<LitV>, bs: Seq<LitV>) -> Result<Seq<LitV>, Seq<char>>
    decreases ls.len(),
{
    if ls.len() == 0 || bs.len() == 0 {
        Ok(Seq::empty())
    } else {
        match bs[0] {
            LitV::Flat(FlatLitV::Bool(b)) =>
                match filter_by(ls.subrange(1, ls.len() as int), bs.subrange(1, bs.len() as int)) {
                    Ok(rest) => Ok(if b { seq![ls[0]] + rest } else { rest }),
                    Err(m) => Err(m),
                },
            _ => Err(not_bool_error()),
        }
    }
}

/// The contents of the options that are `Some`.
pub open spec fn somes(ls: Seq<LitV>) -> Seq<LitV>
    decreases ls.len(),
{
    if ls.len() == 0 {
        Seq::empty()
    } else {
        let rest = somes(ls.subrange(1, ls.len() as int));
        match ls[0] {
            LitV::Tuple(t) => if t.len() == 1 { seq![t[0]] + rest } else { rest },
            _ => rest,
        }
    }
}

/// The value of an iteration, from the list iterated over (`lits`), the
/// values of the body for each element (`res`) and the final accumulator.
pub open spec fn finish_iter(op: Iter, lits: Seq<LitV>, res: Seq<EV>, acc: Option<EV>) -> Result<EV, StopV> {
    match first_return(res) {
        Some(r) => Ok(r),
        None => if op == Iter::Fold {
            match acc {
                Some(ExprV::LitExpr(l)) => Ok(lit_e(l)),
                Some(_) => fail_v("arg is not a literal"@),
                None => fail_v(no_acc_error()),
            }
        } else {
            match lits_of(res) {
                None => fail_v("arg is not a literal"@),
                Some(ls) => match op {
                    Iter::MapEach => Ok(lit_e(LitV::List(ls))),
                    Iter::ForEach => Ok(unit_e()),
                    Iter::Filter => match filter_by(lits, ls) {
                        Ok(f) => Ok(lit_e(LitV::List(f))),
                        Err(m) => fail_v(m),
                    },
                    Iter::FilterMap => Ok(lit_e(LitV::List(somes(ls)))),
                    Iter::All => match all_bool(ls) {
                        Ok(b) => Ok(lit_e(LitV::Flat(FlatLitV::Bool(b)))),
                        Err(m) => fail_v(m),
                    },
                    Iter::Any => match any_bool(ls) {
                        Ok(b) => Ok(lit_e(LitV::Flat(FlatLitV::Bool(b)))),
                        Err(m) => fail_v(m),
                    },
                    Iter::Fold => fail_v(no_acc_error()),
                },
            }
        }
    }
}

/// What base64 decoding makes of a text (`base64::decode`, standard
/// alphabet); `None` where the text is not base64.
pub uninterp spec fn base64_decoded(text: Seq<char>) -> Option<Seq<u8>>;

/// Runs `base64::decode`. The contract claims that the result depends on
/// the text alone. The function stops the program when the length
/// computation overflows, which the precondition rules out.
#[verifier::external_body]
fn base64_decode(s: &str) -> (r: Option<Vec<u8>>)
    requires
        encode_utf8(s@).len() + 3 <= usize::MAX,
    ensures
        match r {
            Some(v) => base64_decoded(s@) == Some(v@),
            None => base64_decoded(s@) is None,
        },
{
    base64::decode(s).ok()
}

/// The value a named group gives: an integer, base64 data, or the text.
/// A text too long for the decoder's length computation (which would stop
/// the program) gives no value.
pub open spec fn cap_value(a: As, text: Seq<char>) -> Option<EV> {
    match a {
        As::I64 => match i64_parse(text) {
            Some(i) => Some(lit_e(LitV::Flat(FlatLitV::Int(i)))),
            None => None,
        },
        As::Base64 => if encode_utf8(text).len() + 3 > usize::MAX {
            None
        } else {
            match base64_decoded(text) {
                Some(d) => Some(lit_e(LitV::Flat(FlatLitV::Data(d)))),
                None => None,
            }
        },
        As::Str => Some(lit_e(LitV::Flat(FlatLitV::Str(text)))),
    }
}

/// The outcome of reading the named groups of a match.
pub enum CapsV {
    Missing,
    NoMatch,
    Caps(Map<Seq<char>, EV>),
}

/// Reading the named groups from index `k` on into the bindings.
pub open spec fn group_caps(names: Seq<Option<Seq<char>>>, groups: Seq<Option<Seq<char>>>, k: nat,
    acc: Map<Seq<char>, EV>) -> CapsV
    decreases names.len() - k,
{
    if k >= names.len() {
        CapsV::Caps(acc)
    } else {
        match names[k as int] {
            None => group_caps(names, groups, k + 1, acc),
            Some(name) => match groups[k as int] {
                None => CapsV::Missing,
                Some(text) => {
                    let (n, a) = strip_as_spec(name);
                    match cap_value(a, text) {
                        Some(v) => group_caps(names, groups, k + 1, acc.insert(n, v)),
                        None => CapsV::NoMatch,
                    }
                },
            },
        }
    }
}

/// Some group has a name.
pub open spec fn has_named(names: Seq<Option<Seq<char>>>) -> bool {
    exists|k: int| 0 <= k < names.len() && (#[trigger] names[k]) is Some
}

/// Matching a text against a compiled regular expression.
pub open spec fn regex_caps(src: Seq<char>, s: Seq<char>) -> CapsV {
    let names = regex_group_names(src);
    if !has_named(names) {
        if regex_is_match(src, s) { CapsV::Caps(Map::empty()) } else { CapsV::NoMatch }
    } else {
        match regex_captures(src, s) {
            None => CapsV::NoMatch,
            Some(groups) => group_caps(names, groups, 0, Map::empty()),
        }
    }
}

/// The bindings of a label match, each variable to its label printed.
pub open spec fn label_caps(m: Map<Seq<char>, Seq<NodeV>>) -> Map<Seq<char>, EV> {
    Map::new(|k: Seq<char>| m.contains_key(k), |k: Seq<char>| lit_e(LitV::Flat(FlatLitV::Str(label_text(m[k])))))
}

/// The outcome of matching a value against a pattern.
pub enum PerformV {
    TypeError,
    Missing,
    Done(EV, Option<Map<Seq<char>, EV>>),
}

/// Matching an evaluated expression against a pattern: a value being
/// returned passes through; labels match labels and texts match regular
/// expressions.
pub open spec fn perform_match(v: EV, p: PatternV) -> PerformV {
    match v {
        ExprV::ReturnExpr(_) => PerformV::Done(v, None),
        ExprV::LitExpr(LitV::Flat(FlatLitV::Label(l))) => match p {
            PatternV::Label(q) => PerformV::Done(v, match match_spec(q, l) {
                Some(m) => Some(label_caps(m)),
                None => None,
            }),
            _ => PerformV::TypeError,
        },
        ExprV::LitExpr(LitV::Flat(FlatLitV::Str(s))) => match p {
            PatternV::Regex(_, src) => match regex_caps(src, s) {
                CapsV::Missing => PerformV::Missing,
                CapsV::NoMatch => PerformV::Done(v, None),
                CapsV::Caps(m) => PerformV::Done(v, Some(m)),
            },
            _ => PerformV::TypeError,
        },
        _ => PerformV::TypeError,
    }
}

/// The bindings of all the matches together, later ones first.
pub open spec fn caps_union(rs: Seq<(EV, Option<Map<Seq<char>, EV>>)>) -> Map<Seq<char>, EV>
    decreases rs.len(),
{
    if rs.len() == 0 {
        Map::empty()
    } else {
        caps_union(rs.drop_last()).union_prefer_right(
            match rs.last().1 { Some(m) => m, None => Map::empty() },
        )
    }
}

/// Applying the consequence to the bindings of the variables, in order.
pub open spec fn apply_vars_v(c: EV, vars: Seq<Seq<char>>, caps: Map<Seq<char>, EV>, k: nat) -> Result<EV, StopV>
    decreases vars.len() - k,
{
    if k >= vars.len() {
        Ok(c)
    } else if !caps.contains_key(vars[k as int]) {
        fail_v("eval, if-match-expression: missing bind"@)
    } else {
        match apply_v(c, caps[vars[k as int]]) {
            Some(c2) => apply_vars_v(c2, vars, caps, k + 1),
            None => fail_v(apply_error()),
        }
    }
}

/// A call that waits for its reply: the next reply if there is one,
/// otherwise a stop that names the call.
pub open spec fn blocking_call(st: RepliesV, c: CallV) -> (Result<EV, StopV>, RepliesV) {
    if st.next < st.replies.len() {
        let st2 = RepliesV { next: st.next + 1, ..st };
        (match st.replies[st.next as int] {
            Ok(l) => Ok(lit_e(l)),
            Err(m) => fail_v(m),
        }, st2)
    } else {
        (Err(StopV::Wait(c)), st)
    }
}

/// The address lookups, which ask the outside: `IpAddr::lookup` of a name
/// and `IpAddr::reverse_lookup` of an address.
pub open spec fn lookup_call(f: Seq<char>, l: LitV) -> bool {
    (f == "IpAddr::lookup"@ && l matches LitV::Flat(FlatLitV::Str(_)))
        || (f == "IpAddr::reverse_lookup"@ && l matches LitV::Flat(FlatLitV::IpAddr(_)))
}

/// The method of a lookup.
pub open spec fn lookup_method(f: Seq<char>) -> Seq<char> {
    if f == "IpAddr::lookup"@ { "lookup"@ } else { "reverse_lookup"@ }
}

/// A three-argument built-in function on values.
pub open spec fn call3_v(f: Seq<char>, a: LitV, b: LitV, c: LitV) -> Option<LitV> {
    match (a, b, c) {
        (LitV::Flat(x), LitV::Flat(y), LitV::Flat(z)) => net_call3(f, x, y, z),
        _ => None,
    }
}

/// A four-argument built-in function on values.
pub open spec fn call4_v(f: Seq<char>, a: LitV, b: LitV, c: LitV, d: LitV) -> Option<LitV> {
    match (a, b, c, d) {
        (LitV::Flat(w), LitV::Flat(x), LitV::Flat(y), LitV::Flat(z)) => net_call4(f, w, x, y, z),
        _ => None,
    }
}

/// A call of a built-in function on its evaluated arguments.
pub open spec fn builtin_call(st: RepliesV, f: Seq<char>, ls: Seq<LitV>) -> (Result<EV, StopV>, RepliesV) {
    if ls.len() == 0 {
        if f == "System::getCurrentTime"@ {
            blocking_call(st, CallV { external: "System"@, method: "getCurrentTime"@, args: Seq::empty() })
        } else {
            (match net_call0(f) {
                Some(r) => Ok(lit_e(r)),
                None => fail_v("eval, call(0): type error"@),
            }, st)
        }
    } else if ls.len() == 1 && lookup_call(f, ls[0]) {
        blocking_call(st, CallV { external: "IpAddr"@, method: lookup_method(f), args: ls })
    } else if ls.len() == 1 {
        (if !call1_ok(f, ls[0]) {
            fail_v(overflow_error())
        } else {
            match eval_call1_spec(f, ls[0]) {
                Some(r) => Ok(lit_e(r)),
                None => fail_v("eval, call(1): type error"@),
            }
        }, st)
    } else if ls.len() == 2 {
        (if !call2_ok(f, ls[0], ls[1]) {
            fail_v(overflow_error())
        } else {
            match call2_v(f, ls[0], ls[1]) {
                Some(r) => Ok(lit_e(r)),
                None => fail_v("eval, call(2): type error"@),
            }
        }, st)
    } else if ls.len() == 3 {
        (match call3_v(f, ls[0], ls[1], ls[2]) {
            Some(r) => Ok(lit_e(r)),
            None => fail_v("eval, call(3): type error"@),
        }, st)
    } else if ls.len() == 4 {
        (match call4_v(f, ls[0], ls[1], ls[2], ls[3]) {
            Some(r) => Ok(lit_e(r)),
            None => fail_v("eval, call(4): type error"@),
        }, st)
    } else {
        (fail_v("eval, call: "@ + f), st)
    }
}

/// A call of a function that is neither in the program nor built in: a
/// metadata or external service's method, made on the outside.
pub open spec fn outside_call(st: RepliesV, f: Seq<char>, is_async: bool, args: Seq<EV>) -> (Result<EV, StopV>, RepliesV) {
    match split_spec(f) {
        Some((external, method)) => match lits_of(args) {
            None => (fail_v("arg is not a literal"@), st),
            Some(ls) => {
                let c = CallV { external, method, args: ls };
                if external == "Ingress"@ || external == "Egress"@ {
                    blocking_call(st, c)
                } else if is_async {
                    (Ok(unit_e()), RepliesV { spawned: st.spawned.push(c), ..st })
                } else {
                    blocking_call(st, c)
                }
            },
        },
        None => (fail_v("eval, call: "@ + f), st),
    }
}

/// The expression that one step of an iteration evaluates: the body
/// applied to the accumulator, if any, then to the element (or to the
/// components of a tuple element, one per name).
pub open spec fn iter_target(vs: Seq<Seq<char>>, body: EV, acc: Option<EV>, l: LitV) -> Result<EV, StopV> {
    let with_acc = match acc {
        Some(a) => apply_v(body, a),
        None => Some(body),
    };
    if l is Tuple && vs.len() != 1 {
        if vs.len() == l->Tuple_0.len() {
            match with_acc {
                Some(e1) => match apply_names_v(e1, vs, l->Tuple_0, 0) {
                    Some(e2) => Ok(e2),
                    None => fail_v(apply_error()),
                },
                None => fail_v(apply_error()),
            }
        } else {
            fail_v("eval, iter-expression (tuple length mismatch)"@)
        }
    } else if vs.len() == 1 {
        match with_acc {
            Some(e1) => match apply_names_v(e1, vs, seq![l], 0) {
                Some(e2) => Ok(e2),
                None => fail_v(apply_error()),
            },
            None => fail_v(apply_error()),
        }
    } else {
        fail_v("eval, iter-expression (not a tuple list)"@)
    }
}

/// The expression that a `let` evaluates after binding the value of its
/// first expression.
pub open spec fn let_target(vs: Seq<Seq<char>>, body: EV, v: EV) -> Result<EV, StopV> {
    let l = v->LitExpr_0;
    if l is Tuple && 1 < l->Tuple_0.len() && vs.len() == l->Tuple_0.len() {
        match apply_names_v(body, vs, l->Tuple_0, 0) {
            Some(e) => Ok(e),
            None => fail_v(apply_error()),
        }
    } else if vs.len() == 1 {
        match apply_v(body, v) {
            Some(e) => Ok(e),
            None => fail_v(apply_error()),
        }
    } else if l is Tuple {
        fail_v("eval, let-expression (tuple length mismatch)"@)
    } else {
        fail_v("eval, let-expression (literal not a tuple)"@)
    }
}

/// Some match failed.
pub open spec fn some_unmatched(rs: Seq<(EV, Option<Map<Seq<char>, EV>>)>) -> bool {
    exists|k: int| 0 <= k < rs.len() && (#[trigger] rs[k]).1 is None
}

/// The evaluated expressions of the matches.
pub open spec fn match_values(rs: Seq<(EV, Option<Map<Seq<char>, EV>>)>) -> Seq<EV> {
    Seq::new(rs.len(), |k: int| rs[k].0)
}

/// A value that a branch of `if ... matches` may give.
pub open spec fn branch_result(r: Result<EV, StopV>) -> Result<EV, StopV> {
    match r {
        Ok(v) => if v is ReturnExpr || v is LitExpr { Ok(v) } else { fail_v("eval, if-match-expression"@) },
        Err(z) => Err(z),
    }
}

/// The evaluation of an expression with a program's functions, from the
/// replies so far: its result and the replies afterwards. Binding a value
/// (a `let`, a step of an iteration, a match's bindings, a call of a
/// program's function) takes a unit of fuel for the evaluation that follows.
pub open spec fn eval_v(fuel: nat, code: Map<Seq<char>, EV>, st: RepliesV, e: EV) -> (Result<EV, StopV>, RepliesV)
    decreases fuel, e, 0nat,
{
    match e {
        ExprV::Var(_) => (fail_v("eval variable"@), st),
        ExprV::BVar(_, _) => (fail_v("eval variable"@), st),
        ExprV::LitExpr(_) => (Ok(e), st),
        ExprV::Closure(_, _) => (fail_v("eval, closure"@), st),
        ExprV::ReturnExpr(x) => {
            let (r, s1) = eval_v(fuel, code, st, *x);
            (match r {
                Ok(v) => Ok(ExprV::ReturnExpr(Box::new(v))),
                Err(z) => Err(z),
            }, s1)
        },
        ExprV::PrefixExpr(p, x) => {
            let (r, s1) = eval_v(fuel, code, st, *x);
            (match r {
                Ok(v) => prefix_result(p, v),
                Err(z) => Err(z),
            }, s1)
        },
        ExprV::InfixExpr(op, x, y) => {
            let (r1, s1) = eval_v(fuel, code, st, *x);
            match r1 {
                Err(z) => (Err(z), s1),
                Ok(v1) => if op == Infix::And || op == Infix::Or {
                    let stop_at = op == Infix::Or;
                    if v1 is ReturnExpr || bool_e(v1, stop_at) {
                        (Ok(v1), s1)
                    } else if bool_e(v1, !stop_at) {
                        let (r2, s2) = eval_v(fuel, code, s1, *y);
                        (match r2 {
                            Err(z) => Err(z),
                            Ok(v2) => if v2 is ReturnExpr || bool_e(v2, true) || bool_e(v2, false) {
                                Ok(v2)
                            } else {
                                fail_v("eval, infix"@)
                            },
                        }, s2)
                    } else {
                        (fail_v("eval, infix"@), s1)
                    }
                } else {
                    let (r2, s2) = eval_v(fuel, code, s1, *y);
                    (match r2 {
                        Err(z) => Err(z),
                        Ok(v2) => infix_result(op, v1, v2),
                    }, s2)
                },
            }
        },
        ExprV::BlockExpr(b, es) => if es.len() == 0 {
            (Ok(lit_e(if b == Block::List { LitV::List(Seq::empty()) } else { LitV::Flat(FlatLitV::Unit) })), st)
        } else if b == Block::Block {
            eval_block_v(fuel, code, st, es)
        } else {
            let (r, s1) = eval_seq_v(fuel, code, st, es);
            (match r {
                Err(z) => Err(z),
                Ok(vs) => collect_result(b, vs),
            }, s1)
        },
        ExprV::Let(vs, x, body) => {
            let (r, s1) = eval_v(fuel, code, st, *x);
            match r {
                Err(z) => (Err(z), s1),
                Ok(v) => if v is ReturnExpr {
                    (Ok(v), s1)
                } else if v is LitExpr {
                    match let_target(vs, *body, v) {
                        Err(z) => (Err(z), s1),
                        Ok(t) => if fuel > 0 { eval_v((fuel - 1) as nat, code, s1, t) } else { (fail_v(fuel_error()), s1) },
                    }
                } else {
                    (fail_v("eval, let-expression"@), s1)
                },
            }
        },
        ExprV::Iter(op, vs, x, body, acc) => {
            let (r, s1) = eval_v(fuel, code, st, *x);
            match r {
                Err(z) => (Err(z), s1),
                Ok(v) => if v is ReturnExpr {
                    (Ok(v), s1)
                } else if v is LitExpr && v->LitExpr_0 is List {
                    let lits = v->LitExpr_0->List_0;
                    let (ra, s2) = match acc {
                        Some(a) => {
                            let (ra, s2) = eval_v(fuel, code, s1, *a);
                            (match ra {
                                Ok(av) => Ok(Some(av)),
                                Err(z) => Err(z),
                            }, s2)
                        },
                        None => (Ok(None), s1),
                    };
                    match ra {
                        Err(z) => (Err(z), s2),
                        Ok(acc0) => {
                            let (ri, s3) = eval_iter_v(fuel, code, s2, vs, *body, lits, 0, acc0, Seq::empty());
                            (match ri {
                                Err(z) => Err(z),
                                Ok(out) => finish_iter(op, lits, out.0, out.1),
                            }, s3)
                        },
                    }
                } else {
                    (fail_v("eval, map-expression"@), s1)
                },
            }
        },
        ExprV::IfExpr { cond, consequence, alternative } => {
            let (r, s1) = eval_v(fuel, code, st, *cond);
            match r {
                Err(z) => (Err(z), s1),
                Ok(v) => if v is ReturnExpr {
                    (Ok(v), s1)
                } else if bool_e(v, true) {
                    eval_v(fuel, code, s1, *consequence)
                } else if bool_e(v, false) {
                    match alternative {
                        Some(a) => eval_v(fuel, code, s1, *a),
                        None => (Ok(unit_e()), s1),
                    }
                } else {
                    (fail_v("eval, if-expression"@), s1)
                },
            }
        },
        ExprV::IfSomeMatchExpr { expr, consequence, alternative } => {
            let (r, s1) = eval_v(fuel, code, st, *expr);
            match r {
                Err(z) => (Err(z), s1),
                Ok(v) => if v is ReturnExpr {
                    (Ok(v), s1)
                } else if v is LitExpr && v->LitExpr_0 is Tuple {
                    let t = v->LitExpr_0->Tuple_0;
                    if t.len() == 1 {
                        match apply_v(*consequence, lit_e(t[0])) {
                            Some(c) => if fuel > 0 { eval_v((fuel - 1) as nat, code, s1, c) } else { (fail_v(fuel_error()), s1) },
                            None => (fail_v(apply_error()), s1),
                        }
                    } else {
                        match alternative {
                            Some(a) => eval_v(fuel, code, s1, *a),
                            None => (Ok(unit_e()), s1),
                        }
                    }
                } else {
                    (fail_v("eval, if-let-expression"@), s1)
                },
            }
        },
        ExprV::IfMatchExpr { variables, matches, consequence, alternative } => {
            let (r, s1) = eval_matches_v(fuel, code, st, matches);
            match r {
                Err(z) => (Err(z), s1),
                Ok(rs) => match first_return(match_values(rs)) {
                    Some(v) => (Ok(v), s1),
                    None => if some_unmatched(rs) {
                        match alternative {
                            None => (Ok(unit_e()), s1),
                            Some(a) => {
                                let (ra, s2) = eval_v(fuel, code, s1, *a);
                                (branch_result(ra), s2)
                            },
                        }
                    } else {
                        match apply_vars_v(*consequence, variables, caps_union(rs), 0) {
                            Err(z) => (Err(z), s1),
                            Ok(c) => if fuel > 0 {
                                let (rc, s2) = eval_v((fuel - 1) as nat, code, s1, c);
                                (branch_result(rc), s2)
                            } else {
                                (fail_v(fuel_error()), s1)
                            },
                        }
                    },
                },
            }
        },
        ExprV::CallExpr { function, arguments, is_async } => {
            let (r, s1) = eval_seq_v(fuel, code, st, arguments);
            match r {
                Err(z) => (Err(z), s1),
                Ok(args) => match first_return(args) {
                    Some(v) => (Ok(v), s1),
                    None => if code.contains_key(function) {
                        match apply_all_v(code[function], args, 0) {
                            None => (fail_v(apply_error()), s1),
                            Some(b) => if fuel > 0 {
                                let (rb, s2) = eval_v((fuel - 1) as nat, code, s1, b);
                                (match rb {
                                    Ok(v) => Ok(strip_return_v(v)),
                                    Err(z) => Err(z),
                                }, s2)
                            } else {
                                (fail_v(fuel_error()), s1)
                            },
                        }
                    } else if is_builtin_spec::<FlatTyp>(function) {
                        match lits_of(args) {
                            Some(ls) => builtin_call(s1, function, ls),
                            None => (fail_v("eval, call: "@ + function), s1),
                        }
                    } else {
                        outside_call(s1, function, is_async, args)
                    },
                },
            }
        },
    }
}

/// Evaluating a list of expressions in order, up to the first that stops.
pub open spec fn eval_seq_v(fuel: nat, code: Map<Seq<char>, EV>, st: RepliesV, es: Seq<EV>) -> (Result<Seq<EV>, StopV>, RepliesV)
    decreases fuel, es, 0nat,
{
    if es.len() == 0 {
        (Ok(Seq::empty()), st)
    } else {
        let (r, s1) = eval_v(fuel, code, st, es[0]);
        match r {
            Err(z) => (Err(z), s1),
            Ok(v) => {
                let (rr, s2) = eval_seq_v(fuel, code, s1, es.subrange(1, es.len() as int));
                (match rr {
                    Ok(rest) => Ok(seq![v] + rest),
                    Err(z) => Err(z),
                }, s2)
            },
        }
    }
}

/// Evaluating the statements of a block: the value of the last one, or of
/// the first that returns.
pub open spec fn eval_block_v(fuel: nat, code: Map<Seq<char>, EV>, st: RepliesV, es: Seq<EV>) -> (Result<EV, StopV>, RepliesV)
    decreases fuel, es, 0nat,
{
    if es.len() == 0 {
        (Ok(unit_e()), st)
    } else {
        let (r, s1) = eval_v(fuel, code, st, es[0]);
        match r {
            Err(z) => (Err(z), s1),
            Ok(v) => if v is ReturnExpr || es.len() == 1 {
                (Ok(v), s1)
            } else {
                eval_block_v(fuel, code, s1, es.subrange(1, es.len() as int))
            },
        }
    }
}

/// Evaluating the expressions of the matches in order and matching each
/// against its pattern.
pub open spec fn eval_matches_v(fuel: nat, code: Map<Seq<char>, EV>, st: RepliesV, ms: Seq<(EV, PatternV)>)
    -> (Result<Seq<(EV, Option<Map<Seq<char>, EV>>)>, StopV>, RepliesV)
    decreases fuel, ms, 0nat,
{
    if ms.len() == 0 {
        (Ok(Seq::empty()), st)
    } else {
        let (r, s1) = eval_v(fuel, code, st, ms[0].0);
        match r {
            Err(z) => (Err(z), s1),
            Ok(v) => match perform_match(v, ms[0].1) {
                PerformV::TypeError => (Err(StopV::Fail("eval, if-match-expression: type error"@)), s1),
                PerformV::Missing => (Err(StopV::Fail(missing_group_error())), s1),
                PerformV::Done(v2, c) => {
                    let (rr, s2) = eval_matches_v(fuel, code, s1, ms.subrange(1, ms.len() as int));
                    (match rr {
                        Ok(rest) => Ok(seq![(v2, c)] + rest),
                        Err(z) => Err(z),
                    }, s2)
                },
            },
        }
    }
}

/// The steps of an iteration from element `k` on: the values of the body
/// so far (`res`) and the accumulator, which takes the value of each step.
pub open spec fn eval_iter_v(fuel: nat, code: Map<Seq<char>, EV>, st: RepliesV, vs: Seq<Seq<char>>, body: EV,
    lits: Seq<LitV>, k: nat, acc: Option<EV>, res: Seq<EV>) -> (Result<(Seq<EV>, Option<EV>), StopV>, RepliesV)
    decreases fuel, body, lits.len() - k,
{
    if k >= lits.len() {
        (Ok((res, acc)), st)
    } else {
        match iter_target(vs, body, acc, lits[k as int]) {
            Err(z) => (Err(z), st),
            Ok(t) => if fuel > 0 {
                let (r, s1) = eval_v((fuel - 1) as nat, code, st, t);
                match r {
                    Err(z) => (Err(z), s1),
                    Ok(v) => eval_iter_v(fuel, code, s1, vs, body, lits, k + 1,
                        if acc is Some { Some(v) } else { None }, res.push(v)),
                }
            } else {
                (Err(StopV::Fail(fuel_error())), st)
            },
        }
    }
}

/// The models of a list of expressions, element by element.
pub proof fn lemma_exprs_view_map(s: Seq<Exp>)
    ensures
        exprs_view(s) == Seq::new(s.len(), |k: int| s[k]@),
    decreases s.len(),
{
    if s.len() > 0 {
        lemma_exprs_view_map(s.subrange(1, s.len() as int));
    }
    assert(exprs_view(s) =~= Seq::new(s.len(), |k: int| s[k]@));
}

/// The models of a list of match arms, arm by arm.
pub proof fn lemma_matches_view_map(s: Seq<(Exp, Pattern)>)
    ensures
        matches_view(s) == Seq::new(s.len(), |k: int| (s[k].0@, s[k].1@)),
    decreases s.len(),
{
    if s.len() > 0 {
        lemma_matches_view_map(s.subrange(1, s.len() as int));
    }
    assert(matches_view(s) =~= Seq::new(s.len(), |k: int| (s[k].0@, s[k].1@)));
}

/// Results by their models.
pub open spec fn res_view(r: Result<Exp, Stop>) -> Result<EV, StopV> {
    match r {
        Ok(x) => Ok(x@),
        Err(s) => Err(s@),
    }
}

/// Failing with a message.
fn fail(m: &str) -> (r: Result<Exp, Stop>)
    ensures
        res_view(r) == fail_v(m@),
{
    Err(Stop::Fail(Error::new(m)))
}

/// A literal expression for a literal.
fn lit_exp(l: Literal) -> (e: Exp)
    ensures
        e@ == lit_e(l@),
        is_value(e@),
{
    Expr::LitExpr(l)
}

/// Whether an expression is the Boolean literal `b`.
fn is_bool_exp(e: &Exp, b: bool) -> (r: bool)
    ensures
        r == bool_e(e@, b),
{
    match e {
        Expr::LitExpr(Literal::FlatLiteral(FlatLiteral::Bool(x))) => *x == b,
        _ => false,
    }
}

/// The index of the first value being returned in a list.
fn first_return_index(vs: &Vec<Exp>) -> (r: Option<usize>)
    ensures
        match r {
            Some(k) => k < vs@.len() && first_return(exprs_view(vs@)) == Some(vs@[k as int]@),
            None => first_return(exprs_view(vs@)) is None,
        },
{
    proof { lemma_exprs_view_map(vs@); }
    let ghost xs = exprs_view(vs@);
    let mut k: usize = 0;
    assert(xs.subrange(0, xs.len() as int) =~= xs);
    while k < vs.len()
        invariant
            k <= vs@.len(),
            xs == exprs_view(vs@),
            xs == Seq::new(vs@.len(), |j: int| vs@[j]@),
            first_return(xs) == first_return(xs.subrange(k as int, xs.len() as int)),
        decreases vs.len() - k,
    {
        let ghost ys = xs.subrange(k as int, xs.len() as int);
        assert(ys[0] == vs@[k as int]@);
        if matches!(vs[k], Expr::ReturnExpr(_)) {
            return Some(k);
        }
        assert(ys.subrange(1, ys.len() as int) =~= xs.subrange(k + 1, xs.len() as int));
        k = k + 1;
    }
    assert(xs.subrange(k as int, xs.len() as int) =~= Seq::<EV>::empty());
    None
}

/// The literals of a list of literal expressions.
fn lits_of_exps(vs: &Vec<Exp>) -> (r: Option<Vec<Literal>>)
    ensures
        match r {
            Some(ls) => lits_of(exprs_view(vs@)) == Some(lits_view(ls@)),
            None => lits_of(exprs_view(vs@)) is None,
        },
{
    proof { lemma_exprs_view_map(vs@); }
    let ghost xs = exprs_view(vs@);
    let mut out: Vec<Literal> = Vec::new();
    let mut k: usize = 0;
    while k < vs.len()
        invariant
            k <= vs@.len(),
            xs == exprs_view(vs@),
            xs == Seq::new(vs@.len(), |j: int| vs@[j]@),
            out@.len() == k,
            forall|j: int| 0 <= j < k ==> (#[trigger] xs[j]) is LitExpr && xs[j]->LitExpr_0 == out@[j]@,
        decreases vs.len() - k,
    {
        match &vs[k] {
            Expr::LitExpr(l) => {
                out.push(l.dup());
            },
            _ => {
                assert(!(xs[k as int] is LitExpr));
                return None;
            },
        }
        k = k + 1;
    }
    proof { lemma_lits_view_from(out@, Seq::new(xs.len(), |j: int| xs[j]->LitExpr_0)); }
    Some(out)
}

impl<L: Dup, P: Dup> Dup for Expr<L, P> {
    fn dup(&self) -> (r: Self) {
        Expr::<L, P>::dup(self)
    }
}

/// The names in a list, as a set.
pub open spec fn names_set(v: Seq<String>) -> Set<Seq<char>> {
    Set::new(|k: Seq<char>| exists|j: int| 0 <= j < v.len() && #[trigger] v[j]@ == k)
}

/// Names by their models.
pub open spec fn names_view(v: Seq<String>) -> Seq<Seq<char>> {
    v.map_values(|s: String| s@)
}

/// An optional expression by its model.
pub open spec fn opt_view(a: Option<Exp>) -> Option<EV> {
    match a {
        Some(x) => Some(x@),
        None => None,
    }
}

/// Applies an expression to a value, where it is a closure.
fn apply_value(e: Exp, u: &Exp) -> (r: Result<Exp, Stop>)
    requires
        wf(e@),
        is_value(u@),
    ensures
        match r {
            Ok(x) => apply_v(e@, u@) == Some(x@) && wf(x@),
            Err(z) => apply_v(e@, u@) is None && z@ == StopV::Fail(apply_error()),
        },
{
    proof {
        lemma_value(u@, 0, 0);
        lemma_apply_value(e@, u@);
        match e@ {
            ExprV::Closure(_, b) => { lemma_depth_ok_mono(*b, 0); },
            _ => {},
        }
    }
    match e.apply(u) {
        Ok(x) => Ok(x),
        Err(err) => Err(Stop::Fail(err)),
    }
}

/// Applies a closure to the literals bound to the names (see
/// `apply_names_v`).
fn apply_names(e: Exp, vs: &Vec<String>, ls: &Vec<Literal>) -> (r: Result<Exp, Stop>)
    requires
        wf(e@),
        vs@.len() <= ls@.len(),
    ensures
        match r {
            Ok(x) => apply_names_v(e@, names_view(vs@), lits_view(ls@), 0) == Some(x@) && wf(x@),
            Err(z) => apply_names_v(e@, names_view(vs@), lits_view(ls@), 0) is None
                && z@ == StopV::Fail(apply_error()),
        },
{
    proof { lemma_lits_view_len(ls@); }
    let ghost nv = names_view(vs@);
    let ghost lv = lits_view(ls@);
    let ghost e0 = e@;
    let mut cur = e;
    let mut k: usize = 0;
    while k < vs.len()
        invariant
            k <= vs@.len(),
            vs@.len() <= ls@.len(),
            lv.len() == ls@.len(),
            nv == names_view(vs@),
            lv == lits_view(ls@),
            wf(cur@),
            e0 == e@,
            apply_names_v(e0, nv, lv, 0) == apply_names_v(cur@, nv, lv, k as nat),
        decreases vs.len() - k,
    {
        proof {
            reveal_strlit("_");
            assert("_"@ =~= seq!['_']);
        }
        if str_eq(vs[k].as_str(), "_") {
            assert(nv[k as int] == seq!['_']);
        } else {
            assert(nv[k as int] != seq!['_']);
            proof { lemma_lits_view_index(ls@, k as int); }
            let u = lit_exp(ls[k].dup());
            let ghost c0 = cur@;
            assert(u@ == lit_e(lv[k as int]));
            assert(apply_names_v(c0, nv, lv, k as nat) == match apply_v(c0, u@) {
                Some(e2) => apply_names_v(e2, nv, lv, (k + 1) as nat),
                None => None,
            });
            match apply_value(cur, &u) {
                Ok(x) => {
                    cur = x;
                },
                Err(z) => {
                    assert(apply_v(c0, u@) is None);
                    return Err(z);
                },
            }
        }
        k = k + 1;
    }
    Ok(cur)
}

/// Applies a function to its arguments (see `apply_all_v`).
fn apply_all(e: Exp, args: &Vec<Exp>) -> (r: Result<Exp, Stop>)
    requires
        wf(e@),
        forall|k: int| 0 <= k < args@.len() ==> is_value(#[trigger] args@[k]@),
    ensures
        match r {
            Ok(x) => apply_all_v(e@, exprs_view(args@), 0) == Some(x@) && wf(x@),
            Err(z) => apply_all_v(e@, exprs_view(args@), 0) is None && z@ == StopV::Fail(apply_error()),
        },
{
    proof { lemma_exprs_view_map(args@); }
    let ghost av = exprs_view(args@);
    let ghost e0 = e@;
    let mut cur = e;
    let mut k: usize = 0;
    while k < args.len()
        invariant
            k <= args@.len(),
            av == exprs_view(args@),
            av == Seq::new(args@.len(), |j: int| args@[j]@),
            forall|j: int| 0 <= j < args@.len() ==> is_value(#[trigger] args@[j]@),
            wf(cur@),
            e0 == e@,
            apply_all_v(e0, av, 0) == apply_all_v(cur@, av, k as nat),
        decreases args.len() - k,
    {
        assert(av[k as int] == args@[k as int]@);
        match apply_value(cur, &args[k]) {
            Ok(x) => {
                cur = x;
            },
            Err(z) => {
                return Err(z);
            },
        }
        k = k + 1;
    }
    Ok(cur)
}

/// An optional literal by its model.
pub open spec fn opt_lit_view(r: Option<Literal>) -> Option<LitV> {
    match r {
        Some(x) => Some(x@),
        None => None,
    }
}

/// Failing on a call of an unknown function.
fn call_error(f: &str) -> (r: Result<Exp, Stop>)
    ensures
        res_view(r) == fail_v("eval, call: "@ + f@),
{
    let mut m = "eval, call: ".to_owned();
    push_str(&mut m, f);
    Err(Stop::Fail(Error(m)))
}

/// A call that waits for its reply (see `blocking_call`).
fn blocking(st: &mut Replies, c: Call) -> (r: Result<Exp, Stop>)
    requires
        old(st).next <= old(st).replies@.len(),
    ensures
        (res_view(r), final(st)@) == blocking_call(old(st)@, c@),
        final(st).next <= final(st).replies@.len(),
        r matches Ok(x) ==> is_value(x@),
{
    if st.next < st.replies.len() {
        let k = st.next;
        let r = match &st.replies[k] {
            Ok(l) => Ok(lit_exp(l.dup())),
            Err(m) => Err(Stop::Fail(Error(m.clone()))),
        };
        st.next = k + 1;
        r
    } else {
        Err(Stop::Wait(c))
    }
}

/// Whether the one-argument built-in function runs safely here (see
/// `call1_ok`).
fn call1_ok_exec(f: &str, l: &Literal) -> (b: bool)
    ensures
        b == call1_ok(f@, l@),
{
    match l {
        Literal::FlatLiteral(FlatLiteral::Int(i)) => {
            assert(l@ == LitV::Flat(FlatLitV::Int(*i)));
            !str_eq(f, "i64::abs") || *i != i64::MIN
        },
        Literal::FlatLiteral(FlatLiteral::Str(s)) => {
            assert(l@ == LitV::Flat(FlatLitV::Str(s@)));
            !str_eq(f, "str::to_base64") || base64_fits_exec(s.as_str().as_bytes().len())
        },
        Literal::FlatLiteral(FlatLiteral::Data(d)) => {
            assert(l@ == LitV::Flat(FlatLitV::Data(d@)));
            !str_eq(f, "data::to_base64") || base64_fits_exec(d.len())
        },
        _ => true,
    }
}

/// Whether base64 can encode this many bytes (see `base64_fits`).
fn base64_fits_exec(n: usize) -> (b: bool)
    ensures
        b == base64_fits(n as nat),
{
    let m: u128 = ((n as u128 + 2) / 3) * 4;
    m <= usize::MAX as u128
}

/// Whether the two-argument built-in function runs safely here (see
/// `call2_ok`).
fn call2_ok_exec(f: &str, a: &Literal, b: &Literal) -> (r: bool)
    ensures
        r == call2_ok(f@, a@, b@),
{
    match (a, b) {
        (Literal::FlatLiteral(FlatLiteral::Int(i)), Literal::FlatLiteral(FlatLiteral::Int(j))) =>
            !str_eq(f, "i64::pow") || pow_fits(*i, *j as u32),
        _ => true,
    }
}

/// Whether the infix operation runs safely here (see `infix_ok`).
fn infix_ok_exec(op: Infix, a: &Literal, b: &Literal) -> (r: bool)
    ensures
        r == infix_ok(op, a@, b@),
{
    match (a, b) {
        (Literal::FlatLiteral(FlatLiteral::Int(i)), Literal::FlatLiteral(FlatLiteral::Int(j))) => {
            let x: i128 = *i as i128;
            let y: i128 = *j as i128;
            match op {
                Infix::Plus => i64::MIN as i128 <= x + y && x + y <= i64::MAX as i128,
                Infix::Minus => i64::MIN as i128 <= x - y && x - y <= i64::MAX as i128,
                Infix::Multiply => {
                    assert(-0x8000_0000_0000_0000 * 0x8000_0000_0000_0000 <= x * y <= 0x8000_0000_0000_0000 * 0x8000_0000_0000_0000) by (nonlinear_arith)
                        requires -0x8000_0000_0000_0000 <= x <= 0x7fff_ffff_ffff_ffff, -0x8000_0000_0000_0000 <= y <= 0x7fff_ffff_ffff_ffff;
                    i64::MIN as i128 <= x * y && x * y <= i64::MAX as i128
                },
                Infix::Divide => !(*i == i64::MIN && *j == -1),
                Infix::Remainder => !(*i == i64::MIN && *j == -1),
                _ => true,
            }
        },
        _ => true,
    }
}

/// Whether a one-argument call is an address lookup (see `lookup_call`).
fn is_lookup(f: &str, l: &Literal) -> (b: bool)
    ensures
        b == lookup_call(f@, l@),
{
    match l {
        Literal::FlatLiteral(FlatLiteral::Str(_)) => str_eq(f, "IpAddr::lookup"),
        Literal::FlatLiteral(FlatLiteral::IpAddr(_)) => str_eq(f, "IpAddr::reverse_lookup"),
        _ => false,
    }
}

/// A built-in function's call on evaluated arguments (see `builtin_call`).
fn builtin(st: &mut Replies, f: &str, ls: Vec<Literal>) -> (r: Result<Exp, Stop>)
    requires
        old(st).next <= old(st).replies@.len(),
    ensures
        (res_view(r), final(st)@) == builtin_call(old(st)@, f@, lits_view(ls@)),
        final(st).next <= final(st).replies@.len(),
        r matches Ok(x) ==> is_value(x@),
{
    proof { lemma_lits_view_len(ls@); }
    if ls.len() == 0 {
        if str_eq(f, "System::getCurrentTime") {
            let c = Call { external: "System".to_owned(), method: "getCurrentTime".to_owned(), args: Vec::new() };
            assert(lits_view(c.args@) =~= Seq::<LitV>::empty());
            blocking(st, c)
        } else {
            match net_eval_call0(f) {
                Some(x) => Ok(lit_exp(x)),
                None => fail("eval, call(0): type error"),
            }
        }
    } else if ls.len() == 1 && is_lookup(f, &ls[0]) {
        proof { lemma_lits_view_index(ls@, 0); }
        let method = if str_eq(f, "IpAddr::lookup") { "lookup".to_owned() } else { "reverse_lookup".to_owned() };
        proof {
            reveal_strlit("IpAddr::lookup");
            reveal_strlit("IpAddr::reverse_lookup");
        }
        let c = Call { external: "IpAddr".to_owned(), method, args: ls };
        blocking(st, c)
    } else if ls.len() == 1 {
        proof { lemma_lits_view_index(ls@, 0); }
        if !call1_ok_exec(f, &ls[0]) {
            return fail("eval: arithmetic overflow");
        }
        match ls[0].eval_call1(f) {
            Some(x) => Ok(lit_exp(x)),
            None => fail("eval, call(1): type error"),
        }
    } else if ls.len() == 2 {
        proof {
            lemma_lits_view_index(ls@, 0);
            lemma_lits_view_index(ls@, 1);
        }
        if !call2_ok_exec(f, &ls[0], &ls[1]) {
            return fail("eval: arithmetic overflow");
        }
        let r = ls[0].eval_call2(f, &ls[1]);
        let ghost rv = opt_lit_view(r);
        proof {
            let a = lits_view(ls@)[0];
            let b = lits_view(ls@)[1];
            assert(eval_call2_spec(f@, a, b, rv));
            lemma_call2_determined(f@, a, b, rv, call2_v(f@, a, b));
        }
        match r {
            Some(x) => Ok(lit_exp(x)),
            None => fail("eval, call(2): type error"),
        }
    } else if ls.len() == 3 {
        proof {
            lemma_lits_view_index(ls@, 0);
            lemma_lits_view_index(ls@, 1);
            lemma_lits_view_index(ls@, 2);
        }
        let r = match (&ls[0], &ls[1], &ls[2]) {
            (Literal::FlatLiteral(a), Literal::FlatLiteral(b), Literal::FlatLiteral(c)) => net_eval_call3(a, f, b, c),
            _ => None,
        };
        match r {
            Some(x) => Ok(lit_exp(x)),
            None => fail("eval, call(3): type error"),
        }
    } else if ls.len() == 4 {
        proof {
            lemma_lits_view_index(ls@, 0);
            lemma_lits_view_index(ls@, 1);
            lemma_lits_view_index(ls@, 2);
            lemma_lits_view_index(ls@, 3);
        }
        let r = match (&ls[0], &ls[1], &ls[2], &ls[3]) {
            (Literal::FlatLiteral(a), Literal::FlatLiteral(b), Literal::FlatLiteral(c), Literal::FlatLiteral(d)) =>
                net_eval_call4(a, f, b, c, d),
            _ => None,
        };
        match r {
            Some(x) => Ok(lit_exp(x)),
            None => fail("eval, call(4): type error"),
        }
    } else {
        call_error(f)
    }
}

/// A call made on the outside (see `outside_call`).
fn outside(st: &mut Replies, f: &str, is_async: bool, args: &Vec<Exp>) -> (r: Result<Exp, Stop>)
    requires
        old(st).next <= old(st).replies@.len(),
    ensures
        (res_view(r), final(st)@) == outside_call(old(st)@, f@, is_async, exprs_view(args@)),
        final(st).next <= final(st).replies@.len(),
        r matches Ok(x) ==> is_value(x@),
{
    match Headers::<FlatTyp>::split(f) {
        Some((external, method)) => match lits_of_exps(args) {
            None => fail("arg is not a literal"),
            Some(ls) => {
                proof {
                    reveal_strlit("Ingress");
                    reveal_strlit("Egress");
                }
                let is_meta = str_eq(external.as_str(), "Ingress") || str_eq(external.as_str(), "Egress");
                let c = Call { external, method, args: ls };
                if is_meta {
                    blocking(st, c)
                } else if is_async {
                    let ghost cv = c@;
                    st.spawned.push(c);
                    assert(calls_view(st.spawned@) =~= calls_view(old(st).spawned@).push(cv));
                    Ok(lit_exp(Literal::unit()))
                } else {
                    blocking(st, c)
                }
            },
        },
        None => call_error(f),
    }
}

/// The result of a prefix operation on an evaluated operand (see
/// `prefix_result`).
fn prefix_exec(p: Prefix, v: Exp) -> (r: Result<Exp, Stop>)
    requires
        is_value(v@),
    ensures
        res_view(r) == prefix_result(p, v@),
        r matches Ok(x) ==> is_value(x@),
{
    match v {
        Expr::ReturnExpr(x) => Ok(Expr::ReturnExpr(x)),
        Expr::LitExpr(l) => {
            if !prefix_ok_exec(p, &l) {
                return fail("eval: arithmetic overflow");
            }
            match l.eval_prefix(p) {
                Some(x) => Ok(lit_exp(x)),
                None => fail("eval prefix: type error"),
            }
        },
        _ => fail("eval, prefix"),
    }
}

/// Whether the prefix operation runs safely here (see `prefix_ok`).
fn prefix_ok_exec(p: Prefix, l: &Literal) -> (b: bool)
    ensures
        b == prefix_ok(p, l@),
{
    match (p, l) {
        (Prefix::Minus, Literal::FlatLiteral(FlatLiteral::Int(i))) => *i != i64::MIN,
        _ => true,
    }
}

/// The result of an infix operation on two evaluated operands (see
/// `infix_result`).
fn infix_exec(op: Infix, v1: Exp, v2: Exp) -> (r: Result<Exp, Stop>)
    requires
        is_value(v1@),
        is_value(v2@),
    ensures
        res_view(r) == infix_result(op, v1@, v2@),
        r matches Ok(x) ==> is_value(x@),
{
    if matches!(v1, Expr::ReturnExpr(_)) {
        return Ok(v1);
    }
    if matches!(v2, Expr::ReturnExpr(_)) {
        return Ok(v2);
    }
    match (v1, v2) {
        (Expr::LitExpr(l1), Expr::LitExpr(l2)) => {
            if !infix_ok_exec(op, &l1, &l2) {
                return fail("eval: arithmetic overflow");
            }
            match l1.eval_infix(op, &l2) {
                Some(x) => Ok(lit_exp(x)),
                None => fail("eval, infix: type error"),
            }
        },
        _ => fail("eval, infix: failed"),
    }
}

/// A list or a tuple of evaluated elements (see `collect_result`).
fn collect_exec(b: Block, vs: Vec<Exp>) -> (r: Result<Exp, Stop>)
    requires
        forall|k: int| 0 <= k < vs@.len() ==> is_value(#[trigger] vs@[k]@),
    ensures
        res_view(r) == collect_result(b, exprs_view(vs@)),
        r matches Ok(x) ==> is_value(x@),
{
    match first_return_index(&vs) {
        Some(k) => Ok(vs[k].dup()),
        None => match lits_of_exps(&vs) {
            Some(ls) => Ok(lit_exp(if b == Block::List { Literal::List(ls) } else { Literal::Tuple(ls) })),
            None => fail("arg is not a literal"),
        },
    }
}

/// The expression that a `let` evaluates (see `let_target`).
fn let_exec(vs: &Vec<String>, body: Exp, v: Exp) -> (r: Result<Exp, Stop>)
    requires
        wf(body@),
        is_value(v@),
        v@ is LitExpr,
    ensures
        res_view(r) == let_target(names_view(vs@), body@, v@),
        r matches Ok(x) ==> wf(x@),
{
    let n: usize = match &v {
        Expr::LitExpr(Literal::Tuple(ts)) => {
            proof { lemma_lits_view_len(ts@); }
            ts.len()
        },
        _ => 0,
    };
    let is_tuple = matches!(v, Expr::LitExpr(Literal::Tuple(_)));
    if is_tuple && 1 < n && vs.len() == n {
        match v {
            Expr::LitExpr(Literal::Tuple(ts)) => apply_names(body, vs, &ts),
            _ => fail("eval, let-expression"),
        }
    } else if vs.len() == 1 {
        apply_value(body, &v)
    } else if is_tuple {
        fail("eval, let-expression (tuple length mismatch)")
    } else {
        fail("eval, let-expression (literal not a tuple)")
    }
}

/// The body applied to the accumulator, if there is one.
fn apply_acc(body: Exp, acc: &Option<Exp>) -> (r: Result<Exp, Stop>)
    requires
        wf(body@),
        acc matches Some(a) ==> is_value(a@),
    ensures
        match r {
            Ok(x) => (match acc { Some(a) => apply_v(body@, a@), None => Some(body@) }) == Some(x@) && wf(x@),
            Err(z) => (match acc { Some(a) => apply_v(body@, a@), None => Some(body@) }) is None
                && z@ == StopV::Fail(apply_error()),
        },
{
    match acc {
        Some(a) => apply_value(body, a),
        None => Ok(body),
    }
}

/// The expression that one step of an iteration evaluates (see
/// `iter_target`).
fn iter_target_exec(vs: &Vec<String>, body: Exp, acc: &Option<Exp>, l: &Literal) -> (r: Result<Exp, Stop>)
    requires
        wf(body@),
        acc matches Some(a) ==> is_value(a@),
    ensures
        res_view(r) == iter_target(names_view(vs@), body@, opt_view(*acc), l@),
        r matches Ok(x) ==> wf(x@),
{
    let n: usize = match l {
        Literal::Tuple(ts) => {
            proof { lemma_lits_view_len(ts@); }
            ts.len()
        },
        _ => 0,
    };
    let is_tuple = matches!(l, Literal::Tuple(_));
    if is_tuple && vs.len() != 1 {
        if vs.len() == n {
            match apply_acc(body, acc) {
                Ok(e1) => match l {
                    Literal::Tuple(ts) => apply_names(e1, vs, ts),
                    _ => fail("eval, iter-expression"),
                },
                Err(z) => Err(z),
            }
        } else {
            fail("eval, iter-expression (tuple length mismatch)")
        }
    } else if vs.len() == 1 {
        match apply_acc(body, acc) {
            Ok(e1) => {
                let mut one: Vec<Literal> = Vec::new();
                one.push(l.dup());
                proof { lemma_lits_view_from(one@, seq![l@]); }
                apply_names(e1, vs, &one)
            },
            Err(z) => Err(z),
        }
    } else {
        fail("eval, iter-expression (not a tuple list)")
    }
}

/// `all_bool` on a list.
fn all_bool_exec(ls: &Vec<Literal>) -> (r: Result<bool, String>)
    ensures
        match r {
            Ok(b) => all_bool(lits_view(ls@)) == Ok::<bool, Seq<char>>(b),
            Err(m) => all_bool(lits_view(ls@)) == Err::<bool, Seq<char>>(m@),
        },
{
    proof { lemma_lits_view_len(ls@); }
    let ghost lv = lits_view(ls@);
    let mut k: usize = 0;
    assert(lv.subrange(0, lv.len() as int) =~= lv);
    while k < ls.len()
        invariant
            k <= ls@.len(),
            lv == lits_view(ls@),
            lv.len() == ls@.len(),
            all_bool(lv) == all_bool(lv.subrange(k as int, lv.len() as int)),
        decreases ls.len() - k,
    {
        let ghost rest = lv.subrange(k as int, lv.len() as int);
        proof { lemma_lits_view_index(ls@, k as int); }
        assert(rest[0] == ls@[k as int]@);
        assert(rest.subrange(1, rest.len() as int) =~= lv.subrange(k + 1, lv.len() as int));
        match &ls[k] {
            Literal::FlatLiteral(FlatLiteral::Bool(b)) => {
                if !*b {
                    return Ok(false);
                }
            },
            _ => {
                return Err("eval: not a Boolean".to_owned());
            },
        }
        k = k + 1;
    }
    assert(lv.subrange(k as int, lv.len() as int) =~= Seq::<LitV>::empty());
    Ok(true)
}

/// `any_bool` on a list.
fn any_bool_exec(ls: &Vec<Literal>) -> (r: Result<bool, String>)
    ensures
        match r {
            Ok(b) => any_bool(lits_view(ls@)) == Ok::<bool, Seq<char>>(b),
            Err(m) => any_bool(lits_view(ls@)) == Err::<bool, Seq<char>>(m@),
        },
{
    proof { lemma_lits_view_len(ls@); }
    let ghost lv = lits_view(ls@);
    let mut k: usize = 0;
    assert(lv.subrange(0, lv.len() as int) =~= lv);
    while k < ls.len()
        invariant
            k <= ls@.len(),
            lv == lits_view(ls@),
            lv.len() == ls@.len(),
            any_bool(lv) == any_bool(lv.subrange(k as int, lv.len() as int)),
        decreases ls.len() - k,
    {
        let ghost rest = lv.subrange(k as int, lv.len() as int);
        proof { lemma_lits_view_index(ls@, k as int); }
        assert(rest[0] == ls@[k as int]@);
        assert(rest.subrange(1, rest.len() as int) =~= lv.subrange(k + 1, lv.len() as int));
        match &ls[k] {
            Literal::FlatLiteral(FlatLiteral::Bool(b)) => {
                if *b {
                    return Ok(true);
                }
            },
            _ => {
                return Err("eval: not a Boolean".to_owned());
            },
        }
        k = k + 1;
    }
    assert(lv.subrange(k as int, lv.len() as int) =~= Seq::<LitV>::empty());
    Ok(false)
}

/// `filter_by` on lists.
fn filter_by_exec(ls: &Vec<Literal>, bs: &Vec<Literal>) -> (r: Result<Vec<Literal>, String>)
    ensures
        match r {
            Ok(v) => filter_by(lits_view(ls@), lits_view(bs@)) == Ok::<Seq<LitV>, Seq<char>>(lits_view(v@)),
            Err(m) => filter_by(lits_view(ls@), lits_view(bs@)) == Err::<Seq<LitV>, Seq<char>>(m@),
        },
{
    proof {
        lemma_lits_view_len(ls@);
        lemma_lits_view_len(bs@);
    }
    let ghost lv = lits_view(ls@);
    let ghost bv = lits_view(bs@);
    let mut out: Vec<Literal> = Vec::new();
    let ghost mut ov: Seq<LitV> = Seq::empty();
    let mut k: usize = 0;
    assert(lv.subrange(0, lv.len() as int) =~= lv);
    assert(bv.subrange(0, bv.len() as int) =~= bv);
    while k < ls.len() && k < bs.len()
        invariant
            k <= ls@.len(),
            k <= bs@.len(),
            lv == lits_view(ls@),
            bv == lits_view(bs@),
            lv.len() == ls@.len(),
            bv.len() == bs@.len(),
            out@.len() == ov.len(),
            forall|j: int| 0 <= j < ov.len() ==> (#[trigger] out@[j])@ == ov[j],
            filter_by(lv, bv) == (match filter_by(lv.subrange(k as int, lv.len() as int), bv.subrange(k as int, bv.len() as int)) {
                Ok(rest) => Ok(ov + rest),
                Err(m) => Err::<Seq<LitV>, Seq<char>>(m),
            }),
        decreases ls.len() - k,
    {
        let ghost l_rest = lv.subrange(k as int, lv.len() as int);
        let ghost b_rest = bv.subrange(k as int, bv.len() as int);
        proof {
            lemma_lits_view_index(ls@, k as int);
            lemma_lits_view_index(bs@, k as int);
        }
        assert(l_rest[0] == ls@[k as int]@);
        assert(b_rest[0] == bs@[k as int]@);
        assert(l_rest.subrange(1, l_rest.len() as int) =~= lv.subrange(k + 1, lv.len() as int));
        assert(b_rest.subrange(1, b_rest.len() as int) =~= bv.subrange(k + 1, bv.len() as int));
        match &bs[k] {
            Literal::FlatLiteral(FlatLiteral::Bool(b)) => {
                if *b {
                    out.push(ls[k].dup());
                    proof {
                        let old_ov = ov;
                        ov = ov.push(ls@[k as int]@);
                        assert forall|rest: Seq<LitV>| #![auto] old_ov + (seq![l_rest[0]] + rest) == ov + rest by {
                            assert(old_ov + (seq![l_rest[0]] + rest) =~= ov + rest);
                        }
                    }
                }
            },
            _ => {
                return Err("eval: not a Boolean".to_owned());
            },
        }
        k = k + 1;
    }
    assert(lv.subrange(k as int, lv.len() as int).len() == 0 || bv.subrange(k as int, bv.len() as int).len() == 0);
    assert(ov + Seq::<LitV>::empty() =~= ov);
    proof { lemma_lits_view_from(out@, ov); }
    Ok(out)
}

/// `somes` on a list.
fn somes_exec(ls: &Vec<Literal>) -> (r: Vec<Literal>)
    ensures
        lits_view(r@) == somes(lits_view(ls@)),
{
    proof { lemma_lits_view_len(ls@); }
    let ghost lv = lits_view(ls@);
    let mut out: Vec<Literal> = Vec::new();
    let ghost mut ov: Seq<LitV> = Seq::empty();
    let mut k: usize = 0;
    assert(lv.subrange(0, lv.len() as int) =~= lv);
    while k < ls.len()
        invariant
            k <= ls@.len(),
            lv == lits_view(ls@),
            lv.len() == ls@.len(),
            out@.len() == ov.len(),
            forall|j: int| 0 <= j < ov.len() ==> (#[trigger] out@[j])@ == ov[j],
            somes(lv) == ov + somes(lv.subrange(k as int, lv.len() as int)),
        decreases ls.len() - k,
    {
        let ghost l_rest = lv.subrange(k as int, lv.len() as int);
        proof { lemma_lits_view_index(ls@, k as int); }
        assert(l_rest[0] == ls@[k as int]@);
        assert(l_rest.subrange(1, l_rest.len() as int) =~= lv.subrange(k + 1, lv.len() as int));
        match ls[k].dest_some() {
            Some(x) => {
                let ghost xv = x@;
                out.push(x);
                proof {
                    let old_ov = ov;
                    ov = ov.push(xv);
                    assert(old_ov + (seq![xv] + somes(lv.subrange(k + 1, lv.len() as int))) =~= ov + somes(lv.subrange(k + 1, lv.len() as int)));
                }
            },
            None => {},
        }
        k = k + 1;
    }
    assert(lv.subrange(k as int, lv.len() as int) =~= Seq::<LitV>::empty());
    assert(ov + Seq::<LitV>::empty() =~= ov);
    proof { lemma_lits_view_from(out@, ov); }
    out
}

/// The value of an iteration (see `finish_iter`).
fn finish_exec(op: Iter, lits: &Vec<Literal>, res: Vec<Exp>, acc: Option<Exp>) -> (r: Result<Exp, Stop>)
    requires
        forall|k: int| 0 <= k < res@.len() ==> is_value(#[trigger] res@[k]@),
        acc matches Some(a) ==> is_value(a@),
    ensures
        res_view(r) == finish_iter(op, lits_view(lits@), exprs_view(res@), opt_view(acc)),
        r matches Ok(x) ==> is_value(x@),
{
    match first_return_index(&res) {
        Some(k) => Ok(res[k].dup()),
        None => {
            if op == Iter::Fold {
                match acc {
                    Some(Expr::LitExpr(l)) => Ok(lit_exp(l)),
                    Some(_) => fail("arg is not a literal"),
                    None => fail("eval, fold: no accumulator"),
                }
            } else {
                match lits_of_exps(&res) {
                    None => fail("arg is not a literal"),
                    Some(ls) => match op {
                        Iter::MapEach => Ok(lit_exp(Literal::List(ls))),
                        Iter::ForEach => Ok(lit_exp(Literal::unit())),
                        Iter::Filter => match filter_by_exec(lits, &ls) {
                            Ok(f) => Ok(lit_exp(Literal::List(f))),
                            Err(m) => Err(Stop::Fail(Error(m))),
                        },
                        Iter::FilterMap => Ok(lit_exp(Literal::List(somes_exec(&ls)))),
                        Iter::All => match all_bool_exec(&ls) {
                            Ok(b) => Ok(lit_exp(Literal::bool(b))),
                            Err(m) => Err(Stop::Fail(Error(m))),
                        },
                        Iter::Any => match any_bool_exec(&ls) {
                            Ok(b) => Ok(lit_exp(Literal::bool(b))),
                            Err(m) => Err(Stop::Fail(Error(m))),
                        },
                        Iter::Fold => fail("eval, fold: no accumulator"),
                    },
                }
            }
        },
    }
}

/// Every binding is a value.
pub open spec fn caps_values(m: Map<Seq<char>, EV>) -> bool {
    forall|k: Seq<char>| #[trigger] m.contains_key(k) ==> is_value(m[k])
}

/// The bindings of a label match (see `label_caps`).
fn label_caps_exec(m: &Match) -> (r: StrMap<Exp>)
    ensures
        r.map() == label_caps(m@),
        caps_values(r.map()),
{
    m.properties();
    let ghost es = m.entries();
    let ps = m.pairs();
    let mut acc: StrMap<Exp> = StrMap::new();
    let mut i: usize = 0;
    while i < ps.len()
        invariant
            i <= ps@.len(),
            es == m.entries(),
            ps@.len() == es.len(),
            sorted_keys(es),
            m@ == map_of(es),
            forall|j: int| 0 <= j < ps@.len() ==> (#[trigger] ps@[j]).0@ == es[j].0 && ps@[j].1@ == label_text(es[j].1),
            forall|k: Seq<char>| acc.map().contains_key(k) <==> exists|j: int| 0 <= j < i && #[trigger] es[j].0 == k,
            forall|j: int| 0 <= j < i ==> acc.map()[#[trigger] es[j].0] == lit_e(LitV::Flat(FlatLitV::Str(label_text(es[j].1)))),
            caps_values(acc.map()),
        decreases ps.len() - i,
    {
        let (name, text) = (ps[i].0.clone(), ps[i].1.clone());
        let ghost old_map = acc.map();
        let v = lit_exp(Literal::str(text));
        acc.insert(name, v);
        proof {
            assert forall|j: int| 0 <= j < i + 1 implies acc.map()[#[trigger] es[j].0] == lit_e(LitV::Flat(FlatLitV::Str(label_text(es[j].1)))) by {
                if j < i {
                    if es[j].0 == es[i as int].0 {
                        lemma_unique(es, j, i as int);
                    }
                }
            }
            assert forall|k: Seq<char>| acc.map().contains_key(k) <==> exists|j: int| 0 <= j < i + 1 && #[trigger] es[j].0 == k by {
                if acc.map().contains_key(k) && k != es[i as int].0 {
                    assert(old_map.contains_key(k));
                }
                if exists|j: int| 0 <= j < i + 1 && #[trigger] es[j].0 == k {
                    let j = choose|j: int| 0 <= j < i + 1 && #[trigger] es[j].0 == k;
                    if j < i {
                        assert(old_map.contains_key(k));
                    }
                }
            }
        }
        i = i + 1;
    }
    proof {
        assert forall|k: Seq<char>| #[trigger] acc.map().contains_key(k) <==> label_caps(m@).contains_key(k) by {
            if acc.map().contains_key(k) {
                let j = choose|j: int| 0 <= j < es.len() && #[trigger] es[j].0 == k;
                lemma_lookup(es, j);
            }
            if label_caps(m@).contains_key(k) {
                let j = choose|j: int| 0 <= j < es.len() && #[trigger] es[j].0 == k;
                assert(es[j].0 == k);
            }
        }
        assert forall|k: Seq<char>| #[trigger] acc.map().contains_key(k) implies acc.map()[k] == label_caps(m@)[k] by {
            let j = choose|j: int| 0 <= j < es.len() && #[trigger] es[j].0 == k;
            lemma_lookup(es, j);
        }
        assert(acc.map() =~= label_caps(m@));
    }
    acc
}

/// The outcome of reading the named groups of a match.
enum Caps {
    Missing,
    NoMatch,
    Caps(StrMap<Exp>),
}

/// Model of the outcome.
spec fn caps_view(c: Caps) -> CapsV {
    match c {
        Caps::Missing => CapsV::Missing,
        Caps::NoMatch => CapsV::NoMatch,
        Caps::Caps(m) => CapsV::Caps(m.map()),
    }
}

/// The value a named group gives (see `cap_value`).
fn cap_value_exec(a: As, text: &str) -> (r: Option<Exp>)
    ensures
        opt_view(r) == cap_value(a, text@),
        r matches Some(x) ==> is_value(x@),
{
    match a {
        As::I64 => match parse_i64(text) {
            Some(i) => Some(lit_exp(Literal::integer(i))),
            None => None,
        },
        As::Base64 => {
            if text.as_bytes().len() > usize::MAX - 3 {
                return None;
            }
            match base64_decode(text) {
                Some(d) => Some(lit_exp(Literal::data(d))),
                None => None,
            }
        },
        As::Str => Some(lit_exp(Literal::str(text.to_owned()))),
    }
}

/// Reading the named groups into bindings (see `group_caps`).
fn group_caps_exec(names: &Vec<Option<String>>, groups: &Vec<Option<String>>) -> (r: Caps)
    requires
        groups@.len() == names@.len(),
    ensures
        caps_view(r) == group_caps(opt_texts(names@), opt_texts(groups@), 0, Map::empty()),
        r matches Caps::Caps(m) ==> caps_values(m.map()),
{
    let ghost nv = opt_texts(names@);
    let ghost gv = opt_texts(groups@);
    let mut acc: StrMap<Exp> = StrMap::new();
    assert(acc.map() =~= Map::<Seq<char>, EV>::empty());
    let mut k: usize = 0;
    while k < names.len()
        invariant
            k <= names@.len(),
            groups@.len() == names@.len(),
            nv == opt_texts(names@),
            gv == opt_texts(groups@),
            group_caps(nv, gv, 0, Map::empty()) == group_caps(nv, gv, k as nat, acc.map()),
            caps_values(acc.map()),
        decreases names.len() - k,
    {
        match &names[k] {
            None => {},
            Some(name) => match &groups[k] {
                None => {
                    return Caps::Missing;
                },
                Some(text) => {
                    let (n, a) = Pat::strip_as(name.as_str());
                    match cap_value_exec(a, text.as_str()) {
                        Some(v) => {
                            acc.insert(n, v);
                        },
                        None => {
                            return Caps::NoMatch;
                        },
                    }
                },
            },
        }
        k = k + 1;
    }
    Caps::Caps(acc)
}

/// Matching a text against a compiled regular expression (see
/// `regex_caps`).
fn regex_caps_exec(re: &PolicyRegex, s: &str) -> (r: Caps)
    ensures
        caps_view(r) == regex_caps(re.1.source(), s@),
        r matches Caps::Caps(m) ==> caps_values(m.map()),
{
    let names = group_names(&re.1);
    let ghost nv = opt_texts(names@);
    let mut named = false;
    let mut k: usize = 0;
    while k < names.len()
        invariant
            k <= names@.len(),
            nv == opt_texts(names@),
            named == exists|j: int| 0 <= j < k && (#[trigger] nv[j]) is Some,
        decreases names.len() - k,
    {
        if names[k].is_some() {
            assert(nv[k as int] is Some);
            named = true;
        }
        k = k + 1;
    }
    if !named {
        if regex_find(&re.1, s) {
            let m: StrMap<Exp> = StrMap::new();
            assert(m.map() =~= Map::<Seq<char>, EV>::empty());
            Caps::Caps(m)
        } else {
            Caps::NoMatch
        }
    } else {
        match group_captures(&re.1, s) {
            None => Caps::NoMatch,
            Some(groups) => group_caps_exec(&names, &groups),
        }
    }
}

/// The outcome of matching a value against a pattern.
enum Matched {
    TypeError,
    Missing,
    Done(Exp, Option<StrMap<Exp>>),
}

/// Optional bindings by their model.
pub open spec fn opt_caps_view(c: Option<StrMap<Exp>>) -> Option<Map<Seq<char>, EV>> {
    match c {
        Some(m) => Some(m.map()),
        None => None,
    }
}

/// Model of the outcome.
spec fn matched_view(m: Matched) -> PerformV {
    match m {
        Matched::TypeError => PerformV::TypeError,
        Matched::Missing => PerformV::Missing,
        Matched::Done(v, c) => PerformV::Done(v@, opt_caps_view(c)),
    }
}

/// Matching an evaluated expression against a pattern (see
/// `perform_match`).
fn perform_exec(v: Exp, p: &Pattern) -> (r: Matched)
    requires
        is_value(v@),
    ensures
        matched_view(r) == perform_match(v@, p@),
        r matches Matched::Done(x, c) ==> is_value(x@) && (c matches Some(m) ==> caps_values(m.map())),
{
    let caps: Option<Option<StrMap<Exp>>> = match (&v, p) {
        (Expr::ReturnExpr(_), _) => Some(None),
        (Expr::LitExpr(Literal::FlatLiteral(FlatLiteral::Label(l))), Pattern::Label(q)) => match q.match_with(l) {
            Some(m) => Some(Some(label_caps_exec(&m))),
            None => Some(None),
        },
        (Expr::LitExpr(Literal::FlatLiteral(FlatLiteral::Str(s))), Pattern::Regex(re)) => match regex_caps_exec(re, s.as_str()) {
            Caps::Missing => {
                return Matched::Missing;
            },
            Caps::NoMatch => Some(None),
            Caps::Caps(m) => Some(Some(m)),
        },
        _ => None,
    };
    match caps {
        Some(c) => Matched::Done(v, c),
        None => Matched::TypeError,
    }
}

/// Evaluated match arms by their models.
pub open spec fn arms_view(rs: Seq<(Exp, Option<StrMap<Exp>>)>) -> Seq<(EV, Option<Map<Seq<char>, EV>>)> {
    Seq::new(rs.len(), |k: int| (rs[k].0@, opt_caps_view(rs[k].1)))
}

/// The index of the first arm whose value is being returned.
fn first_return_arm(rs: &Vec<(Exp, Option<StrMap<Exp>>)>) -> (r: Option<usize>)
    ensures
        match r {
            Some(k) => k < rs@.len() && first_return(match_values(arms_view(rs@))) == Some(rs@[k as int].0@),
            None => first_return(match_values(arms_view(rs@))) is None,
        },
{
    let ghost xs = match_values(arms_view(rs@));
    let mut k: usize = 0;
    assert(xs.subrange(0, xs.len() as int) =~= xs);
    while k < rs.len()
        invariant
            k <= rs@.len(),
            xs == match_values(arms_view(rs@)),
            xs.len() == rs@.len(),
            first_return(xs) == first_return(xs.subrange(k as int, xs.len() as int)),
        decreases rs.len() - k,
    {
        let ghost ys = xs.subrange(k as int, xs.len() as int);
        assert(ys[0] == rs@[k as int].0@);
        if matches!(rs[k].0, Expr::ReturnExpr(_)) {
            return Some(k);
        }
        assert(ys.subrange(1, ys.len() as int) =~= xs.subrange(k + 1, xs.len() as int));
        k = k + 1;
    }
    assert(xs.subrange(k as int, xs.len() as int) =~= Seq::<EV>::empty());
    None
}

/// Whether some match failed.
fn some_unmatched_exec(rs: &Vec<(Exp, Option<StrMap<Exp>>)>) -> (b: bool)
    ensures
        b == some_unmatched(arms_view(rs@)),
{
    let ghost av = arms_view(rs@);
    let mut k: usize = 0;
    while k < rs.len()
        invariant
            k <= rs@.len(),
            av == arms_view(rs@),
            forall|j: int| 0 <= j < k ==> (#[trigger] av[j]).1 is Some,
        decreases rs.len() - k,
    {
        if rs[k].1.is_none() {
            assert(av[k as int].1 is None);
            return true;
        }
        k = k + 1;
    }
    false
}

/// The bindings of an evaluated arm, if any, are values.
pub open spec fn arm_caps_ok(a: (Exp, Option<StrMap<Exp>>)) -> bool {
    match a.1 {
        Some(m) => caps_values(m.map()),
        None => true,
    }
}

/// The bindings of all the matches together (see `caps_union`).
fn caps_union_exec(rs: &Vec<(Exp, Option<StrMap<Exp>>)>) -> (r: StrMap<Exp>)
    requires
        forall|k: int| 0 <= k < rs@.len() ==> arm_caps_ok(#[trigger] rs@[k]),
    ensures
        r.map() == caps_union(arms_view(rs@)),
        caps_values(r.map()),
{
    let ghost av = arms_view(rs@);
    let mut acc: StrMap<Exp> = StrMap::new();
    let mut k: usize = 0;
    assert(av.take(0) =~= Seq::<(EV, Option<Map<Seq<char>, EV>>)>::empty());
    assert(acc.map() =~= caps_union(av.take(0)));
    while k < rs.len()
        invariant
            k <= rs@.len(),
            av == arms_view(rs@),
            acc.map() == caps_union(av.take(k as int)),
            caps_values(acc.map()),
            forall|j: int| 0 <= j < rs@.len() ==> arm_caps_ok(#[trigger] rs@[j]),
        decreases rs.len() - k,
    {
        assert(av.take(k + 1).drop_last() =~= av.take(k as int));
        assert(av.take(k + 1).last() == av[k as int]);
        match &rs[k].1 {
            Some(m) => {
                acc.extend_from(m);
            },
            None => {
                assert(acc.map().union_prefer_right(Map::<Seq<char>, EV>::empty()) =~= acc.map());
            },
        }
        k = k + 1;
    }
    assert(av.take(rs@.len() as int) =~= av);
    acc
}

/// Applies the consequence to the bindings of the variables (see
/// `apply_vars_v`).
fn apply_vars(c: Exp, vars: &Vec<String>, caps: &StrMap<Exp>) -> (r: Result<Exp, Stop>)
    requires
        wf(c@),
        caps_values(caps.map()),
    ensures
        res_view(r) == apply_vars_v(c@, names_view(vars@), caps.map(), 0),
        r matches Ok(x) ==> wf(x@),
{
    let ghost nv = names_view(vars@);
    let ghost c0 = c@;
    let mut cur = c;
    let mut k: usize = 0;
    while k < vars.len()
        invariant
            k <= vars@.len(),
            nv == names_view(vars@),
            c0 == c@,
            wf(cur@),
            caps_values(caps.map()),
            apply_vars_v(c0, nv, caps.map(), 0) == apply_vars_v(cur@, nv, caps.map(), k as nat),
        decreases vars.len() - k,
    {
        match caps.get(vars[k].as_str()) {
            Some(u) => {
                match apply_value(cur, u) {
                    Ok(x) => {
                        cur = x;
                    },
                    Err(z) => {
                        return Err(z);
                    },
                }
            },
            None => {
                return fail("eval, if-match-expression: missing bind");
            },
        }
        k = k + 1;
    }
    Ok(cur)
}

/// A value that a branch of `if ... matches` may give (see
/// `branch_result`).
fn branch_exec(r: Result<Exp, Stop>) -> (o: Result<Exp, Stop>)
    ensures
        res_view(o) == branch_result(res_view(r)),
        (r matches Ok(x) ==> is_value(x@)) ==> (o matches Ok(y) ==> is_value(y@)),
{
    match r {
        Ok(v) => if matches!(v, Expr::ReturnExpr(_)) || matches!(v, Expr::LitExpr(_)) {
            Ok(v)
        } else {
            fail("eval, if-match-expression")
        },
        Err(z) => Err(z),
    }
}

/// Each expression of a list fit for evaluation is fit for evaluation.
pub proof fn lemma_wf_seq(s: Seq<EV>)
    requires
        depth_ok_seq(s, 0),
        bvars_ok_seq(s),
    ensures
        forall|k: int| 0 <= k < s.len() ==> wf(#[trigger] s[k]),
    decreases s.len(),
{
    if s.len() > 0 {
        let t = s.subrange(1, s.len() as int);
        lemma_wf_seq(t);
        assert forall|k: int| 0 <= k < s.len() implies wf(#[trigger] s[k]) by {
            if k > 0 {
                assert(s[k] == t[k - 1]);
            }
        }
    }
}

/// Each arm of a list of match arms fit for evaluation is fit for
/// evaluation.
pub proof fn lemma_wf_matches(s: Seq<(EV, PatternV)>)
    requires
        depth_ok_matches(s, 0),
        bvars_ok_matches(s),
    ensures
        forall|k: int| 0 <= k < s.len() ==> wf(#[trigger] s[k].0),
    decreases s.len(),
{
    if s.len() > 0 {
        let t = s.subrange(1, s.len() as int);
        lemma_wf_matches(t);
        assert forall|k: int| 0 <= k < s.len() implies wf(#[trigger] s[k].0) by {
            if k > 0 {
                assert(s[k] == t[k - 1]);
            }
        }
    }
}

/// Lists of results by their models.
pub open spec fn vec_res_view(r: Result<Vec<Exp>, Stop>) -> Result<Seq<EV>, StopV> {
    match r {
        Ok(v) => Ok(exprs_view(v@)),
        Err(z) => Err(z@),
    }
}

/// Evaluated match arms by their models.
pub open spec fn arms_res_view(r: Result<Vec<(Exp, Option<StrMap<Exp>>)>, Stop>)
    -> Result<Seq<(EV, Option<Map<Seq<char>, EV>>)>, StopV> {
    match r {
        Ok(v) => Ok(arms_view(v@)),
        Err(z) => Err(z@),
    }
}

/// The outcome of an iteration's steps by its model.
pub open spec fn iter_res_view(r: Result<(Vec<Exp>, Option<Exp>), Stop>) -> Result<(Seq<EV>, Option<EV>), StopV> {
    match r {
        Ok(p) => Ok((exprs_view(p.0@), opt_view(p.1))),
        Err(z) => Err(z@),
    }
}

/// Results so far before the results of the rest.
pub open spec fn prepend<T>(o: Seq<T>, p: (Result<Seq<T>, StopV>, RepliesV)) -> (Result<Seq<T>, StopV>, RepliesV) {
    (match p.0 {
        Ok(x) => Ok(o + x),
        Err(z) => Err(z),
    }, p.1)
}

/// The values of a list are values.
pub open spec fn all_values(v: Seq<Exp>) -> bool {
    forall|k: int| 0 <= k < v.len() ==> is_value(#[trigger] v[k]@)
}

/// The replies in use are among those given.
pub open spec fn replies_ok(st: RepliesV) -> bool {
    st.next <= st.replies.len()
}

/// Evaluates a list of expressions in order (see `eval_seq_v`).
fn eval_vec(fuel: u64, code: &Code, st: &mut Replies, src: Vec<Exp>) -> (r: Result<Vec<Exp>, Stop>)
    requires
        forall|k: int| 0 <= k < src@.len() ==> wf(#[trigger] src@[k]@),
        code_wf(code@),
        replies_ok(old(st)@),
    ensures
        (vec_res_view(r), final(st)@) == eval_seq_v(fuel as nat, code@, old(st)@, exprs_view(src@)),
        replies_ok(final(st)@),
        r matches Ok(v) ==> all_values(v@),
    decreases fuel, src, 0nat,
{
    proof { lemma_exprs_view_map(src@); }
    let ghost orig = src;
    let ghost xs = exprs_view(src@);
    let ghost s0 = st@;
    let mut es = src;
    let mut out: Vec<Exp> = Vec::new();
    let ghost mut k: int = 0;
    assert(xs.subrange(0, xs.len() as int) =~= xs);
    assert(exprs_view(out@) =~= Seq::<EV>::empty());
    assert(prepend(Seq::<EV>::empty(), eval_seq_v(fuel as nat, code@, s0, xs)) == eval_seq_v(fuel as nat, code@, s0, xs)) by {
        match eval_seq_v(fuel as nat, code@, s0, xs).0 {
            Ok(x) => { assert(Seq::<EV>::empty() + x =~= x); },
            Err(_) => {},
        }
    }
    while es.len() > 0
        invariant
            orig == src,
            0 <= k <= orig@.len(),
            es@ == orig@.subrange(k, orig@.len() as int),
            xs == exprs_view(orig@),
            xs == Seq::new(orig@.len(), |j: int| orig@[j]@),
            forall|j: int| 0 <= j < orig@.len() ==> wf(#[trigger] orig@[j]@),
            code_wf(code@),
            replies_ok(st@),
            s0 == old(st)@,
            all_values(out@),
            eval_seq_v(fuel as nat, code@, s0, xs)
                == prepend(exprs_view(out@), eval_seq_v(fuel as nat, code@, st@, xs.subrange(k, xs.len() as int))),
        decreases es.len(),
    {
        let ghost ys = xs.subrange(k, xs.len() as int);
        let ghost sk = st@;
        let e = es.remove(0);
        proof {
            assert(e == orig@[k]);
            vstd::std_specs::vec::axiom_vec_index_decreases(orig, k);
            assert(es@ =~= orig@.subrange(k + 1, orig@.len() as int));
            assert(ys[0] == e@);
            assert(ys.subrange(1, ys.len() as int) =~= xs.subrange(k + 1, xs.len() as int));
            k = k + 1;
        }
        let r = eval_exp(fuel, code, st, e);
        match r {
            Err(z) => {
                return Err(z);
            },
            Ok(v) => {
                let ghost vv = v@;
                let ghost ov = exprs_view(out@);
                proof { lemma_exprs_view_push(out@, v); }
                out.push(v);
                proof {
                    let rest = eval_seq_v(fuel as nat, code@, st@, xs.subrange(k, xs.len() as int));
                    match rest.0 {
                        Ok(x) => { assert(ov + (seq![vv] + x) =~= exprs_view(out@) + x); },
                        Err(_) => {},
                    }
                }
            },
        }
    }
    proof {
        assert(xs.subrange(k, xs.len() as int) =~= Seq::<EV>::empty());
        assert(exprs_view(out@) + Seq::<EV>::empty() =~= exprs_view(out@));
    }
    Ok(out)
}

/// Evaluates the statements of a block (see `eval_block_v`).
fn eval_block(fuel: u64, code: &Code, st: &mut Replies, src: Vec<Exp>) -> (r: Result<Exp, Stop>)
    requires
        src@.len() > 0,
        forall|k: int| 0 <= k < src@.len() ==> wf(#[trigger] src@[k]@),
        code_wf(code@),
        replies_ok(old(st)@),
    ensures
        (res_view(r), final(st)@) == eval_block_v(fuel as nat, code@, old(st)@, exprs_view(src@)),
        replies_ok(final(st)@),
        r matches Ok(x) ==> is_value(x@),
    decreases fuel, src, 0nat,
{
    proof { lemma_exprs_view_map(src@); }
    let ghost orig = src;
    let ghost xs = exprs_view(src@);
    let ghost s0 = st@;
    let mut es = src;
    let ghost mut k: int = 0;
    assert(xs.subrange(0, xs.len() as int) =~= xs);
    loop
        invariant
            orig == src,
            0 <= k < orig@.len(),
            es@ == orig@.subrange(k, orig@.len() as int),
            xs == exprs_view(orig@),
            xs == Seq::new(orig@.len(), |j: int| orig@[j]@),
            forall|j: int| 0 <= j < orig@.len() ==> wf(#[trigger] orig@[j]@),
            code_wf(code@),
            replies_ok(st@),
            s0 == old(st)@,
            eval_block_v(fuel as nat, code@, s0, xs) == eval_block_v(fuel as nat, code@, st@, xs.subrange(k, xs.len() as int)),
        decreases orig@.len() - k,
    {
        let ghost ys = xs.subrange(k, xs.len() as int);
        let e = es.remove(0);
        proof {
            assert(e == orig@[k]);
            vstd::std_specs::vec::axiom_vec_index_decreases(orig, k);
            assert(es@ =~= orig@.subrange(k + 1, orig@.len() as int));
            assert(ys[0] == e@);
            assert(ys.subrange(1, ys.len() as int) =~= xs.subrange(k + 1, xs.len() as int));
            k = k + 1;
        }
        let r = eval_exp(fuel, code, st, e);
        match r {
            Err(z) => {
                return Err(z);
            },
            Ok(v) => {
                if matches!(v, Expr::ReturnExpr(_)) || es.len() == 0 {
                    return Ok(v);
                }
            },
        }
    }
}

/// Evaluates the expressions of the match arms and matches them (see
/// `eval_matches_v`).
fn eval_matches(fuel: u64, code: &Code, st: &mut Replies, src: Vec<(Exp, Pattern)>)
    -> (r: Result<Vec<(Exp, Option<StrMap<Exp>>)>, Stop>)
    requires
        forall|k: int| 0 <= k < src@.len() ==> wf(#[trigger] src@[k].0@),
        code_wf(code@),
        replies_ok(old(st)@),
    ensures
        (arms_res_view(r), final(st)@) == eval_matches_v(fuel as nat, code@, old(st)@, matches_view(src@)),
        replies_ok(final(st)@),
        r matches Ok(v) ==> forall|k: int| 0 <= k < v@.len() ==> is_value((#[trigger] v@[k]).0@) && arm_caps_ok(v@[k]),
    decreases fuel, src, 0nat,
{
    proof { lemma_matches_view_map(src@); }
    let ghost orig = src;
    let ghost xs = matches_view(src@);
    let ghost s0 = st@;
    let mut es = src;
    let mut out: Vec<(Exp, Option<StrMap<Exp>>)> = Vec::new();
    let ghost mut k: int = 0;
    assert(xs.subrange(0, xs.len() as int) =~= xs);
    assert(arms_view(out@) =~= Seq::<(EV, Option<Map<Seq<char>, EV>>)>::empty());
    assert(prepend(Seq::<(EV, Option<Map<Seq<char>, EV>>)>::empty(), eval_matches_v(fuel as nat, code@, s0, xs))
        == eval_matches_v(fuel as nat, code@, s0, xs)) by {
        match eval_matches_v(fuel as nat, code@, s0, xs).0 {
            Ok(x) => { assert(Seq::<(EV, Option<Map<Seq<char>, EV>>)>::empty() + x =~= x); },
            Err(_) => {},
        }
    }
    while es.len() > 0
        invariant
            orig == src,
            0 <= k <= orig@.len(),
            es@ == orig@.subrange(k, orig@.len() as int),
            xs == matches_view(orig@),
            xs == Seq::new(orig@.len(), |j: int| (orig@[j].0@, orig@[j].1@)),
            forall|j: int| 0 <= j < orig@.len() ==> wf(#[trigger] orig@[j].0@),
            code_wf(code@),
            replies_ok(st@),
            s0 == old(st)@,
            forall|j: int| 0 <= j < out@.len() ==> is_value((#[trigger] out@[j]).0@) && arm_caps_ok(out@[j]),
            eval_matches_v(fuel as nat, code@, s0, xs)
                == prepend(arms_view(out@), eval_matches_v(fuel as nat, code@, st@, xs.subrange(k, xs.len() as int))),
        decreases es.len(),
    {
        let ghost ys = xs.subrange(k, xs.len() as int);
        let (e, p) = es.remove(0);
        proof {
            assert(e == orig@[k].0);
            vstd::std_specs::vec::axiom_vec_index_decreases(orig, k);
            assert(es@ =~= orig@.subrange(k + 1, orig@.len() as int));
            assert(ys[0] == (e@, p@));
            assert(ys.subrange(1, ys.len() as int) =~= xs.subrange(k + 1, xs.len() as int));
            k = k + 1;
        }
        let r = eval_exp(fuel, code, st, e);
        match r {
            Err(z) => {
                return Err(z);
            },
            Ok(v) => {
                match perform_exec(v, &p) {
                    Matched::TypeError => {
                        return Err(Stop::Fail(Error::new("eval, if-match-expression: type error")));
                    },
                    Matched::Missing => {
                        return Err(Stop::Fail(Error::new("eval, if-match-expression: unmatched group")));
                    },
                    Matched::Done(v2, c) => {
                        let ghost item = (v2@, opt_caps_view(c));
                        let ghost ov = arms_view(out@);
                        out.push((v2, c));
                        proof {
                            assert(arms_view(out@) =~= ov.push(item));
                            let rest = eval_matches_v(fuel as nat, code@, st@, xs.subrange(k, xs.len() as int));
                            match rest.0 {
                                Ok(x) => { assert(ov + (seq![item] + x) =~= arms_view(out@) + x); },
                                Err(_) => {},
                            }
                        }
                    },
                }
            },
        }
    }
    proof {
        assert(xs.subrange(k, xs.len() as int) =~= Seq::<(EV, PatternV)>::empty());
        assert(arms_view(out@) + Seq::<(EV, Option<Map<Seq<char>, EV>>)>::empty() =~= arms_view(out@));
    }
    Ok(out)
}

/// The steps of an iteration (see `eval_iter_v`).
fn eval_iter(fuel: u64, code: &Code, st: &mut Replies, vs: &Vec<String>, body: &Exp, lits: &Vec<Literal>,
    acc0: Option<Exp>) -> (r: Result<(Vec<Exp>, Option<Exp>), Stop>)
    requires
        wf(body@),
        acc0 matches Some(a) ==> is_value(a@),
        code_wf(code@),
        replies_ok(old(st)@),
    ensures
        (iter_res_view(r), final(st)@) == eval_iter_v(fuel as nat, code@, old(st)@, names_view(vs@), body@,
            lits_view(lits@), 0, opt_view(acc0), Seq::empty()),
        replies_ok(final(st)@),
        r matches Ok(p) ==> all_values(p.0@) && (p.1 matches Some(a) ==> is_value(a@)),
    decreases fuel, body, 0nat,
{
    proof { lemma_lits_view_len(lits@); }
    let ghost nv = names_view(vs@);
    let ghost lv = lits_view(lits@);
    let ghost s0 = st@;
    let mut res: Vec<Exp> = Vec::new();
    let mut acc = acc0;
    let mut k: usize = 0;
    assert(exprs_view(res@) =~= Seq::<EV>::empty());
    while k < lits.len()
        invariant
            k <= lits@.len(),
            nv == names_view(vs@),
            lv == lits_view(lits@),
            lv.len() == lits@.len(),
            wf(body@),
            acc matches Some(a) ==> is_value(a@),
            (acc is Some) == (acc0 is Some),
            all_values(res@),
            code_wf(code@),
            replies_ok(st@),
            s0 == old(st)@,
            eval_iter_v(fuel as nat, code@, s0, nv, body@, lv, 0, opt_view(acc0), Seq::empty())
                == eval_iter_v(fuel as nat, code@, st@, nv, body@, lv, k as nat, opt_view(acc), exprs_view(res@)),
        decreases lits.len() - k,
    {
        proof { lemma_lits_view_index(lits@, k as int); }
        let t = iter_target_exec(vs, body.dup(), &acc, &lits[k]);
        match t {
            Err(z) => {
                return Err(z);
            },
            Ok(t) => {
                if fuel == 0 {
                    return Err(Stop::Fail(Error::new("eval: out of fuel")));
                }
                let r = eval_exp(fuel - 1, code, st, t);
                match r {
                    Err(z) => {
                        return Err(z);
                    },
                    Ok(v) => {
                        let ghost rv = exprs_view(res@);
                        proof { lemma_exprs_view_push(res@, v); }
                        acc = if acc.is_some() { Some(v.dup()) } else { None };
                        res.push(v);
                        assert(exprs_view(res@) =~= rv.push(v@));
                    },
                }
            },
        }
        k = k + 1;
    }
    Ok((res, acc))
}

/// Evaluates an expression with the program's functions and the replies so
/// far (see `eval_v`).
fn eval_exp(fuel: u64, code: &Code, st: &mut Replies, e: Exp) -> (r: Result<Exp, Stop>)
    requires
        wf(e@),
        code_wf(code@),
        replies_ok(old(st)@),
    ensures
        (res_view(r), final(st)@) == eval_v(fuel as nat, code@, old(st)@, e@),
        replies_ok(final(st)@),
        r matches Ok(x) ==> is_value(x@),
    decreases fuel, e, 0nat,
{
    let ghost ev = e@;
    match e {
        Expr::Var(_) => fail("eval variable"),
        Expr::BVar(_, _) => fail("eval variable"),
        Expr::LitExpr(l) => Ok(Expr::LitExpr(l)),
        Expr::Closure(_, _) => fail("eval, closure"),
        Expr::ReturnExpr(x) => {
            match eval_exp(fuel, code, st, *x) {
                Ok(v) => Ok(Expr::ReturnExpr(Box::new(v))),
                Err(z) => Err(z),
            }
        },
        Expr::PrefixExpr(p, x) => {
            match eval_exp(fuel, code, st, *x) {
                Ok(v) => prefix_exec(p, v),
                Err(z) => Err(z),
            }
        },
        Expr::InfixExpr(op, x, y) => {
            match eval_exp(fuel, code, st, *x) {
                Err(z) => Err(z),
                Ok(v1) => if op == Infix::And || op == Infix::Or {
                    let stop_at = op == Infix::Or;
                    if matches!(v1, Expr::ReturnExpr(_)) || is_bool_exp(&v1, stop_at) {
                        Ok(v1)
                    } else if is_bool_exp(&v1, !stop_at) {
                        match eval_exp(fuel, code, st, *y) {
                            Err(z) => Err(z),
                            Ok(v2) => if matches!(v2, Expr::ReturnExpr(_)) || is_bool_exp(&v2, true) || is_bool_exp(&v2, false) {
                                Ok(v2)
                            } else {
                                fail("eval, infix")
                            },
                        }
                    } else {
                        fail("eval, infix")
                    }
                } else {
                    match eval_exp(fuel, code, st, *y) {
                        Err(z) => Err(z),
                        Ok(v2) => infix_exec(op, v1, v2),
                    }
                },
            }
        },
        Expr::BlockExpr(b, es) => {
            proof {
                lemma_exprs_view_map(es@);
                lemma_wf_seq(exprs_view(es@));
                assert forall|k: int| 0 <= k < es@.len() implies wf(#[trigger] es@[k]@) by {
                    assert(exprs_view(es@)[k] == es@[k]@);
                }
            }
            if es.len() == 0 {
                if b == Block::List {
                    let l = Literal::List(Vec::new());
                    assert(lits_view(Seq::<Literal>::empty()) =~= Seq::<LitV>::empty());
                    Ok(lit_exp(l))
                } else {
                    Ok(lit_exp(Literal::unit()))
                }
            } else if b == Block::Block {
                eval_block(fuel, code, st, es)
            } else {
                match eval_vec(fuel, code, st, es) {
                    Err(z) => Err(z),
                    Ok(vs) => collect_exec(b, vs),
                }
            }
        },
        Expr::Let(vs, x, body) => {
            match eval_exp(fuel, code, st, *x) {
                Err(z) => Err(z),
                Ok(v) => if matches!(v, Expr::ReturnExpr(_)) {
                    Ok(v)
                } else if matches!(v, Expr::LitExpr(_)) {
                    match let_exec(&vs, *body, v) {
                        Err(z) => Err(z),
                        Ok(t) => if fuel > 0 {
                            eval_exp(fuel - 1, code, st, t)
                        } else {
                            fail("eval: out of fuel")
                        },
                    }
                } else {
                    fail("eval, let-expression")
                },
            }
        },
        Expr::Iter(op, vs, x, body, acc) => {
            match eval_exp(fuel, code, st, *x) {
                Err(z) => Err(z),
                Ok(v) => match v {
                    Expr::ReturnExpr(w) => Ok(Expr::ReturnExpr(w)),
                    Expr::LitExpr(Literal::List(lits)) => {
                        let acc0: Option<Exp> = match acc {
                            Some(a) => match eval_exp(fuel, code, st, *a) {
                                Ok(av) => Some(av),
                                Err(z) => {
                                    return Err(z);
                                },
                            },
                            None => None,
                        };
                        match eval_iter(fuel, code, st, &vs, &*body, &lits, acc0) {
                            Err(z) => Err(z),
                            Ok((res, accf)) => finish_exec(op, &lits, res, accf),
                        }
                    },
                    _ => fail("eval, map-expression"),
                },
            }
        },
        Expr::IfExpr { cond, consequence, alternative } => {
            match eval_exp(fuel, code, st, *cond) {
                Err(z) => Err(z),
                Ok(v) => if matches!(v, Expr::ReturnExpr(_)) {
                    Ok(v)
                } else if is_bool_exp(&v, true) {
                    eval_exp(fuel, code, st, *consequence)
                } else if is_bool_exp(&v, false) {
                    match alternative {
                        Some(a) => eval_exp(fuel, code, st, *a),
                        None => Ok(lit_exp(Literal::unit())),
                    }
                } else {
                    fail("eval, if-expression")
                },
            }
        },
        Expr::IfSomeMatchExpr { expr, consequence, alternative } => {
            match eval_exp(fuel, code, st, *expr) {
                Err(z) => Err(z),
                Ok(v) => match v {
                    Expr::ReturnExpr(w) => Ok(Expr::ReturnExpr(w)),
                    Expr::LitExpr(Literal::Tuple(t)) => {
                        proof { lemma_lits_view_len(t@); }
                        if t.len() == 1 {
                            proof { lemma_lits_view_index(t@, 0); }
                            let u = lit_exp(t[0].dup());
                            match apply_value(*consequence, &u) {
                                Ok(c) => if fuel > 0 {
                                    eval_exp(fuel - 1, code, st, c)
                                } else {
                                    fail("eval: out of fuel")
                                },
                                Err(z) => Err(z),
                            }
                        } else {
                            match alternative {
                                Some(a) => eval_exp(fuel, code, st, *a),
                                None => Ok(lit_exp(Literal::unit())),
                            }
                        }
                    },
                    _ => fail("eval, if-let-expression"),
                },
            }
        },
        Expr::IfMatchExpr { variables, matches, consequence, alternative } => {
            proof {
                lemma_matches_view_map(matches@);
                lemma_wf_matches(matches_view(matches@));
                assert forall|k: int| 0 <= k < matches@.len() implies wf(#[trigger] matches@[k].0@) by {
                    assert(matches_view(matches@)[k].0 == matches@[k].0@);
                }
            }
            match eval_matches(fuel, code, st, matches) {
                Err(z) => Err(z),
                Ok(rs) => match first_return_arm(&rs) {
                    Some(k) => Ok(rs[k].0.dup()),
                    None => if some_unmatched_exec(&rs) {
                        match alternative {
                            None => Ok(lit_exp(Literal::unit())),
                            Some(a) => branch_exec(eval_exp(fuel, code, st, *a)),
                        }
                    } else {
                        let caps = caps_union_exec(&rs);
                        match apply_vars(*consequence, &variables, &caps) {
                            Err(z) => Err(z),
                            Ok(c) => if fuel > 0 {
                                branch_exec(eval_exp(fuel - 1, code, st, c))
                            } else {
                                fail("eval: out of fuel")
                            },
                        }
                    },
                },
            }
        },
        Expr::CallExpr { function, arguments, is_async } => {
            proof {
                lemma_exprs_view_map(arguments@);
                lemma_wf_seq(exprs_view(arguments@));
                assert forall|k: int| 0 <= k < arguments@.len() implies wf(#[trigger] arguments@[k]@) by {
                    assert(exprs_view(arguments@)[k] == arguments@[k]@);
                }
            }
            match eval_vec(fuel, code, st, arguments) {
                Err(z) => Err(z),
                Ok(args) => match first_return_index(&args) {
                    Some(k) => Ok(args[k].dup()),
                    None => match code.0.get(function.as_str()) {
                        Some(f) => {
                            match apply_all(f.dup(), &args) {
                                Err(z) => Err(z),
                                Ok(b) => if fuel > 0 {
                                    match eval_exp(fuel - 1, code, st, b) {
                                        Ok(v) => Ok(strip_return_exec(v)),
                                        Err(z) => Err(z),
                                    }
                                } else {
                                    fail("eval: out of fuel")
                                },
                            }
                        },
                        None => if Headers::<FlatTyp>::is_builtin(function.as_str()) {
                            match lits_of_exps(&args) {
                                Some(ls) => builtin(st, function.as_str(), ls),
                                None => call_error(function.as_str()),
                            }
                        } else {
                            outside(st, function.as_str(), is_async, &args)
                        },
                    },
                },
            }
        },
    }
}

/// The value of a value being returned (see `strip_return_v`).
fn strip_return_exec(v: Exp) -> (r: Exp)
    requires
        is_value(v@),
    ensures
        r@ == strip_return_v(v@),
        is_value(r@),
{
    match v {
        Expr::ReturnExpr(x) => *x,
        _ => v,
    }
}

/// The fuel that evaluation starts with: nesting deeper than this cannot
/// fit in memory.
pub const EVAL_FUEL: u64 = 0xffff_ffff_ffff_ffff;

/// What evaluating an expression gives, from the replies so far: the value
/// (a value being returned counts as the value itself), or why it
/// stopped; and the replies afterwards.
pub open spec fn evaluate_v(code: Map<Seq<char>, EV>, st: RepliesV, e: EV) -> (Result<EV, StopV>, RepliesV) {
    let (r, s) = eval_v(EVAL_FUEL as nat, code, st, e);
    (match r {
        Ok(v) => Ok(strip_return_v(v)),
        Err(z) => Err(z),
    }, s)
}

impl Replies {
    /// The replies so far, none used, no call made without waiting.
    pub fn new(replies: Vec<Result<Literal, String>>) -> (r: Replies)
        ensures
            r@ == (RepliesV { replies: replies_view(replies@), next: 0, spawned: Seq::empty() }),
    {
        let r = Replies { replies, next: 0, spawned: Vec::new() };
        assert(calls_view(r.spawned@) =~= Seq::<CallV>::empty());
        r
    }
}

impl Expr<Literal, Pattern> {
    /// Whether the expression can be evaluated: its closures nest within
    /// bounds and its bound variables' indices fit (see `wf`).
    pub fn fits_evaluation(&self) -> (b: bool)
        ensures
            b == wf(self@),
    {
        self.fits_depth(0) && self.fits_bvars()
    }

    /// Evaluates the expression with the program's functions and the
    /// replies so far (see `evaluate_v`). Where it stops on a call that
    /// waits for a reply, the caller makes the call and evaluates again
    /// with the reply added.
    pub fn evaluate(self, code: &Code, st: &mut Replies) -> (r: Result<Exp, Stop>)
        requires
            wf(self@),
            replies_ok(old(st)@),
        ensures
            (res_view(r), final(st)@) == evaluate_v(code@, old(st)@, self@),
            replies_ok(final(st)@),
    {
        proof { use_type_invariant(code); }
        match eval_exp(EVAL_FUEL, code, st, self) {
            Ok(v) => Ok(strip_return_exec(v)),
            Err(z) => Err(z),
        }
    }
}

/// The replies with more added after them.
pub open spec fn with_more(st: RepliesV, extra: Seq<Result<LitV, Seq<char>>>) -> RepliesV {
    RepliesV { replies: st.replies + extra, ..st }
}

/// Evaluation stopped to wait for a reply.
pub open spec fn waits<T>(r: Result<T, StopV>) -> bool {
    r is Err && r->Err_0 is Wait
}

/// A call that waits for its reply leaves the replies given as they are
/// and, when it does not wait, does the same whatever replies come after.
pub proof fn lemma_blocking_more(st: RepliesV, c: CallV, extra: Seq<Result<LitV, Seq<char>>>)
    requires
        replies_ok(st),
    ensures
        blocking_call(st, c).1.replies == st.replies,
        replies_ok(blocking_call(st, c).1),
        !waits(blocking_call(st, c).0) ==> blocking_call(with_more(st, extra), c)
            == (blocking_call(st, c).0, with_more(blocking_call(st, c).1, extra)),
{
    if st.next < st.replies.len() {
        assert((st.replies + extra)[st.next as int] == st.replies[st.next as int]);
    }
}

/// `lemma_blocking_more` for built-in functions.
pub proof fn lemma_builtin_more(st: RepliesV, f: Seq<char>, ls: Seq<LitV>, extra: Seq<Result<LitV, Seq<char>>>)
    requires
        replies_ok(st),
    ensures
        builtin_call(st, f, ls).1.replies == st.replies,
        replies_ok(builtin_call(st, f, ls).1),
        !waits(builtin_call(st, f, ls).0) ==> builtin_call(with_more(st, extra), f, ls)
            == (builtin_call(st, f, ls).0, with_more(builtin_call(st, f, ls).1, extra)),
{
    lemma_blocking_more(st, CallV { external: "System"@, method: "getCurrentTime"@, args: Seq::empty() }, extra);
}

/// `lemma_blocking_more` for calls on the outside.
pub proof fn lemma_outside_more(st: RepliesV, f: Seq<char>, is_async: bool, args: Seq<EV>,
    extra: Seq<Result<LitV, Seq<char>>>)
    requires
        replies_ok(st),
    ensures
        outside_call(st, f, is_async, args).1.replies == st.replies,
        replies_ok(outside_call(st, f, is_async, args).1),
        !waits(outside_call(st, f, is_async, args).0) ==> outside_call(with_more(st, extra), f, is_async, args)
            == (outside_call(st, f, is_async, args).0, with_more(outside_call(st, f, is_async, args).1, extra)),
{
    match split_spec(f) {
        Some((external, method)) => match lits_of(args) {
            Some(ls) => {
                lemma_blocking_more(st, CallV { external, method, args: ls }, extra);
            },
            None => {},
        },
        None => {},
    }
}

/// The law that makes evaluating again with one more reply sound:
/// evaluation uses the replies in order and never changes them, and where
/// it does not stop to wait, replies added after them change nothing,
/// neither the result nor how many replies it used.
pub proof fn lemma_more_replies(fuel: nat, code: Map<Seq<char>, EV>, st: RepliesV, e: EV,
    extra: Seq<Result<LitV, Seq<char>>>)
    requires
        replies_ok(st),
    ensures
        eval_v(fuel, code, st, e).1.replies == st.replies,
        replies_ok(eval_v(fuel, code, st, e).1),
        !waits(eval_v(fuel, code, st, e).0) ==> eval_v(fuel, code, with_more(st, extra), e)
            == (eval_v(fuel, code, st, e).0, with_more(eval_v(fuel, code, st, e).1, extra)),
    decreases fuel, e, 0nat,
{
    let m = with_more(st, extra);
    match e {
        ExprV::ReturnExpr(x) => { lemma_more_replies(fuel, code, st, *x, extra); },
        ExprV::PrefixExpr(_, x) => { lemma_more_replies(fuel, code, st, *x, extra); },
        ExprV::InfixExpr(op, x, y) => {
            lemma_more_replies(fuel, code, st, *x, extra);
            let (r1, s1) = eval_v(fuel, code, st, *x);
            if r1 is Ok {
                lemma_more_replies(fuel, code, s1, *y, extra);
            }
        },
        ExprV::BlockExpr(b, es) => {
            if es.len() > 0 {
                if b == Block::Block {
                    lemma_block_more(fuel, code, st, es, extra);
                } else {
                    lemma_seq_more(fuel, code, st, es, extra);
                }
            }
        },
        ExprV::Let(vs, x, body) => {
            lemma_more_replies(fuel, code, st, *x, extra);
            let (r, s1) = eval_v(fuel, code, st, *x);
            if r is Ok && fuel > 0 {
                match let_target(vs, *body, r->Ok_0) {
                    Ok(t) => { lemma_more_replies((fuel - 1) as nat, code, s1, t, extra); },
                    Err(_) => {},
                }
            }
        },
        ExprV::Iter(op, vs, x, body, acc) => {
            lemma_more_replies(fuel, code, st, *x, extra);
            let (r, s1) = eval_v(fuel, code, st, *x);
            if r is Ok {
                let v = r->Ok_0;
                if v is LitExpr && v->LitExpr_0 is List {
                    let lits = v->LitExpr_0->List_0;
                    let (ra, s2) = match acc {
                        Some(a) => {
                            lemma_more_replies(fuel, code, s1, *a, extra);
                            let (ra, s2) = eval_v(fuel, code, s1, *a);
                            (match ra {
                                Ok(av) => Ok(Some(av)),
                                Err(z) => Err(z),
                            }, s2)
                        },
                        None => (Ok(None), s1),
                    };
                    if ra is Ok {
                        lemma_iter_more(fuel, code, s2, vs, *body, lits, 0, ra->Ok_0, Seq::empty(), extra);
                    }
                }
            }
        },
        ExprV::IfExpr { cond, consequence, alternative } => {
            lemma_more_replies(fuel, code, st, *cond, extra);
            let (r, s1) = eval_v(fuel, code, st, *cond);
            if r is Ok {
                lemma_more_replies(fuel, code, s1, *consequence, extra);
                match alternative {
                    Some(a) => { lemma_more_replies(fuel, code, s1, *a, extra); },
                    None => {},
                }
            }
        },
        ExprV::IfSomeMatchExpr { expr, consequence, alternative } => {
            lemma_more_replies(fuel, code, st, *expr, extra);
            let (r, s1) = eval_v(fuel, code, st, *expr);
            if r is Ok {
                let v = r->Ok_0;
                if v is LitExpr && v->LitExpr_0 is Tuple && v->LitExpr_0->Tuple_0.len() == 1 && fuel > 0 {
                    match apply_v(*consequence, lit_e(v->LitExpr_0->Tuple_0[0])) {
                        Some(c) => { lemma_more_replies((fuel - 1) as nat, code, s1, c, extra); },
                        None => {},
                    }
                }
                match alternative {
                    Some(a) => { lemma_more_replies(fuel, code, s1, *a, extra); },
                    None => {},
                }
            }
        },
        ExprV::IfMatchExpr { variables, matches, consequence, alternative } => {
            lemma_matches_more(fuel, code, st, matches, extra);
            let (r, s1) = eval_matches_v(fuel, code, st, matches);
            if r is Ok {
                let rs = r->Ok_0;
                match alternative {
                    Some(a) => { lemma_more_replies(fuel, code, s1, *a, extra); },
                    None => {},
                }
                if fuel > 0 {
                    match apply_vars_v(*consequence, variables, caps_union(rs), 0) {
                        Ok(c) => { lemma_more_replies((fuel - 1) as nat, code, s1, c, extra); },
                        Err(_) => {},
                    }
                }
            }
        },
        ExprV::CallExpr { function, arguments, is_async } => {
            lemma_seq_more(fuel, code, st, arguments, extra);
            let (r, s1) = eval_seq_v(fuel, code, st, arguments);
            if r is Ok {
                let args = r->Ok_0;
                if code.contains_key(function) {
                    if fuel > 0 {
                        match apply_all_v(code[function], args, 0) {
                            Some(b) => { lemma_more_replies((fuel - 1) as nat, code, s1, b, extra); },
                            None => {},
                        }
                    }
                } else if is_builtin_spec::<FlatTyp>(function) {
                    match lits_of(args) {
                        Some(ls) => { lemma_builtin_more(s1, function, ls, extra); },
                        None => {},
                    }
                } else {
                    lemma_outside_more(s1, function, is_async, args, extra);
                }
            }
        },
        _ => {},
    }
}

/// `lemma_more_replies` for lists of expressions.
pub proof fn lemma_seq_more(fuel: nat, code: Map<Seq<char>, EV>, st: RepliesV, es: Seq<EV>,
    extra: Seq<Result<LitV, Seq<char>>>)
    requires
        replies_ok(st),
    ensures
        eval_seq_v(fuel, code, st, es).1.replies == st.replies,
        replies_ok(eval_seq_v(fuel, code, st, es).1),
        !waits(eval_seq_v(fuel, code, st, es).0) ==> eval_seq_v(fuel, code, with_more(st, extra), es)
            == (eval_seq_v(fuel, code, st, es).0, with_more(eval_seq_v(fuel, code, st, es).1, extra)),
    decreases fuel, es, 0nat,
{
    if es.len() > 0 {
        lemma_more_replies(fuel, code, st, es[0], extra);
        let (r, s1) = eval_v(fuel, code, st, es[0]);
        if r is Ok {
            lemma_seq_more(fuel, code, s1, es.subrange(1, es.len() as int), extra);
        }
    }
}

/// `lemma_more_replies` for blocks.
pub proof fn lemma_block_more(fuel: nat, code: Map<Seq<char>, EV>, st: RepliesV, es: Seq<EV>,
    extra: Seq<Result<LitV, Seq<char>>>)
    requires
        replies_ok(st),
    ensures
        eval_block_v(fuel, code, st, es).1.replies == st.replies,
        replies_ok(eval_block_v(fuel, code, st, es).1),
        !waits(eval_block_v(fuel, code, st, es).0) ==> eval_block_v(fuel, code, with_more(st, extra), es)
            == (eval_block_v(fuel, code, st, es).0, with_more(eval_block_v(fuel, code, st, es).1, extra)),
    decreases fuel, es, 0nat,
{
    if es.len() > 0 {
        lemma_more_replies(fuel, code, st, es[0], extra);
        let (r, s1) = eval_v(fuel, code, st, es[0]);
        if r is Ok {
            lemma_block_more(fuel, code, s1, es.subrange(1, es.len() as int), extra);
        }
    }
}

/// `lemma_more_replies` for match arms.
pub proof fn lemma_matches_more(fuel: nat, code: Map<Seq<char>, EV>, st: RepliesV, ms: Seq<(EV, PatternV)>,
    extra: Seq<Result<LitV, Seq<char>>>)
    requires
        replies_ok(st),
    ensures
        eval_matches_v(fuel, code, st, ms).1.replies == st.replies,
        replies_ok(eval_matches_v(fuel, code, st, ms).1),
        !waits(eval_matches_v(fuel, code, st, ms).0) ==> eval_matches_v(fuel, code, with_more(st, extra), ms)
            == (eval_matches_v(fuel, code, st, ms).0, with_more(eval_matches_v(fuel, code, st, ms).1, extra)),
    decreases fuel, ms, 0nat,
{
    if ms.len() > 0 {
        lemma_more_replies(fuel, code, st, ms[0].0, extra);
        let (r, s1) = eval_v(fuel, code, st, ms[0].0);
        if r is Ok {
            lemma_matches_more(fuel, code, s1, ms.subrange(1, ms.len() as int), extra);
        }
    }
}

/// `lemma_more_replies` for the steps of an iteration.
pub proof fn lemma_iter_more(fuel: nat, code: Map<Seq<char>, EV>, st: RepliesV, vs: Seq<Seq<char>>, body: EV,
    lits: Seq<LitV>, k: nat, acc: Option<EV>, res: Seq<EV>, extra: Seq<Result<LitV, Seq<char>>>)
    requires
        replies_ok(st),
    ensures
        eval_iter_v(fuel, code, st, vs, body, lits, k, acc, res).1.replies == st.replies,
        replies_ok(eval_iter_v(fuel, code, st, vs, body, lits, k, acc, res).1),
        !waits(eval_iter_v(fuel, code, st, vs, body, lits, k, acc, res).0)
            ==> eval_iter_v(fuel, code, with_more(st, extra), vs, body, lits, k, acc, res)
            == (eval_iter_v(fuel, code, st, vs, body, lits, k, acc, res).0,
                with_more(eval_iter_v(fuel, code, st, vs, body, lits, k, acc, res).1, extra)),
    decreases fuel, body, lits.len() - k,
{
    if k < lits.len() {
        match iter_target(vs, body, acc, lits[k as int]) {
            Ok(t) => if fuel > 0 {
                lemma_more_replies((fuel - 1) as nat, code, st, t, extra);
                let (r, s1) = eval_v((fuel - 1) as nat, code, st, t);
                if r is Ok {
                    let v = r->Ok_0;
                    lemma_iter_more(fuel, code, s1, vs, body, lits, k + 1,
                        if acc is Some { Some(v) } else { None }, res.push(v), extra);
                }
            },
            Err(_) => {},
        }
    }
}

/// `lemma_more_replies` for `Expr::evaluate`: a finished evaluation gives
/// the same result, and uses the same replies, when more replies come after
/// them.
pub proof fn lemma_evaluate_more_replies(code: Map<Seq<char>, EV>, st: RepliesV, e: EV,
    extra: Seq<Result<LitV, Seq<char>>>)
    requires
        replies_ok(st),
    ensures
        !waits(evaluate_v(code, st, e).0) ==> evaluate_v(code, with_more(st, extra), e)
            == (evaluate_v(code, st, e).0, with_more(evaluate_v(code, st, e).1, extra)),
{
    lemma_more_replies(EVAL_FUEL as nat, code, st, e, extra);
}

} // verus!
