//! Expressions of the policy language, with variables bound by position
//! (de Bruijn indices): shifting, substitution and abstraction.

use vstd::prelude::*;
use crate::strmap::Dup;
use crate::text::str_eq;
use crate::parser::{Ident, Iter, Prefix, Infix};

verus! {

/// The kinds of blocks.
#[derive(Clone, Copy, Debug, PartialEq, Eq, Structural)]
pub enum Block {
    List,
    Tuple,
    Block,
}

/// An error of the expression layer.
#[derive(Debug)]
pub struct Error(pub String);

impl Error {
    /// An error with the given message.
    pub fn new(s: &str) -> (e: Error)
        ensures
            e.0@ == s@,
    {
        Error(s.to_owned())
    }
}

/// Expressions over literals `L`, with match patterns `P`. `BVar(x, i)` is
/// the variable bound by the `i`-th enclosing closure (counting from 0).
#[derive(Debug)]
pub enum Expr<L, P> {
    Var(Ident),
    BVar(Ident, usize),
    LitExpr(L),
    ReturnExpr(Box<Expr<L, P>>),
    PrefixExpr(Prefix, Box<Expr<L, P>>),
    InfixExpr(Infix, Box<Expr<L, P>>, Box<Expr<L, P>>),
    BlockExpr(Block, Vec<Expr<L, P>>),
    Let(Vec<String>, Box<Expr<L, P>>, Box<Expr<L, P>>),
    Iter(Iter, Vec<String>, Box<Expr<L, P>>, Box<Expr<L, P>>, Option<Box<Expr<L, P>>>),
    Closure(Ident, Box<Expr<L, P>>),
    IfExpr {
        cond: Box<Expr<L, P>>,
        consequence: Box<Expr<L, P>>,
        alternative: Option<Box<Expr<L, P>>>,
    },
    IfMatchExpr {
        variables: Vec<String>,
        matches: Vec<(Expr<L, P>, P)>,
        consequence: Box<Expr<L, P>>,
        alternative: Option<Box<Expr<L, P>>>,
    },
    IfSomeMatchExpr {
        expr: Box<Expr<L, P>>,
        consequence: Box<Expr<L, P>>,
        alternative: Option<Box<Expr<L, P>>>,
    },
    CallExpr {
        function: String,
        arguments: Vec<Expr<L, P>>,
        is_async: bool,
    },
}

/// Mathematical model of an expression.
pub enum ExprV<A, B> {
    Var(Seq<char>),
    BVar(Seq<char>, nat),
    LitExpr(A),
    ReturnExpr(Box<ExprV<A, B>>),
    PrefixExpr(Prefix, Box<ExprV<A, B>>),
    InfixExpr(Infix, Box<ExprV<A, B>>, Box<ExprV<A, B>>),
    BlockExpr(Block, Seq<ExprV<A, B>>),
    Let(Seq<Seq<char>>, Box<ExprV<A, B>>, Box<ExprV<A, B>>),
    Iter(Iter, Seq<Seq<char>>, Box<ExprV<A, B>>, Box<ExprV<A, B>>, Option<Box<ExprV<A, B>>>),
    Closure(Seq<char>, Box<ExprV<A, B>>),
    IfExpr {
        cond: Box<ExprV<A, B>>,
        consequence: Box<ExprV<A, B>>,
        alternative: Option<Box<ExprV<A, B>>>,
    },
    IfMatchExpr {
        variables: Seq<Seq<char>>,
        matches: Seq<(ExprV<A, B>, B)>,
        consequence: Box<ExprV<A, B>>,
        alternative: Option<Box<ExprV<A, B>>>,
    },
    IfSomeMatchExpr {
        expr: Box<ExprV<A, B>>,
        consequence: Box<ExprV<A, B>>,
        alternative: Option<Box<ExprV<A, B>>>,
    },
    CallExpr {
        function: Seq<char>,
        arguments: Seq<ExprV<A, B>>,
        is_async: bool,
    },
}

/// Model of an expression, part by part.
pub open spec fn expr_view<L: View, P: View>(e: Expr<L, P>) -> ExprV<L::V, P::V>
    decreases e,
{
    match e {
        Expr::Var(id) => ExprV::Var(id.0@),
        Expr::BVar(id, j) => ExprV::BVar(id.0@, j as nat),
        Expr::LitExpr(l) => ExprV::LitExpr(l@),
        Expr::ReturnExpr(e) => ExprV::ReturnExpr(Box::new(expr_view(*e))),
        Expr::PrefixExpr(p, e) => ExprV::PrefixExpr(p, Box::new(expr_view(*e))),
        Expr::InfixExpr(op, e1, e2) => ExprV::InfixExpr(op, Box::new(expr_view(*e1)), Box::new(expr_view(*e2))),
        Expr::BlockExpr(b, es) => ExprV::BlockExpr(b, exprs_view(es@)),
        Expr::Let(vs, e1, e2) => ExprV::Let(vs@.map_values(|s: String| s@), Box::new(expr_view(*e1)), Box::new(expr_view(*e2))),
        Expr::Iter(it, vs, e1, e2, acc) => ExprV::Iter(it, vs@.map_values(|s: String| s@), Box::new(expr_view(*e1)), Box::new(expr_view(*e2)), match acc { Some(x) => Some(Box::new(expr_view(*x))), None => None }),
        Expr::Closure(id, e) => ExprV::Closure(id.0@, Box::new(expr_view(*e))),
        Expr::IfExpr { cond, consequence, alternative } => ExprV::IfExpr { cond: Box::new(expr_view(*cond)), consequence: Box::new(expr_view(*consequence)), alternative: match alternative { Some(x) => Some(Box::new(expr_view(*x))), None => None } },
        Expr::IfMatchExpr { variables, matches, consequence, alternative } => ExprV::IfMatchExpr { variables: variables@.map_values(|s: String| s@), matches: matches_view(matches@), consequence: Box::new(expr_view(*consequence)), alternative: match alternative { Some(x) => Some(Box::new(expr_view(*x))), None => None } },
        Expr::IfSomeMatchExpr { expr, consequence, alternative } => ExprV::IfSomeMatchExpr { expr: Box::new(expr_view(*expr)), consequence: Box::new(expr_view(*consequence)), alternative: match alternative { Some(x) => Some(Box::new(expr_view(*x))), None => None } },
        Expr::CallExpr { function, arguments, is_async } => ExprV::CallExpr { function: function@, arguments: exprs_view(arguments@), is_async: is_async },
    }
}

/// Models of a list of expressions.
pub open spec fn exprs_view<L: View, P: View>(s: Seq<Expr<L, P>>) -> Seq<ExprV<L::V, P::V>>
    decreases s,
{
    if s.len() == 0 {
        Seq::empty()
    } else {
        seq![expr_view(s[0])] + exprs_view(s.subrange(1, s.len() as int))
    }
}

/// Models of a list of match arms.
pub open spec fn matches_view<L: View, P: View>(s: Seq<(Expr<L, P>, P)>) -> Seq<(ExprV<L::V, P::V>, P::V)>
    decreases s,
{
    if s.len() == 0 {
        Seq::empty()
    } else {
        seq![(expr_view(s[0].0), s[0].1@)] + matches_view(s.subrange(1, s.len() as int))
    }
}

impl<L: View, P: View> View for Expr<L, P> {
    type V = ExprV<L::V, P::V>;

    open spec fn view(&self) -> ExprV<L::V, P::V> {
        expr_view(*self)
    }
}

/// Models of a list grow with the list.
pub proof fn lemma_exprs_view_push<L: View, P: View>(s: Seq<Expr<L, P>>, e: Expr<L, P>)
    ensures
        exprs_view(s.push(e)) == exprs_view(s) + seq![expr_view(e)],
    decreases s.len(),
{
    if s.len() == 0 {
        let z = s.push(e).subrange(1, 1);
        assert(z.len() == 0);
        assert(exprs_view(z) =~= Seq::<ExprV<L::V, P::V>>::empty());
        assert(s.push(e)[0] == e);
        assert(exprs_view(s.push(e)) =~= seq![expr_view(e)]);
    } else {
        let t = s.subrange(1, s.len() as int);
        lemma_exprs_view_push(t, e);
        assert(s.push(e).subrange(1, (s.len() + 1) as int) =~= t.push(e));
        assert(exprs_view(s.push(e)) =~= exprs_view(s) + seq![expr_view(e)]);
    }
}

/// Models of a list of match arms grow with the list.
pub proof fn lemma_matches_view_push<L: View, P: View>(s: Seq<(Expr<L, P>, P)>, m: (Expr<L, P>, P))
    ensures
        matches_view(s.push(m)) == matches_view(s) + seq![(expr_view(m.0), m.1@)],
    decreases s.len(),
{
    if s.len() == 0 {
        let z = s.push(m).subrange(1, 1);
        assert(z.len() == 0);
        assert(matches_view(z) =~= Seq::<(ExprV<L::V, P::V>, P::V)>::empty());
        assert(s.push(m)[0] == m);
        assert(matches_view(s.push(m)) =~= seq![(expr_view(m.0), m.1@)]);
    } else {
        let t = s.subrange(1, s.len() as int);
        lemma_matches_view_push(t, m);
        assert(s.push(m).subrange(1, (s.len() + 1) as int) =~= t.push(m));
        assert(matches_view(s.push(m)) =~= matches_view(s) + seq![(expr_view(m.0), m.1@)]);
    }
}

/// The free bound variables from `d` on moved one place out (closures raise `d`).
pub open spec fn bump<A, B>(e: ExprV<A, B>, d: nat) -> ExprV<A, B>
    decreases e,
{
    match e {
        ExprV::Var(id) => e,
        ExprV::BVar(id, j) => if j >= d { ExprV::BVar(id, j + 1) } else { e },
        ExprV::LitExpr(l) => e,
        ExprV::ReturnExpr(e) => ExprV::ReturnExpr(Box::new(bump(*e, d))),
        ExprV::PrefixExpr(p, e) => ExprV::PrefixExpr(p, Box::new(bump(*e, d))),
        ExprV::InfixExpr(op, e1, e2) => ExprV::InfixExpr(op, Box::new(bump(*e1, d)), Box::new(bump(*e2, d))),
        ExprV::BlockExpr(b, es) => ExprV::BlockExpr(b, bump_seq(es, d)),
        ExprV::Let(vs, e1, e2) => ExprV::Let(vs, Box::new(bump(*e1, d)), Box::new(bump(*e2, d))),
        ExprV::Iter(it, vs, e1, e2, acc) => ExprV::Iter(it, vs, Box::new(bump(*e1, d)), Box::new(bump(*e2, d)), match acc { Some(x) => Some(Box::new(bump(*x, d))), None => None }),
        ExprV::Closure(id, e) => ExprV::Closure(id, Box::new(bump(*e, d + 1))),
        ExprV::IfExpr { cond, consequence, alternative } => ExprV::IfExpr { cond: Box::new(bump(*cond, d)), consequence: Box::new(bump(*consequence, d)), alternative: match alternative { Some(x) => Some(Box::new(bump(*x, d))), None => None } },
        ExprV::IfMatchExpr { variables, matches, consequence, alternative } => ExprV::IfMatchExpr { variables: variables, matches: bump_matches(matches, d), consequence: Box::new(bump(*consequence, d)), alternative: match alternative { Some(x) => Some(Box::new(bump(*x, d))), None => None } },
        ExprV::IfSomeMatchExpr { expr, consequence, alternative } => ExprV::IfSomeMatchExpr { expr: Box::new(bump(*expr, d)), consequence: Box::new(bump(*consequence, d)), alternative: match alternative { Some(x) => Some(Box::new(bump(*x, d))), None => None } },
        ExprV::CallExpr { function, arguments, is_async } => ExprV::CallExpr { function: function, arguments: bump_seq(arguments, d), is_async: is_async },
    }
}

/// `bump` on each expression of a list.
pub open spec fn bump_seq<A, B>(s: Seq<ExprV<A, B>>, d: nat) -> Seq<ExprV<A, B>>
    decreases s,
{
    if s.len() == 0 { Seq::empty() } else { seq![bump(s[0], d)] + bump_seq(s.subrange(1, s.len() as int), d) }
}

/// `bump` on the expression of each match arm.
pub open spec fn bump_matches<A, B>(s: Seq<(ExprV<A, B>, B)>, d: nat) -> Seq<(ExprV<A, B>, B)>
    decreases s,
{
    if s.len() == 0 { Seq::empty() } else { seq![(bump(s[0].0, d), s[0].1)] + bump_matches(s.subrange(1, s.len() as int), d) }
}

/// Shifting as the language does it: by `i == 0` nothing, otherwise the
/// free bound variables from `d` on move one place out.
pub open spec fn shift_v<A, B>(e: ExprV<A, B>, i: nat, d: nat) -> ExprV<A, B> {
    if i == 0 { e } else { bump(e, d) }
}

/// Substitution of `u` for the bound variable `i`; the bound variables above `i` move one place in.
pub open spec fn subst_v<A, B>(e: ExprV<A, B>, i: nat, u: ExprV<A, B>) -> ExprV<A, B>
    decreases e,
{
    match e {
        ExprV::Var(id) => e,
        ExprV::BVar(id, j) => if j < i { e } else if j == i { shift_v(u, i, 0) } else { ExprV::BVar(id, (j - 1) as nat) },
        ExprV::LitExpr(l) => e,
        ExprV::ReturnExpr(e) => ExprV::ReturnExpr(Box::new(subst_v(*e, i, u))),
        ExprV::PrefixExpr(p, e) => ExprV::PrefixExpr(p, Box::new(subst_v(*e, i, u))),
        ExprV::InfixExpr(op, e1, e2) => ExprV::InfixExpr(op, Box::new(subst_v(*e1, i, u)), Box::new(subst_v(*e2, i, u))),
        ExprV::BlockExpr(b, es) => ExprV::BlockExpr(b, subst_v_seq(es, i, u)),
        ExprV::Let(vs, e1, e2) => ExprV::Let(vs, Box::new(subst_v(*e1, i, u)), Box::new(subst_v(*e2, i, u))),
        ExprV::Iter(it, vs, e1, e2, acc) => ExprV::Iter(it, vs, Box::new(subst_v(*e1, i, u)), Box::new(subst_v(*e2, i, u)), match acc { Some(x) => Some(Box::new(subst_v(*x, i, u))), None => None }),
        ExprV::Closure(id, e) => ExprV::Closure(id, Box::new(subst_v(*e, i + 1, u))),
        ExprV::IfExpr { cond, consequence, alternative } => ExprV::IfExpr { cond: Box::new(subst_v(*cond, i, u)), consequence: Box::new(subst_v(*consequence, i, u)), alternative: match alternative { Some(x) => Some(Box::new(subst_v(*x, i, u))), None => None } },
        ExprV::IfMatchExpr { variables, matches, consequence, alternative } => ExprV::IfMatchExpr { variables: variables, matches: subst_v_matches(matches, i, u), consequence: Box::new(subst_v(*consequence, i, u)), alternative: match alternative { Some(x) => Some(Box::new(subst_v(*x, i, u))), None => None } },
        ExprV::IfSomeMatchExpr { expr, consequence, alternative } => ExprV::IfSomeMatchExpr { expr: Box::new(subst_v(*expr, i, u)), consequence: Box::new(subst_v(*consequence, i, u)), alternative: match alternative { Some(x) => Some(Box::new(subst_v(*x, i, u))), None => None } },
        ExprV::CallExpr { function, arguments, is_async } => ExprV::CallExpr { function: function, arguments: subst_v_seq(arguments, i, u), is_async: is_async },
    }
}

/// `subst_v` on each expression of a list.
pub open spec fn subst_v_seq<A, B>(s: Seq<ExprV<A, B>>, i: nat, u: ExprV<A, B>) -> Seq<ExprV<A, B>>
    decreases s,
{
    if s.len() == 0 { Seq::empty() } else { seq![subst_v(s[0], i, u)] + subst_v_seq(s.subrange(1, s.len() as int), i, u) }
}

/// `subst_v` on the expression of each match arm.
pub open spec fn subst_v_matches<A, B>(s: Seq<(ExprV<A, B>, B)>, i: nat, u: ExprV<A, B>) -> Seq<(ExprV<A, B>, B)>
    decreases s,
{
    if s.len() == 0 { Seq::empty() } else { seq![(subst_v(s[0].0, i, u), s[0].1)] + subst_v_matches(s.subrange(1, s.len() as int), i, u) }
}

/// Abstraction: the free variable `v` becomes the bound variable `i`.
pub open spec fn abs_v<A, B>(e: ExprV<A, B>, i: nat, v: Seq<char>) -> ExprV<A, B>
    decreases e,
{
    match e {
        ExprV::Var(id) => if id == v { ExprV::BVar(id, i) } else { e },
        ExprV::BVar(id, j) => e,
        ExprV::LitExpr(l) => e,
        ExprV::ReturnExpr(e) => ExprV::ReturnExpr(Box::new(abs_v(*e, i, v))),
        ExprV::PrefixExpr(p, e) => ExprV::PrefixExpr(p, Box::new(abs_v(*e, i, v))),
        ExprV::InfixExpr(op, e1, e2) => ExprV::InfixExpr(op, Box::new(abs_v(*e1, i, v)), Box::new(abs_v(*e2, i, v))),
        ExprV::BlockExpr(b, es) => ExprV::BlockExpr(b, abs_v_seq(es, i, v)),
        ExprV::Let(vs, e1, e2) => ExprV::Let(vs, Box::new(abs_v(*e1, i, v)), Box::new(abs_v(*e2, i, v))),
        ExprV::Iter(it, vs, e1, e2, acc) => ExprV::Iter(it, vs, Box::new(abs_v(*e1, i, v)), Box::new(abs_v(*e2, i, v)), match acc { Some(x) => Some(Box::new(abs_v(*x, i, v))), None => None }),
        ExprV::Closure(id, e) => ExprV::Closure(id, Box::new(abs_v(*e, i + 1, v))),
        ExprV::IfExpr { cond, consequence, alternative } => ExprV::IfExpr { cond: Box::new(abs_v(*cond, i, v)), consequence: Box::new(abs_v(*consequence, i, v)), alternative: match alternative { Some(x) => Some(Box::new(abs_v(*x, i, v))), None => None } },
        ExprV::IfMatchExpr { variables, matches, consequence, alternative } => ExprV::IfMatchExpr { variables: variables, matches: abs_v_matches(matches, i, v), consequence: Box::new(abs_v(*consequence, i, v)), alternative: match alternative { Some(x) => Some(Box::new(abs_v(*x, i, v))), None => None } },
        ExprV::IfSomeMatchExpr { expr, consequence, alternative } => ExprV::IfSomeMatchExpr { expr: Box::new(abs_v(*expr, i, v)), consequence: Box::new(abs_v(*consequence, i, v)), alternative: match alternative { Some(x) => Some(Box::new(abs_v(*x, i, v))), None => None } },
        ExprV::CallExpr { function, arguments, is_async } => ExprV::CallExpr { function: function, arguments: abs_v_seq(arguments, i, v), is_async: is_async },
    }
}

/// `abs_v` on each expression of a list.
pub open spec fn abs_v_seq<A, B>(s: Seq<ExprV<A, B>>, i: nat, v: Seq<char>) -> Seq<ExprV<A, B>>
    decreases s,
{
    if s.len() == 0 { Seq::empty() } else { seq![abs_v(s[0], i, v)] + abs_v_seq(s.subrange(1, s.len() as int), i, v) }
}

/// `abs_v` on the expression of each match arm.
pub open spec fn abs_v_matches<A, B>(s: Seq<(ExprV<A, B>, B)>, i: nat, v: Seq<char>) -> Seq<(ExprV<A, B>, B)>
    decreases s,
{
    if s.len() == 0 { Seq::empty() } else { seq![(abs_v(s[0].0, i, v), s[0].1)] + abs_v_matches(s.subrange(1, s.len() as int), i, v) }
}

/// Every bound variable is `u` (counting closures), as the language's `is_free` checks.
pub open spec fn free_v<A, B>(e: ExprV<A, B>, u: nat) -> bool
    decreases e,
{
    match e {
        ExprV::Var(id) => true,
        ExprV::BVar(id, j) => j == u,
        ExprV::LitExpr(l) => true,
        ExprV::ReturnExpr(e) => free_v(*e, u),
        ExprV::PrefixExpr(_, e) => free_v(*e, u),
        ExprV::InfixExpr(_, e1, e2) => free_v(*e1, u) && free_v(*e2, u),
        ExprV::BlockExpr(_, es) => free_v_seq(es, u),
        ExprV::Let(_, e1, e2) => free_v(*e1, u) && free_v(*e2, u),
        ExprV::Iter(_, _, e1, e2, acc) => free_v(*e1, u) && free_v(*e2, u) && match acc { Some(x) => free_v(*x, u), None => true },
        ExprV::Closure(id, e) => free_v(*e, u + 1),
        ExprV::IfExpr { cond, consequence, alternative } => free_v(*cond, u) && free_v(*consequence, u) && match alternative { Some(x) => free_v(*x, u), None => true },
        ExprV::IfMatchExpr { variables: _, matches, consequence, alternative } => free_v_matches(matches, u) && free_v(*consequence, u) && match alternative { Some(x) => free_v(*x, u), None => true },
        ExprV::IfSomeMatchExpr { expr, consequence, alternative } => free_v(*expr, u) && free_v(*consequence, u) && match alternative { Some(x) => free_v(*x, u), None => true },
        ExprV::CallExpr { function: _, arguments, is_async: _ } => free_v_seq(arguments, u),
    }
}

/// `free_v` holds of each expression of a list.
pub open spec fn free_v_seq<A, B>(s: Seq<ExprV<A, B>>, u: nat) -> bool
    decreases s,
{
    s.len() == 0 || (free_v(s[0], u) && free_v_seq(s.subrange(1, s.len() as int), u))
}

/// `free_v` holds of the expression of each match arm.
pub open spec fn free_v_matches<A, B>(s: Seq<(ExprV<A, B>, B)>, u: nat) -> bool
    decreases s,
{
    s.len() == 0 || (free_v(s[0].0, u) && free_v_matches(s.subrange(1, s.len() as int), u))
}

/// Closures nest at most to `usize::MAX` from depth `n`.
pub open spec fn depth_ok<A, B>(e: ExprV<A, B>, n: nat) -> bool
    decreases e,
{
    match e {
        ExprV::Var(id) => true,
        ExprV::BVar(id, j) => true,
        ExprV::LitExpr(l) => true,
        ExprV::ReturnExpr(e) => depth_ok(*e, n),
        ExprV::PrefixExpr(_, e) => depth_ok(*e, n),
        ExprV::InfixExpr(_, e1, e2) => depth_ok(*e1, n) && depth_ok(*e2, n),
        ExprV::BlockExpr(_, es) => depth_ok_seq(es, n),
        ExprV::Let(_, e1, e2) => depth_ok(*e1, n) && depth_ok(*e2, n),
        ExprV::Iter(_, _, e1, e2, acc) => depth_ok(*e1, n) && depth_ok(*e2, n) && match acc { Some(x) => depth_ok(*x, n), None => true },
        ExprV::Closure(id, e) => n + 1 <= usize::MAX && depth_ok(*e, n + 1),
        ExprV::IfExpr { cond, consequence, alternative } => depth_ok(*cond, n) && depth_ok(*consequence, n) && match alternative { Some(x) => depth_ok(*x, n), None => true },
        ExprV::IfMatchExpr { variables: _, matches, consequence, alternative } => depth_ok_matches(matches, n) && depth_ok(*consequence, n) && match alternative { Some(x) => depth_ok(*x, n), None => true },
        ExprV::IfSomeMatchExpr { expr, consequence, alternative } => depth_ok(*expr, n) && depth_ok(*consequence, n) && match alternative { Some(x) => depth_ok(*x, n), None => true },
        ExprV::CallExpr { function: _, arguments, is_async: _ } => depth_ok_seq(arguments, n),
    }
}

/// `depth_ok` holds of each expression of a list.
pub open spec fn depth_ok_seq<A, B>(s: Seq<ExprV<A, B>>, n: nat) -> bool
    decreases s,
{
    s.len() == 0 || (depth_ok(s[0], n) && depth_ok_seq(s.subrange(1, s.len() as int), n))
}

/// `depth_ok` holds of the expression of each match arm.
pub open spec fn depth_ok_matches<A, B>(s: Seq<(ExprV<A, B>, B)>, n: nat) -> bool
    decreases s,
{
    s.len() == 0 || (depth_ok(s[0].0, n) && depth_ok_matches(s.subrange(1, s.len() as int), n))
}

/// Every bound variable's index is below `usize::MAX`.
pub open spec fn bvars_ok<A, B>(e: ExprV<A, B>) -> bool
    decreases e,
{
    match e {
        ExprV::Var(id) => true,
        ExprV::BVar(id, j) => j < usize::MAX,
        ExprV::LitExpr(l) => true,
        ExprV::ReturnExpr(e) => bvars_ok(*e),
        ExprV::PrefixExpr(_, e) => bvars_ok(*e),
        ExprV::InfixExpr(_, e1, e2) => bvars_ok(*e1) && bvars_ok(*e2),
        ExprV::BlockExpr(_, es) => bvars_ok_seq(es),
        ExprV::Let(_, e1, e2) => bvars_ok(*e1) && bvars_ok(*e2),
        ExprV::Iter(_, _, e1, e2, acc) => bvars_ok(*e1) && bvars_ok(*e2) && match acc { Some(x) => bvars_ok(*x), None => true },
        ExprV::Closure(id, e) => bvars_ok(*e),
        ExprV::IfExpr { cond, consequence, alternative } => bvars_ok(*cond) && bvars_ok(*consequence) && match alternative { Some(x) => bvars_ok(*x), None => true },
        ExprV::IfMatchExpr { variables: _, matches, consequence, alternative } => bvars_ok_matches(matches) && bvars_ok(*consequence) && match alternative { Some(x) => bvars_ok(*x), None => true },
        ExprV::IfSomeMatchExpr { expr, consequence, alternative } => bvars_ok(*expr) && bvars_ok(*consequence) && match alternative { Some(x) => bvars_ok(*x), None => true },
        ExprV::CallExpr { function: _, arguments, is_async: _ } => bvars_ok_seq(arguments),
    }
}

/// `bvars_ok` holds of each expression of a list.
pub open spec fn bvars_ok_seq<A, B>(s: Seq<ExprV<A, B>>) -> bool
    decreases s,
{
    s.len() == 0 || (bvars_ok(s[0]) && bvars_ok_seq(s.subrange(1, s.len() as int)))
}

/// `bvars_ok` holds of the expression of each match arm.
pub open spec fn bvars_ok_matches<A, B>(s: Seq<(ExprV<A, B>, B)>) -> bool
    decreases s,
{
    s.len() == 0 || (bvars_ok(s[0].0) && bvars_ok_matches(s.subrange(1, s.len() as int)))
}


/// Every bound variable refers to a closure inside the expression, with `i` closures around it.
pub open spec fn closed_v<A, B>(e: ExprV<A, B>, i: nat) -> bool
    decreases e,
{
    match e {
        ExprV::Var(id) => true,
        ExprV::BVar(id, j) => j < i,
        ExprV::LitExpr(l) => true,
        ExprV::ReturnExpr(e) => closed_v(*e, i),
        ExprV::PrefixExpr(_, e) => closed_v(*e, i),
        ExprV::InfixExpr(_, e1, e2) => closed_v(*e1, i) && closed_v(*e2, i),
        ExprV::BlockExpr(_, es) => closed_v_seq(es, i),
        ExprV::Let(_, e1, e2) => closed_v(*e1, i) && closed_v(*e2, i),
        ExprV::Iter(_, _, e1, e2, acc) => closed_v(*e1, i) && closed_v(*e2, i) && match acc { Some(x) => closed_v(*x, i), None => true },
        ExprV::Closure(id, e) => closed_v(*e, i + 1),
        ExprV::IfExpr { cond, consequence, alternative } => closed_v(*cond, i) && closed_v(*consequence, i) && match alternative { Some(x) => closed_v(*x, i), None => true },
        ExprV::IfMatchExpr { variables: _, matches, consequence, alternative } => closed_v_matches(matches, i) && closed_v(*consequence, i) && match alternative { Some(x) => closed_v(*x, i), None => true },
        ExprV::IfSomeMatchExpr { expr, consequence, alternative } => closed_v(*expr, i) && closed_v(*consequence, i) && match alternative { Some(x) => closed_v(*x, i), None => true },
        ExprV::CallExpr { function: _, arguments, is_async: _ } => closed_v_seq(arguments, i),
    }
}

/// `closed_v` holds of each expression of a list.
pub open spec fn closed_v_seq<A, B>(s: Seq<ExprV<A, B>>, i: nat) -> bool
    decreases s,
{
    s.len() == 0 || (closed_v(s[0], i) && closed_v_seq(s.subrange(1, s.len() as int), i))
}

/// `closed_v` holds of the expression of each match arm.
pub open spec fn closed_v_matches<A, B>(s: Seq<(ExprV<A, B>, B)>, i: nat) -> bool
    decreases s,
{
    s.len() == 0 || (closed_v(s[0].0, i) && closed_v_matches(s.subrange(1, s.len() as int), i))
}

/// Room for closures from a depth leaves room from any smaller depth.
pub proof fn lemma_depth_ok_mono<A, B>(e: ExprV<A, B>, n: nat)
    requires
        depth_ok(e, n + 1),
    ensures
        depth_ok(e, n),
    decreases e,
{
    match e {
        ExprV::Var(_) => {  },
        ExprV::BVar(_, _) => {  },
        ExprV::LitExpr(_) => {  },
        ExprV::ReturnExpr(e) => { lemma_depth_ok_mono(*e, n); },
        ExprV::PrefixExpr(_, e) => { lemma_depth_ok_mono(*e, n); },
        ExprV::InfixExpr(_, e1, e2) => { lemma_depth_ok_mono(*e1, n); lemma_depth_ok_mono(*e2, n); },
        ExprV::BlockExpr(_, es) => { lemma_depth_ok_mono_seq(es, n); },
        ExprV::Let(_, e1, e2) => { lemma_depth_ok_mono(*e1, n); lemma_depth_ok_mono(*e2, n); },
        ExprV::Iter(_, _, e1, e2, acc) => { lemma_depth_ok_mono(*e1, n); lemma_depth_ok_mono(*e2, n); match acc { Some(x) => { lemma_depth_ok_mono(*x, n); }, None => {} } },
        ExprV::Closure(_, e) => { lemma_depth_ok_mono(*e, n + 1); },
        ExprV::IfExpr { cond, consequence, alternative } => { lemma_depth_ok_mono(*cond, n); lemma_depth_ok_mono(*consequence, n); match alternative { Some(x) => { lemma_depth_ok_mono(*x, n); }, None => {} } },
        ExprV::IfMatchExpr { variables: _, matches, consequence, alternative } => { lemma_depth_ok_mono_matches(matches, n); lemma_depth_ok_mono(*consequence, n); match alternative { Some(x) => { lemma_depth_ok_mono(*x, n); }, None => {} } },
        ExprV::IfSomeMatchExpr { expr, consequence, alternative } => { lemma_depth_ok_mono(*expr, n); lemma_depth_ok_mono(*consequence, n); match alternative { Some(x) => { lemma_depth_ok_mono(*x, n); }, None => {} } },
        ExprV::CallExpr { function: _, arguments, is_async: _ } => { lemma_depth_ok_mono_seq(arguments, n); },
    }
}

/// `lemma_depth_ok_mono` for each expression of a list.
pub proof fn lemma_depth_ok_mono_seq<A, B>(s: Seq<ExprV<A, B>>, n: nat)
    requires
        depth_ok_seq(s, n + 1),
    ensures
        depth_ok_seq(s, n),
    decreases s,
{
    if s.len() > 0 {
        lemma_depth_ok_mono(s[0], n);
        lemma_depth_ok_mono_seq(s.subrange(1, s.len() as int), n);
    }
}

/// `lemma_depth_ok_mono` for the expression of each match arm.
pub proof fn lemma_depth_ok_mono_matches<A, B>(s: Seq<(ExprV<A, B>, B)>, n: nat)
    requires
        depth_ok_matches(s, n + 1),
    ensures
        depth_ok_matches(s, n),
    decreases s,
{
    if s.len() > 0 {
        lemma_depth_ok_mono(s[0].0, n);
        lemma_depth_ok_mono_matches(s.subrange(1, s.len() as int), n);
    }
}

/// Abstraction keeps the nesting of closures.
pub proof fn lemma_abs_depth_ok<A, B>(e: ExprV<A, B>, i: nat, v: Seq<char>, n: nat)
    ensures
        depth_ok(abs_v(e, i, v), n) == depth_ok(e, n),
    decreases e,
{
    match e {
        ExprV::Var(_) => {  },
        ExprV::BVar(_, _) => {  },
        ExprV::LitExpr(_) => {  },
        ExprV::ReturnExpr(e) => { lemma_abs_depth_ok(*e, i, v, n); },
        ExprV::PrefixExpr(_, e) => { lemma_abs_depth_ok(*e, i, v, n); },
        ExprV::InfixExpr(_, e1, e2) => { lemma_abs_depth_ok(*e1, i, v, n); lemma_abs_depth_ok(*e2, i, v, n); },
        ExprV::BlockExpr(_, es) => { lemma_abs_depth_ok_seq(es, i, v, n); },
        ExprV::Let(_, e1, e2) => { lemma_abs_depth_ok(*e1, i, v, n); lemma_abs_depth_ok(*e2, i, v, n); },
        ExprV::Iter(_, _, e1, e2, acc) => { lemma_abs_depth_ok(*e1, i, v, n); lemma_abs_depth_ok(*e2, i, v, n); match acc { Some(x) => { lemma_abs_depth_ok(*x, i, v, n); }, None => {} } },
        ExprV::Closure(_, e) => { lemma_abs_depth_ok(*e, i + 1, v, n + 1); },
        ExprV::IfExpr { cond, consequence, alternative } => { lemma_abs_depth_ok(*cond, i, v, n); lemma_abs_depth_ok(*consequence, i, v, n); match alternative { Some(x) => { lemma_abs_depth_ok(*x, i, v, n); }, None => {} } },
        ExprV::IfMatchExpr { variables: _, matches, consequence, alternative } => { lemma_abs_depth_ok_matches(matches, i, v, n); lemma_abs_depth_ok(*consequence, i, v, n); match alternative { Some(x) => { lemma_abs_depth_ok(*x, i, v, n); }, None => {} } },
        ExprV::IfSomeMatchExpr { expr, consequence, alternative } => { lemma_abs_depth_ok(*expr, i, v, n); lemma_abs_depth_ok(*consequence, i, v, n); match alternative { Some(x) => { lemma_abs_depth_ok(*x, i, v, n); }, None => {} } },
        ExprV::CallExpr { function: _, arguments, is_async: _ } => { lemma_abs_depth_ok_seq(arguments, i, v, n); },
    }
}

/// `lemma_abs_depth_ok` for each expression of a list.
pub proof fn lemma_abs_depth_ok_seq<A, B>(s: Seq<ExprV<A, B>>, i: nat, v: Seq<char>, n: nat)
    ensures
        depth_ok_seq(abs_v_seq(s, i, v), n) == depth_ok_seq(s, n),
    decreases s,
{
    if s.len() > 0 {
        lemma_abs_depth_ok(s[0], i, v, n);
        lemma_abs_depth_ok_seq(s.subrange(1, s.len() as int), i, v, n);
        let t = abs_v_seq(s, i, v);
        assert(t[0] == abs_v(s[0], i, v));
        assert(t.subrange(1, t.len() as int) =~= abs_v_seq(s.subrange(1, s.len() as int), i, v));
    }
}

/// `lemma_abs_depth_ok` for the expression of each match arm.
pub proof fn lemma_abs_depth_ok_matches<A, B>(s: Seq<(ExprV<A, B>, B)>, i: nat, v: Seq<char>, n: nat)
    ensures
        depth_ok_matches(abs_v_matches(s, i, v), n) == depth_ok_matches(s, n),
    decreases s,
{
    if s.len() > 0 {
        lemma_abs_depth_ok(s[0].0, i, v, n);
        lemma_abs_depth_ok_matches(s.subrange(1, s.len() as int), i, v, n);
        let t = abs_v_matches(s, i, v);
        assert(t[0] == (abs_v(s[0].0, i, v), s[0].1));
        assert(t.subrange(1, t.len() as int) =~= abs_v_matches(s.subrange(1, s.len() as int), i, v));
    }
}

/// Substituting a variable for the bound variable it was abstracted into gives back the expression, when its bound variables are all bound inside it.
pub proof fn lemma_subst_abs<A, B>(e: ExprV<A, B>, i: nat, v: Seq<char>)
    requires
        closed_v(e, i),
    ensures
        subst_v(abs_v(e, i, v), i, ExprV::Var(v)) == e,
    decreases e,
{
    match e {
        ExprV::Var(_) => {  },
        ExprV::BVar(_, _) => {  },
        ExprV::LitExpr(_) => {  },
        ExprV::ReturnExpr(e) => { lemma_subst_abs(*e, i, v); },
        ExprV::PrefixExpr(_, e) => { lemma_subst_abs(*e, i, v); },
        ExprV::InfixExpr(_, e1, e2) => { lemma_subst_abs(*e1, i, v); lemma_subst_abs(*e2, i, v); },
        ExprV::BlockExpr(_, es) => { lemma_subst_abs_seq(es, i, v); },
        ExprV::Let(_, e1, e2) => { lemma_subst_abs(*e1, i, v); lemma_subst_abs(*e2, i, v); },
        ExprV::Iter(_, _, e1, e2, acc) => { lemma_subst_abs(*e1, i, v); lemma_subst_abs(*e2, i, v); match acc { Some(x) => { lemma_subst_abs(*x, i, v); }, None => {} } },
        ExprV::Closure(_, e) => { lemma_subst_abs(*e, i + 1, v); },
        ExprV::IfExpr { cond, consequence, alternative } => { lemma_subst_abs(*cond, i, v); lemma_subst_abs(*consequence, i, v); match alternative { Some(x) => { lemma_subst_abs(*x, i, v); }, None => {} } },
        ExprV::IfMatchExpr { variables: _, matches, consequence, alternative } => { lemma_subst_abs_matches(matches, i, v); lemma_subst_abs(*consequence, i, v); match alternative { Some(x) => { lemma_subst_abs(*x, i, v); }, None => {} } },
        ExprV::IfSomeMatchExpr { expr, consequence, alternative } => { lemma_subst_abs(*expr, i, v); lemma_subst_abs(*consequence, i, v); match alternative { Some(x) => { lemma_subst_abs(*x, i, v); }, None => {} } },
        ExprV::CallExpr { function: _, arguments, is_async: _ } => { lemma_subst_abs_seq(arguments, i, v); },
    }
}

/// `lemma_subst_abs` for each expression of a list.
pub proof fn lemma_subst_abs_seq<A, B>(s: Seq<ExprV<A, B>>, i: nat, v: Seq<char>)
    requires
        closed_v_seq(s, i),
    ensures
        subst_v_seq(abs_v_seq(s, i, v), i, ExprV::Var(v)) == s,
    decreases s,
{
    if s.len() > 0 {
        lemma_subst_abs(s[0], i, v);
        lemma_subst_abs_seq(s.subrange(1, s.len() as int), i, v);
        let t = abs_v_seq(s, i, v);
        assert(t[0] == abs_v(s[0], i, v));
        assert(t.subrange(1, t.len() as int) =~= abs_v_seq(s.subrange(1, s.len() as int), i, v));
        let w = subst_v_seq(t, i, ExprV::Var(v));
        assert(w[0] == s[0]);
        assert(w.subrange(1, w.len() as int) =~= s.subrange(1, s.len() as int));
        assert(w =~= s);
    }
}

/// `lemma_subst_abs` for the expression of each match arm.
pub proof fn lemma_subst_abs_matches<A, B>(s: Seq<(ExprV<A, B>, B)>, i: nat, v: Seq<char>)
    requires
        closed_v_matches(s, i),
    ensures
        subst_v_matches(abs_v_matches(s, i, v), i, ExprV::Var(v)) == s,
    decreases s,
{
    if s.len() > 0 {
        lemma_subst_abs(s[0].0, i, v);
        lemma_subst_abs_matches(s.subrange(1, s.len() as int), i, v);
        let t = abs_v_matches(s, i, v);
        assert(t[0] == (abs_v(s[0].0, i, v), s[0].1));
        assert(t.subrange(1, t.len() as int) =~= abs_v_matches(s.subrange(1, s.len() as int), i, v));
        let w = subst_v_matches(t, i, ExprV::Var(v));
        assert(w[0] == s[0]);
        assert(w.subrange(1, w.len() as int) =~= s.subrange(1, s.len() as int));
        assert(w =~= s);
    }
}


/// Closures raised on a variable (`_` binds nothing).
pub open spec fn closure_v<A, B>(e: ExprV<A, B>, v: Seq<char>) -> ExprV<A, B> {
    if v == seq!['_'] { e } else { ExprV::Closure(v, Box::new(abs_v(e, 0, v))) }
}

/// Closures raised on each of the variables, the last one innermost.
pub open spec fn closures_v<A, B>(e: ExprV<A, B>, vs: Seq<Seq<char>>) -> ExprV<A, B>
    decreases vs.len(),
{
    if vs.len() == 0 { e } else { closures_v(closure_v(e, vs.last()), vs.drop_last()) }
}

/// `let vs = e; body`: a block when the only variable is `_`.
pub open spec fn let_v<A, B>(body: ExprV<A, B>, vs: Seq<Seq<char>>, e: ExprV<A, B>) -> ExprV<A, B> {
    if vs == seq![seq!['_']] {
        ExprV::BlockExpr(Block::Block, seq![e, body])
    } else {
        ExprV::Let(vs, Box::new(e), Box::new(closures_v(body, vs)))
    }
}

/// An iteration over `e` with the body closed over the variables, and over
/// the accumulator `acc` when there is one.
pub open spec fn iter_v<A, B>(body: ExprV<A, B>, op: Iter, vs: Seq<Seq<char>>, e: ExprV<A, B>, acc: Option<ExprV<A, B>>) -> ExprV<A, B> {
    let c = closures_v(body, vs);
    let c2 = if acc is Some { closure_v(c, "acc"@) } else { c };
    ExprV::Iter(op, vs, Box::new(e), Box::new(c2), match acc { Some(a) => Some(Box::new(a)), None => None })
}

/// Applying a closure to an argument; `None` for other expressions.
pub open spec fn apply_v<A, B>(e: ExprV<A, B>, u: ExprV<A, B>) -> Option<ExprV<A, B>> {
    match e {
        ExprV::Closure(_, b) => Some(subst_v(*b, 0, u)),
        _ => None,
    }
}

/// Substitution below all the leading closures, at index `i`.
pub open spec fn psubst_v<A, B>(e: ExprV<A, B>, i: nat, u: ExprV<A, B>) -> ExprV<A, B>
    decreases e,
{
    match e {
        ExprV::Closure(v, b) => ExprV::Closure(v, Box::new(psubst_v(*b, i, u))),
        _ => subst_v(e, i, u),
    }
}

/// Below `j` leading closures, the next closure is consumed and `u`
/// substituted below the closures that follow it.
pub open spec fn propagate_subst_v<A, B>(e: ExprV<A, B>, i: nat, j: nat, u: ExprV<A, B>) -> ExprV<A, B>
    decreases e,
{
    match e {
        ExprV::Closure(v, b) => if j == 0 {
            psubst_v(*b, i, u)
        } else {
            ExprV::Closure(v, Box::new(propagate_subst_v(*b, i, (j - 1) as nat, u)))
        },
        _ => psubst_v(e, i, u),
    }
}

/// The expression below exactly `i` leading closures.
pub open spec fn at_depth_v<A, B>(e: ExprV<A, B>, i: nat) -> Option<ExprV<A, B>>
    decreases e,
{
    match e {
        ExprV::Closure(_, b) => at_depth_v(*b, (i - 1) as nat),
        _ => if i == 0 { Some(e) } else { None },
    }
}

/// There are at most `i` leading closures (going below more would take
/// one from 0).
pub open spec fn at_depth_ok<A, B>(e: ExprV<A, B>, i: nat) -> bool
    decreases e,
{
    match e {
        ExprV::Closure(_, b) => i > 0 && at_depth_ok(*b, (i - 1) as nat),
        _ => true,
    }
}

/// Room for closures from a depth leaves room from any smaller one.
pub proof fn lemma_depth_ok_le<A, B>(e: ExprV<A, B>, m: nat, n: nat)
    requires
        depth_ok(e, m),
        n <= m,
    ensures
        depth_ok(e, n),
    decreases m - n,
{
    if n < m {
        lemma_depth_ok_mono(e, (m - 1) as nat);
        lemma_depth_ok_le(e, (m - 1) as nat, n);
    }
}

/// Abstracting a variable into a closure and applying the closure to that
/// variable gives back the expression, when all its bound variables are
/// bound inside it.
pub proof fn lemma_apply_closure<A, B>(e: ExprV<A, B>, v: Seq<char>)
    requires
        v != seq!['_'],
        closed_v(e, 0),
    ensures
        apply_v(closure_v(e, v), ExprV::Var(v)) == Some(e),
{
    lemma_subst_abs(e, 0, v);
}

/// Shifting by 0 changes nothing.
pub proof fn lemma_shift_zero<A, B>(e: ExprV<A, B>, d: nat)
    ensures
        shift_v(e, 0, d) == e,
{
}

impl<L: Dup, P: Dup> Expr<L, P> {
    /// The free variable `v`.
    pub fn var(v: &str) -> (e: Self)
        ensures
            e@ == ExprV::<L::V, P::V>::Var(v@),
    {
        Expr::Var(Ident::from_str(v))
    }

    /// The bound variable `v` with index `u`.
    pub fn bvar(v: &str, u: usize) -> (e: Self)
        ensures
            e@ == ExprV::<L::V, P::V>::BVar(v@, u as nat),
    {
        Expr::BVar(Ident::from_str(v), u)
    }

    /// A literal.
    pub fn lit(l: L) -> (e: Self)
        ensures
            e@ == ExprV::<L::V, P::V>::LitExpr(l@),
    {
        Expr::LitExpr(l)
    }

    /// A call of `f` on the arguments.
    pub fn call(f: &str, arguments: Vec<Self>) -> (e: Self)
        ensures
            e@ == (ExprV::<L::V, P::V>::CallExpr { function: f@, arguments: exprs_view(arguments@), is_async: false }),
    {
        Expr::CallExpr { function: f.to_owned(), arguments, is_async: false }
    }

    /// `return e`.
    pub fn return_expr(e: Self) -> (r: Self)
        ensures
            r@ == ExprV::ReturnExpr(Box::new(e@)),
    {
        Expr::ReturnExpr(Box::new(e))
    }

    /// A prefix operation.
    pub fn prefix_expr(p: Prefix, e: Self) -> (r: Self)
        ensures
            r@ == ExprV::PrefixExpr(p, Box::new(e@)),
    {
        Expr::PrefixExpr(p, Box::new(e))
    }

    /// An infix operation.
    pub fn infix_expr(op: Infix, e1: Self, e2: Self) -> (r: Self)
        ensures
            r@ == ExprV::InfixExpr(op, Box::new(e1@), Box::new(e2@)),
    {
        Expr::InfixExpr(op, Box::new(e1), Box::new(e2))
    }

    /// `if b { e1 } else { e2 }`.
    pub fn if_else_expr(b: Self, e1: Self, e2: Self) -> (r: Self)
        ensures
            r@ == (ExprV::IfExpr { cond: Box::new(b@), consequence: Box::new(e1@), alternative: Some(Box::new(e2@)) }),
    {
        Expr::IfExpr { cond: Box::new(b), consequence: Box::new(e1), alternative: Some(Box::new(e2)) }
    }

    /// `if b { e }`.
    pub fn if_expr(b: Self, e: Self) -> (r: Self)
        ensures
            r@ == (ExprV::IfExpr { cond: Box::new(b@), consequence: Box::new(e@), alternative: None }),
    {
        Expr::IfExpr { cond: Box::new(b), consequence: Box::new(e), alternative: None }
    }

    /// The closure binding `v` in the expression (nothing for `_`).
    pub fn closure_expr(self, v: &str) -> (r: Self)
        requires
            depth_ok(self@, 0),
        ensures
            r@ == closure_v(self@, v@),
    {
        proof {
            reveal_strlit("_");
            assert("_"@ =~= seq!['_']);
        }
        if str_eq(v, "_") {
            self
        } else {
            Expr::Closure(Ident::from_str(v), Box::new(self.abs(0, v)))
        }
    }

    /// Closures on each of the variables, the last innermost.
    pub fn closures(self, v: &Vec<&str>) -> (r: Self)
        requires
            depth_ok(self@, v@.len() as nat),
        ensures
            r@ == closures_v(self@, v@.map_values(|s: &str| s@)),
            depth_ok(r@, 0),
    {
        let ghost vs = v@.map_values(|s: &str| s@);
        let ghost start = self@;
        let mut c = self;
        let mut k: usize = v.len();
        assert(vs.take(k as int) =~= vs);
        while k > 0
            invariant
                k <= v@.len(),
                vs == v@.map_values(|s: &str| s@),
                closures_v(c@, vs.take(k as int)) == closures_v(start, vs),
                depth_ok(c@, k as nat),
            decreases k,
        {
            k = k - 1;
            let ghost before = c@;
            proof { lemma_depth_ok_le(c@, (k + 1) as nat, 0); }
            c = c.closure_expr(v[k]);
            proof {
                assert(vs.take(k + 1).last() == vs[k as int]);
                assert(vs.take(k + 1).drop_last() =~= vs.take(k as int));
                if vs[k as int] == seq!['_'] {
                    lemma_depth_ok_mono(before, k as nat);
                } else {
                    lemma_abs_depth_ok(before, 0, vs[k as int], (k + 1) as nat);
                    lemma_abs_depth_ok(before, 0, vs[k as int], (k + 1) as nat);
                }
            }
        }
        assert(vs.take(0) =~= Seq::<Seq<char>>::empty());
        c
    }

    /// `let v = e; self` (see `let_v`).
    pub fn let_expr(self, v: Vec<&str>, e: Self) -> (r: Self)
        requires
            depth_ok(self@, v@.len() as nat),
        ensures
            r@ == let_v(self@, v@.map_values(|s: &str| s@), e@),
    {
        let ghost vs = v@.map_values(|s: &str| s@);
        proof {
            reveal_strlit("_");
            assert("_"@ =~= seq!['_']);
        }
        if v.len() == 1 && str_eq(v[0], "_") {
            assert(vs[0] == v@[0]@);
            assert(vs =~= seq![seq!['_']]);
            let mut es: Vec<Self> = Vec::new();
            let ghost (ev, sv) = (e@, self@);
            es.push(e);
            es.push(self);
            proof {
                lemma_exprs_view_push(Seq::<Self>::empty(), es@[0]);
                assert(es@ =~= Seq::<Self>::empty().push(es@[0]).push(es@[1]));
                lemma_exprs_view_push(Seq::<Self>::empty().push(es@[0]), es@[1]);
                assert(exprs_view(Seq::<Self>::empty()) =~= Seq::<ExprV<L::V, P::V>>::empty());
                assert(exprs_view(es@) =~= seq![ev, sv]);
            }
            Expr::BlockExpr(Block::Block, es)
        } else {
            proof {
                if vs == seq![seq!['_']] {
                    assert(vs.len() == 1);
                    assert(vs[0] == v@[0]@);
                }
            }
            let names = Self::names_of(&v);
            let c = self.closures(&v);
            Expr::Let(names, Box::new(e), Box::new(c))
        }
    }

    /// The names as strings.
    fn names_of(v: &Vec<&str>) -> (r: Vec<String>)
        ensures
            r@.map_values(|s: String| s@) == v@.map_values(|s: &str| s@),
    {
        let mut out: Vec<String> = Vec::new();
        let mut k: usize = 0;
        while k < v.len()
            invariant
                k <= v@.len(),
                out@.len() == k,
                forall|j: int| 0 <= j < k ==> (#[trigger] out@[j])@ == v@[j]@,
            decreases v.len() - k,
        {
            out.push(v[k].to_owned());
            k = k + 1;
        }
        assert(out@.map_values(|s: String| s@) =~= v@.map_values(|s: &str| s@));
        out
    }

    /// An iteration `op` over `e`, binding the variables (and `acc` when
    /// there is an accumulator) in `self` (see `iter_v`).
    pub fn iter_expr(self, op: Iter, v: Vec<&str>, e: Self, acc: Option<Self>) -> (r: Self)
        requires
            depth_ok(self@, v@.len() + 1),
        ensures
            r@ == iter_v(self@, op, v@.map_values(|s: &str| s@), e@, match acc { Some(a) => Some(a@), None => None }),
    {
        proof { lemma_depth_ok_mono(self@, v@.len() as nat); }
        let names = Self::names_of(&v);
        let c = self.closures(&v);
        let c2 = match acc {
            Some(_) => c.closure_expr("acc"),
            None => c,
        };
        let a = match acc {
            Some(x) => Some(Box::new(x)),
            None => None,
        };
        Expr::Iter(op, names, Box::new(e), Box::new(c2), a)
    }

    /// Applies a closure to an argument.
    pub fn apply(self, u: &Self) -> (r: Result<Self, Error>)
        requires
            self@ is Closure ==> depth_ok(*self@->Closure_1, 0),
            depth_ok(u@, 0),
            bvars_ok(u@),
        ensures
            match r {
                Ok(x) => apply_v(self@, u@) == Some(x@),
                Err(e) => apply_v(self@, u@) is None && e.0@ == "apply: expression is not a closure"@,
            },
    {
        match self {
            Expr::Closure(_, e) => Ok((*e).subst(0, u)),
            _ => Err(Error::new("apply: expression is not a closure")),
        }
    }

    /// Substitution below all the leading closures (see `psubst_v`).
    pub fn psubst(self, i: usize, u: &Self) -> (r: Self)
        requires
            depth_ok(self@, i as nat),
            depth_ok(u@, 0),
            bvars_ok(u@),
        ensures
            r@ == psubst_v(self@, i as nat, u@),
        decreases self,
    {
        match self {
            Expr::Closure(v, e) => {
                proof { lemma_depth_ok_mono(*self@->Closure_1, i as nat); }
                Expr::Closure(v, Box::new((*e).psubst(i, u)))
            },
            _ => self.subst(i, u),
        }
    }

    /// Consumes the closure below `j` leading closures, substituting `u`
    /// below the closures that follow (see `propagate_subst_v`).
    pub fn propagate_subst(self, i: usize, j: usize, u: &Self) -> (r: Self)
        requires
            depth_ok(self@, i as nat),
            depth_ok(u@, 0),
            bvars_ok(u@),
        ensures
            r@ == propagate_subst_v(self@, i as nat, j as nat, u@),
        decreases self,
    {
        match self {
            Expr::Closure(v, e) => {
                proof { lemma_depth_ok_mono(*self@->Closure_1, i as nat); }
                if j == 0 {
                    (*e).psubst(i, u)
                } else {
                    Expr::Closure(v, Box::new((*e).propagate_subst(i, j - 1, u)))
                }
            },
            _ => self.psubst(i, u),
        }
    }

    /// The expression below exactly `i` leading closures.
    pub fn at_depth(self, i: usize) -> (r: Option<Self>)
        requires
            at_depth_ok(self@, i as nat),
        ensures
            match r {
                Some(x) => at_depth_v(self@, i as nat) == Some(x@),
                None => at_depth_v(self@, i as nat) is None,
            },
        decreases self,
    {
        match self {
            Expr::Closure(_, e) => (*e).at_depth(i - 1),
            _ => if i == 0 { Some(self) } else { None },
        }
    }
}


/// Copies of a list of names.
fn dup_names(v: &Vec<String>) -> (r: Vec<String>)
    ensures
        r@.map_values(|s: String| s@) == v@.map_values(|s: String| s@),
{
    let mut out: Vec<String> = Vec::new();
    let mut k: usize = 0;
    while k < v.len()
        invariant
            k <= v@.len(),
            out@.len() == k,
            forall|j: int| 0 <= j < k ==> (#[trigger] out@[j])@ == v@[j]@,
        decreases v.len() - k,
    {
        out.push(v[k].clone());
        k = k + 1;
    }
    assert(out@.map_values(|s: String| s@) =~= v@.map_values(|s: String| s@));
    out
}

impl<L: Dup, P: Dup> Expr<L, P> {
    /// A copy of the expression.
    pub fn dup(&self) -> (r: Self)
        ensures
            r@ == self@,
        decreases self,
    {
        match self {
            Expr::Var(id) => Expr::Var(id.dup()),
            Expr::BVar(id, j) => Expr::BVar(id.dup(), *j),
            Expr::LitExpr(l) => Expr::LitExpr(l.dup()),
            Expr::ReturnExpr(e) => Expr::ReturnExpr(Box::new((**e).dup())),
            Expr::PrefixExpr(p, e) => Expr::PrefixExpr(*p, Box::new((**e).dup())),
            Expr::InfixExpr(op, e1, e2) => Expr::InfixExpr(*op, Box::new((**e1).dup()), Box::new((**e2).dup())),
            Expr::BlockExpr(b, es) => Expr::BlockExpr(*b, Self::dup_vec(es)),
            Expr::Let(vs, e1, e2) => Expr::Let(dup_names(vs), Box::new((**e1).dup()), Box::new((**e2).dup())),
            Expr::Iter(it, vs, e1, e2, acc) => Expr::Iter(*it, dup_names(vs), Box::new((**e1).dup()), Box::new((**e2).dup()), match acc { Some(x) => Some(Box::new((**x).dup())), None => None }),
            Expr::Closure(id, e) => Expr::Closure(id.dup(), Box::new((**e).dup())),
            Expr::IfExpr { cond, consequence, alternative } => Expr::IfExpr { cond: Box::new((**cond).dup()), consequence: Box::new((**consequence).dup()), alternative: match alternative { Some(x) => Some(Box::new((**x).dup())), None => None } },
            Expr::IfMatchExpr { variables, matches, consequence, alternative } => Expr::IfMatchExpr { variables: dup_names(variables), matches: Self::dup_matches(matches), consequence: Box::new((**consequence).dup()), alternative: match alternative { Some(x) => Some(Box::new((**x).dup())), None => None } },
            Expr::IfSomeMatchExpr { expr, consequence, alternative } => Expr::IfSomeMatchExpr { expr: Box::new((**expr).dup()), consequence: Box::new((**consequence).dup()), alternative: match alternative { Some(x) => Some(Box::new((**x).dup())), None => None } },
            Expr::CallExpr { function, arguments, is_async } => Expr::CallExpr { function: function.clone(), arguments: Self::dup_vec(arguments), is_async: *is_async },
        }
    }

    fn dup_vec(src: &Vec<Self>) -> (r: Vec<Self>)
        ensures
            exprs_view(r@) == exprs_view(src@),
        decreases src,
    {
        let mut out: Vec<Self> = Vec::new();
        let mut k: usize = 0;
        assert(src@.subrange(0, src@.len() as int) =~= src@);
        while k < src.len()
            invariant
                k <= src@.len(),
                exprs_view(out@) + exprs_view(src@.subrange(k as int, src@.len() as int)) == exprs_view(src@),
            decreases src.len() - k,
        {
            let ghost rest = src@.subrange(k as int, src@.len() as int);
            let ghost xs = exprs_view(rest);
            proof {
                vstd::std_specs::vec::axiom_vec_index_decreases(*src, k as int);
                assert(rest[0] == src@[k as int]);
                assert(rest.subrange(1, rest.len() as int) =~= src@.subrange(k + 1, src@.len() as int));
                assert(xs.subrange(1, xs.len() as int) =~= exprs_view(src@.subrange(k + 1, src@.len() as int)));
            }
            let r = src[k].dup();
            proof { lemma_exprs_view_push(out@, r); }
            out.push(r);
            assert(exprs_view(out@) + exprs_view(src@.subrange(k + 1, src@.len() as int)) =~= exprs_view(src@));
            k = k + 1;
        }
        assert(exprs_view(src@.subrange(k as int, src@.len() as int)) =~= Seq::empty());
        assert(exprs_view(out@) =~= exprs_view(out@) + exprs_view(src@.subrange(k as int, src@.len() as int)));
        out
    }

    fn dup_matches(src: &Vec<(Self, P)>) -> (r: Vec<(Self, P)>)
        ensures
            matches_view(r@) == matches_view(src@),
        decreases src,
    {
        let mut out: Vec<(Self, P)> = Vec::new();
        let mut k: usize = 0;
        assert(src@.subrange(0, src@.len() as int) =~= src@);
        while k < src.len()
            invariant
                k <= src@.len(),
                matches_view(out@) + matches_view(src@.subrange(k as int, src@.len() as int)) == matches_view(src@),
            decreases src.len() - k,
        {
            let ghost rest = src@.subrange(k as int, src@.len() as int);
            let ghost xs = matches_view(rest);
            proof {
                vstd::std_specs::vec::axiom_vec_index_decreases(*src, k as int);
                assert(rest[0] == src@[k as int]);
                assert(rest.subrange(1, rest.len() as int) =~= src@.subrange(k + 1, src@.len() as int));
                assert(xs.subrange(1, xs.len() as int) =~= matches_view(src@.subrange(k + 1, src@.len() as int)));
            }
            let r = (src[k].0.dup(), src[k].1.dup());
            proof { lemma_matches_view_push(out@, r); }
            out.push(r);
            assert(matches_view(out@) + matches_view(src@.subrange(k + 1, src@.len() as int)) =~= matches_view(src@));
            k = k + 1;
        }
        assert(matches_view(src@.subrange(k as int, src@.len() as int)) =~= Seq::empty());
        assert(matches_view(out@) =~= matches_view(out@) + matches_view(src@.subrange(k as int, src@.len() as int)));
        out
    }

    /// Whether closures nest at most to `usize::MAX` from depth `n` (see
    /// `depth_ok`).
    pub fn fits_depth(&self, n: usize) -> (b: bool)
        ensures
            b == depth_ok(self@, n as nat),
        decreases self,
    {
        match self {
            Expr::Var(_) => true,
            Expr::BVar(_, _) => true,
            Expr::LitExpr(_) => true,
            Expr::ReturnExpr(e) => (**e).fits_depth(n),
            Expr::PrefixExpr(_, e) => (**e).fits_depth(n),
            Expr::InfixExpr(_, e1, e2) => (**e1).fits_depth(n) && (**e2).fits_depth(n),
            Expr::BlockExpr(_, es) => Self::fits_vec(es, n),
            Expr::Let(_, e1, e2) => (**e1).fits_depth(n) && (**e2).fits_depth(n),
            Expr::Iter(_, _, e1, e2, acc) => (**e1).fits_depth(n) && (**e2).fits_depth(n) && match acc { Some(x) => (**x).fits_depth(n), None => true },
            Expr::Closure(_, e) => n < usize::MAX && (**e).fits_depth(n + 1),
            Expr::IfExpr { cond, consequence, alternative } => (**cond).fits_depth(n) && (**consequence).fits_depth(n) && match alternative { Some(x) => (**x).fits_depth(n), None => true },
            Expr::IfMatchExpr { variables: _, matches, consequence, alternative } => Self::fits_matches(matches, n) && (**consequence).fits_depth(n) && match alternative { Some(x) => (**x).fits_depth(n), None => true },
            Expr::IfSomeMatchExpr { expr, consequence, alternative } => (**expr).fits_depth(n) && (**consequence).fits_depth(n) && match alternative { Some(x) => (**x).fits_depth(n), None => true },
            Expr::CallExpr { function: _, arguments, is_async: _ } => Self::fits_vec(arguments, n),
        }
    }

    fn fits_vec(src: &Vec<Self>, n: usize) -> (b: bool)
        ensures
            b == depth_ok_seq(exprs_view(src@), n as nat),
        decreases src,
    {
        let mut k: usize = 0;
        assert(src@.subrange(0, src@.len() as int) =~= src@);
        while k < src.len()
            invariant
                k <= src@.len(),
                depth_ok_seq(exprs_view(src@.subrange(k as int, src@.len() as int)), n as nat) == depth_ok_seq(exprs_view(src@), n as nat),
            decreases src.len() - k,
        {
            let ghost rest = src@.subrange(k as int, src@.len() as int);
            let ghost xs = exprs_view(rest);
            proof {
                vstd::std_specs::vec::axiom_vec_index_decreases(*src, k as int);
                assert(rest[0] == src@[k as int]);
                assert(rest.subrange(1, rest.len() as int) =~= src@.subrange(k + 1, src@.len() as int));
                assert(xs.subrange(1, xs.len() as int) =~= exprs_view(src@.subrange(k + 1, src@.len() as int)));
            }
            if !src[k].fits_depth(n) {
                return false;
            }
            k = k + 1;
        }
        assert(exprs_view(src@.subrange(k as int, src@.len() as int)) =~= Seq::<ExprV<L::V, P::V>>::empty());
        true
    }

    fn fits_matches(src: &Vec<(Self, P)>, n: usize) -> (b: bool)
        ensures
            b == depth_ok_matches(matches_view(src@), n as nat),
        decreases src,
    {
        let mut k: usize = 0;
        assert(src@.subrange(0, src@.len() as int) =~= src@);
        while k < src.len()
            invariant
                k <= src@.len(),
                depth_ok_matches(matches_view(src@.subrange(k as int, src@.len() as int)), n as nat) == depth_ok_matches(matches_view(src@), n as nat),
            decreases src.len() - k,
        {
            let ghost rest = src@.subrange(k as int, src@.len() as int);
            let ghost xs = matches_view(rest);
            proof {
                vstd::std_specs::vec::axiom_vec_index_decreases(*src, k as int);
                assert(rest[0] == src@[k as int]);
                assert(rest.subrange(1, rest.len() as int) =~= src@.subrange(k + 1, src@.len() as int));
                assert(xs.subrange(1, xs.len() as int) =~= matches_view(src@.subrange(k + 1, src@.len() as int)));
            }
            if !src[k].0.fits_depth(n) {
                return false;
            }
            k = k + 1;
        }
        assert(matches_view(src@.subrange(k as int, src@.len() as int)) =~= Seq::<(ExprV<L::V, P::V>, P::V)>::empty());
        true
    }

    /// Whether every bound variable's index is below `usize::MAX` (see
    /// `bvars_ok`).
    pub fn fits_bvars(&self) -> (b: bool)
        ensures
            b == bvars_ok(self@),
        decreases self,
    {
        match self {
            Expr::Var(_) => true,
            Expr::BVar(_, j) => *j < usize::MAX,
            Expr::LitExpr(_) => true,
            Expr::ReturnExpr(e) => (**e).fits_bvars(),
            Expr::PrefixExpr(_, e) => (**e).fits_bvars(),
            Expr::InfixExpr(_, e1, e2) => (**e1).fits_bvars() && (**e2).fits_bvars(),
            Expr::BlockExpr(_, es) => Self::bvars_vec(es),
            Expr::Let(_, e1, e2) => (**e1).fits_bvars() && (**e2).fits_bvars(),
            Expr::Iter(_, _, e1, e2, acc) => (**e1).fits_bvars() && (**e2).fits_bvars() && match acc { Some(x) => (**x).fits_bvars(), None => true },
            Expr::Closure(_, e) => (**e).fits_bvars(),
            Expr::IfExpr { cond, consequence, alternative } => (**cond).fits_bvars() && (**consequence).fits_bvars() && match alternative { Some(x) => (**x).fits_bvars(), None => true },
            Expr::IfMatchExpr { variables: _, matches, consequence, alternative } => Self::bvars_matches(matches) && (**consequence).fits_bvars() && match alternative { Some(x) => (**x).fits_bvars(), None => true },
            Expr::IfSomeMatchExpr { expr, consequence, alternative } => (**expr).fits_bvars() && (**consequence).fits_bvars() && match alternative { Some(x) => (**x).fits_bvars(), None => true },
            Expr::CallExpr { function: _, arguments, is_async: _ } => Self::bvars_vec(arguments),
        }
    }

    fn bvars_vec(src: &Vec<Self>) -> (b: bool)
        ensures
            b == bvars_ok_seq(exprs_view(src@)),
        decreases src,
    {
        let mut k: usize = 0;
        assert(src@.subrange(0, src@.len() as int) =~= src@);
        while k < src.len()
            invariant
                k <= src@.len(),
                bvars_ok_seq(exprs_view(src@.subrange(k as int, src@.len() as int))) == bvars_ok_seq(exprs_view(src@)),
            decreases src.len() - k,
        {
            let ghost rest = src@.subrange(k as int, src@.len() as int);
            let ghost xs = exprs_view(rest);
            proof {
                vstd::std_specs::vec::axiom_vec_index_decreases(*src, k as int);
                assert(rest[0] == src@[k as int]);
                assert(rest.subrange(1, rest.len() as int) =~= src@.subrange(k + 1, src@.len() as int));
                assert(xs.subrange(1, xs.len() as int) =~= exprs_view(src@.subrange(k + 1, src@.len() as int)));
            }
            if !src[k].fits_bvars() {
                return false;
            }
            k = k + 1;
        }
        assert(exprs_view(src@.subrange(k as int, src@.len() as int)) =~= Seq::<ExprV<L::V, P::V>>::empty());
        true
    }

    fn bvars_matches(src: &Vec<(Self, P)>) -> (b: bool)
        ensures
            b == bvars_ok_matches(matches_view(src@)),
        decreases src,
    {
        let mut k: usize = 0;
        assert(src@.subrange(0, src@.len() as int) =~= src@);
        while k < src.len()
            invariant
                k <= src@.len(),
                bvars_ok_matches(matches_view(src@.subrange(k as int, src@.len() as int))) == bvars_ok_matches(matches_view(src@)),
            decreases src.len() - k,
        {
            let ghost rest = src@.subrange(k as int, src@.len() as int);
            let ghost xs = matches_view(rest);
            proof {
                vstd::std_specs::vec::axiom_vec_index_decreases(*src, k as int);
                assert(rest[0] == src@[k as int]);
                assert(rest.subrange(1, rest.len() as int) =~= src@.subrange(k + 1, src@.len() as int));
                assert(xs.subrange(1, xs.len() as int) =~= matches_view(src@.subrange(k + 1, src@.len() as int)));
            }
            if !src[k].0.fits_bvars() {
                return false;
            }
            k = k + 1;
        }
        assert(matches_view(src@.subrange(k as int, src@.len() as int)) =~= Seq::<(ExprV<L::V, P::V>, P::V)>::empty());
        true
    }

    /// Whether every bound variable is `u` (counting enclosing closures).
    pub fn is_free(&self, u: usize) -> (b: bool)
        requires
            depth_ok(self@, u as nat),
        ensures
            b == free_v(self@, u as nat),
        decreases self,
    {
        match self {
            Expr::Var(_) => true,
            Expr::BVar(_, j) => *j == u,
            Expr::LitExpr(_) => true,
            Expr::ReturnExpr(e) => (**e).is_free(u),
            Expr::PrefixExpr(_, e) => (**e).is_free(u),
            Expr::InfixExpr(_, e1, e2) => (**e1).is_free(u) && (**e2).is_free(u),
            Expr::BlockExpr(_, es) => Self::free_vec(es, u),
            Expr::Let(_, e1, e2) => (**e1).is_free(u) && (**e2).is_free(u),
            Expr::Iter(_, _, e1, e2, acc) => (**e1).is_free(u) && (**e2).is_free(u) && match acc { Some(x) => (**x).is_free(u), None => true },
            Expr::Closure(_, e) => (**e).is_free(u + 1),
            Expr::IfExpr { cond, consequence, alternative } => (**cond).is_free(u) && (**consequence).is_free(u) && match alternative { Some(x) => (**x).is_free(u), None => true },
            Expr::IfMatchExpr { variables: _, matches, consequence, alternative } => Self::free_matches(matches, u) && (**consequence).is_free(u) && match alternative { Some(x) => (**x).is_free(u), None => true },
            Expr::IfSomeMatchExpr { expr, consequence, alternative } => (**expr).is_free(u) && (**consequence).is_free(u) && match alternative { Some(x) => (**x).is_free(u), None => true },
            Expr::CallExpr { function: _, arguments, is_async: _ } => Self::free_vec(arguments, u),
        }
    }

    fn free_vec(src: &Vec<Self>, u: usize) -> (b: bool)
        requires
            depth_ok_seq(exprs_view(src@), u as nat),
        ensures
            b == free_v_seq(exprs_view(src@), u as nat),
        decreases src,
    {
        let mut k: usize = 0;
        assert(src@.subrange(0, src@.len() as int) =~= src@);
        while k < src.len()
            invariant
                k <= src@.len(),
                free_v_seq(exprs_view(src@.subrange(k as int, src@.len() as int)), u as nat) == free_v_seq(exprs_view(src@), u as nat),
                depth_ok_seq(exprs_view(src@.subrange(k as int, src@.len() as int)), u as nat),
            decreases src.len() - k,
        {
            let ghost rest = src@.subrange(k as int, src@.len() as int);
            let ghost xs = exprs_view(rest);
            proof {
                vstd::std_specs::vec::axiom_vec_index_decreases(*src, k as int);
                assert(rest[0] == src@[k as int]);
                assert(rest.subrange(1, rest.len() as int) =~= src@.subrange(k + 1, src@.len() as int));
                assert(xs.subrange(1, xs.len() as int) =~= exprs_view(src@.subrange(k + 1, src@.len() as int)));
            }
            if !src[k].is_free(u) {
                return false;
            }
            k = k + 1;
        }
        true
    }

    fn free_matches(src: &Vec<(Self, P)>, u: usize) -> (b: bool)
        requires
            depth_ok_matches(matches_view(src@), u as nat),
        ensures
            b == free_v_matches(matches_view(src@), u as nat),
        decreases src,
    {
        let mut k: usize = 0;
        assert(src@.subrange(0, src@.len() as int) =~= src@);
        while k < src.len()
            invariant
                k <= src@.len(),
                free_v_matches(matches_view(src@.subrange(k as int, src@.len() as int)), u as nat) == free_v_matches(matches_view(src@), u as nat),
                depth_ok_matches(matches_view(src@.subrange(k as int, src@.len() as int)), u as nat),
            decreases src.len() - k,
        {
            let ghost rest = src@.subrange(k as int, src@.len() as int);
            let ghost xs = matches_view(rest);
            proof {
                vstd::std_specs::vec::axiom_vec_index_decreases(*src, k as int);
                assert(rest[0] == src@[k as int]);
                assert(rest.subrange(1, rest.len() as int) =~= src@.subrange(k + 1, src@.len() as int));
                assert(xs.subrange(1, xs.len() as int) =~= matches_view(src@.subrange(k + 1, src@.len() as int)));
            }
            if !src[k].0.is_free(u) {
                return false;
            }
            k = k + 1;
        }
        true
    }

    /// Shifts the free bound variables from `d` on one place out, unless
    /// `i` is 0 (see `shift_v`).
    pub fn shift(self, i: usize, d: usize) -> (r: Self)
        requires
            i != 0 ==> depth_ok(self@, d as nat) && bvars_ok(self@),
        ensures
            r@ == shift_v(self@, i as nat, d as nat),
    {
        if i == 0 {
            self
        } else {
            self.bump_exec(d)
        }
    }
}


impl<L: Dup, P: Dup> Expr<L, P> {
    /// Moves the free bound variables from `d` on one place out.
    fn bump_exec(self, d: usize) -> (r: Self)
        requires
            depth_ok(self@, d as nat),
            bvars_ok(self@),
        ensures
            r@ == bump(self@, d as nat),
        decreases self,
    {
        match self {
            Expr::Var(id) => Expr::Var(id),
            Expr::BVar(id, j) => if j >= d { Expr::BVar(id, j + 1) } else { Expr::BVar(id, j) },
            Expr::LitExpr(l) => Expr::LitExpr(l),
            Expr::ReturnExpr(e) => Expr::ReturnExpr(Box::new((*e).bump_exec(d))),
            Expr::PrefixExpr(p, e) => Expr::PrefixExpr(p, Box::new((*e).bump_exec(d))),
            Expr::InfixExpr(op, e1, e2) => Expr::InfixExpr(op, Box::new((*e1).bump_exec(d)), Box::new((*e2).bump_exec(d))),
            Expr::BlockExpr(b, es) => Expr::BlockExpr(b, Self::bump_exec_vec(es, d)),
            Expr::Let(vs, e1, e2) => Expr::Let(vs, Box::new((*e1).bump_exec(d)), Box::new((*e2).bump_exec(d))),
            Expr::Iter(it, vs, e1, e2, acc) => Expr::Iter(it, vs, Box::new((*e1).bump_exec(d)), Box::new((*e2).bump_exec(d)), match acc { Some(x) => Some(Box::new((*x).bump_exec(d))), None => None }),
            Expr::Closure(id, e) => Expr::Closure(id, Box::new((*e).bump_exec(d + 1))),
            Expr::IfExpr { cond, consequence, alternative } => Expr::IfExpr { cond: Box::new((*cond).bump_exec(d)), consequence: Box::new((*consequence).bump_exec(d)), alternative: match alternative { Some(x) => Some(Box::new((*x).bump_exec(d))), None => None } },
            Expr::IfMatchExpr { variables, matches, consequence, alternative } => Expr::IfMatchExpr { variables: variables, matches: Self::bump_exec_matches(matches, d), consequence: Box::new((*consequence).bump_exec(d)), alternative: match alternative { Some(x) => Some(Box::new((*x).bump_exec(d))), None => None } },
            Expr::IfSomeMatchExpr { expr, consequence, alternative } => Expr::IfSomeMatchExpr { expr: Box::new((*expr).bump_exec(d)), consequence: Box::new((*consequence).bump_exec(d)), alternative: match alternative { Some(x) => Some(Box::new((*x).bump_exec(d))), None => None } },
            Expr::CallExpr { function, arguments, is_async } => Expr::CallExpr { function: function, arguments: Self::bump_exec_vec(arguments, d), is_async: is_async },
        }
    }

    fn bump_exec_vec(src: Vec<Self>, d: usize) -> (r: Vec<Self>)
        requires
            depth_ok_seq(exprs_view(src@), d as nat),
            bvars_ok_seq(exprs_view(src@)),
        ensures
            exprs_view(r@) == bump_seq(exprs_view(src@), d as nat),
        decreases src,
    {
        let ghost orig = src;
        let mut es = src;
        let mut out: Vec<Self> = Vec::new();
        let ghost mut k: int = 0;
        assert(orig@.subrange(0, orig@.len() as int) =~= orig@);
        while es.len() > 0
            invariant
                orig == src,
                0 <= k <= orig@.len(),
                es@ == orig@.subrange(k, orig@.len() as int),
                exprs_view(out@) + bump_seq(exprs_view(es@), d as nat) == bump_seq(exprs_view(orig@), d as nat),
                depth_ok_seq(exprs_view(es@), d as nat),
                bvars_ok_seq(exprs_view(es@)),
            decreases es.len(),
        {
            let ghost rest = es@;
            let ghost xs = exprs_view(rest);
            let e = es.remove(0);
            proof {
                assert(e == orig@[k]);
                vstd::std_specs::vec::axiom_vec_index_decreases(orig, k);
                assert(es@ =~= rest.subrange(1, rest.len() as int));
                assert(es@ =~= orig@.subrange(k + 1, orig@.len() as int));
                assert(xs.subrange(1, xs.len() as int) =~= exprs_view(es@));
                k = k + 1;
            }
            let r = e.bump_exec(d);
            proof { lemma_exprs_view_push(out@, r); }
            out.push(r);
            assert(exprs_view(out@) + bump_seq(exprs_view(es@), d as nat) =~= bump_seq(exprs_view(orig@), d as nat));
        }
        assert(exprs_view(es@) =~= Seq::empty());
        assert(exprs_view(out@) =~= exprs_view(out@) + bump_seq(exprs_view(es@), d as nat));
        out
    }

    fn bump_exec_matches(src: Vec<(Self, P)>, d: usize) -> (r: Vec<(Self, P)>)
        requires
            depth_ok_matches(matches_view(src@), d as nat),
            bvars_ok_matches(matches_view(src@)),
        ensures
            matches_view(r@) == bump_matches(matches_view(src@), d as nat),
        decreases src,
    {
        let ghost orig = src;
        let mut es = src;
        let mut out: Vec<(Self, P)> = Vec::new();
        let ghost mut k: int = 0;
        assert(orig@.subrange(0, orig@.len() as int) =~= orig@);
        while es.len() > 0
            invariant
                orig == src,
                0 <= k <= orig@.len(),
                es@ == orig@.subrange(k, orig@.len() as int),
                matches_view(out@) + bump_matches(matches_view(es@), d as nat) == bump_matches(matches_view(orig@), d as nat),
                depth_ok_matches(matches_view(es@), d as nat),
                bvars_ok_matches(matches_view(es@)),
            decreases es.len(),
        {
            let ghost rest = es@;
            let ghost xs = matches_view(rest);
            let (e, p) = es.remove(0);
            proof {
                assert(e == orig@[k].0);
                vstd::std_specs::vec::axiom_vec_index_decreases(orig, k);
                assert(es@ =~= rest.subrange(1, rest.len() as int));
                assert(es@ =~= orig@.subrange(k + 1, orig@.len() as int));
                assert(xs.subrange(1, xs.len() as int) =~= matches_view(es@));
                k = k + 1;
            }
            let r = e.bump_exec(d);
            proof { lemma_matches_view_push(out@, (r, p)); }
            out.push((r, p));
            assert(matches_view(out@) + bump_matches(matches_view(es@), d as nat) =~= bump_matches(matches_view(orig@), d as nat));
        }
        assert(matches_view(es@) =~= Seq::empty());
        assert(matches_view(out@) =~= matches_view(out@) + bump_matches(matches_view(es@), d as nat));
        out
    }

    /// Substitutes `u` for the bound variable `i` (see `subst_v`).
    pub fn subst(self, i: usize, u: &Self) -> (r: Self)
        requires
            depth_ok(self@, i as nat),
            depth_ok(u@, 0),
            bvars_ok(u@),
        ensures
            r@ == subst_v(self@, i as nat, u@),
        decreases self,
    {
        match self {
            Expr::Var(id) => Expr::Var(id),
            Expr::BVar(id, j) => if j < i { Expr::BVar(id, j) } else if j == i { u.dup().shift(i, 0) } else { Expr::BVar(id, j - 1) },
            Expr::LitExpr(l) => Expr::LitExpr(l),
            Expr::ReturnExpr(e) => Expr::ReturnExpr(Box::new((*e).subst(i, u))),
            Expr::PrefixExpr(p, e) => Expr::PrefixExpr(p, Box::new((*e).subst(i, u))),
            Expr::InfixExpr(op, e1, e2) => Expr::InfixExpr(op, Box::new((*e1).subst(i, u)), Box::new((*e2).subst(i, u))),
            Expr::BlockExpr(b, es) => Expr::BlockExpr(b, Self::subst_vec(es, i, u)),
            Expr::Let(vs, e1, e2) => Expr::Let(vs, Box::new((*e1).subst(i, u)), Box::new((*e2).subst(i, u))),
            Expr::Iter(it, vs, e1, e2, acc) => Expr::Iter(it, vs, Box::new((*e1).subst(i, u)), Box::new((*e2).subst(i, u)), match acc { Some(x) => Some(Box::new((*x).subst(i, u))), None => None }),
            Expr::Closure(id, e) => Expr::Closure(id, Box::new((*e).subst(i + 1, u))),
            Expr::IfExpr { cond, consequence, alternative } => Expr::IfExpr { cond: Box::new((*cond).subst(i, u)), consequence: Box::new((*consequence).subst(i, u)), alternative: match alternative { Some(x) => Some(Box::new((*x).subst(i, u))), None => None } },
            Expr::IfMatchExpr { variables, matches, consequence, alternative } => Expr::IfMatchExpr { variables: variables, matches: Self::subst_matches(matches, i, u), consequence: Box::new((*consequence).subst(i, u)), alternative: match alternative { Some(x) => Some(Box::new((*x).subst(i, u))), None => None } },
            Expr::IfSomeMatchExpr { expr, consequence, alternative } => Expr::IfSomeMatchExpr { expr: Box::new((*expr).subst(i, u)), consequence: Box::new((*consequence).subst(i, u)), alternative: match alternative { Some(x) => Some(Box::new((*x).subst(i, u))), None => None } },
            Expr::CallExpr { function, arguments, is_async } => Expr::CallExpr { function: function, arguments: Self::subst_vec(arguments, i, u), is_async: is_async },
        }
    }

    fn subst_vec(src: Vec<Self>, i: usize, u: &Self) -> (r: Vec<Self>)
        requires
            depth_ok_seq(exprs_view(src@), i as nat),
            depth_ok(u@, 0),
            bvars_ok(u@),
        ensures
            exprs_view(r@) == subst_v_seq(exprs_view(src@), i as nat, u@),
        decreases src,
    {
        let ghost orig = src;
        let mut es = src;
        let mut out: Vec<Self> = Vec::new();
        let ghost mut k: int = 0;
        assert(orig@.subrange(0, orig@.len() as int) =~= orig@);
        while es.len() > 0
            invariant
                orig == src,
                0 <= k <= orig@.len(),
                es@ == orig@.subrange(k, orig@.len() as int),
                exprs_view(out@) + subst_v_seq(exprs_view(es@), i as nat, u@) == subst_v_seq(exprs_view(orig@), i as nat, u@),
                depth_ok_seq(exprs_view(es@), i as nat),
                depth_ok(u@, 0),
                bvars_ok(u@),
            decreases es.len(),
        {
            let ghost rest = es@;
            let ghost xs = exprs_view(rest);
            let e = es.remove(0);
            proof {
                assert(e == orig@[k]);
                vstd::std_specs::vec::axiom_vec_index_decreases(orig, k);
                assert(es@ =~= rest.subrange(1, rest.len() as int));
                assert(es@ =~= orig@.subrange(k + 1, orig@.len() as int));
                assert(xs.subrange(1, xs.len() as int) =~= exprs_view(es@));
                k = k + 1;
            }
            let r = e.subst(i, u);
            proof { lemma_exprs_view_push(out@, r); }
            out.push(r);
            assert(exprs_view(out@) + subst_v_seq(exprs_view(es@), i as nat, u@) =~= subst_v_seq(exprs_view(orig@), i as nat, u@));
        }
        assert(exprs_view(es@) =~= Seq::empty());
        assert(exprs_view(out@) =~= exprs_view(out@) + subst_v_seq(exprs_view(es@), i as nat, u@));
        out
    }

    fn subst_matches(src: Vec<(Self, P)>, i: usize, u: &Self) -> (r: Vec<(Self, P)>)
        requires
            depth_ok_matches(matches_view(src@), i as nat),
            depth_ok(u@, 0),
            bvars_ok(u@),
        ensures
            matches_view(r@) == subst_v_matches(matches_view(src@), i as nat, u@),
        decreases src,
    {
        let ghost orig = src;
        let mut es = src;
        let mut out: Vec<(Self, P)> = Vec::new();
        let ghost mut k: int = 0;
        assert(orig@.subrange(0, orig@.len() as int) =~= orig@);
        while es.len() > 0
            invariant
                orig == src,
                0 <= k <= orig@.len(),
                es@ == orig@.subrange(k, orig@.len() as int),
                matches_view(out@) + subst_v_matches(matches_view(es@), i as nat, u@) == subst_v_matches(matches_view(orig@), i as nat, u@),
                depth_ok_matches(matches_view(es@), i as nat),
                depth_ok(u@, 0),
                bvars_ok(u@),
            decreases es.len(),
        {
            let ghost rest = es@;
            let ghost xs = matches_view(rest);
            let (e, p) = es.remove(0);
            proof {
                assert(e == orig@[k].0);
                vstd::std_specs::vec::axiom_vec_index_decreases(orig, k);
                assert(es@ =~= rest.subrange(1, rest.len() as int));
                assert(es@ =~= orig@.subrange(k + 1, orig@.len() as int));
                assert(xs.subrange(1, xs.len() as int) =~= matches_view(es@));
                k = k + 1;
            }
            let r = e.subst(i, u);
            proof { lemma_matches_view_push(out@, (r, p)); }
            out.push((r, p));
            assert(matches_view(out@) + subst_v_matches(matches_view(es@), i as nat, u@) =~= subst_v_matches(matches_view(orig@), i as nat, u@));
        }
        assert(matches_view(es@) =~= Seq::empty());
        assert(matches_view(out@) =~= matches_view(out@) + subst_v_matches(matches_view(es@), i as nat, u@));
        out
    }

    /// Makes the free variable `v` the bound variable `i` (see `abs_v`).
    pub fn abs(self, i: usize, v: &str) -> (r: Self)
        requires
            depth_ok(self@, i as nat),
        ensures
            r@ == abs_v(self@, i as nat, v@),
        decreases self,
    {
        match self {
            Expr::Var(id) => if str_eq(id.0.as_str(), v) { Expr::BVar(id, i) } else { Expr::Var(id) },
            Expr::BVar(id, j) => Expr::BVar(id, j),
            Expr::LitExpr(l) => Expr::LitExpr(l),
            Expr::ReturnExpr(e) => Expr::ReturnExpr(Box::new((*e).abs(i, v))),
            Expr::PrefixExpr(p, e) => Expr::PrefixExpr(p, Box::new((*e).abs(i, v))),
            Expr::InfixExpr(op, e1, e2) => Expr::InfixExpr(op, Box::new((*e1).abs(i, v)), Box::new((*e2).abs(i, v))),
            Expr::BlockExpr(b, es) => Expr::BlockExpr(b, Self::abs_vec(es, i, v)),
            Expr::Let(vs, e1, e2) => Expr::Let(vs, Box::new((*e1).abs(i, v)), Box::new((*e2).abs(i, v))),
            Expr::Iter(it, vs, e1, e2, acc) => Expr::Iter(it, vs, Box::new((*e1).abs(i, v)), Box::new((*e2).abs(i, v)), match acc { Some(x) => Some(Box::new((*x).abs(i, v))), None => None }),
            Expr::Closure(id, e) => Expr::Closure(id, Box::new((*e).abs(i + 1, v))),
            Expr::IfExpr { cond, consequence, alternative } => Expr::IfExpr { cond: Box::new((*cond).abs(i, v)), consequence: Box::new((*consequence).abs(i, v)), alternative: match alternative { Some(x) => Some(Box::new((*x).abs(i, v))), None => None } },
            Expr::IfMatchExpr { variables, matches, consequence, alternative } => Expr::IfMatchExpr { variables: variables, matches: Self::abs_matches(matches, i, v), consequence: Box::new((*consequence).abs(i, v)), alternative: match alternative { Some(x) => Some(Box::new((*x).abs(i, v))), None => None } },
            Expr::IfSomeMatchExpr { expr, consequence, alternative } => Expr::IfSomeMatchExpr { expr: Box::new((*expr).abs(i, v)), consequence: Box::new((*consequence).abs(i, v)), alternative: match alternative { Some(x) => Some(Box::new((*x).abs(i, v))), None => None } },
            Expr::CallExpr { function, arguments, is_async } => Expr::CallExpr { function: function, arguments: Self::abs_vec(arguments, i, v), is_async: is_async },
        }
    }

    fn abs_vec(src: Vec<Self>, i: usize, v: &str) -> (r: Vec<Self>)
        requires
            depth_ok_seq(exprs_view(src@), i as nat),
        ensures
            exprs_view(r@) == abs_v_seq(exprs_view(src@), i as nat, v@),
        decreases src,
    {
        let ghost orig = src;
        let mut es = src;
        let mut out: Vec<Self> = Vec::new();
        let ghost mut k: int = 0;
        assert(orig@.subrange(0, orig@.len() as int) =~= orig@);
        while es.len() > 0
            invariant
                orig == src,
                0 <= k <= orig@.len(),
                es@ == orig@.subrange(k, orig@.len() as int),
                exprs_view(out@) + abs_v_seq(exprs_view(es@), i as nat, v@) == abs_v_seq(exprs_view(orig@), i as nat, v@),
                depth_ok_seq(exprs_view(es@), i as nat),
            decreases es.len(),
        {
            let ghost rest = es@;
            let ghost xs = exprs_view(rest);
            let e = es.remove(0);
            proof {
                assert(e == orig@[k]);
                vstd::std_specs::vec::axiom_vec_index_decreases(orig, k);
                assert(es@ =~= rest.subrange(1, rest.len() as int));
                assert(es@ =~= orig@.subrange(k + 1, orig@.len() as int));
                assert(xs.subrange(1, xs.len() as int) =~= exprs_view(es@));
                k = k + 1;
            }
            let r = e.abs(i, v);
            proof { lemma_exprs_view_push(out@, r); }
            out.push(r);
            assert(exprs_view(out@) + abs_v_seq(exprs_view(es@), i as nat, v@) =~= abs_v_seq(exprs_view(orig@), i as nat, v@));
        }
        assert(exprs_view(es@) =~= Seq::empty());
        assert(exprs_view(out@) =~= exprs_view(out@) + abs_v_seq(exprs_view(es@), i as nat, v@));
        out
    }

    fn abs_matches(src: Vec<(Self, P)>, i: usize, v: &str) -> (r: Vec<(Self, P)>)
        requires
            depth_ok_matches(matches_view(src@), i as nat),
        ensures
            matches_view(r@) == abs_v_matches(matches_view(src@), i as nat, v@),
        decreases src,
    {
        let ghost orig = src;
        let mut es = src;
        let mut out: Vec<(Self, P)> = Vec::new();
        let ghost mut k: int = 0;
        assert(orig@.subrange(0, orig@.len() as int) =~= orig@);
        while es.len() > 0
            invariant
                orig == src,
                0 <= k <= orig@.len(),
                es@ == orig@.subrange(k, orig@.len() as int),
                matches_view(out@) + abs_v_matches(matches_view(es@), i as nat, v@) == abs_v_matches(matches_view(orig@), i as nat, v@),
                depth_ok_matches(matches_view(es@), i as nat),
            decreases es.len(),
        {
            let ghost rest = es@;
            let ghost xs = matches_view(rest);
            let (e, p) = es.remove(0);
            proof {
                assert(e == orig@[k].0);
                vstd::std_specs::vec::axiom_vec_index_decreases(orig, k);
                assert(es@ =~= rest.subrange(1, rest.len() as int));
                assert(es@ =~= orig@.subrange(k + 1, orig@.len() as int));
                assert(xs.subrange(1, xs.len() as int) =~= matches_view(es@));
                k = k + 1;
            }
            let r = e.abs(i, v);
            proof { lemma_matches_view_push(out@, (r, p)); }
            out.push((r, p));
            assert(matches_view(out@) + abs_v_matches(matches_view(es@), i as nat, v@) =~= abs_v_matches(matches_view(orig@), i as nat, v@));
        }
        assert(matches_view(es@) =~= Seq::empty());
        assert(matches_view(out@) =~= matches_view(out@) + abs_v_matches(matches_view(es@), i as nat, v@));
        out
    }

}

} // verus!
