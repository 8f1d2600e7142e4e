//! The type checker: turns parsed expressions, blocks and functions into
//! expressions of the interpreter, working out and checking their types,
//! and collecting the functions they call.
//!
//! Checking threads the type of `return` (the first `return` sets it,
//! the later ones are checked against it) from left to right through the
//! checked parts, as the spec functions' `Option<TypV>` argument and
//! result.

use vstd::prelude::*;
use crate::lexer::Loc;
use crate::labels::label_vars;
use crate::literals::{lit_typ, LitV};
use crate::parser::{
    Prefix, Infix, Iter, As, PatV, TypSV, ExprSV, LocExprSV, StmtSV, LocStmtSV, BlockSV, PatternSV, strip_as_spec,
    pat_valid, anchored_regex, join_sep, iter_text,
};
use crate::regexes::{regex_compiles, regex_group_names};
use crate::types::{FlatTyp, TFlatTyp, TypV, ErrorV, SigV, ret_t, flat_t, unify_spec, type_check_spec, dest_option_spec, typ_text};
use crate::headers::{headers_typ, resolve_spec, dot_prefix};
use crate::expressions::{ExprV, Block, closure_v, closures_v, let_v, iter_v, depth_ok};
use crate::evaluate::{EV, PatternV};
use crate::text::{nat_decimal, usize_parse, push_str, u64_to_string};
use crate::types::{Typ, LocType, loc_types_view, Error as TypeError};
use crate::strmap::{StrMap, Dup};
use crate::expressions::{Error, exprs_view};
use crate::evaluate::Exp;
use crate::parser::{unfolds, lemma_unfolds_map, Expr as PExpr, LocExpr, BlockStmt, lemma_loc_exprs_sv, lemma_loc_stmts_sv};
use crate::headers::Headers;
use crate::expressions::{lemma_exprs_view_push, lemma_matches_view_push, matches_view};
use crate::parser::{Pattern as PPattern, Pat, PolicyRegex, lemma_match_arms_sv, match_arms_sv};
use crate::regexes::{group_names, opt_texts};
use crate::evaluate::Pattern;
use crate::text::{str_eq, starts_with, parse_usize};
use crate::parser::{LocIdent, Stmt, LocStmt};

verus! {

/// Types of the data plane.
pub type T = TypV<FlatTyp>;

/// Model of a checking context: the types of the variables in scope, and
/// whether the code runs in an `async` block.
pub struct CtxV {
    pub vars: Map<Seq<char>, T>,
    pub async_tag: bool,
}

/// Model of a checked expression: the expression, the functions it calls
/// (with where), and its type.
pub struct CheckedV {
    pub expr: EV,
    pub calls: Seq<(Loc, Seq<char>)>,
    pub typ: T,
}

/// The type of `return` after checking, and what checking gave.
pub type Tc = (Option<T>, Result<CheckedV, Seq<char>>);

/// A context with one more variable.
pub open spec fn add_var(c: CtxV, v: Seq<char>, t: T) -> CtxV {
    CtxV { vars: c.vars.insert(v, t), async_tag: c.async_tag }
}

/// A context with variables added in order.
pub open spec fn add_vars(c: CtxV, vs: Seq<Seq<char>>, ts: Seq<T>) -> CtxV
    decreases vs.len(),
{
    if vs.len() == 0 || ts.len() == 0 {
        c
    } else {
        add_vars(add_var(c, vs[0], ts[0]), vs.drop_first(), ts.drop_first())
    }
}

/// A context inside a block marked (or not) `async`.
pub open spec fn with_async(c: CtxV, a: bool) -> CtxV {
    CtxV { vars: c.vars, async_tag: c.async_tag || a }
}

/// `line L, column C`.
pub open spec fn loc_text(l: Loc) -> Seq<char> {
    "line "@ + nat_decimal(l.0 as nat) + ", column "@ + nat_decimal(l.1 as nat)
}

/// ` on <place>` and a line break, or a line break.
pub open spec fn on_text(o: Option<Loc>) -> Seq<char> {
    match o {
        Some(l) => " on "@ + loc_text(l) + "\n"@,
        None => "\n"@,
    }
}

/// The message of a type error.
pub open spec fn type_error_text<F: TFlatTyp>(e: ErrorV<F>) -> Seq<char> {
    match e {
        ErrorV::Parse(s) => "expecting type, got "@ + s + "\n"@,
        ErrorV::Args(s, i, j) => "type error in \""@ + s + "\": expecting "@ + nat_decimal(j) + " value(s), got "@
            + nat_decimal(i) + "\n"@,
        ErrorV::Mismatch(s, a, b) => "type error in \""@ + s + "\".\nmismatch:\n> "@ + typ_text(a.1) + on_text(a.0) + "< "@
            + typ_text(b.1) + on_text(b.0),
        ErrorV::Dest => "expecting Option<..> type"@,
    }
}

/// Type checking as a message: `None` when the types agree.
pub open spec fn check(s: Seq<char>, v1: Seq<(Option<Loc>, T)>, v2: Seq<(Option<Loc>, T)>) -> Option<Seq<char>> {
    match type_check_spec(s, v1, v2) {
        Ok(()) => None,
        Err(e) => Some(type_error_text(e)),
    }
}

/// The types of a prefix operator's operand and result.
pub open spec fn prefix_typ(p: Prefix) -> (T, T) {
    match p {
        Prefix::Not => (flat_t::<FlatTyp>(FlatTyp::Bool), flat_t::<FlatTyp>(FlatTyp::Bool)),
        Prefix::Minus => (flat_t::<FlatTyp>(FlatTyp::I64), flat_t::<FlatTyp>(FlatTyp::I64)),
    }
}

/// The types of an infix operator's operands and result (`return` where
/// any type goes); `None` for `::` and `.`, which are no operators of
/// expressions.
pub open spec fn infix_typ(op: Infix) -> Option<(T, T, T)> {
    let r = ret_t::<FlatTyp>();
    let b = flat_t::<FlatTyp>(FlatTyp::Bool);
    let i = flat_t::<FlatTyp>(FlatTyp::I64);
    let s = flat_t::<FlatTyp>(FlatTyp::Str);
    let l = TypV::List(Box::new(r));
    match op {
        Infix::Concat => Some((l, l, l)),
        Infix::ConcatStr => Some((s, s, s)),
        Infix::Equal | Infix::NotEqual => Some((r, r, b)),
        Infix::In => Some((r, l, b)),
        Infix::And | Infix::Or => Some((b, b, b)),
        Infix::Divide | Infix::Remainder | Infix::Minus | Infix::Plus | Infix::Multiply => Some((i, i, i)),
        Infix::GreaterThan | Infix::GreaterThanEqual | Infix::LessThan | Infix::LessThanEqual => Some((i, i, b)),
        Infix::Module | Infix::Dot => None,
    }
}

/// The type that a `matches` pattern applies to.
pub open spec fn pattern_typ(p: PatternSV) -> T {
    match p {
        PatternSV::Regex(_) => flat_t::<FlatTyp>(FlatTyp::Str),
        PatternSV::Label(_) => flat_t::<FlatTyp>(FlatTyp::Label),
    }
}

/// The type of a named part of a pattern.
pub open spec fn as_typ(a: As) -> T {
    match a {
        As::I64 => flat_t::<FlatTyp>(FlatTyp::I64),
        As::Base64 => flat_t::<FlatTyp>(FlatTyp::Data),
        As::Str => flat_t::<FlatTyp>(FlatTyp::Str),
    }
}

/// Where a block starts: its first statement, else `default`.
pub open spec fn block_loc(b: BlockSV, default: Loc) -> Loc {
    if b.statements.len() > 0 { b.statements[0].0 } else { default }
}

/// The error for closures nested beyond what the interpreter counts.
pub open spec fn too_deep(l: Loc) -> Seq<char> {
    "expression nested too deeply at "@ + loc_text(l)
}

/// A successful check.
pub open spec fn ok(ret: Option<T>, expr: EV, calls: Seq<(Loc, Seq<char>)>, typ: T) -> Tc {
    (ret, Ok(CheckedV { expr, calls, typ }))
}

/// The functions called by a list of checked expressions.
pub open spec fn calls_of(xs: Seq<CheckedV>) -> Seq<(Loc, Seq<char>)>
    decreases xs.len(),
{
    if xs.len() == 0 { Seq::empty() } else { calls_of(xs.drop_last()) + xs.last().calls }
}

/// The expressions of a list of checked expressions.
pub open spec fn exprs_of(xs: Seq<CheckedV>) -> Seq<EV> {
    xs.map_values(|x: CheckedV| x.expr)
}

/// The types of a list of checked expressions.
pub open spec fn typs_of(xs: Seq<CheckedV>) -> Seq<T> {
    xs.map_values(|x: CheckedV| x.typ)
}

/// Checked types with the places of the expressions they come from.
pub open spec fn located(es: Seq<LocExprSV>, ts: Seq<T>) -> Seq<(Option<Loc>, T)> {
    Seq::new(ts.len(), |k: int| (Some(es[k].0), ts[k]))
}

/// Types without places.
pub open spec fn unlocated(ts: Seq<T>) -> Seq<(Option<Loc>, T)> {
    ts.map_values(|t: T| (None::<Loc>, t))
}

/// The variables named by the patterns of `matches` arms, with how each
/// is read, gathered from arm `i` on; `Err` for a pattern that does not
/// compile and for a variable named twice.
pub open spec fn arm_vars(ms: Seq<(LocExprSV, PatternSV)>, i: int, vars: Seq<(Seq<char>, As)>) -> Result<Seq<(Seq<char>, As)>, Seq<char>>
    decreases ms.len() - i,
{
    if i < 0 || i >= ms.len() {
        Ok(vars)
    } else {
        let l = ms[i].0.0;
        match ms[i].1 {
            PatternSV::Regex(p) => if !(pat_valid(p) && regex_compiles(anchored_regex(p))) {
                Err("invalid regular expression at "@ + loc_text(l))
            } else {
                match group_vars(regex_group_names(anchored_regex(p)), 0, vars, l) {
                    Ok(vs) => arm_vars(ms, i + 1, vs),
                    Err(m) => Err(m),
                }
            },
            PatternSV::Label(lb) => match label_vars_into(label_vars(lb), 0, vars, l) {
                Ok(vs) => arm_vars(ms, i + 1, vs),
                Err(m) => Err(m),
            },
        }
    }
}

/// Whether a variable is already among those gathered.
pub open spec fn has_var(vars: Seq<(Seq<char>, As)>, k: Seq<char>) -> bool {
    exists|j: int| 0 <= j < vars.len() && (#[trigger] vars[j]).0 == k
}

/// The named groups of a regular expression added, from group `j` on.
pub open spec fn group_vars(names: Seq<Option<Seq<char>>>, j: int, vars: Seq<(Seq<char>, As)>, l: Loc) -> Result<Seq<(Seq<char>, As)>, Seq<char>>
    decreases names.len() - j,
{
    if j < 0 || j >= names.len() {
        Ok(vars)
    } else {
        match names[j] {
            Some(x) => {
                let (k, a) = strip_as_spec(x);
                if has_var(vars, k) {
                    Err(loc_text(l) + ": repeated variable \""@ + k + "\"\" in \"if match\""@)
                } else {
                    group_vars(names, j + 1, vars.push((k, a)), l)
                }
            },
            None => group_vars(names, j + 1, vars, l),
        }
    }
}

/// The variables of a label added, from the `j`-th on.
pub open spec fn label_vars_into(xs: Seq<Seq<char>>, j: int, vars: Seq<(Seq<char>, As)>, l: Loc) -> Result<Seq<(Seq<char>, As)>, Seq<char>>
    decreases xs.len() - j,
{
    if j < 0 || j >= xs.len() {
        Ok(vars)
    } else if has_var(vars, xs[j]) {
        Err(loc_text(l) + ": repeated variable \""@ + xs[j] + "\" in \"if match\""@)
    } else {
        label_vars_into(xs, j + 1, vars.push((xs[j], As::Str)), l)
    }
}

/// The compiled patterns of `matches` arms.
pub open spec fn arm_patterns(ms: Seq<(LocExprSV, PatternSV)>) -> Seq<PatternV> {
    ms.map_values(|m: (LocExprSV, PatternSV)| match m.1 {
        PatternSV::Regex(p) => PatternV::Regex(p, anchored_regex(p)),
        PatternSV::Label(lb) => PatternV::Label(lb),
    })
}

/// The variables bound by an iteration over a value of type `t`.
pub open spec fn iter_ctx(c: CtxV, ids: Seq<(Loc, Seq<char>)>, t: T) -> Option<CtxV> {
    match t {
        TypV::List(lty) => if ids.len() == 1 {
            Some(add_var(c, ids[0].1, *lty))
        } else {
            match *lty {
                TypV::Tuple(tys) => if ids.len() == tys.len() {
                    Some(add_vars(c, ids.map_values(|i: (Loc, Seq<char>)| i.1), tys))
                } else {
                    None
                },
                _ => None,
            }
        },
        _ => None,
    }
}

/// The names of identifiers.
pub open spec fn names(ids: Seq<(Loc, Seq<char>)>) -> Seq<Seq<char>> {
    ids.map_values(|i: (Loc, Seq<char>)| i.1)
}

/// The type of an iteration without accumulator, by its iterator, from
/// the type of what it runs over and of its body.
pub open spec fn iter_typ(op: Iter, t1: T, t2: T) -> Option<T> {
    match op {
        Iter::All | Iter::Any => Some(flat_t::<FlatTyp>(FlatTyp::Bool)),
        Iter::Filter => Some(t1),
        Iter::FilterMap => match dest_option_spec(t2) {
            Ok(t) => Some(TypV::List(Box::new(t))),
            Err(_) => None,
        },
        Iter::ForEach => Some(flat_t::<FlatTyp>(FlatTyp::Unit)),
        Iter::Fold => None,
        Iter::MapEach => Some(TypV::List(Box::new(t2))),
    }
}

/// The check of an iteration's body type, by its iterator.
pub open spec fn body_check(op: Iter, loc: Loc, t2: T) -> Option<Seq<char>> {
    if op == Iter::FilterMap {
        check("filter_map-expression"@, seq![(Some(loc), t2)], seq![(None, TypV::Tuple(Seq::empty()))])
    } else if op != Iter::MapEach && op != Iter::ForEach && op != Iter::Fold {
        check("all/any/filter-expression"@, seq![(Some(loc), t2)], seq![(None, flat_t::<FlatTyp>(FlatTyp::Bool))])
    } else {
        None
    }
}

/// The result type of a call of a declared function (some built-ins work
/// out theirs from the arguments).
pub open spec fn call_typ(f: Seq<char>, types: Seq<T>, declared: T) -> Option<T> {
    if f == "list::reduce"@ {
        if types.len() > 0 && types[0] is List {
            Some(TypV::Tuple(seq![*types[0]->List_0]))
        } else {
            None
        }
    } else if f == "list::difference"@ || f == "list::intersection"@ {
        if types.len() > 0 { Some(types[0]) } else { None }
    } else {
        Some(declared)
    }
}

/// Checking an expression at place `l`.
#[verifier::opaque]
pub open spec fn tc_e(l: Loc, e: ExprSV, h: Map<Seq<char>, SigV<FlatTyp>>, ret: Option<T>, c: CtxV) -> Tc
    decreases e, 1int,
{
    match e {
        ExprSV::IdentExpr(id) => if c.vars.contains_key(id) {
            ok(ret, ExprV::Var(id), Seq::empty(), c.vars[id])
        } else {
            (ret, Err("undeclared variable \""@ + id + "\" at "@ + loc_text(l)))
        },
        ExprSV::LitExpr(lit) => ok(ret, ExprV::LitExpr(lit), Seq::empty(), lit_typ(lit)),
        ExprSV::ListExpr(es) => tc_list(es, 0, h, ret, c, Seq::empty(), Seq::empty(), ret_t::<FlatTyp>()),
        ExprSV::TupleExpr(es) => match tc_all(es, 0, h, ret, c) {
            (r, Ok(xs)) => ok(r, ExprV::BlockExpr(Block::Tuple, exprs_of(xs)), calls_of(xs), TypV::Tuple(typs_of(xs))),
            (r, Err(m)) => (r, Err(m)),
        },
        ExprSV::PrefixExpr(..) => tc_prefix(l, e, h, ret, c),
        ExprSV::InfixExpr(..) => tc_infix(l, e, h, ret, c),
        ExprSV::IfExpr { .. } => tc_if(l, e, h, ret, c),
        ExprSV::IfSomeMatchExpr { .. } => tc_if_some(l, e, h, ret, c),
        ExprSV::IfMatchExpr { .. } => tc_if_match(l, e, h, ret, c),
        ExprSV::IterExpr { .. } => tc_iter(l, e, h, ret, c),
        ExprSV::CallExpr { .. } => tc_call(l, e, h, ret, c),
    }
}

/// Checking a prefix operation.
#[verifier::opaque]
pub open spec fn tc_prefix(l: Loc, e: ExprSV, h: Map<Seq<char>, SigV<FlatTyp>>, ret: Option<T>, c: CtxV) -> Tc
    decreases e, 0int,
{
    match e {
        ExprSV::PrefixExpr(p, b) => match tc_e(b.0, b.1, h, ret, c) {
            (r, Ok(x)) => match check("prefix"@, seq![(Some(b.0), x.typ)], seq![(None, prefix_typ(p).0)]) {
                Some(m) => (r, Err(m)),
                None => ok(r, ExprV::PrefixExpr(p, Box::new(x.expr)), x.calls, prefix_typ(p).1),
            },
            (r, Err(m)) => (r, Err(m)),
        },
        _ => (ret, Err(Seq::empty())),
    }
}

/// Checking an infix operation.
#[verifier::opaque]
pub open spec fn tc_infix(l: Loc, e: ExprSV, h: Map<Seq<char>, SigV<FlatTyp>>, ret: Option<T>, c: CtxV) -> Tc
    decreases e, 0int,
{
    match e {
        ExprSV::InfixExpr(op, a, b) => match tc_e(a.0, a.1, h, ret, c) {
            (r1, Ok(x1)) => match tc_e(b.0, b.1, h, r1, c) {
                (r2, Ok(x2)) => match infix_typ(op) {
                    Some((t1, t2, typ)) => {
                        let r = ret_t::<FlatTyp>();
                        let chk = if t1 == r {
                            if t2 == r {
                                check("equality/inequality/concat"@, seq![(Some(a.0), x1.typ)], seq![(Some(b.0), x2.typ)])
                            } else {
                                check("in"@, seq![(Some(a.0), TypV::List(Box::new(x1.typ)))], seq![(Some(b.0), x2.typ)])
                            }
                        } else {
                            check("infix"@, seq![(Some(a.0), x1.typ), (Some(b.0), x2.typ)], seq![(None, t1), (None, t2)])
                        };
                        match chk {
                            Some(m) => (r2, Err(m)),
                            None => ok(r2, ExprV::InfixExpr(op, Box::new(x1.expr), Box::new(x2.expr)), x1.calls + x2.calls, typ),
                        }
                    },
                    None => (r2, Err("unexpected \"::\" at "@ + loc_text(l))),
                },
                (r2, Err(m)) => (r2, Err(m)),
            },
            (r1, Err(m)) => (r1, Err(m)),
        },
        _ => (ret, Err(Seq::empty())),
    }
}

/// Checking `if`.
#[verifier::opaque]
pub open spec fn tc_if(l: Loc, e: ExprSV, h: Map<Seq<char>, SigV<FlatTyp>>, ret: Option<T>, c: CtxV) -> Tc
    decreases e, 0int,
{
    match e {
        ExprSV::IfExpr { cond, consequence, alternative } => match tc_e(cond.0, cond.1, h, ret, c) {
            (r1, Ok(x1)) => match tc_block(consequence, h, r1, c) {
                (r2, Ok(x2)) => match alternative {
                    None => match check(
                        "if-expression"@,
                        seq![(Some(cond.0), x1.typ), (Some(block_loc(consequence, l)), x2.typ)],
                        seq![(None, flat_t::<FlatTyp>(FlatTyp::Bool)), (None, flat_t::<FlatTyp>(FlatTyp::Unit))],
                    ) {
                        Some(m) => (r2, Err(m)),
                        None => ok(
                            r2,
                            ExprV::IfExpr { cond: Box::new(x1.expr), consequence: Box::new(x2.expr), alternative: None },
                            x1.calls + x2.calls,
                            flat_t::<FlatTyp>(FlatTyp::Unit),
                        ),
                    },
                    Some(alt) => match tc_block(alt, h, r2, c) {
                        (r3, Ok(x3)) => match check(
                            "if-else-expression"@,
                            seq![(Some(cond.0), x1.typ), (Some(block_loc(consequence, l)), x2.typ)],
                            seq![(None, flat_t::<FlatTyp>(FlatTyp::Bool)), (Some(block_loc(alt, l)), x3.typ)],
                        ) {
                            Some(m) => (r3, Err(m)),
                            None => ok(
                                r3,
                                ExprV::IfExpr {
                                    cond: Box::new(x1.expr),
                                    consequence: Box::new(x2.expr),
                                    alternative: Some(Box::new(x3.expr)),
                                },
                                x1.calls + x2.calls + x3.calls,
                                unify_spec(x2.typ, x3.typ),
                            ),
                        },
                        (r3, Err(m)) => (r3, Err(m)),
                    },
                },
                (r2, Err(m)) => (r2, Err(m)),
            },
            (r1, Err(m)) => (r1, Err(m)),
        },
        _ => (ret, Err(Seq::empty())),
    }
}

/// Checking `if let Some(x) = e`.
#[verifier::opaque]
pub open spec fn tc_if_some(l: Loc, e: ExprSV, h: Map<Seq<char>, SigV<FlatTyp>>, ret: Option<T>, c: CtxV) -> Tc
    decreases e, 0int,
{
    match e {
        ExprSV::IfSomeMatchExpr { var, expr, consequence, alternative } => match tc_e(expr.0, expr.1, h, ret, c) {
            (r1, Ok(x1)) => match dest_option_spec(x1.typ) {
                Ok(t) => match tc_block(consequence, h, r1, add_var(c, var.1, t)) {
                    (r2, Ok(x2)) => match alternative {
                        None => match check("if-let-expression"@, seq![(Some(block_loc(consequence, l)), x2.typ)], seq![(None, flat_t::<FlatTyp>(FlatTyp::Unit))]) {
                            Some(m) => (r2, Err(m)),
                            None => if !depth_ok(x2.expr, 0) { (r2, Err(too_deep(l))) } else { ok(
                                r2,
                                ExprV::IfSomeMatchExpr {
                                    expr: Box::new(x1.expr),
                                    consequence: Box::new(closure_v(x2.expr, var.1)),
                                    alternative: None,
                                },
                                x1.calls + x2.calls,
                                flat_t::<FlatTyp>(FlatTyp::Unit),
                            ) },
                        },
                        Some(alt) => match tc_block(alt, h, r2, c) {
                            (r3, Ok(x3)) => match check("if-let-else-expression"@, seq![(Some(block_loc(consequence, l)), x2.typ)], seq![(Some(block_loc(alt, l)), x3.typ)]) {
                                Some(m) => (r3, Err(m)),
                                None => if !depth_ok(x2.expr, 0) { (r3, Err(too_deep(l))) } else { ok(
                                    r3,
                                    ExprV::IfSomeMatchExpr {
                                        expr: Box::new(x1.expr),
                                        consequence: Box::new(closure_v(x2.expr, var.1)),
                                        alternative: Some(Box::new(x3.expr)),
                                    },
                                    x1.calls + x2.calls + x3.calls,
                                    unify_spec(x2.typ, x3.typ),
                                ) },
                            },
                            (r3, Err(m)) => (r3, Err(m)),
                        },
                    },
                    (r2, Err(m)) => (r2, Err(m)),
                },
                Err(_) => (r1, Err("expecting option type in if-let at "@ + loc_text(l))),
            },
            (r1, Err(m)) => (r1, Err(m)),
        },
        _ => (ret, Err(Seq::empty())),
    }
}

/// Checking `if e matches p && ...`.
#[verifier::opaque]
pub open spec fn tc_if_match(l: Loc, e: ExprSV, h: Map<Seq<char>, SigV<FlatTyp>>, ret: Option<T>, c: CtxV) -> Tc
    decreases e, 0int,
{
    match e {
        ExprSV::IfMatchExpr { matches, consequence, alternative } => match tc_arms(matches, 0, h, ret, c) {
            (r1, Ok(xs)) => match check(
                "if-match-expression"@,
                located(matches.map_values(|m: (LocExprSV, PatternSV)| m.0), typs_of(xs)),
                unlocated(matches.map_values(|m: (LocExprSV, PatternSV)| pattern_typ(m.1))),
            ) {
                Some(m) => (r1, Err(m)),
                None => match arm_vars(matches, 0, Seq::empty()) {
                    Err(m) => (r1, Err(m)),
                    Ok(vars) => {
                        let vs = vars.map_values(|v: (Seq<char>, As)| v.0);
                        let c2 = add_vars(c, vs, vars.map_values(|v: (Seq<char>, As)| as_typ(v.1)));
                        match tc_block(consequence, h, r1, c2) {
                            (r2, Ok(x1)) => if !depth_ok(x1.expr, vs.len()) { (r2, Err(too_deep(l))) } else {
                                let arms = Seq::new(xs.len(), |k: int| (xs[k].expr, arm_patterns(matches)[k]));
                                let body = closures_v(x1.expr, vs);
                                match alternative {
                                    None => match check("if-match-expression"@, seq![(Some(block_loc(consequence, l)), x1.typ)], seq![(None, flat_t::<FlatTyp>(FlatTyp::Unit))]) {
                                        Some(m) => (r2, Err(m)),
                                        None => ok(
                                            r2,
                                            ExprV::IfMatchExpr { variables: vs, matches: arms, consequence: Box::new(body), alternative: None },
                                            calls_of(xs) + x1.calls,
                                            flat_t::<FlatTyp>(FlatTyp::Unit),
                                        ),
                                    },
                                    Some(alt) => match tc_block(alt, h, r2, c) {
                                        (r3, Ok(x2)) => match check("if-match-else-expression"@, seq![(Some(block_loc(consequence, l)), x1.typ)], seq![(Some(block_loc(alt, l)), x2.typ)]) {
                                            Some(m) => (r3, Err(m)),
                                            None => ok(
                                                r3,
                                                ExprV::IfMatchExpr {
                                                    variables: vs,
                                                    matches: arms,
                                                    consequence: Box::new(body),
                                                    alternative: Some(Box::new(x2.expr)),
                                                },
                                                calls_of(xs) + x1.calls + x2.calls,
                                                unify_spec(x1.typ, x2.typ),
                                            ),
                                        },
                                        (r3, Err(m)) => (r3, Err(m)),
                                    },
                                }
                            },
                            (r2, Err(m)) => (r2, Err(m)),
                        }
                    },
                },
            },
            (r1, Err(m)) => (r1, Err(m)),
        },
        _ => (ret, Err(Seq::empty())),
    }
}

/// Checking an iteration.
#[verifier::opaque]
pub open spec fn tc_iter(l: Loc, e: ExprSV, h: Map<Seq<char>, SigV<FlatTyp>>, ret: Option<T>, c: CtxV) -> Tc
    decreases e, 0int,
{
    match e {
        ExprSV::IterExpr { op, idents, expr, body, accumulator } => match tc_e(expr.0, expr.1, h, ret, c) {
            (r1, Ok(x1)) => match iter_ctx(c, idents, x1.typ) {
                None => (r1, Err(iter_text(op) + " over expression of type "@ + typ_text(x1.typ) + " at "@ + loc_text(l) + " "@)),
                Some(c1) => {
                    let pre = match accumulator {
                        Some((_, a)) => if op == Iter::Fold {
                            match tc_e(a.0, a.1, h, r1, c) {
                                (ra, Ok(xa)) => (ra, Ok(add_var(c1, "acc"@, xa.typ))),
                                (ra, Err(m)) => (ra, Err(m)),
                            }
                        } else {
                            (r1, Ok(c1))
                        },
                        None => (r1, Ok(c1)),
                    };
                    match pre {
                        (ra, Ok(c2)) => match tc_block(body, h, ra, c2) {
                            (r2, Ok(x2)) => if idents.len() >= usize::MAX || !depth_ok(x2.expr, idents.len() + 1) { (r2, Err(too_deep(l))) } else { match body_check(op, block_loc(body, l), x2.typ) {
                                Some(m) => (r2, Err(m)),
                                None => match accumulator {
                                    None => match iter_typ(op, x1.typ, x2.typ) {
                                        Some(t) => ok(r2, iter_v(x2.expr, op, names(idents), x1.expr, None), x1.calls + x2.calls, t),
                                        None => if op == Iter::Fold {
                                            (r2, Err(iter_text(op) + " can not be defined without an accumulator"@ + " at "@ + loc_text(l) + " "@))
                                        } else {
                                            (r2, Err(type_error_text(ErrorV::<FlatTyp>::Dest)))
                                        },
                                    },
                                    Some((_, a)) => if op == Iter::Fold {
                                        match tc_e(a.0, a.1, h, r2, c) {
                                            (r3, Ok(x3)) => match check("fold-expression"@, seq![(Some(block_loc(body, l)), x2.typ)], seq![(None, x3.typ)]) {
                                                Some(m) => (r3, Err(m)),
                                                None => ok(
                                                    r3,
                                                    iter_v(x2.expr, op, names(idents), x1.expr, Some(x3.expr)),
                                                    x1.calls + x2.calls + x3.calls,
                                                    x3.typ,
                                                ),
                                            },
                                            (r3, Err(m)) => (r3, Err(m)),
                                        }
                                    } else {
                                        (r2, Err(iter_text(op) + " can have an accumulator"@ + " at "@ + loc_text(l) + " "@))
                                    },
                                },
                            } },
                            (r2, Err(m)) => (r2, Err(m)),
                        },
                        (ra, Err(m)) => (ra, Err(m)),
                    }
                },
            },
            (r1, Err(m)) => (r1, Err(m)),
        },
        _ => (ret, Err(Seq::empty())),
    }
}

/// Checking a call.
#[verifier::opaque]
pub open spec fn tc_call(l: Loc, e: ExprSV, h: Map<Seq<char>, SigV<FlatTyp>>, ret: Option<T>, c: CtxV) -> Tc
    decreases e, 0int,
{
    match e {
        ExprSV::CallExpr { loc, function, arguments } => if function == "option::Some"@ && arguments.len() == 1 {
            match tc_e(arguments[0].0, arguments[0].1, h, ret, c) {
                (r, Ok(x)) => ok(
                    r,
                    ExprV::CallExpr { function, arguments: seq![x.expr], is_async: false },
                    x.calls,
                    TypV::Tuple(seq![x.typ]),
                ),
                (r, Err(m)) => (r, Err(m)),
            }
        } else {
            match tc_all(arguments, 0, h, ret, c) {
                (r, Ok(xs)) => if function.len() >= 3 && function.take(3) == dot_prefix() && xs.len() == 0 {
                    (r, Err("undeclared function \""@ + function + "\" at "@ + loc_text(l)))
                } else {
                    let types = typs_of(xs);
                    let f = resolve_spec::<FlatTyp>(function, types);
                    match headers_typ(h, f) {
                        Some(sig) => {
                            let chk = match sig.0 {
                                Some(args) => check(f, located(arguments, types), unlocated(args)),
                                None => None,
                            };
                            match chk {
                                Some(m) => (r, Err(m)),
                                None => match call_typ(f, types, sig.1) {
                                    Some(t) => ok(
                                        r,
                                        ExprV::CallExpr {
                                            function: f,
                                            arguments: exprs_of(xs),
                                            is_async: t == flat_t::<FlatTyp>(FlatTyp::Unit) && c.async_tag,
                                        },
                                        calls_of(xs).push((loc, f)),
                                        t,
                                    ),
                                    None => (r, Err("unexpected arguments of \""@ + f + "\" at "@ + loc_text(l))),
                                },
                            }
                        },
                        None => match usize_parse(f) {
                            Some(i) => if types.len() == 1 && types[0] is Tuple {
                                let tl = types[0]->Tuple_0;
                                if i < tl.len() {
                                    ok(r, ExprV::CallExpr { function: f, arguments: exprs_of(xs), is_async: false }, calls_of(xs), tl[i as int])
                                } else {
                                    (r, Err("tuple index function \""@ + f + "\" called on tuple with just "@ + nat_decimal(tl.len())
                                        + " elements at "@ + loc_text(l)))
                                }
                            } else {
                                (r, Err("tuple index function \""@ + f + "\" called on non-tuple ("@
                                    + join_sep(types.map_values(|t: T| typ_text(t)), ","@) + ") at "@ + loc_text(l)))
                            },
                            None => (r, Err("undeclared function \""@ + f + "\" at "@ + loc_text(l))),
                        },
                    }
                },
                (r, Err(m)) => (r, Err(m)),
            }
        },
        _ => (ret, Err(Seq::empty())),
    }
}

/// Checking the elements of a list from the `i`-th on, each against the
/// type of the elements before it (`typ`).
#[verifier::opaque]
pub open spec fn tc_list(
    es: Seq<LocExprSV>,
    i: int,
    h: Map<Seq<char>, SigV<FlatTyp>>,
    ret: Option<T>,
    c: CtxV,
    exprs: Seq<EV>,
    calls: Seq<(Loc, Seq<char>)>,
    typ: T,
) -> Tc
    decreases es, es.len() - i,
{
    if i < 0 || i >= es.len() {
        ok(ret, ExprV::BlockExpr(Block::List, exprs), calls, TypV::List(Box::new(typ)))
    } else {
        match tc_e(es[i].0, es[i].1, h, ret, c) {
            (r, Ok(x)) => match check("list"@, seq![(Some(es[i].0), x.typ)], seq![(None, typ)]) {
                Some(m) => (r, Err(m)),
                None => tc_list(es, i + 1, h, r, c, exprs.push(x.expr), calls + x.calls, unify_spec(typ, x.typ)),
            },
            (r, Err(m)) => (r, Err(m)),
        }
    }
}

/// Checking each expression of a list, from the `i`-th on.
pub open spec fn tc_all(es: Seq<LocExprSV>, i: int, h: Map<Seq<char>, SigV<FlatTyp>>, ret: Option<T>, c: CtxV) -> (Option<T>, Result<Seq<CheckedV>, Seq<char>>)
    decreases es, es.len() - i,
{
    if i < 0 || i >= es.len() {
        (ret, Ok(Seq::empty()))
    } else {
        match tc_e(es[i].0, es[i].1, h, ret, c) {
            (r, Ok(x)) => match tc_all(es, i + 1, h, r, c) {
                (r2, Ok(xs)) => (r2, Ok(seq![x] + xs)),
                (r2, Err(m)) => (r2, Err(m)),
            },
            (r, Err(m)) => (r, Err(m)),
        }
    }
}

/// Checking the expressions of `matches` arms, from the `i`-th on.
#[verifier::opaque]
pub open spec fn tc_arms(ms: Seq<(LocExprSV, PatternSV)>, i: int, h: Map<Seq<char>, SigV<FlatTyp>>, ret: Option<T>, c: CtxV) -> (Option<T>, Result<Seq<CheckedV>, Seq<char>>)
    decreases ms, ms.len() - i,
{
    if i < 0 || i >= ms.len() {
        (ret, Ok(Seq::empty()))
    } else {
        match tc_e(ms[i].0.0, ms[i].0.1, h, ret, c) {
            (r, Ok(x)) => match tc_arms(ms, i + 1, h, r, c) {
                (r2, Ok(xs)) => (r2, Ok(seq![x] + xs)),
                (r2, Err(m)) => (r2, Err(m)),
            },
            (r, Err(m)) => (r, Err(m)),
        }
    }
}

/// Checking a block.
#[verifier::opaque]
pub open spec fn tc_block(b: BlockSV, h: Map<Seq<char>, SigV<FlatTyp>>, ret: Option<T>, c: CtxV) -> Tc
    decreases b, 0int,
{
    tc_stmts(b.statements, 0, b.async_tag, h, ret, c)
}

/// Checking the statements of a block (marked `async` or not) from the
/// `i`-th on.
#[verifier::opaque]
pub open spec fn tc_stmts(ss: Seq<LocStmtSV>, i: int, a: bool, h: Map<Seq<char>, SigV<FlatTyp>>, ret: Option<T>, c: CtxV) -> Tc
    decreases ss, ss.len() - i,
{
    let c1 = with_async(c, a);
    if i < 0 || i >= ss.len() {
        ok(ret, ExprV::BlockExpr(Block::Block, Seq::empty()), Seq::empty(), flat_t::<FlatTyp>(FlatTyp::Unit))
    } else {
        let sl = ss[i].0;
        match ss[i].1 {
            StmtSV::ReturnStmt(re) => if i + 1 == ss.len() {
                match tc_e(re.0, re.1, h, ret, c1) {
                    (r, Ok(x)) => {
                        let done = ok(r, ExprV::BlockExpr(Block::Block, seq![ExprV::ReturnExpr(Box::new(x.expr))]), x.calls, ret_t::<FlatTyp>());
                        match r {
                            Some(rt) => match check("return"@, seq![(Some(re.0), x.typ)], seq![(None, rt)]) {
                                Some(m) => (r, Err(m)),
                                None => done,
                            },
                            None => ok(Some(x.typ), ExprV::BlockExpr(Block::Block, seq![ExprV::ReturnExpr(Box::new(x.expr))]), x.calls, ret_t::<FlatTyp>()),
                        }
                    },
                    (r, Err(m)) => (r, Err(m)),
                }
            } else {
                (ret, Err("unreachable code after return at "@ + loc_text(sl)))
            },
            StmtSV::ExprStmt { exp, async_tag, semi } => match tc_e(sl, exp, h, ret, with_async(c1, async_tag)) {
                (r1, Ok(x1)) => if i + 1 == ss.len() {
                    ok(r1, x1.expr, x1.calls, if semi { flat_t::<FlatTyp>(FlatTyp::Unit) } else { x1.typ })
                } else if !semi {
                    (r1, Err("missing semi-colon after expression at "@ + loc_text(sl)))
                } else {
                    match tc_stmts(ss, i + 1, a, h, r1, c1) {
                        (r2, Ok(x2)) => {
                            let e = match x2.expr {
                                ExprV::BlockExpr(Block::Block, b) => ExprV::BlockExpr(Block::Block, seq![x1.expr] + b),
                                other => ExprV::BlockExpr(Block::Block, seq![x1.expr, other]),
                            };
                            ok(r2, e, x1.calls + x2.calls, x2.typ)
                        },
                        (r2, Err(m)) => (r2, Err(m)),
                    }
                },
                (r1, Err(m)) => (r1, Err(m)),
            },
            StmtSV::LetStmt(ids, le) => match tc_e(le.0, le.1, h, ret, c1) {
                (r1, Ok(x1)) => {
                    let c2 = if ids.len() == 1 {
                        Some(add_var(c1, ids[0].1, x1.typ))
                    } else {
                        match x1.typ {
                            TypV::Tuple(tys) => if ids.len() == tys.len() { Some(add_vars(c1, names(ids), tys)) } else { None },
                            _ => None,
                        }
                    };
                    match c2 {
                        Some(c2) => match tc_stmts(ss, i + 1, a, h, r1, c2) {
                            (r2, Ok(x2)) => if !depth_ok(x2.expr, ids.len()) {
                                (r2, Err(too_deep(sl)))
                            } else {
                                ok(r2, let_v(x2.expr, names(ids), x1.expr), x1.calls + x2.calls, x2.typ)
                            },
                            (r2, Err(m)) => (r2, Err(m)),
                        },
                        None => (r1, Err(nat_decimal(ids.len()) + " variables in let expression of type "@ + typ_text(x1.typ)
                            + " at "@ + loc_text(sl) + " "@)),
                    }
                },
                (r1, Err(m)) => (r1, Err(m)),
            },
        }
    }
}


/// Checking a list gives one result per expression.
pub proof fn lemma_tc_all_len(es: Seq<LocExprSV>, i: int, h: Map<Seq<char>, SigV<FlatTyp>>, ret: Option<T>, c: CtxV)
    requires
        0 <= i <= es.len(),
    ensures
        tc_all(es, i, h, ret, c).1 matches Ok(xs) ==> xs.len() == es.len() - i,
    decreases es.len() - i,
{
    reveal_with_fuel(tc_all, 1);
    reveal_with_fuel(tc_e, 1);
    if i < es.len() {
        let (r, res) = tc_e(es[i].0, es[i].1, h, ret, c);
        match res {
            Ok(x) => {
                lemma_tc_all_len(es, i + 1, h, r, c);
                assert(tc_all(es, i, h, ret, c) == match tc_all(es, i + 1, h, r, c) {
                    (r2, Ok(xs)) => (r2, Ok::<Seq<CheckedV>, Seq<char>>(seq![x] + xs)),
                    (r2, Err(m)) => (r2, Err(m)),
                });
            },
            _ => {},
        }
    } else {
        assert(tc_all(es, i, h, ret, c) == (ret, Ok::<Seq<CheckedV>, Seq<char>>(Seq::empty())));
    }
}

/// Filtering keeps elements of what it runs over: the type of
/// `filter xs in e { b }` is the type of `e`, whatever the type of the
/// body `b`, and where the filter checks, so does `e`.
pub proof fn lemma_filter_typ(
    l: Loc,
    idents: Seq<(Loc, Seq<char>)>,
    e: LocExprSV,
    body: BlockSV,
    h: Map<Seq<char>, SigV<FlatTyp>>,
    ret: Option<T>,
    c: CtxV,
)
    ensures
        forall|t1: T, t2: T| #[trigger] iter_typ(Iter::Filter, t1, t2) == Some(t1),
        ({
            let f = ExprSV::IterExpr { op: Iter::Filter, idents, expr: Box::new(e), body, accumulator: None };
            tc_e(l, f, h, ret, c).1 matches Ok(x) ==> (tc_e(e.0, e.1, h, ret, c).1 matches Ok(x1) && x.typ == x1.typ)
        }),
{
    reveal_with_fuel(tc_e, 1);
    reveal_with_fuel(tc_iter, 1);
}

/// Checking `matches` arms gives one result per arm.
pub proof fn lemma_tc_arms_len(ms: Seq<(LocExprSV, PatternSV)>, i: int, h: Map<Seq<char>, SigV<FlatTyp>>, ret: Option<T>, c: CtxV)
    requires
        0 <= i <= ms.len(),
    ensures
        tc_arms(ms, i, h, ret, c).1 matches Ok(xs) ==> xs.len() == ms.len() - i,
    decreases ms.len() - i,
{
    reveal_with_fuel(tc_arms, 1);
    reveal_with_fuel(tc_e, 1);
    if i < ms.len() {
        match tc_e(ms[i].0.0, ms[i].0.1, h, ret, c) {
            (r, Ok(x)) => lemma_tc_arms_len(ms, i + 1, h, r, c),
            _ => {},
        }
    }
}

// ------------------------------------------------------------ execution

/// A function called by checked code, and where.
#[derive(Debug)]
pub struct Call {
    pub loc: Loc,
    pub name: String,
}

impl View for Call {
    type V = (Loc, Seq<char>);

    open spec fn view(&self) -> (Loc, Seq<char>) {
        (self.loc, self.name@)
    }
}

/// A checked expression: the expression, the functions it calls, its type.
#[derive(Debug)]
pub struct ExprAndMeta {
    pub expr: Exp,
    pub calls: Vec<Call>,
    pub typ: Typ<FlatTyp>,
}

impl View for ExprAndMeta {
    type V = CheckedV;

    open spec fn view(&self) -> CheckedV {
        CheckedV { expr: self.expr@, calls: self.calls@.map_values(|c: Call| c@), typ: self.typ@ }
    }
}

/// The type of `return` found so far.
#[derive(Debug)]
pub struct ReturnType(pub Option<Typ<FlatTyp>>);

impl View for ReturnType {
    type V = Option<T>;

    open spec fn view(&self) -> Option<T> {
        match self.0 {
            Some(t) => Some(t@),
            None => None,
        }
    }
}

impl ReturnType {
    /// No `return` yet.
    pub fn new() -> (r: ReturnType)
        ensures
            r@ is None,
    {
        ReturnType(None)
    }

    /// The type of `return`, if one was found.
    pub fn get(&self) -> (r: Option<Typ<FlatTyp>>)
        ensures
            match r {
                Some(t) => self@ == Some(t@),
                None => self@ is None,
            },
    {
        match &self.0 {
            Some(t) => Some(t.dup()),
            None => None,
        }
    }

    /// Records the type of `return`.
    pub fn set(&mut self, typ: Typ<FlatTyp>)
        ensures
            final(self)@ == Some(typ@),
    {
        self.0 = Some(typ);
    }
}

impl<F: TFlatTyp> Dup for Typ<F> {
    fn dup(&self) -> (r: Self) {
        Typ::dup(self)
    }
}

/// The variables in scope with their types, and whether the code runs in
/// an `async` block.
#[derive(Debug)]
pub struct Context {
    pub variables: StrMap<Typ<FlatTyp>>,
    pub async_tag: bool,
}

impl View for Context {
    type V = CtxV;

    open spec fn view(&self) -> CtxV {
        CtxV { vars: self.variables.map(), async_tag: self.async_tag }
    }
}

impl Context {
    /// No variables, not `async`.
    pub fn new() -> (c: Context)
        ensures
            c@.vars == Map::<Seq<char>, T>::empty(),
            !c@.async_tag,
    {
        Context { variables: StrMap::new(), async_tag: false }
    }

    /// A copy with one more variable.
    pub fn add_var(&self, name: &str, typ: &Typ<FlatTyp>) -> (c: Context)
        ensures
            c@ == add_var(self@, name@, typ@),
    {
        let mut variables = self.variables.dup();
        variables.insert(name.to_owned(), typ.dup());
        Context { variables, async_tag: self.async_tag }
    }

    /// A copy, `async` if this is or `b` holds.
    pub fn update_async_tag(&self, b: bool) -> (c: Context)
        ensures
            c@ == with_async(self@, b),
    {
        Context { variables: self.variables.dup(), async_tag: self.async_tag || b }
    }

    /// The type of a variable.
    pub fn var(&self, name: &str) -> (r: Option<Typ<FlatTyp>>)
        ensures
            match r {
                Some(t) => self@.vars.contains_key(name@) && t@ == self@.vars[name@],
                None => !self@.vars.contains_key(name@),
            },
    {
        match self.variables.get(name) {
            Some(t) => Some(t.dup()),
            None => None,
        }
    }
}

/// A check's outcome as a model.
pub open spec fn res_view(r: Result<ExprAndMeta, Error>) -> Result<CheckedV, Seq<char>> {
    match r {
        Ok(x) => Ok(x@),
        Err(e) => Err(e.0@),
    }
}

/// The message of a type error.
pub fn type_error_string(e: &TypeError<FlatTyp>) -> (s: String)
    ensures
        s@ == type_error_text(e@),
{
    match e {
        TypeError::Parse(x) => {
            let mut s = "expecting type, got ".to_owned();
            push_str(&mut s, x.as_str());
            push_str(&mut s, "\n");
            s
        },
        TypeError::Args(x, i, j) => {
            let mut s = "type error in \"".to_owned();
            push_str(&mut s, x.as_str());
            push_str(&mut s, "\": expecting ");
            push_str(&mut s, u64_to_string(*j as u64).as_str());
            push_str(&mut s, " value(s), got ");
            push_str(&mut s, u64_to_string(*i as u64).as_str());
            push_str(&mut s, "\n");
            s
        },
        TypeError::Mismatch(x, a, b) => {
            let mut s = "type error in \"".to_owned();
            push_str(&mut s, x.as_str());
            push_str(&mut s, "\".\nmismatch:\n> ");
            push_str(&mut s, a.1.to_string().as_str());
            push_str(&mut s, on_string(a.0).as_str());
            push_str(&mut s, "< ");
            push_str(&mut s, b.1.to_string().as_str());
            push_str(&mut s, on_string(b.0).as_str());
            s
        },
        TypeError::Dest => "expecting Option<..> type".to_owned(),
    }
}

/// ` on <place>` and a line break, or a line break.
fn on_string(o: Option<Loc>) -> (s: String)
    ensures
        s@ == on_text(o),
{
    match o {
        Some(l) => {
            let mut s = " on ".to_owned();
            push_str(&mut s, l.to_string().as_str());
            push_str(&mut s, "\n");
            s
        },
        None => "\n".to_owned(),
    }
}

/// Type checking as a message.
fn check_exec(s: &str, v1: Vec<LocType<FlatTyp>>, v2: Vec<LocType<FlatTyp>>) -> (r: Option<String>)
    ensures
        match r {
            Some(m) => check(s@, loc_types_view(v1@), loc_types_view(v2@)) == Some(m@),
            None => check(s@, loc_types_view(v1@), loc_types_view(v2@)) is None,
        },
{
    match Typ::type_check(s, v1, v2) {
        Ok(()) => None,
        Err(e) => Some(type_error_string(&e)),
    }
}

/// Checking one type against one expected.
pub(crate) fn check1(s: &str, l1: Option<Loc>, t1: Typ<FlatTyp>, l2: Option<Loc>, t2: Typ<FlatTyp>) -> (r: Option<String>)
    ensures
        match r {
            Some(m) => check(s@, seq![(l1, t1@)], seq![(l2, t2@)]) == Some(m@),
            None => check(s@, seq![(l1, t1@)], seq![(l2, t2@)]) is None,
        },
{
    let v1 = vec![(l1, t1)];
    let v2 = vec![(l2, t2)];
    assert(loc_types_view(v1@) =~= seq![(l1, v1@[0].1@)]);
    assert(loc_types_view(v2@) =~= seq![(l2, v2@[0].1@)]);
    check_exec(s, v1, v2)
}

/// Checking two types against two expected.
fn check2(
    s: &str,
    l1: Option<Loc>,
    t1: Typ<FlatTyp>,
    l2: Option<Loc>,
    t2: Typ<FlatTyp>,
    l3: Option<Loc>,
    t3: Typ<FlatTyp>,
    l4: Option<Loc>,
    t4: Typ<FlatTyp>,
) -> (r: Option<String>)
    ensures
        match r {
            Some(m) => check(s@, seq![(l1, t1@), (l2, t2@)], seq![(l3, t3@), (l4, t4@)]) == Some(m@),
            None => check(s@, seq![(l1, t1@), (l2, t2@)], seq![(l3, t3@), (l4, t4@)]) is None,
        },
{
    let ghost w = (t1@, t2@, t3@, t4@);
    let v1 = vec![(l1, t1), (l2, t2)];
    let v2 = vec![(l3, t3), (l4, t4)];
    assert(loc_types_view(v1@) =~= seq![(l1, w.0), (l2, w.1)]);
    assert(loc_types_view(v2@) =~= seq![(l3, w.2), (l4, w.3)]);
    check_exec(s, v1, v2)
}

/// A message `a` + `b` + `c`.
fn cat3(a: &str, b: &str, c: &str) -> (s: String)
    ensures
        s@ == a@ + b@ + c@,
{
    let mut s = a.to_owned();
    push_str(&mut s, b);
    push_str(&mut s, c);
    s
}

/// `<a>` + `<x>` + ` at ` + place.
fn at_msg(a: &str, x: &str, l: Loc) -> (s: String)
    ensures
        s@ == a@ + x@ + " at "@ + loc_text(l),
{
    let mut s = a.to_owned();
    push_str(&mut s, x);
    push_str(&mut s, " at ");
    push_str(&mut s, l.to_string().as_str());
    s
}

/// The models of checked expressions, element by element.
proof fn lemma_exprs_map(s: Seq<Exp>)
    ensures
        exprs_view(s) == s.map_values(|e: Exp| e@),
{
    let lv = |x: Seq<Exp>| exprs_view(x);
    let f = |e: Exp| e@;
    assert(unfolds(lv, f)) by {
        assert forall|x: Seq<Exp>| #[trigger] lv(x) == if x.len() == 0 {
            Seq::<EV>::empty()
        } else {
            seq![f(x[0])] + lv(x.subrange(1, x.len() as int))
        } by {}
    }
    lemma_unfolds_map(lv, f, s);
    assert(lv(s) == exprs_view(s));
}

/// Checked expressions split into their expressions, calls and types.
fn split_vec(v: Vec<ExprAndMeta>) -> (r: (Vec<Exp>, Vec<Call>, Vec<Typ<FlatTyp>>))
    ensures
        exprs_view(r.0@) == exprs_of(v@.map_values(|x: ExprAndMeta| x@)),
        r.1@.map_values(|c: Call| c@) == calls_of(v@.map_values(|x: ExprAndMeta| x@)),
        r.2@.map_values(|t: Typ<FlatTyp>| t@) == typs_of(v@.map_values(|x: ExprAndMeta| x@)),
{
    let ghost xs = v@.map_values(|x: ExprAndMeta| x@);
    let ghost orig = v@;
    let mut v = v;
    let mut exprs: Vec<Exp> = Vec::new();
    let mut calls: Vec<Call> = Vec::new();
    let mut typs: Vec<Typ<FlatTyp>> = Vec::new();
    let n = v.len();
    let mut i: usize = 0;
    while i < n
        invariant
            n == xs.len(),
            n == orig.len(),
            xs == orig.map_values(|x: ExprAndMeta| x@),
            i <= n,
            v@ == orig.skip(i as int),
            exprs@.map_values(|e: Exp| e@) == exprs_of(xs.take(i as int)),
            calls@.map_values(|c: Call| c@) == calls_of(xs.take(i as int)),
            typs@.map_values(|t: Typ<FlatTyp>| t@) == typs_of(xs.take(i as int)),
        decreases n - i,
    {
        let x = v.remove(0);
        assert(x == orig[i as int]);
        assert(x@ == xs[i as int]);
        let ghost e_old = exprs@;
        let ghost t_old = typs@;
        let ExprAndMeta { expr, calls: mut cs, typ } = x;
        let ghost ev = expr@;
        let ghost tv = typ@;
        exprs.push(expr);
        calls.append(&mut cs);
        typs.push(typ);
        proof {
            assert(xs.take(i + 1).drop_last() =~= xs.take(i as int));
            assert(xs.take(i + 1).last() == xs[i as int]);
            assert(xs[i as int].expr == ev && xs[i as int].typ == tv);
            assert(exprs@.map_values(|e: Exp| e@) =~= e_old.map_values(|e: Exp| e@).push(ev));
            assert(exprs_of(xs.take(i + 1)) =~= exprs_of(xs.take(i as int)).push(ev));
            assert(typs@.map_values(|t: Typ<FlatTyp>| t@) =~= t_old.map_values(|t: Typ<FlatTyp>| t@).push(tv));
            assert(typs_of(xs.take(i + 1)) =~= typs_of(xs.take(i as int)).push(tv));
            assert(calls@.map_values(|c: Call| c@) =~= calls_of(xs.take(i + 1)));
            assert(orig.skip(i as int).remove(0) =~= orig.skip(i + 1));
        }
        i = i + 1;
    }
    proof {
        assert(xs.take(n as int) =~= xs);
        lemma_exprs_map(exprs@);
    }
    (exprs, calls, typs)
}

/// Calls of two checked parts, in order.
fn join_calls(a: Vec<Call>, b: Vec<Call>) -> (r: Vec<Call>)
    ensures
        r@.map_values(|c: Call| c@) == a@.map_values(|c: Call| c@) + b@.map_values(|c: Call| c@),
{
    let ghost (av, bv) = (a@, b@);
    let mut a = a;
    let mut b = b;
    a.append(&mut b);
    assert(a@.map_values(|c: Call| c@) =~= av.map_values(|c: Call| c@) + bv.map_values(|c: Call| c@));
    a
}

/// No calls.
fn no_calls() -> (r: Vec<Call>)
    ensures
        r@.map_values(|c: Call| c@) == Seq::<(Loc, Seq<char>)>::empty(),
{
    let v: Vec<Call> = Vec::new();
    assert(v@.map_values(|c: Call| c@) =~= Seq::<(Loc, Seq<char>)>::empty());
    v
}

/// `a` + `x` + `b` + place.
fn msg_q(a: &str, x: &str, b: &str, l: Loc) -> (s: String)
    ensures
        s@ == a@ + x@ + b@ + loc_text(l),
{
    let mut s = a.to_owned();
    push_str(&mut s, x);
    push_str(&mut s, b);
    push_str(&mut s, l.to_string().as_str());
    s
}

/// `a` + place.
fn msg_l(a: &str, l: Loc) -> (s: String)
    ensures
        s@ == a@ + loc_text(l),
{
    let mut s = a.to_owned();
    push_str(&mut s, l.to_string().as_str());
    s
}

/// Texts joined by a separator.
fn join_texts(v: &Vec<String>, sep: &str) -> (s: String)
    ensures
        s@ == join_sep(v@.map_values(|x: String| x@), sep@),
{
    let ghost ss = v@.map_values(|x: String| x@);
    let mut s = String::new();
    let mut i: usize = 0;
    assert(ss.take(0) =~= Seq::<Seq<char>>::empty());
    while i < v.len()
        invariant
            i <= v@.len(),
            ss == v@.map_values(|x: String| x@),
            s@ == join_sep(ss.take(i as int), sep@),
        decreases v.len() - i,
    {
        if i > 0 {
            push_str(&mut s, sep);
        }
        push_str(&mut s, v[i].as_str());
        proof {
            assert(ss.take(i + 1).drop_last() =~= ss.take(i as int));
            assert(ss.take(i + 1).last() == ss[i as int]);
            if i == 0 {
                assert(ss.take(1) =~= seq![ss[0]]);
                assert(s@ =~= ss[0]);
            }
        }
        i = i + 1;
    }
    assert(ss.take(v@.len() as int) =~= ss);
    s
}

/// Where a block starts.
fn block_loc_exec(b: &BlockStmt, d: Loc) -> (r: Loc)
    ensures
        r == block_loc(b@, d),
{
    proof { lemma_loc_stmts_sv(b.statements@); }
    if b.statements.len() > 0 {
        b.statements[0].0
    } else {
        d
    }
}

/// The types of a prefix operator.
fn prefix_typ_exec(p: Prefix) -> (r: (Typ<FlatTyp>, Typ<FlatTyp>))
    ensures
        (r.0@, r.1@) == prefix_typ(p),
{
    match p {
        Prefix::Not => (Typ::bool(), Typ::bool()),
        Prefix::Minus => (Typ::i64(), Typ::i64()),
    }
}

/// The types of an infix operator.
fn infix_typ_exec(op: Infix) -> (r: Option<(Typ<FlatTyp>, Typ<FlatTyp>, Typ<FlatTyp>)>)
    ensures
        match r {
            Some(x) => infix_typ(op) == Some((x.0@, x.1@, x.2@)),
            None => infix_typ(op) is None,
        },
{
    match op {
        Infix::Concat => Some((Typ::list(Typ::rreturn()), Typ::list(Typ::rreturn()), Typ::list(Typ::rreturn()))),
        Infix::ConcatStr => Some((Typ::str(), Typ::str(), Typ::str())),
        Infix::Equal | Infix::NotEqual => Some((Typ::rreturn(), Typ::rreturn(), Typ::bool())),
        Infix::In => Some((Typ::rreturn(), Typ::list(Typ::rreturn()), Typ::bool())),
        Infix::And | Infix::Or => Some((Typ::bool(), Typ::bool(), Typ::bool())),
        Infix::Divide | Infix::Remainder | Infix::Minus | Infix::Plus | Infix::Multiply => Some((Typ::i64(), Typ::i64(), Typ::i64())),
        Infix::GreaterThan | Infix::GreaterThanEqual | Infix::LessThan | Infix::LessThanEqual => Some((Typ::i64(), Typ::i64(), Typ::bool())),
        Infix::Module | Infix::Dot => None,
    }
}

/// Checking an expression at place `l`.
pub fn tc_expr(l: Loc, e: &PExpr, h: &Headers<FlatTyp>, ret: &mut ReturnType, c: &Context) -> (r: Result<ExprAndMeta, Error>)
    ensures
        (final(ret)@, res_view(r)) == tc_e(l, e@, h@, old(ret)@, c@),
    decreases e, 1int,
{
    proof {
        reveal_with_fuel(tc_e, 1);
        reveal_with_fuel(tc_list, 1);
        reveal_with_fuel(tc_all, 1);
        reveal_with_fuel(tc_prefix, 1);
        reveal_with_fuel(tc_infix, 1);
        reveal_with_fuel(tc_if, 1);
        reveal_with_fuel(tc_if_some, 1);
        reveal_with_fuel(tc_if_match, 1);
        reveal_with_fuel(tc_iter, 1);
        reveal_with_fuel(tc_call, 1);
    }
    match e {
        PExpr::IdentExpr(id) => match c.var(id.0.as_str()) {
            Some(t) => Ok(ExprAndMeta { expr: Exp::var(id.0.as_str()), calls: no_calls(), typ: t }),
            None => Err(Error(msg_q("undeclared variable \"", id.0.as_str(), "\" at ", l))),
        },
        PExpr::LitExpr(lit) => Ok(ExprAndMeta { expr: Exp::lit(lit.dup()), calls: no_calls(), typ: lit.typ() }),
        PExpr::ListExpr(es) => {
            proof { lemma_loc_exprs_sv(es@); }
            let v: Vec<Exp> = Vec::new();
            assert(exprs_view(v@) =~= Seq::<EV>::empty());
            tc_list_exec(es, 0, h, ret, c, v, no_calls(), Typ::rreturn())
        },
        PExpr::TupleExpr(es) => {
            proof { lemma_loc_exprs_sv(es@); }
            match tc_all_exec(es, 0, h, ret, c) {
                Ok(xs) => {
                    let (exprs, calls, typs) = split_vec(xs);
                    Ok(ExprAndMeta { expr: Exp::BlockExpr(Block::Tuple, exprs), calls, typ: Typ::tuple(typs) })
                },
                Err(m) => Err(m),
            }
        },
        PExpr::PrefixExpr(..) => tc_prefix_exec(l, e, h, ret, c),
        PExpr::InfixExpr(..) => tc_infix_exec(l, e, h, ret, c),
        PExpr::IfExpr { .. } => tc_if_exec(l, e, h, ret, c),
        PExpr::IfSomeMatchExpr { .. } => tc_if_some_exec(l, e, h, ret, c),
        PExpr::IfMatchExpr { .. } => tc_if_match_exec(l, e, h, ret, c),
        PExpr::IterExpr { .. } => tc_iter_exec(l, e, h, ret, c),
        PExpr::CallExpr { .. } => tc_call_exec(l, e, h, ret, c),
    }
}

/// Checking the elements of a list from the `i`-th on.
#[verifier::spinoff_prover]
#[verifier::rlimit(60)]
fn tc_list_exec(
    es: &Vec<LocExpr>,
    i: usize,
    h: &Headers<FlatTyp>,
    ret: &mut ReturnType,
    c: &Context,
    exprs: Vec<Exp>,
    calls: Vec<Call>,
    typ: Typ<FlatTyp>,
) -> (r: Result<ExprAndMeta, Error>)
    requires
        i <= es@.len(),
    ensures
        (final(ret)@, res_view(r)) == tc_list(
            es@.map_values(|x: LocExpr| x@),
            i as int,
            h@,
            old(ret)@,
            c@,
            exprs_view(exprs@),
            calls@.map_values(|c: Call| c@),
            typ@,
        ),
    decreases es, es@.len() - i,
{
    proof {
        reveal_with_fuel(tc_list, 1);
        reveal_with_fuel(tc_e, 1);
    }
    if i >= es.len() {
        return Ok(ExprAndMeta { expr: Exp::BlockExpr(Block::List, exprs), calls, typ: Typ::list(typ) });
    }
    proof { vstd::std_specs::vec::axiom_vec_index_decreases(*es, i as int); }
    let ghost esv = es@.map_values(|x: LocExpr| x@);
    let ghost ret0 = ret@;
    let x = match tc_expr(es[i].0, &es[i].1, h, ret, c) {
        Ok(x) => x,
        Err(m) => return Err(m),
    };
    let ghost r1 = ret@;
    let ghost xv = x@;
    assert(tc_e(esv[i as int].0, esv[i as int].1, h@, ret0, c@) == (r1, Ok::<CheckedV, Seq<char>>(xv)));
    match check1("list", Some(es[i].0), x.typ.dup(), None, typ.dup()) {
        Some(m) => Err(Error(m)),
        None => {
            let u = typ.unify(&x.typ);
            let ExprAndMeta { expr, calls: xc, typ: _ } = x;
            proof { lemma_exprs_view_push(exprs@, expr); }
            let ghost ev = exprs_view(exprs@);
            let ghost cv = calls@.map_values(|c: Call| c@);
            let mut exprs = exprs;
            exprs.push(expr);
            assert(exprs_view(exprs@) =~= ev.push(xv.expr));
            let r = tc_list_exec(es, i + 1, h, ret, c, exprs, join_calls(calls, xc), u);
            assert(tc_list(esv, i as int, h@, ret0, c@, ev, cv, typ@)
                == tc_list(esv, i + 1, h@, r1, c@, ev.push(xv.expr), cv + xv.calls, unify_spec(typ@, xv.typ)));
            r
        },
    }
}

/// Checking each expression of a list from the `i`-th on.
fn tc_all_exec(es: &Vec<LocExpr>, i: usize, h: &Headers<FlatTyp>, ret: &mut ReturnType, c: &Context) -> (r: Result<Vec<ExprAndMeta>, Error>)
    requires
        i <= es@.len(),
    ensures
        (final(ret)@, match r {
            Ok(v) => Ok(v@.map_values(|x: ExprAndMeta| x@)),
            Err(e) => Err(e.0@),
        }) == tc_all(es@.map_values(|x: LocExpr| x@), i as int, h@, old(ret)@, c@),
    decreases es, es@.len() - i,
{
    proof {
        reveal_with_fuel(tc_all, 1);
        reveal_with_fuel(tc_e, 1);
    }
    if i >= es.len() {
        let v: Vec<ExprAndMeta> = Vec::new();
        assert(v@.map_values(|x: ExprAndMeta| x@) =~= Seq::<CheckedV>::empty());
        return Ok(v);
    }
    proof { vstd::std_specs::vec::axiom_vec_index_decreases(*es, i as int); }
    let x = match tc_expr(es[i].0, &es[i].1, h, ret, c) {
        Ok(x) => x,
        Err(m) => return Err(m),
    };
    match tc_all_exec(es, i + 1, h, ret, c) {
        Ok(mut xs) => {
            let ghost old_xs = xs@;
            let ghost xv = x@;
            xs.insert(0, x);
            assert(xs@.map_values(|y: ExprAndMeta| y@) =~= seq![xv] + old_xs.map_values(|y: ExprAndMeta| y@));
            Ok(xs)
        },
        Err(m) => Err(m),
    }
}

/// Checking a prefix operation.
fn tc_prefix_exec(l: Loc, e: &PExpr, h: &Headers<FlatTyp>, ret: &mut ReturnType, c: &Context) -> (r: Result<ExprAndMeta, Error>)
    ensures
        (final(ret)@, res_view(r)) == tc_prefix(l, e@, h@, old(ret)@, c@),
    decreases e, 0int,
{
    proof {
        reveal_with_fuel(tc_prefix, 1);
        reveal_with_fuel(tc_e, 1);
    }
    match e {
        PExpr::PrefixExpr(p, b) => {
            let x = match tc_expr(b.0, &b.1, h, ret, c) {
                Ok(x) => x,
                Err(m) => return Err(m),
            };
            let (t1, t2) = prefix_typ_exec(*p);
            match check1("prefix", Some(b.0), x.typ.dup(), None, t1) {
                Some(m) => Err(Error(m)),
                None => Ok(ExprAndMeta { expr: Exp::prefix_expr(*p, x.expr), calls: x.calls, typ: t2 }),
            }
        },
        _ => Err(Error(String::new())),
    }
}

/// Checking an infix operation.
fn tc_infix_exec(l: Loc, e: &PExpr, h: &Headers<FlatTyp>, ret: &mut ReturnType, c: &Context) -> (r: Result<ExprAndMeta, Error>)
    ensures
        (final(ret)@, res_view(r)) == tc_infix(l, e@, h@, old(ret)@, c@),
    decreases e, 0int,
{
    proof {
        reveal_with_fuel(tc_infix, 1);
        reveal_with_fuel(tc_e, 1);
    }
    match e {
        PExpr::InfixExpr(op, a, b) => {
            let x1 = match tc_expr(a.0, &a.1, h, ret, c) {
                Ok(x) => x,
                Err(m) => return Err(m),
            };
            let x2 = match tc_expr(b.0, &b.1, h, ret, c) {
                Ok(x) => x,
                Err(m) => return Err(m),
            };
            match infix_typ_exec(*op) {
                Some((t1, t2, typ)) => {
                    let chk = if t1.is_return() {
                        if t2.is_return() {
                            check1("equality/inequality/concat", Some(a.0), x1.typ.dup(), Some(b.0), x2.typ.dup())
                        } else {
                            check1("in", Some(a.0), Typ::list(x1.typ.dup()), Some(b.0), x2.typ.dup())
                        }
                    } else {
                        check2("infix", Some(a.0), x1.typ.dup(), Some(b.0), x2.typ.dup(), None, t1, None, t2)
                    };
                    match chk {
                        Some(m) => Err(Error(m)),
                        None => Ok(ExprAndMeta {
                            expr: Exp::infix_expr(*op, x1.expr, x2.expr),
                            calls: join_calls(x1.calls, x2.calls),
                            typ,
                        }),
                    }
                },
                None => Err(Error(msg_l("unexpected \"::\" at ", l))),
            }
        },
        _ => Err(Error(String::new())),
    }
}

/// Checking `if`.
#[verifier::spinoff_prover]
#[verifier::rlimit(60)]
fn tc_if_exec(l: Loc, e: &PExpr, h: &Headers<FlatTyp>, ret: &mut ReturnType, c: &Context) -> (r: Result<ExprAndMeta, Error>)
    ensures
        (final(ret)@, res_view(r)) == tc_if(l, e@, h@, old(ret)@, c@),
    decreases e, 0int,
{
    proof {
        reveal_with_fuel(tc_if, 1);
        reveal_with_fuel(tc_e, 1);
        reveal_with_fuel(tc_block, 1);
    }
    match e {
        PExpr::IfExpr { cond, consequence, alternative } => {
            let x1 = match tc_expr(cond.0, &cond.1, h, ret, c) {
                Ok(x) => x,
                Err(m) => return Err(m),
            };
            let x2 = match tc_block_exec(consequence, h, ret, c) {
                Ok(x) => x,
                Err(m) => return Err(m),
            };
            let cl = block_loc_exec(consequence, l);
            match alternative {
                None => match check2("if-expression", Some(cond.0), x1.typ.dup(), Some(cl), x2.typ.dup(), None, Typ::bool(), None, Typ::unit()) {
                    Some(m) => Err(Error(m)),
                    None => Ok(ExprAndMeta {
                        expr: Exp::if_expr(x1.expr, x2.expr),
                        calls: join_calls(x1.calls, x2.calls),
                        typ: Typ::unit(),
                    }),
                },
                Some(alt) => {
                    let x3 = match tc_block_exec(alt, h, ret, c) {
                        Ok(x) => x,
                        Err(m) => return Err(m),
                    };
                    let al = block_loc_exec(alt, l);
                    match check2("if-else-expression", Some(cond.0), x1.typ.dup(), Some(cl), x2.typ.dup(), None, Typ::bool(), Some(al), x3.typ.dup()) {
                        Some(m) => Err(Error(m)),
                        None => {
                            let t = x2.typ.unify(&x3.typ);
                            Ok(ExprAndMeta {
                                expr: Exp::if_else_expr(x1.expr, x2.expr, x3.expr),
                                calls: join_calls(join_calls(x1.calls, x2.calls), x3.calls),
                                typ: t,
                            })
                        },
                    }
                },
            }
        },
        _ => Err(Error(String::new())),
    }
}

/// Checking `if let Some(x) = e`.
#[verifier::spinoff_prover]
#[verifier::rlimit(60)]
fn tc_if_some_exec(l: Loc, e: &PExpr, h: &Headers<FlatTyp>, ret: &mut ReturnType, c: &Context) -> (r: Result<ExprAndMeta, Error>)
    ensures
        (final(ret)@, res_view(r)) == tc_if_some(l, e@, h@, old(ret)@, c@),
    decreases e, 0int,
{
    proof {
        reveal_with_fuel(tc_if_some, 1);
        reveal_with_fuel(tc_e, 1);
        reveal_with_fuel(tc_block, 1);
    }
    match e {
        PExpr::IfSomeMatchExpr { var, expr, consequence, alternative } => {
            let x1 = match tc_expr(expr.0, &expr.1, h, ret, c) {
                Ok(x) => x,
                Err(m) => return Err(m),
            };
            let t = match x1.typ.dest_option() {
                Ok(t) => t,
                Err(_) => return Err(Error(msg_l("expecting option type in if-let at ", l))),
            };
            let c2 = c.add_var(var.id(), &t);
            let x2 = match tc_block_exec(consequence, h, ret, &c2) {
                Ok(x) => x,
                Err(m) => return Err(m),
            };
            let cl = block_loc_exec(consequence, l);
            match alternative {
                None => match check1("if-let-expression", Some(cl), x2.typ.dup(), None, Typ::unit()) {
                    Some(m) => Err(Error(m)),
                    None => if !x2.expr.fits_depth(0) {
                        Err(Error(msg_l("expression nested too deeply at ", l)))
                    } else {
                        Ok(ExprAndMeta {
                            expr: Exp::IfSomeMatchExpr {
                                expr: Box::new(x1.expr),
                                consequence: Box::new(x2.expr.closure_expr(var.id())),
                                alternative: None,
                            },
                            calls: join_calls(x1.calls, x2.calls),
                            typ: Typ::unit(),
                        })
                    },
                },
                Some(alt) => {
                    let x3 = match tc_block_exec(alt, h, ret, c) {
                        Ok(x) => x,
                        Err(m) => return Err(m),
                    };
                    let al = block_loc_exec(alt, l);
                    match check1("if-let-else-expression", Some(cl), x2.typ.dup(), Some(al), x3.typ.dup()) {
                        Some(m) => Err(Error(m)),
                        None => if !x2.expr.fits_depth(0) {
                            Err(Error(msg_l("expression nested too deeply at ", l)))
                        } else {
                            let t = x2.typ.unify(&x3.typ);
                            Ok(ExprAndMeta {
                                expr: Exp::IfSomeMatchExpr {
                                    expr: Box::new(x1.expr),
                                    consequence: Box::new(x2.expr.closure_expr(var.id())),
                                    alternative: Some(Box::new(x3.expr)),
                                },
                                calls: join_calls(join_calls(x1.calls, x2.calls), x3.calls),
                                typ: t,
                            })
                        },
                    }
                },
            }
        },
        _ => Err(Error(String::new())),
    }
}

/// The model of gathered variables.
pub open spec fn vars_view(v: Seq<(String, As)>) -> Seq<(Seq<char>, As)> {
    v.map_values(|x: (String, As)| (x.0@, x.1))
}

/// Whether a variable is among those gathered.
fn has_var_exec(vars: &Vec<(String, As)>, k: &str) -> (b: bool)
    ensures
        b == has_var(vars_view(vars@), k@),
{
    let mut j: usize = 0;
    while j < vars.len()
        invariant
            j <= vars@.len(),
            forall|q: int| 0 <= q < j ==> (#[trigger] vars_view(vars@)[q]).0 != k@,
        decreases vars.len() - j,
    {
        if str_eq(vars[j].0.as_str(), k) {
            assert(vars_view(vars@)[j as int].0 == k@);
            return true;
        }
        j = j + 1;
    }
    false
}

/// Adds the named groups of a regular expression.
fn group_vars_exec(names: &Vec<Option<String>>, init: Vec<(String, As)>, l: Loc) -> (r: Result<Vec<(String, As)>, String>)
    ensures
        match r {
            Ok(v) => group_vars(opt_texts(names@), 0, vars_view(init@), l) == Ok::<Seq<(Seq<char>, As)>, Seq<char>>(vars_view(v@)),
            Err(m) => group_vars(opt_texts(names@), 0, vars_view(init@), l) == Err::<Seq<(Seq<char>, As)>, Seq<char>>(m@),
        },
{
    let ghost ns = opt_texts(names@);
    let ghost v0 = vars_view(init@);
    let mut vars = init;
    let mut j: usize = 0;
    while j < names.len()
        invariant
            v0 == vars_view(init@),
            j <= names@.len(),
            ns == opt_texts(names@),
            ns.len() == names@.len(),
            group_vars(ns, 0, v0, l) == group_vars(ns, j as int, vars_view(vars@), l),
        decreases names.len() - j,
    {
        match &names[j] {
            Some(x) => {
                assert(ns[j as int] == Some(x@));
                let (k, a) = Pat::strip_as(x.as_str());
                if has_var_exec(&vars, k.as_str()) {
                    let mut m = l.to_string();
                    push_str(&mut m, ": repeated variable \"");
                    push_str(&mut m, k.as_str());
                    push_str(&mut m, "\"\" in \"if match\"");
                    return Err(m);
                }
                let ghost before = vars_view(vars@);
                vars.push((k, a));
                assert(vars_view(vars@) =~= before.push((k@, a)));
            },
            None => {
                assert(ns[j as int] is None);
            },
        }
        j = j + 1;
    }
    Ok(vars)
}

/// Adds the variables of a label.
fn label_vars_exec(xs: &Vec<String>, init: Vec<(String, As)>, l: Loc) -> (r: Result<Vec<(String, As)>, String>)
    ensures
        match r {
            Ok(v) => label_vars_into(xs@.map_values(|x: String| x@), 0, vars_view(init@), l) == Ok::<Seq<(Seq<char>, As)>, Seq<char>>(vars_view(v@)),
            Err(m) => label_vars_into(xs@.map_values(|x: String| x@), 0, vars_view(init@), l) == Err::<Seq<(Seq<char>, As)>, Seq<char>>(m@),
        },
{
    let ghost ns = xs@.map_values(|x: String| x@);
    let ghost v0 = vars_view(init@);
    let mut vars = init;
    let mut j: usize = 0;
    while j < xs.len()
        invariant
            v0 == vars_view(init@),
            j <= xs@.len(),
            ns == xs@.map_values(|x: String| x@),
            label_vars_into(ns, 0, v0, l) == label_vars_into(ns, j as int, vars_view(vars@), l),
        decreases xs.len() - j,
    {
        assert(ns[j as int] == xs@[j as int]@);
        if has_var_exec(&vars, xs[j].as_str()) {
            let mut m = l.to_string();
            push_str(&mut m, ": repeated variable \"");
            push_str(&mut m, xs[j].as_str());
            push_str(&mut m, "\" in \"if match\"");
            return Err(m);
        }
        let ghost before = vars_view(vars@);
        vars.push((xs[j].clone(), As::Str));
        assert(vars_view(vars@) =~= before.push((ns[j as int], As::Str)));
        j = j + 1;
    }
    Ok(vars)
}

/// The model of `matches` arms.
pub open spec fn arms_sv(ms: Seq<(LocExpr, PPattern)>) -> Seq<(LocExprSV, PatternSV)> {
    ms.map_values(|a: (LocExpr, PPattern)| (a.0@, a.1@))
}

/// The variables of the patterns of `matches` arms, and the compiled
/// patterns.
fn arm_vars_exec(ms: &Vec<(LocExpr, PPattern)>) -> (r: Result<(Vec<(String, As)>, Vec<Pattern>), Error>)
    ensures
        match r {
            Ok((vars, pats)) => arm_vars(arms_sv(ms@), 0, Seq::empty()) == Ok::<Seq<(Seq<char>, As)>, Seq<char>>(vars_view(vars@))
                && pats@.map_values(|p: Pattern| p@) == arm_patterns(arms_sv(ms@)),
            Err(e) => arm_vars(arms_sv(ms@), 0, Seq::empty()) == Err::<Seq<(Seq<char>, As)>, Seq<char>>(e.0@),
        },
{
    let ghost msv = arms_sv(ms@);
    let mut vars: Vec<(String, As)> = Vec::new();
    let mut pats: Vec<Pattern> = Vec::new();
    assert(vars_view(vars@) =~= Seq::<(Seq<char>, As)>::empty());
    let mut i: usize = 0;
    while i < ms.len()
        invariant
            i <= ms@.len(),
            msv == arms_sv(ms@),
            msv.len() == ms@.len(),
            arm_vars(msv, 0, Seq::empty()) == arm_vars(msv, i as int, vars_view(vars@)),
            pats@.map_values(|p: Pattern| p@) == arm_patterns(msv).take(i as int),
        decreases ms.len() - i,
    {
        let l = ms[i].0.0;
        let ghost before = pats@.map_values(|p: Pattern| p@);
        match &ms[i].1 {
            PPattern::Regex(p) => {
                if !p.is_valid() {
                    return Err(Error(msg_l("invalid regular expression at ", l)));
                }
                let re = match PolicyRegex::from_pat(p) {
                    Ok(re) => re,
                    Err(_) => return Err(Error(msg_l("invalid regular expression at ", l))),
                };
                let names = group_names(&re.1);
                vars = match group_vars_exec(&names, vars, l) {
                    Ok(v) => v,
                    Err(m) => return Err(Error(m)),
                };
                pats.push(Pattern::Regex(re));
            },
            PPattern::Label(lb) => {
                let xs = lb.vars();
                vars = match label_vars_exec(&xs, vars, l) {
                    Ok(v) => v,
                    Err(m) => return Err(Error(m)),
                };
                pats.push(Pattern::Label(lb.dup()));
            },
        }
        proof {
            assert(arm_patterns(msv).take(i + 1) =~= arm_patterns(msv).take(i as int).push(arm_patterns(msv)[i as int]));
            assert(pats@.map_values(|p: Pattern| p@) =~= before.push(pats@[i as int]@));
        }
        i = i + 1;
    }
    assert(arm_patterns(msv).take(ms@.len() as int) =~= arm_patterns(msv));
    Ok((vars, pats))
}

/// Checking the expressions of `matches` arms from the `i`-th on.
fn tc_arms_exec(ms: &Vec<(LocExpr, PPattern)>, i: usize, h: &Headers<FlatTyp>, ret: &mut ReturnType, c: &Context) -> (r: Result<Vec<ExprAndMeta>, Error>)
    requires
        i <= ms@.len(),
    ensures
        (final(ret)@, match r {
            Ok(v) => Ok(v@.map_values(|x: ExprAndMeta| x@)),
            Err(e) => Err(e.0@),
        }) == tc_arms(arms_sv(ms@), i as int, h@, old(ret)@, c@),
    decreases ms, ms@.len() - i,
{
    proof {
        reveal_with_fuel(tc_arms, 1);
        reveal_with_fuel(tc_e, 1);
    }
    if i >= ms.len() {
        let v: Vec<ExprAndMeta> = Vec::new();
        assert(v@.map_values(|x: ExprAndMeta| x@) =~= Seq::<CheckedV>::empty());
        return Ok(v);
    }
    proof { vstd::std_specs::vec::axiom_vec_index_decreases(*ms, i as int); }
    let x = match tc_expr(ms[i].0.0, &ms[i].0.1, h, ret, c) {
        Ok(x) => x,
        Err(m) => return Err(m),
    };
    match tc_arms_exec(ms, i + 1, h, ret, c) {
        Ok(mut xs) => {
            let ghost old_xs = xs@;
            let ghost xv = x@;
            xs.insert(0, x);
            assert(xs@.map_values(|y: ExprAndMeta| y@) =~= seq![xv] + old_xs.map_values(|y: ExprAndMeta| y@));
            Ok(xs)
        },
        Err(m) => Err(m),
    }
}

/// A context with the gathered variables added, each with the type its
/// reading gives.
fn add_match_vars(c: &Context, vars: &Vec<(String, As)>) -> (r: Context)
    ensures
        r@ == add_vars(c@, vars_view(vars@).map_values(|v: (Seq<char>, As)| v.0), vars_view(vars@).map_values(|v: (Seq<char>, As)| as_typ(v.1))),
{
    let ghost vs = vars_view(vars@).map_values(|v: (Seq<char>, As)| v.0);
    let ghost ts = vars_view(vars@).map_values(|v: (Seq<char>, As)| as_typ(v.1));
    let mut cur = c.update_async_tag(false);
    assert(cur@ == c@);
    let mut k: usize = 0;
    assert(vs.skip(0) =~= vs && ts.skip(0) =~= ts);
    while k < vars.len()
        invariant
            k <= vars@.len(),
            vs.len() == vars@.len() && ts.len() == vars@.len(),
            vs == vars_view(vars@).map_values(|v: (Seq<char>, As)| v.0),
            ts == vars_view(vars@).map_values(|v: (Seq<char>, As)| as_typ(v.1)),
            add_vars(cur@, vs.skip(k as int), ts.skip(k as int)) == add_vars(c@, vs, ts),
        decreases vars.len() - k,
    {
        let t = match vars[k].1 {
            As::I64 => Typ::i64(),
            As::Base64 => Typ::data(),
            As::Str => Typ::str(),
        };
        proof {
            assert(vs.skip(k as int).drop_first() =~= vs.skip(k + 1));
            assert(ts.skip(k as int).drop_first() =~= ts.skip(k + 1));
        }
        cur = cur.add_var(vars[k].0.as_str(), &t);
        k = k + 1;
    }
    cur
}

/// The names of gathered variables.
fn var_names(vars: &Vec<(String, As)>) -> (r: (Vec<String>, Vec<&str>))
    ensures
        r.0@.map_values(|s: String| s@) == vars_view(vars@).map_values(|v: (Seq<char>, As)| v.0),
        r.1@.map_values(|s: &str| s@) == vars_view(vars@).map_values(|v: (Seq<char>, As)| v.0),
{
    let mut a: Vec<String> = Vec::new();
    let mut b: Vec<&str> = Vec::new();
    let mut k: usize = 0;
    while k < vars.len()
        invariant
            k <= vars@.len(),
            a@.map_values(|s: String| s@) == vars_view(vars@).map_values(|v: (Seq<char>, As)| v.0).take(k as int),
            b@.map_values(|s: &str| s@) == vars_view(vars@).map_values(|v: (Seq<char>, As)| v.0).take(k as int),
        decreases vars.len() - k,
    {
        let ghost (pa, pb) = (a@, b@);
        a.push(vars[k].0.clone());
        b.push(vars[k].0.as_str());
        proof {
            let w = vars_view(vars@).map_values(|v: (Seq<char>, As)| v.0);
            assert(w.take(k + 1) =~= w.take(k as int).push(w[k as int]));
            assert(a@.map_values(|s: String| s@) =~= pa.map_values(|s: String| s@).push(w[k as int]));
            assert(b@.map_values(|s: &str| s@) =~= pb.map_values(|s: &str| s@).push(w[k as int]));
        }
        k = k + 1;
    }
    proof {
        let w = vars_view(vars@).map_values(|v: (Seq<char>, As)| v.0);
        assert(w.take(vars@.len() as int) =~= w);
    }
    (a, b)
}

/// Checking `if e matches p && ...`.
#[verifier::spinoff_prover]
#[verifier::rlimit(60)]
fn tc_if_match_exec(l: Loc, e: &PExpr, h: &Headers<FlatTyp>, ret: &mut ReturnType, c: &Context) -> (r: Result<ExprAndMeta, Error>)
    ensures
        (final(ret)@, res_view(r)) == tc_if_match(l, e@, h@, old(ret)@, c@),
    decreases e, 0int,
{
    proof {
        reveal_with_fuel(tc_if_match, 1);
        reveal_with_fuel(tc_arms, 1);
        reveal_with_fuel(tc_block, 1);
    }
    match e {
        PExpr::IfMatchExpr { matches, consequence, alternative } => {
            let ghost msv = arms_sv(matches@);
            proof {
                lemma_match_arms_sv(matches@);
                assert(msv =~= match_arms_sv(matches@));
            }
            let ghost ret0 = old(ret)@;
            let xs = match tc_arms_exec(matches, 0, h, ret, c) {
                Ok(xs) => xs,
                Err(m) => return Err(m),
            };
            proof { lemma_tc_arms_len(msv, 0, h@, ret0, c@); }
            let ghost xsv = xs@.map_values(|x: ExprAndMeta| x@);
            let mut v1: Vec<LocType<FlatTyp>> = Vec::new();
            let mut v2: Vec<LocType<FlatTyp>> = Vec::new();
            let mut k: usize = 0;
            while k < xs.len()
                invariant
                    k <= xs@.len(),
                    xs@.len() == matches@.len(),
                    xsv == xs@.map_values(|x: ExprAndMeta| x@),
                    msv == arms_sv(matches@),
                    loc_types_view(v1@) == located(msv.map_values(|m: (LocExprSV, PatternSV)| m.0), typs_of(xsv)).take(k as int),
                    loc_types_view(v2@) == unlocated(msv.map_values(|m: (LocExprSV, PatternSV)| pattern_typ(m.1))).take(k as int),
                decreases xs.len() - k,
            {
                let ghost (p1, p2) = (v1@, v2@);
                v1.push((Some(matches[k].0.0), xs[k].typ.dup()));
                let pt = match &matches[k].1 {
                    PPattern::Regex(_) => Typ::str(),
                    PPattern::Label(_) => Typ::label(),
                };
                v2.push((None, pt));
                proof {
                    let a = located(msv.map_values(|m: (LocExprSV, PatternSV)| m.0), typs_of(xsv));
                    let b = unlocated(msv.map_values(|m: (LocExprSV, PatternSV)| pattern_typ(m.1)));
                    assert(a.take(k + 1) =~= a.take(k as int).push(a[k as int]));
                    assert(b.take(k + 1) =~= b.take(k as int).push(b[k as int]));
                    assert(loc_types_view(v1@) =~= loc_types_view(p1).push(a[k as int]));
                    assert(loc_types_view(v2@) =~= loc_types_view(p2).push(b[k as int]));
                }
                k = k + 1;
            }
            proof {
                let a = located(msv.map_values(|m: (LocExprSV, PatternSV)| m.0), typs_of(xsv));
                let b = unlocated(msv.map_values(|m: (LocExprSV, PatternSV)| pattern_typ(m.1)));
                assert(a.take(xs@.len() as int) =~= a);
                assert(b.take(xs@.len() as int) =~= b);
            }
            if let Some(m) = check_exec("if-match-expression", v1, v2) {
                return Err(Error(m));
            }
            let (vars, pats) = match arm_vars_exec(matches) {
                Ok(x) => x,
                Err(m) => return Err(m),
            };
            let c2 = add_match_vars(c, &vars);
            let x1 = match tc_block_exec(consequence, h, ret, &c2) {
                Ok(x) => x,
                Err(m) => return Err(m),
            };
            let (names, strs) = var_names(&vars);
            if !x1.expr.fits_depth(strs.len()) {
                return Err(Error(msg_l("expression nested too deeply at ", l)));
            }
            let cl = block_loc_exec(consequence, l);
            let body = x1.expr.closures(&strs);
            let ghost n = xs@.len();
            let (exprs, calls, _) = split_vec(xs);
            proof {
                lemma_exprs_map(exprs@);
                assert(exprs@.map_values(|e: Exp| e@).len() == n);
                assert(pats@.map_values(|p: Pattern| p@).len() == n);
            }
            let ghost ev = exprs@;
            let ghost pv = pats@;
            let arms = zip_arms(exprs, pats);
            proof {
                assert forall|k: int| 0 <= k < n implies ev[k]@ == xsv[k].expr && pv[k]@ == arm_patterns(msv)[k] by {
                    assert(ev.map_values(|e: Exp| e@)[k] == exprs_of(xsv)[k]);
                    assert(pv.map_values(|p: Pattern| p@)[k] == arm_patterns(msv)[k]);
                }
                assert(matches_view(arms@) =~= Seq::new(xsv.len(), |k: int| (xsv[k].expr, arm_patterns(msv)[k])));
            }
            match alternative {
                None => match check1("if-match-expression", Some(cl), x1.typ.dup(), None, Typ::unit()) {
                    Some(m) => Err(Error(m)),
                    None => Ok(ExprAndMeta {
                        expr: Exp::IfMatchExpr { variables: names, matches: arms, consequence: Box::new(body), alternative: None },
                        calls: join_calls(calls, x1.calls),
                        typ: Typ::unit(),
                    }),
                },
                Some(alt) => {
                    let x2 = match tc_block_exec(alt, h, ret, c) {
                        Ok(x) => x,
                        Err(m) => return Err(m),
                    };
                    let al = block_loc_exec(alt, l);
                    match check1("if-match-else-expression", Some(cl), x1.typ.dup(), Some(al), x2.typ.dup()) {
                        Some(m) => Err(Error(m)),
                        None => {
                            let t = x1.typ.unify(&x2.typ);
                            Ok(ExprAndMeta {
                                expr: Exp::IfMatchExpr {
                                    variables: names,
                                    matches: arms,
                                    consequence: Box::new(body),
                                    alternative: Some(Box::new(x2.expr)),
                                },
                                calls: join_calls(join_calls(calls, x1.calls), x2.calls),
                                typ: t,
                            })
                        },
                    }
                },
            }
        },
        _ => Err(Error(String::new())),
    }
}

/// Expressions paired with patterns.
fn zip_arms(exprs: Vec<Exp>, pats: Vec<Pattern>) -> (r: Vec<(Exp, Pattern)>)
    requires
        exprs@.len() == pats@.len(),
    ensures
        matches_view(r@) == Seq::new(exprs@.len(), |k: int| (exprs@[k]@, pats@[k]@)),
{
    let ghost ev = exprs@;
    let ghost pv = pats@;
    let n = exprs.len();
    let mut exprs = exprs;
    let mut pats = pats;
    let mut out: Vec<(Exp, Pattern)> = Vec::new();
    let mut k: usize = 0;
    while k < n
        invariant
            n == ev.len() && n == pv.len(),
            k <= n,
            exprs@ == ev.skip(k as int),
            pats@ == pv.skip(k as int),
            matches_view(out@) == Seq::new(k as nat, |j: int| (ev[j]@, pv[j]@)),
        decreases n - k,
    {
        let x = exprs.remove(0);
        let p = pats.remove(0);
        assert(x == ev[k as int] && p == pv[k as int]);
        let ghost before = out@;
        proof { lemma_matches_view_push(before, (x, p)); }
        out.push((x, p));
        proof {
            assert(ev.skip(k as int).remove(0) =~= ev.skip(k + 1));
            assert(pv.skip(k as int).remove(0) =~= pv.skip(k + 1));
            assert(matches_view(out@) =~= Seq::new((k + 1) as nat, |j: int| (ev[j]@, pv[j]@)));
        }
        k = k + 1;
    }
    out
}

/// The identifiers' names, as texts and as string slices.
fn ident_names(ids: &Vec<LocIdent>) -> (r: Vec<&str>)
    ensures
        r@.map_values(|s: &str| s@) == names(ids@.map_values(|i: LocIdent| i@)),
{
    let ghost w = names(ids@.map_values(|i: LocIdent| i@));
    let mut b: Vec<&str> = Vec::new();
    let mut k: usize = 0;
    while k < ids.len()
        invariant
            k <= ids@.len(),
            w == names(ids@.map_values(|i: LocIdent| i@)),
            b@.map_values(|s: &str| s@) == w.take(k as int),
        decreases ids.len() - k,
    {
        let ghost pb = b@;
        b.push(ids[k].id());
        proof {
            assert(w.take(k + 1) =~= w.take(k as int).push(w[k as int]));
            assert(b@.map_values(|s: &str| s@) =~= pb.map_values(|s: &str| s@).push(w[k as int]));
        }
        k = k + 1;
    }
    assert(w.take(ids@.len() as int) =~= w);
    b
}

/// A context with variables added in order.
fn add_vars_exec(c: &Context, ids: &Vec<LocIdent>, tys: &Vec<Typ<FlatTyp>>) -> (r: Context)
    requires
        ids@.len() == tys@.len(),
    ensures
        r@ == add_vars(c@, names(ids@.map_values(|i: LocIdent| i@)), tys@.map_values(|t: Typ<FlatTyp>| t@)),
{
    let ghost vs = names(ids@.map_values(|i: LocIdent| i@));
    let ghost ts = tys@.map_values(|t: Typ<FlatTyp>| t@);
    let mut cur = c.update_async_tag(false);
    assert(cur@ == c@);
    let mut k: usize = 0;
    assert(vs.skip(0) =~= vs && ts.skip(0) =~= ts);
    while k < ids.len()
        invariant
            k <= ids@.len(),
            ids@.len() == tys@.len(),
            vs == names(ids@.map_values(|i: LocIdent| i@)),
            ts == tys@.map_values(|t: Typ<FlatTyp>| t@),
            add_vars(cur@, vs.skip(k as int), ts.skip(k as int)) == add_vars(c@, vs, ts),
        decreases ids.len() - k,
    {
        proof {
            assert(vs.skip(k as int).drop_first() =~= vs.skip(k + 1));
            assert(ts.skip(k as int).drop_first() =~= ts.skip(k + 1));
        }
        cur = cur.add_var(ids[k].id(), &tys[k]);
        k = k + 1;
    }
    cur
}

/// The variables bound by an iteration over a value of type `t`.
fn iter_ctx_exec(c: &Context, ids: &Vec<LocIdent>, t: &Typ<FlatTyp>) -> (r: Option<Context>)
    ensures
        match r {
            Some(x) => iter_ctx(c@, ids@.map_values(|i: LocIdent| i@), t@) == Some(x@),
            None => iter_ctx(c@, ids@.map_values(|i: LocIdent| i@), t@) is None,
        },
{
    match t {
        Typ::List(lty) => if ids.len() == 1 {
            Some(c.add_var(ids[0].id(), lty))
        } else {
            match &**lty {
                Typ::Tuple(tys) => if ids.len() == tys.len() {
                    let r = add_vars_exec(c, ids, tys);
                    assert(lty@->Tuple_0 =~= tys@.map_values(|t: Typ<FlatTyp>| t@));
                    Some(r)
                } else {
                    None
                },
                _ => None,
            }
        },
        _ => None,
    }
}

/// The type of an iteration without accumulator.
fn iter_typ_exec(op: Iter, t1: &Typ<FlatTyp>, t2: &Typ<FlatTyp>) -> (r: Option<Typ<FlatTyp>>)
    ensures
        match r {
            Some(t) => iter_typ(op, t1@, t2@) == Some(t@),
            None => iter_typ(op, t1@, t2@) is None,
        },
{
    match op {
        Iter::All | Iter::Any => Some(Typ::bool()),
        Iter::Filter => Some(t1.dup()),
        Iter::FilterMap => match t2.dest_option() {
            Ok(t) => Some(Typ::list(t)),
            Err(_) => None,
        },
        Iter::ForEach => Some(Typ::unit()),
        Iter::Fold => None,
        Iter::MapEach => Some(Typ::list(t2.dup())),
    }
}

/// The check of an iteration's body type.
fn body_check_exec(op: Iter, loc: Loc, t2: &Typ<FlatTyp>) -> (r: Option<String>)
    ensures
        match r {
            Some(m) => body_check(op, loc, t2@) == Some(m@),
            None => body_check(op, loc, t2@) is None,
        },
{
    match op {
        Iter::FilterMap => check1("filter_map-expression", Some(loc), t2.dup(), None, Typ::any_option()),
        Iter::MapEach | Iter::ForEach | Iter::Fold => None,
        _ => check1("all/any/filter-expression", Some(loc), t2.dup(), None, Typ::bool()),
    }
}

/// `<iterator><text> at <place> `.
fn iter_msg(op: Iter, a: &str, t: &Typ<FlatTyp>, with_typ: bool, l: Loc) -> (s: String)
    ensures
        s@ == if with_typ {
            iter_text(op) + a@ + typ_text(t@) + " at "@ + loc_text(l) + " "@
        } else {
            iter_text(op) + a@ + " at "@ + loc_text(l) + " "@
        },
{
    let mut s = op.to_string();
    push_str(&mut s, a);
    if with_typ {
        push_str(&mut s, t.to_string().as_str());
    }
    push_str(&mut s, " at ");
    push_str(&mut s, l.to_string().as_str());
    push_str(&mut s, " ");
    s
}

/// Checking an iteration.
#[verifier::spinoff_prover]
#[verifier::rlimit(60)]
fn tc_iter_exec(l: Loc, e: &PExpr, h: &Headers<FlatTyp>, ret: &mut ReturnType, c: &Context) -> (r: Result<ExprAndMeta, Error>)
    ensures
        (final(ret)@, res_view(r)) == tc_iter(l, e@, h@, old(ret)@, c@),
    decreases e, 0int,
{
    proof {
        reveal_with_fuel(tc_iter, 1);
        reveal_with_fuel(tc_e, 1);
        reveal_with_fuel(tc_block, 1);
    }
    match e {
        PExpr::IterExpr { op, idents, expr, body, accumulator } => {
            let x1 = match tc_expr(expr.0, &expr.1, h, ret, c) {
                Ok(x) => x,
                Err(m) => return Err(m),
            };
            let c1 = match iter_ctx_exec(c, idents, &x1.typ) {
                Some(c1) => c1,
                None => return Err(Error(iter_msg(*op, " over expression of type ", &x1.typ, true, l))),
            };
            let c2 = match accumulator {
                Some((_, a)) => if *op == Iter::Fold {
                    match tc_expr(a.0, &a.1, h, ret, c) {
                        Ok(xa) => c1.add_var("acc", &xa.typ),
                        Err(m) => return Err(m),
                    }
                } else {
                    c1
                },
                None => c1,
            };
            let x2 = match tc_block_exec(body, h, ret, &c2) {
                Ok(x) => x,
                Err(m) => return Err(m),
            };
            if idents.len() == usize::MAX || !x2.expr.fits_depth(idents.len() + 1) {
                return Err(Error(msg_l("expression nested too deeply at ", l)));
            }
            let bl = block_loc_exec(body, l);
            if let Some(m) = body_check_exec(*op, bl, &x2.typ) {
                return Err(Error(m));
            }
            let vs = ident_names(idents);
            match accumulator {
                None => match iter_typ_exec(*op, &x1.typ, &x2.typ) {
                    Some(t) => Ok(ExprAndMeta {
                        expr: x2.expr.iter_expr(*op, vs, x1.expr, None),
                        calls: join_calls(x1.calls, x2.calls),
                        typ: t,
                    }),
                    None => if *op == Iter::Fold {
                        Err(Error(iter_msg(*op, " can not be defined without an accumulator", &x1.typ, false, l)))
                    } else {
                        Err(Error("expecting Option<..> type".to_owned()))
                    },
                },
                Some((_, a)) => if *op == Iter::Fold {
                    let x3 = match tc_expr(a.0, &a.1, h, ret, c) {
                        Ok(x) => x,
                        Err(m) => return Err(m),
                    };
                    match check1("fold-expression", Some(bl), x2.typ.dup(), None, x3.typ.dup()) {
                        Some(m) => Err(Error(m)),
                        None => Ok(ExprAndMeta {
                            expr: x2.expr.iter_expr(*op, vs, x1.expr, Some(x3.expr)),
                            calls: join_calls(join_calls(x1.calls, x2.calls), x3.calls),
                            typ: x3.typ,
                        }),
                    }
                } else {
                    Err(Error(iter_msg(*op, " can have an accumulator", &x1.typ, false, l)))
                },
            }
        },
        _ => Err(Error(String::new())),
    }
}

/// The result type of a call of a declared function.
fn call_typ_exec(f: &str, types: &Vec<Typ<FlatTyp>>, declared: Typ<FlatTyp>) -> (r: Option<Typ<FlatTyp>>)
    ensures
        match r {
            Some(t) => call_typ(f@, types@.map_values(|t: Typ<FlatTyp>| t@), declared@) == Some(t@),
            None => call_typ(f@, types@.map_values(|t: Typ<FlatTyp>| t@), declared@) is None,
        },
{
    if str_eq(f, "list::reduce") {
        if types.len() > 0 {
            match &types[0] {
                Typ::List(inner) => Some((**inner).option()),
                _ => None,
            }
        } else {
            None
        }
    } else if str_eq(f, "list::difference") || str_eq(f, "list::intersection") {
        if types.len() > 0 { Some(types[0].dup()) } else { None }
    } else {
        Some(declared)
    }
}

/// Checking a call.
#[verifier::spinoff_prover]
#[verifier::rlimit(60)]
fn tc_call_exec(l: Loc, e: &PExpr, h: &Headers<FlatTyp>, ret: &mut ReturnType, c: &Context) -> (r: Result<ExprAndMeta, Error>)
    ensures
        (final(ret)@, res_view(r)) == tc_call(l, e@, h@, old(ret)@, c@),
    decreases e, 0int,
{
    proof {
        reveal_with_fuel(tc_call, 1);
        reveal_with_fuel(tc_e, 1);
        reveal_with_fuel(tc_all, 1);
    }
    match e {
        PExpr::CallExpr { loc, function, arguments } => {
            proof { lemma_loc_exprs_sv(arguments@); }
            if str_eq(function.as_str(), "option::Some") && arguments.len() == 1 {
                proof { vstd::std_specs::vec::axiom_vec_index_decreases(*arguments, 0); }
                let x = match tc_expr(arguments[0].0, &arguments[0].1, h, ret, c) {
                    Ok(x) => x,
                    Err(m) => return Err(m),
                };
                let ExprAndMeta { expr, calls, typ } = x;
                let mut args: Vec<Exp> = Vec::new();
                let ghost ev = expr@;
                args.push(expr);
                proof {
                    lemma_exprs_map(args@);
                    assert(args@.map_values(|e: Exp| e@) =~= seq![ev]);
                }
                let mut ts: Vec<Typ<FlatTyp>> = Vec::new();
                ts.push(typ);
                assert(ts@.map_values(|t: Typ<FlatTyp>| t@) =~= seq![ts@[0]@]);
                return Ok(ExprAndMeta { expr: Exp::call(function.as_str(), args), calls, typ: Typ::tuple(ts) });
            }
            let ghost ret0 = old(ret)@;
            let xs = match tc_all_exec(arguments, 0, h, ret, c) {
                Ok(xs) => xs,
                Err(m) => return Err(m),
            };
            proof { lemma_tc_all_len(arguments@.map_values(|x: LocExpr| x@), 0, h@, ret0, c@); }
            proof {
                reveal_strlit(".::");
                assert(".::"@ =~= dot_prefix());
            }
            if starts_with(function.as_str(), ".::") && xs.len() == 0 {
                return Err(Error(msg_q("undeclared function \"", function.as_str(), "\" at ", l)));
            }
            let (exprs, calls, types) = split_vec(xs);
            let f = Headers::<FlatTyp>::resolve(function.as_str(), types.as_slice());
            match h.typ(f.as_str()) {
                Some(sig) => {
                    let (args, decl) = sig.split();
                    let chk = match args {
                        Some(args) => {
                            let ghost tv = types@.map_values(|t: Typ<FlatTyp>| t@);
                            let ghost asv = arguments@.map_values(|x: LocExpr| x@);
                            let mut v1: Vec<LocType<FlatTyp>> = Vec::new();
                            let mut k: usize = 0;
                            while k < types.len()
                                invariant
                                    k <= types@.len(),
                                    types@.len() == arguments@.len(),
                                    tv == types@.map_values(|t: Typ<FlatTyp>| t@),
                                    asv == arguments@.map_values(|x: LocExpr| x@),
                                    loc_types_view(v1@) == located(asv, tv).take(k as int),
                                decreases types.len() - k,
                            {
                                let ghost p1 = v1@;
                                v1.push((Some(arguments[k].0), types[k].dup()));
                                proof {
                                    let a = located(asv, tv);
                                    assert(a.take(k + 1) =~= a.take(k as int).push(a[k as int]));
                                    assert(loc_types_view(v1@) =~= loc_types_view(p1).push(a[k as int]));
                                }
                                k = k + 1;
                            }
                            assert(located(asv, tv).take(types@.len() as int) =~= located(asv, tv));
                            let mut v2: Vec<LocType<FlatTyp>> = Vec::new();
                            let mut j: usize = 0;
                            while j < args.len()
                                invariant
                                    j <= args@.len(),
                                    loc_types_view(v2@) == unlocated(args@.map_values(|t: Typ<FlatTyp>| t@)).take(j as int),
                                decreases args.len() - j,
                            {
                                let ghost p2 = v2@;
                                v2.push((None, args[j].dup()));
                                proof {
                                    let b = unlocated(args@.map_values(|t: Typ<FlatTyp>| t@));
                                    assert(b.take(j + 1) =~= b.take(j as int).push(b[j as int]));
                                    assert(loc_types_view(v2@) =~= loc_types_view(p2).push(b[j as int]));
                                }
                                j = j + 1;
                            }
                            assert(unlocated(args@.map_values(|t: Typ<FlatTyp>| t@)).take(args@.len() as int) =~= unlocated(args@.map_values(|t: Typ<FlatTyp>| t@)));
                            check_exec(f.as_str(), v1, v2)
                        },
                        None => None,
                    };
                    if let Some(m) = chk {
                        return Err(Error(m));
                    }
                    match call_typ_exec(f.as_str(), &types, decl) {
                        Some(t) => {
                            let is_async = t.same(&Typ::unit()) && c.async_tag;
                            let ghost cv = calls@.map_values(|x: Call| x@);
                            let mut calls = calls;
                            calls.push(Call { loc: *loc, name: f.clone() });
                            assert(calls@.map_values(|x: Call| x@) =~= cv.push((*loc, f@)));
                            Ok(ExprAndMeta { expr: Exp::CallExpr { function: f, arguments: exprs, is_async }, calls, typ: t })
                        },
                        None => Err(Error(msg_q("unexpected arguments of \"", f.as_str(), "\" at ", l))),
                    }
                },
                None => match parse_usize(f.as_str()) {
                    Some(i) => {
                        if types.len() == 1 {
                            match &types[0] {
                                Typ::Tuple(tl) => {
                                    if i < tl.len() {
                                        return Ok(ExprAndMeta { expr: Exp::call(f.as_str(), exprs), calls, typ: tl[i].dup() });
                                    } else {
                                        let mut m = "tuple index function \"".to_owned();
                                        push_str(&mut m, f.as_str());
                                        push_str(&mut m, "\" called on tuple with just ");
                                        push_str(&mut m, u64_to_string(tl.len() as u64).as_str());
                                        push_str(&mut m, " elements at ");
                                        push_str(&mut m, l.to_string().as_str());
                                        return Err(Error(m));
                                    }
                                },
                                _ => {},
                            }
                        }
                        let mut texts: Vec<String> = Vec::new();
                        let mut k: usize = 0;
                        while k < types.len()
                            invariant
                                k <= types@.len(),
                                texts@.map_values(|x: String| x@) == types@.map_values(|t: Typ<FlatTyp>| t@).map_values(|t: T| typ_text(t)).take(k as int),
                            decreases types.len() - k,
                        {
                            let ghost pt = texts@;
                            texts.push(types[k].to_string());
                            proof {
                                let w = types@.map_values(|t: Typ<FlatTyp>| t@).map_values(|t: T| typ_text(t));
                                assert(w.take(k + 1) =~= w.take(k as int).push(w[k as int]));
                                assert(texts@.map_values(|x: String| x@) =~= pt.map_values(|x: String| x@).push(w[k as int]));
                            }
                            k = k + 1;
                        }
                        assert(types@.map_values(|t: Typ<FlatTyp>| t@).map_values(|t: T| typ_text(t)).take(types@.len() as int)
                            =~= types@.map_values(|t: Typ<FlatTyp>| t@).map_values(|t: T| typ_text(t)));
                        let mut m = "tuple index function \"".to_owned();
                        push_str(&mut m, f.as_str());
                        push_str(&mut m, "\" called on non-tuple (");
                        push_str(&mut m, join_texts(&texts, ",").as_str());
                        push_str(&mut m, ") at ");
                        push_str(&mut m, l.to_string().as_str());
                        Err(Error(m))
                    },
                    None => Err(Error(msg_q("undeclared function \"", f.as_str(), "\" at ", l))),
                },
            }
        },
        _ => Err(Error(String::new())),
    }
}

/// Checking a block.
pub fn tc_block_exec(b: &BlockStmt, h: &Headers<FlatTyp>, ret: &mut ReturnType, c: &Context) -> (r: Result<ExprAndMeta, Error>)
    ensures
        (final(ret)@, res_view(r)) == tc_block(b@, h@, old(ret)@, c@),
    decreases b, 0int,
{
    proof {
        reveal_with_fuel(tc_block, 1);
        reveal_with_fuel(tc_stmts, 1);
    }
    proof { lemma_loc_stmts_sv(b.statements@); }
    tc_stmts_exec(&b.statements, 0, b.async_tag, h, ret, c)
}

/// Checking the statements of a block from the `i`-th on.
#[verifier::spinoff_prover]
#[verifier::rlimit(60)]
fn tc_stmts_exec(ss: &Vec<LocStmt>, i: usize, a: bool, h: &Headers<FlatTyp>, ret: &mut ReturnType, c: &Context) -> (r: Result<ExprAndMeta, Error>)
    requires
        i <= ss@.len(),
    ensures
        (final(ret)@, res_view(r)) == tc_stmts(ss@.map_values(|s: LocStmt| s@), i as int, a, h@, old(ret)@, c@),
    decreases ss, ss@.len() - i,
{
    proof {
        reveal_with_fuel(tc_stmts, 1);
        reveal_with_fuel(tc_e, 1);
    }
    let c1 = c.update_async_tag(a);
    if i >= ss.len() {
        let v: Vec<Exp> = Vec::new();
        assert(exprs_view(v@) =~= Seq::<EV>::empty());
        return Ok(ExprAndMeta { expr: Exp::BlockExpr(Block::Block, v), calls: no_calls(), typ: Typ::unit() });
    }
    proof { vstd::std_specs::vec::axiom_vec_index_decreases(*ss, i as int); }
    let sl = ss[i].0;
    match &ss[i].1 {
        Stmt::ReturnStmt(re) => {
            if i + 1 == ss.len() {
                let x = match tc_expr(re.0, &re.1, h, ret, &c1) {
                    Ok(x) => x,
                    Err(m) => return Err(m),
                };
                match ret.get() {
                    Some(rt) => if let Some(m) = check1("return", Some(re.0), x.typ.dup(), None, rt) {
                        return Err(Error(m));
                    },
                    None => ret.set(x.typ.dup()),
                }
                let ghost xe = x.expr@;
                let mut v: Vec<Exp> = Vec::new();
                v.push(Exp::return_expr(x.expr));
                proof {
                    lemma_exprs_map(v@);
                    assert(exprs_view(v@) =~= seq![ExprV::ReturnExpr(Box::new(xe))]);
                }
                Ok(ExprAndMeta { expr: Exp::BlockExpr(Block::Block, v), calls: x.calls, typ: Typ::rreturn() })
            } else {
                Err(Error(msg_l("unreachable code after return at ", sl)))
            }
        },
        Stmt::ExprStmt { exp, async_tag, semi } => {
            let x1 = match tc_expr(sl, exp, h, ret, &c1.update_async_tag(*async_tag)) {
                Ok(x) => x,
                Err(m) => return Err(m),
            };
            if i + 1 == ss.len() {
                let t = if *semi { Typ::unit() } else { x1.typ };
                Ok(ExprAndMeta { expr: x1.expr, calls: x1.calls, typ: t })
            } else if !*semi {
                Err(Error(msg_l("missing semi-colon after expression at ", sl)))
            } else {
                let x2 = match tc_stmts_exec(ss, i + 1, a, h, ret, &c1) {
                    Ok(x) => x,
                    Err(m) => return Err(m),
                };
                let ExprAndMeta { expr: e2, calls: c2, typ: t2 } = x2;
                let e = match e2 {
                    Exp::BlockExpr(Block::Block, b) => {
                        let ghost bv = b@;
                        let ghost x1e = x1.expr@;
                        let mut v: Vec<Exp> = Vec::new();
                        v.push(x1.expr);
                        let ghost first = v@;
                        let mut b = b;
                        v.append(&mut b);
                        proof {
                            lemma_exprs_map(v@);
                            lemma_exprs_map(bv);
                            lemma_exprs_map(first);
                            assert(v@ == first + bv);
                            assert(v@.map_values(|x: Exp| x@) =~= first.map_values(|x: Exp| x@) + bv.map_values(|x: Exp| x@));
                            assert(first.map_values(|x: Exp| x@) =~= seq![x1e]);
                            assert(exprs_view(v@) =~= seq![x1e] + exprs_view(bv));
                        }
                        Exp::BlockExpr(Block::Block, v)
                    },
                    other => {
                        let ghost x1e = x1.expr@;
                        let ghost oe = other@;
                        let mut v: Vec<Exp> = Vec::new();
                        v.push(x1.expr);
                        v.push(other);
                        proof {
                            lemma_exprs_map(v@);
                            assert(exprs_view(v@) =~= seq![x1e, oe]);
                        }
                        Exp::BlockExpr(Block::Block, v)
                    },
                };
                Ok(ExprAndMeta { expr: e, calls: join_calls(x1.calls, c2), typ: t2 })
            }
        },
        Stmt::LetStmt(ids, le) => {
            let x1 = match tc_expr(le.0, &le.1, h, ret, &c1) {
                Ok(x) => x,
                Err(m) => return Err(m),
            };
            let c2 = if ids.len() == 1 {
                c1.add_var(ids[0].id(), &x1.typ)
            } else {
                match &x1.typ {
                    Typ::Tuple(tys) => if ids.len() == tys.len() {
                        let r = add_vars_exec(&c1, ids, tys);
                        assert(x1.typ@->Tuple_0 =~= tys@.map_values(|t: Typ<FlatTyp>| t@));
                        r
                    } else {
                        return Err(Error(let_msg(ids.len(), &x1.typ, sl)));
                    },
                    _ => return Err(Error(let_msg(ids.len(), &x1.typ, sl))),
                }
            };
            let x2 = match tc_stmts_exec(ss, i + 1, a, h, ret, &c2) {
                Ok(x) => x,
                Err(m) => return Err(m),
            };
            if !x2.expr.fits_depth(ids.len()) {
                return Err(Error(msg_l("expression nested too deeply at ", sl)));
            }
            let vs = ident_names(ids);
            Ok(ExprAndMeta { expr: x2.expr.let_expr(vs, x1.expr), calls: join_calls(x1.calls, x2.calls), typ: x2.typ })
        },
    }
}

/// The error of a `let` whose variables do not fit the value's type.
fn let_msg(n: usize, t: &Typ<FlatTyp>, l: Loc) -> (s: String)
    ensures
        s@ == nat_decimal(n as nat) + " variables in let expression of type "@ + typ_text(t@) + " at "@ + loc_text(l) + " "@,
{
    let mut s = u64_to_string(n as u64);
    push_str(&mut s, " variables in let expression of type ");
    push_str(&mut s, t.to_string().as_str());
    push_str(&mut s, " at ");
    push_str(&mut s, l.to_string().as_str());
    push_str(&mut s, " ");
    s
}

} // verus!
