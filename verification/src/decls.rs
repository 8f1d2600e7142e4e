//! From parsed text to checked code: written types read as types, the
//! signatures of declared functions, and the checks of a block, of an
//! expression and of a whole function declaration.

use vstd::prelude::*;
use crate::lexer::{Loc, lex_v, try_lex};
use crate::types::{TFlatTyp, FlatTyp, Typ, TypV, ErrorV, SigV, Signature, Error as TypeError, flat_t};
use crate::parser::{Typ as PTyp, TypSV, Param, FnHeadSV, FnDeclSV, HeadSV, Head, FnDecl, BlockSV, BlockStmt, LocExprSV, LocExpr, typs_sv};
use crate::grammar::{expr_eof_spec, block_eof_spec};
use crate::parsing::{parse_expr_eof, parse_block_stmt_eof, tv};
use crate::headers::{Headers, headers_typ};
use crate::checker::{
    T, CtxV, CheckedV, Call, ExprAndMeta, Context, ReturnType, add_var, check, type_error_text, too_deep,
    tc_e, tc_block, tc_expr, tc_block_exec, res_view, type_error_string,
};
use crate::expressions::{Error, closures_v, depth_ok};
use crate::evaluate::{Exp, EV};
use crate::text::push_str;
use vstd::utf8::encode_utf8;

verus! {

/// A written type read as a type: a flat type by its name, `List<t>`,
/// `Option<t>` (a tuple of one), `()` (unit), `(t)` (`t`) and tuples.
pub open spec fn typ_parse<F: TFlatTyp>(t: TypSV) -> Result<TypV<F>, ErrorV<F>>
    decreases t, 1int,
{
    match t {
        TypSV::Atom(a) => match F::parse_spec(a.1) {
            Some(f) => Ok(TypV::Flat(f)),
            None => Err(ErrorV::Parse(a.1)),
        },
        TypSV::Cons(c, b) => if c.1 == "List"@ || c.1 == "Option"@ {
            match typ_parse::<F>(*b) {
                Ok(x) => if c.1 == "List"@ { Ok(TypV::List(Box::new(x))) } else { Ok(TypV::Tuple(seq![x])) },
                Err(e) => Err(e),
            }
        } else {
            Err(ErrorV::Parse("expecting \"List\", got "@ + c.1))
        },
        TypSV::Tuple(l) => if l.len() == 0 {
            Ok(flat_t::<F>(FlatTyp::Unit))
        } else if l.len() == 1 {
            match typs_parse::<F>(l, 0) {
                Ok(ts) => Ok(ts[0]),
                Err(e) => Err(e),
            }
        } else {
            match typs_parse::<F>(l, 0) {
                Ok(ts) => Ok(TypV::Tuple(ts)),
                Err(e) => Err(e),
            }
        },
    }
}

/// Written types read from the `i`-th on, stopping at the first error.
pub open spec fn typs_parse<F: TFlatTyp>(l: Seq<TypSV>, i: int) -> Result<Seq<TypV<F>>, ErrorV<F>>
    decreases l, l.len() - i,
{
    if i < 0 || i >= l.len() {
        Ok(Seq::empty())
    } else {
        match typ_parse::<F>(l[i]) {
            Err(e) => Err(e),
            Ok(t) => match typs_parse::<F>(l, i + 1) {
                Ok(ts) => Ok(seq![t] + ts),
                Err(e) => Err(e),
            },
        }
    }
}

/// A written type's result as a model.
pub open spec fn typ_res_view<F>(r: Result<Typ<F>, TypeError<F>>) -> Result<TypV<F>, ErrorV<F>> {
    match r {
        Ok(t) => Ok(t@),
        Err(e) => Err(e@),
    }
}

/// The written return type, unit when there is none.
pub open spec fn ret_parse<F: TFlatTyp>(t: Option<TypSV>) -> Result<TypV<F>, ErrorV<F>> {
    match t {
        Some(x) => typ_parse::<F>(x),
        None => Ok(flat_t::<F>(FlatTyp::Unit)),
    }
}

/// The signature of a declared function: return type first, then the
/// parameters' types in order.
pub open spec fn fn_sig<F: TFlatTyp>(h: FnHeadSV) -> Result<SigV<F>, ErrorV<F>> {
    match ret_parse::<F>(h.typ) {
        Err(e) => Err(e),
        Ok(ty) => match typs_parse::<F>(h.params.map_values(|p: ((Loc, Seq<char>), TypSV)| p.1), 0) {
            Ok(args) => Ok((Some(args), ty)),
            Err(e) => Err(e),
        },
    }
}

/// The signature of an external function (any arguments for `_`).
pub open spec fn head_sig<F: TFlatTyp>(h: HeadSV) -> Result<SigV<F>, ErrorV<F>> {
    match ret_parse::<F>(h.typ) {
        Err(e) => Err(e),
        Ok(ty) => match h.typs {
            None => Ok((None, ty)),
            Some(l) => match typs_parse::<F>(l, 0) {
                Ok(args) => Ok((Some(args), ty)),
                Err(e) => Err(e),
            },
        },
    }
}

/// A signature's result as a model.
pub open spec fn sig_res_view<F>(r: Result<Signature<F>, TypeError<F>>) -> Result<SigV<F>, ErrorV<F>> {
    match r {
        Ok(s) => Ok(s@),
        Err(e) => Err(e@),
    }
}

impl<F: TFlatTyp> Typ<F> {
    /// The type that a written type stands for.
    pub fn from_parse(ty: &PTyp) -> (r: Result<Typ<F>, TypeError<F>>)
        ensures
            typ_res_view(r) == typ_parse::<F>(ty@),
        decreases ty, 1int,
    {
        proof {
            reveal_with_fuel(typ_parse, 1);
            reveal_with_fuel(typs_parse, 1);
        }
        match ty {
            PTyp::Atom(a) => match F::try_from_str(a.id()) {
                Some(f) => Ok(Typ::FlatTyp(f)),
                None => Err(TypeError::Parse(a.id().to_owned())),
            },
            PTyp::Cons(c, b) => {
                let is_list = crate::text::str_eq(c.id(), "List");
                let is_option = crate::text::str_eq(c.id(), "Option");
                if is_list || is_option {
                    match Typ::<F>::from_parse(b) {
                        Ok(x) => if is_list { Ok(Typ::list(x)) } else {
                            let mut v: Vec<Typ<F>> = Vec::new();
                            let ghost xv = x@;
                            v.push(x);
                            let t = Typ::tuple(v);
                            assert(t@ == TypV::Tuple(seq![xv])) by {
                                assert(v@.map_values(|t: Typ<F>| t@) =~= seq![xv]);
                            }
                            Ok(t)
                        },
                        Err(e) => Err(e),
                    }
                } else {
                    let mut m = "expecting \"List\", got ".to_owned();
                    push_str(&mut m, c.id());
                    Err(TypeError::Parse(m))
                }
            },
            PTyp::Tuple(l) => {
                proof { crate::parser::lemma_typs_sv(l@); }
                if l.len() == 0 {
                    Ok(Typ::unit())
                } else {
                    match Typ::<F>::from_parse_list(l, 0) {
                        Ok(ts) => if l.len() == 1 {
                            let mut ts = ts;
                            assert(ts@.len() == 1);
                            let t = ts.remove(0);
                            Ok(t)
                        } else {
                            Ok(Typ::tuple(ts))
                        },
                        Err(e) => Err(e),
                    }
                }
            },
        }
    }

    /// The types that written types stand for, from the `i`-th on.
    pub fn from_parse_list(l: &Vec<PTyp>, i: usize) -> (r: Result<Vec<Typ<F>>, TypeError<F>>)
        requires
            i <= l@.len(),
        ensures
            match r {
                Ok(v) => typs_parse::<F>(typs_sv(l@), i as int) == Ok::<Seq<TypV<F>>, ErrorV<F>>(v@.map_values(|t: Typ<F>| t@)),
                Err(e) => typs_parse::<F>(typs_sv(l@), i as int) == Err::<Seq<TypV<F>>, ErrorV<F>>(e@),
            },
            r matches Ok(v) ==> v@.len() == l@.len() - i,
        decreases l, l@.len() - i,
    {
        proof {
            reveal_with_fuel(typs_parse, 1);
            crate::parser::lemma_typs_sv(l@);
        }
        if i >= l.len() {
            let v: Vec<Typ<F>> = Vec::new();
            assert(v@.map_values(|t: Typ<F>| t@) =~= Seq::<TypV<F>>::empty());
            return Ok(v);
        }
        proof { vstd::std_specs::vec::axiom_vec_index_decreases(*l, i as int); }
        let t = match Typ::<F>::from_parse(&l[i]) {
            Ok(t) => t,
            Err(e) => return Err(e),
        };
        match Typ::<F>::from_parse_list(l, i + 1) {
            Ok(mut ts) => {
                let ghost old_ts = ts@;
                let ghost tv = t@;
                ts.insert(0, t);
                assert(ts@.map_values(|t: Typ<F>| t@) =~= seq![tv] + old_ts.map_values(|t: Typ<F>| t@));
                Ok(ts)
            },
            Err(e) => Err(e),
        }
    }
}

impl Param {
    /// The type of the parameter.
    pub fn typ<F: TFlatTyp>(&self) -> (r: Result<Typ<F>, TypeError<F>>)
        ensures
            typ_res_view(r) == typ_parse::<F>(self.typ@),
    {
        Typ::<F>::from_parse(&self.typ)
    }
}

/// The return type that an optional written type stands for.
fn ret_typ<F: TFlatTyp>(t: &Option<PTyp>) -> (r: Result<Typ<F>, TypeError<F>>)
    ensures
        typ_res_view(r) == ret_parse::<F>(crate::parser::opt_typ_sv(*t)),
{
    match t {
        Some(x) => Typ::<F>::from_parse(x),
        None => Ok(Typ::unit()),
    }
}

/// The types of parameters from the `i`-th on.
fn param_typs<F: TFlatTyp>(ps: &Vec<Param>, i: usize) -> (r: Result<Vec<Typ<F>>, TypeError<F>>)
    requires
        i <= ps@.len(),
    ensures
        match r {
            Ok(v) => typs_parse::<F>(crate::parser::params_sv(ps@).map_values(|p: ((Loc, Seq<char>), TypSV)| p.1), i as int)
                == Ok::<Seq<TypV<F>>, ErrorV<F>>(v@.map_values(|t: Typ<F>| t@)),
            Err(e) => typs_parse::<F>(crate::parser::params_sv(ps@).map_values(|p: ((Loc, Seq<char>), TypSV)| p.1), i as int)
                == Err::<Seq<TypV<F>>, ErrorV<F>>(e@),
        },
    decreases ps@.len() - i,
{
    proof { reveal_with_fuel(typs_parse, 1); }
    let ghost pts = crate::parser::params_sv(ps@).map_values(|p: ((Loc, Seq<char>), TypSV)| p.1);
    if i >= ps.len() {
        let v: Vec<Typ<F>> = Vec::new();
        assert(v@.map_values(|t: Typ<F>| t@) =~= Seq::<TypV<F>>::empty());
        return Ok(v);
    }
    assert(pts[i as int] == ps@[i as int].typ@);
    let t = match ps[i].typ::<F>() {
        Ok(t) => t,
        Err(e) => return Err(e),
    };
    match param_typs::<F>(ps, i + 1) {
        Ok(mut ts) => {
            let ghost old_ts = ts@;
            let ghost tv = t@;
            ts.insert(0, t);
            assert(ts@.map_values(|t: Typ<F>| t@) =~= seq![tv] + old_ts.map_values(|t: Typ<F>| t@));
            Ok(ts)
        },
        Err(e) => Err(e),
    }
}

impl FnDecl {
    /// The signature of the function.
    pub fn typ<F: TFlatTyp>(&self) -> (r: Result<Signature<F>, TypeError<F>>)
        ensures
            sig_res_view(r) == fn_sig::<F>(self.head@),
    {
        let ty = match ret_typ::<F>(&self.head.typ) {
            Ok(t) => t,
            Err(e) => return Err(e),
        };
        match param_typs::<F>(&self.head.params, 0) {
            Ok(args) => Ok(Signature::new(args, ty)),
            Err(e) => Err(e),
        }
    }
}

impl Head {
    /// The signature of the external function.
    pub fn typ<F: TFlatTyp>(&self) -> (r: Result<Signature<F>, TypeError<F>>)
        ensures
            sig_res_view(r) == head_sig::<F>(self@),
    {
        let ty = match ret_typ::<F>(&self.typ) {
            Ok(t) => t,
            Err(e) => return Err(e),
        };
        match &self.typs {
            None => Ok(Signature::any(ty)),
            Some(l) => match Typ::<F>::from_parse_list(l, 0) {
                Ok(args) => {
                    proof {
                        crate::parser::lemma_typs_sv(l@);
                        assert(l@.map_values(|t: PTyp| t@) =~= typs_sv(l@));
                    }
                    Ok(Signature::new(args, ty))
                },
                Err(e) => {
                    proof {
                        crate::parser::lemma_typs_sv(l@);
                        assert(l@.map_values(|t: PTyp| t@) =~= typs_sv(l@));
                    }
                    Err(e)
                },
            },
        }
    }
}

/// No variables, not `async`.
pub open spec fn empty_ctx() -> CtxV {
    CtxV { vars: Map::empty(), async_tag: false }
}

/// The check of a type that `return` gave against the checked code's.
pub open spec fn ret_check(x: CheckedV, r: Option<T>, name: Seq<char>) -> Option<Seq<char>> {
    match r {
        Some(rt) => check(name, seq![(None, x.typ)], seq![(None, rt)]),
        None => None,
    }
}

/// Checking a block in a context: the block's type must agree with that
/// of its `return`s (checked under the function's name, or `REPL`), and,
/// for a function, with its declared return type.
pub open spec fn check_block_spec(
    b: BlockSV,
    h: Map<Seq<char>, SigV<FlatTyp>>,
    c: CtxV,
    name: Option<Seq<char>>,
) -> Result<CheckedV, Seq<char>> {
    let t = tc_block(b, h, None, c);
    match t.1 {
        Err(m) => Err(m),
        Ok(x) => match ret_check(x, t.0, match name { Some(n) => n, None => "REPL"@ }) {
            Some(m) => Err(m),
            None => match name {
                None => Ok(x),
                Some(n) => match headers_typ(h, n) {
                    None => Err("no current function"@),
                    Some(sg) => match check(n, seq![(None, x.typ)], seq![(None, sg.1)]) {
                        Some(m) => Err(m),
                        None => Ok(x),
                    },
                },
            },
        },
    }
}

/// Checking an expression in a context: its type must agree with that of
/// its `return`s.
pub open spec fn check_expr_spec(e: LocExprSV, h: Map<Seq<char>, SigV<FlatTyp>>, c: CtxV) -> Result<CheckedV, Seq<char>> {
    let t = tc_e(e.0, e.1, h, None, c);
    match t.1 {
        Err(m) => Err(m),
        Ok(x) => match ret_check(x, t.0, "REPL"@) {
            Some(m) => Err(m),
            None => Ok(x),
        },
    }
}

/// The context of a function's body: its parameters from the `k`-th
/// down to the first, each with the type it is written with.
pub open spec fn decl_ctx(ps: Seq<((Loc, Seq<char>), TypSV)>, k: int, c: CtxV) -> Result<CtxV, Seq<char>>
    decreases k,
{
    if k <= 0 || k > ps.len() {
        Ok(c)
    } else {
        match typ_parse::<FlatTyp>(ps[k - 1].1) {
            Err(e) => Err(type_error_text(e)),
            Ok(t) => decl_ctx(ps, k - 1, add_var(c, ps[k - 1].0.1, t)),
        }
    }
}

/// The names of parameters.
pub open spec fn param_names(ps: Seq<((Loc, Seq<char>), TypSV)>) -> Seq<Seq<char>> {
    ps.map_values(|p: ((Loc, Seq<char>), TypSV)| p.0.1)
}

/// Checking a function declaration: its name, its body as closures over
/// its parameters (the first outermost), and the functions it calls.
pub open spec fn from_decl_spec(d: FnDeclSV, h: Map<Seq<char>, SigV<FlatTyp>>) -> Result<(Seq<char>, EV, Seq<(Loc, Seq<char>)>), Seq<char>> {
    let ps = d.head.params;
    match decl_ctx(ps, ps.len() as int, empty_ctx()) {
        Err(m) => Err(m),
        Ok(c) => match check_block_spec(d.body, h, c, Some(d.head.id.1)) {
            Err(m) => Err(m),
            Ok(x) => if !depth_ok(x.expr, ps.len()) {
                Err(too_deep(d.head.id.0))
            } else {
                Ok((d.head.id.1, closures_v(x.expr, param_names(ps)), x.calls))
            },
        },
    }
}

/// Reading code: a block if the whole text is one, else an expression,
/// checked with no variables.
pub open spec fn from_string_spec(buf: Seq<char>, h: Map<Seq<char>, SigV<FlatTyp>>) -> Result<EV, Seq<char>> {
    match lex_v(buf) {
        None => Err("syntax error"@),
        Some(toks) => match block_eof_spec(toks) {
            Some(b) => match check_block_spec(b, h, empty_ctx(), None) {
                Ok(x) => Ok(x.expr),
                Err(m) => Err(m),
            },
            None => match expr_eof_spec(toks) {
                Some(e) => match check_expr_spec(e, h, empty_ctx()) {
                    Ok(x) => Ok(x.expr),
                    Err(m) => Err(m),
                },
                None => Err("syntax error"@),
            },
        },
    }
}

/// Checking a block in a context (see `check_block_spec`).
pub fn check_from_block_stmt(block: &BlockStmt, headers: &Headers<FlatTyp>, ctxt: &Context, name: Option<&str>) -> (r: Result<ExprAndMeta, Error>)
    ensures
        res_view(r) == check_block_spec(block@, headers@, ctxt@, match name { Some(n) => Some(n@), None => None }),
{
    let mut ret = ReturnType::new();
    let em = match tc_block_exec(block, headers, &mut ret, ctxt) {
        Ok(x) => x,
        Err(m) => return Err(m),
    };
    if let Some(rtype) = ret.get() {
        let n = match name { Some(n) => n, None => "REPL" };
        if let Some(m) = crate::checker::check1(n, None, em.typ.dup(), None, rtype) {
            return Err(Error(m));
        }
    }
    if let Some(n) = name {
        let rt = match headers.return_typ(n) {
            Ok(t) => t,
            Err(e) => return Err(Error(e.0)),
        };
        if let Some(m) = crate::checker::check1(n, None, em.typ.dup(), None, rt) {
            return Err(Error(m));
        }
    }
    Ok(em)
}

/// Checking an expression in a context (see `check_expr_spec`).
pub fn check_from_loc_expr(e: &LocExpr, headers: &Headers<FlatTyp>, ctxt: &Context) -> (r: Result<ExprAndMeta, Error>)
    ensures
        res_view(r) == check_expr_spec(e@, headers@, ctxt@),
{
    let mut ret = ReturnType::new();
    let em = match tc_expr(e.0, &e.1, headers, &mut ret, ctxt) {
        Ok(x) => x,
        Err(m) => return Err(m),
    };
    if let Some(rtype) = ret.get() {
        if let Some(m) = crate::checker::check1("REPL", None, em.typ.dup(), None, rtype) {
            return Err(Error(m));
        }
    }
    Ok(em)
}

/// Checking a function declaration (see `from_decl_spec`).
pub fn from_decl<'a>(decl: &'a FnDecl, headers: &Headers<FlatTyp>) -> (r: Result<(&'a str, Exp, Vec<Call>), Error>)
    ensures
        match r {
            Ok((n, e, cs)) => from_decl_spec(decl@, headers@) == Ok::<(Seq<char>, EV, Seq<(Loc, Seq<char>)>), Seq<char>>(
                (n@, e@, cs@.map_values(|c: Call| c@))),
            Err(m) => from_decl_spec(decl@, headers@) == Err::<(Seq<char>, EV, Seq<(Loc, Seq<char>)>), Seq<char>>(m.0@),
        },
{
    let ps = &decl.head.params;
    let ghost psv = crate::parser::params_sv(ps@);
    let mut ctxt = Context::new();
    let mut k: usize = ps.len();
    assert(ctxt@ == empty_ctx());
    while k > 0
        invariant
            k <= ps@.len(),
            psv == crate::parser::params_sv(ps@),
            psv.len() == ps@.len(),
            psv == decl@.head.params,
            decl_ctx(psv, psv.len() as int, empty_ctx()) == decl_ctx(psv, k as int, ctxt@),
        decreases k,
    {
        k = k - 1;
        assert(psv[k as int] == (ps@[k as int].name@, ps@[k as int].typ@));
        let t = match ps[k].typ::<FlatTyp>() {
            Ok(t) => t,
            Err(e) => return Err(Error(type_error_string(&e))),
        };
        ctxt = ctxt.add_var(ps[k].name(), &t);
    }
    let name = decl.name();
    let em = match check_from_block_stmt(&decl.body, headers, &ctxt, Some(name)) {
        Ok(x) => x,
        Err(m) => return Err(m),
    };
    let mut vs: Vec<&str> = Vec::new();
    let mut j: usize = 0;
    while j < ps.len()
        invariant
            j <= ps@.len(),
            psv == crate::parser::params_sv(ps@),
            psv.len() == ps@.len(),
            vs@.map_values(|s: &str| s@) == param_names(psv).take(j as int),
        decreases ps.len() - j,
    {
        assert(psv[j as int] == (ps@[j as int].name@, ps@[j as int].typ@));
        let ghost before = vs@;
        let nm = ps[j].name();
        assert(nm@ == param_names(psv)[j as int]);
        vs.push(nm);
        assert(vs@.map_values(|s: &str| s@) =~= before.map_values(|s: &str| s@).push(nm@));
        assert(param_names(psv).take(j + 1) =~= param_names(psv).take(j as int).push(param_names(psv)[j as int]));
        j = j + 1;
    }
    assert(param_names(psv).take(ps@.len() as int) =~= param_names(psv));
    if !em.expr.fits_depth(ps.len()) {
        let mut m = "expression nested too deeply at ".to_owned();
        push_str(&mut m, decl.loc().to_string().as_str());
        return Err(Error(m));
    }
    let ExprAndMeta { expr, calls, typ: _ } = em;
    Ok((name, expr.closures(&vs), calls))
}

impl Exp {
    /// Reads and checks code with the given function headers (see
    /// `from_string_spec`).
    pub fn from_string(buf: &str, headers: &Headers<FlatTyp>) -> (r: Result<Exp, Error>)
        requires
            buf@.len() < 0xffff_ffff,
            encode_utf8(buf@).len() < usize::MAX,
        ensures
            match r {
                Ok(e) => from_string_spec(buf@, headers@) == Ok::<EV, Seq<char>>(e@),
                Err(m) => from_string_spec(buf@, headers@) == Err::<EV, Seq<char>>(m.0@),
            },
    {
        let toks = match try_lex(buf) {
            Some(t) => t,
            None => return Err(Error::new("syntax error")),
        };
        match parse_block_stmt_eof(toks.as_slice()) {
            Some(block) => match check_from_block_stmt(&block, headers, &Context::new(), None) {
                Ok(em) => Ok(em.expr),
                Err(m) => Err(m),
            },
            None => match parse_expr_eof(toks.as_slice()) {
                Some(e) => match check_from_loc_expr(&e, headers, &Context::new()) {
                    Ok(em) => Ok(em.expr),
                    Err(m) => Err(m),
                },
                None => Err(Error::new("syntax error")),
            },
        }
    }
}

} // verus!
