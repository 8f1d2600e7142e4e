//! Function headers of a program: the signatures of the functions it
//! declares, and the lookup of the built-in ones.

use vstd::prelude::*;
use crate::text::{str_eq, push_str, parse_usize, usize_parse, chars_of, string_from_chars, trim_start_matches};
use crate::strmap::{StrMap, Dup};
use crate::types::{TFlatTyp, Typ, TypV, Signature, SigV, typ_text, intrinsic_spec, types_view};
use crate::builtins::{typ_builtin, typ_internal_service, typ_builtins, typ_internal};
use crate::labels::{split_label, split_colons};

verus! {

/// An error about function headers.
#[derive(Debug, Clone)]
pub struct Error(pub String);

impl Error {
    /// An error with the given message.
    pub fn new(s: &str) -> (e: Error)
        ensures
            e.0@ == s@,
    {
        Error(s.to_owned())
    }
}

impl<F: TFlatTyp> Dup for Signature<F> {
    fn dup(&self) -> (r: Self) {
        Signature::dup(self)
    }
}

/// The signatures of the functions that a program declares, by name.
#[derive(Debug)]
pub struct Headers<F>(pub StrMap<Signature<F>>);

impl<F> View for Headers<F> {
    type V = Map<Seq<char>, SigV<F>>;

    open spec fn view(&self) -> Map<Seq<char>, SigV<F>> {
        self.0.map()
    }
}

/// The signature under which a name is known: that of a built-in function,
/// else of a metadata service, else of a declared function.
pub open spec fn headers_typ<F: TFlatTyp>(h: Map<Seq<char>, SigV<F>>, name: Seq<char>) -> Option<SigV<F>> {
    match typ_builtin::<F>(name) {
        Some(s) => Some(s),
        None => match typ_internal_service::<F>(name) {
            Some(s) => Some(s),
            None => if h.contains_key(name) { Some(h[name]) } else { None },
        },
    }
}

/// A built-in function, or a tuple index (a name that reads as a `usize`).
pub open spec fn is_builtin_spec<F: TFlatTyp>(name: Seq<char>) -> bool {
    typ_builtin::<F>(name) is Some || usize_parse(name) is Some
}

/// A metadata service or a built-in function.
pub open spec fn is_internal_spec<F: TFlatTyp>(name: Seq<char>) -> bool {
    typ_internal_service::<F>(name) is Some || is_builtin_spec::<F>(name)
}

/// `module::method` split at its separator, when the name has exactly one.
pub open spec fn split_spec(name: Seq<char>) -> Option<(Seq<char>, Seq<char>)> {
    let p = split_label(name);
    if p.len() == 2 { Some((p[0], p[1])) } else { None }
}

/// The method part of a built-in function's name, when the module part
/// is the name of the type of its first argument.
pub open spec fn method_spec<F: TFlatTyp>(name: Seq<char>) -> Option<Seq<char>> {
    match typ_builtin::<F>(name) {
        Some(sg) => match sg.0 {
            Some(args) => if args.len() > 0 {
                match split_spec(name) {
                    Some(mm) => if mm.0 == typ_text(args[0]) { Some(mm.1) } else { None },
                    None => None,
                }
            } else {
                None
            },
            None => None,
        },
        None => None,
    }
}

/// The prefix of dot methods.
pub open spec fn dot_prefix() -> Seq<char> {
    seq!['.', ':', ':']
}

/// The function that a name stands for: a dot method `.::m` on a value of
/// type `t` is the built-in `T::m` when there is one (`T` the name under
/// which `t`'s methods are found), and `m` otherwise.
pub open spec fn resolve_spec<F: TFlatTyp>(name: Seq<char>, typs: Seq<TypV<F>>) -> Seq<char> {
    if name.len() >= 3 && name.take(3) == dot_prefix() {
        let rest = trim_start_matches(name, dot_prefix());
        match intrinsic_spec(typs[0]) {
            Some(i) => {
                let s = i + seq![':', ':'] + rest;
                if is_builtin_spec::<F>(s) { s } else { rest }
            },
            None => rest,
        }
    } else {
        name
    }
}

/// Removes the leading copies of `.::`.
fn trim_dots(v: &Vec<char>) -> (r: Vec<char>)
    ensures
        r@ == trim_start_matches(v@, dot_prefix()),
{
    let mut i: usize = 0;
    assert(v@.skip(0) == v@);
    while v.len() - i >= 3 && v[i] == '.' && v[i + 1] == ':' && v[i + 2] == ':'
        invariant
            i <= v@.len(),
            trim_start_matches(v@.skip(i as int), dot_prefix()) == trim_start_matches(v@, dot_prefix()),
        decreases v.len() - i,
    {
        assert(v@.skip(i as int).take(3) =~= dot_prefix());
        assert(v@.skip(i as int).skip(3) =~= v@.skip(i + 3));
        i = i + 3;
    }
    let mut out: Vec<char> = Vec::new();
    let mut j: usize = i;
    while j < v.len()
        invariant
            i <= j <= v@.len(),
            out@ == v@.subrange(i as int, j as int),
        decreases v.len() - j,
    {
        out.push(v[j]);
        j = j + 1;
    }
    proof {
        let rest = v@.skip(i as int);
        assert(out@ =~= rest);
        if rest.len() >= 3 {
            if rest.take(3) == dot_prefix() {
                assert(rest[0] == '.' && rest[1] == ':' && rest[2] == ':');
            }
        }
    }
    out
}

impl<F: TFlatTyp> Headers<F> {
    /// No declared functions.
    pub fn new() -> (h: Self)
        ensures
            h@ == Map::<Seq<char>, SigV<F>>::empty(),
    {
        Headers(StrMap::new())
    }

    /// Sets the signature of `key`, returning the one it replaces.
    pub fn insert(&mut self, key: String, value: Signature<F>) -> (r: Option<Signature<F>>)
        ensures
            final(self)@ == old(self)@.insert(key@, value@),
            match r {
                Some(o) => old(self)@.contains_key(key@) && o@ == old(self)@[key@],
                None => !old(self)@.contains_key(key@),
            },
    {
        self.0.insert(key, value)
    }

    /// Removes the signature of `key`, returning it.
    pub fn remove(&mut self, key: &str) -> (r: Option<Signature<F>>)
        ensures
            final(self)@ == old(self)@.remove(key@),
            match r {
                Some(o) => old(self)@.contains_key(key@) && o@ == old(self)@[key@],
                None => !old(self)@.contains_key(key@),
            },
    {
        self.0.remove(key)
    }

    /// The declared signature of `s`.
    pub fn get(&self, s: &str) -> (r: Option<&Signature<F>>)
        ensures
            match r {
                Some(sg) => self@.contains_key(s@) && sg@ == self@[s@],
                None => !self@.contains_key(s@),
            },
    {
        self.0.get(s)
    }

    /// Declares a function; a second declaration of a name replaces the
    /// first and is reported as an error.
    pub fn add_function(&mut self, name: &str, sig: Signature<F>) -> (r: Result<(), Error>)
        ensures
            final(self)@ == old(self)@.insert(name@, sig@),
            r is Err <==> old(self)@.contains_key(name@),
            match r {
                Err(e) => e.0@ == "duplicate function \""@ + name@ + seq!['"'],
                Ok(()) => true,
            },
    {
        if self.insert(name.to_owned(), sig).is_some() {
            let mut msg = "duplicate function \"".to_owned();
            push_str(&mut msg, name);
            push_str(&mut msg, "\"");
            proof { reveal_strlit("\""); }
            Err(Error(msg))
        } else {
            Ok(())
        }
    }

    /// Removes the given names.
    pub fn cut(&mut self, set: &[String])
        ensures
            final(self)@ == old(self)@.remove_keys(set@.map_values(|s: String| s@).to_set()),
    {
        let ghost start = self@;
        let ghost names = set@.map_values(|s: String| s@);
        let mut i: usize = 0;
        while i < set.len()
            invariant
                i <= set@.len(),
                names == set@.map_values(|s: String| s@),
                self@ == start.remove_keys(names.take(i as int).to_set()),
            decreases set.len() - i,
        {
            self.remove(set[i].as_str());
            assert(names.take(i + 1) =~= names.take(i as int).push(names[i as int]));
            proof { names.take(i as int).lemma_push_to_set_commute(names[i as int]); }
            assert(names.take(i + 1).to_set() =~= names.take(i as int).to_set().insert(names[i as int]));
            assert(self@ =~= start.remove_keys(names.take(i + 1).to_set()));
            i = i + 1;
        }
        assert(names.take(set@.len() as int) =~= names);
    }

    /// The signature of a function: built-in, metadata service or declared.
    pub fn typ(&self, name: &str) -> (r: Option<Signature<F>>)
        ensures
            match r {
                Some(sg) => headers_typ(self@, name@) == Some(sg@),
                None => headers_typ(self@, name@) is None,
            },
    {
        match typ_builtins::<F>(name) {
            Some(sg) => Some(sg),
            None => match typ_internal::<F>(name) {
                Some(sg) => Some(sg),
                None => match self.get(name) {
                    Some(sg) => Some(sg.dup()),
                    None => None,
                },
            },
        }
    }

    /// The result type of a function.
    pub fn return_typ(&self, name: &str) -> (r: Result<Typ<F>, Error>)
        ensures
            match r {
                Ok(t) => match headers_typ(self@, name@) { Some(sg) => t@ == sg.1, None => false },
                Err(e) => headers_typ(self@, name@) is None && e.0@ == "no current function"@,
            },
    {
        match self.typ(name) {
            Some(sg) => Ok(sg.typ()),
            None => Err(Error::new("no current function")),
        }
    }

    /// Whether `name` is a built-in function or a tuple index.
    pub fn is_builtin(name: &str) -> (b: bool)
        ensures
            b == is_builtin_spec::<F>(name@),
    {
        typ_builtins::<F>(name).is_some() || parse_usize(name).is_some()
    }

    /// Whether `name` is a metadata service or a built-in function.
    pub fn is_internal(name: &str) -> (b: bool)
        ensures
            b == is_internal_spec::<F>(name@),
    {
        typ_internal::<F>(name).is_some() || Self::is_builtin(name)
    }

    /// `module::method` split at its separator, when it has exactly one.
    pub fn split(name: &str) -> (r: Option<(String, String)>)
        ensures
            match r {
                Some(mm) => split_spec(name@) == Some((mm.0@, mm.1@)),
                None => split_spec(name@) is None,
            },
    {
        let cs = chars_of(name);
        let parts = split_colons(&cs);
        assert(parts@.len() == split_label(name@).len());
        if parts.len() == 2 {
            assert(parts@[0]@ == split_label(name@)[0]);
            assert(parts@[1]@ == split_label(name@)[1]);
            let module = string_from_chars(parts[0].as_slice());
            let method = string_from_chars(parts[1].as_slice());
            Some((module, method))
        } else {
            None
        }
    }

    /// The method part of a built-in's name (see `method_spec`).
    pub fn method(name: &str) -> (r: Option<String>)
        ensures
            match r {
                Some(m) => method_spec::<F>(name@) == Some(m@),
                None => method_spec::<F>(name@) is None,
            },
    {
        match typ_builtins::<F>(name) {
            Some(sg) => {
                let ghost sv = sg@;
                match sg.0 {
                    Some(args) => {
                        if args.len() > 0 {
                            match Self::split(name) {
                                Some((module, meth)) => {
                                    let t = args[0].to_string();
                                    assert(sv.0 == Some(types_view(args@)));
                                    if str_eq(module.as_str(), t.as_str()) {
                                        Some(meth)
                                    } else {
                                        None
                                    }
                                },
                                None => None,
                            }
                        } else {
                            None
                        }
                    },
                    None => None,
                }
            },
            None => None,
        }
    }

    /// The function that a name stands for (see `resolve_spec`).
    pub fn resolve(name: &str, typs: &[Typ<F>]) -> (r: String)
        requires
            name@.len() >= 3 && name@.take(3) == dot_prefix() ==> typs@.len() >= 1,
        ensures
            r@ == resolve_spec::<F>(name@, typs@.map_values(|t: Typ<F>| t@)),
    {
        let cs = chars_of(name);
        if cs.len() >= 3 && cs[0] == '.' && cs[1] == ':' && cs[2] == ':' {
            assert(name@.take(3) =~= dot_prefix());
            let rest = trim_dots(&cs);
            let rest_s = string_from_chars(rest.as_slice());
            assert(typs@.map_values(|t: Typ<F>| t@)[0] == typs@[0]@);
            match typs[0].intrinsic() {
                Some(i) => {
                    let mut s = i;
                    push_str(&mut s, "::");
                    push_str(&mut s, rest_s.as_str());
                    proof { reveal_strlit("::"); }
                    assert(s@ == i@ + seq![':', ':'] + rest_s@);
                    assert(rest_s@ == trim_start_matches(name@, dot_prefix()));
                    if Self::is_builtin(s.as_str()) {
                        s
                    } else {
                        rest_s
                    }
                },
                None => rest_s,
            }
        } else {
            proof {
                if name@.len() >= 3 && name@.take(3) == dot_prefix() {
                    assert(name@[0] == '.' && name@[1] == ':' && name@[2] == ':');
                }
            }
            name.to_owned()
        }
    }

    /// The union of two sets of headers, `other` winning where both declare
    /// a name.
    pub fn merge(&self, other: &Self) -> (r: Self)
        ensures
            r@ == self@.union_prefer_right(other@),
    {
        Headers(self.0.merge(&other.0))
    }
}

impl<F: TFlatTyp> Default for Headers<F> {
    fn default() -> (h: Self)
        ensures
            h@ == Map::<Seq<char>, SigV<F>>::empty(),
    {
        Headers::new()
    }
}

} // verus!
