//! Connection metadata: the identity, data stack and labels that a proxy
//! keeps for the ingress and egress side of a request, and the service that
//! policies call to read and change it.

use vstd::prelude::*;
use crate::evaluate::{Call, CallV};
use crate::expressions::Error;
use crate::labels::{Label, Node, NodeV, match_spec, syntax_compiles, label_parse};
use crate::literals::{Literal, LitV, FlatLiteral, FlatLitV, bytes_dup, lits_view, lemma_lits_view_index, lemma_lits_view_len, lemma_lits_view_from};
use crate::text::{str_eq, concat};

verus! {

/// The metadata of one side of a connection: an optional identity, a
/// stack of data, and a set of labels.
#[derive(Debug)]
pub struct Meta {
    id: Option<Label>,
    data: Vec<Vec<u8>>,
    labels: Vec<Label>,
}

/// Model of metadata.
pub struct MetaV {
    pub id: Option<Seq<NodeV>>,
    pub data: Seq<Seq<u8>>,
    pub labels: Set<Seq<NodeV>>,
}

/// The labels held by a list of labels, as a set.
pub open spec fn label_set(s: Seq<Label>) -> Set<Seq<NodeV>> {
    Set::new(|x: Seq<NodeV>| exists|i: int| 0 <= i < s.len() && (#[trigger] s[i])@ == x)
}

/// Whether one of the first `n` labels of `s` is `x`.
pub open spec fn seen(s: Seq<Label>, n: int, x: Seq<NodeV>) -> bool {
    exists|k: int| 0 <= k < n && (#[trigger] s[k])@ == x
}

/// The model of an optional label.
pub open spec fn opt_label(o: Option<Label>) -> Option<Seq<NodeV>> {
    match o {
        Some(l) => Some(l@),
        None => None,
    }
}

impl View for Meta {
    type V = MetaV;

    closed spec fn view(&self) -> MetaV {
        MetaV {
            id: opt_label(self.id),
            data: self.data@.map_values(|d: Vec<u8>| d@),
            labels: label_set(self.labels@),
        }
    }
}

/// Metadata with nothing in it.
pub open spec fn empty_meta() -> MetaV {
    MetaV { id: None, data: Seq::empty(), labels: Set::empty() }
}

/// Metadata with the given identity and nothing else.
pub open spec fn meta_with_id(l: Seq<NodeV>) -> MetaV {
    MetaV { id: Some(l), data: Seq::empty(), labels: Set::empty() }
}

/// The identity set to `l`.
pub open spec fn set_id_spec(m: MetaV, l: Seq<NodeV>) -> MetaV {
    MetaV { id: Some(l), data: m.data, labels: m.labels }
}

/// `d` pushed on the data stack.
pub open spec fn push_spec(m: MetaV, d: Seq<u8>) -> MetaV {
    MetaV { id: m.id, data: m.data.push(d), labels: m.labels }
}

/// The top of the data stack taken off, and what it was.
pub open spec fn pop_spec(m: MetaV) -> (MetaV, Option<Seq<u8>>) {
    if m.data.len() == 0 {
        (m, None)
    } else {
        (MetaV { id: m.id, data: m.data.drop_last(), labels: m.labels }, Some(m.data.last()))
    }
}

/// `l` added to the labels.
pub open spec fn add_label_spec(m: MetaV, l: Seq<NodeV>) -> MetaV {
    MetaV { id: m.id, data: m.data, labels: m.labels.insert(l) }
}

/// Whether the pattern `p` matches one of the labels.
pub open spec fn has_label_spec(m: MetaV, p: Seq<NodeV>) -> bool {
    exists|x: Seq<NodeV>| m.labels.contains(x) && (#[trigger] match_spec(p, x)) is Some
}

/// Every label that the pattern `p` matches taken away.
pub open spec fn remove_label_spec(m: MetaV, p: Seq<NodeV>) -> MetaV {
    MetaV { id: m.id, data: m.data, labels: m.labels.filter(|x: Seq<NodeV>| match_spec(p, x) is None) }
}

/// Whether there is no identity, no data and no label.
pub open spec fn meta_is_empty(m: MetaV) -> bool {
    m.id is None && m.data.len() == 0 && m.labels == Set::<Seq<NodeV>>::empty()
}

impl Meta {
    #[verifier::type_invariant]
    spec fn inv(self) -> bool {
        forall|i: int, j: int|
            0 <= i < j < self.labels@.len() ==> (#[trigger] self.labels@[i])@ != (#[trigger] self.labels@[j])@
    }

    /// Metadata with nothing in it.
    pub fn empty() -> (m: Meta)
        ensures
            m@ == empty_meta(),
    {
        let m = Meta { id: None, data: Vec::new(), labels: Vec::new() };
        assert(m@.data =~= Seq::<Seq<u8>>::empty());
        assert(m@.labels =~= Set::<Seq<NodeV>>::empty());
        m
    }

    /// Metadata with the given identity and nothing else.
    pub fn new(id: Label) -> (m: Meta)
        ensures
            m@ == meta_with_id(id@),
    {
        let m = Meta { id: Some(id), data: Vec::new(), labels: Vec::new() };
        assert(m@.data =~= Seq::<Seq<u8>>::empty());
        assert(m@.labels =~= Set::<Seq<NodeV>>::empty());
        m
    }

    /// Metadata with the identity written in `s`; `Err` when `s` is not a
    /// label.
    pub fn try_from_str(s: &str) -> (r: Result<Meta, ()>)
        ensures
            syntax_compiles() ==> match r {
                Ok(m) => label_parse(s@) is Ok && m@ == meta_with_id(label_parse(s@)->Ok_0),
                Err(_) => label_parse(s@) is Err,
            },
            !syntax_compiles() ==> r is Err,
    {
        match Label::from_str(s) {
            Ok(l) => Ok(Meta::new(l)),
            Err(_) => Err(()),
        }
    }

    /// A copy.
    pub fn dup(&self) -> (r: Meta)
        ensures
            r@ == self@,
    {
        proof { use_type_invariant(self); }
        let id = match &self.id {
            Some(l) => Some(l.dup()),
            None => None,
        };
        let mut data: Vec<Vec<u8>> = Vec::new();
        let mut i: usize = 0;
        while i < self.data.len()
            invariant
                i <= self.data@.len(),
                data@.len() == i,
                forall|k: int| 0 <= k < i ==> (#[trigger] data@[k])@ == self.data@[k]@,
            decreases self.data.len() - i,
        {
            data.push(bytes_dup(&self.data[i]));
            i = i + 1;
        }
        assert(data@.map_values(|d: Vec<u8>| d@) =~= self.data@.map_values(|d: Vec<u8>| d@));
        let mut labels: Vec<Label> = Vec::new();
        let mut j: usize = 0;
        while j < self.labels.len()
            invariant
                j <= self.labels@.len(),
                labels@.len() == j,
                forall|k: int| 0 <= k < j ==> (#[trigger] labels@[k])@ == self.labels@[k]@,
                forall|a: int, b: int|
                    0 <= a < b < self.labels@.len() ==> (#[trigger] self.labels@[a])@ != (#[trigger] self.labels@[b])@,
            decreases self.labels.len() - j,
        {
            labels.push(self.labels[j].dup());
            j = j + 1;
        }
        let r = Meta { id, data, labels };
        assert(r@.labels =~= self@.labels) by {
            assert forall|x: Seq<NodeV>| r@.labels.contains(x) implies self@.labels.contains(x) by {
                let k = choose|k: int| 0 <= k < r.labels@.len() && (#[trigger] r.labels@[k])@ == x;
                assert(self.labels@[k]@ == x);
            }
            assert forall|x: Seq<NodeV>| self@.labels.contains(x) implies r@.labels.contains(x) by {
                let k = choose|k: int| 0 <= k < self.labels@.len() && (#[trigger] self.labels@[k])@ == x;
                assert(r.labels@[k]@ == x);
            }
        }
        r
    }

    /// Sets the identity.
    fn set_id(&mut self, l: Label)
        ensures
            final(self)@ == set_id_spec(old(self)@, l@),
    {
        proof { use_type_invariant(&*self); }
        self.id = Some(l);
    }

    /// The identity.
    fn id(&self) -> (r: Option<Label>)
        ensures
            opt_label(r) == self@.id,
    {
        match &self.id {
            Some(l) => Some(l.dup()),
            None => None,
        }
    }

    /// Pushes `d` on the data stack.
    fn push_data(&mut self, d: Vec<u8>)
        ensures
            final(self)@ == push_spec(old(self)@, d@),
    {
        proof { use_type_invariant(&*self); }
        let mut data: Vec<Vec<u8>> = Vec::new();
        std::mem::swap(&mut data, &mut self.data);
        data.push(d);
        self.data = data;
        assert(self@.data =~= old(self)@.data.push(d@));
    }

    /// Takes the top off the data stack.
    fn pop_data(&mut self) -> (r: Option<Vec<u8>>)
        ensures
            final(self)@ == pop_spec(old(self)@).0,
            match r {
                Some(d) => pop_spec(old(self)@).1 == Some(d@),
                None => pop_spec(old(self)@).1 is None,
            },
    {
        proof { use_type_invariant(&*self); }
        let mut data: Vec<Vec<u8>> = Vec::new();
        std::mem::swap(&mut data, &mut self.data);
        let r = data.pop();
        self.data = data;
        assert(self@.data =~= old(self)@.data.take(self@.data.len() as int));
        r
    }

    /// A copy of the data stack, bottom first.
    fn data(&self) -> (r: Vec<Vec<u8>>)
        ensures
            r@.map_values(|d: Vec<u8>| d@) == self@.data,
    {
        let mut out: Vec<Vec<u8>> = Vec::new();
        let mut i: usize = 0;
        while i < self.data.len()
            invariant
                i <= self.data@.len(),
                out@.len() == i,
                forall|k: int| 0 <= k < i ==> (#[trigger] out@[k])@ == self.data@[k]@,
            decreases self.data.len() - i,
        {
            out.push(bytes_dup(&self.data[i]));
            i = i + 1;
        }
        assert(out@.map_values(|d: Vec<u8>| d@) =~= self.data@.map_values(|d: Vec<u8>| d@));
        out
    }

    /// Adds a label (nothing changes when an equal one is there).
    fn insert_label(&mut self, l: Label)
        ensures
            final(self)@ == add_label_spec(old(self)@, l@),
    {
        proof { use_type_invariant(&*self); }
        let mut i: usize = 0;
        while i < self.labels.len()
            invariant
                i <= self.labels@.len(),
                forall|k: int| 0 <= k < i ==> (#[trigger] self.labels@[k])@ != l@,
            decreases self.labels.len() - i,
        {
            if self.labels[i].same(&l) {
                assert(self@.labels.insert(l@) =~= self@.labels);
                return;
            }
            i = i + 1;
        }
        let ghost before = self.labels@;
        let mut labels: Vec<Label> = Vec::new();
        std::mem::swap(&mut labels, &mut self.labels);
        labels.push(l);
        assert(labels@ == before.push(l));
        assert forall|a: int, b: int| 0 <= a < b < labels@.len() implies (#[trigger] labels@[a])@ != (#[trigger] labels@[b])@ by {
            if b < before.len() {
                assert(before[a] == labels@[a]);
                assert(before[b] == labels@[b]);
            }
        }
        self.labels = labels;
        assert(self@.labels =~= old(self)@.labels.insert(l@)) by {
            assert forall|x: Seq<NodeV>| old(self)@.labels.contains(x) implies self@.labels.contains(x) by {
                let k = choose|k: int| 0 <= k < before.len() && (#[trigger] before[k])@ == x;
                assert(self.labels@[k] == before[k]);
            }
            assert(self.labels@[before.len() as int]@ == l@);
            assert forall|x: Seq<NodeV>| self@.labels.contains(x) implies old(self)@.labels.insert(l@).contains(x) by {
                let k = choose|k: int| 0 <= k < self.labels@.len() && (#[trigger] self.labels@[k])@ == x;
                if k < before.len() {
                    assert(before[k] == self.labels@[k]);
                }
            }
        }
    }

    /// Whether the pattern `label` matches one of the labels.
    fn has_label(&self, label: &Label) -> (b: bool)
        ensures
            b == has_label_spec(self@, label@),
    {
        let mut i: usize = 0;
        while i < self.labels.len()
            invariant
                i <= self.labels@.len(),
                forall|k: int| 0 <= k < i ==> !(match_spec(label@, (#[trigger] self.labels@[k])@) is Some),
            decreases self.labels.len() - i,
        {
            if label.matches_with(&self.labels[i]) {
                assert(self@.labels.contains(self.labels@[i as int]@));
                return true;
            }
            i = i + 1;
        }
        assert forall|x: Seq<NodeV>| self@.labels.contains(x) implies !(#[trigger] match_spec(label@, x) is Some) by {
            let k = choose|k: int| 0 <= k < self.labels@.len() && (#[trigger] self.labels@[k])@ == x;
        }
        false
    }

    /// Takes away every label that the pattern `label` matches.
    fn remove_label(&mut self, label: &Label)
        ensures
            final(self)@ == remove_label_spec(old(self)@, label@),
    {
        proof { use_type_invariant(&*self); }
        let ghost before = self.labels@;
        let mut old_labels: Vec<Label> = Vec::new();
        std::mem::swap(&mut old_labels, &mut self.labels);
        let mut kept: Vec<Label> = Vec::new();
        let mut i: usize = 0;
        while i < old_labels.len()
            invariant
                old_labels@ == before,
                i <= before.len(),
                forall|a: int, b: int| 0 <= a < b < before.len() ==> (#[trigger] before[a])@ != (#[trigger] before[b])@,
                forall|a: int, b: int| 0 <= a < b < kept@.len() ==> (#[trigger] kept@[a])@ != (#[trigger] kept@[b])@,
                forall|x: Seq<NodeV>| #[trigger] seen(kept@, kept@.len() as int, x) <==>
                    (seen(before, i as int, x) && match_spec(label@, x) is None),
            decreases before.len() - i,
        {
            let ghost kept0 = kept@;
            if !label.matches_with(&old_labels[i]) {
                let ghost y = before[i as int]@;
                kept.push(old_labels[i].dup());
                assert forall|a: int, b: int| 0 <= a < b < kept@.len() implies (#[trigger] kept@[a])@ != (#[trigger] kept@[b])@ by {
                    assert(kept@[a] == kept0[a]);
                    if b == kept0.len() {
                        if kept0[a]@ == y {
                            assert(seen(kept0, kept0.len() as int, kept0[a]@));
                            let k = choose|k: int| 0 <= k < i && (#[trigger] before[k])@ == kept0[a]@;
                            assert(before[k]@ != before[i as int]@);
                        }
                    } else {
                        assert(kept@[b] == kept0[b]);
                    }
                }
                assert forall|x: Seq<NodeV>| #[trigger] seen(kept@, kept@.len() as int, x) <==>
                    (seen(before, i + 1, x) && match_spec(label@, x) is None) by {
                    if seen(kept@, kept@.len() as int, x) {
                        let k = choose|k: int| 0 <= k < kept@.len() && (#[trigger] kept@[k])@ == x;
                        if k < kept0.len() {
                            assert(kept@[k] == kept0[k]);
                            assert(seen(kept0, kept0.len() as int, x));
                        }
                    }
                    if seen(before, i + 1, x) && match_spec(label@, x) is None {
                        let k = choose|k: int| 0 <= k < i + 1 && (#[trigger] before[k])@ == x;
                        if k < i {
                            assert(seen(before, i as int, x));
                            assert(seen(kept0, kept0.len() as int, x));
                            let j = choose|j: int| 0 <= j < kept0.len() && (#[trigger] kept0[j])@ == x;
                            assert(kept@[j] == kept0[j]);
                        } else {
                            assert(kept@[kept0.len() as int]@ == x);
                        }
                    }
                }
            } else {
                assert forall|x: Seq<NodeV>| #[trigger] seen(kept@, kept@.len() as int, x) <==>
                    (seen(before, i + 1, x) && match_spec(label@, x) is None) by {
                    if seen(before, i + 1, x) && match_spec(label@, x) is None {
                        let k = choose|k: int| 0 <= k < i + 1 && (#[trigger] before[k])@ == x;
                        if k < i {
                            assert(seen(before, i as int, x));
                        }
                    }
                    if seen(kept@, kept@.len() as int, x) {
                        assert(seen(before, i as int, x));
                        let k = choose|k: int| 0 <= k < i && (#[trigger] before[k])@ == x;
                        assert(seen(before, i + 1, x));
                    }
                }
            }
            i = i + 1;
        }
        self.labels = kept;
        assert(self@.labels =~= old(self)@.labels.filter(|x: Seq<NodeV>| match_spec(label@, x) is None)) by {
            assert forall|x: Seq<NodeV>| #[trigger] self@.labels.contains(x) <==>
                old(self)@.labels.filter(|x: Seq<NodeV>| match_spec(label@, x) is None).contains(x) by {
                if self@.labels.contains(x) {
                    let k = choose|k: int| 0 <= k < self.labels@.len() && (#[trigger] self.labels@[k])@ == x;
                    assert(seen(self.labels@, self.labels@.len() as int, x));
                    let j = choose|j: int| 0 <= j < before.len() && (#[trigger] before[j])@ == x;
                }
                if old(self)@.labels.contains(x) && match_spec(label@, x) is None {
                    let k = choose|k: int| 0 <= k < before.len() && (#[trigger] before[k])@ == x;
                    assert(seen(before, before.len() as int, x));
                    assert(seen(self.labels@, self.labels@.len() as int, x));
                    let j = choose|j: int| 0 <= j < self.labels@.len() && (#[trigger] self.labels@[j])@ == x;
                }
            }
        }
    }

    /// Forgets the identity, the data and the labels.
    fn wipe(&mut self)
        ensures
            final(self)@ == empty_meta(),
    {
        proof { use_type_invariant(&*self); }
        self.id = None;
        self.data = Vec::new();
        self.labels = Vec::new();
        assert(self@.data =~= Seq::<Seq<u8>>::empty());
        assert(self@.labels =~= Set::<Seq<NodeV>>::empty());
    }

    /// Whether there is no identity, no data and no label.
    fn is_empty(&self) -> (b: bool)
        ensures
            b == meta_is_empty(self@),
    {
        let b = self.id.is_none() && self.data.len() == 0 && self.labels.len() == 0;
        if self.labels.len() == 0 {
            assert(self@.labels =~= Set::<Seq<NodeV>>::empty());
        } else {
            assert(self@.labels.contains(self.labels@[0]@));
        }
        b
    }
}


impl Default for Meta {
    fn default() -> (m: Meta)
        ensures
            m@ == empty_meta(),
    {
        Meta::empty()
    }
}

/// The metadata of both sides of a connection, with the identity that a
/// `set_id` call gives.
#[derive(Debug)]
pub struct IngressEgress {
    ingress: Meta,
    egress: Meta,
    egress_id: Label,
}

/// Model of the metadata of both sides.
pub struct IngressEgressV {
    pub ingress: MetaV,
    pub egress: MetaV,
    pub egress_id: Seq<NodeV>,
}

impl View for IngressEgress {
    type V = IngressEgressV;

    closed spec fn view(&self) -> IngressEgressV {
        IngressEgressV { ingress: self.ingress@, egress: self.egress@, egress_id: self.egress_id@ }
    }
}

/// The request for the egress metadata once a policy has run.
pub struct Egress;

/// The unit value.
pub open spec fn unit_lit() -> LitV {
    LitV::Flat(FlatLitV::Unit)
}

/// An optional label as a value.
pub open spec fn opt_label_lit(o: Option<Seq<NodeV>>) -> LitV {
    match o {
        Some(l) => LitV::Tuple(seq![LitV::Flat(FlatLitV::Label(l))]),
        None => LitV::Tuple(Seq::empty()),
    }
}

/// Optional data as a value.
pub open spec fn opt_data_lit(o: Option<Seq<u8>>) -> LitV {
    match o {
        Some(d) => LitV::Tuple(seq![LitV::Flat(FlatLitV::Data(d))]),
        None => LitV::Tuple(Seq::empty()),
    }
}

/// A data stack as a list value, bottom first.
pub open spec fn data_list(d: Seq<Seq<u8>>) -> LitV {
    LitV::List(d.map_values(|x: Seq<u8>| LitV::Flat(FlatLitV::Data(x))))
}

/// The data of a call's only argument, when it is data.
pub open spec fn data_arg(args: Seq<LitV>) -> Option<Seq<u8>> {
    if args.len() == 1 {
        match args[0] {
            LitV::Flat(FlatLitV::Data(d)) => Some(d),
            _ => None,
        }
    } else {
        None
    }
}

/// The label of a call's only argument, when it is a label.
pub open spec fn label_arg(args: Seq<LitV>) -> Option<Seq<NodeV>> {
    if args.len() == 1 {
        match args[0] {
            LitV::Flat(FlatLitV::Label(l)) => Some(l),
            _ => None,
        }
    } else {
        None
    }
}

/// A method call on one side's metadata: the metadata after it and the
/// reply, or `None` for a method and arguments that mean nothing.
pub open spec fn meta_call(m: MetaV, egress_id: Seq<NodeV>, method: Seq<char>, args: Seq<LitV>) -> Option<(MetaV, LitV)> {
    if method == "id"@ && args.len() == 0 {
        Some((m, opt_label_lit(m.id)))
    } else if method == "data"@ && args.len() == 0 {
        Some((m, data_list(m.data)))
    } else if method == "set_id"@ && args.len() == 0 {
        Some((set_id_spec(m, egress_id), unit_lit()))
    } else if method == "push"@ && data_arg(args) is Some {
        Some((push_spec(m, data_arg(args)->Some_0), unit_lit()))
    } else if method == "pop"@ && args.len() == 0 {
        Some((pop_spec(m).0, opt_data_lit(pop_spec(m).1)))
    } else if method == "add_label"@ && label_arg(args) is Some {
        Some((add_label_spec(m, label_arg(args)->Some_0), unit_lit()))
    } else if method == "remove_label"@ && label_arg(args) is Some {
        Some((remove_label_spec(m, label_arg(args)->Some_0), unit_lit()))
    } else if method == "has_label"@ && label_arg(args) is Some {
        Some((m, LitV::Flat(FlatLitV::Bool(has_label_spec(m, label_arg(args)->Some_0)))))
    } else if method == "wipe"@ && args.len() == 0 {
        Some((empty_meta(), unit_lit()))
    } else {
        None
    }
}

/// The name of a call: `Module::method`.
pub open spec fn call_path(c: CallV) -> Seq<char> {
    c.external + "::"@ + c.method
}

/// What a call does to the metadata of both sides, and what it answers.
pub open spec fn handle_spec(s: IngressEgressV, c: CallV) -> (IngressEgressV, Result<LitV, Seq<char>>) {
    if c.external == "Ingress"@ {
        match meta_call(s.ingress, s.egress_id, c.method, c.args) {
            Some((m, v)) => (IngressEgressV { ingress: m, egress: s.egress, egress_id: s.egress_id }, Ok(v)),
            None => (s, Err("eval, call: "@ + call_path(c))),
        }
    } else if c.external == "Egress"@ {
        match meta_call(s.egress, s.egress_id, c.method, c.args) {
            Some((m, v)) => (IngressEgressV { ingress: s.ingress, egress: m, egress_id: s.egress_id }, Ok(v)),
            None => (s, Err("eval, call: "@ + call_path(c))),
        }
    } else {
        (s, Err("eval, unknown module: "@ + call_path(c)))
    }
}

/// The data of the only argument, when it is data.
fn data_arg_of(args: &[Literal]) -> (r: Option<&Vec<u8>>)
    ensures
        data_arg(lits_view(args@)) == match r {
            Some(d) => Some(d@),
            None => None::<Seq<u8>>,
        },
{
    proof { lemma_lits_view_len(args@); }
    if args.len() == 1 {
        proof { lemma_lits_view_index(args@, 0); }
        match &args[0] {
            Literal::FlatLiteral(FlatLiteral::Data(d)) => Some(d),
            _ => None,
        }
    } else {
        None
    }
}

/// The label of the only argument, when it is a label.
fn label_arg_of(args: &[Literal]) -> (r: Option<&Label>)
    ensures
        label_arg(lits_view(args@)) == match r {
            Some(l) => Some(l@),
            None => None::<Seq<NodeV>>,
        },
{
    proof { lemma_lits_view_len(args@); }
    if args.len() == 1 {
        proof { lemma_lits_view_index(args@, 0); }
        match &args[0] {
            Literal::FlatLiteral(FlatLiteral::Label(l)) => Some(l),
            _ => None,
        }
    } else {
        None
    }
}

/// Performs a method call on one side's metadata.
fn meta_handle(meta: &mut Meta, egress_id: &Label, method: &str, args: &[Literal]) -> (r: Option<Literal>)
    ensures
        match meta_call(old(meta)@, egress_id@, method@, lits_view(args@)) {
            Some((m, v)) => r is Some && r->Some_0@ == v && final(meta)@ == m,
            None => r is None && final(meta)@ == old(meta)@,
        },
{
    proof { lemma_lits_view_len(args@); }
    let n = args.len();
    if str_eq(method, "id") && n == 0 {
        match meta.id() {
            Some(l) => Some(Literal::label(l).some()),
            None => Some(Literal::none()),
        }
    } else if str_eq(method, "data") && n == 0 {
        let d = meta.data();
        let ghost dv = d@.map_values(|x: Vec<u8>| x@);
        let mut v: Vec<Literal> = Vec::new();
        let mut i: usize = 0;
        while i < d.len()
            invariant
                i <= d@.len(),
                dv == d@.map_values(|x: Vec<u8>| x@),
                v@.len() == i,
                forall|k: int| 0 <= k < i ==> lit_view_of(#[trigger] v@[k]) == LitV::Flat(FlatLitV::Data(d@[k]@)),
            decreases d.len() - i,
        {
            v.push(Literal::data(bytes_dup(&d[i])));
            i = i + 1;
        }
        proof {
            lemma_lits_view_from(v@, dv.map_values(|x: Seq<u8>| LitV::Flat(FlatLitV::Data(x))));
        }
        Some(Literal::List(v))
    } else if str_eq(method, "set_id") && n == 0 {
        meta.set_id(egress_id.dup());
        Some(Literal::unit())
    } else if str_eq(method, "push") && data_arg_of(args).is_some() {
        match data_arg_of(args) {
            Some(d) => {
                meta.push_data(bytes_dup(d));
                Some(Literal::unit())
            },
            None => None,
        }
    } else if str_eq(method, "pop") && n == 0 {
        match meta.pop_data() {
            Some(d) => Some(Literal::data(d).some()),
            None => Some(Literal::none()),
        }
    } else if str_eq(method, "add_label") && label_arg_of(args).is_some() {
        match label_arg_of(args) {
            Some(l) => {
                meta.insert_label(l.dup());
                Some(Literal::unit())
            },
            None => None,
        }
    } else if str_eq(method, "remove_label") && label_arg_of(args).is_some() {
        match label_arg_of(args) {
            Some(l) => {
                meta.remove_label(l);
                Some(Literal::unit())
            },
            None => None,
        }
    } else if str_eq(method, "has_label") && label_arg_of(args).is_some() {
        match label_arg_of(args) {
            Some(l) => Some(Literal::bool(meta.has_label(l))),
            None => None,
        }
    } else if str_eq(method, "wipe") && n == 0 {
        meta.wipe();
        Some(Literal::unit())
    } else {
        None
    }
}

/// The model of a value (the view, as a function).
pub open spec fn lit_view_of(l: Literal) -> LitV {
    l@
}

impl IngressEgress {
    /// The metadata of a connection: the given ingress metadata (or none),
    /// empty egress metadata, and the identity that `set_id` gives.
    pub fn new(ingress: Option<Meta>, egress_id: Label) -> (r: IngressEgress)
        ensures
            r@.ingress == match ingress {
                Some(m) => m@,
                None => empty_meta(),
            },
            r@.egress == empty_meta(),
            r@.egress_id == egress_id@,
    {
        let ingress = match ingress {
            Some(m) => m,
            None => Meta::empty(),
        };
        IngressEgress { ingress, egress: Meta::empty(), egress_id }
    }

    /// Answers a call on the `Ingress` or `Egress` metadata.
    pub fn handle(&mut self, call: &Call) -> (r: Result<Literal, Error>)
        ensures
            final(self)@ == handle_spec(old(self)@, call@).0,
            match r {
                Ok(l) => handle_spec(old(self)@, call@).1 == Ok::<LitV, Seq<char>>(l@),
                Err(e) => handle_spec(old(self)@, call@).1 == Err::<LitV, Seq<char>>(e.0@),
            },
    {
        let path = concat(&concat(call.external.as_str(), "::"), call.method.as_str());
        let is_ingress = str_eq(call.external.as_str(), "Ingress");
        if !is_ingress && !str_eq(call.external.as_str(), "Egress") {
            return Err(Error(concat("eval, unknown module: ", path.as_str())));
        }
        let r = if is_ingress {
            meta_handle(&mut self.ingress, &self.egress_id, call.method.as_str(), call.args.as_slice())
        } else {
            meta_handle(&mut self.egress, &self.egress_id, call.method.as_str(), call.args.as_slice())
        };
        match r {
            Some(l) => Ok(l),
            None => Err(Error(concat("eval, call: ", path.as_str()))),
        }
    }

    /// The egress metadata, with the identity that `set_id` gives; an
    /// error when it is empty.
    pub fn handle_egress(&self, _msg: Egress) -> (r: Result<Meta, Error>)
        ensures
            match r {
                Ok(m) => !meta_is_empty(self@.egress) && m@ == set_id_spec(self@.egress, self@.egress_id),
                Err(e) => meta_is_empty(self@.egress) && e.0@ == "empty egress"@,
            },
    {
        if self.egress.is_empty() {
            Err(Error::new("empty egress"))
        } else {
            let mut egress = self.egress.dup();
            egress.set_id(self.egress_id.dup());
            Ok(egress)
        }
    }
}

impl Default for IngressEgress {
    fn default() -> (r: IngressEgress)
        ensures
            r@.ingress == empty_meta(),
            r@.egress == empty_meta(),
            r@.egress_id == seq![NodeV::Str("egress"@)],
    {
        let egress_id = Label::from_node(&Node::Str("egress".to_string()));
        IngressEgress { ingress: Meta::empty(), egress: Meta::empty(), egress_id }
    }
}

/// The metadata of one side, by its module name.
pub open spec fn side(s: IngressEgressV, module: Seq<char>) -> MetaV {
    if module == "Ingress"@ { s.ingress } else { s.egress }
}

/// The metadata of both sides with one side replaced.
pub open spec fn with_side(s: IngressEgressV, module: Seq<char>, m: MetaV) -> IngressEgressV {
    if module == "Ingress"@ {
        IngressEgressV { ingress: m, egress: s.egress, egress_id: s.egress_id }
    } else {
        IngressEgressV { ingress: s.ingress, egress: m, egress_id: s.egress_id }
    }
}

/// A call with no arguments.
pub open spec fn call0(module: Seq<char>, method: Seq<char>) -> CallV {
    CallV { external: module, method, args: Seq::empty() }
}

/// A call with one argument.
pub open spec fn call1(module: Seq<char>, method: Seq<char>, a: LitV) -> CallV {
    CallV { external: module, method, args: seq![a] }
}

/// A call on a side is the method call on that side's metadata.
proof fn lemma_side_call(s: IngressEgressV, c: CallV)
    requires
        c.external == "Ingress"@ || c.external == "Egress"@,
    ensures
        handle_spec(s, c) == match meta_call(side(s, c.external), s.egress_id, c.method, c.args) {
            Some((m, v)) => (with_side(s, c.external, m), Ok::<LitV, Seq<char>>(v)),
            None => (s, Err::<LitV, Seq<char>>("eval, call: "@ + call_path(c))),
        },
        forall|m: MetaV| #[trigger] side(with_side(s, c.external, m), c.external) == m,
        forall|m: MetaV| (#[trigger] with_side(s, c.external, m)).egress_id == s.egress_id,
{
}

/// The method names, told apart.
proof fn lemma_method_names()
    ensures
        "id"@ != "data"@,
        "id"@ != "set_id"@,
        "data"@ != "set_id"@,
        "push"@ != "id"@ && "push"@ != "data"@ && "push"@ != "set_id"@,
        "pop"@ != "id"@ && "pop"@ != "data"@ && "pop"@ != "set_id"@ && "pop"@ != "push"@,
        "add_label"@ != "id"@ && "add_label"@ != "data"@ && "add_label"@ != "set_id"@,
        "add_label"@ != "push"@ && "add_label"@ != "pop"@,
        "remove_label"@ != "id"@ && "remove_label"@ != "data"@ && "remove_label"@ != "set_id"@,
        "remove_label"@ != "push"@ && "remove_label"@ != "pop"@ && "remove_label"@ != "add_label"@,
        "has_label"@ != "id"@ && "has_label"@ != "data"@ && "has_label"@ != "set_id"@,
        "has_label"@ != "push"@ && "has_label"@ != "pop"@ && "has_label"@ != "add_label"@,
        "has_label"@ != "remove_label"@,
        "wipe"@ != "id"@ && "wipe"@ != "data"@ && "wipe"@ != "set_id"@ && "wipe"@ != "push"@,
        "wipe"@ != "pop"@ && "wipe"@ != "add_label"@ && "wipe"@ != "remove_label"@ && "wipe"@ != "has_label"@,
{
    reveal_strlit("id");
    reveal_strlit("data");
    reveal_strlit("set_id");
    reveal_strlit("push");
    reveal_strlit("pop");
    reveal_strlit("add_label");
    reveal_strlit("remove_label");
    reveal_strlit("has_label");
    reveal_strlit("wipe");
    assert("id"@.len() != "data"@.len());
    assert("set_id"@[0] != "id"@[0] && "set_id"@[0] != "data"@[0]);
    assert("push"@[1] != "pop"@[1]);
    assert("remove_label"@.len() != "add_label"@.len() && "remove_label"@.len() != "has_label"@.len());
    assert("add_label"@[0] != "has_label"@[0]);
}

/// Data pushed on a side's stack is what the next pop gives back, and the
/// pop leaves the metadata as it was before the push.
pub proof fn lemma_push_then_pop(s: IngressEgressV, module: Seq<char>, d: Seq<u8>)
    requires
        module == "Ingress"@ || module == "Egress"@,
    ensures
        handle_spec(s, call1(module, "push"@, LitV::Flat(FlatLitV::Data(d)))).1 == Ok::<LitV, Seq<char>>(unit_lit()),
        handle_spec(handle_spec(s, call1(module, "push"@, LitV::Flat(FlatLitV::Data(d)))).0, call0(module, "pop"@)).0 == s,
        handle_spec(handle_spec(s, call1(module, "push"@, LitV::Flat(FlatLitV::Data(d)))).0, call0(module, "pop"@)).1
            == Ok::<LitV, Seq<char>>(opt_data_lit(Some(d))),
{
    lemma_method_names();
    let c1 = call1(module, "push"@, LitV::Flat(FlatLitV::Data(d)));
    lemma_side_call(s, c1);
    let m = side(s, module);
    let s1 = with_side(s, module, push_spec(m, d));
    let c2 = call0(module, "pop"@);
    lemma_side_call(s1, c2);
    assert(push_spec(m, d).data.drop_last() =~= m.data);
    assert(pop_spec(push_spec(m, d)).0 == m);
    assert(with_side(s1, module, m) == s);
}

/// After a label is added to a side, asking whether the label (as a
/// pattern) is there answers yes, when its recursive variables stand only
/// at its end.
pub proof fn lemma_add_then_has_label(s: IngressEgressV, module: Seq<char>, l: Seq<NodeV>)
    requires
        module == "Ingress"@ || module == "Egress"@,
        forall|i: int| 0 <= i < l.len() - 1 ==> !(#[trigger] l[i] is RecAny),
    ensures
        handle_spec(handle_spec(s, call1(module, "add_label"@, LitV::Flat(FlatLitV::Label(l)))).0,
            call1(module, "has_label"@, LitV::Flat(FlatLitV::Label(l)))).1
            == Ok::<LitV, Seq<char>>(LitV::Flat(FlatLitV::Bool(true))),
{
    lemma_method_names();
    let c1 = call1(module, "add_label"@, LitV::Flat(FlatLitV::Label(l)));
    lemma_side_call(s, c1);
    let m = add_label_spec(side(s, module), l);
    let s1 = with_side(s, module, m);
    let c2 = call1(module, "has_label"@, LitV::Flat(FlatLitV::Label(l)));
    lemma_side_call(s1, c2);
    crate::labels::lemma_label_eq_reflexive(l);
    assert(m.labels.contains(l));
    assert(has_label_spec(m, l));
}

/// After the labels that a pattern matches are removed from a side, the
/// pattern matches none of its labels.
pub proof fn lemma_remove_then_not_has(s: IngressEgressV, module: Seq<char>, p: Seq<NodeV>)
    requires
        module == "Ingress"@ || module == "Egress"@,
    ensures
        handle_spec(handle_spec(s, call1(module, "remove_label"@, LitV::Flat(FlatLitV::Label(p)))).0,
            call1(module, "has_label"@, LitV::Flat(FlatLitV::Label(p)))).1
            == Ok::<LitV, Seq<char>>(LitV::Flat(FlatLitV::Bool(false))),
{
    lemma_method_names();
    let c1 = call1(module, "remove_label"@, LitV::Flat(FlatLitV::Label(p)));
    lemma_side_call(s, c1);
    let m = remove_label_spec(side(s, module), p);
    let s1 = with_side(s, module, m);
    let c2 = call1(module, "has_label"@, LitV::Flat(FlatLitV::Label(p)));
    lemma_side_call(s1, c2);
    assert(!has_label_spec(m, p));
}

/// After `set_id`, a side's identity is the one the metadata was made
/// with.
pub proof fn lemma_set_id_then_id(s: IngressEgressV, module: Seq<char>)
    requires
        module == "Ingress"@ || module == "Egress"@,
    ensures
        handle_spec(handle_spec(s, call0(module, "set_id"@)).0, call0(module, "id"@)).1
            == Ok::<LitV, Seq<char>>(opt_label_lit(Some(s.egress_id))),
{
    lemma_method_names();
    let c1 = call0(module, "set_id"@);
    lemma_side_call(s, c1);
    let m = set_id_spec(side(s, module), s.egress_id);
    let s1 = with_side(s, module, m);
    lemma_side_call(s1, call0(module, "id"@));
}

/// A wiped side is empty: it has no identity, no data and no label.
pub proof fn lemma_wipe_empties(s: IngressEgressV, module: Seq<char>)
    requires
        module == "Ingress"@ || module == "Egress"@,
    ensures
        handle_spec(s, call0(module, "wipe"@)).1 == Ok::<LitV, Seq<char>>(unit_lit()),
        meta_is_empty(side(handle_spec(s, call0(module, "wipe"@)).0, module)),
{
    lemma_method_names();
    lemma_side_call(s, call0(module, "wipe"@));
    assert(side(with_side(s, module, empty_meta()), module) == empty_meta());
}

/// A call touches only the side it names: the other side and the identity
/// given by `set_id` stay as they were; a call that fails changes nothing.
pub proof fn lemma_call_frame(s: IngressEgressV, c: CallV)
    ensures
        handle_spec(s, c).0.egress_id == s.egress_id,
        c.external != "Ingress"@ ==> handle_spec(s, c).0.ingress == s.ingress,
        c.external != "Egress"@ ==> handle_spec(s, c).0.egress == s.egress,
        handle_spec(s, c).1 is Err ==> handle_spec(s, c).0 == s,
{
}

} // verus!
