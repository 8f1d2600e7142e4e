//! A map from strings to values kept as a vector of entries sorted by key,
//! the ordered map that the policy language uses for its tables.

use vstd::prelude::*;
use crate::text::{seq_lt, chars_of, compare_chars, lemma_seq_lt_irreflexive, lemma_seq_lt_transitive};

verus! {

/// Keys strictly increasing.
pub open spec fn sorted_keys<V>(es: Seq<(Seq<char>, V)>) -> bool {
    forall|i: int, j: int| 0 <= i < j < es.len() ==> seq_lt(#[trigger] es[i].0, #[trigger] es[j].0)
}

/// Some entry has key `k`.
pub open spec fn has_key<V>(es: Seq<(Seq<char>, V)>, k: Seq<char>) -> bool {
    exists|i: int| 0 <= i < es.len() && #[trigger] es[i].0 == k
}

/// Index of the entry with key `k`.
pub open spec fn key_index<V>(es: Seq<(Seq<char>, V)>, k: Seq<char>) -> int {
    choose|i: int| 0 <= i < es.len() && #[trigger] es[i].0 == k
}

/// The map that a list of entries denotes.
pub open spec fn map_of<V>(es: Seq<(Seq<char>, V)>) -> Map<Seq<char>, V> {
    Map::new(|k: Seq<char>| has_key(es, k), |k: Seq<char>| es[key_index(es, k)].1)
}

/// In a sorted list two entries with the same key are the same entry.
pub proof fn lemma_unique<V>(es: Seq<(Seq<char>, V)>, i: int, j: int)
    requires
        sorted_keys(es),
        0 <= i < es.len(),
        0 <= j < es.len(),
        es[i].0 == es[j].0,
    ensures
        i == j,
{
    if i < j {
        lemma_seq_lt_irreflexive(es[i].0);
        assert(seq_lt(es[i].0, es[j].0));
    } else if j < i {
        lemma_seq_lt_irreflexive(es[i].0);
        assert(seq_lt(es[j].0, es[i].0));
    }
}

/// The value stored at an index is the value the map gives for its key.
pub proof fn lemma_lookup<V>(es: Seq<(Seq<char>, V)>, i: int)
    requires
        sorted_keys(es),
        0 <= i < es.len(),
    ensures
        map_of(es).contains_key(es[i].0),
        map_of(es)[es[i].0] == es[i].1,
{
    assert(has_key(es, es[i].0));
    let j = key_index(es, es[i].0);
    lemma_unique(es, i, j);
}

/// Replacing the value of an entry updates the map at that key.
pub proof fn lemma_update<V>(es: Seq<(Seq<char>, V)>, i: int, v: V)
    requires
        sorted_keys(es),
        0 <= i < es.len(),
    ensures
        sorted_keys(es.update(i, (es[i].0, v))),
        map_of(es.update(i, (es[i].0, v))) == map_of(es).insert(es[i].0, v),
{
    let k = es[i].0;
    let ns = es.update(i, (k, v));
    assert(sorted_keys(ns)) by {
        assert forall|a: int, b: int| 0 <= a < b < ns.len() implies seq_lt(#[trigger] ns[a].0, #[trigger] ns[b].0) by {
            assert(ns[a].0 == es[a].0);
            assert(ns[b].0 == es[b].0);
        }
    }
    assert forall|x: Seq<char>| #[trigger] has_key(ns, x) == has_key(es, x) by {
        if has_key(es, x) {
            let j = choose|j: int| 0 <= j < es.len() && es[j].0 == x;
            assert(ns[j].0 == x);
        }
        if has_key(ns, x) {
            let j = choose|j: int| 0 <= j < ns.len() && ns[j].0 == x;
            assert(es[j].0 == x);
        }
    }
    assert(map_of(ns) =~= map_of(es).insert(k, v)) by {
        assert forall|x: Seq<char>| map_of(ns).contains_key(x) implies map_of(ns)[x] == map_of(es).insert(k, v)[x] by {
            let j = key_index(ns, x);
            let j2 = key_index(es, x);
            lemma_unique(es, j, j2);
            if x == k {
                lemma_unique(es, j, i);
            }
        }
    }
}

/// Inserting an entry at its sorted position adds its key to the map.
pub proof fn lemma_insert_at<V>(es: Seq<(Seq<char>, V)>, p: int, k: Seq<char>, v: V)
    requires
        sorted_keys(es),
        0 <= p <= es.len(),
        forall|j: int| 0 <= j < p ==> seq_lt(#[trigger] es[j].0, k),
        p < es.len() ==> seq_lt(k, es[p].0),
    ensures
        sorted_keys(es.insert(p, (k, v))),
        map_of(es.insert(p, (k, v))) == map_of(es).insert(k, v),
        !has_key(es, k),
{
    let ns = es.insert(p, (k, v));
    assert forall|j: int| p <= j < es.len() implies seq_lt(k, #[trigger] es[j].0) by {
        if j > p {
            lemma_seq_lt_transitive(k, es[p].0, es[j].0);
        }
    }
    assert(sorted_keys(ns)) by {
        assert forall|a: int, b: int| 0 <= a < b < ns.len() implies seq_lt(#[trigger] ns[a].0, #[trigger] ns[b].0) by {
            if b < p {
                assert(ns[a] == es[a] && ns[b] == es[b]);
            } else if b == p {
                assert(ns[a] == es[a]);
            } else if a < p {
                assert(ns[a] == es[a] && ns[b] == es[b - 1]);
                lemma_seq_lt_transitive(es[a].0, k, es[b - 1].0);
            } else if a == p {
                assert(ns[b] == es[b - 1]);
            } else {
                assert(ns[a] == es[a - 1] && ns[b] == es[b - 1]);
            }
        }
    }
    assert(!has_key(es, k)) by {
        if has_key(es, k) {
            let j = choose|j: int| 0 <= j < es.len() && es[j].0 == k;
            lemma_seq_lt_irreflexive(k);
            if j < p {
                assert(seq_lt(es[j].0, k));
            } else {
                assert(seq_lt(k, es[j].0));
            }
        }
    }
    assert forall|x: Seq<char>| #[trigger] has_key(ns, x) == (has_key(es, x) || x == k) by {
        if has_key(es, x) {
            let j = choose|j: int| 0 <= j < es.len() && es[j].0 == x;
            if j < p {
                assert(ns[j].0 == x);
            } else {
                assert(ns[j + 1].0 == x);
            }
        }
        if x == k {
            assert(ns[p].0 == x);
        }
        if has_key(ns, x) {
            let j = choose|j: int| 0 <= j < ns.len() && ns[j].0 == x;
            if j < p {
                assert(es[j].0 == x);
            } else if j > p {
                assert(es[j - 1].0 == x);
            }
        }
    }
    assert(map_of(ns) =~= map_of(es).insert(k, v)) by {
        assert forall|x: Seq<char>| map_of(ns).contains_key(x) implies map_of(ns)[x] == map_of(es).insert(k, v)[x] by {
            let j = key_index(ns, x);
            if x == k {
                lemma_unique(ns, j, p);
            } else {
                let j2 = key_index(es, x);
                if j < p {
                    assert(ns[j] == es[j]);
                    lemma_unique(es, j, j2);
                } else {
                    assert(j != p);
                    assert(ns[j] == es[j - 1]);
                    lemma_unique(es, j - 1, j2);
                }
            }
        }
    }
}

/// Removing the entry at index `i` removes its key from the map.
pub proof fn lemma_remove_at<V>(es: Seq<(Seq<char>, V)>, i: int)
    requires
        sorted_keys(es),
        0 <= i < es.len(),
    ensures
        sorted_keys(es.remove(i)),
        map_of(es.remove(i)) == map_of(es).remove(es[i].0),
{
    let k = es[i].0;
    let ns = es.remove(i);
    assert(sorted_keys(ns)) by {
        assert forall|a: int, b: int| 0 <= a < b < ns.len() implies seq_lt(#[trigger] ns[a].0, #[trigger] ns[b].0) by {
            if b < i {
                assert(ns[a] == es[a] && ns[b] == es[b]);
            } else if a < i {
                assert(ns[a] == es[a] && ns[b] == es[b + 1]);
            } else {
                assert(ns[a] == es[a + 1] && ns[b] == es[b + 1]);
            }
        }
    }
    assert forall|x: Seq<char>| #[trigger] has_key(ns, x) == (has_key(es, x) && x != k) by {
        if has_key(es, x) && x != k {
            let j = choose|j: int| 0 <= j < es.len() && es[j].0 == x;
            assert(j != i);
            if j < i {
                assert(ns[j].0 == x);
            } else {
                assert(ns[j - 1].0 == x);
            }
        }
        if has_key(ns, x) {
            let j = choose|j: int| 0 <= j < ns.len() && ns[j].0 == x;
            if j < i {
                assert(es[j].0 == x);
                if x == k { lemma_unique(es, j, i); }
            } else {
                assert(es[j + 1].0 == x);
                if x == k { lemma_unique(es, j + 1, i); }
            }
        }
    }
    assert(map_of(ns) =~= map_of(es).remove(k)) by {
        assert forall|x: Seq<char>| map_of(ns).contains_key(x) implies map_of(ns)[x] == map_of(es).remove(k)[x] by {
            let j = key_index(ns, x);
            let j2 = key_index(es, x);
            if j < i {
                assert(ns[j] == es[j]);
                lemma_unique(es, j, j2);
            } else {
                assert(ns[j] == es[j + 1]);
                lemma_unique(es, j + 1, j2);
            }
        }
    }
}

/// The empty list denotes the empty map.
pub proof fn lemma_empty<V>(es: Seq<(Seq<char>, V)>)
    requires
        es.len() == 0,
    ensures
        map_of(es) == Map::<Seq<char>, V>::empty(),
        sorted_keys(es),
{
    assert(map_of(es) =~= Map::<Seq<char>, V>::empty());
}

/// Two key-sorted lists of entries that denote the same map are the same
/// list: the entries of a map in key order are determined by the map.
pub proof fn lemma_sorted_unique<V>(a: Seq<(Seq<char>, V)>, b: Seq<(Seq<char>, V)>)
    requires
        sorted_keys(a),
        sorted_keys(b),
        map_of(a) == map_of(b),
    ensures
        a == b,
    decreases a.len(),
{
    if a.len() == 0 {
        if b.len() > 0 {
            lemma_lookup(b, 0);
            assert(map_of(a).contains_key(b[0].0));
            assert(has_key(a, b[0].0));
        }
        assert(a =~= b);
    } else if b.len() == 0 {
        lemma_lookup(a, 0);
        assert(map_of(b).contains_key(a[0].0));
        assert(has_key(b, a[0].0));
    } else {
        let la = a.len() - 1;
        let lb = b.len() - 1;
        lemma_lookup(a, la);
        lemma_lookup(b, lb);
        assert(has_key(b, a[la].0));
        assert(has_key(a, b[lb].0));
        let j = key_index(b, a[la].0);
        let i = key_index(a, b[lb].0);
        lemma_seq_lt_irreflexive(a[la].0);
        if j < lb {
            assert(seq_lt(b[j].0, b[lb].0));
            if i < la {
                assert(seq_lt(a[i].0, a[la].0));
                lemma_seq_lt_transitive(a[la].0, a[i].0, a[la].0);
            }
            assert(false);
        }
        assert(j == lb);
        assert(a[la].0 == b[lb].0);
        assert(a[la].1 == b[lb].1);
        lemma_remove_at(a, la);
        lemma_remove_at(b, lb);
        assert(a.remove(la) =~= a.drop_last());
        assert(b.remove(lb) =~= b.drop_last());
        lemma_sorted_unique(a.drop_last(), b.drop_last());
        assert(a =~= b.drop_last().push(b[lb]));
        assert(b =~= b.drop_last().push(b[lb]));
    }
}

/// The entries of a map in key order.
pub open spec fn sorted_entries<V>(m: Map<Seq<char>, V>) -> Seq<(Seq<char>, V)> {
    choose|es: Seq<(Seq<char>, V)>| sorted_keys(es) && map_of(es) == m
}

/// A key-sorted list of entries is the list of entries of its map in key
/// order.
pub proof fn lemma_sorted_entries<V>(es: Seq<(Seq<char>, V)>)
    requires
        sorted_keys(es),
    ensures
        sorted_entries(map_of(es)) == es,
{
    let c = sorted_entries(map_of(es));
    assert(sorted_keys(c) && map_of(c) == map_of(es));
    lemma_sorted_unique(c, es);
}

/// Map from strings to values, ordered by key.
#[derive(Debug)]
pub struct StrMap<V: View> {
    entries: Vec<(String, V)>,
}

impl<V: View> StrMap<V> {
    /// The entries in key order, keys and values taken by their views.
    pub closed spec fn entry_seq(&self) -> Seq<(Seq<char>, V::V)> {
        self.entries@.map_values(|e: (String, V)| (e.0@, e.1@))
    }

    /// The map from keys to (views of) values.
    pub open spec fn map(&self) -> Map<Seq<char>, V::V> {
        map_of(self.entry_seq())
    }

    #[verifier::type_invariant]
    closed spec fn inv(self) -> bool {
        sorted_keys(self.entry_seq())
    }

    /// The entries are those of the map in key order.
    pub fn in_order(&self)
        ensures
            self.entry_seq() == sorted_entries(self.map()),
    {
        self.properties();
        proof { lemma_sorted_entries(self.entry_seq()); }
    }

    /// Entries are sorted by key and the map is the one they denote.
    pub fn properties(&self)
        ensures
            sorted_keys(self.entry_seq()),
            self.map() == map_of(self.entry_seq()),
            self.entry_seq().len() == self.map().dom().len(),
            self.map().dom().finite(),
    {
        proof {
            use_type_invariant(self);
            self.lemma_dom_len();
        }
    }

    proof fn lemma_dom_len(&self)
        requires
            sorted_keys(self.entry_seq()),
        ensures
            self.entry_seq().len() == self.map().dom().len(),
            self.map().dom().finite(),
    {
        let es = self.entry_seq();
        lemma_dom_card(es);
    }

    /// The empty map.
    pub fn new() -> (m: Self)
        ensures
            m.map() == Map::<Seq<char>, V::V>::empty(),
            m.entry_seq().len() == 0,
    {
        let m = StrMap { entries: Vec::new() };
        proof { lemma_empty(m.entry_seq()); }
        m
    }

    /// Number of entries.
    pub fn len(&self) -> (n: usize)
        ensures
            n == self.entry_seq().len(),
    {
        self.entries.len()
    }

    /// The key of the `i`-th entry.
    pub fn key_at(&self, i: usize) -> (k: &String)
        requires
            i < self.entry_seq().len(),
        ensures
            k@ == self.entry_seq()[i as int].0,
    {
        &self.entries[i].0
    }

    /// The value of the `i`-th entry.
    pub fn value_at(&self, i: usize) -> (v: &V)
        requires
            i < self.entry_seq().len(),
        ensures
            v@ == self.entry_seq()[i as int].1,
    {
        &self.entries[i].1
    }

    /// Position of `k`: `Ok(i)` when the `i`-th key is `k`, otherwise
    /// `Err(p)` where `p` is the position at which `k` would go.
    fn search(&self, k: &str) -> (r: Result<usize, usize>)
        ensures
            match r {
                Ok(i) => i < self.entry_seq().len() && self.entry_seq()[i as int].0 == k@,
                Err(p) => p <= self.entry_seq().len()
                    && (forall|j: int| 0 <= j < p ==> seq_lt(#[trigger] self.entry_seq()[j].0, k@))
                    && (p < self.entry_seq().len() ==> seq_lt(k@, self.entry_seq()[p as int].0)),
            },
    {
        proof { use_type_invariant(self); }
        let kc = chars_of(k);
        let mut i: usize = 0;
        while i < self.entries.len()
            invariant
                i <= self.entries.len(),
                kc@ == k@,
                self.entry_seq().len() == self.entries@.len(),
                forall|j: int| 0 <= j < i ==> seq_lt(#[trigger] self.entry_seq()[j].0, k@),
            decreases self.entries.len() - i,
        {
            let ec = chars_of(self.entries[i].0.as_str());
            let c = compare_chars(ec.as_slice(), kc.as_slice());
            assert(self.entry_seq()[i as int].0 == self.entries@[i as int].0@);
            if c == 0 {
                return Ok(i);
            } else if c > 0 {
                return Err(i);
            }
            i = i + 1;
        }
        Err(i)
    }

    /// The value stored under `k`, if any.
    pub fn get(&self, k: &str) -> (r: Option<&V>)
        ensures
            match r {
                Some(v) => self.map().contains_key(k@) && v@ == self.map()[k@],
                None => !self.map().contains_key(k@),
            },
    {
        proof { use_type_invariant(self); }
        match self.search(k) {
            Ok(i) => {
                proof { lemma_lookup(self.entry_seq(), i as int); }
                Some(&self.entries[i].1)
            },
            Err(p) => {
                proof { lemma_insert_at(self.entry_seq(), p as int, k@, arbitrary()); }
                None
            },
        }
    }

    /// Whether `k` has a value.
    pub fn contains_key(&self, k: &str) -> (b: bool)
        ensures
            b == self.map().contains_key(k@),
    {
        self.get(k).is_some()
    }

    /// Sets the value of `k`, returning the value it replaces.
    pub fn insert(&mut self, k: String, v: V) -> (r: Option<V>)
        ensures
            final(self).map() == old(self).map().insert(k@, v@),
            match r {
                Some(o) => old(self).map().contains_key(k@) && o@ == old(self).map()[k@],
                None => !old(self).map().contains_key(k@),
            },
    {
        proof { use_type_invariant(&*self); }
        let ghost es = self.entry_seq();
        match self.search(k.as_str()) {
            Ok(i) => {
                proof {
                    lemma_lookup(es, i as int);
                    lemma_update(es, i as int, v@);
                }
                let ghost kv = k@;
                let ghost vv = v@;
                let mut tmp: Vec<(String, V)> = Vec::new();
                std::mem::swap(&mut tmp, &mut self.entries);
                let (_, old_v) = tmp.remove(i);
                tmp.insert(i, (k, v));
                assert(tmp@.map_values(|e: (String, V)| (e.0@, e.1@)) =~= es.update(i as int, (es[i as int].0, vv)));
                self.entries = tmp;
                Some(old_v)
            },
            Err(p) => {
                proof { lemma_insert_at(es, p as int, k@, v@); }
                let ghost kv = k@;
                let ghost vv = v@;
                let mut tmp: Vec<(String, V)> = Vec::new();
                std::mem::swap(&mut tmp, &mut self.entries);
                tmp.insert(p, (k, v));
                assert(tmp@.map_values(|e: (String, V)| (e.0@, e.1@)) =~= es.insert(p as int, (kv, vv)));
                self.entries = tmp;
                None
            },
        }
    }

    /// Removes the entry for `k`, returning its value.
    pub fn remove(&mut self, k: &str) -> (r: Option<V>)
        ensures
            final(self).map() == old(self).map().remove(k@),
            match r {
                Some(o) => old(self).map().contains_key(k@) && o@ == old(self).map()[k@],
                None => !old(self).map().contains_key(k@),
            },
    {
        proof { use_type_invariant(&*self); }
        let ghost es = self.entry_seq();
        match self.search(k) {
            Ok(i) => {
                proof {
                    lemma_lookup(es, i as int);
                    lemma_remove_at(es, i as int);
                }
                let mut tmp: Vec<(String, V)> = Vec::new();
                std::mem::swap(&mut tmp, &mut self.entries);
                let (_, old_v) = tmp.remove(i);
                assert(tmp@.map_values(|e: (String, V)| (e.0@, e.1@)) =~= es.remove(i as int));
                self.entries = tmp;
                Some(old_v)
            },
            Err(p) => {
                proof {
                    lemma_insert_at(es, p as int, k@, arbitrary());
                    assert(map_of(es).remove(k@) =~= map_of(es));
                }
                None
            },
        }
    }
}

/// A sorted list has as many entries as its map has keys.
pub proof fn lemma_dom_card<V>(es: Seq<(Seq<char>, V)>)
    requires
        sorted_keys(es),
    ensures
        map_of(es).dom().finite(),
        map_of(es).dom().len() == es.len(),
    decreases es.len(),
{
    if es.len() == 0 {
        lemma_empty(es);
    } else {
        let last = es.len() - 1;
        let init = es.drop_last();
        assert(sorted_keys(init)) by {
            assert forall|a: int, b: int| 0 <= a < b < init.len() implies seq_lt(#[trigger] init[a].0, #[trigger] init[b].0) by {
                assert(init[a] == es[a] && init[b] == es[b]);
            }
        }
        lemma_dom_card(init);
        assert forall|j: int| 0 <= j < init.len() implies seq_lt(#[trigger] init[j].0, es[last].0) by {
            assert(init[j] == es[j]);
        }
        lemma_insert_at(init, init.len() as int, es[last].0, es[last].1);
        assert(init.insert(init.len() as int, (es[last].0, es[last].1)) =~= es);
        assert(map_of(es).dom() =~= map_of(init).dom().insert(es[last].0));
    }
}


/// The map of a prefix grows by one entry at a time.
pub proof fn lemma_map_of_take<V>(es: Seq<(Seq<char>, V)>, i: int)
    requires
        sorted_keys(es),
        0 <= i < es.len(),
    ensures
        sorted_keys(es.take(i)),
        map_of(es.take(i + 1)) == map_of(es.take(i)).insert(es[i].0, es[i].1),
{
    let init = es.take(i);
    assert(sorted_keys(init)) by {
        assert forall|a: int, b: int| 0 <= a < b < init.len() implies seq_lt(#[trigger] init[a].0, #[trigger] init[b].0) by {
            assert(init[a] == es[a] && init[b] == es[b]);
        }
    }
    assert forall|j: int| 0 <= j < init.len() implies seq_lt(#[trigger] init[j].0, es[i].0) by {
        assert(init[j] == es[j]);
    }
    lemma_insert_at(init, init.len() as int, es[i].0, es[i].1);
    assert(init.insert(init.len() as int, (es[i].0, es[i].1)) =~= es.take(i + 1));
}

/// Values that can be copied, the copy having the same view.
pub trait Dup: View + Sized {
    fn dup(&self) -> (r: Self)
        ensures
            r@ == self@,
    ;
}

impl<V: Dup> StrMap<V> {
    /// A copy of the map.
    pub fn dup(&self) -> (r: Self)
        ensures
            r.entry_seq() == self.entry_seq(),
            r.map() == self.map(),
    {
        proof { use_type_invariant(self); }
        let mut out: Vec<(String, V)> = Vec::new();
        let mut i: usize = 0;
        while i < self.entries.len()
            invariant
                i <= self.entries@.len(),
                out@.len() == i,
                forall|j: int| 0 <= j < i ==> (#[trigger] out@[j]).0@ == self.entries@[j].0@ && out@[j].1@ == self.entries@[j].1@,
            decreases self.entries.len() - i,
        {
            let k = self.entries[i].0.clone();
            let v = self.entries[i].1.dup();
            out.push((k, v));
            i = i + 1;
        }
        assert(out@.map_values(|e: (String, V)| (e.0@, e.1@)) =~= self.entry_seq());
        let r = StrMap { entries: out };
        r
    }

    /// Adds the entries of `other`, which win over those of `self`.
    pub fn extend_from(&mut self, other: &Self)
        ensures
            final(self).map() == old(self).map().union_prefer_right(other.map()),
    {
        proof { use_type_invariant(other); }
        let ghost start = self.map();
        let ghost es = other.entry_seq();
        assert(es.take(0) =~= Seq::<(Seq<char>, V::V)>::empty());
        proof { lemma_empty(es.take(0)); }
        assert(start.union_prefer_right(map_of(es.take(0))) =~= start);
        let mut i: usize = 0;
        while i < other.len()
            invariant
                i <= es.len(),
                es == other.entry_seq(),
                sorted_keys(es),
                self.map() == start.union_prefer_right(map_of(es.take(i as int))),
            decreases es.len() - i,
        {
            proof { lemma_map_of_take(es, i as int); }
            let k = other.key_at(i).clone();
            let v = other.value_at(i).dup();
            self.insert(k, v);
            assert(self.map() =~= start.union_prefer_right(map_of(es.take(i + 1))));
            i = i + 1;
        }
        assert(es.take(es.len() as int) =~= es);
    }

    /// The union of two maps, `other` winning where both have a key.
    pub fn merge(&self, other: &Self) -> (r: Self)
        ensures
            r.map() == self.map().union_prefer_right(other.map()),
    {
        let mut m = self.dup();
        m.extend_from(other);
        m
    }
}

impl<V: View> StrMap<V> {
    /// The keys in order.
    pub fn keys(&self) -> (r: Vec<String>)
        ensures
            r@.map_values(|k: String| k@) == self.entry_seq().map_values(|e: (Seq<char>, V::V)| e.0),
    {
        let mut out: Vec<String> = Vec::new();
        let mut i: usize = 0;
        while i < self.entries.len()
            invariant
                i <= self.entries@.len(),
                out@.len() == i,
                forall|j: int| 0 <= j < i ==> (#[trigger] out@[j])@ == self.entries@[j].0@,
            decreases self.entries.len() - i,
        {
            out.push(self.entries[i].0.clone());
            i = i + 1;
        }
        assert(out@.map_values(|k: String| k@) =~= self.entry_seq().map_values(|e: (Seq<char>, V::V)| e.0));
        out
    }
}

} // verus!
