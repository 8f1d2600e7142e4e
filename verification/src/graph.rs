//! Edges of the connection graph that the logger draws: how many messages
//! of each kind went along an edge, and how many bytes.

use vstd::prelude::*;
use crate::strmap::{StrMap, sorted_keys, map_of};
use crate::text::{push_str, string_push, u64_to_string, nat_decimal};

verus! {

/// What the logger learnt of one message: its kind and the bytes sent.
pub struct Info {
    pub label: String,
    pub sent: usize,
}

impl Info {
    /// The kind of message.
    pub fn label(&self) -> (s: String)
        ensures
            s@ == self.label@,
    {
        self.label.clone()
    }

    /// The bytes sent.
    pub fn sent(&self) -> (n: usize)
        ensures
            n == self.sent,
    {
        self.sent
    }
}

/// An edge of the connection graph: a count of messages per kind, and the
/// bytes that went along it.
pub struct ConnectionEdge {
    typs: StrMap<usize>,
    bytes: usize,
}

/// `label (count)` for each kind, joined by `, `.
pub open spec fn typs_text(es: Seq<(Seq<char>, usize)>) -> Seq<char>
    decreases es.len(),
{
    if es.len() == 0 {
        Seq::empty()
    } else {
        let one = es.last().0 + seq![' ', '('] + nat_decimal(es.last().1 as nat) + seq![')'];
        if es.len() == 1 {
            one
        } else {
            typs_text(es.drop_last()) + seq![',', ' '] + one
        }
    }
}

/// The label of an edge: the kinds with their counts, and the bytes when
/// there are any.
pub open spec fn edge_label(es: Seq<(Seq<char>, usize)>, bytes: usize) -> Seq<char> {
    let tys = typs_text(es);
    if bytes == 0 {
        tys
    } else if tys.len() == 0 {
        nat_decimal(bytes as nat) + " bytes"@
    } else {
        tys + seq![';', ' '] + nat_decimal(bytes as nat) + " bytes"@
    }
}

impl ConnectionEdge {
    /// The kinds and their counts, in order of kind.
    pub closed spec fn counts(&self) -> Seq<(Seq<char>, usize)> {
        self.typs.entry_seq()
    }

    /// The counts by kind: the map that the counts in order of kind denote.
    pub open spec fn count_map(&self) -> Map<Seq<char>, usize> {
        map_of(self.counts())
    }

    /// The bytes.
    pub closed spec fn byte_count(&self) -> usize {
        self.bytes
    }

    /// An edge with one message.
    pub fn from_info(info: &Info) -> (e: ConnectionEdge)
        ensures
            e.counts() == seq![(info.label@, 1usize)],
            e.count_map() == Map::<Seq<char>, usize>::empty().insert(info.label@, 1),
            e.byte_count() == info.sent,
    {
        let mut typs = StrMap::new();
        typs.insert(info.label(), 1);
        typs.properties();
        let e = ConnectionEdge { typs, bytes: info.sent() };
        proof {
            let es = seq![(info.label@, 1usize)];
            crate::strmap::lemma_lookup(es, 0);
            assert(map_of(es) =~= Map::<Seq<char>, usize>::empty().insert(info.label@, 1));
            crate::strmap::lemma_sorted_unique(e.counts(), es);
        }
        e
    }

    /// An edge with only received bytes.
    pub fn from_received(bytes: usize) -> (e: ConnectionEdge)
        ensures
            e.counts() == Seq::<(Seq<char>, usize)>::empty(),
            e.count_map() == Map::<Seq<char>, usize>::empty(),
            e.byte_count() == bytes,
    {
        let typs: StrMap<usize> = StrMap::new();
        typs.properties();
        let e = ConnectionEdge { typs, bytes };
        proof {
            if e.counts().len() > 0 {
                crate::strmap::lemma_lookup(e.counts(), 0);
            }
        }
        e
    }

    /// Counts one more message.
    pub fn update_with_info(&mut self, info: &Info)
        requires
            old(self).count_map().contains_key(info.label@) ==> old(self).count_map()[info.label@] < usize::MAX,
            old(self).byte_count() + info.sent <= usize::MAX,
        ensures
            final(self).count_map() == old(self).count_map().insert(
                info.label@,
                if old(self).count_map().contains_key(info.label@) { (old(self).count_map()[info.label@] + 1) as usize } else { 1 },
            ),
            final(self).byte_count() == old(self).byte_count() + info.sent,
            sorted_keys(final(self).counts()),
    {
        let label = info.label();
        let n: usize = match self.typs.get(label.as_str()) {
            Some(count) => *count + 1,
            None => 1,
        };
        self.typs.insert(label, n);
        self.typs.properties();
        self.bytes = self.bytes + info.sent();
    }

    /// Counts received bytes.
    pub fn update_with_received(&mut self, bytes: usize)
        requires
            old(self).byte_count() + bytes <= usize::MAX,
        ensures
            final(self).counts() == old(self).counts(),
            final(self).byte_count() == old(self).byte_count() + bytes,
    {
        self.bytes = self.bytes + bytes;
    }

    /// The edge's label (see `edge_label`).
    pub fn label(&self) -> (s: String)
        ensures
            s@ == edge_label(self.counts(), self.byte_count()),
            sorted_keys(self.counts()),
    {
        self.typs.properties();
        let ghost es = self.typs.entry_seq();
        let mut tys = String::new();
        let mut i: usize = 0;
        while i < self.typs.len()
            invariant
                i <= es.len(),
                es == self.typs.entry_seq(),
                tys@ == typs_text(es.take(i as int)),
            decreases es.len() - i,
        {
            if i > 0 {
                string_push(&mut tys, ',');
                string_push(&mut tys, ' ');
            }
            let k = self.typs.key_at(i);
            let c = *self.typs.value_at(i);
            push_str(&mut tys, k.as_str());
            string_push(&mut tys, ' ');
            string_push(&mut tys, '(');
            let cs = u64_to_string(c as u64);
            push_str(&mut tys, cs.as_str());
            string_push(&mut tys, ')');
            assert(es.take(i + 1).drop_last() == es.take(i as int));
            assert(es.take(i + 1).last() == es[i as int]);
            i = i + 1;
        }
        assert(es.take(es.len() as int) == es);
        if self.bytes == 0 {
            tys
        } else if tys.as_str().is_empty() {
            let mut s = u64_to_string(self.bytes as u64);
            push_str(&mut s, " bytes");
            s
        } else {
            string_push(&mut tys, ';');
            string_push(&mut tys, ' ');
            let b = u64_to_string(self.bytes as u64);
            push_str(&mut tys, b.as_str());
            push_str(&mut tys, " bytes");
            tys
        }
    }
}

} // verus!
