//! The contract's key/value storage and its event log, as the host keeps
//! them.
use crate::pairs::{lemma_put_absent, lemma_put_at, lookup, put};
use vstd::prelude::*;

verus! {

/// The storage of a contract, and the events it emitted.
pub struct ContractStorage {
    entries: Vec<(Vec<u8>, Vec<u8>)>,
    events: Vec<(Vec<u8>, Vec<u8>)>,
}

/// Byte-vector pairs as pairs of sequences.
pub open spec fn pairs_bytes(v: Seq<(Vec<u8>, Vec<u8>)>) -> Seq<(Seq<u8>, Seq<u8>)> {
    v.map_values(|p: (Vec<u8>, Vec<u8>)| (p.0@, p.1@))
}

fn bytes_eq(a: &[u8], b: &[u8]) -> (r: bool)
    ensures
        r == (a@ == b@),
{
    if a.len() != b.len() {
        return false;
    }
    let mut i: usize = 0;
    while i < a.len()
        invariant
            i <= a@.len(),
            a@.len() == b@.len(),
            forall|k: int| 0 <= k < i ==> a@[k] == b@[k],
        decreases a@.len() - i,
    {
        if a[i] != b[i] {
            return false;
        }
        i = i + 1;
    }
    assert(a@ =~= b@);
    true
}

fn find_entry(v: &Vec<(Vec<u8>, Vec<u8>)>, key: &[u8]) -> (r: Option<usize>)
    ensures
        match r {
            Some(i) => i < v@.len() && pairs_bytes(v@)[i as int].0 == key@ && forall|j: int|
                0 <= j < i ==> pairs_bytes(v@)[j].0 != key@,
            None => forall|j: int| 0 <= j < v@.len() ==> pairs_bytes(v@)[j].0 != key@,
        },
{
    let mut i: usize = 0;
    while i < v.len()
        invariant
            i <= v@.len(),
            forall|j: int| 0 <= j < i ==> pairs_bytes(v@)[j].0 != key@,
        decreases v@.len() - i,
    {
        if bytes_eq(v[i].0.as_slice(), key) {
            return Some(i);
        }
        i = i + 1;
    }
    None
}

impl ContractStorage {
    /// The stored values by key.
    pub closed spec fn entries_spec(&self) -> Seq<(Seq<u8>, Seq<u8>)> {
        pairs_bytes(self.entries@)
    }

    /// The events emitted, oldest first: name and data.
    pub closed spec fn events_spec(&self) -> Seq<(Seq<u8>, Seq<u8>)> {
        pairs_bytes(self.events@)
    }

    /// Empty storage with no events.
    pub fn new() -> (r: Self)
        ensures
            r.entries_spec() == Seq::<(Seq<u8>, Seq<u8>)>::empty(),
            r.events_spec() == Seq::<(Seq<u8>, Seq<u8>)>::empty(),
    {
        let r = ContractStorage { entries: Vec::new(), events: Vec::new() };
        assert(r.entries_spec() =~= Seq::<(Seq<u8>, Seq<u8>)>::empty());
        assert(r.events_spec() =~= Seq::<(Seq<u8>, Seq<u8>)>::empty());
        r
    }

    /// The value stored under `key`, if any.
    pub fn storage_get(&self, key: &[u8]) -> (r: Option<Vec<u8>>)
        ensures
            match r {
                Some(v) => lookup(self.entries_spec(), key@) == Some(v@),
                None => lookup(self.entries_spec(), key@) is None,
            },
    {
        match find_entry(&self.entries, key) {
            Some(i) => {
                proof {
                    lemma_put_at(self.entries_spec(), key@, Seq::<u8>::empty(), i as int);
                }
                Some(vstd::slice::slice_to_vec(self.entries[i].1.as_slice()))
            },
            None => {
                proof {
                    lemma_put_absent(self.entries_spec(), key@, Seq::<u8>::empty());
                }
                None
            },
        }
    }

    /// Stores `value` under `key`.
    pub fn storage_set(&mut self, key: &[u8], value: &[u8])
        ensures
            final(self).entries_spec() == put(old(self).entries_spec(), key@, value@),
            final(self).events_spec() == old(self).events_spec(),
    {
        let v = vstd::slice::slice_to_vec(value);
        match find_entry(&self.entries, key) {
            Some(i) => {
                proof {
                    lemma_put_at(self.entries_spec(), key@, value@, i as int);
                }
                let k = vstd::slice::slice_to_vec(key);
                self.entries.set(i, (k, v));
                assert(self.entries_spec() =~= put(old(self).entries_spec(), key@, value@));
            },
            None => {
                proof {
                    lemma_put_absent(self.entries_spec(), key@, value@);
                }
                let k = vstd::slice::slice_to_vec(key);
                self.entries.push((k, v));
                assert(self.entries_spec() =~= put(old(self).entries_spec(), key@, value@));
            },
        }
    }

    /// Records an event.
    pub fn emit_event(&mut self, name: &[u8], data: &[u8])
        ensures
            final(self).events_spec() == old(self).events_spec().push((name@, data@)),
            final(self).entries_spec() == old(self).entries_spec(),
    {
        let n = vstd::slice::slice_to_vec(name);
        let d = vstd::slice::slice_to_vec(data);
        self.events.push((n, d));
        assert(self.events_spec() =~= old(self).events_spec().push((name@, data@)));
    }
}

} // verus!
