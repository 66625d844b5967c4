//! Lists of key/value pairs read as association lists: the first pair with
//! a key gives its value.
use vstd::prelude::*;

verus! {

/// The value of the first pair whose key is `k`, if any.
pub open spec fn lookup<K, V>(s: Seq<(K, V)>, k: K) -> Option<V>
    decreases s.len(),
{
    if s.len() == 0 {
        None
    } else if s[0].0 == k {
        Some(s[0].1)
    } else {
        lookup(s.drop_first(), k)
    }
}

/// The list with the value under `k` replaced by `v`, or `(k, v)` appended
/// where no pair has key `k`.
pub open spec fn put<K, V>(s: Seq<(K, V)>, k: K, v: V) -> Seq<(K, V)>
    decreases s.len(),
{
    if s.len() == 0 {
        seq![(k, v)]
    } else if s[0].0 == k {
        seq![(k, v)] + s.drop_first()
    } else {
        seq![s[0]] + put(s.drop_first(), k, v)
    }
}

/// Where the first pair with key `k` stands at `i`, `put` replaces it there.
pub proof fn lemma_put_at<K, V>(s: Seq<(K, V)>, k: K, v: V, i: int)
    requires
        0 <= i < s.len(),
        s[i].0 == k,
        forall|j: int| 0 <= j < i ==> s[j].0 != k,
    ensures
        put(s, k, v) == s.update(i, (k, v)),
        lookup(s, k) == Some(s[i].1),
    decreases i,
{
    if i == 0 {
        assert(put(s, k, v) =~= s.update(0, (k, v)));
    } else {
        lemma_put_at(s.drop_first(), k, v, i - 1);
        assert(put(s, k, v) =~= s.update(i, (k, v)));
    }
}

/// Where no pair has key `k`, `put` appends `(k, v)`.
pub proof fn lemma_put_absent<K, V>(s: Seq<(K, V)>, k: K, v: V)
    requires
        forall|j: int| 0 <= j < s.len() ==> s[j].0 != k,
    ensures
        put(s, k, v) == s.push((k, v)),
        lookup(s, k) == None::<V>,
    decreases s.len(),
{
    if s.len() == 0 {
        assert(put(s, k, v) =~= s.push((k, v)));
    } else {
        lemma_put_absent(s.drop_first(), k, v);
        assert(put(s, k, v) =~= s.push((k, v)));
    }
}

/// A lookup after a `put`.
pub proof fn lemma_lookup_put<K, V>(s: Seq<(K, V)>, k: K, v: V, q: K)
    ensures
        lookup(put(s, k, v), q) == (if q == k {
            Some(v)
        } else {
            lookup(s, q)
        }),
    decreases s.len(),
{
    let p = put(s, k, v);
    if s.len() == 0 {
        assert(p =~= seq![(k, v)]);
        assert(p[0] == (k, v));
        assert(p.drop_first() =~= Seq::<(K, V)>::empty());
        assert(lookup(p.drop_first(), q) == None::<V>);
        assert(lookup(s, q) == None::<V>);
        assert(lookup(p, q) == (if q == k { Some(v) } else { lookup(s, q) }));
    } else if s[0].0 == k {
        assert(p =~= seq![(k, v)] + s.drop_first());
        assert(p[0] == (k, v));
        assert(p.drop_first() =~= s.drop_first());
        assert(lookup(p, q) == (if q == k { Some(v) } else { lookup(s, q) }));
    } else {
        lemma_lookup_put(s.drop_first(), k, v, q);
        assert(p =~= seq![s[0]] + put(s.drop_first(), k, v));
        assert(p[0] == s[0]);
        assert(p.drop_first() =~= put(s.drop_first(), k, v));
        assert(lookup(p, q) == (if q == k { Some(v) } else { lookup(s, q) }));
    }
}

/// A lookup in a list extended at its end gives the same value wherever
/// the list already had the key.
pub proof fn lemma_lookup_extend<K, V>(s: Seq<(K, V)>, t: Seq<(K, V)>, k: K)
    requires
        lookup(s, k) is Some,
    ensures
        lookup(s + t, k) == lookup(s, k),
    decreases s.len(),
{
    if s[0].0 != k {
        assert((s + t).drop_first() =~= s.drop_first() + t);
        lemma_lookup_extend(s.drop_first(), t, k);
    }
}

} // verus!
