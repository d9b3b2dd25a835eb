//! The elements of sets and maps as vectors.

use std::collections::{BTreeMap, HashMap, HashSet};
use vstd::prelude::*;
use vstd::std_specs::cmp::OrdSpec;
use vstd::std_specs::hash::*;
use vstd::std_specs::iter::IteratorSpec;

verus! {

broadcast use vstd::std_specs::hash::group_hash_axioms;

/// `order` holds each element of `s` once, and nothing else.
pub open spec fn enumerates<A>(order: Seq<A>, s: Set<A>) -> bool {
    order.no_duplicates() && order.to_set() == s
}

/// Each key is smaller than every later one.
pub open spec fn ascending(keys: Seq<i64>) -> bool {
    forall|i: int, j: int| 0 <= i < j < keys.len() ==> keys[i] < keys[j]
}

/// The keys of a hash map, in the order in which the map is walked.
pub fn map_keys<K: Copy, V>(m: &HashMap<K, V>) -> (keys: Vec<K>)
    requires
        obeys_key_model::<K>(),
    ensures
        enumerates(keys@, m@.dom()),
{
    let mut keys: Vec<K> = Vec::new();
    let ghost all = vstd::std_specs::hash::spec_keys_iter(m).remaining().unref();
    for k in it: m.keys()
        invariant
            keys@ == all.take(it.index() as int),
            it.seq().unref() == all,
            enumerates(all, m@.dom()),
    {
        keys.push(*k);
        assert(all.take(it.index() as int + 1) =~= all.take(it.index() as int).push(
            all[it.index() as int],
        ));
    }
    assert(all.take(all.len() as int) =~= all);
    keys
}

/// The elements of a hash set, in the order in which the set is walked.
pub fn set_items<K: Copy>(s: &HashSet<K>) -> (items: Vec<K>)
    requires
        obeys_key_model::<K>(),
    ensures
        enumerates(items@, s@),
{
    let mut items: Vec<K> = Vec::new();
    let ghost all = vstd::std_specs::hash::spec_hash_keys_iter(s).remaining().unref();
    for k in it: s.iter()
        invariant
            items@ == all.take(it.index() as int),
            it.seq().unref() == all,
            enumerates(all, s@),
    {
        items.push(*k);
        assert(all.take(it.index() as int + 1) =~= all.take(it.index() as int).push(
            all[it.index() as int],
        ));
    }
    assert(all.take(all.len() as int) =~= all);
    items
}

proof fn lemma_increasing(keys: Seq<i64>)
    requires
        vstd::std_specs::btree::increasing_seq(keys),
    ensures
        ascending(keys),
{
    broadcast use vstd::std_specs::btree::group_btree_axioms;
    broadcast use vstd::laws_cmp::group_laws_cmp;

    assert forall|i: int, j: int| 0 <= i < j < keys.len() implies keys[i] < keys[j] by {
        assert(keys[i].cmp_spec(&keys[j]) is Less);
    }
}

/// The keys of an ordered map, smallest first.
pub fn ordered_keys<V>(m: &BTreeMap<i64, V>) -> (keys: Vec<i64>)
    ensures
        enumerates(keys@, m@.dom()),
        ascending(keys@),
{
    broadcast use vstd::std_specs::btree::group_btree_axioms;

    let mut keys: Vec<i64> = Vec::new();
    let iter = m.iter();
    let ghost pairs = iter.remaining();
    let ghost all = pairs.map_values(|kv: (&i64, &V)| *kv.0);
    proof {
        assert(vstd::std_specs::btree::increasing_seq(all));
        lemma_increasing(all);
        assert forall|k: i64| m@.dom().contains(k) implies all.to_set().contains(k) by {
            assert(pairs.contains((&k, &m@[k])));
            let i = choose|i: int| 0 <= i < pairs.len() && pairs[i] == (&k, &m@[k]);
            assert(all[i] == k);
        }
        assert forall|k: i64| all.to_set().contains(k) implies m@.dom().contains(k) by {
            let i = choose|i: int| 0 <= i < all.len() && all[i] == k;
            assert(m@.contains_key(*pairs[i].0));
        }
        assert(all.to_set() =~= m@.dom());
    }
    for kv in it: iter
        invariant
            it.seq() == pairs,
            all == pairs.map_values(|kv: (&i64, &V)| *kv.0),
            keys@ == all.take(it.index() as int),
    {
        keys.push(*kv.0);
        assert(all.take(it.index() as int + 1) =~= all.take(it.index() as int).push(
            all[it.index() as int],
        ));
    }
    assert(all.take(all.len() as int) =~= all);
    keys
}

/// What the first `i + 1` elements are, in terms of the first `i`.
pub proof fn lemma_take_next<A>(s: Seq<A>, i: int)
    requires
        0 <= i < s.len(),
    ensures
        s.take(i + 1) == s.take(i).push(s[i]),
        forall|x: A| #[trigger]
            s.take(i + 1).contains(x) <==> s.take(i).contains(x) || x == s[i],
        s.take(i + 1).to_set() == s.take(i).to_set().insert(s[i]),
        s.no_duplicates() ==> !s.take(i).contains(s[i]),
{
    let a = s.take(i);
    let b = s.take(i + 1);
    assert(b =~= a.push(s[i]));
    assert forall|x: A| #[trigger] b.contains(x) <==> a.contains(x) || x == s[i] by {
        if a.contains(x) {
            let j = choose|j: int| 0 <= j < a.len() && a[j] == x;
            assert(b[j] == x);
        }
        if x == s[i] {
            assert(b[i] == x);
        }
        if b.contains(x) && x != s[i] {
            let j = choose|j: int| 0 <= j < b.len() && b[j] == x;
            assert(a[j] == x);
        }
    }
    assert(b.to_set() =~= a.to_set().insert(s[i]));
    if s.no_duplicates() && a.contains(s[i]) {
        let j = choose|j: int| 0 <= j < a.len() && a[j] == s[i];
        assert(s[j] == s[i]);
    }
}

/// Two ascending sequences of the same elements are the same sequence.
pub proof fn lemma_ascending_unique(a: Seq<i64>, b: Seq<i64>)
    requires
        ascending(a),
        ascending(b),
        a.to_set() == b.to_set(),
    ensures
        a == b,
    decreases a.len(),
{
    if a.len() == 0 {
        if b.len() > 0 {
            assert(b.to_set().contains(b[0]));
            assert(a.contains(b[0]));
        }
        assert(a =~= b);
    } else {
        assert(a.to_set().contains(a[0]));
        assert(b.contains(a[0]));
        assert(b.len() > 0);
        let x = a.last();
        let y = b.last();
        assert(a.to_set().contains(x));
        assert(b.contains(x));
        assert(b.to_set().contains(y));
        assert(a.contains(y));
        assert(x == y);
        let p = a.drop_last();
        let q = b.drop_last();
        assert forall|k: i64| p.to_set().contains(k) implies q.to_set().contains(k) by {
            let i = choose|i: int| 0 <= i < p.len() && p[i] == k;
            assert(a[i] == k && k < x);
            assert(a.to_set().contains(k));
            assert(b.contains(k));
            let j = choose|j: int| 0 <= j < b.len() && b[j] == k;
            assert(q[j] == k);
        }
        assert forall|k: i64| q.to_set().contains(k) implies p.to_set().contains(k) by {
            let j = choose|j: int| 0 <= j < q.len() && q[j] == k;
            assert(b[j] == k && k < y);
            assert(b.to_set().contains(k));
            assert(a.contains(k));
            let i = choose|i: int| 0 <= i < a.len() && a[i] == k;
            assert(p[i] == k);
        }
        assert(p.to_set() =~= q.to_set());
        lemma_ascending_unique(p, q);
        assert(a =~= p.push(x));
        assert(b =~= q.push(y));
    }
}

} // verus!
