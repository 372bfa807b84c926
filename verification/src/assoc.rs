//! Association lists viewed as mathematical maps.
//!
//! The rendering state machine stores its tables as vectors of key/value
//! pairs with pairwise-distinct keys; this module gives such a sequence its
//! map abstraction and the lemmas the table operations rely on.

use vstd::prelude::*;

verus! {

/// The map abstraction of a sequence of key/value pairs. Later entries win,
/// which coincides with plain lookup whenever the keys are distinct.
pub open spec fn assoc_map<K, V>(s: Seq<(K, V)>) -> Map<K, V>
    decreases s.len(),
{
    if s.len() == 0 {
        Map::empty()
    } else {
        assoc_map(s.drop_last()).insert(s.last().0, s.last().1)
    }
}

/// No two entries share a key.
pub open spec fn unique_keys<K, V>(s: Seq<(K, V)>) -> bool {
    forall|i: int, j: int| 0 <= i < j < s.len() ==> s[i].0 != s[j].0
}

/// A key is in the map's domain exactly when some entry holds it.
pub proof fn lemma_assoc_map_dom<K, V>(s: Seq<(K, V)>, k: K)
    ensures
        assoc_map(s).dom().contains(k) <==> exists|i: int|
            0 <= i < s.len() && #[trigger] s[i].0 == k,
    decreases s.len(),
{
    if s.len() > 0 {
        lemma_assoc_map_dom(s.drop_last(), k);
        if assoc_map(s).dom().contains(k) {
            if k == s.last().0 {
                assert(s[s.len() - 1].0 == k);
            } else {
                let i = choose|i: int|
                    0 <= i < s.drop_last().len() && #[trigger] s.drop_last()[i].0 == k;
                assert(s.drop_last()[i] == s[i]);
                assert(s[i].0 == k);
            }
        }
        if exists|i: int| 0 <= i < s.len() && #[trigger] s[i].0 == k {
            let i = choose|i: int| 0 <= i < s.len() && #[trigger] s[i].0 == k;
            if i < s.len() - 1 {
                assert(s.drop_last()[i].0 == k);
            }
            assert(assoc_map(s).dom().contains(k));
        }
    }
}

/// With distinct keys, the entry holding a key gives the map's value at it.
pub proof fn lemma_assoc_map_index<K, V>(s: Seq<(K, V)>, i: int)
    requires
        unique_keys(s),
        0 <= i < s.len(),
    ensures
        assoc_map(s).dom().contains(s[i].0),
        assoc_map(s)[s[i].0] == s[i].1,
    decreases s.len(),
{
    if i == s.len() - 1 {
    } else {
        assert(s.drop_last()[i] == s[i]);
        lemma_assoc_map_index(s.drop_last(), i);
        assert(s[s.len() - 1].0 != s[i].0);
    }
}

/// Updating the entry that holds a key updates the map at that key.
pub proof fn lemma_assoc_map_update<K, V>(s: Seq<(K, V)>, i: int, v: V)
    requires
        unique_keys(s),
        0 <= i < s.len(),
    ensures
        unique_keys(s.update(i, (s[i].0, v))),
        assoc_map(s.update(i, (s[i].0, v))) == assoc_map(s).insert(s[i].0, v),
    decreases s.len(),
{
    let k = s[i].0;
    let t = s.update(i, (k, v));
    assert(forall|j: int| 0 <= j < s.len() ==> #[trigger] t[j].0 == s[j].0);
    if i == s.len() - 1 {
        assert(t.drop_last() =~= s.drop_last());
        assert(assoc_map(t) =~= assoc_map(s).insert(k, v));
    } else {
        assert(t.drop_last() =~= s.drop_last().update(i, (k, v)));
        assert(s.drop_last()[i] == s[i]);
        lemma_assoc_map_update(s.drop_last(), i, v);
        assert(s.last().0 != k);
        assert(t.last() == s.last());
        assert(assoc_map(t) =~= assoc_map(s).insert(k, v));
    }
}

/// Removing the entry that holds a key removes the key from the map.
pub proof fn lemma_assoc_map_remove<K, V>(s: Seq<(K, V)>, i: int)
    requires
        unique_keys(s),
        0 <= i < s.len(),
    ensures
        unique_keys(s.remove(i)),
        assoc_map(s.remove(i)) == assoc_map(s).remove(s[i].0),
    decreases s.len(),
{
    let k = s[i].0;
    let t = s.remove(i);
    assert(forall|j: int| 0 <= j < i ==> #[trigger] t[j] == s[j]);
    assert(forall|j: int| i <= j < t.len() ==> #[trigger] t[j] == s[j + 1]);
    if i == s.len() - 1 {
        assert(t =~= s.drop_last());
        lemma_assoc_map_dom(s.drop_last(), k);
        assert(forall|j: int| 0 <= j < s.len() - 1 ==> #[trigger] s[j].0 != k);
        assert(!assoc_map(s.drop_last()).dom().contains(k));
        assert(assoc_map(t) =~= assoc_map(s).remove(k));
    } else {
        assert(t.drop_last() =~= s.drop_last().remove(i));
        assert(s.drop_last()[i] == s[i]);
        lemma_assoc_map_remove(s.drop_last(), i);
        assert(s.last().0 != k);
        assert(t.last() == s.last());
        assert(assoc_map(t) =~= assoc_map(s).remove(k));
    }
}

/// Appending an entry with a fresh key inserts it into the map.
pub proof fn lemma_assoc_map_push<K, V>(s: Seq<(K, V)>, k: K, v: V)
    requires
        unique_keys(s),
        forall|i: int| 0 <= i < s.len() ==> #[trigger] s[i].0 != k,
    ensures
        unique_keys(s.push((k, v))),
        assoc_map(s.push((k, v))) == assoc_map(s).insert(k, v),
{
    let t = s.push((k, v));
    assert(t.drop_last() =~= s);
    assert(forall|i: int| 0 <= i < s.len() ==> #[trigger] t[i] == s[i]);
}

/// Every element of a filtered sequence is an element of the original.
pub proof fn lemma_filter_members<A>(s: Seq<A>, pred: spec_fn(A) -> bool)
    ensures
        forall|i: int|
            0 <= i < s.filter(pred).len() ==> s.contains(#[trigger] s.filter(pred)[i]),
    decreases s.len(),
{
    reveal(Seq::filter);
    if s.len() > 0 {
        let prefix = s.drop_last();
        lemma_filter_members(prefix, pred);
        assert(forall|j: int| 0 <= j < prefix.len() ==> #[trigger] prefix[j] == s[j]);
        assert forall|i: int| 0 <= i < s.filter(pred).len() implies s.contains(
            #[trigger] s.filter(pred)[i],
        ) by {
            if pred(s.last()) && i == s.filter(pred).len() - 1 {
                assert(s[s.len() - 1] == s.filter(pred)[i]);
            } else {
                assert(s.filter(pred)[i] == prefix.filter(pred)[i]);
                assert(prefix.contains(prefix.filter(pred)[i]));
                let w = choose|w: int| 0 <= w < prefix.len() && prefix[w] == prefix.filter(pred)[i];
                assert(s[w] == s.filter(pred)[i]);
            }
        }
    }
}

/// Filtering by pointwise-equal predicates gives equal sequences.
pub proof fn lemma_filter_congruence<A>(s: Seq<A>, p: spec_fn(A) -> bool, q: spec_fn(A) -> bool)
    requires
        forall|x: A| #[trigger] p(x) == q(x),
    ensures
        s.filter(p) == s.filter(q),
    decreases s.len(),
{
    reveal(Seq::filter);
    if s.len() > 0 {
        lemma_filter_congruence(s.drop_last(), p, q);
    }
}

/// Keeping exactly the entries whose keys satisfy `keep` restricts the map
/// to those keys.
pub proof fn lemma_assoc_map_filter<K, V>(s: Seq<(K, V)>, keep: spec_fn(K) -> bool)
    requires
        unique_keys(s),
    ensures
        unique_keys(s.filter(|e: (K, V)| keep(e.0))),
        assoc_map(s.filter(|e: (K, V)| keep(e.0))) == assoc_map(s).restrict(
            assoc_map(s).dom().filter(keep),
        ),
    decreases s.len(),
{
    reveal(Seq::filter);
    let pred = |e: (K, V)| keep(e.0);
    let t = s.filter(pred);
    if s.len() == 0 {
        assert(assoc_map(t) =~= assoc_map(s).restrict(assoc_map(s).dom().filter(keep)));
    } else {
        let prefix = s.drop_last();
        lemma_assoc_map_filter(prefix, keep);
        prefix.filter_lemma(pred);
        lemma_assoc_map_dom(prefix, s.last().0);
        assert(forall|i: int| 0 <= i < prefix.len() ==> #[trigger] prefix[i] == s[i]);
        assert(forall|i: int| 0 <= i < prefix.len() ==> #[trigger] prefix[i].0 != s.last().0);
        assert(!assoc_map(prefix).dom().contains(s.last().0));
        if keep(s.last().0) {
            assert(t == prefix.filter(pred).push(s.last()));
            assert(t.drop_last() =~= prefix.filter(pred));
            lemma_filter_members(prefix, pred);
            assert forall|i: int, j: int| 0 <= i < j < t.len() implies t[i].0 != t[j].0 by {
                if j < t.len() - 1 {
                    assert(prefix.filter(pred)[i] == t[i]);
                    assert(prefix.filter(pred)[j] == t[j]);
                } else {
                    assert(prefix.filter(pred)[i] == t[i]);
                    assert(prefix.contains(prefix.filter(pred)[i]));
                    let w = choose|w: int| 0 <= w < prefix.len() && prefix[w] == t[i];
                    assert(prefix[w].0 != s.last().0);
                }
            }
            assert(assoc_map(t) =~= assoc_map(s).restrict(assoc_map(s).dom().filter(keep)));
        } else {
            assert(t == prefix.filter(pred));
            assert(assoc_map(t) =~= assoc_map(s).restrict(assoc_map(s).dom().filter(keep)));
        }
    }
}


/// With distinct keys, the map has exactly one key per entry.
pub proof fn lemma_assoc_map_dom_len<K, V>(s: Seq<(K, V)>)
    requires
        unique_keys(s),
    ensures
        assoc_map(s).dom().finite(),
        assoc_map(s).dom().len() == s.len(),
    decreases s.len(),
{
    if s.len() == 0 {
        assert(assoc_map(s).dom() =~= Set::<K>::empty());
    } else {
        let prefix = s.drop_last();
        assert(forall|i: int| 0 <= i < prefix.len() ==> #[trigger] prefix[i] == s[i]);
        lemma_assoc_map_dom_len(prefix);
        lemma_assoc_map_dom(prefix, s.last().0);
        assert(!assoc_map(prefix).dom().contains(s.last().0));
        assert(assoc_map(s).dom() =~= assoc_map(prefix).dom().insert(s.last().0));
    }
}

} // verus!
