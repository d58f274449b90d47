//! Association lists: sequences of key/value pairs in which no key occurs
//! twice, read as maps.
use vstd::prelude::*;

verus! {

/// No key occurs twice.
pub open spec fn keys_distinct<K, V>(s: Seq<(K, V)>) -> bool {
    forall|i: int, j: int|
        0 <= i < s.len() && 0 <= j < s.len() && i != j ==> (#[trigger] s[i]).0 != (
        #[trigger] s[j]).0
}

/// The map of the pairs, a later pair winning over an earlier one.
pub open spec fn assoc_map<K, V>(s: Seq<(K, V)>) -> Map<K, V>
    decreases s.len(),
{
    if s.len() == 0 {
        Map::empty()
    } else {
        assoc_map(s.drop_last()).insert(s.last().0, s.last().1)
    }
}

pub proof fn lemma_assoc_dom<K, V>(s: Seq<(K, V)>, k: K)
    ensures
        assoc_map(s).dom().contains(k) <==> exists|i: int| 0 <= i < s.len() && (#[trigger] s[i]).0 == k,
    decreases s.len(),
{
    if s.len() > 0 {
        let d = s.drop_last();
        lemma_assoc_dom(d, k);
        if exists|i: int| 0 <= i < s.len() && (#[trigger] s[i]).0 == k {
            let i = choose|i: int| 0 <= i < s.len() && (#[trigger] s[i]).0 == k;
            if i < s.len() - 1 {
                assert(d[i] == s[i]);
            }
        }
        if exists|i: int| 0 <= i < d.len() && (#[trigger] d[i]).0 == k {
            let i = choose|i: int| 0 <= i < d.len() && (#[trigger] d[i]).0 == k;
            assert(s[i] == d[i]);
        }
    }
}

pub proof fn lemma_assoc_at<K, V>(s: Seq<(K, V)>, i: int)
    requires
        keys_distinct(s),
        0 <= i < s.len(),
    ensures
        assoc_map(s).dom().contains(s[i].0),
        assoc_map(s)[s[i].0] == s[i].1,
    decreases s.len(),
{
    if i < s.len() - 1 {
        let d = s.drop_last();
        assert(d[i] == s[i]);
        assert(keys_distinct(d)) by {
            assert forall|a: int, b: int|
                0 <= a < d.len() && 0 <= b < d.len() && a != b implies (#[trigger] d[a]).0 != (
            #[trigger] d[b]).0 by {
                assert(d[a] == s[a]);
                assert(d[b] == s[b]);
            }
        }
        lemma_assoc_at(d, i);
        assert(s[i].0 != s[s.len() - 1].0);
    }
}

/// Replacing the pair of a key that is there.
pub proof fn lemma_assoc_update<K, V>(s: Seq<(K, V)>, i: int, e: (K, V))
    requires
        keys_distinct(s),
        0 <= i < s.len(),
        s[i].0 == e.0,
    ensures
        keys_distinct(s.update(i, e)),
        assoc_map(s.update(i, e)) == assoc_map(s).insert(e.0, e.1),
{
    let t = s.update(i, e);
    assert(keys_distinct(t)) by {
        assert forall|a: int, b: int|
            0 <= a < t.len() && 0 <= b < t.len() && a != b implies (#[trigger] t[a]).0 != (
        #[trigger] t[b]).0 by {
            if a != i && b != i {
                assert(t[a] == s[a] && t[b] == s[b]);
            } else if a == i {
                assert(t[b] == s[b]);
            } else {
                assert(t[a] == s[a]);
            }
        }
    }
    assert forall|k: K| #[trigger]
        assoc_map(t).dom().contains(k) == assoc_map(s).insert(e.0, e.1).dom().contains(k) by {
        lemma_assoc_dom(t, k);
        lemma_assoc_dom(s, k);
        if k != e.0 {
            if exists|j: int| 0 <= j < s.len() && (#[trigger] s[j]).0 == k {
                let j = choose|j: int| 0 <= j < s.len() && (#[trigger] s[j]).0 == k;
                assert(t[j] == s[j]);
            }
            if exists|j: int| 0 <= j < t.len() && (#[trigger] t[j]).0 == k {
                let j = choose|j: int| 0 <= j < t.len() && (#[trigger] t[j]).0 == k;
                assert(t[j] == s[j]);
            }
        } else {
            assert(t[i].0 == k);
        }
    }
    assert forall|k: K| #[trigger] assoc_map(t).dom().contains(k) implies assoc_map(t)[k]
        == assoc_map(s).insert(e.0, e.1)[k] by {
        lemma_assoc_dom(t, k);
        let j = choose|j: int| 0 <= j < t.len() && (#[trigger] t[j]).0 == k;
        lemma_assoc_at(t, j);
        if j != i {
            assert(t[j] == s[j]);
            lemma_assoc_at(s, j);
        }
    }
    assert(assoc_map(t) =~= assoc_map(s).insert(e.0, e.1));
}

/// Appending the pair of a key that is not there.
pub proof fn lemma_assoc_push<K, V>(s: Seq<(K, V)>, e: (K, V))
    requires
        keys_distinct(s),
        forall|i: int| 0 <= i < s.len() ==> (#[trigger] s[i]).0 != e.0,
    ensures
        keys_distinct(s.push(e)),
        assoc_map(s.push(e)) == assoc_map(s).insert(e.0, e.1),
{
    let t = s.push(e);
    assert(t.drop_last() =~= s);
    assert(keys_distinct(t)) by {
        assert forall|a: int, b: int|
            0 <= a < t.len() && 0 <= b < t.len() && a != b implies (#[trigger] t[a]).0 != (
        #[trigger] t[b]).0 by {
            if a < s.len() && b < s.len() {
                assert(t[a] == s[a] && t[b] == s[b]);
            } else if a < s.len() {
                assert(t[a] == s[a]);
            } else {
                assert(t[b] == s[b]);
            }
        }
    }
}

} // verus!
