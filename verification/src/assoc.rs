//! Association sequences keyed by strings: the mathematical model shared by
//! the mount-exclusion store and the module configuration store.  A store's
//! contents are a sequence of (key, value) pairs with pairwise-distinct keys;
//! `assoc_map` abstracts the sequence to a `Map`, and `key_index` gives the
//! first position of a key, which the executable lookups realize.

use vstd::prelude::*;

verus! {

/// All keys in the sequence are pairwise distinct.
pub open spec fn distinct_keys<V>(s: Seq<(Seq<char>, V)>) -> bool {
    forall|i: int, j: int| 0 <= i < j < s.len() ==> s[i].0 != s[j].0
}

/// The map abstraction of an association sequence (later pairs win, which is
/// irrelevant once keys are distinct).
pub open spec fn assoc_map<V>(s: Seq<(Seq<char>, V)>) -> Map<Seq<char>, V>
    decreases s.len(),
{
    if s.len() == 0 {
        Map::empty()
    } else {
        assoc_map(s.drop_last()).insert(s.last().0, s.last().1)
    }
}

/// First index holding `k`, or -1 when `k` is absent.
pub open spec fn key_index<V>(s: Seq<(Seq<char>, V)>, k: Seq<char>) -> int
    decreases s.len(),
{
    if s.len() == 0 {
        -1
    } else if s[0].0 == k {
        0
    } else {
        let r = key_index(s.drop_first(), k);
        if r < 0 {
            -1
        } else {
            r + 1
        }
    }
}

pub proof fn lemma_key_index<V>(s: Seq<(Seq<char>, V)>, k: Seq<char>)
    ensures
        -1 <= key_index(s, k) < s.len(),
        key_index(s, k) >= 0 ==> s[key_index(s, k)].0 == k,
        key_index(s, k) >= 0 ==> forall|j: int| 0 <= j < key_index(s, k) ==> s[j].0 != k,
        key_index(s, k) == -1 ==> forall|j: int| 0 <= j < s.len() ==> s[j].0 != k,
    decreases s.len(),
{
    if s.len() > 0 && s[0].0 != k {
        lemma_key_index(s.drop_first(), k);
        assert forall|j: int| 0 <= j < s.len() && j >= 1 implies s[j] == s.drop_first()[j - 1] by {}
    }
}

/// `key_index` is the unique position satisfying "first match".
pub proof fn lemma_key_index_is<V>(s: Seq<(Seq<char>, V)>, k: Seq<char>, i: int)
    requires
        0 <= i < s.len(),
        s[i].0 == k,
        forall|j: int| 0 <= j < i ==> s[j].0 != k,
    ensures
        key_index(s, k) == i,
{
    lemma_key_index(s, k);
    let ki = key_index(s, k);
    if ki == -1 {
        assert(s[i].0 != k);
    } else if ki < i {
        assert(s[ki].0 != k);
    } else if ki > i {
        assert(s[i].0 != k);
    }
}

pub proof fn lemma_key_index_absent<V>(s: Seq<(Seq<char>, V)>, k: Seq<char>)
    requires
        forall|j: int| 0 <= j < s.len() ==> s[j].0 != k,
    ensures
        key_index(s, k) == -1,
{
    lemma_key_index(s, k);
    let ki = key_index(s, k);
    if ki >= 0 {
        assert(s[ki].0 != k);
    }
}

pub proof fn lemma_assoc_map_domain<V>(s: Seq<(Seq<char>, V)>, k: Seq<char>)
    ensures
        assoc_map(s).contains_key(k) <==> exists|j: int| 0 <= j < s.len() && s[j].0 == k,
        assoc_map(s).contains_key(k) <==> key_index(s, k) >= 0,
    decreases s.len(),
{
    lemma_key_index(s, k);
    if s.len() > 0 {
        lemma_assoc_map_domain(s.drop_last(), k);
        if exists|j: int| 0 <= j < s.len() && s[j].0 == k {
            let j = choose|j: int| 0 <= j < s.len() && s[j].0 == k;
            if j < s.len() - 1 {
                assert(s.drop_last()[j] == s[j]);
            }
        }
        assert forall|j: int| 0 <= j < s.len() - 1 implies s.drop_last()[j] == s[j] by {}
    }
}

pub proof fn lemma_assoc_map_at<V>(s: Seq<(Seq<char>, V)>, i: int)
    requires
        distinct_keys(s),
        0 <= i < s.len(),
    ensures
        assoc_map(s).contains_key(s[i].0),
        assoc_map(s)[s[i].0] == s[i].1,
    decreases s.len(),
{
    if i < s.len() - 1 {
        assert(s.drop_last()[i] == s[i]);
        lemma_assoc_map_at(s.drop_last(), i);
        assert(s.last().0 != s[i].0);
    }
}

pub proof fn lemma_assoc_map_update<V>(s: Seq<(Seq<char>, V)>, i: int, v: V)
    requires
        distinct_keys(s),
        0 <= i < s.len(),
    ensures
        distinct_keys(s.update(i, (s[i].0, v))),
        assoc_map(s.update(i, (s[i].0, v))) == assoc_map(s).insert(s[i].0, v),
    decreases s.len(),
{
    let t = s.update(i, (s[i].0, v));
    assert forall|a: int, b: int| 0 <= a < b < t.len() implies t[a].0 != t[b].0 by {
        assert(t[a].0 == s[a].0 && t[b].0 == s[b].0);
    }
    if i == s.len() - 1 {
        assert(t.drop_last() =~= s.drop_last());
        assert(assoc_map(t) == assoc_map(s.drop_last()).insert(s[i].0, v));
        assert(assoc_map(s).insert(s[i].0, v) == assoc_map(s.drop_last()).insert(s[i].0, s[i].1).insert(s[i].0, v));
        assert(assoc_map(s.drop_last()).insert(s[i].0, s[i].1).insert(s[i].0, v)
            =~= assoc_map(s.drop_last()).insert(s[i].0, v));
    } else {
        assert(t.drop_last() =~= s.drop_last().update(i, (s[i].0, v)));
        assert(s.drop_last()[i] == s[i]);
        lemma_assoc_map_update(s.drop_last(), i, v);
        assert(t.last() == s.last());
        assert(assoc_map(t) == assoc_map(s.drop_last()).insert(s[i].0, v).insert(s.last().0, s.last().1));
        assert(s.last().0 != s[i].0);
        assert(assoc_map(s.drop_last()).insert(s[i].0, v).insert(s.last().0, s.last().1)
            =~= assoc_map(s.drop_last()).insert(s.last().0, s.last().1).insert(s[i].0, v));
    }
}

pub proof fn lemma_assoc_map_remove<V>(s: Seq<(Seq<char>, V)>, i: int)
    requires
        distinct_keys(s),
        0 <= i < s.len(),
    ensures
        distinct_keys(s.remove(i)),
        assoc_map(s.remove(i)) == assoc_map(s).remove(s[i].0),
    decreases s.len(),
{
    let t = s.remove(i);
    assert forall|a: int, b: int| 0 <= a < b < t.len() implies t[a].0 != t[b].0 by {}
    if i == s.len() - 1 {
        assert(t =~= s.drop_last());
        lemma_assoc_map_domain(s.drop_last(), s[i].0);
        lemma_key_index(s.drop_last(), s[i].0);
        assert forall|j: int| 0 <= j < s.len() - 1 implies s.drop_last()[j].0 != s[i].0 by {
            assert(s.drop_last()[j] == s[j]);
        }
        assert(!assoc_map(s.drop_last()).contains_key(s[i].0));
        assert(assoc_map(s) == assoc_map(s.drop_last()).insert(s[i].0, s[i].1));
        assert(assoc_map(s).remove(s[i].0) =~= assoc_map(s.drop_last()));
    } else {
        assert(t.drop_last() =~= s.drop_last().remove(i));
        assert(s.drop_last()[i] == s[i]);
        lemma_assoc_map_remove(s.drop_last(), i);
        assert(t.last() == s.last());
        assert(assoc_map(t) == assoc_map(s.drop_last()).remove(s[i].0).insert(s.last().0, s.last().1));
        assert(s.last().0 != s[i].0);
        assert(assoc_map(s.drop_last()).remove(s[i].0).insert(s.last().0, s.last().1)
            =~= assoc_map(s.drop_last()).insert(s.last().0, s.last().1).remove(s[i].0));
    }
}

pub proof fn lemma_assoc_map_push<V>(s: Seq<(Seq<char>, V)>, k: Seq<char>, v: V)
    requires
        distinct_keys(s),
        key_index(s, k) == -1,
    ensures
        distinct_keys(s.push((k, v))),
        assoc_map(s.push((k, v))) == assoc_map(s).insert(k, v),
{
    lemma_key_index(s, k);
    let t = s.push((k, v));
    assert forall|a: int, b: int| 0 <= a < b < t.len() implies t[a].0 != t[b].0 by {
        if b < s.len() {
            assert(t[a] == s[a] && t[b] == s[b]);
        } else {
            assert(t[a] == s[a] && t[b].0 == k);
        }
    }
    assert(t.drop_last() =~= s);
}

/// The sequence after storing `k = v`: the value replaced in place when the
/// key is present, a new pair appended otherwise.
pub open spec fn upsert<V>(s: Seq<(Seq<char>, V)>, k: Seq<char>, v: V) -> Seq<(Seq<char>, V)> {
    let i = key_index(s, k);
    if i >= 0 {
        s.update(i, (k, v))
    } else {
        s.push((k, v))
    }
}

/// The sequence after deleting `k`: the pair removed when present, the
/// sequence unchanged otherwise.
pub open spec fn remove_key<V>(s: Seq<(Seq<char>, V)>, k: Seq<char>) -> Seq<(Seq<char>, V)> {
    let i = key_index(s, k);
    if i >= 0 {
        s.remove(i)
    } else {
        s
    }
}

/// Concatenation abstracts to a right-preferring map union.
pub proof fn lemma_assoc_map_concat<V>(a: Seq<(Seq<char>, V)>, b: Seq<(Seq<char>, V)>)
    ensures
        assoc_map(a + b) == assoc_map(a).union_prefer_right(assoc_map(b)),
    decreases b.len(),
{
    if b.len() == 0 {
        assert(a + b =~= a);
        assert(assoc_map(a).union_prefer_right(assoc_map(b)) =~= assoc_map(a));
    } else {
        assert((a + b).drop_last() =~= a + b.drop_last());
        assert((a + b).last() == b.last());
        lemma_assoc_map_concat(a, b.drop_last());
        assert(assoc_map(a).union_prefer_right(assoc_map(b.drop_last())).insert(
            b.last().0,
            b.last().1,
        ) =~= assoc_map(a).union_prefer_right(assoc_map(b.drop_last()).insert(b.last().0, b.last().1)));
    }
}

/// After `upsert`, the key stands in the sequence exactly once, at
/// `key_index`, bound to the value just given; at the map level this is an
/// `insert`.
pub proof fn lemma_upsert_found<V>(s: Seq<(Seq<char>, V)>, k: Seq<char>, v: V)
    requires
        distinct_keys(s),
    ensures
        ({
            let t = upsert(s, k, v);
            &&& distinct_keys(t)
            &&& 0 <= key_index(t, k) < t.len()
            &&& t[key_index(t, k)] == (k, v)
            &&& forall|j: int| 0 <= j < t.len() && j != key_index(t, k) ==> t[j].0 != k
            &&& assoc_map(t) == assoc_map(s).insert(k, v)
        }),
{
    let i = key_index(s, k);
    lemma_key_index(s, k);
    let t = upsert(s, k, v);
    if i >= 0 {
        lemma_assoc_map_update(s, i, v);
        assert forall|j: int| 0 <= j < i implies t[j].0 != k by {
            assert(t[j].0 == s[j].0);
        }
        lemma_key_index_is(t, k, i);
    } else {
        lemma_assoc_map_push(s, k, v);
        assert forall|j: int| 0 <= j < s.len() implies t[j].0 != k by {
            assert(t[j].0 == s[j].0);
        }
        lemma_key_index_is(t, k, s.len() as int);
    }
    assert forall|j: int| 0 <= j < t.len() && j != key_index(t, k) implies t[j].0 != k by {
        let ki = key_index(t, k);
        if j < ki {
            assert(t[j].0 != t[ki].0);
        } else {
            assert(t[ki].0 != t[j].0);
        }
    }
}

/// After `remove_key`, the key is gone; at the map level this is a `remove`.
pub proof fn lemma_remove_key<V>(s: Seq<(Seq<char>, V)>, k: Seq<char>)
    requires
        distinct_keys(s),
    ensures
        ({
            let t = remove_key(s, k);
            &&& distinct_keys(t)
            &&& forall|j: int| 0 <= j < t.len() ==> t[j].0 != k
            &&& assoc_map(t) == assoc_map(s).remove(k)
        }),
{
    let i = key_index(s, k);
    lemma_key_index(s, k);
    let t = remove_key(s, k);
    if i >= 0 {
        lemma_assoc_map_remove(s, i);
        assert forall|j: int| 0 <= j < t.len() implies t[j].0 != k by {
            if j < i {
                assert(t[j] == s[j]);
                assert(s[j].0 != k);
            } else {
                assert(t[j] == s[j + 1]);
                assert(s[i].0 == k);
                assert(s[j + 1].0 != s[i].0);
            }
        }
    } else {
        lemma_assoc_map_domain(s, k);
        assert(assoc_map(s).remove(k) =~= assoc_map(s));
    }
}

} // verus!
