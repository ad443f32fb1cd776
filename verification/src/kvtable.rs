//! Association-list reasoning: a `Vec` of key/value pairs with distinct keys
//! is abstracted to a `Map`, and the lemmas here connect the sequence edits
//! the executable code performs (push, remove, update) to map operations.

use vstd::prelude::*;

verus! {

/// The map described by a sequence of key/value pairs; later pairs win.
pub open spec fn kv_map<A, B>(s: Seq<(A, B)>) -> Map<A, B>
    decreases s.len(),
{
    if s.len() == 0 {
        Map::empty()
    } else {
        kv_map(s.drop_last()).insert(s.last().0, s.last().1)
    }
}

/// All keys of the pair sequence are distinct.
pub open spec fn keys_unique<A, B>(s: Seq<(A, B)>) -> bool {
    forall|i: int, j: int| 0 <= i < j < s.len() ==> s[i].0 != s[j].0
}

/// A key is in the map exactly when some pair carries it.
pub proof fn lemma_kv_map_contains<A, B>(s: Seq<(A, B)>, k: A)
    ensures
        kv_map(s).contains_key(k) <==> exists|i: int| 0 <= i < s.len() && s[i].0 == k,
    decreases s.len(),
{
    if s.len() > 0 {
        lemma_kv_map_contains(s.drop_last(), k);
        if kv_map(s).contains_key(k) {
            if s.last().0 == k {
                assert(s[s.len() - 1].0 == k);
            } else {
                let i = choose|i: int| 0 <= i < s.drop_last().len() && s.drop_last()[i].0 == k;
                assert(s[i].0 == k);
            }
        }
        if exists|i: int| 0 <= i < s.len() && s[i].0 == k {
            let i = choose|i: int| 0 <= i < s.len() && s[i].0 == k;
            if i < s.len() - 1 {
                assert(s.drop_last()[i].0 == k);
            }
        }
    }
}

/// With distinct keys, the pair at any index gives the map's value at its key.
pub proof fn lemma_kv_map_index<A, B>(s: Seq<(A, B)>, i: int)
    requires
        keys_unique(s),
        0 <= i < s.len(),
    ensures
        kv_map(s).contains_key(s[i].0),
        kv_map(s)[s[i].0] == s[i].1,
    decreases s.len(),
{
    if i < s.len() - 1 {
        assert(keys_unique(s.drop_last()));
        lemma_kv_map_index(s.drop_last(), i);
        assert(s.last().0 != s[i].0);
    }
}

/// Appending a pair with a fresh key inserts it into the map.
pub proof fn lemma_kv_map_push<A, B>(s: Seq<(A, B)>, k: A, v: B)
    requires
        forall|i: int| 0 <= i < s.len() ==> s[i].0 != k,
    ensures
        kv_map(s.push((k, v))) == kv_map(s).insert(k, v),
        keys_unique(s) ==> keys_unique(s.push((k, v))),
{
    assert(s.push((k, v)).drop_last() =~= s);
    assert(s.push((k, v)).last() == (k, v));
}

/// Removing the pair at an index removes its key from the map.
pub proof fn lemma_kv_map_remove<A, B>(s: Seq<(A, B)>, i: int)
    requires
        keys_unique(s),
        0 <= i < s.len(),
    ensures
        kv_map(s.remove(i)) == kv_map(s).remove(s[i].0),
        keys_unique(s.remove(i)),
    decreases s.len(),
{
    let k = s[i].0;
    assert(keys_unique(s.remove(i)));
    if i == s.len() - 1 {
        assert(s.remove(i) =~= s.drop_last());
        lemma_kv_map_contains(s.drop_last(), k);
        assert(!kv_map(s.drop_last()).contains_key(k));
        assert(kv_map(s.drop_last()).insert(k, s[i].1).remove(k) =~= kv_map(s.drop_last()));
    } else {
        let dl = s.drop_last();
        assert(keys_unique(dl));
        lemma_kv_map_remove(dl, i);
        assert(s.remove(i).drop_last() =~= dl.remove(i));
        assert(s.remove(i).last() == s.last());
        assert(s.last().0 != k);
        assert(kv_map(dl).insert(s.last().0, s.last().1).remove(k) =~= kv_map(dl).remove(k).insert(
            s.last().0,
            s.last().1,
        ));
    }
}

/// Replacing the value at an index, keeping its key, updates the map there.
pub proof fn lemma_kv_map_update<A, B>(s: Seq<(A, B)>, i: int, v: B)
    requires
        keys_unique(s),
        0 <= i < s.len(),
    ensures
        kv_map(s.update(i, (s[i].0, v))) == kv_map(s).insert(s[i].0, v),
        keys_unique(s.update(i, (s[i].0, v))),
    decreases s.len(),
{
    let k = s[i].0;
    let t = s.update(i, (k, v));
    assert(keys_unique(t));
    if i == s.len() - 1 {
        assert(t.drop_last() =~= s.drop_last());
        assert(t.last() == (k, v));
        assert(kv_map(s.drop_last()).insert(k, v) =~= kv_map(s.drop_last()).insert(
            k,
            s[i].1,
        ).insert(k, v));
    } else {
        let dl = s.drop_last();
        assert(keys_unique(dl));
        lemma_kv_map_update(dl, i, v);
        assert(t.drop_last() =~= dl.update(i, (k, v)));
        assert(t.last() == s.last());
        assert(s.last().0 != k);
        assert(kv_map(dl).insert(s.last().0, s.last().1).insert(k, v) =~= kv_map(dl).insert(
            k,
            v,
        ).insert(s.last().0, s.last().1));
    }
}

} // verus!
