//! Key/value association sequences.
//!
//! The ledger's account table and each account's balance table are stored as
//! vectors of key/value pairs whose keys are pairwise distinct. This module
//! gives such sequences their mathematical meaning — a finite map — and
//! proves how the map changes under the vector operations the containers use
//! (update in place, push, remove).

use vstd::prelude::*;

verus! {

/// No two entries of the sequence share a key.
pub open spec fn keys_unique<V>(s: Seq<(u32, V)>) -> bool {
    forall|i: int, j: int|
        0 <= i < s.len() && 0 <= j < s.len() && i != j ==> (#[trigger] s[i]).0 != (
        #[trigger] s[j]).0
}

/// The map an association sequence stands for; a later entry wins over an
/// earlier one with the same key (with `keys_unique` the case never arises).
pub open spec fn assoc_map<V>(s: Seq<(u32, V)>) -> Map<u32, V>
    decreases s.len(),
{
    if s.len() == 0 {
        Map::empty()
    } else {
        assoc_map(s.drop_last()).insert(s.last().0, s.last().1)
    }
}

/// Dropping the last entry keeps the keys pairwise distinct.
pub proof fn lemma_drop_last_unique<V>(s: Seq<(u32, V)>)
    requires
        keys_unique(s),
        s.len() > 0,
    ensures
        keys_unique(s.drop_last()),
{
    assert forall|i: int, j: int|
        0 <= i < s.drop_last().len() && 0 <= j < s.drop_last().len() && i != j implies (
    #[trigger] s.drop_last()[i]).0 != (#[trigger] s.drop_last()[j]).0 by {
        assert(s.drop_last()[i] == s[i]);
        assert(s.drop_last()[j] == s[j]);
    }
}

/// A key is in the map exactly when some entry carries it.
pub proof fn lemma_assoc_contains<V>(s: Seq<(u32, V)>, k: u32)
    ensures
        assoc_map(s).contains_key(k) <==> exists|i: int|
            0 <= i < s.len() && (#[trigger] s[i]).0 == k,
    decreases s.len(),
{
    if s.len() > 0 {
        lemma_assoc_contains(s.drop_last(), k);
        if s.last().0 == k {
            assert((s[s.len() - 1]).0 == k);
        } else {
            if assoc_map(s).contains_key(k) {
                let i = choose|i: int|
                    0 <= i < s.drop_last().len() && (#[trigger] s.drop_last()[i]).0 == k;
                assert((s[i]).0 == k);
            }
            if exists|i: int| 0 <= i < s.len() && (#[trigger] s[i]).0 == k {
                let i = choose|i: int| 0 <= i < s.len() && (#[trigger] s[i]).0 == k;
                assert(i < s.len() - 1);
                assert((s.drop_last()[i]).0 == k);
            }
        }
    }
}

/// With distinct keys, the entry at index `i` is what the map holds for its key.
pub proof fn lemma_assoc_index<V>(s: Seq<(u32, V)>, i: int)
    requires
        keys_unique(s),
        0 <= i < s.len(),
    ensures
        assoc_map(s).contains_key((s[i]).0),
        assoc_map(s)[(s[i]).0] == (s[i]).1,
    decreases s.len(),
{
    if i == s.len() - 1 {
        assert(s.last() == s[i]);
    } else {
        lemma_drop_last_unique(s);
        assert(s.drop_last()[i] == s[i]);
        lemma_assoc_index(s.drop_last(), i);
        assert((s.last()).0 != (s[i]).0);
    }
}

/// Replacing the value at index `i` (keeping its key) inserts into the map.
pub proof fn lemma_assoc_update<V>(s: Seq<(u32, V)>, i: int, v: V)
    requires
        keys_unique(s),
        0 <= i < s.len(),
    ensures
        keys_unique(s.update(i, ((s[i]).0, v))),
        assoc_map(s.update(i, ((s[i]).0, v))) == assoc_map(s).insert((s[i]).0, v),
    decreases s.len(),
{
    let k = (s[i]).0;
    let t = s.update(i, (k, v));
    assert forall|a: int, b: int|
        0 <= a < t.len() && 0 <= b < t.len() && a != b implies (#[trigger] t[a]).0 != (
    #[trigger] t[b]).0 by {
        assert((t[a]).0 == (s[a]).0);
        assert((t[b]).0 == (s[b]).0);
    }
    if i == s.len() - 1 {
        assert(t.drop_last() =~= s.drop_last());
        assert(t.last() == (k, v));
        assert(assoc_map(t) =~= assoc_map(s).insert(k, v));
    } else {
        lemma_drop_last_unique(s);
        assert(s.drop_last()[i] == s[i]);
        lemma_assoc_update(s.drop_last(), i, v);
        assert(t.drop_last() =~= s.drop_last().update(i, (k, v)));
        assert(t.last() == s.last());
        assert((s.last()).0 != k);
        assert(assoc_map(t) =~= assoc_map(s).insert(k, v));
    }
}

/// Appending an entry with a fresh key inserts into the map and keeps the
/// keys pairwise distinct.
pub proof fn lemma_assoc_push<V>(s: Seq<(u32, V)>, k: u32, v: V)
    requires
        keys_unique(s),
        forall|i: int| 0 <= i < s.len() ==> (#[trigger] s[i]).0 != k,
    ensures
        keys_unique(s.push((k, v))),
        assoc_map(s.push((k, v))) == assoc_map(s).insert(k, v),
{
    let t = s.push((k, v));
    assert forall|a: int, b: int|
        0 <= a < t.len() && 0 <= b < t.len() && a != b implies (#[trigger] t[a]).0 != (
    #[trigger] t[b]).0 by {
        if a < s.len() && b < s.len() {
            assert((t[a]).0 == (s[a]).0);
            assert((t[b]).0 == (s[b]).0);
        } else if a < s.len() {
            assert((t[a]).0 == (s[a]).0);
            assert(t[b] == (k, v));
        } else {
            assert(t[a] == (k, v));
            assert((t[b]).0 == (s[b]).0);
        }
    }
    assert(t.drop_last() =~= s);
    assert(t.last() == (k, v));
}

/// Removing the entry at index `i` removes its key from the map and keeps the
/// remaining keys pairwise distinct.
pub proof fn lemma_assoc_remove<V>(s: Seq<(u32, V)>, i: int)
    requires
        keys_unique(s),
        0 <= i < s.len(),
    ensures
        keys_unique(s.remove(i)),
        assoc_map(s.remove(i)) == assoc_map(s).remove((s[i]).0),
    decreases s.len(),
{
    let k = (s[i]).0;
    let t = s.remove(i);
    s.remove_ensures(i);
    assert forall|a: int, b: int|
        0 <= a < t.len() && 0 <= b < t.len() && a != b implies (#[trigger] t[a]).0 != (
    #[trigger] t[b]).0 by {
        let a0 = if a < i { a } else { a + 1 };
        let b0 = if b < i { b } else { b + 1 };
        assert(t[a] == s[a0]);
        assert(t[b] == s[b0]);
    }
    if i == s.len() - 1 {
        assert(t =~= s.drop_last());
        lemma_drop_last_unique(s);
        lemma_assoc_contains(s.drop_last(), k);
        if assoc_map(s.drop_last()).contains_key(k) {
            let j = choose|j: int|
                0 <= j < s.drop_last().len() && (#[trigger] s.drop_last()[j]).0 == k;
            assert((s[j]).0 == (s[i]).0);
            assert(false);
        }
        assert(assoc_map(t) =~= assoc_map(s).remove(k));
    } else {
        lemma_drop_last_unique(s);
        assert(s.drop_last()[i] == s[i]);
        lemma_assoc_remove(s.drop_last(), i);
        assert(t.drop_last() =~= s.drop_last().remove(i));
        assert(t.last() == s.last());
        assert((s.last()).0 != k);
        assert(assoc_map(t) =~= assoc_map(s).remove(k));
    }
}

/// Looks a key up in an association vector of amounts; an absent key means a
/// zero amount.
pub fn amount_vec_get(v: &Vec<(u32, u128)>, k: u32) -> (r: u128)
    requires
        keys_unique(v@),
    ensures
        r == if assoc_map(v@).contains_key(k) {
            assoc_map(v@)[k]
        } else {
            0u128
        },
{
    let mut i: usize = 0;
    while i < v.len()
        invariant
            0 <= i <= v@.len(),
            keys_unique(v@),
            forall|j: int| 0 <= j < i ==> (#[trigger] v@[j]).0 != k,
        decreases v@.len() - i,
    {
        let p = v[i];
        if p.0 == k {
            proof {
                lemma_assoc_index(v@, i as int);
            }
            return p.1;
        }
        i += 1;
    }
    proof {
        lemma_assoc_contains(v@, k);
    }
    0
}

/// Sets the amount for a key in an association vector, replacing the entry in
/// place when the key is present and appending it otherwise.
pub fn amount_vec_set(v: &mut Vec<(u32, u128)>, k: u32, x: u128)
    requires
        keys_unique(old(v)@),
    ensures
        keys_unique(final(v)@),
        assoc_map(final(v)@) == assoc_map(old(v)@).insert(k, x),
{
    let mut i: usize = 0;
    while i < v.len()
        invariant
            0 <= i <= v@.len(),
            keys_unique(v@),
            v@ == old(v)@,
            forall|j: int| 0 <= j < i ==> (#[trigger] v@[j]).0 != k,
        decreases v@.len() - i,
    {
        if v[i].0 == k {
            proof {
                lemma_assoc_update(v@, i as int, x);
            }
            v[i] = (k, x);
            return ;
        }
        i += 1;
    }
    proof {
        lemma_assoc_push(v@, k, x);
    }
    v.push((k, x));
}

} // verus!
