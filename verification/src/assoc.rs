//! Association lists keyed by text: a sequence of keys without repetition
//! beside a sequence of values, read as a map.

use vstd::prelude::*;

verus! {

/// The map that sends `keys[i]` to `vals[i]`.
pub open spec fn assoc<V>(keys: Seq<Seq<char>>, vals: Seq<V>) -> Map<Seq<char>, V> {
    Map::new(|k: Seq<char>| keys.contains(k), |k: Seq<char>| vals[keys.index_of(k)])
}

/// Each key of a list without repetition is mapped to the value beside it.
pub proof fn lemma_assoc_entry<V>(keys: Seq<Seq<char>>, vals: Seq<V>, i: int)
    requires
        keys.no_duplicates(),
        0 <= i < keys.len(),
    ensures
        assoc(keys, vals).dom().contains(keys[i]),
        assoc(keys, vals)[keys[i]] == vals[i],
        keys.index_of(keys[i]) == i,
{
    assert(keys.contains(keys[i]));
}

/// Appending a new key inserts it into the map.
pub proof fn lemma_assoc_push<V>(keys: Seq<Seq<char>>, vals: Seq<V>, k: Seq<char>, v: V)
    requires
        keys.no_duplicates(),
        keys.len() == vals.len(),
        !keys.contains(k),
    ensures
        keys.push(k).no_duplicates(),
        assoc(keys.push(k), vals.push(v)) == assoc(keys, vals).insert(k, v),
{
    let keys2 = keys.push(k);
    let vals2 = vals.push(v);
    assert forall|i: int, j: int|
        0 <= i < keys2.len() && 0 <= j < keys2.len() && i != j implies keys2[i] != keys2[j] by {
        if i < keys.len() {
            assert(keys.contains(keys[i]));
        }
        if j < keys.len() {
            assert(keys.contains(keys[j]));
        }
    }
    let a = assoc(keys2, vals2);
    let b = assoc(keys, vals).insert(k, v);
    assert forall|q: Seq<char>| a.dom().contains(q) <==> b.dom().contains(q) by {
        if keys2.contains(q) {
            let i = keys2.index_of(q);
            if i < keys.len() {
                assert(keys[i] == q);
            }
        }
        if keys.contains(q) {
            let i = keys.index_of(q);
            assert(keys2[i] == q);
        }
        if q == k {
            assert(keys2[keys.len() as int] == q);
        }
    }
    assert forall|q: Seq<char>| a.dom().contains(q) implies a[q] == b[q] by {
        let i = keys2.index_of(q);
        lemma_assoc_entry(keys2, vals2, i);
        if i < keys.len() {
            assert(keys[i] == q);
            lemma_assoc_entry(keys, vals, i);
        }
    }
    assert(a =~= b);
}

/// Replacing the value beside `keys[i]` overwrites that key in the map.
pub proof fn lemma_assoc_update<V>(keys: Seq<Seq<char>>, vals: Seq<V>, i: int, v: V)
    requires
        keys.no_duplicates(),
        keys.len() == vals.len(),
        0 <= i < keys.len(),
    ensures
        assoc(keys, vals.update(i, v)) == assoc(keys, vals).insert(keys[i], v),
{
    let a = assoc(keys, vals.update(i, v));
    let b = assoc(keys, vals).insert(keys[i], v);
    assert forall|q: Seq<char>| a.dom().contains(q) <==> b.dom().contains(q) by {
        if q == keys[i] {
            assert(keys.contains(q));
        }
    }
    assert forall|q: Seq<char>| a.dom().contains(q) implies a[q] == b[q] by {
        let j = keys.index_of(q);
        lemma_assoc_entry(keys, vals.update(i, v), j);
        lemma_assoc_entry(keys, vals, j);
    }
    assert(a =~= b);
}

/// Dropping position `i` removes `keys[i]` from the map.
pub proof fn lemma_assoc_remove<V>(keys: Seq<Seq<char>>, vals: Seq<V>, i: int)
    requires
        keys.no_duplicates(),
        keys.len() == vals.len(),
        0 <= i < keys.len(),
    ensures
        keys.remove(i).no_duplicates(),
        assoc(keys.remove(i), vals.remove(i)) == assoc(keys, vals).remove(keys[i]),
{
    let keys2 = keys.remove(i);
    let vals2 = vals.remove(i);
    assert forall|x: int| 0 <= x < keys2.len() implies keys2[x] == keys[if x < i {
        x
    } else {
        x + 1
    }] && vals2[x] == vals[if x < i {
        x
    } else {
        x + 1
    }] by {}
    assert forall|x: int, y: int|
        0 <= x < keys2.len() && 0 <= y < keys2.len() && x != y implies keys2[x] != keys2[y] by {
        let x0 = if x < i { x } else { x + 1 };
        let y0 = if y < i { y } else { y + 1 };
        assert(keys2[x] == keys[x0]);
        assert(keys2[y] == keys[y0]);
    }
    let a = assoc(keys2, vals2);
    let b = assoc(keys, vals).remove(keys[i]);
    assert forall|q: Seq<char>| a.dom().contains(q) <==> b.dom().contains(q) by {
        if keys2.contains(q) {
            let k = keys2.index_of(q);
            let k0 = if k < i { k } else { k + 1 };
            assert(keys2[k] == keys[k0]);
            assert(keys.contains(q));
        }
        if keys.contains(q) && q != keys[i] {
            let k = keys.index_of(q);
            let k1 = if k < i { k } else { k - 1 };
            assert(keys2[k1] == keys[k]);
            assert(keys2.contains(q));
        }
    }
    assert forall|q: Seq<char>| a.dom().contains(q) implies a[q] == b[q] by {
        let k = keys2.index_of(q);
        let k0 = if k < i { k } else { k + 1 };
        assert(keys2[k] == keys[k0]);
        lemma_assoc_entry(keys2, vals2, k);
        lemma_assoc_entry(keys, vals, k0);
    }
    assert(a =~= b);
}

/// Appending a value not yet present to a sequence adds it to the set of
/// its values and keeps it free of repetition.
pub proof fn lemma_push_to_set(s: Seq<Seq<char>>, x: Seq<char>)
    requires
        s.no_duplicates(),
        !s.contains(x),
    ensures
        s.push(x).no_duplicates(),
        s.push(x).to_set() == s.to_set().insert(x),
{
    assert forall|q: Seq<char>| s.push(x).contains(q) <==> s.contains(q) || q == x by {
        if s.contains(q) {
            let k = s.index_of(q);
            assert(s.push(x)[k] == q);
        }
        if q == x {
            assert(s.push(x)[s.len() as int] == q);
        }
    }
    assert(s.push(x).to_set() =~= s.to_set().insert(x));
}

/// Dropping position `i` of a sequence without repetition removes `s[i]`
/// from the set of its values.
pub proof fn lemma_remove_to_set(s: Seq<Seq<char>>, i: int)
    requires
        s.no_duplicates(),
        0 <= i < s.len(),
    ensures
        s.remove(i).no_duplicates(),
        s.remove(i).to_set() == s.to_set().remove(s[i]),
{
    let t = s.remove(i);
    assert forall|x: int| 0 <= x < t.len() implies t[x] == s[if x < i {
        x
    } else {
        x + 1
    }] by {}
    assert forall|q: Seq<char>| t.contains(q) <==> s.contains(q) && q != s[i] by {
        if t.contains(q) {
            let k = t.index_of(q);
            let k0 = if k < i { k } else { k + 1 };
            assert(s[k0] == q);
        }
        if s.contains(q) && q != s[i] {
            let k = s.index_of(q);
            let k1 = if k < i { k } else { k - 1 };
            assert(t[k1] == q);
        }
    }
    assert(t.to_set() =~= s.to_set().remove(s[i]));
}

} // verus!
