//! Sequences of (name, value) entries used as small maps keyed by name.

use vstd::prelude::*;

verus! {

/// Index of the first entry of `t` for `key`, or `t.len()` if there is none.
pub open spec fn index_of_key<V>(t: Seq<(Seq<char>, V)>, key: Seq<char>) -> int
    decreases t.len(),
{
    if t.len() == 0 {
        0
    } else if t[0].0 == key {
        0
    } else {
        1 + index_of_key(t.drop_first(), key)
    }
}

/// The value of the first entry for `key`.
pub open spec fn lookup<V>(t: Seq<(Seq<char>, V)>, key: Seq<char>) -> Option<V> {
    let i = index_of_key(t, key);
    if 0 <= i < t.len() {
        Some(t[i].1)
    } else {
        None
    }
}

/// No key has two entries.
pub open spec fn distinct_keys<V>(t: Seq<(Seq<char>, V)>) -> bool {
    forall|i: int, j: int| 0 <= i < j < t.len() ==> t[i].0 != t[j].0
}

/// `t` with `key` mapped to `value`: its entry is replaced, or a new one appended.
pub open spec fn insert_key<V>(t: Seq<(Seq<char>, V)>, key: Seq<char>, value: V) -> Seq<(Seq<char>, V)> {
    let i = index_of_key(t, key);
    if 0 <= i < t.len() {
        t.update(i, (key, value))
    } else {
        t.push((key, value))
    }
}

pub proof fn lemma_index_of_key<V>(t: Seq<(Seq<char>, V)>, key: Seq<char>)
    ensures
        0 <= index_of_key(t, key) <= t.len(),
        index_of_key(t, key) < t.len() ==> t[index_of_key(t, key)].0 == key,
        forall|k: int| 0 <= k < index_of_key(t, key) ==> t[k].0 != key,
    decreases t.len(),
{
    if t.len() > 0 && t[0].0 != key {
        lemma_index_of_key(t.drop_first(), key);
        assert forall|k: int| 0 <= k < index_of_key(t, key) implies t[k].0 != key by {
            if k > 0 {
                assert(t[k] == t.drop_first()[k - 1]);
            }
        }
    }
}

pub proof fn lemma_index_of_key_at<V>(t: Seq<(Seq<char>, V)>, key: Seq<char>, i: int)
    requires
        0 <= i <= t.len(),
        forall|k: int| 0 <= k < i ==> t[k].0 != key,
        i == t.len() || t[i].0 == key,
    ensures
        index_of_key(t, key) == i,
{
    lemma_index_of_key(t, key);
}

/// Mapping `key` to `value` changes what `key` is mapped to and nothing else, and
/// gives no key a second entry.
pub proof fn lemma_insert_key<V>(t: Seq<(Seq<char>, V)>, key: Seq<char>, value: V)
    requires
        distinct_keys(t),
    ensures
        distinct_keys(insert_key(t, key, value)),
        forall|n: Seq<char>| #[trigger]
            lookup(insert_key(t, key, value), n) == if n == key {
                Some(value)
            } else {
                lookup(t, n)
            },
{
    lemma_index_of_key(t, key);
    let i = index_of_key(t, key);
    let b = insert_key(t, key, value);
    assert forall|n: Seq<char>| #[trigger]
        lookup(b, n) == if n == key {
            Some(value)
        } else {
            lookup(t, n)
        } by {
        lemma_index_of_key(t, n);
        let j = index_of_key(t, n);
        if n == key {
            lemma_index_of_key_at(b, n, i);
        } else if j < t.len() {
            lemma_index_of_key_at(b, n, j);
        } else {
            assert forall|k: int| 0 <= k < b.len() implies b[k].0 != n by {
                if k < t.len() {
                    assert(t[k].0 != n);
                }
            }
            lemma_index_of_key_at(b, n, b.len() as int);
        }
    }
}

} // verus!
