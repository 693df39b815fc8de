//! Sequences of key-value pairs read as finite maps.

use vstd::prelude::*;

verus! {

/// Whether some entry has the given key.
pub open spec fn has_key<K, V>(entries: Seq<(K, V)>, key: K) -> bool {
    exists|i: int| 0 <= i < entries.len() && (#[trigger] entries[i]).0 == key
}

/// Whether no key occurs in two entries.
pub open spec fn distinct_keys<K, V>(entries: Seq<(K, V)>) -> bool {
    forall|i: int, j: int|
        0 <= i < j < entries.len() ==> (#[trigger] entries[i]).0 != (#[trigger] entries[j]).0
}

/// The position of the entry with the given key, if there is one.
pub open spec fn position<K, V>(entries: Seq<(K, V)>, key: K) -> Option<int> {
    if has_key(entries, key) {
        Some(choose|i: int| 0 <= i < entries.len() && (#[trigger] entries[i]).0 == key)
    } else {
        None
    }
}

/// The value under the given key, if there is one.
pub open spec fn lookup<K, V>(entries: Seq<(K, V)>, key: K) -> Option<V> {
    match position(entries, key) {
        Some(i) => Some(entries[i].1),
        None => None,
    }
}

/// The entries after the key has been set to the value: the entry of that key
/// replaced where it stands, or a new entry at the end.
pub open spec fn put<K, V>(entries: Seq<(K, V)>, key: K, value: V) -> Seq<(K, V)> {
    match position(entries, key) {
        Some(i) => entries.update(i, (key, value)),
        None => entries.push((key, value)),
    }
}

/// Whether two sequences of entries hold the same under every key: they are
/// the same map, whatever the order of their entries.
pub open spec fn same_map<K, V>(a: Seq<(K, V)>, b: Seq<(K, V)>) -> bool {
    forall|key: K| #[trigger] lookup(a, key) == lookup(b, key)
}

/// Whether every entry of `a` is found in `b`, under its key and with its
/// value.
pub open spec fn within<K, V>(a: Seq<(K, V)>, b: Seq<(K, V)>) -> bool {
    forall|i: int| 0 <= i < a.len() ==> lookup(b, (#[trigger] a[i]).0) == Some(a[i].1)
}

/// Entries with distinct keys are the same map exactly if each of the two
/// holds every entry of the other.
pub proof fn lemma_same_map<K, V>(a: Seq<(K, V)>, b: Seq<(K, V)>)
    requires
        distinct_keys(a),
        distinct_keys(b),
    ensures
        same_map(a, b) <==> within(a, b) && within(b, a),
{
    if within(a, b) && within(b, a) {
        assert forall|key: K| #[trigger] lookup(a, key) == lookup(b, key) by {
            if has_key(a, key) {
                let i = position(a, key)->0;
                lemma_position_of_entry(a, i);
            } else if has_key(b, key) {
                let j = position(b, key)->0;
                lemma_position_of_entry(b, j);
                assert(lookup(a, b[j].0) == Some(b[j].1));
            }
        }
    }
    if same_map(a, b) {
        assert forall|i: int| 0 <= i < a.len() implies lookup(b, (#[trigger] a[i]).0) == Some(
            a[i].1,
        ) by {
            lemma_position_of_entry(a, i);
            assert(lookup(a, a[i].0) == lookup(b, a[i].0));
        }
        assert forall|j: int| 0 <= j < b.len() implies lookup(a, (#[trigger] b[j]).0) == Some(
            b[j].1,
        ) by {
            lemma_position_of_entry(b, j);
            assert(lookup(a, b[j].0) == lookup(b, b[j].0));
        }
    }
}

/// In entries with distinct keys, the entry at a position is the one found
/// under its key.
pub proof fn lemma_position_of_entry<K, V>(entries: Seq<(K, V)>, i: int)
    requires
        distinct_keys(entries),
        0 <= i < entries.len(),
    ensures
        has_key(entries, entries[i].0),
        position(entries, entries[i].0) == Some(i),
        lookup(entries, entries[i].0) == Some(entries[i].1),
{
    let key = entries[i].0;
    assert(has_key(entries, key));
    let j = choose|j: int| 0 <= j < entries.len() && (#[trigger] entries[j]).0 == key;
    if j < i {
        assert(entries[j].0 != entries[i].0);
    } else if i < j {
        assert(entries[i].0 != entries[j].0);
    }
}

/// Setting a key keeps the keys distinct, makes the value the one found under
/// that key, and leaves what is found under every other key as it was.
pub proof fn lemma_put<K, V>(entries: Seq<(K, V)>, key: K, value: V)
    requires
        distinct_keys(entries),
    ensures
        distinct_keys(put(entries, key, value)),
        lookup(put(entries, key, value), key) == Some(value),
        forall|other: K|
            other != key ==> #[trigger] lookup(put(entries, key, value), other) == lookup(
                entries,
                other,
            ),
        forall|other: K|
            #[trigger] has_key(put(entries, key, value), other) == (other == key || has_key(
                entries,
                other,
            )),
{
    let after = put(entries, key, value);
    let at: int = match position(entries, key) {
        Some(i) => i,
        None => entries.len() as int,
    };
    assert(0 <= at < after.len() && after[at] == (key, value));
    assert forall|i: int| 0 <= i < after.len() && i != at implies #[trigger] after[i]
        == entries[i] && entries[i].0 != key by {
        if has_key(entries, key) {
            lemma_position_of_entry(entries, i);
        }
    }
    assert(distinct_keys(after)) by {
        assert forall|i: int, j: int| 0 <= i < j < after.len() implies (#[trigger] after[i]).0 != (
        #[trigger] after[j]).0 by {
            if i != at && j != at {
                assert(entries[i].0 != entries[j].0);
            }
        }
    }
    lemma_position_of_entry(after, at);
    assert forall|other: K| other != key implies #[trigger] lookup(after, other) == lookup(
        entries,
        other,
    ) by {
        lemma_put_other(entries, key, value, other);
    }
    assert forall|other: K| #[trigger]
        has_key(after, other) == (other == key || has_key(entries, other)) by {
        if other != key {
            lemma_put_other(entries, key, value, other);
        }
    }
}

/// Setting a key leaves what is found under another key as it was.
proof fn lemma_put_other<K, V>(entries: Seq<(K, V)>, key: K, value: V, other: K)
    requires
        distinct_keys(entries),
        other != key,
    ensures
        has_key(put(entries, key, value), other) == has_key(entries, other),
        lookup(put(entries, key, value), other) == lookup(entries, other),
{
    let after = put(entries, key, value);
    let at: int = match position(entries, key) {
        Some(i) => i,
        None => entries.len() as int,
    };
    assert forall|i: int| 0 <= i < after.len() && i != at implies #[trigger] after[i]
        == entries[i] by {}
    assert(after[at].0 == key);
    if has_key(entries, other) {
        let i = position(entries, other)->0;
        assert(i != at);
        assert(after[i] == entries[i]);
        assert(has_key(after, other));
        let j = position(after, other)->0;
        assert(j != at);
        assert(after[j] == entries[j]);
        lemma_position_of_entry(entries, j);
    } else if has_key(after, other) {
        let i = position(after, other)->0;
        assert(i != at);
        assert(after[i] == entries[i]);
        assert(entries[i].0 == other);
    }
}

} // verus!
