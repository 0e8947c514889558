//! Values kept under textual keys, in the order in which the keys came.

use vstd::prelude::*;

verus! {

/// The first place at which `key` stands among `keys`, or their number where
/// it stands nowhere.
pub open spec fn position(keys: Seq<Seq<char>>, key: Seq<char>) -> int
    decreases keys.len(),
{
    if keys.len() == 0 {
        0
    } else if keys[0] == key {
        0
    } else {
        1 + position(keys.drop_first(), key)
    }
}

/// The keys of a list of entries.
pub open spec fn keys_of<V>(entries: Seq<(Seq<char>, V)>) -> Seq<Seq<char>> {
    entries.map_values(|e: (Seq<char>, V)| e.0)
}

/// The place of `key` among the entries.
pub open spec fn slot<V>(entries: Seq<(Seq<char>, V)>, key: Seq<char>) -> int {
    position(keys_of(entries), key)
}

/// Whether `key` is among the entries.
pub open spec fn has_key<V>(entries: Seq<(Seq<char>, V)>, key: Seq<char>) -> bool {
    slot(entries, key) < entries.len()
}

/// The value under `key`.
pub open spec fn value_under<V>(entries: Seq<(Seq<char>, V)>, key: Seq<char>) -> Option<V> {
    if has_key(entries, key) {
        Some(entries[slot(entries, key)].1)
    } else {
        None
    }
}

/// The entries after `value` has been put under `key`: in the key's place
/// where the key is there already, at the end where it is new.
pub open spec fn put<V>(entries: Seq<(Seq<char>, V)>, key: Seq<char>, value: V) -> Seq<
    (Seq<char>, V),
> {
    if has_key(entries, key) {
        entries.update(slot(entries, key), (key, value))
    } else {
        entries.push((key, value))
    }
}

/// Whether no key stands twice among the entries.
pub open spec fn distinct_keys<V>(entries: Seq<(Seq<char>, V)>) -> bool {
    forall|i: int, j: int|
        0 <= i < j < entries.len() ==> (#[trigger] entries[i]).0 != (#[trigger] entries[j]).0
}

/// The keys of entries whose keys are strings.
pub open spec fn key_texts<V>(entries: Seq<(String, V)>) -> Seq<Seq<char>> {
    entries.map_values(|e: (String, V)| e.0@)
}

/// The place of a key is the first index at which it stands.
pub proof fn lemma_position(keys: Seq<Seq<char>>, key: Seq<char>)
    ensures
        0 <= position(keys, key) <= keys.len(),
        position(keys, key) < keys.len() ==> keys[position(keys, key)] == key,
        forall|i: int| 0 <= i < position(keys, key) ==> keys[i] != key,
    decreases keys.len(),
{
    if keys.len() > 0 && keys[0] != key {
        let rest = keys.drop_first();
        lemma_position(rest, key);
        assert forall|i: int| 0 <= i < position(keys, key) implies keys[i] != key by {
            if i > 0 {
                assert(rest[i - 1] == keys[i]);
            }
        }
    }
}

/// An index before which the key does not stand, and at which it stands or
/// the keys end, is the key's place.
pub proof fn lemma_position_is(keys: Seq<Seq<char>>, key: Seq<char>, p: int)
    requires
        0 <= p <= keys.len(),
        forall|i: int| 0 <= i < p ==> keys[i] != key,
        p < keys.len() ==> keys[p] == key,
    ensures
        position(keys, key) == p,
    decreases keys.len(),
{
    if keys.len() > 0 {
        if keys[0] == key {
            if p > 0 {
                assert(keys[0] != key);
            }
        } else {
            let rest = keys.drop_first();
            assert forall|i: int| 0 <= i < p - 1 implies rest[i] != key by {
                assert(rest[i] == keys[i + 1]);
            }
            lemma_position_is(rest, key, p - 1);
        }
    }
}

/// Putting a value under a key changes the keys only by adding a new key at
/// the end.
pub proof fn lemma_put_keys<V>(entries: Seq<(Seq<char>, V)>, key: Seq<char>, value: V)
    ensures
        keys_of(put(entries, key, value)) == if has_key(entries, key) {
            keys_of(entries)
        } else {
            keys_of(entries).push(key)
        },
{
    lemma_position(keys_of(entries), key);
    if has_key(entries, key) {
        assert(keys_of(put(entries, key, value)) =~= keys_of(entries));
    } else {
        assert(keys_of(put(entries, key, value)) =~= keys_of(entries).push(key));
    }
}

/// After a value has been put under a key, the key holds that value, and
/// every other key holds what it held before.
pub proof fn lemma_put_value<V>(
    entries: Seq<(Seq<char>, V)>,
    key: Seq<char>,
    value: V,
    other: Seq<char>,
)
    ensures
        value_under(put(entries, key, value), other) == if other == key {
            Some(value)
        } else {
            value_under(entries, other)
        },
{
    let keys = keys_of(entries);
    let after = put(entries, key, value);
    lemma_put_keys(entries, key, value);
    lemma_position(keys, key);
    lemma_position(keys, other);
    let p = position(keys, other);
    if !has_key(entries, key) {
        let grown = keys.push(key);
        if other == key {
            lemma_position_is(grown, other, keys.len() as int);
        } else if p < keys.len() {
            lemma_position_is(grown, other, p);
        } else {
            lemma_position_is(grown, other, grown.len() as int);
        }
    }
}

/// Putting a value under a key leaves no key twice where none was.
pub proof fn lemma_put_distinct<V>(entries: Seq<(Seq<char>, V)>, key: Seq<char>, value: V)
    requires
        distinct_keys(entries),
    ensures
        distinct_keys(put(entries, key, value)),
{
    let keys = keys_of(entries);
    let after = put(entries, key, value);
    lemma_position(keys, key);
    let p = position(keys, key);
    assert forall|i: int, j: int| 0 <= i < j < after.len() implies (#[trigger] after[i]).0 != (
    #[trigger] after[j]).0 by {
        if has_key(entries, key) {
            assert(after[i].0 == entries[i].0);
            assert(after[j].0 == entries[j].0);
        } else if j < entries.len() {
            assert(after[i] == entries[i]);
            assert(after[j] == entries[j]);
        } else {
            assert(after[i] == entries[i]);
            assert(keys[i] != key);
        }
    }
}

/// The place of `key` among the entries.
pub fn find_key<V>(entries: &Vec<(String, V)>, key: &String) -> (place: usize)
    ensures
        place == position(key_texts(entries@), key@),
        place <= entries@.len(),
{
    let ghost keys = key_texts(entries@);
    let mut i: usize = 0;
    assert(keys.skip(0) == keys);
    while i < entries.len()
        invariant
            i <= entries.len(),
            keys == key_texts(entries@),
            position(keys, key@) == i + position(keys.skip(i as int), key@),
        decreases entries.len() - i,
    {
        let ghost rest = keys.skip(i as int);
        assert(rest[0] == entries@[i as int].0@);
        if entries[i].0 == *key {
            return i;
        }
        assert(rest.drop_first() == keys.skip(i + 1));
        i += 1;
    }
    assert(keys.skip(i as int).len() == 0);
    i
}

} // verus!
