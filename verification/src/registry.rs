use vstd::prelude::*;

verus! {

// The bridge keeps two lookup tables: entity -> simulated body, and sensor
// collider -> (entity, direction). Both are stored as association lists in
// insertion order, with first-match lookup; the bridge's own invariants keep
// the keys unique, so the first match is the only match.

/// Some entry carries the key.
pub open spec fn alist_has_key<V>(entries: Seq<(u64, V)>, key: u64) -> bool {
    exists|i: int| 0 <= i < entries.len() && entries[i].0 == key
}

/// The value of the first entry carrying the key, if any.
pub open spec fn alist_get<V>(entries: Seq<(u64, V)>, key: u64) -> Option<V>
    decreases entries.len(),
{
    if entries.len() == 0 {
        None
    } else if entries[0].0 == key {
        Some(entries[0].1)
    } else {
        alist_get(entries.drop_first(), key)
    }
}

/// No two entries share a key.
pub open spec fn alist_keys_unique<V>(entries: Seq<(u64, V)>) -> bool {
    forall|i: int, j: int| 0 <= i < j < entries.len() ==> entries[i].0 != entries[j].0
}

/// Lookup succeeds exactly on the keys that occur, and the value found is
/// the value of some entry with that key.
pub proof fn lemma_alist_get_has_key<V>(entries: Seq<(u64, V)>, key: u64)
    ensures
        alist_get(entries, key) is Some <==> alist_has_key(entries, key),
        alist_get(entries, key) matches Some(v) ==> exists|i: int|
            0 <= i < entries.len() && entries[i] == (key, v),
    decreases entries.len(),
{
    if entries.len() > 0 {
        if entries[0].0 == key {
            assert(entries[0] == (key, entries[0].1));
        } else {
            lemma_alist_get_has_key(entries.drop_first(), key);
            if alist_has_key(entries, key) {
                let i = choose|i: int| 0 <= i < entries.len() && entries[i].0 == key;
                assert(entries.drop_first()[i - 1].0 == key);
            }
            match alist_get(entries, key) {
                Some(v) => {
                    let i = choose|i: int|
                        0 <= i < entries.drop_first().len() && entries.drop_first()[i] == (
                        key,
                        v,
                        );
                    assert(entries[i + 1] == (key, v));
                },
                None => {},
            }
        }
    }
}

/// Appending an entry leaves every earlier key's lookup unchanged, and gives
/// the new key its value if the key is fresh.
pub proof fn lemma_alist_get_push<V>(entries: Seq<(u64, V)>, entry: (u64, V), key: u64)
    ensures
        alist_get(entries.push(entry), key) == (if alist_has_key(entries, key) {
            alist_get(entries, key)
        } else if entry.0 == key {
            Some(entry.1)
        } else {
            None::<V>
        }),
        alist_has_key(entries.push(entry), key) <==> alist_has_key(entries, key) || entry.0
            == key,
    decreases entries.len(),
{
    lemma_alist_get_has_key(entries, key);
    lemma_alist_get_has_key(entries.push(entry), key);
    if entries.len() == 0 {
        assert(entries.push(entry)[0] == entry);
    } else {
        assert(entries.push(entry)[0] == entries[0]);
        if entries[0].0 != key {
            assert(entries.push(entry).drop_first() =~= entries.drop_first().push(entry));
            lemma_alist_get_push(entries.drop_first(), entry, key);
            if alist_has_key(entries, key) {
                let i = choose|i: int| 0 <= i < entries.len() && entries[i].0 == key;
                assert(entries.drop_first()[i - 1].0 == key);
            }
        }
    }
}

/// An entry preceded by no other entry with its key is the entry that
/// lookup returns, whether or not later entries share the key.
pub proof fn lemma_alist_get_first_match<V>(entries: Seq<(u64, V)>, key: u64, i: int)
    requires
        0 <= i < entries.len(),
        entries[i].0 == key,
        forall|j: int| 0 <= j < i ==> entries[j].0 != key,
    ensures
        alist_get(entries, key) == Some(entries[i].1),
    decreases i,
{
    if i > 0 {
        assert forall|j: int| 0 <= j < i - 1 implies entries.drop_first()[j].0 != key by {
            assert(entries[j + 1].0 != key);
        }
        lemma_alist_get_first_match(entries.drop_first(), key, i - 1);
    }
}

/// Linear scan for the first entry with the given key.
pub fn alist_find<'a, V>(entries: &'a Vec<(u64, V)>, key: u64) -> (r: Option<&'a V>)
    ensures
        match r {
            Some(v) => alist_get(entries@, key) == Some(*v),
            None => !alist_has_key(entries@, key),
        },
{
    let mut i: usize = 0;
    while i < entries.len()
        invariant
            i <= entries@.len(),
            forall|j: int| 0 <= j < i ==> entries@[j].0 != key,
        decreases entries@.len() - i,
    {
        if entries[i].0 == key {
            proof {
                lemma_alist_get_first_match(entries@, key, i as int);
            }
            return Some(&entries[i].1);
        }
        i = i + 1;
    }
    None
}

} // verus!
