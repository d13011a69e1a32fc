//! Sequences of entries with a text key, kept in the order of their keys.
use vstd::prelude::*;
use vstd::string::*;
use crate::text::{compare_text, same_text, TextOrder};
use crate::text::{lemma_text_before_total, lemma_text_before_transitive, text_before};

verus! {

/// Whether each key comes before all that follow it: no key occurs twice.
pub open spec fn ascending(keys: Seq<Seq<char>>) -> bool {
    forall|i: int, j: int|
        0 <= i < j < keys.len() ==> text_before(#[trigger] keys[i], #[trigger] keys[j])
}

/// The place of the last occurrence of `key`.
pub open spec fn key_index(keys: Seq<Seq<char>>, key: Seq<char>) -> Option<int>
    decreases keys.len(),
{
    if keys.len() == 0 {
        None
    } else if keys.last() == key {
        Some(keys.len() - 1)
    } else {
        key_index(keys.drop_last(), key)
    }
}

/// How many of the keys come before `key`: in an ascending sequence, the place where it belongs.
pub open spec fn rank(keys: Seq<Seq<char>>, key: Seq<char>) -> int
    decreases keys.len(),
{
    if keys.len() == 0 {
        0
    } else {
        rank(keys.drop_last(), key) + (if text_before(keys.last(), key) {
            1int
        } else {
            0int
        })
    }
}

/// The keys of a sequence of entries.
pub open spec fn keys_of<V>(entries: Seq<(Seq<char>, V)>) -> Seq<Seq<char>> {
    Seq::new(entries.len(), |i: int| entries[i].0)
}

/// The value that stands under `key`.
pub open spec fn lookup<V>(entries: Seq<(Seq<char>, V)>, key: Seq<char>) -> Option<V> {
    match key_index(keys_of(entries), key) {
        Some(i) => Some(entries[i].1),
        None => None,
    }
}

/// The entries after `value` was put under `key`: in place of the value that stood there, or as a
/// new entry at the place where `key` belongs.
pub open spec fn inserted<V>(entries: Seq<(Seq<char>, V)>, key: Seq<char>, value: V) -> Seq<
    (Seq<char>, V),
> {
    match key_index(keys_of(entries), key) {
        Some(i) => entries.update(i, (key, value)),
        None => entries.insert(rank(keys_of(entries), key), (key, value)),
    }
}

/// The entries after what stood under `key` was taken out.
pub open spec fn removed<V>(entries: Seq<(Seq<char>, V)>, key: Seq<char>) -> Seq<(Seq<char>, V)> {
    match key_index(keys_of(entries), key) {
        Some(i) => entries.remove(i),
        None => entries,
    }
}

/// The entries whose keys are none of `names`, in their order.
pub open spec fn without<V>(entries: Seq<(Seq<char>, V)>, names: Set<Seq<char>>) -> Seq<
    (Seq<char>, V),
>
    decreases entries.len(),
{
    if entries.len() == 0 {
        Seq::empty()
    } else if names.contains(entries.last().0) {
        without(entries.drop_last(), names)
    } else {
        without(entries.drop_last(), names).push(entries.last())
    }
}

/// A key is found where it stands, and only there.
pub proof fn lemma_key_index(keys: Seq<Seq<char>>, key: Seq<char>)
    ensures
        key_index(keys, key) is Some <==> keys.contains(key),
        key_index(keys, key) matches Some(i) ==> 0 <= i < keys.len() && keys[i] == key,
    decreases keys.len(),
{
    if keys.len() > 0 {
        lemma_key_index(keys.drop_last(), key);
        if keys.drop_last().contains(key) {
            let i = choose|i: int| 0 <= i < keys.drop_last().len() && keys.drop_last()[i] == key;
            assert(keys[i] == key);
        }
        if keys.contains(key) && keys.last() != key {
            let i = choose|i: int| 0 <= i < keys.len() && keys[i] == key;
            assert(keys.drop_last()[i] == key);
        }
        if keys.last() == key {
            assert(keys[keys.len() - 1] == key);
        }
    }
}

/// In an ascending sequence the rank of a key splits what comes before it from what does not.
pub proof fn lemma_rank(keys: Seq<Seq<char>>, key: Seq<char>)
    requires
        ascending(keys),
    ensures
        0 <= rank(keys, key) <= keys.len(),
        forall|i: int| 0 <= i < rank(keys, key) ==> text_before(#[trigger] keys[i], key),
        forall|i: int| rank(keys, key) <= i < keys.len() ==> !text_before(#[trigger] keys[i], key),
    decreases keys.len(),
{
    if keys.len() > 0 {
        lemma_rank(keys.drop_last(), key);
        assert forall|i: int| 0 <= i < keys.len() - 1 implies keys.drop_last()[i] == keys[i] by {}
        if text_before(keys.last(), key) {
            assert forall|i: int| 0 <= i < keys.len() implies text_before(
                #[trigger] keys[i],
                key,
            ) by {
                if i < keys.len() - 1 {
                    lemma_text_before_transitive(keys[i], keys.last(), key);
                }
            }
            if rank(keys.drop_last(), key) < keys.len() - 1 {
                assert(!text_before(keys.drop_last()[rank(keys.drop_last(), key)], key));
            }
        } else {
            assert forall|i: int| 0 <= i < rank(keys, key) implies text_before(
                #[trigger] keys[i],
                key,
            ) by {
                assert(keys.drop_last()[i] == keys[i]);
            }
            assert forall|i: int| rank(keys, key) <= i < keys.len() implies !text_before(
                #[trigger] keys[i],
                key,
            ) by {
                if i < keys.len() - 1 {
                    assert(keys.drop_last()[i] == keys[i]);
                }
            }
        }
    }
}

/// An ascending sequence stays ascending when a missing key is put where it belongs.
pub proof fn lemma_insert_ascending(keys: Seq<Seq<char>>, key: Seq<char>)
    requires
        ascending(keys),
        !keys.contains(key),
    ensures
        0 <= rank(keys, key) <= keys.len(),
        ascending(keys.insert(rank(keys, key), key)),
{
    lemma_rank(keys, key);
    let at = rank(keys, key);
    let grown = keys.insert(at, key);
    assert forall|i: int, j: int| 0 <= i < j < grown.len() implies text_before(
        #[trigger] grown[i],
        #[trigger] grown[j],
    ) by {
        if i == at {
            assert(keys[j - 1] == grown[j]);
            assert(keys.contains(keys[j - 1]));
            lemma_text_before_total(keys[j - 1], key);
        } else if j == at {
            assert(keys[i] == grown[i]);
        } else {
            let a = if i < at {
                i
            } else {
                i - 1
            };
            let b = if j < at {
                j
            } else {
                j - 1
            };
            assert(text_before(keys[a], keys[b]));
        }
    }
}

/// An ascending sequence stays ascending when a key is taken out.
pub proof fn lemma_remove_ascending(keys: Seq<Seq<char>>, at: int)
    requires
        ascending(keys),
        0 <= at < keys.len(),
    ensures
        ascending(keys.remove(at)),
{
    let shrunk = keys.remove(at);
    assert forall|i: int, j: int| 0 <= i < j < shrunk.len() implies text_before(
        #[trigger] shrunk[i],
        #[trigger] shrunk[j],
    ) by {
        let a = if i < at {
            i
        } else {
            i + 1
        };
        let b = if j < at {
            j
        } else {
            j + 1
        };
        assert(text_before(keys[a], keys[b]));
    }
}

/// In an ascending sequence a key stands at one place only.
pub proof fn lemma_unique_index(keys: Seq<Seq<char>>, at: int)
    requires
        ascending(keys),
        0 <= at < keys.len(),
    ensures
        key_index(keys, keys[at]) == Some(at),
{
    lemma_key_index(keys, keys[at]);
    assert(keys.contains(keys[at]));
    let i = key_index(keys, keys[at])->0;
    lemma_text_before_total(keys[at], keys[at]);
    if i < at {
        assert(text_before(keys[i], keys[at]));
    }
    if at < i {
        assert(text_before(keys[at], keys[i]));
    }
}

/// What was put under a key is found under it, and what stands under every other key is as before.
pub proof fn law_inserted_value_is_found<V>(
    entries: Seq<(Seq<char>, V)>,
    key: Seq<char>,
    value: V,
    other: Seq<char>,
)
    requires
        ascending(keys_of(entries)),
    ensures
        ascending(keys_of(inserted(entries, key, value))),
        lookup(inserted(entries, key, value), other) == (if other == key {
            Some(value)
        } else {
            lookup(entries, other)
        }),
{
    let keys = keys_of(entries);
    let after = inserted(entries, key, value);
    let grown = keys_of(after);
    lemma_key_index(keys, key);
    lemma_key_index(keys, other);
    lemma_rank(keys, key);
    if keys.contains(key) {
        assert(grown =~= keys);
    } else {
        let at = rank(keys, key);
        lemma_insert_ascending(keys, key);
        assert(grown =~= keys.insert(at, key));
        if other == key {
            assert(grown[at] == key);
            lemma_unique_index(grown, at);
        } else if keys.contains(other) {
            let i = key_index(keys, other)->0;
            let j = if i < at {
                i
            } else {
                i + 1
            };
            assert(grown[j] == other);
            lemma_unique_index(grown, j);
        } else {
            lemma_key_index(grown, other);
            if grown.contains(other) {
                let j = choose|j: int| 0 <= j < grown.len() && grown[j] == other;
                let i = if j < at {
                    j
                } else {
                    j - 1
                };
                assert(keys[i] == other);
            }
        }
    }
}

/// Nothing is found under a key that was taken out, and what stands under every other key is as
/// before.
pub proof fn law_removed_value_is_gone<V>(
    entries: Seq<(Seq<char>, V)>,
    key: Seq<char>,
    other: Seq<char>,
)
    requires
        ascending(keys_of(entries)),
    ensures
        ascending(keys_of(removed(entries, key))),
        lookup(removed(entries, key), other) == (if other == key {
            None
        } else {
            lookup(entries, other)
        }),
{
    let keys = keys_of(entries);
    let shrunk = keys_of(removed(entries, key));
    lemma_key_index(keys, key);
    lemma_key_index(keys, other);
    lemma_key_index(shrunk, other);
    if keys.contains(key) {
        let at = key_index(keys, key)->0;
        lemma_remove_ascending(keys, at);
        assert(shrunk =~= keys.remove(at));
        if shrunk.contains(other) {
            let j = choose|j: int| 0 <= j < shrunk.len() && shrunk[j] == other;
            let i = if j < at {
                j
            } else {
                j + 1
            };
            assert(keys[i] == other);
            lemma_unique_index(keys, i);
            lemma_unique_index(shrunk, j);
        } else if other != key && keys.contains(other) {
            let i = key_index(keys, other)->0;
            let j = if i < at {
                i
            } else {
                i - 1
            };
            assert(shrunk[j] == other);
        }
    } else {
        assert(shrunk =~= keys);
    }
}

/// The keys after one more entry came last.
pub proof fn lemma_lookup_push<V>(
    entries: Seq<(Seq<char>, V)>,
    entry: (Seq<char>, V),
    key: Seq<char>,
)
    ensures
        lookup(entries.push(entry), key) == (if entry.0 == key {
            Some(entry.1)
        } else {
            lookup(entries, key)
        }),
{
    assert(keys_of(entries.push(entry)).drop_last() =~= keys_of(entries));
    lemma_key_index(keys_of(entries), key);
}

/// Of the entries that remain without some names, none stands under such a name, and what stands
/// under every other name is as before.
pub proof fn lemma_lookup_without<V>(
    entries: Seq<(Seq<char>, V)>,
    names: Set<Seq<char>>,
    key: Seq<char>,
)
    ensures
        lookup(without(entries, names), key) == (if names.contains(key) {
            None
        } else {
            lookup(entries, key)
        }),
    decreases entries.len(),
{
    if entries.len() > 0 {
        let rest = entries.drop_last();
        lemma_lookup_without(rest, names, key);
        assert(entries =~= rest.push(entries.last()));
        lemma_lookup_push(rest, entries.last(), key);
        lemma_lookup_push(without(rest, names), entries.last(), key);
    }
}

/// To leave out some names and then others is to leave out all of them.
pub proof fn lemma_without_union<V>(
    entries: Seq<(Seq<char>, V)>,
    names: Set<Seq<char>>,
    more: Set<Seq<char>>,
)
    ensures
        without(without(entries, names), more) == without(entries, names.union(more)),
    decreases entries.len(),
{
    if entries.len() > 0 {
        let rest = entries.drop_last();
        lemma_without_union(rest, names, more);
        if !names.contains(entries.last().0) {
            let kept = without(entries, names);
            assert(kept.drop_last() =~= without(rest, names));
        }
    }
}

/// Entries under none of some names stay when these are left out.
pub proof fn lemma_without_absent<V>(entries: Seq<(Seq<char>, V)>, names: Set<Seq<char>>)
    requires
        forall|i: int| 0 <= i < entries.len() ==> !names.contains((#[trigger] entries[i]).0),
    ensures
        without(entries, names) == entries,
    decreases entries.len(),
{
    if entries.len() > 0 {
        assert(!names.contains(entries[entries.len() - 1].0));
        assert forall|i: int| 0 <= i < entries.drop_last().len() implies !names.contains(
            (#[trigger] entries.drop_last()[i]).0,
        ) by {
            assert(entries.drop_last()[i] == entries[i]);
        }
        lemma_without_absent(entries.drop_last(), names);
        assert(entries.drop_last().push(entries.last()) =~= entries);
    }
}

/// To take out a name is to leave out that name alone.
pub proof fn lemma_removed_without<V>(entries: Seq<(Seq<char>, V)>, key: Seq<char>)
    requires
        ascending(keys_of(entries)),
    ensures
        removed(entries, key) == without(entries, set![key]),
    decreases entries.len(),
{
    let keys = keys_of(entries);
    if entries.len() > 0 {
        let rest = entries.drop_last();
        assert(keys_of(rest) =~= keys.drop_last());
        assert(ascending(keys_of(rest))) by {
            assert forall|i: int, j: int| 0 <= i < j < rest.len() implies text_before(
                #[trigger] keys_of(rest)[i],
                #[trigger] keys_of(rest)[j],
            ) by {
                assert(text_before(keys[i], keys[j]));
            }
        }
        lemma_removed_without(rest, key);
        lemma_key_index(keys, key);
        lemma_key_index(keys_of(rest), key);
        if entries.last().0 == key {
            assert(removed(entries, key) =~= rest);
            assert forall|i: int| 0 <= i < rest.len() implies !set![key].contains(
                (#[trigger] rest[i]).0,
            ) by {
                assert(text_before(keys[i], keys[keys.len() - 1]));
                lemma_text_before_total(keys[i], key);
            }
            lemma_without_absent(rest, set![key]);
        } else {
            assert(removed(entries, key) =~= removed(rest, key).push(entries.last()));
        }
    }
}

/// The keys of the entries of a vector.
pub open spec fn names_of<V>(entries: Seq<(String, V)>) -> Seq<Seq<char>> {
    Seq::new(entries.len(), |i: int| entries[i].0@)
}

/// Finds the entry under `key`.
pub fn find_key<V>(entries: &Vec<(String, V)>, key: &str) -> (found: Option<usize>)
    ensures
        key_index(names_of(entries@), key@) == (match found {
            Some(i) => Some(i as int),
            None => None,
        }),
{
    let ghost keys = names_of(entries@);
    let mut i: usize = entries.len();
    assert(keys.take(i as int) =~= keys);
    while i > 0
        invariant
            i <= entries@.len(),
            keys == names_of(entries@),
            key_index(keys, key@) == key_index(keys.take(i as int), key@),
        decreases i,
    {
        assert(keys.take(i as int).drop_last() =~= keys.take(i - 1));
        assert(keys.take(i as int).last() == entries@[i - 1].0@);
        i = i - 1;
        if same_text(entries[i].0.as_str(), key) {
            return Some(i);
        }
    }
    None
}

/// Finds the place where a new key belongs.
pub fn find_place<V>(entries: &Vec<(String, V)>, key: &str) -> (at: usize)
    requires
        ascending(names_of(entries@)),
    ensures
        at == rank(names_of(entries@), key@),
        at <= entries@.len(),
{
    let ghost keys = names_of(entries@);
    let mut i: usize = entries.len();
    proof {
        lemma_rank(keys, key@);
    }
    while i > 0
        invariant
            i <= entries@.len(),
            keys == names_of(entries@),
            rank(keys, key@) <= i,
            0 <= rank(keys, key@),
            forall|j: int|
                0 <= j < rank(keys, key@) ==> text_before(#[trigger] keys[j], key@),
            forall|j: int|
                rank(keys, key@) <= j < keys.len() ==> !text_before(#[trigger] keys[j], key@),
        decreases i,
    {
        let order = compare_text(entries[i - 1].0.as_str(), key);
        assert(keys[i - 1] == entries@[i - 1].0@);
        if let TextOrder::Before = order {
            return i;
        }
        i = i - 1;
    }
    i
}

}
