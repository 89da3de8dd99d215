//! Dictionaries laid over one another.

use vstd::prelude::*;
use crate::adapter::{dictionary_entries, dictionary_into_entries, dictionary_set, object_value};
use crate::model::{Entries, Key};

verus! {

/// The map that a list of entries builds up when they are set one by one.
pub open spec fn listed(pairs: Seq<(Vec<u8>, lopdf::Object)>) -> Entries
    decreases pairs.len(),
{
    if pairs.len() == 0 {
        Map::empty()
    } else {
        listed(pairs.drop_last()).insert(pairs.last().0@, object_value(pairs.last().1))
    }
}

/// Setting the entries that list a dictionary one by one builds up the dictionary.
proof fn lemma_listed(pairs: Seq<(Vec<u8>, lopdf::Object)>, entries: Entries)
    requires
        forall|i: int|
            0 <= i < pairs.len() ==> entries.contains_key(#[trigger] pairs[i].0@)
                && entries[pairs[i].0@] == object_value(pairs[i].1),
    ensures
        forall|key: Key| #[trigger]
            listed(pairs).contains_key(key) <==> exists|i: int|
                0 <= i < pairs.len() && pairs[i].0@ == key,
        forall|key: Key| #[trigger]
            listed(pairs).contains_key(key) ==> listed(pairs)[key] == entries[key],
    decreases pairs.len(),
{
    if pairs.len() > 0 {
        let shorter = pairs.drop_last();
        lemma_listed(shorter, entries);
        assert forall|key: Key| #[trigger]
            listed(pairs).contains_key(key) <==> exists|i: int|
                0 <= i < pairs.len() && pairs[i].0@ == key by {
            if listed(pairs).contains_key(key) {
                if key != pairs.last().0@ {
                    assert(listed(shorter).contains_key(key));
                    let i = choose|i: int| 0 <= i < shorter.len() && shorter[i].0@ == key;
                    assert(pairs[i].0@ == key);
                }
            }
            if exists|i: int| 0 <= i < pairs.len() && pairs[i].0@ == key {
                let i = choose|i: int| 0 <= i < pairs.len() && pairs[i].0@ == key;
                if i < pairs.len() - 1 {
                    assert(shorter[i].0@ == key);
                    assert(listed(shorter).contains_key(key));
                }
            }
        }
        assert forall|key: Key| #[trigger] listed(pairs).contains_key(key) implies listed(
            pairs,
        )[key] == entries[key] by {
            if key != pairs.last().0@ {
                assert(listed(shorter).contains_key(key));
            }
        }
    }
}

/// Lays the entries of `preferred` over those of `dictionary`: where both
/// have an entry, that of `preferred` stays.
pub fn overlay(dictionary: &mut lopdf::Dictionary, preferred: lopdf::Dictionary)
    ensures
        dictionary_entries(*final(dictionary)) == dictionary_entries(
            *old(dictionary),
        ).union_prefer_right(dictionary_entries(preferred)),
{
    let ghost base = dictionary_entries(*dictionary);
    let ghost over = dictionary_entries(preferred);
    let pairs = dictionary_into_entries(preferred);
    let ghost all = pairs@;
    for pair in it: pairs
        invariant
            it.seq() == all,
            dictionary_entries(*dictionary) == base.union_prefer_right(
                listed(all.take(it.index() as int)),
            ),
    {
        let ghost index = it.index() as int;
        let (key, value) = pair;
        proof {
            assert(all.take(index + 1).drop_last() =~= all.take(index));
        }
        dictionary_set(dictionary, key.as_slice(), value);
    }
    proof {
        assert(all.take(all.len() as int) =~= all);
        lemma_listed(all, over);
    }
}

} // verus!
