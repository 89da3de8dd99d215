//! Facts about the model that the proofs of the merge rest on.

use vstd::prelude::*;
use vstd::string::{is_ascii_spec_bytes, StringSliceAdditionalSpecFns};
use crate::model::{
    ascending_listing, count_key, id_before, kids_key, linearized_key, lists_ascending,
    outlines_key, pages_key, parent_key, type_key, ObjectId, PdfValue, Slot,
};

verus! {

/// A store has one ascending listing only.
pub proof fn lemma_listing_unique(
    first: Seq<Slot>,
    second: Seq<Slot>,
    objects: Map<ObjectId, PdfValue>,
)
    requires
        lists_ascending(first, objects),
        lists_ascending(second, objects),
    ensures
        first == second,
    decreases first.len(),
{
    if first.len() == 0 {
        if second.len() > 0 {
            assert(objects.contains_key(second[0].0));
        }
    } else {
        let top = first.last();
        let at = choose|i: int| 0 <= i < second.len() && second[i].0 == top.0;
        if at < second.len() - 1 {
            let above = second[second.len() - 1].0;
            assert(id_before(second[at].0, above));
            let back = choose|i: int| 0 <= i < first.len() && first[i].0 == above;
            if back < first.len() - 1 {
                assert(id_before(first[back].0, first[first.len() - 1].0));
            }
        }
        let rest = objects.remove(top.0);
        let first_rest = first.drop_last();
        let second_rest = second.drop_last();
        assert(lists_ascending(first_rest, rest)) by {
            assert forall|i: int| 0 <= i < first_rest.len() implies rest.contains_key(
                #[trigger] first_rest[i].0,
            ) && rest[first_rest[i].0] == first_rest[i].1 by {
                assert(id_before(first[i].0, first[first.len() - 1].0));
            }
            assert forall|id: ObjectId| #[trigger] rest.contains_key(id) implies exists|i: int|
                0 <= i < first_rest.len() && first_rest[i].0 == id by {
                let i = choose|i: int| 0 <= i < first.len() && first[i].0 == id;
                assert(first_rest[i].0 == id);
            }
        }
        assert(lists_ascending(second_rest, rest)) by {
            assert forall|i: int| 0 <= i < second_rest.len() implies rest.contains_key(
                #[trigger] second_rest[i].0,
            ) && rest[second_rest[i].0] == second_rest[i].1 by {
                assert(id_before(second[i].0, second[second.len() - 1].0));
            }
            assert forall|id: ObjectId| #[trigger] rest.contains_key(id) implies exists|i: int|
                0 <= i < second_rest.len() && second_rest[i].0 == id by {
                let i = choose|i: int| 0 <= i < second.len() && second[i].0 == id;
                assert(second_rest[i].0 == id);
            }
        }
        lemma_listing_unique(first_rest, second_rest, rest);
        assert(second =~= second_rest.push(top));
    }
}

/// The order of object identifiers, with equality.
pub open spec fn id_not_after() -> spec_fn(ObjectId, ObjectId) -> bool {
    |a: ObjectId, b: ObjectId| a == b || id_before(a, b)
}

/// A finite store has an ascending listing.
pub proof fn lemma_listing_exists(objects: Map<ObjectId, PdfValue>)
    requires
        objects.dom().finite(),
    ensures
        lists_ascending(ascending_listing(objects), objects),
    decreases objects.dom().len(),
{
    broadcast use vstd::set::group_set_axioms;

    if objects.dom().len() == 0 {
        let none = Seq::<Slot>::empty();
        assert(lists_ascending(none, objects));
    } else {
        let order = id_not_after();
        assert(vstd::relations::total_ordering(order));
        objects.dom().find_unique_maximal_ensures(order);
        let top = objects.dom().find_unique_maximal(order);
        let rest = objects.remove(top);
        lemma_listing_exists(rest);
        let shorter = ascending_listing(rest);
        let full = shorter.push((top, objects[top]));
        assert forall|i: int, j: int| 0 <= i < j < full.len() implies id_before(
            full[i].0,
            full[j].0,
        ) by {
            if j == full.len() - 1 {
                assert(order(shorter[i].0, top) || order(top, shorter[i].0));
            }
        }
        assert forall|id: ObjectId| #[trigger] objects.contains_key(id) implies exists|i: int|
            0 <= i < full.len() && full[i].0 == id by {
            if id == top {
                assert(full[full.len() - 1].0 == id);
            } else {
                let i = choose|i: int| 0 <= i < shorter.len() && shorter[i].0 == id;
                assert(full[i].0 == id);
            }
        }
        assert(lists_ascending(full, objects));
    }
}

/// A listing that is ascending and complete is the ascending listing.
pub proof fn lemma_listing_is_ascending(slots: Seq<Slot>, objects: Map<ObjectId, PdfValue>)
    requires
        lists_ascending(slots, objects),
    ensures
        slots == ascending_listing(objects),
{
    lemma_listing_unique(slots, ascending_listing(objects), objects);
}

/// The keys that the merge writes are different from one another and from
/// the keys under which a dictionary declares its type.
pub proof fn lemma_keys_distinct()
    ensures
        parent_key() != type_key(),
        parent_key() != linearized_key(),
        count_key() != type_key(),
        count_key() != linearized_key(),
        kids_key() != type_key(),
        kids_key() != linearized_key(),
        pages_key() != type_key(),
        pages_key() != linearized_key(),
        outlines_key() != type_key(),
        outlines_key() != linearized_key(),
        count_key() != kids_key(),
        pages_key() != outlines_key(),
{
    reveal_strlit("Type");
    reveal_strlit("Linearized");
    reveal_strlit("Parent");
    reveal_strlit("Kids");
    reveal_strlit("Count");
    reveal_strlit("Pages");
    reveal_strlit("Outlines");
    is_ascii_spec_bytes("Type");
    is_ascii_spec_bytes("Linearized");
    is_ascii_spec_bytes("Parent");
    is_ascii_spec_bytes("Kids");
    is_ascii_spec_bytes("Count");
    is_ascii_spec_bytes("Pages");
    is_ascii_spec_bytes("Outlines");
    assert(kids_key().len() == 4 && kids_key()[0] == 75u8);
}

} // verus!
