//! What holds of every merge.

use vstd::prelude::*;
use crate::adapter::page_sequence;
use crate::error::MergeError;
use crate::merge::graph::{
    all_objects, all_pages, compact_of, compacted, consolidated, documents_of, finishing_known,
    first_free_id, first_page, is_pages_node, kids_of, marked_of, merged, moved_targets, no_page,
    numbering_fits, numbering_known, page_offset, pages_among, pages_of, position_of,
    renumbered_all, renumbered_at, renumbering_known, reparented, retargeted, root_catalog,
    root_pages, with_pages, with_verbatim, Source,
};
use crate::merge::kind::{kind_of, ObjectKind};
use crate::merge::outline::lemma_bookmarks_of_fresh;
use crate::merge::outline_tree::outline_in_place;
use crate::merge::roots::{holds_one, law_single_roots_held, pages_in_place, roots_in_place};
use crate::model::{
    ascending_listing, count_key, id_before, kids_key, resolve, slot_ids, DocumentModel, Entries,
    Key, ObjectId, PdfValue, Slot,
};
use crate::model_lemmas::{lemma_keys_distinct, lemma_listing_exists};

verus! {

/// The renumbering pass hands out disjoint ranges of object numbers: the
/// objects of a renumbered document have numbers from the first number that
/// was free before it up to the first that is free after it, and the free
/// numbers never fall.
pub proof fn law_number_ranges(documents: Seq<DocumentModel>, upto: int)
    requires
        numbering_fits(documents),
        numbering_known(documents),
        0 <= upto <= documents.len(),
    ensures
        1 <= first_free_id(documents, upto) <= u32::MAX,
        forall|j: int, id: ObjectId|
            0 <= j < upto && #[trigger] renumbered_at(documents, j).objects.contains_key(id)
                ==> first_free_id(documents, j) <= id.0 < first_free_id(documents, upto),
    decreases upto,
{
    if upto > 0 {
        law_number_ranges(documents, upto - 1);
    }
}

/// The pages that a store delivers are stored in it, and none comes twice.
pub proof fn lemma_pages_among(objects: Map<ObjectId, PdfValue>, ids: Seq<ObjectId>)
    ensures
        forall|a: int, b: int|
            0 <= a < b < pages_among(objects, ids).len() ==> pages_among(objects, ids)[a].0
                != pages_among(objects, ids)[b].0,
        forall|a: int|
            0 <= a < pages_among(objects, ids).len() ==> objects.contains_key(
                #[trigger] pages_among(objects, ids)[a].0,
            ) && resolve(objects, pages_among(objects, ids)[a].0) == Some(
                pages_among(objects, ids)[a].1,
            ),
    decreases ids.len(),
{
    if ids.len() > 0 {
        lemma_pages_among(objects, ids.drop_last());
        let before = pages_among(objects, ids.drop_last());
        let pages = pages_among(objects, ids);
        if resolve(objects, ids.last()) is Some && !slot_ids(before).contains(ids.last()) {
            assert forall|a: int, b: int| 0 <= a < b < pages.len() implies pages[a].0
                != pages[b].0 by {
                if b == pages.len() - 1 {
                    assert(slot_ids(before)[a] == before[a].0);
                }
            }
        }
    }
}

/// The accumulated objects stand in the order of their identifiers, so no
/// identifier comes twice: the renumbering pass keeps the documents apart.
pub proof fn law_objects_ascending(documents: Seq<DocumentModel>, upto: int)
    requires
        numbering_fits(documents),
        numbering_known(documents),
        0 <= upto <= documents.len(),
    ensures
        forall|a: int, b: int|
            0 <= a < b < all_objects(renumbered_all(documents).take(upto)).len() ==> id_before(
                all_objects(renumbered_all(documents).take(upto))[a].0,
                all_objects(renumbered_all(documents).take(upto))[b].0,
            ),
        forall|a: int|
            0 <= a < all_objects(renumbered_all(documents).take(upto)).len() ==> (
            #[trigger] all_objects(renumbered_all(documents).take(upto))[a]).0.0 < first_free_id(
                documents,
                upto,
            ),
    decreases upto,
{
    if upto > 0 {
        let renumbered = renumbered_all(documents);
        let last = upto - 1;
        let store = renumbered_at(documents, last).objects;
        law_objects_ascending(documents, last);
        lemma_listing_exists(store);
        assert(renumbered.take(upto).drop_last() =~= renumbered.take(last));
        assert(all_objects(renumbered.take(upto)) == all_objects(renumbered.take(last))
            + ascending_listing(store));
    }
}

/// No page is accumulated twice: the pages of a document are distinct, and
/// the renumbering pass keeps the documents apart.
pub proof fn law_pages_distinct(documents: Seq<DocumentModel>, upto: int)
    requires
        numbering_fits(documents),
        numbering_known(documents),
        0 <= upto <= documents.len(),
    ensures
        forall|a: int, b: int|
            0 <= a < b < all_pages(renumbered_all(documents).take(upto)).len() ==> all_pages(
                renumbered_all(documents).take(upto),
            )[a].0 != all_pages(renumbered_all(documents).take(upto))[b].0,
        forall|a: int|
            0 <= a < all_pages(renumbered_all(documents).take(upto)).len() ==> 1 <= (
            #[trigger] all_pages(renumbered_all(documents).take(upto))[a]).0.0 < first_free_id(
                documents,
                upto,
            ),
    decreases upto,
{
    if upto > 0 {
        let renumbered = renumbered_all(documents);
        let last = upto - 1;
        let document = renumbered_at(documents, last);
        law_pages_distinct(documents, last);
        lemma_pages_among(document.objects, page_sequence(document));
        assert(renumbered.take(upto).drop_last() =~= renumbered.take(last));
        assert(all_pages(renumbered.take(upto)) == all_pages(renumbered.take(last)) + pages_of(
            document,
        ));
    }
}

/// The accumulated pages of the first documents begin the accumulated pages
/// of all.
pub proof fn lemma_pages_prefix(documents: Seq<DocumentModel>, index: int)
    requires
        0 <= index <= documents.len(),
    ensures
        page_offset(documents, index) <= all_pages(documents).len(),
        all_pages(documents.take(index)) == all_pages(documents).take(
            page_offset(documents, index) as int,
        ),
    decreases documents.len(),
{
    if index == documents.len() {
        assert(documents.take(index) =~= documents);
    } else {
        let shorter = documents.drop_last();
        lemma_pages_prefix(shorter, index);
        assert(shorter.take(index) =~= documents.take(index));
    }
}

/// The merged pages are the pages of the first source in its page order,
/// then those of the second, and so on: the pages of each source stand
/// together, begin where those of the source before it end, and the last
/// end where the merged pages end.
pub proof fn law_pages_in_source_order(documents: Seq<DocumentModel>, index: int)
    requires
        0 <= index < documents.len(),
    ensures
        page_offset(documents, 0) == 0,
        page_offset(documents, index + 1) == page_offset(documents, index) + pages_of(
            documents[index],
        ).len(),
        page_offset(documents, documents.len() as int) == all_pages(documents).len(),
        page_offset(documents, index + 1) <= all_pages(documents).len(),
        all_pages(documents).subrange(
            page_offset(documents, index) as int,
            page_offset(documents, index + 1) as int,
        ) == pages_of(documents[index]),
{
    assert(documents.take(documents.len() as int) =~= documents);
    assert(documents.take(index + 1).drop_last() =~= documents.take(index));
    lemma_pages_prefix(documents, index + 1);
    let upto = all_pages(documents.take(index + 1));
    assert(all_pages(documents).subrange(
        page_offset(documents, index) as int,
        page_offset(documents, index + 1) as int,
    ) =~= upto.subrange(
        page_offset(documents, index) as int,
        page_offset(documents, index + 1) as int,
    ));
}

/// The root of the page tree comes from a page tree node among the slots
/// and is of the kind of a page tree node; where there is no root, there
/// is no page tree node.
pub proof fn lemma_root_pages(slots: Seq<Slot>)
    ensures
        match root_pages(slots) {
            Some((root, entries)) => kind_of(PdfValue::Dictionary(entries)) == ObjectKind::Pages
                && exists|i: int|
                0 <= i < slots.len() && slots[i].0 == root && is_pages_node(slots[i].1),
            None => forall|i: int| 0 <= i < slots.len() ==> !is_pages_node(#[trigger] slots[i].1),
        },
    decreases slots.len(),
{
    if slots.len() > 0 {
        let shorter = slots.drop_last();
        lemma_root_pages(shorter);
        assert(forall|i: int| 0 <= i < shorter.len() ==> shorter[i] == slots[i]);
        if is_pages_node(slots.last().1) {
            assert(is_pages_node(slots[slots.len() - 1].1));
        }
    }
}

/// The catalog is the first catalog among the slots; where there is no
/// catalog, no slot holds one.
pub proof fn lemma_root_catalog(slots: Seq<Slot>)
    ensures
        match root_catalog(slots) {
            Some(found) => exists|i: int|
                0 <= i < slots.len() && slots[i] == found && kind_of(slots[i].1)
                    == ObjectKind::Catalog && forall|j: int|
                    0 <= j < i ==> kind_of(#[trigger] slots[j].1) != ObjectKind::Catalog,
            None => forall|i: int|
                0 <= i < slots.len() ==> kind_of(#[trigger] slots[i].1) != ObjectKind::Catalog,
        },
    decreases slots.len(),
{
    if slots.len() > 0 {
        let shorter = slots.drop_last();
        lemma_root_catalog(shorter);
        assert(forall|i: int| 0 <= i < shorter.len() ==> shorter[i] == slots[i]);
    }
}

/// Of the accumulated objects, only those of no structural kind are taken
/// as they are.
pub proof fn lemma_verbatim_kinds(objects: Map<ObjectId, PdfValue>, slots: Seq<Slot>)
    requires
        forall|id: ObjectId| #[trigger]
            objects.contains_key(id) ==> kind_of(objects[id]) == ObjectKind::Other,
    ensures
        forall|id: ObjectId| #[trigger]
            with_verbatim(objects, slots).contains_key(id) ==> kind_of(
                with_verbatim(objects, slots)[id],
            ) == ObjectKind::Other,
    decreases slots.len(),
{
    if slots.len() > 0 {
        lemma_verbatim_kinds(objects, slots.drop_last());
    }
}

/// A page keeps its kind when it is given a new parent.
pub proof fn lemma_reparented_kind(entries: Entries, parent: ObjectId)
    ensures
        kind_of(reparented(entries, parent)) == kind_of(PdfValue::Dictionary(entries)),
{
    lemma_keys_distinct();
}

/// Putting pages into a store that holds no roots leaves it without roots.
pub proof fn lemma_pages_kinds(objects: Map<ObjectId, PdfValue>, pages: Seq<Slot>, parent: ObjectId)
    requires
        forall|id: ObjectId| #[trigger]
            objects.contains_key(id) ==> kind_of(objects[id]) == ObjectKind::Other || kind_of(
                objects[id],
            ) == ObjectKind::Page,
        forall|k: int| 0 <= k < pages.len() ==> kind_of(#[trigger] pages[k].1) == ObjectKind::Page,
    ensures
        forall|id: ObjectId| #[trigger]
            with_pages(objects, pages, parent).contains_key(id) ==> kind_of(
                with_pages(objects, pages, parent)[id],
            ) == ObjectKind::Other || kind_of(with_pages(objects, pages, parent)[id])
                == ObjectKind::Page,
    decreases pages.len(),
{
    if pages.len() > 0 {
        let shorter = pages.drop_last();
        lemma_pages_kinds(objects, shorter, parent);
        match pages.last().1 {
            PdfValue::Dictionary(entries) => {
                lemma_reparented_kind(entries, parent);
            },
            _ => {},
        }
    }
}

/// In the consolidated graph the trailer leads to the catalog, the catalog
/// to the root of the page tree, and the root lists the merged pages: its
/// `Count` is their number and its `Kids` refers to them in order.
pub proof fn law_page_tree(sources: Seq<Source>)
    requires
        consolidated(sources) is Ok,
        renumbering_known(sources),
    ensures
        ({
            let graph = consolidated(sources)->Ok_0;
            let pages = all_pages(renumbered_all(documents_of(sources)));
            &&& graph.pages == slot_ids(pages)
            &&& graph.document.page_tree_entries() matches Some(entries)
            &&& entries.contains_key(count_key())
            &&& entries[count_key()] == PdfValue::Integer(pages.len() as i64)
            &&& entries.contains_key(kids_key())
            &&& entries[kids_key()] == PdfValue::Array(kids_of(slot_ids(pages)))
        }),
{
    lemma_roots_apart(sources);
    lemma_keys_distinct();
}

/// The two roots of a consolidated graph have different identifiers.
pub proof fn lemma_roots_apart(sources: Seq<Source>)
    requires
        consolidated(sources) is Ok,
        renumbering_known(sources),
    ensures
        ({
            let slots = all_objects(renumbered_all(documents_of(sources)));
            root_pages(slots)->Some_0.0 != root_catalog(slots)->Some_0.0
        }),
{
    let documents = documents_of(sources);
    let renumbered = renumbered_all(documents);
    let slots = all_objects(renumbered);
    law_objects_ascending(documents, documents.len() as int);
    assert(renumbered.take(documents.len() as int) =~= renumbered);
    lemma_root_pages(slots);
    lemma_root_catalog(slots);
    let (root, root_entries) = root_pages(slots)->Some_0;
    let found = root_catalog(slots)->Some_0;
    let i = choose|i: int|
        0 <= i < slots.len() && slots[i].0 == root && is_pages_node(slots[i].1);
    let j = choose|j: int|
        0 <= j < slots.len() && slots[j] == found && kind_of(slots[j].1) == ObjectKind::Catalog
            && forall|k: int| 0 <= k < j ==> kind_of(#[trigger] slots[k].1) != ObjectKind::Catalog;
    if i < j {
        assert(id_before(slots[i].0, slots[j].0));
    } else if j < i {
        assert(id_before(slots[j].0, slots[i].0));
    }
}

/// Where every merged page is of the kind of a page, the consolidated graph
/// holds one catalog and one page tree node and no more: the catalog that
/// the trailer leads to, and the root that the catalog leads to.
pub proof fn law_single_roots(sources: Seq<Source>)
    requires
        consolidated(sources) is Ok,
        renumbering_known(sources),
        forall|k: int|
            0 <= k < all_pages(renumbered_all(documents_of(sources))).len() ==> kind_of(
                #[trigger] all_pages(renumbered_all(documents_of(sources)))[k].1,
            ) == ObjectKind::Page,
    ensures
        ({
            let document = consolidated(sources)->Ok_0.document;
            &&& document.catalog_id() matches Some(catalog)
            &&& document.page_tree_root() matches Some(root)
            &&& forall|id: ObjectId| #[trigger]
                document.objects.contains_key(id) ==> (kind_of(document.objects[id])
                    == ObjectKind::Catalog <==> id == catalog)
            &&& forall|id: ObjectId| #[trigger]
                document.objects.contains_key(id) ==> (kind_of(document.objects[id])
                    == ObjectKind::Pages <==> id == root)
            &&& document.objects.contains_key(catalog)
            &&& document.objects.contains_key(root)
        }),
{
    let documents = documents_of(sources);
    let renumbered = renumbered_all(documents);
    let slots = all_objects(renumbered);
    let pages = all_pages(renumbered);
    lemma_roots_apart(sources);
    lemma_keys_distinct();
    lemma_root_pages(slots);
    lemma_root_catalog(slots);
    let (root, root_entries) = root_pages(slots)->Some_0;
    let taken = with_verbatim(Map::empty(), slots);
    lemma_verbatim_kinds(Map::empty(), slots);
    lemma_pages_kinds(taken, pages, root);
}

/// Fewer than two sources are refused, and nothing else is refused for
/// being too few.
pub proof fn law_two_sources_needed(sources: Seq<Source>, compress: bool)
    ensures
        sources.len() < 2 <==> merged(sources, compress) == Err::<DocumentModel, MergeError>(
            MergeError::InsufficientInputs,
        ),
{
}

/// Where no source holds a page tree node, the merge fails for want of a
/// root of the page tree.
pub proof fn law_page_tree_needed(sources: Seq<Source>, compress: bool)
    requires
        sources.len() >= 2,
        numbering_fits(documents_of(sources)),
        forall|i: int|
            0 <= i < all_objects(renumbered_all(documents_of(sources))).len() ==> !is_pages_node(
                #[trigger] all_objects(renumbered_all(documents_of(sources)))[i].1,
            ),
    ensures
        merged(sources, compress) == Err::<DocumentModel, MergeError>(
            MergeError::PagesRootNotFound,
        ),
{
    let slots = all_objects(renumbered_all(documents_of(sources)));
    lemma_root_pages(slots);
}

/// Where the sources hold a page tree node and a catalog, and their
/// catalogs are dictionaries, the sources are consolidated.
pub proof fn law_consolidation_succeeds(sources: Seq<Source>, node: int, catalog: int)
    requires
        sources.len() >= 2,
        numbering_fits(documents_of(sources)),
        all_pages(renumbered_all(documents_of(sources))).len() <= u32::MAX,
        0 <= node < all_objects(renumbered_all(documents_of(sources))).len(),
        is_pages_node(all_objects(renumbered_all(documents_of(sources)))[node].1),
        0 <= catalog < all_objects(renumbered_all(documents_of(sources))).len(),
        kind_of(all_objects(renumbered_all(documents_of(sources)))[catalog].1)
            == ObjectKind::Catalog,
        forall|i: int|
            0 <= i < all_objects(renumbered_all(documents_of(sources))).len() && kind_of(
                #[trigger] all_objects(renumbered_all(documents_of(sources)))[i].1,
            ) == ObjectKind::Catalog ==> all_objects(renumbered_all(documents_of(sources)))[i].1
                is Dictionary,
    ensures
        consolidated(sources) is Ok,
{
    let slots = all_objects(renumbered_all(documents_of(sources)));
    lemma_root_pages(slots);
    lemma_root_catalog(slots);
}

/// One bookmark is staged for each source: its title is the name of the
/// source's file, and it leads to the first of the source's merged pages,
/// or to no page where the source has none.
pub proof fn law_bookmark_per_source(sources: Seq<Source>, index: int)
    requires
        consolidated(sources) is Ok,
        0 <= index < sources.len(),
    ensures
        ({
            let graph = consolidated(sources)->Ok_0;
            let renumbered = renumbered_all(documents_of(sources));
            &&& graph.bookmarks.len() == sources.len()
            &&& graph.bookmarks[index].title == sources[index].filename
            &&& graph.bookmarks[index].page == first_page(renumbered[index])
            &&& pages_of(renumbered[index]).len() > 0 ==> page_offset(renumbered, index)
                < graph.pages.len() && graph.bookmarks[index].page == graph.pages[page_offset(
                renumbered,
                index,
            ) as int]
            &&& pages_of(renumbered[index]).len() == 0 ==> graph.bookmarks[index].page
                == no_page()
        }),
{
    let renumbered = renumbered_all(documents_of(sources));
    law_pages_in_source_order(renumbered, index);
}

/// A place that is found holds what was looked for.
pub proof fn lemma_position_found(ids: Seq<ObjectId>, id: ObjectId)
    ensures
        match position_of(ids, id) {
            Some(place) => 0 <= place < ids.len() && ids[place] == id,
            None => forall|k: int| 0 <= k < ids.len() ==> ids[k] != id,
        },
    decreases ids.len(),
{
    if ids.len() > 0 {
        lemma_position_found(ids.drop_last(), id);
        assert(forall|k: int| 0 <= k < ids.len() - 1 ==> ids.drop_last()[k] == ids[k]);
    }
}

/// Among distinct identifiers each is found at its own place.
pub proof fn lemma_position_of_distinct(ids: Seq<ObjectId>, place: int)
    requires
        0 <= place < ids.len(),
        forall|a: int, b: int| 0 <= a < b < ids.len() ==> ids[a] != ids[b],
    ensures
        position_of(ids, ids[place]) == Some(place),
{
    lemma_position_found(ids, ids[place]);
}

/// In the merged document, before its outline is built, there is one
/// bookmark for each source, in the order of the sources, without children.
/// Its title is the name of the source's file, and it leads to the page that
/// stands where the pages of the source begin, or to no page where the
/// source has none.
pub proof fn law_bookmarks_follow_pages(sources: Seq<Source>, index: int)
    requires
        consolidated(sources) is Ok,
        compacted(consolidated(sources)->Ok_0) is Ok,
        renumbering_known(sources),
        0 <= index < sources.len(),
    ensures
        ({
            let graph = consolidated(sources)->Ok_0;
            let renumbered = renumbered_all(documents_of(sources));
            let marked = marked_of(graph);
            let after = page_sequence(compact_of(graph));
            let bookmark = marked.bookmark_table[marked.bookmarks[index]];
            &&& marked.bookmarks.len() == sources.len()
            &&& marked.bookmark_table.contains_key(marked.bookmarks[index])
            &&& bookmark.title == sources[index].filename
            &&& bookmark.children.len() == 0
            &&& pages_of(renumbered[index]).len() > 0 && page_offset(renumbered, index)
                < after.len() ==> bookmark.page == after[page_offset(renumbered, index) as int]
            &&& pages_of(renumbered[index]).len() == 0 ==> bookmark.page == no_page()
        }),
{
    let documents = documents_of(sources);
    let graph = consolidated(sources)->Ok_0;
    let renumbered = renumbered_all(documents);
    let compact = compact_of(graph);
    let after = page_sequence(compact);
    let moved = retargeted(graph.bookmarks, graph.pages, after);
    law_bookmark_per_source(sources, index);
    law_pages_distinct(documents, documents.len() as int);
    assert(renumbered.take(documents.len() as int) =~= renumbered);
    lemma_bookmarks_of_fresh(compact, moved);
    let pages = all_pages(renumbered);
    if pages_of(renumbered[index]).len() > 0 {
        lemma_position_of_distinct(graph.pages, page_offset(renumbered, index) as int);
    } else {
        lemma_position_found(graph.pages, no_page());
    }
}

/// The root of the merged page tree has the identifier of the first page
/// tree node.
pub proof fn law_root_is_first_node(slots: Seq<Slot>, first: int)
    requires
        0 <= first < slots.len(),
        is_pages_node(slots[first].1),
        forall|j: int| 0 <= j < first ==> !is_pages_node(#[trigger] slots[j].1),
    ensures
        root_pages(slots) matches Some((root, _)) && root == slots[first].0,
    decreases slots.len(),
{
    let shorter = slots.drop_last();
    assert(forall|j: int| 0 <= j < shorter.len() ==> shorter[j] == slots[j]);
    if first < slots.len() - 1 {
        law_root_is_first_node(shorter, first);
    } else {
        lemma_root_pages(shorter);
    }
}

/// First writer wins: of an entry that page tree nodes hold, the root of the
/// merged page tree holds the value of the earliest node that has it.
pub proof fn law_first_writer_wins(slots: Seq<Slot>, key: Key, first: int)
    requires
        0 <= first < slots.len(),
        is_pages_node(slots[first].1),
        slots[first].1->Dictionary_0.contains_key(key),
        forall|j: int|
            0 <= j < first && is_pages_node(#[trigger] slots[j].1)
                ==> !slots[j].1->Dictionary_0.contains_key(key),
    ensures
        root_pages(slots) matches Some((_, entries)) && entries.contains_key(key) && entries[key]
            == slots[first].1->Dictionary_0[key],
    decreases slots.len(),
{
    let shorter = slots.drop_last();
    assert(forall|j: int| 0 <= j < shorter.len() ==> shorter[j] == slots[j]);
    if first < slots.len() - 1 {
        law_first_writer_wins(shorter, key, first);
    } else {
        lemma_root_entries(shorter, key);
    }
}

/// The root of the merged page tree holds no entry but those of the page
/// tree nodes.
pub proof fn lemma_root_entries(slots: Seq<Slot>, key: Key)
    ensures
        root_pages(slots) matches Some((_, entries)) && entries.contains_key(key) ==> exists|
            i: int,
        |
            0 <= i < slots.len() && is_pages_node(#[trigger] slots[i].1)
                && slots[i].1->Dictionary_0.contains_key(key),
    decreases slots.len(),
{
    if slots.len() > 0 {
        let shorter = slots.drop_last();
        lemma_root_entries(shorter, key);
        assert(forall|j: int| 0 <= j < shorter.len() ==> shorter[j] == slots[j]);
        if root_pages(slots) matches Some((_, entries)) && entries.contains_key(key) {
            if is_pages_node(slots.last().1) && slots.last().1->Dictionary_0.contains_key(key) {
                assert(is_pages_node(slots[slots.len() - 1].1));
            } else {
                let i = choose|i: int|
                    0 <= i < shorter.len() && is_pages_node(#[trigger] shorter[i].1)
                        && shorter[i].1->Dictionary_0.contains_key(key);
                assert(is_pages_node(slots[i].1));
            }
        }
    }
}

/// What is taken as it is: an accumulated object of no structural kind is
/// in the store under its identifier, with its value, where no later
/// object has that identifier.
pub proof fn law_verbatim_taken(objects: Map<ObjectId, PdfValue>, slots: Seq<Slot>, index: int)
    requires
        0 <= index < slots.len(),
        kind_of(slots[index].1) == ObjectKind::Other,
        forall|j: int| index < j < slots.len() ==> (#[trigger] slots[j]).0 != slots[index].0,
    ensures
        with_verbatim(objects, slots).contains_key(slots[index].0),
        with_verbatim(objects, slots)[slots[index].0] == slots[index].1,
    decreases slots.len(),
{
    let shorter = slots.drop_last();
    if index < slots.len() - 1 {
        assert(forall|j: int| 0 <= j < shorter.len() ==> shorter[j] == slots[j]);
        law_verbatim_taken(objects, shorter, index);
        assert(slots[slots.len() - 1].0 != slots[index].0);
    }
}

/// Nothing else is taken: under an identifier that no accumulated object of
/// no structural kind has, the store holds what it held.
pub proof fn law_verbatim_rest(objects: Map<ObjectId, PdfValue>, slots: Seq<Slot>, id: ObjectId)
    requires
        forall|i: int|
            0 <= i < slots.len() && kind_of(slots[i].1) == ObjectKind::Other ==> (
            #[trigger] slots[i]).0 != id,
    ensures
        with_verbatim(objects, slots).contains_key(id) == objects.contains_key(id),
        objects.contains_key(id) ==> with_verbatim(objects, slots)[id] == objects[id],
    decreases slots.len(),
{
    if slots.len() > 0 {
        let shorter = slots.drop_last();
        assert(forall|j: int| 0 <= j < shorter.len() ==> shorter[j] == slots[j]);
        law_verbatim_rest(objects, shorter, id);
        if kind_of(slots.last().1) == ObjectKind::Other {
            assert(slots[slots.len() - 1].0 != id);
        }
    }
}

/// What is put under the root: a page that is a dictionary is in the store
/// under its identifier, with `parent` as its `Parent` and its other
/// entries as they were, where no later page has that identifier.
pub proof fn law_page_reparented(
    objects: Map<ObjectId, PdfValue>,
    pages: Seq<Slot>,
    parent: ObjectId,
    index: int,
)
    requires
        0 <= index < pages.len(),
        pages[index].1 is Dictionary,
        forall|j: int| index < j < pages.len() ==> (#[trigger] pages[j]).0 != pages[index].0,
    ensures
        with_pages(objects, pages, parent).contains_key(pages[index].0),
        with_pages(objects, pages, parent)[pages[index].0] == reparented(
            pages[index].1->Dictionary_0,
            parent,
        ),
    decreases pages.len(),
{
    let shorter = pages.drop_last();
    if index < pages.len() - 1 {
        assert(forall|j: int| 0 <= j < shorter.len() ==> shorter[j] == pages[j]);
        law_page_reparented(objects, shorter, parent, index);
        assert(pages[pages.len() - 1].0 != pages[index].0);
    }
}

/// No other page is put under the root: under an identifier that no page
/// that is a dictionary has, the store holds what it held.
pub proof fn law_pages_rest(
    objects: Map<ObjectId, PdfValue>,
    pages: Seq<Slot>,
    parent: ObjectId,
    id: ObjectId,
)
    requires
        forall|i: int|
            0 <= i < pages.len() && pages[i].1 is Dictionary ==> (#[trigger] pages[i]).0 != id,
    ensures
        with_pages(objects, pages, parent).contains_key(id) == objects.contains_key(id),
        objects.contains_key(id) ==> with_pages(objects, pages, parent)[id] == objects[id],
    decreases pages.len(),
{
    if pages.len() > 0 {
        let shorter = pages.drop_last();
        assert(forall|j: int| 0 <= j < shorter.len() ==> shorter[j] == pages[j]);
        law_pages_rest(objects, shorter, parent, id);
        if pages.last().1 is Dictionary {
            assert(pages[pages.len() - 1].0 != id);
        }
    }
}

/// The merged document has as many pages as were merged: those of the first
/// source, then those of the second, and so on, one for each. Its pages are
/// those that the compacted graph had, in their order.
pub proof fn law_output_pages(sources: Seq<Source>, compress: bool)
    requires
        merged(sources, compress) is Ok,
    ensures
        ({
            let renumbered = renumbered_all(documents_of(sources));
            let document = merged(sources, compress)->Ok_0;
            &&& page_sequence(document).len() == all_pages(renumbered).len()
            &&& page_sequence(document).len() == page_offset(renumbered, sources.len() as int)
            &&& page_sequence(document) == page_sequence(
                compact_of(consolidated(sources)->Ok_0),
            )
        }),
{
    let renumbered = renumbered_all(documents_of(sources));
    assert(renumbered.take(sources.len() as int) =~= renumbered);
}

/// The merged document holds one bookmark for each source, in the order of
/// the sources, without children. Its title is the name of the source's
/// file, and it leads to the page of the merged document that stands where
/// the pages of the source begin, or to no page where the source has none.
pub proof fn law_output_bookmarks(sources: Seq<Source>, compress: bool, index: int)
    requires
        merged(sources, compress) is Ok,
        renumbering_known(sources),
        finishing_known(consolidated(sources)->Ok_0, compress),
        0 <= index < sources.len(),
    ensures
        ({
            let renumbered = renumbered_all(documents_of(sources));
            let document = merged(sources, compress)->Ok_0;
            let bookmark = document.bookmark_table[document.bookmarks[index]];
            &&& document.bookmarks.len() == sources.len()
            &&& document.bookmark_table.contains_key(document.bookmarks[index])
            &&& bookmark.title == sources[index].filename
            &&& bookmark.children.len() == 0
            &&& pages_of(renumbered[index]).len() > 0 ==> page_offset(renumbered, index)
                < page_sequence(document).len() && bookmark.page == page_sequence(
                document,
            )[page_offset(renumbered, index) as int]
            &&& pages_of(renumbered[index]).len() == 0 ==> bookmark.page == no_page()
        }),
{
    law_bookmarks_follow_pages(sources, index);
    law_bookmark_per_source(sources, index);
    law_output_pages(sources, compress);
}

/// The merged document holds exactly one catalog and exactly one page tree
/// node: its trailer leads to a catalog, and the catalog to a page tree
/// node, which every page that is a dictionary names as its parent.
pub proof fn law_output_roots(sources: Seq<Source>, compress: bool)
    requires
        merged(sources, compress) is Ok,
    ensures
        roots_in_place(merged(sources, compress)->Ok_0),
        pages_in_place(merged(sources, compress)->Ok_0),
        holds_one(merged(sources, compress)->Ok_0.objects, ObjectKind::Catalog),
        holds_one(merged(sources, compress)->Ok_0.objects, ObjectKind::Pages),
{
    law_single_roots_held(merged(sources, compress)->Ok_0);
}

/// The outline of the merged document has one entry for each source, in
/// the order of the sources and without children. The entry of a source
/// leads to the page of the merged document that stands where the pages of
/// the source begin, or to no page where the source has none.
pub proof fn law_output_outline(sources: Seq<Source>, compress: bool, index: int)
    requires
        merged(sources, compress) is Ok,
        renumbering_known(sources),
        0 <= index < sources.len(),
    ensures
        ({
            let renumbered = renumbered_all(documents_of(sources));
            let document = merged(sources, compress)->Ok_0;
            let targets = moved_targets(consolidated(sources)->Ok_0);
            &&& outline_in_place(document, targets)
            &&& targets.len() == sources.len()
            &&& pages_of(renumbered[index]).len() > 0 ==> page_offset(renumbered, index)
                < page_sequence(document).len() && targets[index] == page_sequence(
                document,
            )[page_offset(renumbered, index) as int]
            &&& pages_of(renumbered[index]).len() == 0 ==> targets[index] == no_page()
        }),
{
    let documents = documents_of(sources);
    let graph = consolidated(sources)->Ok_0;
    let renumbered = renumbered_all(documents);
    let pages = all_pages(renumbered);
    law_bookmark_per_source(sources, index);
    law_pages_distinct(documents, documents.len() as int);
    law_output_pages(sources, compress);
    assert(renumbered.take(documents.len() as int) =~= renumbered);
    assert(forall|a: int| 0 <= a < pages.len() ==> graph.pages[a] == pages[a].0);
    if pages_of(renumbered[index]).len() > 0 {
        lemma_position_of_distinct(graph.pages, page_offset(renumbered, index) as int);
    } else {
        lemma_position_found(graph.pages, no_page());
        if position_of(graph.pages, no_page()) is Some {
            assert(1 <= pages[position_of(graph.pages, no_page())->Some_0].0.0);
        }
    }
}

} // verus!
