//! The roots of a finished document, looked at once more: the trailer must
//! lead to a catalog, the catalog to a page tree node, and there must be no
//! other catalog and no other page tree node.

use vstd::prelude::*;
use crate::adapter::{
    dictionary_get, document_fetch, document_model, document_object_refs, document_page_ids,
    document_trailer, into_dictionary, object_reference, object_value, page_sequence, refs_list,
};
use crate::merge::kind::{kind_of, ObjectKind};
use crate::merge::object_kind;
use crate::model::{
    ascending_listing, lists_ascending, pages_key, parent_key, resolve, root_key, DocumentModel,
    ObjectId, PdfValue, Slot,
};
use crate::model_lemmas::lemma_listing_unique;

verus! {

/// How many of the slots hold an object of `kind`.
pub open spec fn kind_count(slots: Seq<Slot>, kind: ObjectKind) -> nat
    decreases slots.len(),
{
    if slots.len() == 0 {
        0
    } else if kind_of(slots.last().1) == kind {
        kind_count(slots.drop_last(), kind) + 1
    } else {
        kind_count(slots.drop_last(), kind)
    }
}

/// A store holds exactly one object of `kind`.
pub open spec fn holds_one(objects: Map<ObjectId, PdfValue>, kind: ObjectKind) -> bool {
    exists|id: ObjectId|
        #![trigger objects.contains_key(id)]
        objects.contains_key(id) && kind_of(objects[id]) == kind && forall|other: ObjectId|
            #[trigger] objects.contains_key(other) && kind_of(objects[other]) == kind ==> other
                == id
}

/// The objects of a document can be listed, and one of them is a catalog
/// and one a page tree node.
pub open spec fn single_roots(document: DocumentModel) -> bool {
    &&& lists_ascending(ascending_listing(document.objects), document.objects)
    &&& kind_count(ascending_listing(document.objects), ObjectKind::Catalog) == 1
    &&& kind_count(ascending_listing(document.objects), ObjectKind::Pages) == 1
}

/// The page tree node that the document leads to: the trailer's `Root`
/// leads to a catalog that is a dictionary, and the catalog's `Pages` to a
/// page tree node.
pub open spec fn placed_root(document: DocumentModel) -> Option<ObjectId> {
    if document.trailer.contains_key(root_key()) {
        match document.trailer[root_key()] {
            PdfValue::Reference(catalog) => match resolve(document.objects, catalog) {
                Some(PdfValue::Dictionary(entries)) => if kind_of(PdfValue::Dictionary(entries))
                    == ObjectKind::Catalog && entries.contains_key(pages_key()) {
                    match entries[pages_key()] {
                        PdfValue::Reference(root) => match resolve(document.objects, root) {
                            Some(node) => if kind_of(node) == ObjectKind::Pages {
                                Some(root)
                            } else {
                                None
                            },
                            None => None,
                        },
                        _ => None,
                    }
                } else {
                    None
                },
                _ => None,
            },
            _ => None,
        }
    } else {
        None
    }
}

/// The trailer leads to a catalog and the catalog to a page tree node.
pub open spec fn roots_in_place(document: DocumentModel) -> bool {
    placed_root(document) is Some
}

/// A page that is a dictionary names `root` as its `Parent`.
pub open spec fn page_under(
    objects: Map<ObjectId, PdfValue>,
    page: ObjectId,
    root: ObjectId,
) -> bool {
    resolve(objects, page) matches Some(PdfValue::Dictionary(entries)) ==> entries.contains_key(
        parent_key(),
    ) && entries[parent_key()] == PdfValue::Reference(root)
}

/// Every one of the pages that is a dictionary names `root` as its `Parent`.
pub open spec fn pages_under(
    objects: Map<ObjectId, PdfValue>,
    pages: Seq<ObjectId>,
    root: ObjectId,
) -> bool {
    forall|i: int| 0 <= i < pages.len() ==> page_under(objects, #[trigger] pages[i], root)
}

/// The pages of the document stand under the page tree node that the
/// document leads to.
pub open spec fn pages_in_place(document: DocumentModel) -> bool {
    placed_root(document) matches Some(root) && pages_under(
        document.objects,
        page_sequence(document),
        root,
    )
}

/// Slots of which as many are of a kind as is counted: none where none is
/// counted, and one only where one is counted.
pub proof fn lemma_kind_count(slots: Seq<Slot>, kind: ObjectKind)
    ensures
        kind_count(slots, kind) == 0 ==> forall|i: int|
            0 <= i < slots.len() ==> kind_of(#[trigger] slots[i].1) != kind,
        kind_count(slots, kind) == 1 ==> exists|i: int|
            #![trigger slots[i]]
            0 <= i < slots.len() && kind_of(slots[i].1) == kind && forall|j: int|
                0 <= j < slots.len() && kind_of(#[trigger] slots[j].1) == kind ==> j == i,
    decreases slots.len(),
{
    if slots.len() > 0 {
        let shorter = slots.drop_last();
        lemma_kind_count(shorter, kind);
        assert(forall|j: int| 0 <= j < shorter.len() ==> shorter[j] == slots[j]);
        if kind_count(slots, kind) == 1 {
            if kind_of(slots.last().1) == kind {
                let i = slots.len() - 1;
                assert(kind_of(slots[i].1) == kind);
                assert forall|j: int|
                    0 <= j < slots.len() && kind_of(#[trigger] slots[j].1) == kind implies j
                    == i by {
                    if j < i {
                        assert(kind_of(shorter[j].1) != kind);
                    }
                }
            } else {
                let i = choose|i: int|
                    #![trigger shorter[i]]
                    0 <= i < shorter.len() && kind_of(shorter[i].1) == kind && forall|j: int|
                        0 <= j < shorter.len() && kind_of(#[trigger] shorter[j].1) == kind ==> j
                            == i;
                assert(kind_of(slots[i].1) == kind);
                assert forall|j: int|
                    0 <= j < slots.len() && kind_of(#[trigger] slots[j].1) == kind implies j
                    == i by {
                    if j < shorter.len() {
                        assert(kind_of(shorter[j].1) == kind);
                    }
                }
            }
        } else if kind_count(slots, kind) == 0 {
            assert forall|i: int| 0 <= i < slots.len() implies kind_of(#[trigger] slots[i].1)
                != kind by {
                if i < shorter.len() {
                    assert(kind_of(shorter[i].1) != kind);
                }
            }
        }
    }
}

/// A document with single roots holds exactly one catalog and exactly one
/// page tree node.
pub proof fn law_single_roots_held(document: DocumentModel)
    requires
        single_roots(document),
    ensures
        holds_one(document.objects, ObjectKind::Catalog),
        holds_one(document.objects, ObjectKind::Pages),
{
    lemma_one_of_kind(document.objects, ObjectKind::Catalog);
    lemma_one_of_kind(document.objects, ObjectKind::Pages);
}

/// A store of whose listed objects one is of a kind holds exactly one of
/// that kind.
pub proof fn lemma_one_of_kind(objects: Map<ObjectId, PdfValue>, kind: ObjectKind)
    requires
        lists_ascending(ascending_listing(objects), objects),
        kind_count(ascending_listing(objects), kind) == 1,
    ensures
        holds_one(objects, kind),
{
    let slots = ascending_listing(objects);
    lemma_kind_count(slots, kind);
    let i = choose|i: int|
        #![trigger slots[i]]
        0 <= i < slots.len() && kind_of(slots[i].1) == kind && forall|j: int|
            0 <= j < slots.len() && kind_of(#[trigger] slots[j].1) == kind ==> j == i;
    let id = slots[i].0;
    assert(objects.contains_key(slots[i].0));
    assert forall|other: ObjectId|
        #[trigger] objects.contains_key(other) && kind_of(objects[other]) == kind implies other
        == id by {
        let j = choose|j: int| 0 <= j < slots.len() && slots[j].0 == other;
        assert(objects.contains_key(slots[j].0));
        assert(kind_of(slots[j].1) == kind);
    }
}

/// The slots that listed objects stand for, under any identifiers: only
/// their values count.
pub open spec fn counted(refs: Seq<&lopdf::Object>, kind: ObjectKind) -> nat
    decreases refs.len(),
{
    if refs.len() == 0 {
        0
    } else if kind_of(object_value(*refs.last())) == kind {
        counted(refs.drop_last(), kind) + 1
    } else {
        counted(refs.drop_last(), kind)
    }
}

/// Objects and slots with the same values hold as many of a kind.
proof fn lemma_counted(refs: Seq<&lopdf::Object>, slots: Seq<Slot>, kind: ObjectKind)
    requires
        slots.len() == refs.len(),
        forall|i: int| 0 <= i < refs.len() ==> (#[trigger] slots[i]).1 == object_value(*refs[i]),
    ensures
        counted(refs, kind) == kind_count(slots, kind),
    decreases refs.len(),
{
    if refs.len() > 0 {
        assert(slots[slots.len() - 1].1 == object_value(*refs[refs.len() - 1]));
        assert(forall|i: int|
            0 <= i < refs.len() - 1 ==> (#[trigger] slots.drop_last()[i]) == slots[i]);
        lemma_counted(refs.drop_last(), slots.drop_last(), kind);
    }
}

/// Whether the document holds exactly one catalog and exactly one page tree
/// node.
pub fn has_single_roots(document: &lopdf::Document) -> (single: bool)
    ensures
        single == single_roots(document_model(*document)),
{
    let objects = document_object_refs(document);
    let mut catalogs: usize = 0;
    let mut nodes: usize = 0;
    let mut at: usize = 0;
    while at < objects.len()
        invariant
            at <= objects.len(),
            catalogs <= at,
            nodes <= at,
            catalogs == counted(objects@.take(at as int), ObjectKind::Catalog),
            nodes == counted(objects@.take(at as int), ObjectKind::Pages),
        decreases objects.len() - at,
    {
        proof {
            assert(objects@.take(at + 1).drop_last() =~= objects@.take(at as int));
        }
        match object_kind(objects[at]) {
            ObjectKind::Catalog => {
                catalogs = catalogs + 1;
            },
            ObjectKind::Pages => {
                nodes = nodes + 1;
            },
            _ => {},
        }
        at = at + 1;
    }
    proof {
        assert(objects@.take(objects.len() as int) =~= objects@);
        let stored = document_model(*document).objects;
        let slots = choose|slots: Seq<Slot>|
            #![trigger lists_ascending(slots, stored)]
            lists_ascending(slots, stored) && slots.len() == objects@.len() && forall|i: int|
                0 <= i < objects@.len() ==> (#[trigger] slots[i]).1 == object_value(*objects@[i]);
        assert(refs_list(objects@, stored));
        lemma_listing_unique(slots, ascending_listing(stored), stored);
        lemma_counted(objects@, slots, ObjectKind::Catalog);
        lemma_counted(objects@, slots, ObjectKind::Pages);
    }
    catalogs == 1 && nodes == 1
}

/// The page tree node that the document leads to from its trailer by way
/// of its catalog.
pub fn find_placed_root(document: &lopdf::Document) -> (found: Option<ObjectId>)
    ensures
        found == placed_root(document_model(*document)),
{
    let catalog_id = match dictionary_get(document_trailer(document), "Root".as_bytes()) {
        Some(entry) => match object_reference(entry) {
            Some(id) => id,
            None => {
                return None;
            },
        },
        None => {
            return None;
        },
    };
    let catalog_object = match document_fetch(document, catalog_id) {
        Some(object) => object,
        None => {
            return None;
        },
    };
    match object_kind(&catalog_object) {
        ObjectKind::Catalog => {},
        _ => {
            return None;
        },
    }
    let catalog = match into_dictionary(catalog_object) {
        Ok(dictionary) => dictionary,
        Err(_) => {
            return None;
        },
    };
    let root_id = match dictionary_get(&catalog, "Pages".as_bytes()) {
        Some(entry) => match object_reference(entry) {
            Some(id) => id,
            None => {
                return None;
            },
        },
        None => {
            return None;
        },
    };
    match document_fetch(document, root_id) {
        Some(node) => match object_kind(&node) {
            ObjectKind::Pages => Some(root_id),
            _ => None,
        },
        None => None,
    }
}

/// Whether the pages of the document stand under the page tree node that
/// the document leads to.
pub fn has_pages_in_place(document: &lopdf::Document) -> (placed: bool)
    ensures
        placed == pages_in_place(document_model(*document)),
{
    let root = match find_placed_root(document) {
        Some(root) => root,
        None => {
            return false;
        },
    };
    let pages = document_page_ids(document);
    let mut at: usize = 0;
    while at < pages.len()
        invariant
            at <= pages.len(),
            pages@ == page_sequence(document_model(*document)),
            placed_root(document_model(*document)) == Some(root),
            forall|i: int|
                0 <= i < at ==> page_under(
                    document_model(*document).objects,
                    #[trigger] pages@[i],
                    root,
                ),
        decreases pages.len() - at,
    {
        match document_fetch(document, pages[at]) {
            Some(page) => match into_dictionary(page) {
                Ok(entries) => {
                    let under = match dictionary_get(&entries, "Parent".as_bytes()) {
                        Some(parent) => match object_reference(parent) {
                            Some(id) => id.0 == root.0 && id.1 == root.1,
                            None => false,
                        },
                        None => false,
                    };
                    if !under {
                        assert(!page_under(
                            document_model(*document).objects,
                            pages@[at as int],
                            root,
                        ));
                        return false;
                    }
                },
                Err(_) => {},
            },
            None => {},
        }
        at = at + 1;
    }
    true
}

} // verus!
