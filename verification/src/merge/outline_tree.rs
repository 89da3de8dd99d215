//! The outline of a finished document, walked once more: the catalog must
//! lead to an outline whose entries, one after the other and without
//! children, lead to the pages that the bookmarks were pointed at.

use vstd::prelude::*;
use vstd::string::StringSliceAdditionalSpecFns;
use crate::adapter::{
    dictionary_entries, dictionary_get, document_fetch, document_model, document_trailer,
    into_dictionary, object_array, object_reference,
};
use crate::bookmark::{staged_of, Bookmark, Staged};
use crate::model::{
    outlines_key, resolve, root_key, DocumentModel, Entries, Key, ObjectId, PdfValue,
};

verus! {

pub open spec fn first_key() -> Key {
    "First".spec_bytes()
}

pub open spec fn next_key() -> Key {
    "Next".spec_bytes()
}

pub open spec fn action_key() -> Key {
    "A".spec_bytes()
}

pub open spec fn destination_key() -> Key {
    "D".spec_bytes()
}

/// The dictionary that `id` stands for, if it stands for one.
pub open spec fn dictionary_at(objects: Map<ObjectId, PdfValue>, id: ObjectId) -> Option<Entries> {
    match resolve(objects, id) {
        Some(PdfValue::Dictionary(entries)) => Some(entries),
        _ => None,
    }
}

/// The identifier that the entry under `key` refers to, if it is a reference.
pub open spec fn reference_under(entries: Entries, key: Key) -> Option<ObjectId> {
    if entries.contains_key(key) {
        match entries[key] {
            PdfValue::Reference(id) => Some(id),
            _ => None,
        }
    } else {
        None
    }
}

/// The page that an action leads to: its `D` is an array that begins with
/// a reference to the page.
pub open spec fn action_target(action: Entries) -> Option<ObjectId> {
    if action.contains_key(destination_key()) {
        match action[destination_key()] {
            PdfValue::Array(items) => if items.len() > 0 {
                match items[0] {
                    PdfValue::Reference(page) => Some(page),
                    _ => None,
                }
            } else {
                None
            },
            _ => None,
        }
    } else {
        None
    }
}

/// The page that an entry of the outline leads to: the entry has no
/// children, and its `A` refers to an action that leads to the page.
pub open spec fn entry_target(objects: Map<ObjectId, PdfValue>, entry: Entries) -> Option<
    ObjectId,
> {
    if entry.contains_key(first_key()) {
        None
    } else {
        match reference_under(entry, action_key()) {
            Some(action) => match dictionary_at(objects, action) {
                Some(held) => action_target(held),
                None => None,
            },
            None => None,
        }
    }
}

/// The entries of the outline from the one under `at` on lead to the given
/// pages, one each and in order, and there is no entry after them.
pub open spec fn entries_lead_to(
    objects: Map<ObjectId, PdfValue>,
    at: ObjectId,
    targets: Seq<ObjectId>,
) -> bool
    decreases targets.len(),
{
    targets.len() > 0 && match dictionary_at(objects, at) {
        Some(entry) => entry_target(objects, entry) == Some(targets[0]) && if targets.len() == 1 {
            !entry.contains_key(next_key())
        } else {
            match reference_under(entry, next_key()) {
                Some(next) => entries_lead_to(objects, next, targets.drop_first()),
                None => false,
            }
        },
        None => false,
    }
}

/// The dictionary of the catalog that the trailer's `Root` leads to.
pub open spec fn placed_catalog(document: DocumentModel) -> Option<Entries> {
    match reference_under(document.trailer, root_key()) {
        Some(catalog) => dictionary_at(document.objects, catalog),
        None => None,
    }
}

/// The first entry of the outline that the catalog leads to.
pub open spec fn first_entry(document: DocumentModel) -> Option<ObjectId> {
    match placed_catalog(document) {
        Some(catalog) => match reference_under(catalog, outlines_key()) {
            Some(outline) => match dictionary_at(document.objects, outline) {
                Some(held) => reference_under(held, first_key()),
                None => None,
            },
            None => None,
        },
        None => None,
    }
}

/// Where there are pages to lead to, the catalog leads to an outline whose
/// entries lead to them, one each and in order, without children.
pub open spec fn outline_in_place(document: DocumentModel, targets: Seq<ObjectId>) -> bool {
    targets.len() == 0 || match first_entry(document) {
        Some(first) => entries_lead_to(document.objects, first, targets),
        None => false,
    }
}

/// The pages that staged bookmarks lead to, in order.
pub open spec fn targets_of(staged: Seq<Staged>) -> Seq<ObjectId> {
    Seq::new(staged.len(), |i: int| staged[i].page)
}

/// The pages that the bookmarks lead to, in order.
pub fn bookmark_targets(bookmarks: &Vec<Bookmark>) -> (targets: Vec<ObjectId>)
    ensures
        targets@ == targets_of(staged_of(bookmarks@)),
{
    let mut targets: Vec<ObjectId> = Vec::new();
    let mut at: usize = 0;
    while at < bookmarks.len()
        invariant
            at <= bookmarks.len(),
            targets.len() == at,
            forall|i: int| 0 <= i < at ==> targets@[i] == (#[trigger] bookmarks@[i]).page,
        decreases bookmarks.len() - at,
    {
        targets.push(bookmarks[at].page);
        at = at + 1;
    }
    assert(targets@ =~= targets_of(staged_of(bookmarks@)));
    targets
}

/// The dictionary that `id` stands for in the document, if it stands for one.
pub fn fetch_dictionary(document: &lopdf::Document, id: ObjectId) -> (found: Option<
    lopdf::Dictionary,
>)
    ensures
        match found {
            Some(dictionary) => dictionary_at(document_model(*document).objects, id) == Some(
                dictionary_entries(dictionary),
            ),
            None => dictionary_at(document_model(*document).objects, id) is None,
        },
{
    match document_fetch(document, id) {
        Some(object) => match into_dictionary(object) {
            Ok(dictionary) => Some(dictionary),
            Err(_) => None,
        },
        None => None,
    }
}

/// The identifier that the entry under `key` refers to, if it is a reference.
pub fn reference_in(dictionary: &lopdf::Dictionary, key: &[u8]) -> (target: Option<ObjectId>)
    ensures
        target == reference_under(dictionary_entries(*dictionary), key@),
{
    match dictionary_get(dictionary, key) {
        Some(entry) => object_reference(entry),
        None => None,
    }
}

/// The page that an entry of the outline leads to.
pub fn target_of(document: &lopdf::Document, entry: &lopdf::Dictionary) -> (page: Option<ObjectId>)
    ensures
        page == entry_target(document_model(*document).objects, dictionary_entries(*entry)),
{
    if dictionary_get(entry, "First".as_bytes()).is_some() {
        return None;
    }
    let action = match reference_in(entry, "A".as_bytes()) {
        Some(id) => match fetch_dictionary(document, id) {
            Some(held) => held,
            None => {
                return None;
            },
        },
        None => {
            return None;
        },
    };
    match dictionary_get(&action, "D".as_bytes()) {
        Some(destination) => match object_array(destination) {
            Some(items) => if items.len() > 0 {
                object_reference(&items[0])
            } else {
                None
            },
            None => None,
        },
        None => None,
    }
}

/// The first entry of the outline that the catalog leads to.
pub fn find_first_entry(document: &lopdf::Document) -> (first: Option<ObjectId>)
    ensures
        first == first_entry(document_model(*document)),
{
    let catalog = match reference_in(document_trailer(document), "Root".as_bytes()) {
        Some(id) => match fetch_dictionary(document, id) {
            Some(held) => held,
            None => {
                return None;
            },
        },
        None => {
            return None;
        },
    };
    let outline = match reference_in(&catalog, "Outlines".as_bytes()) {
        Some(id) => match fetch_dictionary(document, id) {
            Some(held) => held,
            None => {
                return None;
            },
        },
        None => {
            return None;
        },
    };
    reference_in(&outline, "First".as_bytes())
}

/// Whether the outline of the document leads to the given pages, one entry
/// each and in order, without children.
pub fn outline_leads_to(document: &lopdf::Document, targets: &Vec<ObjectId>) -> (placed: bool)
    ensures
        placed == outline_in_place(document_model(*document), targets@),
{
    if targets.len() == 0 {
        return true;
    }
    let first = match find_first_entry(document) {
        Some(first) => first,
        None => {
            return false;
        },
    };
    let ghost objects = document_model(*document).objects;
    let mut current = first;
    let mut at: usize = 0;
    assert(targets@.skip(0) =~= targets@);
    while at < targets.len()
        invariant
            at < targets.len(),
            objects == document_model(*document).objects,
            first_entry(document_model(*document)) == Some(first),
            entries_lead_to(objects, first, targets@) == entries_lead_to(
                objects,
                current,
                targets@.skip(at as int),
            ),
        decreases targets.len() - at,
    {
        let ghost rest = targets@.skip(at as int);
        assert(rest[0] == targets@[at as int]);
        assert(rest.drop_first() =~= targets@.skip(at + 1));
        let entry = match fetch_dictionary(document, current) {
            Some(entry) => entry,
            None => {
                return false;
            },
        };
        match target_of(document, &entry) {
            Some(page) => {
                if page.0 != targets[at].0 || page.1 != targets[at].1 {
                    return false;
                }
            },
            None => {
                return false;
            },
        }
        if at + 1 == targets.len() {
            return dictionary_get(&entry, "Next".as_bytes()).is_none();
        }
        current = match reference_in(&entry, "Next".as_bytes()) {
            Some(next) => next,
            None => {
                return false;
            },
        };
        at = at + 1;
    }
    false
}

} // verus!
