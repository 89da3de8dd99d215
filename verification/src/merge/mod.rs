//! The merge engine: it renumbers the sources, accumulates their objects and
//! pages, picks the roots and consolidates everything into one document.

pub mod kind;
pub mod graph;
pub mod dictionary;
pub mod outline;
pub mod outline_tree;
pub mod roots;
pub mod loader;
pub mod loaded;
pub mod options;
pub mod laws;

use vstd::prelude::*;
pub use crate::merge::dictionary::overlay;
pub use crate::merge::loaded::LoadedDocument;
pub use crate::merge::options::FileSystemOptions;
pub use crate::merge::outline::{position_of_page, retarget, same_pages};
use crate::adapter::{
    array_object, dictionary_entries, dictionary_object, dictionary_remove, dictionary_set,
    document_adjust_zero_pages, document_build_outline, document_catalog_mut, document_compress,
    document_insert, document_max_id, document_model, document_object_count, document_page_ids,
    document_renumber, document_set_max_id, document_trailer_mut, integer_object, into_dictionary,
    new_document, object_declared_type, object_value, page_sequence, reference_object,
    renumbering_facts, renumbering_fits, slots_of, values_of,
};
use crate::bookmark::{staged_of, Bookmark};
use crate::error::MergeError;
use crate::merge::graph::{
    all_objects, all_pages, compaction_known, consolidated, documents_of, finished, finishing_known,
    first_free_id, kids_of, merged, moved_targets, numbering_fits, numbering_known, reconciled,
    renumbered_all, renumbered_at, renumbering_known, root_catalog, root_pages, staged_bookmarks,
    with_pages, with_verbatim, Consolidated,
};
use crate::merge::kind::{classify, kind_of, ObjectKind};
use crate::merge::loader::{sources_of, MergableDocument};
use crate::merge::outline::{add_bookmarks, lemma_bookmarks_of_fresh};
use crate::merge::outline_tree::{bookmark_targets, outline_in_place, outline_leads_to};
use crate::merge::roots::{has_pages_in_place, has_single_roots, pages_in_place, single_roots};
use crate::model::{slot_ids, DocumentModel, Entries, ObjectId, Slot};

verus! {
/// The two roots that the classification pass picks.
pub struct ProcessedObjects {
    /// The root of the merged page tree: its identifier and its dictionary.
    pub root_page_object: (ObjectId, lopdf::Dictionary),
    /// The catalog of the merged document: its identifier and its object.
    pub root_catalog_object: (ObjectId, lopdf::Object),
}

impl ProcessedObjects {
    /// The root of the merged page tree, by what it holds.
    pub open spec fn root_page(&self) -> (ObjectId, Entries) {
        (self.root_page_object.0, dictionary_entries(self.root_page_object.1))
    }

    /// The catalog of the merged document, by what it holds.
    pub open spec fn root_catalog(&self) -> Slot {
        (self.root_catalog_object.0, object_value(self.root_catalog_object.1))
    }
}

/// What is held of the root of the page tree while the objects are visited.
pub open spec fn page_root_of(held: Option<(ObjectId, lopdf::Dictionary)>) -> Option<
    (ObjectId, Entries),
> {
    match held {
        Some((id, dictionary)) => Some((id, dictionary_entries(dictionary))),
        None => None,
    }
}

/// What is held of the catalog while the objects are visited.
pub open spec fn catalog_of(held: Option<(ObjectId, lopdf::Object)>) -> Option<Slot> {
    match held {
        Some((id, object)) => Some((id, object_value(object))),
        None => None,
    }
}

/// The kind of an object.
pub fn object_kind(object: &lopdf::Object) -> (kind: ObjectKind)
    ensures
        kind == kind_of(object_value(*object)),
{
    match object_declared_type(object) {
        Some(name) => classify(name.as_slice()),
        None => ObjectKind::Other,
    }
}

/// The classification pass. It visits the objects in the given order: the
/// first catalog becomes the catalog of the merged document, the page tree
/// nodes are folded into one root, pages and outline objects are passed
/// over, and every other object goes into the document as it is.
pub fn process_documents_objects(
    document: &mut lopdf::Document,
    objects: Vec<(ObjectId, lopdf::Object)>,
) -> (outcome: Result<ProcessedObjects, MergeError>)
    ensures
        document_model(*final(document)) == (DocumentModel {
            objects: with_verbatim(document_model(*old(document)).objects, slots_of(objects@)),
            ..document_model(*old(document))
        }),
        match outcome {
            Ok(roots) => root_pages(slots_of(objects@)) == Some(roots.root_page()) && root_catalog(
                slots_of(objects@),
            ) == Some(roots.root_catalog()),
            Err(error) => if root_pages(slots_of(objects@)) is None {
                error == MergeError::PagesRootNotFound
            } else {
                error == MergeError::CatalogRootNotFound && root_catalog(slots_of(objects@))
                    is None
            },
        },
{
    let ghost slots = slots_of(objects@);
    let ghost start = document_model(*document);
    let mut held_catalog: Option<(ObjectId, lopdf::Object)> = None;
    let mut held_page_root: Option<(ObjectId, lopdf::Dictionary)> = None;
    for entry in it: objects
        invariant
            it.seq() == objects@,
            slots == slots_of(objects@),
            document_model(*document) == (DocumentModel {
                objects: with_verbatim(start.objects, slots.take(it.index() as int)),
                ..start
            }),
            page_root_of(held_page_root) == root_pages(slots.take(it.index() as int)),
            catalog_of(held_catalog) == root_catalog(slots.take(it.index() as int)),
    {
        let ghost index = it.index() as int;
        let (id, object) = entry;
        proof {
            assert(slots.take(index + 1).drop_last() =~= slots.take(index));
        }
        match object_kind(&object) {
            ObjectKind::Catalog => {
                if held_catalog.is_none() {
                    held_catalog = Some((id, object));
                }
            },
            ObjectKind::Pages => {
                match into_dictionary(object) {
                    Ok(dictionary) => {
                        let mut dictionary = dictionary;
                        let previous = held_page_root;
                        held_page_root = match previous {
                            Some((root, kept)) => {
                                overlay(&mut dictionary, kept);
                                Some((root, dictionary))
                            },
                            None => Some((id, dictionary)),
                        };
                    },
                    Err(_) => {},
                }
            },
            ObjectKind::Page | ObjectKind::Outlines | ObjectKind::Outline => {},
            ObjectKind::Other => {
                document_insert(document, id, object);
            },
        }
    }
    assert(slots.take(slots.len() as int) =~= slots);
    match held_page_root {
        None => Err(MergeError::PagesRootNotFound),
        Some(root_page_object) => match held_catalog {
            None => Err(MergeError::CatalogRootNotFound),
            Some(root_catalog_object) => Ok(
                ProcessedObjects { root_page_object, root_catalog_object },
            ),
        },
    }
}

/// Re-parents the pages: every page that is a dictionary goes into the
/// document with `parent` as its `Parent`; a page that is no dictionary is
/// passed over. The identifiers of all the pages come back, in order.
pub fn insert_pages(
    document: &mut lopdf::Document,
    pages: Vec<(ObjectId, lopdf::Object)>,
    parent: ObjectId,
) -> (ids: Vec<ObjectId>)
    ensures
        document_model(*final(document)) == (DocumentModel {
            objects: with_pages(document_model(*old(document)).objects, slots_of(pages@), parent),
            ..document_model(*old(document))
        }),
        ids@ == slot_ids(slots_of(pages@)),
{
    let ghost slots = slots_of(pages@);
    let ghost start = document_model(*document);
    let mut ids: Vec<ObjectId> = Vec::new();
    for page in it: pages
        invariant
            it.seq() == pages@,
            slots == slots_of(pages@),
            document_model(*document) == (DocumentModel {
                objects: with_pages(start.objects, slots.take(it.index() as int), parent),
                ..start
            }),
            ids@ == slot_ids(slots.take(it.index() as int)),
    {
        let ghost index = it.index() as int;
        let (id, object) = page;
        proof {
            assert(slots.take(index + 1).drop_last() =~= slots.take(index));
        }
        ids.push(id);
        match into_dictionary(object) {
            Ok(dictionary) => {
                let mut dictionary = dictionary;
                dictionary_set(&mut dictionary, "Parent".as_bytes(), reference_object(parent));
                document_insert(document, id, dictionary_object(dictionary));
            },
            Err(_) => {},
        }
    }
    assert(slots.take(slots.len() as int) =~= slots);
    ids
}

/// References to the given pages, in order.
pub fn page_references(pages: &Vec<ObjectId>) -> (kids: Vec<lopdf::Object>)
    ensures
        values_of(kids@) == kids_of(pages@),
{
    let mut kids: Vec<lopdf::Object> = Vec::new();
    let mut at: usize = 0;
    while at < pages.len()
        invariant
            at <= pages.len(),
            kids.len() == at,
            forall|i: int| 0 <= i < at ==> object_value(#[trigger] kids@[i]) == kids_of(pages@)[i],
        decreases pages.len() - at,
    {
        kids.push(reference_object(pages[at]));
        at = at + 1;
    }
    kids
}

/// Root reconciliation: the root of the page tree gets its `Count` and its
/// `Kids` and goes into the document, the catalog is pointed at it, loses
/// its `Outlines` and goes into the document, and the trailer is pointed at
/// the catalog. Where the pages cannot be counted or the catalog is no
/// dictionary, the document stays as it is.
pub fn update_document_hierarchy(
    document: &mut lopdf::Document,
    root_page: (ObjectId, lopdf::Dictionary),
    catalog_object: (ObjectId, lopdf::Object),
    pages: &Vec<ObjectId>,
) -> (outcome: Result<(), MergeError>)
    ensures
        match outcome {
            Ok(_) => reconciled(
                document_model(*old(document)),
                root_page.0,
                dictionary_entries(root_page.1),
                catalog_object.0,
                object_value(catalog_object.1),
                pages@,
            ) == Ok::<DocumentModel, MergeError>(document_model(*final(document))),
            Err(error) => reconciled(
                document_model(*old(document)),
                root_page.0,
                dictionary_entries(root_page.1),
                catalog_object.0,
                object_value(catalog_object.1),
                pages@,
            ) == Err::<DocumentModel, MergeError>(error) && document_model(*final(document))
                == document_model(*old(document)),
        },
{
    if pages.len() > 0xffff_ffff {
        return Err(MergeError::IdSpaceExhausted);
    }
    let (root, root_dictionary) = root_page;
    let (catalog, catalog_body) = catalog_object;
    match into_dictionary(catalog_body) {
        Err(_) => Err(MergeError::StructuralInconsistency),
        Ok(catalog_dictionary) => {
            let mut root_dictionary = root_dictionary;
            let mut catalog_dictionary = catalog_dictionary;
            dictionary_set(
                &mut root_dictionary,
                "Count".as_bytes(),
                integer_object(pages.len() as i64),
            );
            dictionary_set(
                &mut root_dictionary,
                "Kids".as_bytes(),
                array_object(page_references(pages)),
            );
            document_insert(document, root, dictionary_object(root_dictionary));
            dictionary_set(&mut catalog_dictionary, "Pages".as_bytes(), reference_object(root));
            dictionary_remove(&mut catalog_dictionary, "Outlines".as_bytes());
            document_insert(document, catalog, dictionary_object(catalog_dictionary));
            dictionary_set(
                document_trailer_mut(document),
                "Root".as_bytes(),
                reference_object(catalog),
            );
            Ok(())
        },
    }
}

/// What the sources of a merge are consolidated into, before the
/// identifiers are compacted: a document without bookmarks that holds the
/// merged objects, its pages in order, and the bookmarks staged for it.
pub struct ConsolidatedDocument {
    document: lopdf::Document,
    pages: Vec<ObjectId>,
    bookmarks: Vec<Bookmark>,
}

impl View for ConsolidatedDocument {
    type V = Consolidated;

    closed spec fn view(&self) -> Consolidated {
        Consolidated {
            document: document_model(self.document),
            pages: self.pages@,
            bookmarks: staged_of(self.bookmarks@),
        }
    }
}

impl ConsolidatedDocument {
    /// The bookmarks are staged beside the document: it holds none itself.
    #[verifier::type_invariant]
    spec fn holds_no_bookmarks(self) -> bool {
        document_model(self.document).without_bookmarks()
    }

    /// The document that holds the merged objects.
    pub fn document(&self) -> (document: &lopdf::Document)
        ensures
            document_model(*document) == self@.document,
    {
        &self.document
    }

    /// The merged pages, in order.
    pub fn pages(&self) -> (pages: &Vec<ObjectId>)
        ensures
            pages@ == self@.pages,
    {
        &self.pages
    }

    /// The staged bookmarks, in the order of the sources.
    pub fn bookmarks(&self) -> (bookmarks: &Vec<Bookmark>)
        ensures
            staged_of(bookmarks@) == self@.bookmarks,
    {
        &self.bookmarks
    }

    /// Compacts the identifiers and makes the staged bookmarks into an
    /// outline under the catalog: the highest number in use is set to the
    /// number of objects, the objects are renumbered from 1, the bookmarks
    /// are pointed at the pages under their new identifiers and appended,
    /// and the outline that is built from them becomes the catalog's
    /// `Outlines`. The streams are compressed if `compress` is set. The
    /// compacted document must have as many pages as were merged and a
    /// catalog to take the outline. At the end the document must have the
    /// same pages, hold one catalog and one page tree node, lead from its
    /// trailer to the one and from there to the other, have its pages
    /// under that node, and have an outline that leads to the pages that
    /// the bookmarks were pointed at: otherwise it is refused as
    /// inconsistent.
    pub fn compact(self, compress: bool) -> (outcome: Result<lopdf::Document, MergeError>)
        ensures
            match outcome {
                Ok(document) => finished(self@, compress) == Ok::<DocumentModel, MergeError>(
                    document_model(document),
                ),
                Err(error) => finished(self@, compress) == Err::<DocumentModel, MergeError>(error),
            },
            outcome matches Ok(document) ==> page_sequence(document_model(document)).len()
                == self@.pages.len() && single_roots(document_model(document))
                && pages_in_place(document_model(document)) && outline_in_place(
                document_model(document),
                moved_targets(self@),
            ),
            compaction_known(self@),
            finishing_known(self@, compress),
    {
        proof {
            use_type_invariant(&self);
        }
        let ConsolidatedDocument { document, pages, bookmarks } = self;
        let mut document = document;
        let count = document_object_count(&document);
        if count > 0x7fff_ffff {
            return Err(MergeError::IdSpaceExhausted);
        }
        document_set_max_id(&mut document, count as u32);
        document_renumber(&mut document, 1);
        let max_id = document_max_id(&document);
        if bookmarks.len() > 0x7fff_ffff || bookmarks.len() > (u32::MAX - max_id - 1) as usize / 2 {
            return Err(MergeError::IdSpaceExhausted);
        }
        let new_pages = document_page_ids(&document);
        if new_pages.len() != pages.len() {
            return Err(MergeError::StructuralInconsistency);
        }
        let moved = retarget(bookmarks, &pages, &new_pages);
        proof {
            lemma_bookmarks_of_fresh(document_model(document), staged_of(moved@));
        }
        let targets = bookmark_targets(&moved);
        add_bookmarks(&mut document, &moved);
        document_adjust_zero_pages(&mut document);
        match document_build_outline(&mut document) {
            Some(outline) => {
                match document_catalog_mut(&mut document) {
                    Some(catalog) => {
                        dictionary_set(catalog, "Outlines".as_bytes(), reference_object(outline));
                    },
                    None => {
                        return Err(MergeError::StructuralInconsistency);
                    },
                }
            },
            None => {},
        }
        if compress {
            document_compress(&mut document);
        }
        if !same_pages(&document_page_ids(&document), &new_pages) {
            return Err(MergeError::StructuralInconsistency);
        }
        if !has_single_roots(&document) || !has_pages_in_place(&document) {
            return Err(MergeError::StructuralInconsistency);
        }
        if !outline_leads_to(&document, &targets) {
            return Err(MergeError::StructuralInconsistency);
        }
        Ok(document)
    }
}

/// Consolidates the documents in the given order: it renumbers them one
/// after the other, stages a bookmark for each, accumulates their objects
/// and pages, picks the roots, puts the pages under the root of the page
/// tree and reconciles the roots. At least two documents are needed.
pub fn consolidate(input_docs: Vec<MergableDocument>) -> (outcome: Result<
    ConsolidatedDocument,
    MergeError,
>)
    ensures
        match outcome {
            Ok(graph) => consolidated(sources_of(input_docs@)) == Ok::<Consolidated, MergeError>(
                graph@,
            ),
            Err(error) => consolidated(sources_of(input_docs@)) == Err::<
                Consolidated,
                MergeError,
            >(error),
        },
        input_docs@.len() < 2 <==> outcome matches Err(MergeError::InsufficientInputs),
        input_docs@.len() >= 2 && numbering_fits(documents_of(sources_of(input_docs@)))
            ==> numbering_known(documents_of(sources_of(input_docs@))),
{
    let ghost sources = sources_of(input_docs@);
    let ghost documents = documents_of(sources);
    if input_docs.len() < 2 {
        return Err(MergeError::InsufficientInputs);
    }
    if input_docs.len() >= 0xffff_ffff {
        return Err(MergeError::IdSpaceExhausted);
    }
    let mut pages: Vec<(ObjectId, lopdf::Object)> = Vec::new();
    let mut objects: Vec<(ObjectId, lopdf::Object)> = Vec::new();
    let mut bookmarks: Vec<Bookmark> = Vec::new();
    let mut next_free: u32 = 1;
    let ghost renumbered = renumbered_all(documents);
    for doc in it: input_docs
        invariant
            it.seq() == input_docs@,
            2 <= input_docs@.len() < u32::MAX,
            sources == sources_of(input_docs@),
            documents == documents_of(sources),
            renumbered == renumbered_all(documents),
            next_free == first_free_id(documents, it.index() as int),
            forall|j: int|
                0 <= j < it.index() ==> renumbering_fits(
                    #[trigger] documents[j],
                    first_free_id(documents, j) as u32,
                ) && renumbering_facts(
                    documents[j],
                    renumbered_at(documents, j),
                    first_free_id(documents, j) as u32,
                ),
            slots_of(objects@) == all_objects(renumbered.take(it.index() as int)),
            slots_of(pages@) == all_pages(renumbered.take(it.index() as int)),
            staged_of(bookmarks@) == staged_bookmarks(sources).take(it.index() as int),
    {
        let ghost index = it.index() as int;
        let mut doc = doc;
        proof {
            assert(renumbered.take(index + 1).drop_last() =~= renumbered.take(index));
        }
        let free = match doc.try_renumber(next_free) {
            Some(free) => free,
            None => {
                assert(!renumbering_fits(documents[index], first_free_id(documents, index) as u32));
                return Err(MergeError::IdSpaceExhausted);
            },
        };
        let first_page_id = doc.get_first_page_id();
        let bookmark = doc.get_filename_based_bookmark(first_page_id);
        let ghost staged_before = staged_of(bookmarks@);
        bookmarks.push(bookmark);
        proof {
            assert(staged_of(bookmarks@) =~= staged_before.push(bookmark@));
        }
        let mut doc_pages = doc.get_pages();
        pages.append(&mut doc_pages);
        let mut doc_objects = doc.get_objects();
        objects.append(&mut doc_objects);
        next_free = free;
    }
    proof {
        assert(renumbered.take(input_docs@.len() as int) =~= renumbered);
        assert(staged_bookmarks(sources).take(input_docs@.len() as int) =~= staged_bookmarks(
            sources,
        ));
    }
    let mut document = new_document("1.5");
    let roots = match process_documents_objects(&mut document, objects) {
        Ok(roots) => roots,
        Err(error) => {
            return Err(error);
        },
    };
    let root = roots.root_page_object.0;
    let page_ids = insert_pages(&mut document, pages, root);
    match update_document_hierarchy(
        &mut document,
        roots.root_page_object,
        roots.root_catalog_object,
        &page_ids,
    ) {
        Ok(_) => {},
        Err(error) => {
            return Err(error);
        },
    }
    Ok(ConsolidatedDocument { document, pages: page_ids, bookmarks })
}

/// Merges the documents in the given order into one, and compresses its
/// streams if `compress` is set. At least two documents are needed.
pub fn merge_documents(input_docs: Vec<MergableDocument>, compress: bool) -> (outcome: Result<
    lopdf::Document,
    MergeError,
>)
    ensures
        match outcome {
            Ok(document) => merged(sources_of(input_docs@), compress) == Ok::<
                DocumentModel,
                MergeError,
            >(document_model(document)),
            Err(error) => merged(sources_of(input_docs@), compress) == Err::<
                DocumentModel,
                MergeError,
            >(error),
        },
        input_docs@.len() < 2 <==> outcome matches Err(MergeError::InsufficientInputs),
        outcome matches Ok(document) ==> page_sequence(document_model(document)).len()
            == all_pages(renumbered_all(documents_of(sources_of(input_docs@)))).len()
            && single_roots(document_model(document)) && pages_in_place(
            document_model(document),
        ) && outline_in_place(
            document_model(document),
            moved_targets(consolidated(sources_of(input_docs@))->Ok_0),
        ),
        renumbering_known(sources_of(input_docs@)),
        consolidated(sources_of(input_docs@)) matches Ok(graph) ==> finishing_known(
            graph,
            compress,
        ),
{
    match consolidate(input_docs) {
        Ok(graph) => graph.compact(compress),
        Err(error) => Err(error),
    }
}

} // verus!
