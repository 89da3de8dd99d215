//! What a merge produces, stated over the model of the documents: the
//! renumbering of the sources, what is accumulated from them, which objects
//! become the roots, and the consolidated graph.

use vstd::prelude::*;
use crate::adapter::{
    compressed, compression_facts, outline_facts, outlined, page_sequence, renumbered,
    renumbering_facts, renumbering_fits,
};
use crate::bookmark::{default_color, Staged};
use crate::model::BookmarkModel;
use crate::error::MergeError;
use crate::merge::kind::{kind_of, ObjectKind};
use crate::merge::outline_tree::{outline_in_place, targets_of};
use crate::merge::roots::{pages_in_place, single_roots};
use crate::model::{
    ascending_listing, count_key, kids_key, outlines_key, pages_key, parent_key, resolve, root_key,
    slot_ids, DocumentModel, Entries, ObjectId, PdfValue, Slot,
};

verus! {

/// A source of the merge: a document and the name of the file it came from.
pub struct Source {
    pub filename: Seq<char>,
    pub document: DocumentModel,
}

/// The version of the merged document.
pub open spec fn merged_version() -> Seq<char> {
    "1.5"@
}

/// The target of a bookmark that leads to no page.
pub open spec fn no_page() -> ObjectId {
    (0u32, 0u16)
}

/// The documents of the sources, in order.
pub open spec fn documents_of(sources: Seq<Source>) -> Seq<DocumentModel> {
    Seq::new(sources.len(), |i: int| sources[i].document)
}

/// The first object number that is free once the first `upto` documents
/// have been renumbered, each from the number that the one before it left
/// free. Numbering starts at 1.
pub open spec fn first_free_id(documents: Seq<DocumentModel>, upto: int) -> int
    decreases upto,
{
    if upto <= 0 {
        1
    } else {
        renumbered(documents[upto - 1], first_free_id(documents, upto - 1) as u32).max_id + 1
    }
}

/// The document at `index` after the renumbering pass.
pub open spec fn renumbered_at(documents: Seq<DocumentModel>, index: int) -> DocumentModel {
    renumbered(documents[index], first_free_id(documents, index) as u32)
}

/// The documents after the renumbering pass.
pub open spec fn renumbered_all(documents: Seq<DocumentModel>) -> Seq<DocumentModel> {
    Seq::new(documents.len(), |i: int| renumbered_at(documents, i))
}

/// The renumbering pass stays within the object numbers, and there is a
/// bookmark identifier for each document.
pub open spec fn numbering_fits(documents: Seq<DocumentModel>) -> bool {
    &&& documents.len() < u32::MAX
    &&& forall|i: int|
        0 <= i < documents.len() ==> renumbering_fits(
            #[trigger] documents[i],
            first_free_id(documents, i) as u32,
        )
}

/// The renumbering of every document did what renumbering is known to do.
pub open spec fn numbering_known(documents: Seq<DocumentModel>) -> bool {
    forall|i: int|
        0 <= i < documents.len() ==> renumbering_facts(
            #[trigger] documents[i],
            renumbered_at(documents, i),
            first_free_id(documents, i) as u32,
        )
}

/// The pages among `ids` that a store can deliver, each once, in the order
/// in which `ids` first names them.
pub open spec fn pages_among(objects: Map<ObjectId, PdfValue>, ids: Seq<ObjectId>) -> Seq<Slot>
    decreases ids.len(),
{
    if ids.len() == 0 {
        Seq::empty()
    } else {
        let before = pages_among(objects, ids.drop_last());
        match resolve(objects, ids.last()) {
            Some(value) => if slot_ids(before).contains(ids.last()) {
                before
            } else {
                before.push((ids.last(), value))
            },
            None => before,
        }
    }
}

/// The pages that a document contributes to a merge, in its page order.
pub open spec fn pages_of(document: DocumentModel) -> Seq<Slot> {
    pages_among(document.objects, page_sequence(document))
}

/// The first page of a document, or `no_page` where it has none.
pub open spec fn first_page(document: DocumentModel) -> ObjectId {
    if pages_of(document).len() > 0 {
        pages_of(document)[0].0
    } else {
        no_page()
    }
}

/// The objects of all documents: those of the first in the order of their
/// identifiers, then those of the second, and so on.
pub open spec fn all_objects(documents: Seq<DocumentModel>) -> Seq<Slot>
    decreases documents.len(),
{
    if documents.len() == 0 {
        Seq::empty()
    } else {
        all_objects(documents.drop_last()) + ascending_listing(documents.last().objects)
    }
}

/// The pages of all documents: those of the first in its page order, then
/// those of the second, and so on.
pub open spec fn all_pages(documents: Seq<DocumentModel>) -> Seq<Slot>
    decreases documents.len(),
{
    if documents.len() == 0 {
        Seq::empty()
    } else {
        all_pages(documents.drop_last()) + pages_of(documents.last())
    }
}

/// The place among the accumulated pages at which the pages of the document
/// at `index` begin.
pub open spec fn page_offset(documents: Seq<DocumentModel>, index: int) -> nat {
    all_pages(documents.take(index)).len()
}

/// The bookmark of a source: its title is the name of the source's file, it
/// is plain and of the default color.
pub open spec fn filename_bookmark(filename: Seq<char>, page: ObjectId) -> Staged {
    Staged { title: filename, color: default_color(), format: 0, page }
}

/// One bookmark for each source, which leads to the first page of the
/// source's renumbered document.
pub open spec fn staged_bookmarks(sources: Seq<Source>) -> Seq<Staged> {
    Seq::new(
        sources.len(),
        |i: int|
            filename_bookmark(
                sources[i].filename,
                first_page(renumbered_at(documents_of(sources), i)),
            ),
    )
}

/// A dictionary that declares itself a node of the page tree.
pub open spec fn is_pages_node(value: PdfValue) -> bool {
    kind_of(value) == ObjectKind::Pages && value is Dictionary
}

/// The root of the merged page tree before its `Kids` and `Count` are set:
/// it has the identifier of the first page tree node among `slots`, and of
/// every entry that the page tree nodes hold, the one of the earliest node
/// that has it.
pub open spec fn root_pages(slots: Seq<Slot>) -> Option<(ObjectId, Entries)>
    decreases slots.len(),
{
    if slots.len() == 0 {
        None
    } else {
        let before = root_pages(slots.drop_last());
        match slots.last().1 {
            PdfValue::Dictionary(entries) => if kind_of(slots.last().1) == ObjectKind::Pages {
                match before {
                    Some((root, kept)) => Some((root, entries.union_prefer_right(kept))),
                    None => Some((slots.last().0, entries)),
                }
            } else {
                before
            },
            _ => before,
        }
    }
}

/// The first catalog among `slots`.
pub open spec fn root_catalog(slots: Seq<Slot>) -> Option<Slot>
    decreases slots.len(),
{
    if slots.len() == 0 {
        None
    } else {
        match root_catalog(slots.drop_last()) {
            Some(found) => Some(found),
            None => if kind_of(slots.last().1) == ObjectKind::Catalog {
                Some(slots.last())
            } else {
                None
            },
        }
    }
}

/// A store after the objects among `slots` that are neither structural nor
/// outline objects were put into it as they are.
pub open spec fn with_verbatim(objects: Map<ObjectId, PdfValue>, slots: Seq<Slot>) -> Map<
    ObjectId,
    PdfValue,
>
    decreases slots.len(),
{
    if slots.len() == 0 {
        objects
    } else {
        let before = with_verbatim(objects, slots.drop_last());
        if kind_of(slots.last().1) == ObjectKind::Other {
            before.insert(slots.last().0, slots.last().1)
        } else {
            before
        }
    }
}

/// A page after its `Parent` was set to `parent`.
pub open spec fn reparented(entries: Entries, parent: ObjectId) -> PdfValue {
    PdfValue::Dictionary(entries.insert(parent_key(), PdfValue::Reference(parent)))
}

/// A store after the pages that are dictionaries were put into it, each
/// with `parent` as its `Parent`. A page that is no dictionary is left out.
pub open spec fn with_pages(
    objects: Map<ObjectId, PdfValue>,
    pages: Seq<Slot>,
    parent: ObjectId,
) -> Map<ObjectId, PdfValue>
    decreases pages.len(),
{
    if pages.len() == 0 {
        objects
    } else {
        let before = with_pages(objects, pages.drop_last(), parent);
        match pages.last().1 {
            PdfValue::Dictionary(entries) => before.insert(
                pages.last().0,
                reparented(entries, parent),
            ),
            _ => before,
        }
    }
}

/// References to the given pages, in order.
pub open spec fn kids_of(pages: Seq<ObjectId>) -> Seq<PdfValue> {
    Seq::new(pages.len(), |i: int| PdfValue::Reference(pages[i]))
}

/// The root of the merged page tree: `Count` is the number of pages and
/// `Kids` lists them in order.
pub open spec fn root_pages_value(entries: Entries, pages: Seq<ObjectId>) -> PdfValue {
    PdfValue::Dictionary(
        entries.insert(count_key(), PdfValue::Integer(pages.len() as i64)).insert(
            kids_key(),
            PdfValue::Array(kids_of(pages)),
        ),
    )
}

/// The catalog of the merged document: `Pages` refers to the root of the
/// page tree, and there is no `Outlines`.
pub open spec fn catalog_value(entries: Entries, root: ObjectId) -> PdfValue {
    PdfValue::Dictionary(
        entries.insert(pages_key(), PdfValue::Reference(root)).remove(outlines_key()),
    )
}

/// A document after the staged bookmarks were appended to its top level.
pub open spec fn with_bookmarks(document: DocumentModel, staged: Seq<Staged>) -> DocumentModel
    decreases staged.len(),
{
    if staged.len() == 0 {
        document
    } else {
        let before = with_bookmarks(document, staged.drop_last());
        before.with_bookmark(staged.last().model((before.max_bookmark_id + 1) as u32))
    }
}

/// A document after the roots were put into its store and its trailer was
/// pointed at the catalog.
pub open spec fn with_roots(
    document: DocumentModel,
    root: ObjectId,
    root_entries: Entries,
    catalog: ObjectId,
    catalog_entries: Entries,
    pages: Seq<ObjectId>,
) -> DocumentModel {
    document.with_object(root, root_pages_value(root_entries, pages)).with_object(
        catalog,
        catalog_value(catalog_entries, root),
    ).with_trailer_entry(root_key(), PdfValue::Reference(catalog))
}

/// The identifiers that a document gives to `count` bookmarks.
pub open spec fn bookmark_ids(count: nat) -> Seq<u32> {
    Seq::new(count, |i: int| (i + 1) as u32)
}

/// The table of a document that was given the staged bookmarks in order.
pub open spec fn bookmark_table(staged: Seq<Staged>) -> Map<u32, BookmarkModel> {
    Map::new(|id: u32| 1 <= id <= staged.len(), |id: u32| staged[id - 1].model(id))
}

/// The store of the merged document: the objects that are taken as they
/// are, then the pages under their new parent, then the two roots.
pub open spec fn merged_objects(
    slots: Seq<Slot>,
    pages: Seq<Slot>,
    root: ObjectId,
    root_entries: Entries,
    catalog: ObjectId,
    catalog_entries: Entries,
) -> Map<ObjectId, PdfValue> {
    with_pages(with_verbatim(Map::empty(), slots), pages, root).insert(
        root,
        root_pages_value(root_entries, slot_ids(pages)),
    ).insert(catalog, catalog_value(catalog_entries, root))
}

/// What the sources are consolidated into: a document without bookmarks,
/// its pages in order, and the bookmarks that are staged for it.
pub struct Consolidated {
    pub document: DocumentModel,
    pub pages: Seq<ObjectId>,
    pub bookmarks: Seq<Staged>,
}

/// The graph that renumbered documents are consolidated into, with the
/// bookmarks staged for them.
pub open spec fn graph_of(documents: Seq<DocumentModel>, staged: Seq<Staged>) -> Result<
    Consolidated,
    MergeError,
> {
    let slots = all_objects(documents);
    let pages = all_pages(documents);
    match root_pages(slots) {
        None => Err(MergeError::PagesRootNotFound),
        Some((root, root_entries)) => match root_catalog(slots) {
            None => Err(MergeError::CatalogRootNotFound),
            Some((catalog, catalog_object)) => if pages.len() > u32::MAX {
                Err(MergeError::IdSpaceExhausted)
            } else {
                match catalog_object {
                    PdfValue::Dictionary(catalog_entries) => Ok(
                        Consolidated {
                            document: DocumentModel {
                                trailer: Map::empty().insert(
                                    root_key(),
                                    PdfValue::Reference(catalog),
                                ),
                                objects: merged_objects(
                                    slots,
                                    pages,
                                    root,
                                    root_entries,
                                    catalog,
                                    catalog_entries,
                                ),
                                ..DocumentModel::empty(merged_version())
                            },
                            pages: slot_ids(pages),
                            bookmarks: staged,
                        },
                    ),
                    _ => Err(MergeError::StructuralInconsistency),
                }
            },
        },
    }
}

/// The consolidated graph of a merge, before its identifiers are compacted.
pub open spec fn consolidated(sources: Seq<Source>) -> Result<Consolidated, MergeError> {
    if sources.len() < 2 {
        Err(MergeError::InsufficientInputs)
    } else if !numbering_fits(documents_of(sources)) {
        Err(MergeError::IdSpaceExhausted)
    } else {
        graph_of(renumbered_all(documents_of(sources)), staged_bookmarks(sources))
    }
}

/// The first place at which `id` stands among `ids`.
pub open spec fn position_of(ids: Seq<ObjectId>, id: ObjectId) -> Option<int>
    decreases ids.len(),
{
    if ids.len() == 0 {
        None
    } else {
        match position_of(ids.drop_last(), id) {
            Some(place) => Some(place),
            None => if ids.last() == id {
                Some(ids.len() - 1)
            } else {
                None
            },
        }
    }
}

/// Where a bookmark leads once the pages have new identifiers: to the page
/// that stands where its old target stood, or to no page where its old
/// target was no page of the merge.
pub open spec fn moved_target(
    before: Seq<ObjectId>,
    after: Seq<ObjectId>,
    page: ObjectId,
) -> ObjectId {
    match position_of(before, page) {
        Some(place) => if place < after.len() {
            after[place]
        } else {
            no_page()
        },
        None => no_page(),
    }
}

/// The staged bookmarks once the pages have new identifiers.
pub open spec fn retargeted(
    staged: Seq<Staged>,
    before: Seq<ObjectId>,
    after: Seq<ObjectId>,
) -> Seq<Staged> {
    Seq::new(
        staged.len(),
        |i: int| Staged { page: moved_target(before, after, staged[i].page), ..staged[i] },
    )
}

/// The number of the outline's root in a compacted document.
pub open spec fn outline_root(document: DocumentModel) -> ObjectId {
    ((document.max_id + 1) as u32, 0u16)
}

/// A consolidated graph after its identifiers were compacted: the highest
/// number in use is set to the number of objects, and the objects are
/// renumbered from 1.
pub open spec fn compact_of(graph: Consolidated) -> DocumentModel {
    renumbered(graph.document.with_max_id(graph.document.object_count() as u32), 1)
}

/// The compaction of a graph, where its objects can be counted in the
/// numbers, did what renumbering is known to do.
pub open spec fn compaction_known(graph: Consolidated) -> bool {
    graph.document.object_count() <= i32::MAX ==> renumbering_facts(
        graph.document.with_max_id(graph.document.object_count() as u32),
        compact_of(graph),
        1,
    )
}

/// A compacted graph after its bookmarks were pointed at the pages under
/// their new identifiers and appended to it.
pub open spec fn marked_of(graph: Consolidated) -> DocumentModel {
    with_bookmarks(
        compact_of(graph),
        retargeted(graph.bookmarks, graph.pages, page_sequence(compact_of(graph))),
    )
}

/// A consolidated graph after its identifiers were compacted, its bookmarks
/// were pointed at the pages under their new identifiers, and the bookmarks
/// were made into an outline under the catalog. The compacted graph must
/// have as many pages as were merged, and a catalog to take the outline.
pub open spec fn compacted(graph: Consolidated) -> Result<DocumentModel, MergeError> {
    if graph.document.object_count() > i32::MAX {
        Err(MergeError::IdSpaceExhausted)
    } else if compact_of(graph).max_id + 1 + 2 * graph.bookmarks.len() > u32::MAX {
        Err(MergeError::IdSpaceExhausted)
    } else if page_sequence(compact_of(graph)).len() != graph.pages.len() {
        Err(MergeError::StructuralInconsistency)
    } else if graph.bookmarks.len() == 0 {
        Ok(outlined(marked_of(graph)))
    } else {
        match outlined(marked_of(graph)).with_catalog_reference(
            outlines_key(),
            outline_root(marked_of(graph)),
        ) {
            Some(attached) => Ok(attached),
            None => Err(MergeError::StructuralInconsistency),
        }
    }
}

/// A document after root reconciliation: the roots were put into its store
/// and its trailer was pointed at the catalog. The pages must be countable
/// in a `Count`, and the catalog must be a dictionary.
pub open spec fn reconciled(
    document: DocumentModel,
    root: ObjectId,
    root_entries: Entries,
    catalog: ObjectId,
    catalog_object: PdfValue,
    pages: Seq<ObjectId>,
) -> Result<DocumentModel, MergeError> {
    if pages.len() > u32::MAX {
        Err(MergeError::IdSpaceExhausted)
    } else {
        match catalog_object {
            PdfValue::Dictionary(catalog_entries) => Ok(
                with_roots(document, root, root_entries, catalog, catalog_entries, pages),
            ),
            _ => Err(MergeError::StructuralInconsistency),
        }
    }
}

/// The pages that the bookmarks of a graph lead to once it is compacted.
pub open spec fn moved_targets(graph: Consolidated) -> Seq<ObjectId> {
    targets_of(retargeted(graph.bookmarks, graph.pages, page_sequence(compact_of(graph))))
}

/// A compacted document after its streams were compressed if `compress` is
/// set.
pub open spec fn pressed(document: DocumentModel, compress: bool) -> DocumentModel {
    if compress {
        compressed(document)
    } else {
        document
    }
}

/// A consolidated graph after it was compacted and given its outline, and
/// after its streams were compressed if `compress` is set. The document
/// must have the pages, in order, that it had when it was compacted; it
/// must hold one catalog and one page tree node, its trailer must lead to
/// the one and from there to the other, its pages must stand under that
/// node, and its outline must lead to the pages that the bookmarks were
/// pointed at, one entry for each bookmark.
pub open spec fn finished(graph: Consolidated, compress: bool) -> Result<
    DocumentModel,
    MergeError,
> {
    match compacted(graph) {
        Ok(document) => if page_sequence(pressed(document, compress)) == page_sequence(
            compact_of(graph),
        ) && single_roots(pressed(document, compress)) && pages_in_place(
            pressed(document, compress),
        ) && outline_in_place(pressed(document, compress), moved_targets(graph)) {
            Ok(pressed(document, compress))
        } else {
            Err(MergeError::StructuralInconsistency)
        },
        Err(error) => Err(error),
    }
}

/// Building the outline of a graph and compressing it did what they are
/// known to do.
pub open spec fn finishing_known(graph: Consolidated, compress: bool) -> bool {
    &&& compacted(graph) is Ok ==> outline_facts(marked_of(graph), outlined(marked_of(graph)))
    &&& compress ==> (compacted(graph) matches Ok(document) ==> compression_facts(
        document,
        compressed(document),
    ))
}

/// Whatever a merge of the sources renumbers comes out as renumbering is
/// known to: the documents of the renumbering pass, where all of them fit,
/// and the consolidated graph, where there is one.
pub open spec fn renumbering_known(sources: Seq<Source>) -> bool {
    &&& sources.len() >= 2 && numbering_fits(documents_of(sources)) ==> numbering_known(
        documents_of(sources),
    )
    &&& consolidated(sources) matches Ok(graph) ==> compaction_known(graph)
}

/// The merged document.
pub open spec fn merged(sources: Seq<Source>, compress: bool) -> Result<DocumentModel, MergeError> {
    match consolidated(sources) {
        Ok(graph) => finished(graph, compress),
        Err(error) => Err(error),
    }
}

} // verus!
