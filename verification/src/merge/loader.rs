//! Loaded documents: a document, the name of the file it came from, and what
//! the merge takes from it.

pub mod fs;

use vstd::prelude::*;
use vstd::string::StringExecFns;
use crate::adapter::{
    document_bookmark_count, document_fetch, document_max_id, document_model, document_object_count,
    document_objects, document_page_ids, document_renumber, page_sequence, renumbered,
    renumbering_facts, renumbering_fits, slots_of,
};
use crate::bookmark::{Bookmark, Rgb};
use crate::merge::graph::{filename_bookmark, first_page, pages_among, pages_of, Source};
use crate::model::{ascending_listing, resolve, slot_ids, DocumentModel, ObjectId, PdfValue};
use crate::model_lemmas::lemma_listing_is_ascending;

verus! {

/// Something that a document can be loaded from.
pub trait DocumentLoader {
    fn load(&self) -> MergableDocument;
}

/// One source of a merge: a document and the name of the file it came from.
pub struct MergableDocument {
    original_filename: String,
    pdf: lopdf::Document,
}

/// No page among `ids` can be delivered, so there are no pages.
proof fn lemma_no_pages(objects: Map<ObjectId, PdfValue>, ids: Seq<ObjectId>)
    requires
        forall|j: int| 0 <= j < ids.len() ==> resolve(objects, #[trigger] ids[j]) is None,
    ensures
        pages_among(objects, ids).len() == 0,
    decreases ids.len(),
{
    if ids.len() > 0 {
        lemma_no_pages(objects, ids.drop_last());
    }
}

/// The first page is the first one named that can be delivered.
proof fn lemma_first_page(objects: Map<ObjectId, PdfValue>, ids: Seq<ObjectId>, at: int)
    requires
        0 <= at < ids.len(),
        forall|j: int| 0 <= j < at ==> resolve(objects, #[trigger] ids[j]) is None,
        resolve(objects, ids[at]) is Some,
    ensures
        pages_among(objects, ids).len() > 0,
        pages_among(objects, ids)[0].0 == ids[at],
    decreases ids.len(),
{
    let shorter = ids.drop_last();
    if at == ids.len() - 1 {
        lemma_no_pages(objects, shorter);
    } else {
        lemma_first_page(objects, shorter, at);
    }
}

impl MergableDocument {
    /// What the document holds.
    pub closed spec fn model(&self) -> DocumentModel {
        document_model(self.pdf)
    }

    /// The name of the file that the document came from.
    pub closed spec fn filename(&self) -> Seq<char> {
        self.original_filename@
    }

    /// The source that this is to a merge.
    pub open spec fn source(&self) -> Source {
        Source { filename: self.filename(), document: self.model() }
    }

    /// A source made of a document and the name of its file.
    pub fn from_document(original_filename: &str, pdf: lopdf::Document) -> (document:
        MergableDocument)
        ensures
            document.filename() == original_filename@,
            document.model() == document_model(pdf),
    {
        MergableDocument { original_filename: String::from_str(original_filename), pdf }
    }

    /// The document itself.
    pub fn into_document(self) -> (pdf: lopdf::Document)
        ensures
            document_model(pdf) == self.model(),
    {
        self.pdf
    }

    /// The pages that the document contributes to a merge, each with a copy
    /// of its object, in page order. A page whose object the document cannot
    /// deliver is left out, and a page that is named twice is taken once.
    pub fn get_pages(&self) -> (pages: Vec<(ObjectId, lopdf::Object)>)
        ensures
            slots_of(pages@) == pages_of(self.model()),
    {
        let ids = document_page_ids(&self.pdf);
        let mut pages: Vec<(ObjectId, lopdf::Object)> = Vec::new();
        let mut at: usize = 0;
        while at < ids.len()
            invariant
                at <= ids.len(),
                ids@ == page_sequence(self.model()),
                slots_of(pages@) == pages_among(self.model().objects, ids@.take(at as int)),
            decreases ids.len() - at,
        {
            let id = ids[at];
            proof {
                assert(ids@.take(at + 1).drop_last() =~= ids@.take(at as int));
            }
            if !holds_id(&pages, id) {
                match document_fetch(&self.pdf, id) {
                    Some(object) => {
                        pages.push((id, object));
                    },
                    None => {},
                }
            }
            at = at + 1;
        }
        assert(ids@.take(ids.len() as int) =~= ids@);
        pages
    }

    /// A copy of the document's objects, in the order of their identifiers.
    pub fn get_objects(&self) -> (objects: Vec<(ObjectId, lopdf::Object)>)
        ensures
            slots_of(objects@) == ascending_listing(self.model().objects),
    {
        let objects = document_objects(&self.pdf);
        proof {
            lemma_listing_is_ascending(slots_of(objects@), self.model().objects);
        }
        objects
    }

    /// The number of objects in the document.
    pub fn object_count(&self) -> (count: usize)
        ensures
            self.model().objects.dom().finite(),
            count == self.model().object_count(),
    {
        document_object_count(&self.pdf)
    }

    /// The number of bookmarks at the top level of the document.
    pub fn bookmark_count(&self) -> (count: usize)
        ensures
            count == self.model().bookmarks.len(),
    {
        document_bookmark_count(&self.pdf)
    }

    /// Renumbers the objects from `offset` on. The numbers must suffice, and
    /// the document must have no bookmarks.
    pub fn renumber(&mut self, offset: u32) -> (document: &mut MergableDocument)
        requires
            renumbering_fits(old(self).model(), offset),
        ensures
            *final(self) == *final(document),
            document.filename() == old(self).filename(),
            document.model() == renumbered(old(self).model(), offset),
            renumbering_facts(old(self).model(), document.model(), offset),
    {
        document_renumber(&mut self.pdf, offset);
        self
    }

    /// Renumbers the objects from `offset` on and tells the first number that
    /// is free after them, or leaves the document as it is and tells nothing
    /// where the numbers do not suffice or the document has bookmarks.
    pub fn try_renumber(&mut self, offset: u32) -> (next: Option<u32>)
        ensures
            final(self).filename() == old(self).filename(),
            match next {
                Some(free) => {
                    &&& renumbering_fits(old(self).model(), offset)
                    &&& final(self).model() == renumbered(old(self).model(), offset)
                    &&& renumbering_facts(old(self).model(), final(self).model(), offset)
                    &&& free == final(self).model().max_id + 1
                },
                None => !renumbering_fits(old(self).model(), offset) && *final(self) == *old(self),
            },
    {
        let count = self.object_count();
        if offset < 1 || count > 0x7fff_ffff || count > (u32::MAX - offset) as usize {
            return None;
        }
        if self.bookmark_count() != 0 {
            return None;
        }
        document_renumber(&mut self.pdf, offset);
        Some(document_max_id(&self.pdf) + 1)
    }

    /// The first page that the document contributes to a merge, or the
    /// identifier that stands for no page where it contributes none.
    pub fn get_first_page_id(&self) -> (page: ObjectId)
        ensures
            page == first_page(self.model()),
    {
        let ids = document_page_ids(&self.pdf);
        let mut at: usize = 0;
        while at < ids.len()
            invariant
                at <= ids.len(),
                ids@ == page_sequence(self.model()),
                forall|j: int|
                    0 <= j < at ==> resolve(self.model().objects, #[trigger] ids@[j]) is None,
            decreases ids.len() - at,
        {
            if document_fetch(&self.pdf, ids[at]).is_some() {
                proof {
                    lemma_first_page(self.model().objects, ids@, at as int);
                }
                return ids[at];
            }
            at = at + 1;
        }
        proof {
            lemma_no_pages(self.model().objects, ids@);
        }
        (0, 0)
    }

    /// The bookmark of this source: its title is the name of the file.
    pub fn get_filename_based_bookmark(&self, page_id: ObjectId) -> (bookmark: Bookmark)
        ensures
            bookmark@ == filename_bookmark(self.filename(), page_id),
    {
        Bookmark {
            title: self.original_filename.clone(),
            color: Rgb { red: false, green: false, blue: true },
            format: 0,
            page: page_id,
        }
    }

    /// The highest object number that the document has given out.
    pub fn get_max_id(&self) -> (max_id: u32)
        ensures
            max_id == self.model().max_id,
    {
        document_max_id(&self.pdf)
    }
}

/// The sources that loaded documents are to a merge, in order.
pub open spec fn sources_of(documents: Seq<MergableDocument>) -> Seq<Source> {
    Seq::new(documents.len(), |i: int| documents[i].source())
}

/// Whether `id` is among the identifiers of `objects`.
pub fn holds_id(objects: &Vec<(ObjectId, lopdf::Object)>, id: ObjectId) -> (found: bool)
    ensures
        found == slot_ids(slots_of(objects@)).contains(id),
{
    let mut at: usize = 0;
    while at < objects.len()
        invariant
            at <= objects.len(),
            forall|j: int| 0 <= j < at ==> slot_ids(slots_of(objects@))[j] != id,
        decreases objects.len() - at,
    {
        if objects[at].0.0 == id.0 && objects[at].0.1 == id.1 {
            assert(slot_ids(slots_of(objects@))[at as int] == id);
            return true;
        }
        at = at + 1;
    }
    false
}

} // verus!
