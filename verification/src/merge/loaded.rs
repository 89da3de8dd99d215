//! A document with what a merge takes from it laid out beside it.

use vstd::prelude::*;
use vstd::string::StringExecFns;
use crate::adapter::{document_model, slots_of};
use crate::bookmark::Bookmark;
use crate::merge::graph::{filename_bookmark, first_page, pages_of};
use crate::merge::loader::MergableDocument;
use crate::model::{ascending_listing, DocumentModel, ObjectId};
use crate::paths::{file_name, final_segment, main_separator};

verus! {

/// A document as it was loaded, with its objects, its pages and its
/// bookmark taken out.
pub struct LoadedDocument {
    pub pdf_document: lopdf::Document,
    pub original_filename: String,
    pub filepath: String,
    pub objects: Vec<(ObjectId, lopdf::Object)>,
    pub pages: Vec<(ObjectId, lopdf::Object)>,
    pub bookmark: Bookmark,
}

impl LoadedDocument {
    /// What the document holds.
    pub open spec fn model(&self) -> DocumentModel {
        document_model(self.pdf_document)
    }

    /// What is laid out beside the document is what the document holds: its
    /// objects in the order of their identifiers, its pages in page order,
    /// and a bookmark with the name of the file that leads to the first page.
    pub open spec fn well_formed(&self) -> bool {
        &&& (self.original_filename@ == final_segment(self.filepath@, '/')
            || self.original_filename@ == final_segment(self.filepath@, '\\'))
        &&& slots_of(self.objects@) == ascending_listing(self.model().objects)
        &&& slots_of(self.pages@) == pages_of(self.model())
        &&& self.bookmark@ == filename_bookmark(self.original_filename@, first_page(self.model()))
    }

    /// Lays out what a merge takes from a document that was loaded from `filepath`.
    pub fn from_document(filepath: &str, pdf_document: lopdf::Document) -> (loaded: LoadedDocument)
        ensures
            loaded.well_formed(),
            loaded.filepath@ == filepath@,
            loaded.model() == document_model(pdf_document),
    {
        let separator = main_separator();
        let name = file_name(filepath, separator);
        let source = MergableDocument::from_document(name.as_str(), pdf_document);
        let objects = source.get_objects();
        let pages = source.get_pages();
        let bookmark = source.get_filename_based_bookmark(source.get_first_page_id());
        let loaded = LoadedDocument {
            pdf_document: source.into_document(),
            original_filename: name,
            filepath: String::from_str(filepath),
            objects,
            pages,
            bookmark,
        };
        loaded
    }

    /// The source that this document is to a merge.
    pub fn into_mergable(self) -> (source: MergableDocument)
        ensures
            source.filename() == self.original_filename@,
            source.model() == self.model(),
    {
        MergableDocument::from_document(self.original_filename.as_str(), self.pdf_document)
    }
}

} // verus!
