//! The ways in which a merge can fail.

use vstd::prelude::*;
use vstd::string::StringExecFns;

verus! {

/// Why no merged document was produced.
#[derive(Debug)]
pub enum MergeError {
    /// Fewer than two source documents were supplied.
    InsufficientInputs,
    /// A source could not be read or parsed.
    LoadFailure { path: String, cause: String },
    /// No source contributed a page tree root.
    PagesRootNotFound,
    /// No source contributed a catalog.
    CatalogRootNotFound,
    /// The catalog is not a dictionary, or the finished document does not
    /// hold together: its pages, its roots or its outline are not what was
    /// merged.
    StructuralInconsistency,
    /// A document cannot be numbered: its objects, pages or bookmarks
    /// outnumber the object numbers, or a source brings bookmarks of its own.
    IdSpaceExhausted,
    /// The merged document could not be written.
    WriteFailure { path: String, cause: String },
}

impl MergeError {
    /// The text of the diagnostic line for this error.
    pub open spec fn message(&self) -> Seq<char> {
        match self {
            MergeError::InsufficientInputs => "At least two documents are required to merge."@,
            MergeError::LoadFailure { path, cause } => "Failed to load "@ + path@ + ": "@ + cause@,
            MergeError::PagesRootNotFound => "Pages root not found."@,
            MergeError::CatalogRootNotFound => "Catalog root not found."@,
            MergeError::StructuralInconsistency =>
                "The merged document is structurally inconsistent."@,
            MergeError::IdSpaceExhausted => "The documents cannot be numbered."@,
            MergeError::WriteFailure { path, cause } => "Failed to save output file "@ + path@
                + ": "@ + cause@,
        }
    }

    /// The diagnostic line for this error.
    pub fn to_string(&self) -> (text: String)
        ensures
            text@ == self.message(),
    {
        match self {
            MergeError::InsufficientInputs => String::from_str(
                "At least two documents are required to merge.",
            ),
            MergeError::LoadFailure { path, cause } => {
                let mut text = String::from_str("Failed to load ");
                text.append(path.as_str());
                text.append(": ");
                text.append(cause.as_str());
                text
            },
            MergeError::PagesRootNotFound => String::from_str("Pages root not found."),
            MergeError::CatalogRootNotFound => String::from_str("Catalog root not found."),
            MergeError::StructuralInconsistency => String::from_str(
                "The merged document is structurally inconsistent.",
            ),
            MergeError::IdSpaceExhausted => String::from_str("The documents cannot be numbered."),
            MergeError::WriteFailure { path, cause } => {
                let mut text = String::from_str("Failed to save output file ");
                text.append(path.as_str());
                text.append(": ");
                text.append(cause.as_str());
                text
            },
        }
    }
}

} // verus!
