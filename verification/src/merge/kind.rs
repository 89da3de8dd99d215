//! The kinds of object that the merge tells apart.

use vstd::prelude::*;
use vstd::string::StringSliceAdditionalSpecFns;
use crate::model::{object_type, Key, PdfValue};

verus! {

/// What an object is to the merge, decided once from the type it declares.
#[derive(Clone, Copy, Debug, PartialEq, Eq, Structural)]
pub enum ObjectKind {
    /// The root of a document.
    Catalog,
    /// A node of the page tree.
    Pages,
    /// A page.
    Page,
    /// The root of a document's outline.
    Outlines,
    /// An entry of a document's outline.
    Outline,
    /// Anything else, typed or not.
    Other,
}

/// The kind that a type name stands for.
pub open spec fn kind_of_name(name: Key) -> ObjectKind {
    if name == "Catalog".spec_bytes() {
        ObjectKind::Catalog
    } else if name == "Pages".spec_bytes() {
        ObjectKind::Pages
    } else if name == "Page".spec_bytes() {
        ObjectKind::Page
    } else if name == "Outlines".spec_bytes() {
        ObjectKind::Outlines
    } else if name == "Outline".spec_bytes() {
        ObjectKind::Outline
    } else {
        ObjectKind::Other
    }
}

/// The kind of an object: that of the type it declares, if it declares one.
pub open spec fn kind_of(value: PdfValue) -> ObjectKind {
    match object_type(value) {
        Some(name) => kind_of_name(name),
        None => ObjectKind::Other,
    }
}

/// Whether two byte strings are the same.
pub fn same_bytes(left: &[u8], right: &[u8]) -> (same: bool)
    ensures
        same == (left@ == right@),
{
    if left.len() != right.len() {
        return false;
    }
    let mut at: usize = 0;
    while at < left.len()
        invariant
            left.len() == right.len(),
            at <= left.len(),
            forall|i: int| 0 <= i < at ==> left@[i] == right@[i],
        decreases left.len() - at,
    {
        if left[at] != right[at] {
            return false;
        }
        at = at + 1;
    }
    assert(left@ =~= right@);
    true
}

/// The kind that a type name stands for.
pub fn classify(name: &[u8]) -> (kind: ObjectKind)
    ensures
        kind == kind_of_name(name@),
{
    if same_bytes(name, "Catalog".as_bytes()) {
        ObjectKind::Catalog
    } else if same_bytes(name, "Pages".as_bytes()) {
        ObjectKind::Pages
    } else if same_bytes(name, "Page".as_bytes()) {
        ObjectKind::Page
    } else if same_bytes(name, "Outlines".as_bytes()) {
        ObjectKind::Outlines
    } else if same_bytes(name, "Outline".as_bytes()) {
        ObjectKind::Outline
    } else {
        ObjectKind::Other
    }
}

} // verus!
