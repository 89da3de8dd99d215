//! Mathematical model of the PDF object graph that the contracts speak of.

use vstd::prelude::*;
use vstd::string::StringSliceAdditionalSpecFns;

verus! {

/// Object identifier: object number and generation number.
pub type ObjectId = (u32, u16);

/// A name or a dictionary key, as the bytes it is written with.
pub type Key = Seq<u8>;

/// The entries of a dictionary.
pub type Entries = Map<Key, PdfValue>;

/// An object identifier together with the value stored under it.
pub type Slot = (ObjectId, PdfValue);

/// The value of a PDF object.
pub enum PdfValue {
    Null,
    Boolean(bool),
    Integer(i64),
    /// A real number, by the bit pattern of its single-precision encoding.
    Real(u32),
    Name(Key),
    /// A string and whether it is written in hexadecimal form.
    Text(Seq<u8>, bool),
    Array(Seq<PdfValue>),
    Dictionary(Entries),
    Stream(StreamValue),
    Reference(ObjectId),
}

/// The value of a stream object.
pub struct StreamValue {
    pub dict: Entries,
    pub content: Seq<u8>,
    pub allows_compression: bool,
    pub start_position: Option<usize>,
}

/// A bookmark as a document holds it.
pub struct BookmarkModel {
    pub title: Seq<char>,
    pub format: u32,
    /// Red, green and blue, each by the bit pattern of its single-precision encoding.
    pub color: (u32, u32, u32),
    pub page: ObjectId,
    pub children: Seq<u32>,
    pub id: u32,
}

/// What a document holds: its objects, its trailer and its bookmarks.
pub struct DocumentModel {
    pub version: Seq<char>,
    pub trailer: Entries,
    pub objects: Map<ObjectId, PdfValue>,
    pub max_id: u32,
    pub max_bookmark_id: u32,
    /// The top-level bookmarks, by their bookmark ids, in display order.
    pub bookmarks: Seq<u32>,
    pub bookmark_table: Map<u32, BookmarkModel>,
}

pub open spec fn type_key() -> Key {
    "Type".spec_bytes()
}

pub open spec fn linearized_key() -> Key {
    "Linearized".spec_bytes()
}

pub open spec fn parent_key() -> Key {
    "Parent".spec_bytes()
}

pub open spec fn kids_key() -> Key {
    "Kids".spec_bytes()
}

pub open spec fn count_key() -> Key {
    "Count".spec_bytes()
}

pub open spec fn pages_key() -> Key {
    "Pages".spec_bytes()
}

pub open spec fn outlines_key() -> Key {
    "Outlines".spec_bytes()
}

pub open spec fn root_key() -> Key {
    "Root".spec_bytes()
}

/// The type name that a dictionary declares: its `Type` entry where that is a
/// name, else `Linearized` where it has such an entry.
pub open spec fn declared_type(entries: Entries) -> Option<Key> {
    if entries.contains_key(type_key()) && entries[type_key()] is Name {
        Some(entries[type_key()]->Name_0)
    } else if entries.contains_key(linearized_key()) {
        Some(linearized_key())
    } else {
        None
    }
}

/// The type name of an object: dictionaries and streams may declare one.
pub open spec fn object_type(value: PdfValue) -> Option<Key> {
    match value {
        PdfValue::Dictionary(entries) => declared_type(entries),
        PdfValue::Stream(stream) => declared_type(stream.dict),
        _ => None,
    }
}

/// Strict order on object identifiers: by number, then by generation.
pub open spec fn id_before(a: ObjectId, b: ObjectId) -> bool {
    a.0 < b.0 || (a.0 == b.0 && a.1 < b.1)
}

/// The identifiers of a sequence of slots, in order.
pub open spec fn slot_ids(slots: Seq<Slot>) -> Seq<ObjectId> {
    Seq::new(slots.len(), |i: int| slots[i].0)
}

/// `slots` lists `objects` completely, by strictly ascending identifier.
pub open spec fn lists_ascending(slots: Seq<Slot>, objects: Map<ObjectId, PdfValue>) -> bool {
    &&& forall|i: int, j: int| 0 <= i < j < slots.len() ==> id_before(slots[i].0, slots[j].0)
    &&& forall|i: int|
        0 <= i < slots.len() ==> objects.contains_key(#[trigger] slots[i].0) && objects[slots[i].0]
            == slots[i].1
    &&& forall|id: ObjectId| #[trigger]
        objects.contains_key(id) ==> exists|i: int| 0 <= i < slots.len() && slots[i].0 == id
}

/// The objects of a store in the order of their identifiers.
pub open spec fn ascending_listing(objects: Map<ObjectId, PdfValue>) -> Seq<Slot> {
    choose|slots: Seq<Slot>| lists_ascending(slots, objects)
}

/// The value found by following `value` through at most `budget` references.
pub open spec fn follow(objects: Map<ObjectId, PdfValue>, value: PdfValue, budget: nat) -> Option<
    PdfValue,
>
    decreases budget,
{
    match value {
        PdfValue::Reference(id) => if budget == 0 || !objects.contains_key(id) {
            None
        } else {
            follow(objects, objects[id], (budget - 1) as nat)
        },
        _ => Some(value),
    }
}

/// How many references a lookup follows before it gives up.
pub open spec fn reference_limit() -> nat {
    128
}

/// The object that `id` stands for: the one stored under it, or, where that is
/// a reference, the one at the end of the chain of references.
pub open spec fn resolve(objects: Map<ObjectId, PdfValue>, id: ObjectId) -> Option<PdfValue> {
    if objects.contains_key(id) {
        follow(objects, objects[id], reference_limit())
    } else {
        None
    }
}

/// The identifier under which the object at the end of a chain of references
/// is stored, starting from the object `value` stored under `at`.
pub open spec fn follow_id(
    objects: Map<ObjectId, PdfValue>,
    at: ObjectId,
    value: PdfValue,
    budget: nat,
) -> Option<ObjectId>
    decreases budget,
{
    match value {
        PdfValue::Reference(id) => if budget == 0 || !objects.contains_key(id) {
            None
        } else {
            follow_id(objects, id, objects[id], (budget - 1) as nat)
        },
        _ => Some(at),
    }
}

/// Where the object that `id` stands for is stored.
pub open spec fn resolve_id(objects: Map<ObjectId, PdfValue>, id: ObjectId) -> Option<ObjectId> {
    if objects.contains_key(id) {
        follow_id(objects, id, objects[id], reference_limit())
    } else {
        None
    }
}

impl DocumentModel {
    /// A document without objects, trailer entries or bookmarks.
    pub open spec fn empty(version: Seq<char>) -> DocumentModel {
        DocumentModel {
            version,
            trailer: Map::empty(),
            objects: Map::empty(),
            max_id: 0,
            max_bookmark_id: 0,
            bookmarks: Seq::empty(),
            bookmark_table: Map::empty(),
        }
    }

    pub open spec fn with_object(self, id: ObjectId, value: PdfValue) -> DocumentModel {
        DocumentModel { objects: self.objects.insert(id, value), ..self }
    }

    pub open spec fn with_trailer_entry(self, key: Key, value: PdfValue) -> DocumentModel {
        DocumentModel { trailer: self.trailer.insert(key, value), ..self }
    }

    pub open spec fn with_max_id(self, max_id: u32) -> DocumentModel {
        DocumentModel { max_id, ..self }
    }

    /// The document after `bookmark` was appended to its top-level bookmarks.
    pub open spec fn with_bookmark(self, bookmark: BookmarkModel) -> DocumentModel {
        DocumentModel {
            max_bookmark_id: bookmark.id,
            bookmarks: self.bookmarks.push(bookmark.id),
            bookmark_table: self.bookmark_table.insert(bookmark.id, bookmark),
            ..self
        }
    }

    pub open spec fn object_count(self) -> nat {
        self.objects.dom().len()
    }

    /// The document has no bookmarks and has given out no bookmark identifier.
    pub open spec fn without_bookmarks(self) -> bool {
        &&& self.max_bookmark_id == 0
        &&& self.bookmarks == Seq::<u32>::empty()
        &&& self.bookmark_table.dom() == Set::<u32>::empty()
    }

    /// Every top-level bookmark is in the table and has no children.
    pub open spec fn bookmarks_flat(self) -> bool {
        forall|i: int|
            0 <= i < self.bookmarks.len() ==> self.bookmark_table.contains_key(
                #[trigger] self.bookmarks[i],
            ) && self.bookmark_table[self.bookmarks[i]].children.len() == 0
    }

    /// Where the catalog is stored: the trailer's `Root` names it.
    pub open spec fn catalog_id(self) -> Option<ObjectId> {
        if self.trailer.contains_key(root_key()) && self.trailer[root_key()] is Reference {
            resolve_id(self.objects, self.trailer[root_key()]->Reference_0)
        } else {
            None
        }
    }

    /// The entries of the catalog.
    pub open spec fn catalog_entries(self) -> Option<Entries> {
        match self.catalog_id() {
            Some(id) => match self.objects[id] {
                PdfValue::Dictionary(entries) => Some(entries),
                _ => None,
            },
            None => None,
        }
    }

    /// Where the root of the page tree is stored: the catalog's `Pages` names it.
    pub open spec fn page_tree_root(self) -> Option<ObjectId> {
        match self.catalog_entries() {
            Some(entries) => if entries.contains_key(pages_key()) && entries[pages_key()]
                is Reference {
                Some(entries[pages_key()]->Reference_0)
            } else {
                None
            },
            None => None,
        }
    }

    /// The entries of the root of the page tree.
    pub open spec fn page_tree_entries(self) -> Option<Entries> {
        match self.page_tree_root() {
            Some(root) => if self.objects.contains_key(root) {
                match self.objects[root] {
                    PdfValue::Dictionary(entries) => Some(entries),
                    _ => None,
                }
            } else {
                None
            },
            None => None,
        }
    }

    /// The document after `key` of its catalog was set to a reference to
    /// `target`; `None` where it has no catalog dictionary.
    pub open spec fn with_catalog_reference(self, key: Key, target: ObjectId) -> Option<
        DocumentModel,
    > {
        match self.catalog_id() {
            Some(id) => match self.objects[id] {
                PdfValue::Dictionary(entries) => Some(
                    self.with_object(
                        id,
                        PdfValue::Dictionary(entries.insert(key, PdfValue::Reference(target))),
                    ),
                ),
                _ => None,
            },
            None => None,
        }
    }
}

} // verus!
