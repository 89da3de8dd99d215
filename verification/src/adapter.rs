//! The boundary to the document model library. Everything in this file is
//! taken on trust: each contract restates what the library's source shows of
//! the function that the body calls.

use vstd::prelude::*;
use crate::bookmark::Bookmark;
use crate::model::{
    lists_ascending, object_type, resolve, DocumentModel, Entries, Key, ObjectId, PdfValue, Slot,
};

verus! {

/// `lopdf::Object`: an object of a document. What it holds is `object_value`.
#[verifier::external_type_specification]
#[verifier::external_body]
pub struct ExObject(lopdf::Object);

/// `lopdf::Dictionary`: a dictionary object. What it holds is
/// `dictionary_entries`.
#[verifier::external_type_specification]
#[verifier::external_body]
pub struct ExDictionary(lopdf::Dictionary);

/// `lopdf::Document`: a document. What it holds is `document_model`.
#[verifier::external_type_specification]
#[verifier::external_body]
pub struct ExDocument(lopdf::Document);

/// What an object holds.
pub uninterp spec fn object_value(object: lopdf::Object) -> PdfValue;

/// What a dictionary holds.
pub uninterp spec fn dictionary_entries(dictionary: lopdf::Dictionary) -> Entries;

/// What a document holds.
pub uninterp spec fn document_model(document: lopdf::Document) -> DocumentModel;

/// The pages that `Document::page_iter` finds in a document, in page order.
pub uninterp spec fn page_sequence(document: DocumentModel) -> Seq<ObjectId>;

/// The document that `Document::renumber_objects_with` leaves.
pub uninterp spec fn renumbered(document: DocumentModel, start: u32) -> DocumentModel;

/// The document that `Document::build_outline` leaves.
pub uninterp spec fn outlined(document: DocumentModel) -> DocumentModel;

/// The document that `Document::compress` leaves.
pub uninterp spec fn compressed(document: DocumentModel) -> DocumentModel;

/// The slots that a vector of identified objects stands for.
pub open spec fn slots_of(objects: Seq<(ObjectId, lopdf::Object)>) -> Seq<Slot> {
    Seq::new(objects.len(), |i: int| (objects[i].0, object_value(objects[i].1)))
}

/// The values that a vector of objects stands for.
pub open spec fn values_of(objects: Seq<lopdf::Object>) -> Seq<PdfValue> {
    Seq::new(objects.len(), |i: int| object_value(objects[i]))
}

/// `refs` are the values of `objects` in the order of their identifiers.
pub open spec fn refs_list(refs: Seq<&lopdf::Object>, objects: Map<ObjectId, PdfValue>) -> bool {
    exists|slots: Seq<Slot>|
        #![trigger lists_ascending(slots, objects)]
        lists_ascending(slots, objects) && slots.len() == refs.len() && forall|i: int|
            0 <= i < refs.len() ==> (#[trigger] slots[i]).1 == object_value(*refs[i])
}

/// `pairs` lists every entry of `entries`, and nothing else.
pub open spec fn lists_entries(pairs: Seq<(Vec<u8>, lopdf::Object)>, entries: Entries) -> bool {
    &&& forall|i: int|
        0 <= i < pairs.len() ==> entries.contains_key(#[trigger] pairs[i].0@)
            && entries[pairs[i].0@] == object_value(pairs[i].1)
    &&& forall|key: Key| #[trigger]
        entries.contains_key(key) ==> exists|i: int| 0 <= i < pairs.len() && pairs[i].0@ == key
}

/// A document can be renumbered from `start`: the numbers suffice, and the
/// document has no top-level bookmarks, whose nesting the renumbering would
/// otherwise walk down without an end where it runs in a circle.
pub open spec fn renumbering_fits(document: DocumentModel, start: u32) -> bool {
    &&& 1 <= start
    &&& document.objects.dom().finite()
    &&& document.object_count() <= i32::MAX
    &&& start + document.object_count() <= u32::MAX
    &&& document.bookmarks.len() == 0
}

/// What renumbering from `start` is known to do to a document: no object is
/// added, the objects take the numbers from `start` on without a gap, each
/// a number of its own, and the last number that was given is recorded. The
/// bookmarks keep their identifiers and their nesting.
pub open spec fn renumbering_facts(
    before: DocumentModel,
    after: DocumentModel,
    start: u32,
) -> bool {
    &&& after.objects.dom().finite()
    &&& after.object_count() <= before.object_count()
    &&& after.max_id + 1 == start + after.object_count()
    &&& forall|id: ObjectId| #[trigger]
        after.objects.contains_key(id) ==> start <= id.0 <= after.max_id
    &&& forall|a: ObjectId, b: ObjectId|
        #[trigger] after.objects.contains_key(a) && #[trigger] after.objects.contains_key(b)
            && a.0 == b.0 ==> a == b
    &&& after.version == before.version
    &&& after.max_bookmark_id == before.max_bookmark_id
    &&& after.bookmarks == before.bookmarks
    &&& after.bookmark_table.dom() == before.bookmark_table.dom()
    &&& forall|id: u32| #[trigger]
        before.bookmark_table.contains_key(id) ==> after.bookmark_table[id].children
            == before.bookmark_table[id].children
}

/// What building the outline is known to leave as it is: the version, the
/// trailer and the bookmarks. It adds objects and moves the highest number.
pub open spec fn outline_facts(before: DocumentModel, after: DocumentModel) -> bool {
    &&& after.version == before.version
    &&& after.trailer == before.trailer
    &&& after.max_bookmark_id == before.max_bookmark_id
    &&& after.bookmarks == before.bookmarks
    &&& after.bookmark_table == before.bookmark_table
}

/// What compressing is known to leave as it is: everything but the objects,
/// of which it changes the streams only, so that the same identifiers stay
/// in use.
pub open spec fn compression_facts(before: DocumentModel, after: DocumentModel) -> bool {
    &&& after.version == before.version
    &&& after.trailer == before.trailer
    &&& after.max_id == before.max_id
    &&& after.max_bookmark_id == before.max_bookmark_id
    &&& after.bookmarks == before.bookmarks
    &&& after.bookmark_table == before.bookmark_table
    &&& after.objects.dom() == before.objects.dom()
}

/// `count` is the number of objects of a document, which is finite.
pub open spec fn count_of_objects(document: DocumentModel, count: usize) -> bool {
    document.objects.dom().finite() && count == document.object_count()
}

/// An outline can be built without leaving the identifier space: the outline
/// and each bookmark take two numbers after the highest one in use.
pub open spec fn outline_fits(document: DocumentModel) -> bool {
    &&& document.bookmarks_flat()
    &&& document.max_id + 1 + 2 * document.bookmarks.len() <= u32::MAX
}

/// `Dictionary::get_type` on a dictionary or on the dictionary of a stream:
/// the type that the object declares.
#[verifier::external_body]
pub(crate) fn object_declared_type(object: &lopdf::Object) -> (name: Option<Vec<u8>>)
    ensures
        match name {
            Some(bytes) => object_type(object_value(*object)) == Some(bytes@),
            None => object_type(object_value(*object)) is None,
        },
{
    let dictionary = match object {
        lopdf::Object::Dictionary(dictionary) => dictionary,
        lopdf::Object::Stream(stream) => &stream.dict,
        _ => return None,
    };
    dictionary.get_type().ok().map(|name| name.to_vec())
}

/// Tells a dictionary object from the others, and hands out the dictionary
/// or gives the object back.
#[verifier::external_body]
pub(crate) fn into_dictionary(object: lopdf::Object) -> (outcome: Result<
    lopdf::Dictionary,
    lopdf::Object,
>)
    ensures
        match outcome {
            Ok(dictionary) => object_value(object) == PdfValue::Dictionary(
                dictionary_entries(dictionary),
            ),
            Err(other) => other == object && !(object_value(object) is Dictionary),
        },
{
    match object {
        lopdf::Object::Dictionary(dictionary) => Ok(dictionary),
        other => Err(other),
    }
}

/// `Object::Dictionary`: the object that is the given dictionary.
#[verifier::external_body]
pub(crate) fn dictionary_object(dictionary: lopdf::Dictionary) -> (object: lopdf::Object)
    ensures
        object_value(object) == PdfValue::Dictionary(dictionary_entries(dictionary)),
{
    lopdf::Object::Dictionary(dictionary)
}

/// `Object::Reference`: the object that refers to `id`.
#[verifier::external_body]
pub(crate) fn reference_object(id: ObjectId) -> (object: lopdf::Object)
    ensures
        object_value(object) == PdfValue::Reference(id),
{
    lopdf::Object::Reference(id)
}

/// `Object::Integer`: the object that is the given integer.
#[verifier::external_body]
pub(crate) fn integer_object(number: i64) -> (object: lopdf::Object)
    ensures
        object_value(object) == PdfValue::Integer(number),
{
    lopdf::Object::Integer(number)
}

/// `Object::Array`: the object that is the array of the given items.
#[verifier::external_body]
pub(crate) fn array_object(items: Vec<lopdf::Object>) -> (object: lopdf::Object)
    ensures
        object_value(object) == PdfValue::Array(values_of(items@)),
{
    lopdf::Object::Array(items)
}

/// `Object::as_reference`: the identifier that a reference refers to.
#[verifier::external_body]
pub(crate) fn object_reference(object: &lopdf::Object) -> (target: Option<ObjectId>)
    ensures
        match target {
            Some(id) => object_value(*object) == PdfValue::Reference(id),
            None => !(object_value(*object) is Reference),
        },
{
    object.as_reference().ok()
}

/// `Object::as_array`: the items of an array.
#[verifier::external_body]
pub(crate) fn object_array<'a>(object: &'a lopdf::Object) -> (items: Option<&'a Vec<lopdf::Object>>)
    ensures
        match items {
            Some(list) => object_value(*object) == PdfValue::Array(values_of(list@)),
            None => !(object_value(*object) is Array),
        },
{
    object.as_array().ok()
}

/// `Dictionary::get`: the entry under `key`, if there is one.
#[verifier::external_body]
pub(crate) fn dictionary_get<'a>(dictionary: &'a lopdf::Dictionary, key: &[u8]) -> (entry: Option<
    &'a lopdf::Object,
>)
    ensures
        match entry {
            Some(object) => dictionary_entries(*dictionary).contains_key(key@)
                && dictionary_entries(*dictionary)[key@] == object_value(*object),
            None => !dictionary_entries(*dictionary).contains_key(key@),
        },
{
    dictionary.get(key).ok()
}

/// `Dictionary::set`: the entry under `key` becomes `value`.
#[verifier::external_body]
pub(crate) fn dictionary_set(dictionary: &mut lopdf::Dictionary, key: &[u8], value: lopdf::Object)
    ensures
        dictionary_entries(*final(dictionary)) == dictionary_entries(*old(dictionary)).insert(
            key@,
            object_value(value),
        ),
{
    dictionary.set(key, value);
}

/// `Dictionary::remove`: the entry under `key`, if there is one, leaves.
#[verifier::external_body]
pub(crate) fn dictionary_remove(dictionary: &mut lopdf::Dictionary, key: &[u8])
    ensures
        dictionary_entries(*final(dictionary)) == dictionary_entries(*old(dictionary)).remove(key@),
{
    dictionary.remove(key);
}

/// The entries of a dictionary, through its `IntoIterator`.
#[verifier::external_body]
pub(crate) fn dictionary_into_entries(dictionary: lopdf::Dictionary) -> (pairs: Vec<
    (Vec<u8>, lopdf::Object),
>)
    ensures
        lists_entries(pairs@, dictionary_entries(dictionary)),
{
    dictionary.into_iter().collect()
}

/// `Document::with_version`: a document of the given version that holds nothing.
#[verifier::external_body]
pub(crate) fn new_document(version: &str) -> (document: lopdf::Document)
    ensures
        document_model(document) == DocumentModel::empty(version@),
{
    lopdf::Document::with_version(version)
}

/// A copy of the field `objects` of a document, handed out in the order of
/// the map: by ascending identifier.
#[verifier::external_body]
pub(crate) fn document_objects(document: &lopdf::Document) -> (objects: Vec<
    (ObjectId, lopdf::Object),
>)
    ensures
        lists_ascending(slots_of(objects@), document_model(*document).objects),
{
    document.objects.clone().into_iter().collect()
}

/// The objects in the field `objects` of a document, handed out in the
/// order of the map: by ascending identifier.
#[verifier::external_body]
pub(crate) fn document_object_refs<'a>(document: &'a lopdf::Document) -> (objects: Vec<
    &'a lopdf::Object,
>)
    ensures
        refs_list(objects@, document_model(*document).objects),
{
    document.objects.values().collect()
}

/// The field `trailer` of a document.
#[verifier::external_body]
pub(crate) fn document_trailer<'a>(document: &'a lopdf::Document) -> (trailer:
    &'a lopdf::Dictionary)
    ensures
        dictionary_entries(*trailer) == document_model(*document).trailer,
{
    &document.trailer
}

/// The size of the field `objects` of a document.
#[verifier::external_body]
pub(crate) fn document_object_count(document: &lopdf::Document) -> (count: usize)
    ensures
        count_of_objects(document_model(*document), count),
{
    document.objects.len()
}

/// The field `max_id` of a document.
#[verifier::external_body]
pub(crate) fn document_max_id(document: &lopdf::Document) -> (max_id: u32)
    ensures
        max_id == document_model(*document).max_id,
{
    document.max_id
}

/// Assigns the field `max_id` of a document.
#[verifier::external_body]
pub(crate) fn document_set_max_id(document: &mut lopdf::Document, max_id: u32)
    ensures
        document_model(*final(document)) == document_model(*old(document)).with_max_id(max_id),
{
    document.max_id = max_id;
}

/// `Document::renumber_objects_with`. It counts the pages in an `i32` and the
/// objects in a `u32`, subtracts one from the next free number, and for each
/// object that it moves walks down the nesting of the top-level bookmarks,
/// so it is called only where `renumbering_fits`.
#[verifier::external_body]
pub(crate) fn document_renumber(document: &mut lopdf::Document, start: u32)
    requires
        renumbering_fits(document_model(*old(document)), start),
    ensures
        document_model(*final(document)) == renumbered(document_model(*old(document)), start),
        renumbering_facts(
            document_model(*old(document)),
            document_model(*final(document)),
            start,
        ),
{
    document.renumber_objects_with(start);
}

/// `Document::page_iter`: the pages in page order.
#[verifier::external_body]
pub(crate) fn document_page_ids(document: &lopdf::Document) -> (pages: Vec<ObjectId>)
    ensures
        pages@ == page_sequence(document_model(*document)),
{
    document.page_iter().collect()
}

/// `Document::get_object`, copied out: the object stored under `id`, followed
/// through references; nothing where an identifier on the way is not in
/// use or the chain is longer than the limit.
#[verifier::external_body]
pub(crate) fn document_fetch(document: &lopdf::Document, id: ObjectId) -> (object: Option<
    lopdf::Object,
>)
    ensures
        match object {
            Some(found) => resolve(document_model(*document).objects, id) == Some(
                object_value(found),
            ),
            None => resolve(document_model(*document).objects, id) is None,
        },
{
    document.get_object(id).ok().cloned()
}

/// Inserts into the field `objects` of a document.
#[verifier::external_body]
pub(crate) fn document_insert(document: &mut lopdf::Document, id: ObjectId, object: lopdf::Object)
    ensures
        document_model(*final(document)) == document_model(*old(document)).with_object(
            id,
            object_value(object),
        ),
{
    document.objects.insert(id, object);
}

/// The field `trailer` of a document, to be changed in place: what it
/// holds at the end is what the document then holds as its trailer.
#[verifier::external_body]
pub(crate) fn document_trailer_mut(document: &mut lopdf::Document) -> (trailer:
    &mut lopdf::Dictionary)
    ensures
        dictionary_entries(*trailer) == document_model(*old(document)).trailer,
        document_model(*final(document)) == (DocumentModel {
            trailer: dictionary_entries(*final(trailer)),
            ..document_model(*old(document))
        }),
{
    &mut document.trailer
}

/// `Document::add_bookmark` without a parent: the bookmark gets the next
/// bookmark identifier and goes to the end of the top level.
#[verifier::external_body]
pub(crate) fn document_append_bookmark(document: &mut lopdf::Document, bookmark: &Bookmark) -> (id:
    u32)
    requires
        document_model(*old(document)).max_bookmark_id < u32::MAX,
    ensures
        id == document_model(*old(document)).max_bookmark_id + 1,
        document_model(*final(document)) == document_model(*old(document)).with_bookmark(
            bookmark@.model(id),
        ),
{
    let color = bookmark.color;
    let channels = [color.red.into(), color.green.into(), color.blue.into()];
    let title = bookmark.title.clone();
    let staged = lopdf::Bookmark::new(title, channels, bookmark.format, bookmark.page);
    document.add_bookmark(staged, None)
}

/// The length of the field `bookmarks` of a document: the number of its
/// top-level bookmarks.
#[verifier::external_body]
pub(crate) fn document_bookmark_count(document: &lopdf::Document) -> (count: usize)
    ensures
        count == document_model(*document).bookmarks.len(),
{
    document.bookmarks.len()
}

/// `Document::adjust_zero_pages`: it hands a bookmark without a page the page
/// of its first child, so it leaves bookmarks without children as they are.
#[verifier::external_body]
pub(crate) fn document_adjust_zero_pages(document: &mut lopdf::Document)
    requires
        document_model(*old(document)).bookmarks_flat(),
    ensures
        document_model(*final(document)) == document_model(*old(document)),
{
    document.adjust_zero_pages();
}

/// `Document::build_outline`: where there are bookmarks, the outline's root
/// takes the number after the highest one in use; the call writes to the
/// objects and to the highest number only. It panics where the
/// numbers run out or a bookmark is missing from the table, so it is called
/// only where `outline_fits`.
#[verifier::external_body]
pub(crate) fn document_build_outline(document: &mut lopdf::Document) -> (root: Option<ObjectId>)
    requires
        outline_fits(document_model(*old(document))),
    ensures
        document_model(*final(document)) == outlined(document_model(*old(document))),
        outline_facts(document_model(*old(document)), document_model(*final(document))),
        root == if document_model(*old(document)).bookmarks.len() > 0 {
            Some(((document_model(*old(document)).max_id + 1) as u32, 0u16))
        } else {
            None
        },
{
    document.build_outline()
}

/// `Document::catalog_mut`: the dictionary of the catalog, which the
/// trailer's `Root` leads to, to be changed in place; nothing where the
/// document has no such dictionary. What the dictionary holds at the end is
/// what the document then holds where its catalog is stored.
#[verifier::external_body]
pub(crate) fn document_catalog_mut(document: &mut lopdf::Document) -> (catalog: Option<
    &mut lopdf::Dictionary,
>)
    ensures
        match catalog {
            Some(entries) => document_model(*old(document)).catalog_entries() == Some(
                dictionary_entries(*entries),
            ) && document_model(*final(document)) == document_model(*old(document)).with_object(
                document_model(*old(document)).catalog_id()->Some_0,
                PdfValue::Dictionary(dictionary_entries(*final(entries))),
            ),
            None => document_model(*old(document)).catalog_entries() is None && document_model(
                *final(document),
            ) == document_model(*old(document)),
        },
{
    document.catalog_mut().ok()
}

/// `Document::compress`: it goes through the objects and compresses the
/// streams among them in place.
#[verifier::external_body]
pub(crate) fn document_compress(document: &mut lopdf::Document)
    ensures
        document_model(*final(document)) == compressed(document_model(*old(document))),
        compression_facts(document_model(*old(document)), document_model(*final(document))),
{
    document.compress();
}

} // verus!
