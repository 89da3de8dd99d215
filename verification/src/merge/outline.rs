//! The staged bookmarks on their way into the merged document.

use vstd::prelude::*;
use crate::adapter::{document_append_bookmark, document_model};
use crate::bookmark::{staged_of, Bookmark, Staged};
use crate::merge::graph::{bookmark_ids, bookmark_table, position_of, retargeted, with_bookmarks};
use crate::model::{DocumentModel, ObjectId};

verus! {

/// A document without bookmarks that is given staged bookmarks numbers them
/// from 1 in their order, and none of them has children.
pub proof fn lemma_bookmarks_of_fresh(document: DocumentModel, staged: Seq<Staged>)
    requires
        document.without_bookmarks(),
        staged.len() <= u32::MAX,
    ensures
        with_bookmarks(document, staged) == (DocumentModel {
            max_bookmark_id: staged.len() as u32,
            bookmarks: bookmark_ids(staged.len()),
            bookmark_table: bookmark_table(staged),
            ..document
        }),
        with_bookmarks(document, staged).bookmarks_flat(),
    decreases staged.len(),
{
    if staged.len() == 0 {
        assert(bookmark_ids(0) =~= document.bookmarks);
        assert(bookmark_table(staged) =~= document.bookmark_table);
    } else {
        let shorter = staged.drop_last();
        lemma_bookmarks_of_fresh(document, shorter);
        assert(bookmark_ids(staged.len()) =~= bookmark_ids(shorter.len()).push(
            staged.len() as u32,
        ));
        assert(bookmark_table(staged) =~= bookmark_table(shorter).insert(
            staged.len() as u32,
            staged.last().model(staged.len() as u32),
        ));
    }
}

/// Whether two lists name the same pages in the same order.
pub fn same_pages(left: &Vec<ObjectId>, right: &Vec<ObjectId>) -> (same: bool)
    ensures
        same == (left@ == right@),
{
    if left.len() != right.len() {
        return false;
    }
    let mut at: usize = 0;
    while at < left.len()
        invariant
            left.len() == right.len(),
            at <= left.len(),
            forall|i: int| 0 <= i < at ==> left@[i] == right@[i],
        decreases left.len() - at,
    {
        if left[at].0 != right[at].0 || left[at].1 != right[at].1 {
            return false;
        }
        at = at + 1;
    }
    assert(left@ =~= right@);
    true
}

/// The first place at which `id` stands among `pages`.
pub fn position_of_page(pages: &Vec<ObjectId>, id: ObjectId) -> (place: Option<usize>)
    ensures
        match place {
            Some(found) => position_of(pages@, id) == Some(found as int) && found < pages.len(),
            None => position_of(pages@, id) is None,
        },
{
    let mut at: usize = 0;
    while at < pages.len()
        invariant
            at <= pages.len(),
            position_of(pages@.take(at as int), id) is None,
        decreases pages.len() - at,
    {
        proof {
            assert(pages@.take(at + 1).drop_last() =~= pages@.take(at as int));
        }
        if pages[at].0 == id.0 && pages[at].1 == id.1 {
            proof {
                lemma_position_stays(pages@, id, at + 1);
            }
            return Some(at);
        }
        at = at + 1;
    }
    assert(pages@.take(pages.len() as int) =~= pages@);
    None
}

/// A place that was found among the first identifiers stays the place among all.
proof fn lemma_position_stays(ids: Seq<ObjectId>, id: ObjectId, upto: int)
    requires
        0 <= upto <= ids.len(),
        position_of(ids.take(upto), id) is Some,
    ensures
        position_of(ids, id) == position_of(ids.take(upto), id),
    decreases ids.len() - upto,
{
    if upto < ids.len() {
        assert(ids.take(upto + 1).drop_last() =~= ids.take(upto));
        lemma_position_stays(ids, id, upto + 1);
    } else {
        assert(ids.take(upto) =~= ids);
    }
}

/// Points the staged bookmarks at the pages under their new identifiers:
/// each leads to the page that stands where its old target stood.
pub fn retarget(bookmarks: Vec<Bookmark>, before: &Vec<ObjectId>, after: &Vec<ObjectId>) -> (moved:
    Vec<Bookmark>)
    ensures
        staged_of(moved@) == retargeted(staged_of(bookmarks@), before@, after@),
{
    let mut moved: Vec<Bookmark> = Vec::new();
    let ghost staged = staged_of(bookmarks@);
    for bookmark in it: bookmarks
        invariant
            it.seq() == bookmarks@,
            staged == staged_of(bookmarks@),
            moved.len() == it.index(),
            forall|i: int|
                0 <= i < it.index() ==> (#[trigger] moved@[i])@ == retargeted(
                    staged,
                    before@,
                    after@,
                )[i],
    {
        let page = match position_of_page(before, bookmark.page) {
            Some(place) => if place < after.len() {
                after[place]
            } else {
                (0, 0)
            },
            None => (0, 0),
        };
        moved.push(
            Bookmark {
                title: bookmark.title,
                color: bookmark.color,
                format: bookmark.format,
                page,
            },
        );
    }
    moved
}

/// Appends the staged bookmarks to the top level of the document's
/// bookmarks, in order.
pub(crate) fn add_bookmarks(document: &mut lopdf::Document, bookmarks: &Vec<Bookmark>)
    requires
        document_model(*old(document)).max_bookmark_id + bookmarks.len() <= u32::MAX,
    ensures
        document_model(*final(document)) == with_bookmarks(
            document_model(*old(document)),
            staged_of(bookmarks@),
        ),
{
    let ghost start = document_model(*document);
    let ghost staged = staged_of(bookmarks@);
    let mut at: usize = 0;
    while at < bookmarks.len()
        invariant
            at <= bookmarks.len(),
            staged == staged_of(bookmarks@),
            start.max_bookmark_id + bookmarks.len() <= u32::MAX,
            document_model(*document) == with_bookmarks(start, staged.take(at as int)),
            document_model(*document).max_bookmark_id == start.max_bookmark_id + at,
        decreases bookmarks.len() - at,
    {
        proof {
            assert(staged.take(at + 1).drop_last() =~= staged.take(at as int));
        }
        document_append_bookmark(document, &bookmarks[at]);
        at = at + 1;
    }
    assert(staged.take(staged.len() as int) =~= staged);
}

} // verus!
