//! Bookmarks as the merge stages them before they enter a document.

use vstd::prelude::*;
use crate::model::{BookmarkModel, ObjectId};

verus! {

/// A display color whose channels are either off or fully on.
#[derive(Clone, Copy, Debug, PartialEq, Eq, Structural)]
pub struct Rgb {
    pub red: bool,
    pub green: bool,
    pub blue: bool,
}

/// One navigation entry: a title that leads to a page.
#[derive(Debug)]
pub struct Bookmark {
    pub title: String,
    pub color: Rgb,
    /// 0 for plain, 1 for italic, 2 for bold, 3 for bold italic.
    pub format: u32,
    pub page: ObjectId,
}

/// What a staged bookmark says.
pub struct Staged {
    pub title: Seq<char>,
    pub color: Rgb,
    pub format: u32,
    pub page: ObjectId,
}

/// The single-precision bit pattern of a color channel: 1.0 when on, 0.0 when off.
pub open spec fn channel_bits(on: bool) -> u32 {
    if on {
        0x3f80_0000
    } else {
        0
    }
}

/// The color of the bookmarks that the merge makes: blue.
pub open spec fn default_color() -> Rgb {
    Rgb { red: false, green: false, blue: true }
}

impl Staged {
    /// The bookmark that a document holds once this one was appended to it
    /// under the identifier `id`: it has no children.
    pub open spec fn model(self, id: u32) -> BookmarkModel {
        BookmarkModel {
            title: self.title,
            format: self.format,
            color: (
                channel_bits(self.color.red),
                channel_bits(self.color.green),
                channel_bits(self.color.blue),
            ),
            page: self.page,
            children: Seq::empty(),
            id,
        }
    }
}

impl View for Bookmark {
    type V = Staged;

    open spec fn view(&self) -> Staged {
        Staged { title: self.title@, color: self.color, format: self.format, page: self.page }
    }
}

/// What the staged bookmarks say, in order.
pub open spec fn staged_of(bookmarks: Seq<Bookmark>) -> Seq<Staged> {
    Seq::new(bookmarks.len(), |i: int| bookmarks[i]@)
}

} // verus!
