//! File names out of paths.

use vstd::prelude::*;
use vstd::string::{StrSliceExecFns, StringExecFns};

verus! {

/// The place of the last `separator` in `path`, or -1 where there is none.
pub open spec fn last_separator(path: Seq<char>, separator: char) -> int
    decreases path.len(),
{
    if path.len() == 0 {
        -1
    } else if path.last() == separator {
        path.len() - 1
    } else {
        last_separator(path.drop_last(), separator)
    }
}

/// The final segment of a path: what follows its last separator, or all of
/// it where it has none.
pub open spec fn final_segment(path: Seq<char>, separator: char) -> Seq<char> {
    path.subrange(last_separator(path, separator) + 1, path.len() as int)
}

/// The last separator of a path is the last separator of any of its
/// beginnings that is followed by no separator.
proof fn lemma_last_separator(path: Seq<char>, separator: char, upto: int)
    requires
        0 <= upto <= path.len(),
        forall|i: int| upto <= i < path.len() ==> path[i] != separator,
    ensures
        last_separator(path, separator) == last_separator(path.take(upto), separator),
        -1 <= last_separator(path, separator) < upto,
    decreases path.len() - upto,
{
    if upto < path.len() {
        lemma_last_separator(path.drop_last(), separator, upto);
        assert(path.drop_last().take(upto) =~= path.take(upto));
    } else {
        assert(path.take(upto) =~= path);
        lemma_last_separator_bound(path, separator);
    }
}

/// The last separator lies within the path.
proof fn lemma_last_separator_bound(path: Seq<char>, separator: char)
    ensures
        -1 <= last_separator(path, separator) < path.len(),
    decreases path.len(),
{
    if path.len() > 0 && path.last() != separator {
        lemma_last_separator_bound(path.drop_last(), separator);
    }
}

/// Whether `separator` parts the segments of paths on some platform.
pub open spec fn is_separator(separator: char) -> bool {
    separator == '/' || separator == '\\'
}

/// `std::path::MAIN_SEPARATOR`: the separator of path segments on this
/// platform, which is `/` or `\`.
#[verifier::external_body]
pub(crate) fn main_separator() -> (separator: char)
    ensures
        is_separator(separator),
{
    std::path::MAIN_SEPARATOR
}

/// The final segment of `path`, whose segments `separator` parts.
pub fn file_name(path: &str, separator: char) -> (name: String)
    ensures
        name@ == final_segment(path@, separator),
{
    let length = path.unicode_len();
    let mut start: usize = length;
    while start > 0 && path.get_char(start - 1) != separator
        invariant
            start <= length,
            length == path@.len(),
            forall|i: int| start <= i < length ==> path@[i] != separator,
        decreases start,
    {
        start = start - 1;
    }
    proof {
        lemma_last_separator(path@, separator, start as int);
    }
    String::from_str(path.substring_char(start, length))
}

} // verus!
