//! Sources and destinations in the file system.

use vstd::prelude::*;
use crate::paths::{file_name, final_segment, main_separator};

verus! {

/// Where the merged document goes.
#[derive(Debug, Clone)]
pub struct FileSystemMergingDestination<'a> {
    pub output_file: &'a str,
}

/// Where a source document comes from.
#[derive(Debug, Clone)]
pub struct FileSystemMergingSource<'a> {
    pub input_file: &'a str,
}

impl<'a> FileSystemMergingSource<'a> {
    /// The name of the source's file: the final segment of its path by the
    /// platform's separator.
    pub fn original_filename(&self) -> (name: String)
        ensures
            name@ == final_segment(self.input_file@, '/') || name@ == final_segment(
                self.input_file@,
                '\\',
            ),
    {
        file_name(self.input_file, main_separator())
    }
}

} // verus!
