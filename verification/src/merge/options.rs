//! What a merge in the file system is asked to do.

use vstd::prelude::*;
use vstd::std_specs::convert::FromSpecImpl;
use crate::error::MergeError;
use crate::merge::loader::fs::{FileSystemMergingDestination, FileSystemMergingSource};

verus! {

/// The sources, the destination and whether the output is to be compressed.
#[derive(Debug, Clone)]
pub struct FileSystemOptions<'a> {
    pub input_sources: Vec<FileSystemMergingSource<'a>>,
    pub destination: FileSystemMergingDestination<'a>,
    pub compress: bool,
}

impl<'a> FileSystemOptions<'a> {
    /// The options say what the three values say: one source for each input
    /// file, in order, the output file, and the flag.
    pub open spec fn describes(
        &self,
        input_files: Seq<String>,
        output_file: Seq<char>,
        compress: bool,
    ) -> bool {
        &&& self.input_sources@.len() == input_files.len()
        &&& forall|i: int|
            0 <= i < input_files.len() ==> (#[trigger] self.input_sources@[i]).input_file@
                == input_files[i]@
        &&& self.destination.output_file@ == output_file
        &&& self.compress == compress
    }

    /// Checks that at least two sources are named: this is found out before
    /// anything is read.
    pub fn check_sources(&self) -> (outcome: Result<(), MergeError>)
        ensures
            outcome == (if self.input_sources@.len() < 2 {
                Err::<(), MergeError>(MergeError::InsufficientInputs)
            } else {
                Ok::<(), MergeError>(())
            }),
    {
        if self.input_sources.len() < 2 {
            Err(MergeError::InsufficientInputs)
        } else {
            Ok(())
        }
    }
}

impl<'a> FromSpecImpl<(&'a Vec<String>, &'a String, bool)> for FileSystemOptions<'a> {
    open spec fn obeys_from_spec() -> bool {
        false
    }

    open spec fn from_spec(value: (&'a Vec<String>, &'a String, bool)) -> Self {
        arbitrary()
    }
}

impl<'a> From<(&'a Vec<String>, &'a String, bool)> for FileSystemOptions<'a> {
    fn from(value: (&'a Vec<String>, &'a String, bool)) -> (options: Self)
        ensures
            options.describes(value.0@, value.1@, value.2),
    {
        let (input_files, output_file, compress) = value;
        let mut input_sources: Vec<FileSystemMergingSource<'a>> = Vec::new();
        let mut at: usize = 0;
        while at < input_files.len()
            invariant
                at <= input_files.len(),
                input_sources@.len() == at,
                forall|i: int|
                    0 <= i < at ==> (#[trigger] input_sources@[i]).input_file@ == input_files@[i]@,
            decreases input_files.len() - at,
        {
            input_sources.push(FileSystemMergingSource { input_file: input_files[at].as_str() });
            at = at + 1;
        }
        FileSystemOptions {
            input_sources,
            destination: FileSystemMergingDestination { output_file: output_file.as_str() },
            compress,
        }
    }
}

} // verus!
