//! The rules of the command line: which inputs are patterns, which files
//! are taken, and how many are needed.

use vstd::prelude::*;
use vstd::string::{StrSliceExecFns, StringExecFns};

verus! {

/// Why the inputs of a run are refused.
#[derive(Clone, Copy, Debug, PartialEq, Eq, Structural)]
pub enum InputError {
    /// No file is left once the patterns have been expanded.
    NoInputFiles,
    /// A single file is left: there is nothing to merge it with.
    TooFewInputFiles,
}

impl InputError {
    /// The text of the diagnostic line for this error.
    pub open spec fn message(&self) -> Seq<char> {
        match self {
            InputError::NoInputFiles => "No PDF files found after expanding patterns"@,
            InputError::TooFewInputFiles => "At least 2 PDF files are required for merging"@,
        }
    }

    /// The diagnostic line for this error.
    pub fn to_string(&self) -> (text: String)
        ensures
            text@ == self.message(),
    {
        match self {
            InputError::NoInputFiles => String::from_str(
                "No PDF files found after expanding patterns",
            ),
            InputError::TooFewInputFiles => String::from_str(
                "At least 2 PDF files are required for merging",
            ),
        }
    }
}

/// A character that makes an input a pattern rather than a path.
pub open spec fn is_glob_char(c: char) -> bool {
    c == '*' || c == '?' || c == '['
}

/// An input is a pattern where it holds a wildcard character.
pub open spec fn holds_glob_char(input: Seq<char>) -> bool {
    exists|i: int| 0 <= i < input.len() && is_glob_char(#[trigger] input[i])
}

/// Whether an input is a pattern to expand rather than the path of a file.
pub fn is_glob_pattern(input: &str) -> (pattern: bool)
    ensures
        pattern == holds_glob_char(input@),
{
    let length = input.unicode_len();
    let mut at: usize = 0;
    while at < length
        invariant
            at <= length,
            length == input@.len(),
            forall|i: int| 0 <= i < at ==> !is_glob_char(#[trigger] input@[i]),
        decreases length - at,
    {
        let c = input.get_char(at);
        if c == '*' || c == '?' || c == '[' {
            return true;
        }
        at = at + 1;
    }
    false
}

/// The extension `pdf`, in any mix of upper and lower case.
pub open spec fn spells_pdf(extension: Seq<char>) -> bool {
    &&& extension.len() == 3
    &&& (extension[0] == 'p' || extension[0] == 'P')
    &&& (extension[1] == 'd' || extension[1] == 'D')
    &&& (extension[2] == 'f' || extension[2] == 'F')
}

/// Whether a file with the given extension is taken from an expanded pattern.
pub fn is_pdf_extension(extension: &str) -> (taken: bool)
    ensures
        taken == spells_pdf(extension@),
{
    if extension.unicode_len() != 3 {
        return false;
    }
    let first = extension.get_char(0);
    let second = extension.get_char(1);
    let third = extension.get_char(2);
    (first == 'p' || first == 'P') && (second == 'd' || second == 'D') && (third == 'f' || third
        == 'F')
}

/// Checks that there are at least two input files.
pub fn check_input_count(count: usize) -> (outcome: Result<(), InputError>)
    ensures
        outcome == (if count == 0 {
            Err::<(), InputError>(InputError::NoInputFiles)
        } else if count < 2 {
            Err::<(), InputError>(InputError::TooFewInputFiles)
        } else {
            Ok::<(), InputError>(())
        }),
{
    if count == 0 {
        Err(InputError::NoInputFiles)
    } else if count < 2 {
        Err(InputError::TooFewInputFiles)
    } else {
        Ok(())
    }
}

} // verus!
