//! What the reader is started with.

use std::path::PathBuf;
use vstd::prelude::*;

verus! {

/// `std::path::PathBuf`, carried through as it is; nothing of its inside
/// is known here.
#[verifier::external_type_specification]
#[verifier::external_body]
pub struct ExPathBuf(std::path::PathBuf);

/// The file to read and, at most, one place in it to open at.
#[derive(Debug)]
pub struct Options {
    /// Path to the novel file.
    pub file_path: PathBuf,
    /// The bookmark to open at.
    pub bookmark: Option<usize>,
    /// The chapter to open at.
    pub chapter: Option<usize>,
}

} // verus!
