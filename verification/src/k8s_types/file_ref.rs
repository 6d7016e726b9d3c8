//! Reference to a YAML file in the filesystem

use vstd::prelude::*;

verus! {

/// Necessary metadata for referencing a YAML file in the filesystem
#[derive(Debug, Clone)]
pub struct FileRef {
    /// The OS-agnostic, slash-delimited, relative path
    pub path: String,

    /// Index of the object in a multi-object YAML file
    pub index: Option<usize>,
}

} // verus!
