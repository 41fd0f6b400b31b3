//! The record and manifest types produced by one run.
//!
//! Every run constructs fresh values: one `ExecutionRecord` for the run's
//! timing and provenance, and one `WorkspaceIndex` describing the regular
//! files seen in the target directory.  Directory enumeration itself happens
//! outside this crate; a scan arrives here as a vector of `ScannedEntry`
//! values, one per immediate entry of the target directory.

use vstd::prelude::*;

verus! {

/// What kind of directory entry a scan observed.  Anything that is not a
/// regular file (directories, symlinks to directories, sockets, ...) is
/// excluded from the manifest.
#[derive(PartialEq, Eq, Structural, Clone, Copy, Debug)]
pub enum EntryKind {
    RegularFile,
    Directory,
    Other,
}

/// One immediate entry of the target directory, as observed by enumeration.
pub struct ScannedEntry {
    pub name: String,
    pub kind: EntryKind,
}

/// One regular file listed in the manifest.
pub struct FileEntry {
    pub name: String,
}

/// One program run's timing and provenance.  The duration is carried as
/// whole microseconds, so it is non-negative by construction.
pub struct ExecutionRecord {
    pub timestamp: String,
    pub execution_micros: u64,
    pub commit_hash: String,
}

impl ExecutionRecord {
    /// The commit hash is best-effort but never empty: a failed resolution
    /// is replaced by the sentinel before the record is built.
    pub open spec fn well_formed(self) -> bool {
        self.commit_hash@.len() > 0
    }
}

/// The manifest produced by one scan.
pub struct WorkspaceIndex {
    pub project_name: String,
    pub files: Vec<FileEntry>,
    pub last_commit: String,
}

impl WorkspaceIndex {
    /// The listed file names, in enumeration order.
    pub open spec fn file_names(self) -> Seq<Seq<char>> {
        self.files@.map_values(|e: FileEntry| e.name@)
    }

    /// One scan yields each entry once, so the names are distinct; the
    /// provenance string is never empty.
    pub open spec fn well_formed(self) -> bool {
        &&& forall|i: int, j: int|
            0 <= i < j < self.file_names().len() ==> self.file_names()[i] != self.file_names()[j]
        &&& self.last_commit@.len() > 0
    }
}

} // verus!
