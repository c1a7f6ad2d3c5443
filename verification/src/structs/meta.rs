use vstd::prelude::*;

verus! {

/// What the decision reads of a file: its size in bytes and the time of
/// its last modification, in nanoseconds since the Unix epoch.
#[derive(Debug, Clone, Copy, PartialEq, Eq, Structural)]
pub struct FileMeta {
    pub size: u64,
    pub modified: i128,
}

/// What was found at the two ends of one file entry. `None` stands for a
/// path at which no regular file was found.
#[derive(Debug, Clone, Copy, PartialEq, Eq, Structural)]
pub struct FileProbe {
    pub source: Option<FileMeta>,
    pub target: Option<FileMeta>,
}

impl FileMeta {
    /// Two files count as the same file when size and modification time
    /// agree; contents are not compared.
    pub open spec fn same_as(self, other: FileMeta) -> bool {
        self.size == other.size && self.modified == other.modified
    }
}

} // verus!
