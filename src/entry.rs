//! What the walk reports about each filesystem entry, and the verdicts and
//! actions that the job hands back for it.
use vstd::prelude::*;

verus! {

/// The type of an entry as its own metadata gives it (links are not followed).
#[derive(Clone, Copy, Debug, PartialEq, Eq, Structural)]
pub enum EntryKind {
    File,
    Dir,
    Symlink,
    Other,
}

/// An entry visited by the walk.
#[derive(Debug, Clone)]
pub struct EntryInfo {
    /// The path as the walk produced it.
    pub path: String,
    /// The entry itself is a symbolic link.
    pub is_symlink: bool,
    /// The entry is a symbolic link whose target cannot be resolved.
    pub broken_link: bool,
    /// The canonical form of the path, when it could be computed.
    pub canonical: Option<String>,
}

/// Metadata of a selected entry, fetched once.
#[derive(Clone, Copy, Debug, PartialEq, Eq)]
pub struct EntryMeta {
    pub kind: EntryKind,
    /// The length the metadata reports.
    pub len: u64,
    /// For a directory: the total size of the files it contains.
    pub tree_size: u64,
    /// Seconds since the last modification, when that can be told.
    pub age_secs: Option<u64>,
}

/// How an entry is removed.
#[derive(Clone, Copy, Debug, PartialEq, Eq, Structural)]
pub enum Removal {
    /// Remove the directory with everything in it.
    RemoveDirAll,
    /// Remove the single file or link.
    RemoveFile,
    /// Unrecognised type: leave it alone.
    Skip,
}

/// What to do with a selected entry.
#[derive(Clone, Copy, Debug, PartialEq, Eq, Structural)]
pub enum Action {
    /// Modified more recently than the age threshold: not counted, not removed.
    TooRecent,
    /// The running totals cannot take it: not counted, not removed.
    Overflow,
    /// Counted; remove it now.
    DeleteNow(Removal),
    /// Counted and queued for the deletion phase.
    Buffered,
}

/// The walk's verdict on one entry.
#[derive(Debug, PartialEq, Eq)]
pub enum Verdict {
    /// Rejected by the path safety guard.
    Unsafe,
    /// No inclusion pattern matches.
    NotIncluded,
    /// An exclusion pattern matches.
    Excluded,
    /// A symlink, and symlinks are not included.
    SymlinkSkipped,
    /// Selected, attributed to the given pattern or tag.
    Selected(String),
}

/// The model of a verdict.
pub enum Decision {
    Unsafe,
    NotIncluded,
    Excluded,
    SymlinkSkipped,
    Selected(Seq<char>),
}

impl View for Verdict {
    type V = Decision;

    open spec fn view(&self) -> Decision {
        match self {
            Verdict::Unsafe => Decision::Unsafe,
            Verdict::NotIncluded => Decision::NotIncluded,
            Verdict::Excluded => Decision::Excluded,
            Verdict::SymlinkSkipped => Decision::SymlinkSkipped,
            Verdict::Selected(p) => Decision::Selected(p@),
        }
    }
}

/// One removal of the deletion phase.
#[derive(Debug, Clone)]
pub struct Deletion {
    pub path: String,
    pub removal: Removal,
}

/// The removal policy by entry type.
pub open spec fn removal_of(kind: EntryKind) -> Removal {
    match kind {
        EntryKind::Dir => Removal::RemoveDirAll,
        EntryKind::File | EntryKind::Symlink => Removal::RemoveFile,
        EntryKind::Other => Removal::Skip,
    }
}

/// A directory is removed with all its contents; a file or a link on its own;
/// an entry of any other type is never removed.
pub fn removal_for(kind: EntryKind) -> (r: Removal)
    ensures
        r == removal_of(kind),
        kind == EntryKind::Dir ==> r == Removal::RemoveDirAll,
{
    match kind {
        EntryKind::Dir => Removal::RemoveDirAll,
        EntryKind::File | EntryKind::Symlink => Removal::RemoveFile,
        EntryKind::Other => Removal::Skip,
    }
}

/// The size an entry counts for: a file's length, a directory's total, and
/// zero for any other type.
pub open spec fn size_of(meta: EntryMeta) -> u64 {
    match meta.kind {
        EntryKind::File => meta.len,
        EntryKind::Dir => meta.tree_size,
        _ => 0,
    }
}

pub fn entry_size(meta: &EntryMeta) -> (r: u64)
    ensures
        r == size_of(*meta),
{
    match meta.kind {
        EntryKind::File => meta.len,
        EntryKind::Dir => meta.tree_size,
        _ => 0,
    }
}

/// The age filter: with a threshold, an entry whose age is known is kept when
/// it is at least the threshold; an entry exactly at the threshold is kept.
pub open spec fn old_enough(threshold: Option<u64>, age: Option<u64>) -> bool {
    match (threshold, age) {
        (Some(t), Some(a)) => a >= t,
        _ => true,
    }
}

pub fn passes_age_filter(threshold: Option<u64>, age: Option<u64>) -> (r: bool)
    ensures
        r == old_enough(threshold, age),
{
    match (threshold, age) {
        (Some(t), Some(a)) => a >= t,
        _ => true,
    }
}

} // verus!
