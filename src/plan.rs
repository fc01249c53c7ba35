//! Whether an entry has to be copied again, and the steps that copy it.
use vstd::prelude::*;
use crate::entry::EntryKind;
use crate::rules::name_of;
use crate::text::{chars_of, slice_chars, string_of};

verus! {

/// What stands at an entry's backup path. Times are nanoseconds from the
/// Unix epoch; `None` where the time could not be read.
pub enum BackupNode {
    /// Nothing stands there.
    Absent,
    /// Something stands there that is not a regular file.
    NotAFile,
    /// A regular file stands there.
    File { modified: Option<i128> },
}

/// Whether an entry is copied in this run.
#[derive(Clone, Copy, Debug, PartialEq, Eq, Structural)]
pub enum CopyDecision {
    Copy,
    Skip,
}

/// Whether a source file modified at `source_modified` is newer than what
/// stands at its backup path: always when no regular file stands there, else
/// when both times are known and the source's is strictly later.
pub open spec fn newer(source_modified: Option<i128>, backup: BackupNode) -> bool {
    match backup {
        BackupNode::Absent => true,
        BackupNode::NotAFile => true,
        BackupNode::File { modified } => match (source_modified, modified) {
            (Some(s), Some(b)) => s > b,
            _ => false,
        },
    }
}

/// The copy decision for an entry of kind `kind`: directories are always
/// (re)created, files are copied when newer than their backup.
pub open spec fn decide(kind: EntryKind, source_modified: Option<i128>, backup: BackupNode) -> CopyDecision {
    if kind == EntryKind::Directory || newer(source_modified, backup) {
        CopyDecision::Copy
    } else {
        CopyDecision::Skip
    }
}

/// Rerunning a backup over unchanged files copies nothing: once a file's
/// backup is at least as recent as the source, the next run skips it. Only a
/// change that moves the source's time past the backup's makes it copied
/// again.
pub proof fn lemma_rerun_skips_unchanged(source_t: i128, backup_t: i128, changed_t: i128)
    ensures
        backup_t >= source_t ==> decide(
            EntryKind::File,
            Some(source_t),
            BackupNode::File { modified: Some(backup_t) },
        ) == CopyDecision::Skip,
        changed_t > backup_t ==> decide(
            EntryKind::File,
            Some(changed_t),
            BackupNode::File { modified: Some(backup_t) },
        ) == CopyDecision::Copy,
{
}

/// Whether the source file is newer than its backup.
///
/// With no backup, or with a backup slot that holds no regular file, it is,
/// whatever its time. Else it is exactly when its time is strictly later than
/// the backup's; equal times are not newer, and an unknown time on either side
/// makes it not newer.
pub fn is_newer(source_modified: Option<i128>, backup: &BackupNode) -> (r: bool)
    ensures
        r == newer(source_modified, *backup),
        backup is Absent ==> r,
        backup is NotAFile ==> r,
        *backup matches BackupNode::File { modified: Some(b) } ==> (source_modified matches Some(s)
            ==> (r <==> s > b)),
        *backup matches BackupNode::File { modified } ==> (modified is None || source_modified is None
            ==> !r),
{
    match backup {
        BackupNode::Absent => true,
        BackupNode::NotAFile => true,
        BackupNode::File { modified } => match (source_modified, *modified) {
            (Some(s), Some(b)) => s > b,
            _ => false,
        },
    }
}

/// The copy decision for an entry: `Copy` for a directory, else `Copy`
/// exactly when the file is newer than its backup.
pub fn copy_decision(kind: EntryKind, source_modified: Option<i128>, backup: &BackupNode) -> (r:
    CopyDecision)
    ensures
        r == decide(kind, source_modified, *backup),
        kind == EntryKind::Directory ==> r == CopyDecision::Copy,
        kind != EntryKind::Directory ==> (r == CopyDecision::Copy <==> newer(
            source_modified,
            *backup,
        )),
{
    if kind == EntryKind::Directory || is_newer(source_modified, backup) {
        CopyDecision::Copy
    } else {
        CopyDecision::Skip
    }
}

/// One filesystem step of copying an entry into the backup.
pub enum CopyStep {
    /// Create the directory and any missing ancestors.
    CreateDirAll(String),
    /// Replace the contents of file `to` with those of file `from`,
    /// creating `to` when missing.
    CopyContents { from: String, to: String },
}

/// The part of `p` up to and including its last separator.
pub open spec fn parent_part(p: Seq<char>) -> Seq<char> {
    p.take(p.len() - name_of(p).len())
}

/// The steps that copy an entry: first the directory that holds the backup
/// path, when the path names one, then the file's contents, or for any other
/// kind the backup path itself as a directory.
pub open spec fn steps_spec(source: Seq<char>, kind: EntryKind, backup: Seq<char>) -> Seq<
    (bool, Seq<char>, Seq<char>),
> {
    let last = if kind == EntryKind::File {
        (true, source, backup)
    } else {
        (false, backup, backup)
    };
    if parent_part(backup).len() == 0 {
        seq![last]
    } else {
        seq![(false, parent_part(backup), parent_part(backup)), last]
    }
}

/// A step as a triple: whether it copies contents, and its two paths (for a
/// directory, the directory twice).
pub open spec fn step_view(s: CopyStep) -> (bool, Seq<char>, Seq<char>) {
    match s {
        CopyStep::CreateDirAll(d) => (false, d@, d@),
        CopyStep::CopyContents { from, to } => (true, from@, to@),
    }
}

/// The steps that copy the entry at `source`, of kind `kind`, to `backup`.
pub fn copy_steps(source: &str, kind: EntryKind, backup: &str) -> (r: Vec<CopyStep>)
    ensures
        r@.map_values(|s: CopyStep| step_view(s)) == steps_spec(source@, kind, backup@),
{
    let b = chars_of(backup);
    let k = crate::rules::name_start_of(&b);
    let mut r: Vec<CopyStep> = Vec::new();
    if k > 0 {
        let d = slice_chars(&b, 0, k);
        assert(d@ =~= parent_part(backup@));
        r.push(CopyStep::CreateDirAll(string_of(&d)));
    }
    let last = if kind == EntryKind::File {
        CopyStep::CopyContents { from: string_of(&chars_of(source)), to: string_of(&b) }
    } else {
        CopyStep::CreateDirAll(string_of(&b))
    };
    r.push(last);
    assert(r@.map_values(|s: CopyStep| step_view(s)) =~= steps_spec(source@, kind, backup@));
    r
}

/// The steps of one entry in a backup run: none when the entry is skipped,
/// else those of `copy_steps`.
pub fn backup_steps(
    source: &str,
    kind: EntryKind,
    source_modified: Option<i128>,
    backup_node: &BackupNode,
    backup: &str,
) -> (r: Vec<CopyStep>)
    ensures
        decide(kind, source_modified, *backup_node) == CopyDecision::Skip ==> r@.len() == 0,
        decide(kind, source_modified, *backup_node) == CopyDecision::Copy ==> r@.map_values(
            |s: CopyStep| step_view(s),
        ) == steps_spec(source@, kind, backup@),
{
    match copy_decision(kind, source_modified, backup_node) {
        CopyDecision::Copy => copy_steps(source, kind, backup),
        CopyDecision::Skip => Vec::new(),
    }
}

} // verus!
