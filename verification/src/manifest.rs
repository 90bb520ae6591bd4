//! The manifest: the ordered listing of a repository's files, and the
//! selections the engine makes from it.

use crate::error::DownloadError;
use vstd::prelude::*;

verus! {

/// Whether a manifest entry is a downloadable file or a directory.
#[derive(Clone, Copy, Debug, PartialEq, Eq, Structural)]
pub enum EntryKind {
    Blob,
    Tree,
}

/// One entry of a repository's file listing.
#[derive(Debug)]
pub struct ManifestEntry {
    /// Display name used in events and error reports.
    pub name: String,
    /// Path of the file relative to the repository root.
    pub relative_path: String,
    /// Authoritative target length of the file in bytes.
    pub expected_size: u64,
    /// Only `Blob` entries participate in transfer.
    pub kind: EntryKind,
}

impl ManifestEntry {
    pub open spec fn is_blob(self) -> bool {
        self.kind is Blob
    }
}

impl Clone for ManifestEntry {
    /// A clone is the same entry, field for field.
    fn clone(&self) -> (res: Self)
        ensures
            res == *self,
    {
        ManifestEntry {
            name: self.name.clone(),
            relative_path: self.relative_path.clone(),
            expected_size: self.expected_size,
            kind: self.kind,
        }
    }
}

/// The `Blob` entries of `s`, in order.
pub open spec fn blobs_of(s: Seq<ManifestEntry>) -> Seq<ManifestEntry>
    decreases s.len(),
{
    if s.len() == 0 {
        Seq::empty()
    } else if s.last().is_blob() {
        blobs_of(s.drop_last()).push(s.last())
    } else {
        blobs_of(s.drop_last())
    }
}

/// Keeps exactly the entries that take part in a download: the blobs,
/// in manifest order.
pub fn filter_blobs(entries: Vec<ManifestEntry>) -> (blobs: Vec<ManifestEntry>)
    ensures
        blobs@ == blobs_of(entries@),
{
    let mut blobs: Vec<ManifestEntry> = Vec::new();
    let mut i: usize = 0;
    while i < entries.len()
        invariant
            i <= entries@.len(),
            blobs@ == blobs_of(entries@.take(i as int)),
        decreases entries@.len() - i,
    {
        let e = entries[i].clone();
        proof {
            assert(entries@.take(i + 1).drop_last() =~= entries@.take(i as int));
            assert(entries@.take(i + 1).last() == entries@[i as int]);
        }
        if matches!(e.kind, EntryKind::Blob) {
            blobs.push(e);
        }
        i = i + 1;
    }
    proof {
        assert(entries@.take(entries@.len() as int) =~= entries@);
    }
    blobs
}

/// Whether `e` is the blob entry for `path` (exact, case-sensitive match).
pub open spec fn entry_matches(e: ManifestEntry, path: Seq<char>) -> bool {
    e.relative_path@ == path && e.is_blob()
}

/// Resolves a single file by exact relative-path match among the blob
/// entries: the first match wins; a missing or non-blob path is reported
/// as `FileNotFound`.
pub fn resolve_single(entries: &Vec<ManifestEntry>, path: &String) -> (r: Result<
    ManifestEntry,
    DownloadError,
>)
    ensures
        r matches Ok(e) ==> {
            &&& exists|j: int|
                0 <= j < entries@.len() && entry_matches(#[trigger] entries@[j], path@)
                    && e == entries@[j] && forall|k: int|
                    0 <= k < j ==> !entry_matches(#[trigger] entries@[k], path@)
        },
        r is Err ==> forall|j: int|
            0 <= j < entries@.len() ==> !entry_matches(#[trigger] entries@[j], path@),
        r is Ok <==> exists|j: int|
            0 <= j < entries@.len() && entry_matches(#[trigger] entries@[j], path@),
        r matches Err(e) ==> e matches DownloadError::FileNotFound { path: p } && p@ == path@,
{
    let mut i: usize = 0;
    while i < entries.len()
        invariant
            i <= entries@.len(),
            forall|k: int| 0 <= k < i ==> !entry_matches(#[trigger] entries@[k], path@),
        decreases entries@.len() - i,
    {
        let e = &entries[i];
        if e.relative_path == *path && matches!(e.kind, EntryKind::Blob) {
            return Ok(e.clone());
        }
        i = i + 1;
    }
    Err(DownloadError::FileNotFound { path: path.clone() })
}

/// The listing fetch has no partial-success mode: any status outside the
/// success range is fatal for the whole operation, before any file has
/// been attempted.
pub fn check_listing_status(status: u16) -> (r: Result<(), DownloadError>)
    ensures
        r is Ok <==> 200 <= status <= 299,
        r matches Err(e) ==> e == (DownloadError::ManifestUnavailable { status }),
{
    if 200 <= status && status <= 299 {
        Ok(())
    } else {
        Err(DownloadError::ManifestUnavailable { status })
    }
}

/// Accepts or rejects a fetched file listing, as the listing's own
/// success flag dictates: a listing the server marked unsuccessful is a
/// fatal `ManifestRejected` for the whole operation.
pub fn accept_listing(success: bool, message: String, files: Vec<ManifestEntry>) -> (r: Result<
    Vec<ManifestEntry>,
    DownloadError,
>)
    ensures
        success ==> (r matches Ok(f) && f@ == files@),
        !success ==> (r matches Err(e) && e matches DownloadError::ManifestRejected {
            message: m,
        } && m@ == message@),
{
    if success {
        Ok(files)
    } else {
        Err(DownloadError::ManifestRejected { message })
    }
}

} // verus!
