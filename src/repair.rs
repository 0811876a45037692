use vstd::prelude::*;

use crate::manifest::IntegrityFile;
use crate::text::same_chars;
use crate::verify::DiskEntry;

verus! {

/// Why one file could not be repaired.
#[derive(PartialEq, Eq, Structural, Clone, Copy, Debug)]
pub enum ErrorKind {
    /// A filesystem operation failed.
    Io,
    /// The download failed.
    Network,
    /// The downloaded file does not have the expected length.
    SizeMismatch,
    /// The downloaded file does not have the expected checksum.
    ChecksumMismatch,
}

/// The name of an error kind, as printed in reports.
pub open spec fn kind_name(kind: ErrorKind) -> Seq<char> {
    match kind {
        ErrorKind::Io => "Io"@,
        ErrorKind::Network => "Network"@,
        ErrorKind::SizeMismatch => "SizeMismatch"@,
        ErrorKind::ChecksumMismatch => "ChecksumMismatch"@,
    }
}

impl ErrorKind {
    /// The name of this error kind.
    pub fn name(&self) -> (r: &'static str)
        ensures
            r@ == kind_name(*self),
    {
        match self {
            ErrorKind::Io => "Io",
            ErrorKind::Network => "Network",
            ErrorKind::SizeMismatch => "SizeMismatch",
            ErrorKind::ChecksumMismatch => "ChecksumMismatch",
        }
    }
}

/// A file that could not be repaired, and why.
pub struct RepairFailure {
    pub file: IntegrityFile,
    pub kind: ErrorKind,
}

impl Clone for RepairFailure {
    fn clone(&self) -> (r: Self)
        ensures
            r == *self,
    {
        RepairFailure { file: self.file.clone(), kind: self.kind }
    }
}

/// The result of downloading a file's canonical copy into its temporary path.
pub enum Download {
    /// The download, or writing it, failed.
    Failed(ErrorKind),
    /// The whole body was written; it has this length and this checksum.
    Fetched { size: u64, checksum: String },
}

/// The temporary path a download is written to, beside its destination.
pub open spec fn temp_path_of(path: Seq<char>) -> Seq<char> {
    path + ".part"@
}

/// The repair policy for a finished download: a failed download is reported with its
/// kind, then the length and the checksum are checked in turn. `Ok` means the temporary
/// file may be renamed over the destination.
pub open spec fn download_verdict(file: IntegrityFile, download: Download) -> Result<(), ErrorKind> {
    match download {
        Download::Failed(kind) => Err(kind),
        Download::Fetched { size, checksum } => if size != file.size {
            Err(ErrorKind::SizeMismatch)
        } else if checksum@ != file.checksum@ {
            Err(ErrorKind::ChecksumMismatch)
        } else {
            Ok(())
        },
    }
}

/// What a published download leaves at the destination.
pub open spec fn published_entry(download: Download) -> DiskEntry {
    match download {
        Download::Fetched { size, checksum } => (size, checksum@),
        Download::Failed(_) => (0, Seq::empty()),
    }
}

/// The temporary path for `path`.
pub fn temp_path(path: &str) -> (r: String)
    ensures
        r@ == temp_path_of(path@),
{
    let mut r = String::from_str(path);
    r.append(".part");
    r
}

/// Applies the repair policy to a finished download of `file`.
pub fn check_download(file: &IntegrityFile, download: &Download) -> (r: Result<(), ErrorKind>)
    ensures
        r == download_verdict(*file, *download),
{
    match download {
        Download::Failed(kind) => Err(*kind),
        Download::Fetched { size, checksum } => {
            if *size != file.size {
                Err(ErrorKind::SizeMismatch)
            } else if !same_chars(file.checksum.as_str(), checksum.as_str()) {
                Err(ErrorKind::ChecksumMismatch)
            } else {
                Ok(())
            }
        },
    }
}

/// Downloads never target the destination, and only a complete download with the
/// expected length and checksum is ever cleared for renaming over it; what is then
/// published is exactly what the manifest asks for.
pub proof fn lemma_atomic_publication(file: IntegrityFile, download: Download)
    ensures
        temp_path_of(file.path@) != file.path@,
        download_verdict(file, download) is Ok ==> (download matches Download::Fetched {
            size,
            checksum,
        } && size == file.size && checksum@ == file.checksum@),
        download_verdict(file, download) is Ok ==> published_entry(download) == (
            file.size,
            file.checksum@,
        ),
{
    reveal_strlit(".part");
    assert(temp_path_of(file.path@).len() == file.path@.len() + 5);
}

/// The line reporting a file that could not be repaired.
pub open spec fn failure_text(failure: RepairFailure) -> Seq<char> {
    "Failed to repair "@ + failure.file.path@ + ": "@ + kind_name(failure.kind)
}

/// `Failed to repair {path}: {kind}`.
pub fn failure_line(failure: &RepairFailure) -> (r: String)
    ensures
        r@ == failure_text(*failure),
{
    let mut r = String::from_str("Failed to repair ");
    r.append(failure.file.path.as_str());
    r.append(": ");
    r.append(failure.kind.name());
    r
}

} // verus!
