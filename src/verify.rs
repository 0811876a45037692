use vstd::prelude::*;

use crate::manifest::IntegrityFile;
use crate::text::same_chars;

verus! {

/// What a worker learned about one file on disk.
pub enum Probe {
    /// The file does not exist, or its metadata could not be read.
    Missing,
    /// The file exists with this length; its checksum has not been computed.
    Sized(u64),
    /// The file exists with this length and this checksum.
    Hashed(u64, String),
    /// The file exists but reading it for its checksum failed.
    Unreadable,
}

/// The decision about one file.
#[derive(PartialEq, Eq, Structural, Clone, Copy, Debug)]
pub enum Verdict {
    /// The file matches the manifest.
    Intact,
    /// The file is missing or does not match the manifest.
    Damaged,
    /// The size matches; the checksum must be computed to decide.
    NeedsChecksum,
}

/// A file on disk as the model sees it: its length and its checksum.
pub type DiskEntry = (u64, Seq<char>);

/// Whether a file is damaged, given what lies at its path (`None`: nothing).
/// In fast mode only the size is compared.
pub open spec fn damaged_on(file: IntegrityFile, entry: Option<DiskEntry>, fast: bool) -> bool {
    match entry {
        None => true,
        Some(e) => e.0 != file.size || (!fast && e.1 != file.checksum@),
    }
}

/// The verification policy: a missing or unreadable file, or one of another size, is
/// damaged; in fast mode a right size suffices; otherwise the checksums decide.
pub open spec fn verdict_for(file: IntegrityFile, fast: bool, probe: Probe) -> Verdict {
    match probe {
        Probe::Missing => Verdict::Damaged,
        Probe::Unreadable => Verdict::Damaged,
        Probe::Sized(size) => if size != file.size {
            Verdict::Damaged
        } else if fast {
            Verdict::Intact
        } else {
            Verdict::NeedsChecksum
        },
        Probe::Hashed(size, sum) => if damaged_on(file, Some((size, sum@)), fast) {
            Verdict::Damaged
        } else {
            Verdict::Intact
        },
    }
}

/// The probe is a faithful account of what lies at the file's path.
pub open spec fn probe_shows(probe: Probe, entry: Option<DiskEntry>) -> bool {
    match probe {
        Probe::Missing => entry is None,
        Probe::Sized(size) => entry matches Some(e) && e.0 == size,
        Probe::Hashed(size, sum) => entry == Some((size, sum@)),
        Probe::Unreadable => false,
    }
}

/// A final verdict drawn from a faithful probe says exactly whether the file is damaged.
pub proof fn lemma_verdict_matches_disk(
    file: IntegrityFile,
    fast: bool,
    probe: Probe,
    entry: Option<DiskEntry>,
)
    requires
        probe_shows(probe, entry),
        verdict_for(file, fast, probe) != Verdict::NeedsChecksum,
    ensures
        (verdict_for(file, fast, probe) == Verdict::Damaged) == damaged_on(file, entry, fast),
{
}

/// Fast mode flags no more than a full check: a file damaged by size alone is damaged
/// by size and checksum, both for what lies on disk and for every probe of it.
pub proof fn lemma_fast_mode_monotone(file: IntegrityFile, entry: Option<DiskEntry>, probe: Probe)
    ensures
        damaged_on(file, entry, true) ==> damaged_on(file, entry, false),
        verdict_for(file, true, probe) == Verdict::Damaged ==> verdict_for(file, false, probe)
            == Verdict::Damaged,
{
}

/// Applies the verification policy to what was learned about `file`.
pub fn check_file(file: &IntegrityFile, fast: bool, probe: &Probe) -> (r: Verdict)
    ensures
        r == verdict_for(*file, fast, *probe),
{
    match probe {
        Probe::Missing => Verdict::Damaged,
        Probe::Unreadable => Verdict::Damaged,
        Probe::Sized(size) => {
            if *size != file.size {
                Verdict::Damaged
            } else if fast {
                Verdict::Intact
            } else {
                Verdict::NeedsChecksum
            }
        },
        Probe::Hashed(size, sum) => {
            if *size != file.size {
                Verdict::Damaged
            } else if fast {
                Verdict::Intact
            } else if same_chars(file.checksum.as_str(), sum.as_str()) {
                Verdict::Intact
            } else {
                Verdict::Damaged
            }
        },
    }
}

} // verus!
