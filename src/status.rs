use vstd::prelude::*;

use crate::output::{decimal, decimal_text};

verus! {

/// A game or voice package version, `major.minor.patch`.
#[derive(PartialEq, Eq, Structural, Clone, Copy, Debug)]
pub struct Version {
    pub major: u8,
    pub minor: u8,
    pub patch: u8,
}

/// `major.minor.patch` in decimal.
pub open spec fn version_text(v: Version) -> Seq<char> {
    decimal_text(v.major as nat) + "."@ + decimal_text(v.minor as nat) + "."@ + decimal_text(
        v.patch as nat,
    )
}

impl Version {
    /// The version as `major.minor.patch`.
    pub fn text(&self) -> (r: String)
        ensures
            r@ == version_text(*self),
    {
        let mut r = decimal(self.major as usize);
        r.append(".");
        r.append(decimal(self.minor as usize).as_str());
        r.append(".");
        r.append(decimal(self.patch as usize).as_str());
        r
    }
}

/// How an installation compares with the latest release.
pub enum VersionDiff {
    /// The installed version is the latest.
    Latest(Version),
    /// An update is available; it unpacks to this many bytes.
    Diff { current: Version, latest: Version, unpacked_size: u64 },
    /// The installed version is too old to be updated.
    Outdated { current: Version, latest: Version },
    /// Nothing is installed.
    NotInstalled { latest: Version },
}

/// The latest version that an installed game is compared with; `None` when nothing is
/// installed, which ends the report.
pub fn installed_latest(diff: &VersionDiff) -> (r: Option<Version>)
    ensures
        r == match *diff {
            VersionDiff::Latest(v) => Some(v),
            VersionDiff::Diff { latest, .. } => Some(latest),
            VersionDiff::Outdated { latest, .. } => Some(latest),
            VersionDiff::NotInstalled { .. } => None::<Version>,
        },
{
    match diff {
        VersionDiff::Latest(v) => Some(*v),
        VersionDiff::Diff { latest, .. } => Some(*latest),
        VersionDiff::Outdated { latest, .. } => Some(*latest),
        VersionDiff::NotInstalled { .. } => None,
    }
}

/// How a package's version is shown beside the latest one.
#[derive(PartialEq, Eq, Structural, Clone, Copy, Debug)]
pub enum Freshness {
    /// It is the latest version.
    Current,
    /// It is older or otherwise different from the latest version.
    Stale,
    /// The latest version is not known.
    Unchecked,
    /// The package's own version could not be read.
    Unreadable,
}

/// Compares a package's version with the latest one, either of which may be unknown.
pub fn freshness(installed: Option<Version>, latest: Option<Version>) -> (r: Freshness)
    ensures
        r == match (installed, latest) {
            (None, _) => Freshness::Unreadable,
            (Some(_), None) => Freshness::Unchecked,
            (Some(v), Some(l)) => if v == l {
                Freshness::Current
            } else {
                Freshness::Stale
            },
        },
{
    match installed {
        None => Freshness::Unreadable,
        Some(v) => match latest {
            None => Freshness::Unchecked,
            Some(l) => if v == l {
                Freshness::Current
            } else {
                Freshness::Stale
            },
        },
    }
}

/// Where the community patch stands.
#[derive(PartialEq, Eq, Structural, Clone, Copy, Debug)]
pub enum PatchStage {
    NotAvailable,
    Outdated,
    Preparation,
    Testing,
    Available,
}

/// A patch can be applied or reverted only while it is tested or released.
pub open spec fn usable_stage(stage: PatchStage) -> bool {
    stage == PatchStage::Testing || stage == PatchStage::Available
}

/// Whether the patch in this stage can be applied or reverted.
pub fn patch_usable(stage: PatchStage) -> (r: bool)
    ensures
        r == usable_stage(stage),
{
    match stage {
        PatchStage::Testing => true,
        PatchStage::Available => true,
        _ => false,
    }
}

/// The names joined with `, ` (empty for no names).
pub open spec fn comma_joined(names: Seq<Seq<char>>) -> Seq<char>
    decreases names.len(),
{
    if names.len() == 0 {
        Seq::empty()
    } else if names.len() == 1 {
        names[0]
    } else {
        comma_joined(names.drop_last()) + ", "@ + names.last()
    }
}

/// `Verifying locales: {names}`, or nothing when no locale is verified.
pub fn locales_line(names: &Vec<String>) -> (r: Option<String>)
    ensures
        names@.len() == 0 <==> r is None,
        r matches Some(line) ==> line@ == "Verifying locales: "@ + comma_joined(
            names@.map_values(|s: String| s@),
        ),
{
    if names.len() == 0 {
        return None;
    }
    let ghost parts = names@.map_values(|s: String| s@);
    let mut joined = names[0].clone();
    let mut i: usize = 1;
    assert(parts.take(1) =~= seq![parts[0]]);
    while i < names.len()
        invariant
            1 <= i <= names@.len(),
            parts == names@.map_values(|s: String| s@),
            joined@ == comma_joined(parts.take(i as int)),
        decreases names.len() - i,
    {
        assert(parts.take(i + 1).drop_last() =~= parts.take(i as int));
        joined.append(", ");
        joined.append(names[i].as_str());
        i = i + 1;
    }
    assert(parts.take(i as int) =~= parts);
    let mut line = String::from_str("Verifying locales: ");
    line.append(joined.as_str());
    Some(line)
}

} // verus!
