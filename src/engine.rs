use vstd::prelude::*;

use crate::filter::{
    filter_ignored, has_path, is_ignored, kept_files, lemma_kept_files, unique_paths,
};
use crate::manifest::{all_well_formed, check_records, IntegrityFile};
use crate::partition::{clamp_threads, is_balanced, is_size_weighted_split, partition, view_batches};
use crate::repair::{download_verdict, published_entry, Download, RepairFailure};
use crate::settings::RepairFilesConfig;
use crate::verify::{damaged_on, DiskEntry};

verus! {

/// How a run ended.
#[derive(PartialEq, Eq, Structural, Clone, Copy, Debug)]
pub enum Finish {
    /// The manifest could not be fetched.
    FetchFailed,
    /// Nothing was left to verify once ignored files were dropped.
    NothingToDo,
    /// Verification ran, and repair too where it was due.
    Completed,
}

/// Where a run stands.
#[derive(PartialEq, Eq, Structural, Clone, Copy, Debug)]
pub enum Stage {
    Fetching,
    Verifying,
    Repairing,
    Done(Finish),
}

/// What the caller must do next.
pub enum Step {
    /// Verify each batch on a worker of its own, then report the damaged files.
    Verify(Vec<Vec<IntegrityFile>>),
    /// Repair each batch on a worker of its own, then report the failures.
    Repair(Vec<Vec<IntegrityFile>>),
    /// The run is over.
    Stop,
}

/// The state of one verify-and-repair run. The caller performs the work each step asks
/// for and hands the results back; every decision is taken here.
pub struct RepairSession {
    pub config: RepairFilesConfig,
    pub stage: Stage,
    /// The manifest without ignored and repeated files.
    pub files: Vec<IntegrityFile>,
    /// The files found damaged, in the order they were reported.
    pub damaged: Vec<IntegrityFile>,
    /// The files that could not be repaired.
    pub failures: Vec<RepairFailure>,
}

/// `min(requested, count)`.
pub open spec fn threads_for(requested: usize, count: int) -> int {
    if requested < count {
        requested as int
    } else {
        count
    }
}

/// The files that the positions pick out, in the order of the positions; a file whose
/// path was already picked is not picked again.
pub open spec fn picked(files: Seq<IntegrityFile>, positions: Seq<usize>) -> Seq<IntegrityFile>
    decreases positions.len(),
{
    if positions.len() == 0 {
        Seq::empty()
    } else {
        let prev = picked(files, positions.drop_last());
        let f = files[positions.last() as int];
        if has_path(prev, f.path@) {
            prev
        } else {
            prev.push(f)
        }
    }
}

/// What the positions pick out comes from the positions, has distinct paths, and is
/// empty only when there are no positions.
pub proof fn lemma_picked(files: Seq<IntegrityFile>, positions: Seq<usize>)
    ensures
        forall|i: int|
            0 <= i < picked(files, positions).len() ==> exists|j: int|
                0 <= j < positions.len() && #[trigger] picked(files, positions)[i]
                    == files[positions[j] as int],
        unique_paths(picked(files, positions)),
        picked(files, positions).len() == 0 <==> positions.len() == 0,
    decreases positions.len(),
{
    if positions.len() > 0 {
        let rest = positions.drop_last();
        let prev = picked(files, rest);
        lemma_picked(files, rest);
        let r = picked(files, positions);
        assert forall|i: int| 0 <= i < r.len() implies exists|j: int|
            0 <= j < positions.len() && #[trigger] r[i] == files[positions[j] as int] by {
            if i < prev.len() {
                assert(r[i] == prev[i]);
                let j = choose|j: int| 0 <= j < rest.len() && prev[i] == files[rest[j] as int];
                assert(positions[j] == rest[j]);
            } else {
                assert(r[i] == files[positions[positions.len() - 1] as int]);
            }
        }
        assert forall|i: int, j: int|
            0 <= i < r.len() && 0 <= j < r.len() && i != j implies (#[trigger] r[i]).path@ != (
            #[trigger] r[j]).path@ by {
            if i < prev.len() && j < prev.len() {
                assert(r[i] == prev[i] && r[j] == prev[j]);
            } else if i < prev.len() {
                assert(r[i] == prev[i]);
            } else {
                assert(r[j] == prev[j]);
            }
        }
        if prev.len() > 0 {
            assert(r.len() >= prev.len());
        }
    }
}

/// The records of a fetched manifest (none when fetching failed).
pub open spec fn manifest_records(manifest: Option<Vec<IntegrityFile>>) -> Seq<IntegrityFile> {
    match manifest {
        Some(m) => m@,
        None => Seq::empty(),
    }
}

/// The manifest was fetched and every record of it is well formed.
pub open spec fn usable_manifest(manifest: Option<Vec<IntegrityFile>>) -> bool {
    manifest is Some && all_well_formed(manifest_records(manifest))
}

impl RepairSession {
    /// A run about to fetch its manifest.
    pub fn new(config: RepairFilesConfig) -> (r: Self)
        ensures
            r.config == config,
            r.stage == Stage::Fetching,
            r.files@.len() == 0,
            r.damaged@.len() == 0,
            r.failures@.len() == 0,
    {
        RepairSession {
            config,
            stage: Stage::Fetching,
            files: Vec::new(),
            damaged: Vec::new(),
            failures: Vec::new(),
        }
    }

    /// Takes the fetched manifest (`None`: fetching failed). A manifest with a record
    /// whose path is not a valid relative path is unusable, as if fetching had failed.
    /// Otherwise ignored and repeated files are dropped, and what is left is split among
    /// at most `verify_threads` workers.
    pub fn on_manifest(&mut self, manifest: Option<Vec<IntegrityFile>>) -> (step: Step)
        requires
            old(self).stage == Stage::Fetching,
            old(self).config.well_formed(),
        ensures
            final(self).config == old(self).config,
            final(self).damaged == old(self).damaged,
            final(self).failures == old(self).failures,
            !usable_manifest(manifest) ==> final(self).stage == Stage::Done(Finish::FetchFailed)
                && step is Stop && final(self).files == old(self).files,
            usable_manifest(manifest) ==> final(self).files@ == kept_files(
                manifest_records(manifest),
                old(self).config.ignore@,
            ),
            final(self).stage != Stage::Done(Finish::FetchFailed) ==> all_well_formed(
                final(self).files@,
            ) && unique_paths(final(self).files@),
            usable_manifest(manifest) && final(self).files@.len() == 0 ==> final(self).stage == Stage::Done(Finish::NothingToDo) && step is Stop,
            usable_manifest(manifest) && final(self).files@.len() > 0 ==> final(self).stage
                == Stage::Verifying && (step matches Step::Verify(b) && is_size_weighted_split(
                final(self).files@,
                threads_for(old(self).config.verify_threads, final(self).files@.len() as int),
                view_batches(b@),
            ) && is_balanced(
                final(self).files@,
                threads_for(old(self).config.verify_threads, final(self).files@.len() as int),
                view_batches(b@),
            )),
    {
        match manifest {
            None => {
                self.stage = Stage::Done(Finish::FetchFailed);
                Step::Stop
            },
            Some(m) => {
                if !check_records(&m) {
                    self.stage = Stage::Done(Finish::FetchFailed);
                    return Step::Stop;
                }
                let files = filter_ignored(&m, &self.config.ignore);
                proof {
                    lemma_kept_files(m@, self.config.ignore@);
                    assert forall|i: int| 0 <= i < files@.len() implies (#[trigger] files@[i]).well_formed() by {
                        let k = choose|k: int| 0 <= k < m@.len() && m@[k] == files@[i];
                    }
                }
                if files.len() == 0 {
                    self.files = files;
                    self.stage = Stage::Done(Finish::NothingToDo);
                    return Step::Stop;
                }
                let threads = clamp_threads(self.config.verify_threads, files.len());
                let batches = partition(&files, threads);
                self.files = files;
                self.stage = Stage::Verifying;
                Step::Verify(batches)
            },
        }
    }

    /// Takes the positions in `files` of the files found damaged, in the order they were
    /// reported. Repair follows unless nothing is damaged or only verification was asked
    /// for; it is split among at most `repair_threads` workers.
    pub fn on_verified(&mut self, damaged: Vec<usize>) -> (step: Step)
        requires
            old(self).stage == Stage::Verifying,
            old(self).config.well_formed(),
            forall|i: int| 0 <= i < damaged@.len() ==> #[trigger] damaged@[i] < old(self).files@.len(),
        ensures
            final(self).config == old(self).config,
            final(self).files == old(self).files,
            final(self).failures == old(self).failures,
            final(self).damaged@ == picked(old(self).files@, damaged@),
            unique_paths(final(self).damaged@),
            damaged@.len() == 0 || old(self).config.just_verify ==> final(self).stage
                == Stage::Done(Finish::Completed) && step is Stop,
            damaged@.len() > 0 && !old(self).config.just_verify ==> final(self).stage
                == Stage::Repairing && (step matches Step::Repair(b) && is_size_weighted_split(
                final(self).damaged@,
                threads_for(old(self).config.repair_threads, final(self).damaged@.len() as int),
                view_batches(b@),
            ) && is_balanced(
                final(self).damaged@,
                threads_for(old(self).config.repair_threads, final(self).damaged@.len() as int),
                view_batches(b@),
            )),
    {
        let mut broken: Vec<IntegrityFile> = Vec::new();
        let mut i: usize = 0;
        while i < damaged.len()
            invariant
                i <= damaged@.len(),
                forall|k: int| 0 <= k < damaged@.len() ==> #[trigger] damaged@[k] < self.files@.len(),
                broken@ == picked(self.files@, damaged@.take(i as int)),
            decreases damaged.len() - i,
        {
            proof {
                assert(damaged@.take(i + 1).drop_last() =~= damaged@.take(i as int));
            }
            let file = &self.files[damaged[i]];
            let mut seen = false;
            let mut j: usize = 0;
            while j < broken.len()
                invariant
                    j <= broken@.len(),
                    seen == (exists|q: int| 0 <= q < j && (#[trigger] broken@[q]).path@ == file.path@),
                decreases broken.len() - j,
            {
                if broken[j].path == file.path {
                    seen = true;
                }
                j = j + 1;
            }
            if !seen {
                broken.push(file.clone());
            }
            i = i + 1;
        }
        assert(damaged@.take(i as int) =~= damaged@);
        proof {
            lemma_picked(self.files@, damaged@);
        }
        self.damaged = broken;
        if damaged.len() == 0 || self.config.just_verify {
            self.stage = Stage::Done(Finish::Completed);
            return Step::Stop;
        }
        let threads = clamp_threads(self.config.repair_threads, self.damaged.len());
        let batches = partition(&self.damaged, threads);
        self.stage = Stage::Repairing;
        Step::Repair(batches)
    }

    /// Takes the files that could not be repaired; the run is over.
    pub fn on_repaired(&mut self, failures: Vec<RepairFailure>) -> (step: Step)
        requires
            old(self).stage == Stage::Repairing,
        ensures
            final(self).config == old(self).config,
            final(self).files == old(self).files,
            final(self).damaged == old(self).damaged,
            final(self).failures == failures,
            final(self).stage == Stage::Done(Finish::Completed),
            step is Stop,
    {
        self.failures = failures;
        self.stage = Stage::Done(Finish::Completed);
        Step::Stop
    }
}

/// No file whose lowercase path contains the lowercase form of an ignore pattern is
/// ever reported damaged: the damage list only picks from the filtered manifest.
pub proof fn lemma_ignored_never_damaged(
    manifest: Seq<IntegrityFile>,
    ignore: Seq<String>,
    positions: Seq<usize>,
)
    requires
        forall|i: int|
            0 <= i < positions.len() ==> #[trigger] positions[i] < kept_files(manifest, ignore).len(),
    ensures
        forall|i: int|
            0 <= i < picked(kept_files(manifest, ignore), positions).len() ==> !is_ignored(
                #[trigger] picked(kept_files(manifest, ignore), positions)[i].path@,
                ignore,
            ),
{
    lemma_kept_files(manifest, ignore);
    let kept = kept_files(manifest, ignore);
    assert forall|i: int| 0 <= i < picked(kept, positions).len() implies !is_ignored(
        #[trigger] picked(kept, positions)[i].path@,
        ignore,
    ) by {
        lemma_picked(kept, positions);
        let j = choose|j: int| 0 <= j < positions.len() && picked(kept, positions)[i] == kept[positions[j] as int];
        assert(positions[j] < kept.len());
    }
}

/// What lies at a path of the installation (`None`: nothing).
pub open spec fn entry_at(disk: Map<Seq<char>, DiskEntry>, path: Seq<char>) -> Option<DiskEntry> {
    if disk.contains_key(path) {
        Some(disk[path])
    } else {
        None
    }
}

/// The files of the list that are damaged on this disk.
pub open spec fn damaged_files(
    files: Seq<IntegrityFile>,
    disk: Map<Seq<char>, DiskEntry>,
    fast: bool,
) -> Seq<IntegrityFile> {
    files.filter(|f: IntegrityFile| damaged_on(f, entry_at(disk, f.path@), fast))
}

/// The disk after each download has been renamed over its file's path, in order.
pub open spec fn publish_all(
    disk: Map<Seq<char>, DiskEntry>,
    files: Seq<IntegrityFile>,
    downloads: Seq<Download>,
) -> Map<Seq<char>, DiskEntry>
    decreases files.len(),
{
    if files.len() == 0 || downloads.len() < files.len() {
        disk
    } else {
        publish_all(disk, files.drop_last(), downloads.take(files.len() - 1)).insert(
            files.last().path@,
            published_entry(downloads[files.len() - 1]),
        )
    }
}

proof fn lemma_publish_lookup(
    disk: Map<Seq<char>, DiskEntry>,
    files: Seq<IntegrityFile>,
    downloads: Seq<Download>,
    path: Seq<char>,
)
    requires
        downloads.len() >= files.len(),
    ensures
        (forall|k: int| 0 <= k < files.len() ==> (#[trigger] files[k]).path@ != path) ==> entry_at(
            publish_all(disk, files, downloads),
            path,
        ) == entry_at(disk, path),
        (exists|k: int| 0 <= k < files.len() && (#[trigger] files[k]).path@ == path) ==> exists|
            k: int,
        |
            0 <= k < files.len() && (#[trigger] files[k]).path@ == path && entry_at(
                publish_all(disk, files, downloads),
                path,
            ) == Some(published_entry(downloads[k])),
    decreases files.len(),
{
    if files.len() > 0 {
        let prev = files.drop_last();
        let last = files.len() - 1;
        lemma_publish_lookup(disk, prev, downloads.take(last), path);
        if files[last].path@ == path {
        } else {
            if exists|k: int| 0 <= k < files.len() && (#[trigger] files[k]).path@ == path {
                let k = choose|k: int| 0 <= k < files.len() && (#[trigger] files[k]).path@ == path;
                assert(prev[k] == files[k]);
                let j = choose|j: int|
                    0 <= j < prev.len() && (#[trigger] prev[j]).path@ == path && entry_at(
                        publish_all(disk, prev, downloads.take(last)),
                        path,
                    ) == Some(published_entry(downloads.take(last)[j]));
                assert(files[j] == prev[j]);
            } else {
                assert forall|k: int| 0 <= k < prev.len() implies (#[trigger] prev[k]).path@ != path by {
                    assert(prev[k] == files[k]);
                }
            }
        }
    }
}

/// Repair converges: when every file found damaged by a full check has been downloaded
/// and published without failure, a full check of the same files finds nothing damaged.
/// The files must have distinct paths, as the filtered manifest has.
pub proof fn lemma_repair_then_verify_clean(
    files: Seq<IntegrityFile>,
    disk: Map<Seq<char>, DiskEntry>,
    downloads: Seq<Download>,
)
    requires
        unique_paths(files),
        downloads.len() == damaged_files(files, disk, false).len(),
        forall|i: int|
            0 <= i < downloads.len() ==> download_verdict(
                damaged_files(files, disk, false)[i],
                #[trigger] downloads[i],
            ) is Ok,
    ensures
        damaged_files(
            files,
            publish_all(disk, damaged_files(files, disk, false), downloads),
            false,
        ).len() == 0,
{
    let pred = |f: IntegrityFile| damaged_on(f, entry_at(disk, f.path@), false);
    let broken = files.filter(pred);
    let after = publish_all(disk, broken, downloads);
    let pred_after = |f: IntegrityFile| damaged_on(f, entry_at(after, f.path@), false);
    assert forall|a: int| 0 <= a < files.len() implies !pred_after(files[a]) by {
        let f = files[a];
        lemma_publish_lookup(disk, broken, downloads, f.path@);
        if exists|k: int| 0 <= k < broken.len() && (#[trigger] broken[k]).path@ == f.path@ {
            let k = choose|k: int|
                0 <= k < broken.len() && (#[trigger] broken[k]).path@ == f.path@ && entry_at(
                    after,
                    f.path@,
                ) == Some(published_entry(downloads[k]));
            assert(broken.contains(broken[k]));
            files.lemma_filter_contains_rev(pred, broken[k]);
            let b = choose|b: int| 0 <= b < files.len() && files[b] == broken[k];
            assert(b == a);
            crate::repair::lemma_atomic_publication(broken[k], downloads[k]);
        } else {
            if pred(f) {
                files.lemma_filter_contains(pred, a);
                let k = choose|k: int| 0 <= k < broken.len() && broken[k] == f;
                assert(broken[k].path@ == f.path@);
            }
        }
    }
    let clean = files.filter(pred_after);
    if clean.len() > 0 {
        files.lemma_filter_pred(pred_after, 0);
        assert(clean.contains(clean[0]));
        files.lemma_filter_contains_rev(pred_after, clean[0]);
    }
}

} // verus!
