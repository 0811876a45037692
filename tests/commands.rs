use anime_game_cli::patch_flow::{next_patch_call, PatchAnswer, PatchCall, PatchGoal, PatchReport};
use anime_game_cli::repair::{check_download, Download};
use anime_game_cli::status::{
    freshness, installed_latest, locales_line, patch_usable, Freshness, PatchStage, Version,
    VersionDiff,
};
use anime_game_cli::verify::{check_file, Probe, Verdict};
use anime_game_cli::IntegrityFile;

fn v(major: u8, minor: u8, patch: u8) -> Version {
    Version { major, minor, patch }
}

fn run(goal: PatchGoal, answers: &[PatchAnswer]) -> (Vec<PatchCall>, PatchCall) {
    let mut call = PatchCall::CheckSync;
    let mut calls = vec![call];
    for a in answers {
        call = next_patch_call(goal, call, *a);
        calls.push(call);
    }
    (calls, call)
}

#[test]
fn version_text() {
    assert_eq!(v(3, 2, 10).text(), "3.2.10");
    assert_eq!(v(0, 0, 0).text(), "0.0.0");
    assert_eq!(v(255, 1, 0).text(), "255.1.0");
}

#[test]
fn latest_version_of_diff() {
    assert_eq!(installed_latest(&VersionDiff::Latest(v(3, 0, 0))), Some(v(3, 0, 0)));
    let diff = VersionDiff::Diff { current: v(2, 8, 0), latest: v(3, 0, 0), unpacked_size: 9 };
    assert_eq!(installed_latest(&diff), Some(v(3, 0, 0)));
    let old = VersionDiff::Outdated { current: v(1, 0, 0), latest: v(3, 0, 0) };
    assert_eq!(installed_latest(&old), Some(v(3, 0, 0)));
    assert_eq!(installed_latest(&VersionDiff::NotInstalled { latest: v(3, 0, 0) }), None);
}

#[test]
fn package_freshness() {
    assert_eq!(freshness(Some(v(3, 0, 0)), Some(v(3, 0, 0))), Freshness::Current);
    assert_eq!(freshness(Some(v(2, 8, 0)), Some(v(3, 0, 0))), Freshness::Stale);
    assert_eq!(freshness(Some(v(2, 8, 0)), None), Freshness::Unchecked);
    assert_eq!(freshness(None, Some(v(3, 0, 0))), Freshness::Unreadable);
}

#[test]
fn patch_stages() {
    assert!(patch_usable(PatchStage::Testing));
    assert!(patch_usable(PatchStage::Available));
    assert!(!patch_usable(PatchStage::Preparation));
    assert!(!patch_usable(PatchStage::Outdated));
    assert!(!patch_usable(PatchStage::NotAvailable));
}

#[test]
fn locales_joined() {
    assert_eq!(locales_line(&vec![]), None);
    assert_eq!(
        locales_line(&vec!["English".to_string()]),
        Some("Verifying locales: English".to_string())
    );
    assert_eq!(
        locales_line(&vec!["English".to_string(), "Japanese".to_string()]),
        Some("Verifying locales: English, Japanese".to_string())
    );
}

#[test]
fn patch_apply_flow() {
    let (calls, end) = run(
        PatchGoal::Apply,
        &[PatchAnswer::Yes, PatchAnswer::Stage(PatchStage::Available), PatchAnswer::No, PatchAnswer::Yes],
    );
    assert_eq!(
        calls[..5],
        [
            PatchCall::CheckSync,
            PatchCall::FetchStatus,
            PatchCall::CheckApplied,
            PatchCall::Apply,
            PatchCall::Finish(PatchReport::Applied)
        ]
    );
    assert_eq!(end, PatchCall::Finish(PatchReport::Applied));
    let (_, end) = run(PatchGoal::Apply, &[PatchAnswer::No]);
    assert_eq!(end, PatchCall::Finish(PatchReport::NotSynced));
    let (_, end) = run(PatchGoal::Apply, &[PatchAnswer::Failed]);
    assert_eq!(end, PatchCall::Finish(PatchReport::FolderCheckFailed));
    let (_, end) =
        run(PatchGoal::Apply, &[PatchAnswer::Yes, PatchAnswer::Stage(PatchStage::Testing), PatchAnswer::Yes]);
    assert_eq!(end, PatchCall::Finish(PatchReport::AlreadyApplied));
    let (_, end) = run(PatchGoal::Apply, &[PatchAnswer::Yes, PatchAnswer::Failed]);
    assert_eq!(end, PatchCall::Finish(PatchReport::StatusFetchFailed));
}

#[test]
fn patch_revert_flow() {
    let (_, end) = run(
        PatchGoal::Revert,
        &[PatchAnswer::Yes, PatchAnswer::Stage(PatchStage::Testing), PatchAnswer::Yes],
    );
    assert_eq!(end, PatchCall::Finish(PatchReport::Reverted));
    let (_, end) =
        run(PatchGoal::Revert, &[PatchAnswer::Yes, PatchAnswer::Stage(PatchStage::Preparation)]);
    assert_eq!(end, PatchCall::Finish(PatchReport::NotRevertable));
    let (_, end) = run(
        PatchGoal::Revert,
        &[PatchAnswer::Yes, PatchAnswer::Stage(PatchStage::Available), PatchAnswer::No],
    );
    assert_eq!(end, PatchCall::Finish(PatchReport::RevertFailed));
}

#[test]
fn patch_sync_tries_mirrors_in_order() {
    let goal = PatchGoal::Sync { hosts: 3 };
    let (calls, end) = run(goal, &[PatchAnswer::No, PatchAnswer::Failed, PatchAnswer::Yes]);
    assert_eq!(calls[1..3], [PatchCall::SyncFrom(0), PatchCall::SyncFrom(1)]);
    assert_eq!(end, PatchCall::Finish(PatchReport::Synced));
    let (_, end) = run(goal, &[PatchAnswer::No, PatchAnswer::No, PatchAnswer::No, PatchAnswer::No]);
    assert_eq!(end, PatchCall::Finish(PatchReport::SyncFailed));
    let (_, end) = run(goal, &[PatchAnswer::Yes]);
    assert_eq!(end, PatchCall::Finish(PatchReport::AlreadySynced));
    let (_, end) = run(PatchGoal::Sync { hosts: 1 }, &[PatchAnswer::No, PatchAnswer::No]);
    assert_eq!(end, PatchCall::Finish(PatchReport::SyncFailed));
}

#[test]
fn repair_then_verify_is_clean() {
    let file = IntegrityFile {
        path: "data/blob".to_string(),
        size: 12,
        checksum: "abc123".to_string(),
        remote_url: "https://example.com/data/blob".to_string(),
    };
    assert_eq!(check_file(&file, false, &Probe::Hashed(12, "zzz".to_string())), Verdict::Damaged);
    let download = Download::Fetched { size: 12, checksum: "abc123".to_string() };
    assert_eq!(check_download(&file, &download), Ok(()));
    // what was published is what was downloaded
    assert_eq!(check_file(&file, false, &Probe::Hashed(12, "abc123".to_string())), Verdict::Intact);
}
