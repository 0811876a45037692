use anime_game_cli::engine::{Finish, RepairSession, Stage, Step};
use anime_game_cli::output::{damage_report, failure_report};
use anime_game_cli::repair::{check_download, Download, ErrorKind, RepairFailure};
use anime_game_cli::settings::{ArgumentValue, RepairFilesConfig};
use anime_game_cli::verify::{check_file, Probe, Verdict};
use anime_game_cli::IntegrityFile;

fn file(path: &str, size: u64, checksum: &str) -> IntegrityFile {
    IntegrityFile {
        path: path.to_string(),
        size,
        checksum: checksum.to_string(),
        remote_url: format!("https://example.com/{}", path),
    }
}

fn arg(name: &str, value: &str) -> ArgumentValue {
    ArgumentValue { name: name.to_string(), value: value.to_string() }
}

fn batches_of(step: Step) -> Vec<Vec<IntegrityFile>> {
    match step {
        Step::Verify(b) | Step::Repair(b) => b,
        Step::Stop => panic!("expected work, got stop"),
    }
}

fn paths(files: &[IntegrityFile]) -> Vec<String> {
    files.iter().map(|f| f.path.clone()).collect()
}

#[test]
fn all_good_fast_mode() {
    let mut config = RepairFilesConfig::from_args(vec![arg("--fast", "--fast")]).unwrap();
    config.verify_threads = 2;
    let mut session = RepairSession::new(config);
    let manifest = vec![file("a", 10, "aa"), file("b", 20, "bb")];
    let batches = batches_of(session.on_manifest(Some(manifest)));
    assert!(batches.len() <= 2);
    let mut damaged = Vec::new();
    let mut position = 0;
    for batch in &batches {
        for f in batch {
            let verdict = check_file(f, true, &Probe::Sized(f.size));
            assert_eq!(verdict, Verdict::Intact);
            if verdict == Verdict::Damaged {
                damaged.push(position);
            }
            position += 1;
        }
    }
    assert_eq!(position, 2);
    let step = session.on_verified(damaged);
    assert!(matches!(step, Step::Stop));
    assert_eq!(session.stage, Stage::Done(Finish::Completed));
    assert!(session.damaged.is_empty());
}

#[test]
fn one_missing_file() {
    let args = vec![arg("--verify-threads", "1"), arg("--repair-threads", "1")];
    let config = RepairFilesConfig::from_args(args).unwrap();
    let mut session = RepairSession::new(config);
    let c = file("c", 30, "0123456789abcdef0123456789abcdef");
    let batches = batches_of(session.on_manifest(Some(vec![c.clone()])));
    assert_eq!(batches.len(), 1);
    assert_eq!(check_file(&batches[0][0], false, &Probe::Missing), Verdict::Damaged);
    let repair = batches_of(session.on_verified(vec![0]));
    assert_eq!(paths(&session.damaged), vec!["c"]);
    assert_eq!(repair.len(), 1);
    assert_eq!(paths(&repair[0]), vec!["c"]);
    let fetched = Download::Fetched { size: 30, checksum: c.checksum.clone() };
    assert_eq!(check_download(&repair[0][0], &fetched), Ok(()));
    let step = session.on_repaired(vec![]);
    assert!(matches!(step, Step::Stop));
    assert!(session.failures.is_empty());
    assert_eq!(session.stage, Stage::Done(Finish::Completed));
}

#[test]
fn checksum_mismatch_verify_only() {
    let config = RepairFilesConfig::from_args(vec![arg("--verify", "--verify")]).unwrap();
    assert!(config.just_verify && !config.fast);
    let mut session = RepairSession::new(config);
    let d = file("d", 40, "good");
    let batches = batches_of(session.on_manifest(Some(vec![d])));
    let f = &batches[0][0];
    assert_eq!(check_file(f, false, &Probe::Sized(40)), Verdict::NeedsChecksum);
    assert_eq!(check_file(f, false, &Probe::Hashed(40, "evil".to_string())), Verdict::Damaged);
    let step = session.on_verified(vec![0]);
    assert!(matches!(step, Step::Stop));
    assert_eq!(paths(&session.damaged), vec!["d"]);
    assert_eq!(session.stage, Stage::Done(Finish::Completed));
}

#[test]
fn ignore_applies() {
    let config =
        RepairFilesConfig::from_args(vec![arg("--ignore", "unityplayer.dll")]).unwrap();
    let mut session = RepairSession::new(config);
    let manifest = vec![file("UnityPlayer.dll", 5, "x"), file("data/level0", 7, "y")];
    let batches = batches_of(session.on_manifest(Some(manifest)));
    assert_eq!(paths(&session.files), vec!["data/level0"]);
    let all: Vec<IntegrityFile> = batches.into_iter().flatten().collect();
    assert_eq!(paths(&all), vec!["data/level0"]);
    assert_eq!(check_file(&all[0], false, &Probe::Hashed(7, "y".to_string())), Verdict::Intact);
    let step = session.on_verified(vec![]);
    assert!(matches!(step, Step::Stop));
    assert!(session.damaged.is_empty());
}

#[test]
fn ignore_only_file_leaves_nothing_to_do() {
    let config = RepairFilesConfig::from_args(vec![arg("--ignore", "UNITYPLAYER")]).unwrap();
    let mut session = RepairSession::new(config);
    let step = session.on_manifest(Some(vec![file("UnityPlayer.dll", 5, "x")]));
    assert!(matches!(step, Step::Stop));
    assert_eq!(session.stage, Stage::Done(Finish::NothingToDo));
}

#[test]
fn fetch_failure_stops() {
    let mut session = RepairSession::new(RepairFilesConfig::default());
    let step = session.on_manifest(None);
    assert!(matches!(step, Step::Stop));
    assert_eq!(session.stage, Stage::Done(Finish::FetchFailed));
}

#[test]
fn partial_repair_failure() {
    let mut session = RepairSession::new(RepairFilesConfig::default());
    let good = file("good_file", 3, "g");
    let bad = file("bad_file", 4, "b");
    batches_of(session.on_manifest(Some(vec![good.clone(), bad.clone()])));
    let repair = batches_of(session.on_verified(vec![1, 0]));
    assert_eq!(paths(&session.damaged), vec!["bad_file", "good_file"]);
    let mut failures = Vec::new();
    for batch in &repair {
        for f in batch {
            let download = if f.path == "bad_file" {
                Download::Failed(ErrorKind::Network)
            } else {
                Download::Fetched { size: 3, checksum: "g".to_string() }
            };
            if let Err(kind) = check_download(f, &download) {
                failures.push(RepairFailure { file: f.clone(), kind });
            }
        }
    }
    session.on_repaired(failures);
    assert_eq!(session.failures.len(), 1);
    assert_eq!(session.failures[0].file.path, "bad_file");
    assert_eq!(session.failures[0].kind, ErrorKind::Network);
    let lines = failure_report(&session.failures);
    assert_eq!(lines, vec!["Failed to repair bad_file: Network".to_string()]);
}

#[test]
fn repair_threads_clamped_to_damage() {
    let args = vec![arg("--threads", "8")];
    let mut session = RepairSession::new(RepairFilesConfig::from_args(args).unwrap());
    let manifest: Vec<IntegrityFile> =
        (0..5).map(|i| file(&format!("f{}", i), 10, "s")).collect();
    let verify = batches_of(session.on_manifest(Some(manifest)));
    assert_eq!(verify.len(), 5);
    let repair = batches_of(session.on_verified(vec![4, 2]));
    assert_eq!(repair.len(), 2);
    assert_eq!(paths(&session.damaged), vec!["f4", "f2"]);
}

#[test]
fn repeated_paths_keep_first() {
    let mut session = RepairSession::new(RepairFilesConfig::default());
    let manifest = vec![file("a", 1, "first"), file("b", 2, "x"), file("a", 3, "second")];
    session.on_manifest(Some(manifest));
    assert_eq!(paths(&session.files), vec!["a", "b"]);
    assert_eq!(session.files[0].checksum, "first");
}

#[test]
fn damage_report_lines() {
    let lines = damage_report(&vec![file("x/y.pak", 1, "c"), file("z", 2, "d")]);
    assert_eq!(lines, vec!["Found 2 broken files", "- x/y.pak", "- z"]);
    assert_eq!(damage_report(&vec![]), vec!["Found 0 broken files"]);
}

#[test]
fn manifest_with_escaping_path_is_refused() {
    for bad in ["../outside", "/etc/passwd", "", "a/../../b"] {
        let mut session = RepairSession::new(RepairFilesConfig::default());
        let step = session.on_manifest(Some(vec![file("ok", 1, "x"), file(bad, 1, "y")]));
        assert!(matches!(step, Step::Stop));
        assert_eq!(session.stage, Stage::Done(Finish::FetchFailed));
    }
}

#[test]
fn record_path_validity() {
    assert!(file("GenshinImpact_Data/Managed/a.dll", 1, "").has_valid_path());
    assert!(file("a.b/c", 1, "").has_valid_path());
    assert!(!file("a..b", 1, "").has_valid_path());
    assert!(!file("/x", 1, "").has_valid_path());
    assert!(!file("", 1, "").has_valid_path());
}

#[test]
fn repeated_damage_positions_are_repaired_once() {
    let mut session = RepairSession::new(RepairFilesConfig::default());
    session.on_manifest(Some(vec![file("a", 5, "x"), file("b", 5, "y")]));
    let repair = batches_of(session.on_verified(vec![1, 1, 0, 1]));
    assert_eq!(paths(&session.damaged), vec!["b", "a"]);
    let all: Vec<IntegrityFile> = repair.into_iter().flatten().collect();
    assert_eq!(paths(&all), vec!["b", "a"]);
}
