use anime_game_cli::manifest::calc_size;
use anime_game_cli::partition::{clamp_threads, partition};
use anime_game_cli::progress::ProgressBars;
use anime_game_cli::repair::{
    check_download, failure_line, temp_path, Download, ErrorKind, RepairFailure,
};
use anime_game_cli::verify::{check_file, Probe, Verdict};
use anime_game_cli::IntegrityFile;

fn sized(path: &str, size: u64) -> IntegrityFile {
    IntegrityFile {
        path: path.to_string(),
        size,
        checksum: "c0ffee".to_string(),
        remote_url: String::new(),
    }
}

fn totals(batches: &[Vec<IntegrityFile>]) -> Vec<u64> {
    batches.iter().map(|b| b.iter().map(|f| f.size).sum()).collect()
}

#[test]
fn size_weighted_partition_fairness() {
    let sizes = [100, 1, 1, 1, 1, 1, 1, 1, 1, 100];
    let files: Vec<IntegrityFile> =
        sizes.iter().enumerate().map(|(i, s)| sized(&format!("f{}", i), *s)).collect();
    let batches = partition(&files, 2);
    assert_eq!(batches.len(), 2);
    assert_eq!(totals(&batches), vec![104, 104]);
    assert_eq!(batches[0].len(), 5);
    assert!(totals(&batches).iter().all(|t| *t <= 204));
}

#[test]
fn partition_covers_input_in_order() {
    let files: Vec<IntegrityFile> =
        [5u64, 9, 1, 0, 7, 3, 3].iter().enumerate().map(|(i, s)| sized(&format!("{}", i), *s)).collect();
    for n in 1..=9 {
        let batches = partition(&files, n);
        assert!(batches.len() <= n);
        assert!(batches.iter().all(|b| !b.is_empty()));
        let flat: Vec<String> = batches.iter().flatten().map(|f| f.path.clone()).collect();
        let want: Vec<String> = files.iter().map(|f| f.path.clone()).collect();
        assert_eq!(flat, want);
    }
}

#[test]
fn partition_balance_bound() {
    let files: Vec<IntegrityFile> =
        [1u64, 1, 1, 1, 1].iter().enumerate().map(|(i, s)| sized(&format!("{}", i), *s)).collect();
    // total 5, three workers: no batch above 5/3 + 1
    let batches = partition(&files, 3);
    assert_eq!(totals(&batches), vec![2, 2, 1]);
    for t in totals(&batches) {
        assert!(t * 3 <= 5 + 3);
    }
}

#[test]
fn partition_of_zero_sizes_respects_worker_count() {
    let files: Vec<IntegrityFile> = (0..6).map(|i| sized(&format!("{}", i), 0)).collect();
    let batches = partition(&files, 4);
    assert_eq!(batches.iter().map(|b| b.len()).collect::<Vec<_>>(), vec![1, 1, 1, 3]);
}

#[test]
fn partition_of_empty_list_is_empty() {
    assert!(partition(&vec![], 3).is_empty());
}

#[test]
fn partition_single_worker_takes_all() {
    let files: Vec<IntegrityFile> = (0..4).map(|i| sized(&format!("{}", i), u64::MAX)).collect();
    let batches = partition(&files, 1);
    assert_eq!(batches.len(), 1);
    assert_eq!(batches[0].len(), 4);
    assert_eq!(calc_size(&files), 4 * u64::MAX as u128);
}

#[test]
fn thread_count_clamp() {
    assert_eq!(clamp_threads(4, 2), 2);
    assert_eq!(clamp_threads(4, 10), 4);
    assert_eq!(clamp_threads(4, 0), 0);
}

#[test]
fn calc_size_sums() {
    assert_eq!(calc_size(&vec![sized("a", 10), sized("b", 20)]), 30);
    assert_eq!(calc_size(&vec![]), 0);
}

#[test]
fn fast_mode_flags_no_more_than_full() {
    let f = sized("a", 10);
    let probes = vec![
        Probe::Missing,
        Probe::Unreadable,
        Probe::Sized(9),
        Probe::Sized(10),
        Probe::Hashed(10, "c0ffee".to_string()),
        Probe::Hashed(10, "bad".to_string()),
        Probe::Hashed(11, "c0ffee".to_string()),
    ];
    for p in &probes {
        if check_file(&f, true, p) == Verdict::Damaged {
            assert_eq!(check_file(&f, false, p), Verdict::Damaged);
        }
    }
    assert_eq!(check_file(&f, true, &Probe::Hashed(10, "bad".to_string())), Verdict::Intact);
    assert_eq!(check_file(&f, false, &Probe::Hashed(10, "bad".to_string())), Verdict::Damaged);
    assert_eq!(check_file(&f, false, &Probe::Sized(9)), Verdict::Damaged);
    assert_eq!(check_file(&f, true, &Probe::Sized(10)), Verdict::Intact);
    assert_eq!(check_file(&f, false, &Probe::Unreadable), Verdict::Damaged);
}

#[test]
fn download_checks() {
    let f = sized("a", 10);
    assert_eq!(
        check_download(&f, &Download::Fetched { size: 9, checksum: "c0ffee".to_string() }),
        Err(ErrorKind::SizeMismatch)
    );
    assert_eq!(
        check_download(&f, &Download::Fetched { size: 10, checksum: "c0ffef".to_string() }),
        Err(ErrorKind::ChecksumMismatch)
    );
    assert_eq!(check_download(&f, &Download::Failed(ErrorKind::Io)), Err(ErrorKind::Io));
    assert_eq!(
        check_download(&f, &Download::Fetched { size: 10, checksum: "c0ffee".to_string() }),
        Ok(())
    );
}

#[test]
fn temp_path_is_beside_destination() {
    assert_eq!(temp_path("data/file.pak"), "data/file.pak.part");
    assert_ne!(temp_path("x"), "x");
}

#[test]
fn failure_lines_name_the_kind() {
    let kinds = [
        (ErrorKind::Io, "Io"),
        (ErrorKind::Network, "Network"),
        (ErrorKind::SizeMismatch, "SizeMismatch"),
        (ErrorKind::ChecksumMismatch, "ChecksumMismatch"),
    ];
    for (kind, name) in kinds {
        let line = failure_line(&RepairFailure { file: sized("p/q", 1), kind });
        assert_eq!(line, format!("Failed to repair p/q: {}", name));
    }
}

#[test]
fn progress_counters_clamp_and_never_go_back() {
    let mut bars = ProgressBars::new();
    let a = bars.register_bar(3);
    let b = bars.register_bar(10);
    assert_eq!((a, b, bars.bar_count()), (0, 1, 2));
    assert_eq!(bars.advance(a, 1), 1);
    assert_eq!(bars.advance(a, 5), 3);
    assert_eq!(bars.advance(a, 1), 3);
    assert_eq!(bars.set(b, 7), 7);
    assert_eq!(bars.set(b, 4), 7);
    assert_eq!(bars.set(b, 99), 10);
    assert_eq!(bars.advance(b, usize::MAX), 10);
}
