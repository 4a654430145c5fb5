use backup_restore::aggregate::collect;
use backup_restore::copy::CopyOutcome;
use backup_restore::types::{Conflict, CopiedFile, CopyError, CopyResult, IoFailure, XdgDir};

fn copied(name: &str, size: u64) -> CopyOutcome {
    CopyOutcome::Copied(CopiedFile {
        source: format!("/b/{name}"),
        dest: format!("/h/{name}"),
        size,
        xdg_dir: XdgDir::Documents,
    })
}

fn conflicted(name: &str, size: u64) -> CopyOutcome {
    CopyOutcome::Conflicted(Conflict {
        restore_path: format!("/h/{name}.restore"),
        original_path: format!("/h/{name}"),
        size,
        xdg_dir: XdgDir::Music,
    })
}

fn failed(name: &str) -> CopyOutcome {
    CopyOutcome::Failed(CopyError {
        source: format!("/b/{name}"),
        dest: format!("/h/{name}"),
        error: IoFailure { already_exists: false, message: String::from("denied") },
        xdg_dir: XdgDir::Videos,
    })
}

fn sample() -> Vec<CopyOutcome> {
    vec![
        copied("a", 10),
        failed("b"),
        conflicted("c", 4),
        copied("d", 1),
        conflicted("e", 20),
        copied("f", 0),
        failed("g"),
    ]
}

fn names(result: &CopyResult) -> (Vec<String>, Vec<String>, Vec<String>) {
    (
        result.copied.iter().map(|c| c.dest.clone()).collect(),
        result.conflicts.iter().map(|c| c.original_path.clone()).collect(),
        result.errors.iter().map(|e| e.dest.clone()).collect(),
    )
}

#[test]
fn a_new_result_is_empty() {
    let result = CopyResult::new();
    assert!(result.copied.is_empty());
    assert!(result.conflicts.is_empty());
    assert!(result.errors.is_empty());
    assert_eq!(result.bytes_copied, 0);
}

#[test]
fn each_record_goes_behind_those_of_its_kind() {
    let mut result = CopyResult::new();
    for outcome in sample() {
        let before = result.copied.len() + result.conflicts.len() + result.errors.len();
        result.record(outcome);
        assert_eq!(result.copied.len() + result.conflicts.len() + result.errors.len(), before + 1);
    }
    let (copied, conflicts, errors) = names(&result);
    assert_eq!(copied, vec!["/h/a", "/h/d", "/h/f"]);
    assert_eq!(conflicts, vec!["/h/c", "/h/e"]);
    assert_eq!(errors, vec!["/h/b", "/h/g"]);
    assert_eq!(result.bytes_copied, 35);
}

#[test]
fn a_failure_adds_no_bytes() {
    let mut result = CopyResult::new();
    result.record(copied("a", 7));
    result.record(failed("b"));
    assert_eq!(result.bytes_copied, 7);
    result.record(conflicted("c", 3));
    assert_eq!(result.bytes_copied, 10);
}

#[test]
fn collect_is_recording_in_turn() {
    let mut expected = CopyResult::new();
    for outcome in sample() {
        expected.record(outcome);
    }
    let result = collect(sample());
    assert_eq!(names(&result), names(&expected));
    assert_eq!(result.bytes_copied, expected.bytes_copied);
    assert_eq!(result.bytes_copied, 35);
}

#[test]
fn merged_results_hold_what_one_worker_would_have_gathered() {
    let all = sample();
    for cut in 0..=all.len() {
        let mut first = CopyResult::new();
        let mut second = CopyResult::new();
        for (place, outcome) in sample().into_iter().enumerate() {
            if place < cut {
                first.record(outcome);
            } else {
                second.record(outcome);
            }
        }
        first.merge(second);
        let alone = collect(sample());
        assert_eq!(names(&first), names(&alone), "cut at {cut}");
        assert_eq!(first.bytes_copied, alone.bytes_copied);
    }
}

#[test]
fn the_order_of_the_records_does_not_change_what_is_recorded() {
    let mut turned = sample();
    turned.reverse();
    let forward = collect(sample());
    let backward = collect(turned);
    let sorted = |result: &CopyResult| {
        let (mut a, mut b, mut c) = names(result);
        a.sort();
        b.sort();
        c.sort();
        (a, b, c)
    };
    assert_eq!(sorted(&forward), sorted(&backward));
    assert_eq!(forward.bytes_copied, backward.bytes_copied);
}

#[test]
fn the_total_may_reach_the_largest_count() {
    let mut result = CopyResult::new();
    result.record(copied("a", u64::MAX - 5));
    result.record(conflicted("b", 5));
    assert_eq!(result.bytes_copied, u64::MAX);
    result.record(failed("c"));
    assert_eq!(result.bytes_copied, u64::MAX);
}
