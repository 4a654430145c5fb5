use std::path::{Path, PathBuf};

use tempfile::{tempdir, Builder};
use walkdir::WalkDir;

use backup_restore::scan::{match_entry, ScanResult, WalkEntry, WalkEvent};
use backup_restore::types::{DetectedMapping, XdgDir};

fn make_dir(parent: &Path, name: &str) -> PathBuf {
    Builder::new().prefix(name).rand_bytes(0).tempdir_in(parent).unwrap().keep()
}

fn text(path: &Path) -> String {
    path.to_str().unwrap().to_string()
}

/// Walks the backup as the program does, and lets the library decide.
fn scan_backup(backup_root: &Path, home_dir: &Path) -> ScanResult {
    let root = text(backup_root);
    let home = text(home_dir);
    let mut scan = ScanResult::new();
    let mut walker = WalkDir::new(backup_root).into_iter();
    while let Some(entry) = walker.next() {
        let event = match entry {
            Ok(entry) => WalkEvent::Entry(WalkEntry {
                path: text(entry.path()),
                file_name: entry.file_name().to_str().map(str::to_string),
                is_dir: entry.file_type().is_dir(),
            }),
            Err(error) => WalkEvent::Unreadable(error.to_string()),
        };
        if scan.observe(&root, &home, event) {
            walker.skip_current_dir();
        }
    }
    scan
}

#[test]
fn finds_xdg_dirs_nested_in_backup() {
    let backup = tempdir().unwrap();
    let home = tempdir().unwrap();
    let outer = make_dir(backup.path(), "oryx-pro");
    let nested = make_dir(&outer, "oryx-pro");
    make_dir(&nested, "Documents");
    make_dir(&nested, "Downloads");

    let result = scan_backup(backup.path(), home.path());

    assert_eq!(result.mappings.len(), 2);
    let xdg_names: Vec<XdgDir> = result.mappings.iter().map(|m| m.xdg_dir).collect();
    assert!(xdg_names.contains(&XdgDir::Documents));
    assert!(xdg_names.contains(&XdgDir::Downloads));
}

#[test]
fn skips_non_xdg_dirs() {
    let backup = tempdir().unwrap();
    let home = tempdir().unwrap();
    make_dir(backup.path(), ".config");
    make_dir(backup.path(), ".local");
    make_dir(backup.path(), "random_stuff");

    let result = scan_backup(backup.path(), home.path());

    assert_eq!(result.mappings.len(), 0);
}

#[test]
fn does_not_descend_into_matched_xdg_dirs() {
    let backup = tempdir().unwrap();
    let home = tempdir().unwrap();
    let documents = make_dir(backup.path(), "Documents");
    make_dir(&documents, "Pictures");

    let result = scan_backup(backup.path(), home.path());

    assert_eq!(result.mappings.len(), 1);
    assert_eq!(result.mappings[0].xdg_dir, XdgDir::Documents);
}

#[test]
fn detects_duplicate_xdg_dirs_at_different_paths() {
    let backup = tempdir().unwrap();
    let home = tempdir().unwrap();
    make_dir(backup.path(), "Documents");
    let old = make_dir(backup.path(), "old-backup");
    make_dir(&old, "Documents");

    let result = scan_backup(backup.path(), home.path());

    let doc_mappings: Vec<&DetectedMapping> =
        result.mappings.iter().filter(|m| m.xdg_dir == XdgDir::Documents).collect();
    assert_eq!(doc_mappings.len(), 2);
}

#[test]
fn returns_empty_for_empty_backup() {
    let backup = tempdir().unwrap();
    let home = tempdir().unwrap();

    let result = scan_backup(backup.path(), home.path());

    assert_eq!(result.mappings.len(), 0);
}

#[test]
fn finds_all_eight_xdg_dirs() {
    let backup = tempdir().unwrap();
    let home = tempdir().unwrap();
    for xdg in &XdgDir::ALL {
        make_dir(backup.path(), xdg.dir_name());
    }

    let result = scan_backup(backup.path(), home.path());

    assert_eq!(result.mappings.len(), 8);
}

#[test]
fn finds_xdg_dir_at_top_level() {
    let backup = tempdir().unwrap();
    let home = tempdir().unwrap();
    make_dir(backup.path(), "Documents");

    let result = scan_backup(backup.path(), home.path());

    assert_eq!(result.mappings.len(), 1);
    assert_eq!(result.mappings[0].xdg_dir, XdgDir::Documents);
    assert_eq!(result.mappings[0].source_path, text(&backup.path().join("Documents")));
    assert_eq!(result.mappings[0].dest_path, text(&home.path().join("Documents")));
}

#[test]
fn collects_warnings_for_unreadable_dirs() {
    let mut scan = ScanResult::new();
    let documents = WalkEvent::Entry(WalkEntry {
        path: String::from("/backup/Documents"),
        file_name: Some(String::from("Documents")),
        is_dir: true,
    });
    let sealed = WalkEvent::Unreadable(String::from(
        "IO error for operation on /backup/sealed: Permission denied (os error 13)",
    ));

    assert!(scan.observe("/backup", "/home/joe", documents));
    assert!(!scan.observe("/backup", "/home/joe", sealed));

    assert_eq!(scan.mappings.len(), 1);
    assert!(!scan.warnings.is_empty(), "should collect warnings for unreadable dirs");
    assert_eq!(
        scan.warnings[0],
        "IO error for operation on /backup/sealed: Permission denied (os error 13)"
    );
}

#[test]
fn the_root_of_the_backup_is_no_match() {
    let parent = tempdir().unwrap();
    let home = tempdir().unwrap();
    let backup = make_dir(parent.path(), "Documents");
    make_dir(&backup, "Music");

    let result = scan_backup(&backup, home.path());

    assert_eq!(result.mappings.len(), 1);
    assert_eq!(result.mappings[0].xdg_dir, XdgDir::Music);
}

#[test]
fn the_root_is_known_however_it_is_written() {
    let entry = WalkEntry {
        path: String::from("/backups/Documents"),
        file_name: Some(String::from("Documents")),
        is_dir: true,
    };
    assert!(match_entry("/backups/Documents", "/home/joe", &entry).is_none());
    assert!(match_entry("/backups/Documents/", "/home/joe", &entry).is_none());
    assert!(match_entry("/backups//Documents", "/home/joe", &entry).is_none());
    assert!(match_entry("/backups", "/home/joe", &entry).is_some());
    assert!(match_entry("/backups/Document", "/home/joe", &entry).is_some());
}

#[test]
fn a_match_leads_to_the_directory_of_that_name_at_home() {
    let entry = WalkEntry {
        path: String::from("/backups/old/Pictures"),
        file_name: Some(String::from("Pictures")),
        is_dir: true,
    };
    let mapping = match_entry("/backups", "/home/joe", &entry).unwrap();
    assert_eq!(mapping.xdg_dir, XdgDir::Pictures);
    assert_eq!(mapping.source_path, "/backups/old/Pictures");
    assert_eq!(mapping.dest_path, "/home/joe/Pictures");
}

#[test]
fn files_and_unnamed_entries_are_no_match() {
    let file = WalkEntry {
        path: String::from("/backups/Documents"),
        file_name: Some(String::from("Documents")),
        is_dir: false,
    };
    assert!(match_entry("/backups", "/home/joe", &file).is_none());
    let unnamed =
        WalkEntry { path: String::from("/backups/Documents"), file_name: None, is_dir: true };
    assert!(match_entry("/backups", "/home/joe", &unnamed).is_none());
    let other = WalkEntry {
        path: String::from("/backups/documents"),
        file_name: Some(String::from("documents")),
        is_dir: true,
    };
    assert!(match_entry("/backups", "/home/joe", &other).is_none());
}

#[test]
fn an_entry_that_is_no_match_changes_nothing() {
    let mut scan = ScanResult::new();
    let entry = WalkEvent::Entry(WalkEntry {
        path: String::from("/backup/notes"),
        file_name: Some(String::from("notes")),
        is_dir: true,
    });
    assert!(!scan.observe("/backup", "/home/joe", entry));
    assert!(scan.mappings.is_empty());
    assert!(scan.warnings.is_empty());
}
