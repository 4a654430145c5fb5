use std::io::Write;
use std::path::{Path, PathBuf};

use tempfile::{tempdir, Builder, NamedTempFile};
use walkdir::WalkDir;

use backup_restore::plan::{build_plan, place_entry, plan_entry, PlanError, PlanItem, TreeEntry, WalkedTree};
use backup_restore::types::{CopyPlan, DetectedMapping, XdgDir};

fn make_dir(parent: &Path, name: &str) -> PathBuf {
    Builder::new().prefix(name).rand_bytes(0).tempdir_in(parent).unwrap().keep()
}

fn make_file(dir: &Path, name: &str, content: &str) {
    let mut file = NamedTempFile::new_in(dir).unwrap();
    file.write_all(content.as_bytes()).unwrap();
    file.persist(dir.join(name)).unwrap();
}

fn text(path: &Path) -> String {
    path.to_str().unwrap().to_string()
}

fn mapping(xdg_dir: XdgDir, source: PathBuf, dest: PathBuf) -> DetectedMapping {
    DetectedMapping { xdg_dir, source_path: text(&source), dest_path: text(&dest) }
}

/// Walks the trees as the program does, and lets the library build the plan.
fn plan_for(mappings: &[DetectedMapping]) -> Result<CopyPlan, PlanError> {
    let mut trees = Vec::new();
    for mapping in mappings {
        let mut entries = Vec::new();
        for entry in WalkDir::new(&mapping.source_path).follow_links(true) {
            let entry = entry.unwrap();
            let is_dir = entry.file_type().is_dir();
            let size = if is_dir || entry.depth() == 0 { 0 } else { entry.metadata().unwrap().len() };
            entries.push(TreeEntry { path: text(entry.path()), is_dir, size });
        }
        trees.push(WalkedTree { mapping: mapping.clone(), entries });
    }
    build_plan(&trees)
}

#[test]
fn builds_plan_for_single_file() {
    let backup = tempdir().unwrap();
    let home = tempdir().unwrap();
    let src_dir = make_dir(backup.path(), "Documents");
    make_file(&src_dir, "readme.txt", "hello");

    let m = mapping(XdgDir::Documents, src_dir, home.path().join("Documents"));
    let plan = plan_for(&[m]).unwrap();

    assert_eq!(plan.files.len(), 1);
    assert_eq!(plan.files[0].source, text(&backup.path().join("Documents/readme.txt")));
    assert_eq!(plan.files[0].dest, text(&home.path().join("Documents/readme.txt")));
    assert_eq!(plan.files[0].size, 5);
    assert_eq!(plan.files[0].xdg_dir, XdgDir::Documents);
    assert_eq!(plan.total_bytes, 5);
}

#[test]
fn includes_deeply_nested_files() {
    let backup = tempdir().unwrap();
    let home = tempdir().unwrap();
    let documents = make_dir(backup.path(), "Documents");
    let a = make_dir(&documents, "a");
    let b = make_dir(&a, "b");
    let deep = make_dir(&b, "c");
    make_file(&deep, "deep.txt", "nested");

    let m = mapping(
        XdgDir::Documents,
        backup.path().join("Documents"),
        home.path().join("Documents"),
    );
    let plan = plan_for(&[m]).unwrap();

    assert_eq!(plan.files.len(), 1);
    assert_eq!(plan.files[0].dest, text(&home.path().join("Documents/a/b/c/deep.txt")));
    // Dirs: Documents, a, b, c
    assert_eq!(plan.dirs.len(), 4);
}

#[test]
fn creates_dir_ops_for_empty_directories() {
    let backup = tempdir().unwrap();
    let home = tempdir().unwrap();
    let src_dir = make_dir(backup.path(), "Pictures");
    make_dir(&src_dir, "empty_album");

    let m = mapping(XdgDir::Pictures, src_dir, home.path().join("Pictures"));
    let plan = plan_for(&[m]).unwrap();

    assert_eq!(plan.files.len(), 0);
    // Dirs: Pictures, empty_album
    assert_eq!(plan.dirs.len(), 2);
    let dir_dests: Vec<_> = plan.dirs.iter().map(|d| d.dest.clone()).collect();
    assert!(dir_dests.contains(&text(&home.path().join("Pictures"))));
    assert!(dir_dests.contains(&text(&home.path().join("Pictures/empty_album"))));
}

#[test]
fn handles_multiple_mappings() {
    let backup = tempdir().unwrap();
    let home = tempdir().unwrap();

    let docs = make_dir(backup.path(), "Documents");
    make_file(&docs, "a.txt", "aa");

    let music = make_dir(backup.path(), "Music");
    make_file(&music, "b.mp3", "bbb");

    let mappings = vec![
        mapping(XdgDir::Documents, docs, home.path().join("Documents")),
        mapping(XdgDir::Music, music, home.path().join("Music")),
    ];
    let plan = plan_for(&mappings).unwrap();

    assert_eq!(plan.files.len(), 2);
    assert_eq!(plan.total_bytes, 5); // 2 + 3
}

#[test]
fn sums_total_bytes_correctly() {
    let backup = tempdir().unwrap();
    let home = tempdir().unwrap();
    let src_dir = make_dir(backup.path(), "Downloads");
    make_file(&src_dir, "file1", "aaaa"); // 4 bytes
    make_file(&src_dir, "file2", "bbbbbb"); // 6 bytes

    let m = mapping(XdgDir::Downloads, src_dir, home.path().join("Downloads"));
    let plan = plan_for(&[m]).unwrap();

    assert_eq!(plan.total_bytes, 10);
}

fn documents() -> DetectedMapping {
    DetectedMapping {
        xdg_dir: XdgDir::Documents,
        source_path: String::from("/backup/Documents"),
        dest_path: String::from("/home/joe/Documents"),
    }
}

fn entry(path: &str, is_dir: bool, size: u64) -> TreeEntry {
    TreeEntry { path: path.to_string(), is_dir, size }
}

#[test]
fn the_root_of_a_tree_asks_for_the_directory_at_home() {
    match plan_entry(&documents(), &entry("/backup/Documents", true, 0)) {
        Some(PlanItem::Dir(dir)) => assert_eq!(dir.dest, "/home/joe/Documents"),
        other => panic!("got {other:?}"),
    }
    // Even a root that is no directory asks for the directory.
    match plan_entry(&documents(), &entry("/backup/Documents", false, 9)) {
        Some(PlanItem::Dir(dir)) => assert_eq!(dir.dest, "/home/joe/Documents"),
        other => panic!("got {other:?}"),
    }
}

#[test]
fn an_entry_goes_below_the_directory_by_its_path_below_the_root() {
    match plan_entry(&documents(), &entry("/backup/Documents/a/b", true, 0)) {
        Some(PlanItem::Dir(dir)) => assert_eq!(dir.dest, "/home/joe/Documents/a/b"),
        other => panic!("got {other:?}"),
    }
    match plan_entry(&documents(), &entry("/backup/Documents/a/b/c.txt", false, 12)) {
        Some(PlanItem::File(file)) => {
            assert_eq!(file.source, "/backup/Documents/a/b/c.txt");
            assert_eq!(file.dest, "/home/joe/Documents/a/b/c.txt");
            assert_eq!(file.size, 12);
            assert_eq!(file.xdg_dir, XdgDir::Documents);
        }
        other => panic!("got {other:?}"),
    }
}

#[test]
fn an_entry_outside_the_tree_has_no_place() {
    assert!(plan_entry(&documents(), &entry("/backup/Music/a.mp3", false, 1)).is_none());
    assert!(plan_entry(&documents(), &entry("/backup/Documents2/a.txt", false, 1)).is_none());
    assert!(plan_entry(&documents(), &entry("/backup", true, 0)).is_none());
}

#[test]
fn place_entry_takes_the_path_below_the_root_as_given() {
    match place_entry(&documents(), &entry("/elsewhere/x.txt", false, 3), "sub/x.txt") {
        PlanItem::File(file) => {
            assert_eq!(file.source, "/elsewhere/x.txt");
            assert_eq!(file.dest, "/home/joe/Documents/sub/x.txt");
        }
        other => panic!("got {other:?}"),
    }
    match place_entry(&documents(), &entry("/elsewhere/x.txt", false, 3), "") {
        PlanItem::Dir(dir) => assert_eq!(dir.dest, "/home/joe/Documents"),
        other => panic!("got {other:?}"),
    }
}

#[test]
fn a_plan_keeps_the_order_of_trees_and_entries() {
    let music = DetectedMapping {
        xdg_dir: XdgDir::Music,
        source_path: String::from("/backup/Music"),
        dest_path: String::from("/home/joe/Music"),
    };
    let trees = vec![
        WalkedTree {
            mapping: music,
            entries: vec![
                entry("/backup/Music", true, 0),
                entry("/backup/Music/b.mp3", false, 300),
                entry("/backup/Music/live", true, 0),
                entry("/backup/Music/live/c.mp3", false, 50),
            ],
        },
        WalkedTree {
            mapping: documents(),
            entries: vec![
                entry("/backup/Documents", true, 0),
                entry("/backup/Documents/a.txt", false, 7),
            ],
        },
    ];

    let plan = build_plan(&trees).unwrap();

    let dirs: Vec<&str> = plan.dirs.iter().map(|d| d.dest.as_str()).collect();
    assert_eq!(dirs, vec!["/home/joe/Music", "/home/joe/Music/live", "/home/joe/Documents"]);
    let files: Vec<&str> = plan.files.iter().map(|f| f.dest.as_str()).collect();
    assert_eq!(
        files,
        vec!["/home/joe/Music/b.mp3", "/home/joe/Music/live/c.mp3", "/home/joe/Documents/a.txt"]
    );
    assert_eq!(plan.total_bytes, 357);
    assert_eq!(plan.dirs.len() + plan.files.len(), 6);
}

#[test]
fn no_trees_give_an_empty_plan() {
    let plan = build_plan(&vec![]).unwrap();
    assert!(plan.dirs.is_empty());
    assert!(plan.files.is_empty());
    assert_eq!(plan.total_bytes, 0);
}

#[test]
fn an_entry_outside_its_tree_ends_the_plan() {
    let trees = vec![WalkedTree {
        mapping: documents(),
        entries: vec![entry("/backup/Documents", true, 0), entry("/backup/Music/a.mp3", false, 1)],
    }];
    assert_eq!(build_plan(&trees).unwrap_err(), PlanError::OutsideTree);
}

#[test]
fn more_bytes_than_can_be_counted_end_the_plan() {
    let trees = vec![WalkedTree {
        mapping: documents(),
        entries: vec![
            entry("/backup/Documents/a", false, u64::MAX - 1),
            entry("/backup/Documents/b", false, 1),
            entry("/backup/Documents/c", false, 1),
        ],
    }];
    assert_eq!(build_plan(&trees).unwrap_err(), PlanError::TooLarge);

    let fits = vec![WalkedTree {
        mapping: documents(),
        entries: vec![
            entry("/backup/Documents/a", false, u64::MAX - 1),
            entry("/backup/Documents/b", false, 1),
            entry("/backup/Documents/d", true, 5),
        ],
    }];
    assert_eq!(build_plan(&fits).unwrap().total_bytes, u64::MAX);
}

#[test]
fn the_first_fault_is_the_one_reported() {
    let trees = vec![WalkedTree {
        mapping: documents(),
        entries: vec![
            entry("/backup/Documents/a", false, u64::MAX),
            entry("/backup/Documents/b", false, 1),
            entry("/backup/Music/c", false, 1),
        ],
    }];
    assert_eq!(build_plan(&trees).unwrap_err(), PlanError::TooLarge);
}
