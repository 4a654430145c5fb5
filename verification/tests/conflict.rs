use std::collections::HashMap;

use backup_restore::conflict::{
    resolution_action, resolution_for, strategy_for, FileAction, Resolution, Strategy,
    STRATEGY_CHOICES,
};
use backup_restore::types::{Conflict, XdgDir};

/// Files in memory, by path.
struct Disk {
    files: HashMap<String, String>,
}

impl Disk {
    /// Carries out an action as a disk would.
    fn perform(&mut self, action: FileAction) -> Result<(), String> {
        match action {
            FileAction::Rename { from, to } => match self.files.remove(&from) {
                Some(content) => {
                    self.files.insert(to, content);
                    Ok(())
                }
                None => Err(String::from("No such file or directory")),
            },
            FileAction::Remove { path } => match self.files.remove(&path) {
                Some(_) => Ok(()),
                None => Err(String::from("No such file or directory")),
            },
            FileAction::Check { path } => {
                if self.files.contains_key(&path) {
                    Ok(())
                } else {
                    Err(String::from("No such file or directory"))
                }
            }
        }
    }
}

fn apply_resolution(disk: &mut Disk, conflict: &Conflict, resolution: Resolution) -> Result<(), String> {
    disk.perform(resolution_action(conflict, resolution))
}

fn make_conflict(dir: &str) -> (Disk, Conflict) {
    let mut files = HashMap::new();
    files.insert(format!("{dir}/photo.jpg"), String::from("original"));
    files.insert(format!("{dir}/photo.restore.jpg"), String::from("restored"));
    let conflict = Conflict {
        restore_path: format!("{dir}/photo.restore.jpg"),
        original_path: format!("{dir}/photo.jpg"),
        size: 8,
        xdg_dir: XdgDir::Pictures,
    };
    (Disk { files }, conflict)
}

#[test]
fn overwrite_replaces_original_with_restore() {
    let (mut disk, conflict) = make_conflict("/home/joe/Pictures");

    apply_resolution(&mut disk, &conflict, Resolution::Overwrite).unwrap();

    assert_eq!(disk.files["/home/joe/Pictures/photo.jpg"], "restored");
    assert!(!disk.files.contains_key("/home/joe/Pictures/photo.restore.jpg"));
}

#[test]
fn keep_original_deletes_restore_file() {
    let (mut disk, conflict) = make_conflict("/home/joe/Pictures");

    apply_resolution(&mut disk, &conflict, Resolution::KeepOriginal).unwrap();

    assert_eq!(disk.files["/home/joe/Pictures/photo.jpg"], "original");
    assert!(!disk.files.contains_key("/home/joe/Pictures/photo.restore.jpg"));
}

#[test]
fn leave_as_is_keeps_both_files() {
    let (mut disk, conflict) = make_conflict("/home/joe/Pictures");

    apply_resolution(&mut disk, &conflict, Resolution::LeaveAsIs).unwrap();

    assert!(disk.files.contains_key("/home/joe/Pictures/photo.jpg"));
    assert!(disk.files.contains_key("/home/joe/Pictures/photo.restore.jpg"));
    assert_eq!(disk.files["/home/joe/Pictures/photo.jpg"], "original");
    assert_eq!(disk.files["/home/joe/Pictures/photo.restore.jpg"], "restored");
}

#[test]
fn each_decision_is_one_action_on_the_files_of_its_conflict() {
    let (_, conflict) = make_conflict("/h");
    match resolution_action(&conflict, Resolution::Overwrite) {
        FileAction::Rename { from, to } => {
            assert_eq!(from, "/h/photo.restore.jpg");
            assert_eq!(to, "/h/photo.jpg");
        }
        other => panic!("got {other:?}"),
    }
    match resolution_action(&conflict, Resolution::KeepOriginal) {
        FileAction::Remove { path } => assert_eq!(path, "/h/photo.restore.jpg"),
        other => panic!("got {other:?}"),
    }
    match resolution_action(&conflict, Resolution::LeaveAsIs) {
        FileAction::Check { path } => assert_eq!(path, "/h/photo.restore.jpg"),
        other => panic!("got {other:?}"),
    }
}

#[test]
fn deciding_a_conflict_again_is_reported() {
    for first in [Resolution::Overwrite, Resolution::KeepOriginal] {
        for second in [Resolution::Overwrite, Resolution::KeepOriginal, Resolution::LeaveAsIs] {
            let (mut disk, conflict) = make_conflict("/h");
            apply_resolution(&mut disk, &conflict, first).unwrap();
            let before = disk.files.clone();
            assert!(apply_resolution(&mut disk, &conflict, second).is_err());
            assert_eq!(disk.files, before);
        }
    }
}

#[test]
fn a_failure_holds_up_no_other_conflict() {
    let (mut disk, first) = make_conflict("/a");
    let (other, second) = make_conflict("/b");
    disk.files.extend(other.files);
    disk.files.remove("/a/photo.restore.jpg");

    let results: Vec<Result<(), String>> = [&first, &second]
        .iter()
        .map(|conflict| apply_resolution(&mut disk, conflict, Resolution::Overwrite))
        .collect();

    assert!(results[0].is_err());
    assert!(results[1].is_ok());
    assert_eq!(disk.files["/a/photo.jpg"], "original");
    assert_eq!(disk.files["/b/photo.jpg"], "restored");
}

#[test]
fn the_menu_of_strategies() {
    assert_eq!(STRATEGY_CHOICES, 5);
    assert_eq!(strategy_for(0), Strategy::All(Resolution::Overwrite));
    assert_eq!(strategy_for(1), Strategy::All(Resolution::KeepOriginal));
    assert_eq!(strategy_for(2), Strategy::PerFolder);
    assert_eq!(strategy_for(3), Strategy::Individually);
    assert_eq!(strategy_for(4), Strategy::All(Resolution::LeaveAsIs));
}

#[test]
fn the_menu_of_decisions() {
    assert_eq!(resolution_for(0), Resolution::Overwrite);
    assert_eq!(resolution_for(1), Resolution::KeepOriginal);
    assert_eq!(resolution_for(2), Resolution::LeaveAsIs);
    assert_eq!(resolution_for(3), Resolution::LeaveAsIs);
    assert_eq!(resolution_for(usize::MAX), Resolution::LeaveAsIs);
}
