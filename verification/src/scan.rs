//! Finding the personal directories in a backup. The backup is walked
//! elsewhere; what is decided here, entry by entry, is whether an entry is
//! one of the directories looked for, and whether the walk goes on below it.

use vstd::prelude::*;
use crate::paths::{join, joined, path_same, same_path};
use crate::types::{views, DetectedMapping, DetectedMappingView, XdgDir};

verus! {

/// One entry of a walk: its path, its file name where that is valid
/// Unicode, and whether it is a directory.
#[derive(Debug, Clone)]
pub struct WalkEntry {
    pub path: String,
    pub file_name: Option<String>,
    pub is_dir: bool,
}

/// The view of an entry.
pub struct WalkEntryView {
    pub path: Seq<char>,
    pub file_name: Option<Seq<char>>,
    pub is_dir: bool,
}

impl View for WalkEntry {
    type V = WalkEntryView;

    open spec fn view(&self) -> WalkEntryView {
        WalkEntryView {
            path: self.path@,
            file_name: match self.file_name {
                Some(name) => Some(name@),
                None => None,
            },
            is_dir: self.is_dir,
        }
    }
}

/// What a walk comes upon: an entry, or something that it could not read.
#[derive(Debug, Clone)]
pub enum WalkEvent {
    Entry(WalkEntry),
    Unreadable(String),
}

/// The view of an event.
pub enum WalkEventView {
    Entry(WalkEntryView),
    Unreadable(Seq<char>),
}

impl View for WalkEvent {
    type V = WalkEventView;

    open spec fn view(&self) -> WalkEventView {
        match self {
            WalkEvent::Entry(entry) => WalkEventView::Entry(entry@),
            WalkEvent::Unreadable(message) => WalkEventView::Unreadable(message@),
        }
    }
}

/// What a scan has found so far: the directories, in the order in which
/// the walk met them, and what could not be read.
#[derive(Debug, Clone)]
pub struct ScanResult {
    pub mappings: Vec<DetectedMapping>,
    pub warnings: Vec<String>,
}

/// The view of a scan.
pub struct ScanResultView {
    pub mappings: Seq<DetectedMappingView>,
    pub warnings: Seq<Seq<char>>,
}

impl View for ScanResult {
    type V = ScanResultView;

    open spec fn view(&self) -> ScanResultView {
        ScanResultView { mappings: views(self.mappings@), warnings: views(self.warnings@) }
    }
}

/// The mapping that an entry stands for, if it stands for one: the entry is
/// a directory, it is not the root of the backup, and its name is that of a
/// personal directory. The mapping leads from the entry to the directory of
/// that name at home.
pub open spec fn matched(
    backup_root: Seq<char>,
    home_dir: Seq<char>,
    entry: WalkEntryView,
) -> Option<DetectedMappingView> {
    if !entry.is_dir || path_same(entry.path, backup_root) {
        None
    } else {
        match entry.file_name {
            None => None,
            Some(name) => match XdgDir::named(name) {
                None => None,
                Some(dir) => Some(
                    DetectedMappingView {
                        xdg_dir: dir,
                        source_path: entry.path,
                        dest_path: joined(home_dir, dir.name()),
                    },
                ),
            },
        }
    }
}

impl ScanResultView {
    /// A scan that has met nothing yet.
    pub open spec fn empty() -> ScanResultView {
        ScanResultView { mappings: Seq::empty(), warnings: Seq::empty() }
    }

    /// The scan after one more event.
    pub open spec fn after(
        self,
        backup_root: Seq<char>,
        home_dir: Seq<char>,
        event: WalkEventView,
    ) -> ScanResultView {
        match event {
            WalkEventView::Unreadable(message) => ScanResultView {
                warnings: self.warnings.push(message),
                ..self
            },
            WalkEventView::Entry(entry) => match matched(backup_root, home_dir, entry) {
                Some(mapping) => ScanResultView { mappings: self.mappings.push(mapping), ..self },
                None => self,
            },
        }
    }
}

/// Whether the walk leaves out what lies below the entry of an event: it
/// does so below every directory that was matched, so that a personal
/// directory inside another one is not found for itself.
pub open spec fn prunes(backup_root: Seq<char>, home_dir: Seq<char>, event: WalkEventView) -> bool {
    event matches WalkEventView::Entry(entry) && matched(backup_root, home_dir, entry) is Some
}

/// The mapping that an entry stands for, if it stands for one.
pub fn match_entry(backup_root: &str, home_dir: &str, entry: &WalkEntry) -> (found: Option<
    DetectedMapping,
>)
    ensures
        match found {
            Some(mapping) => matched(backup_root@, home_dir@, entry@) == Some(mapping@),
            None => matched(backup_root@, home_dir@, entry@) is None,
        },
{
    if !entry.is_dir {
        return None;
    }
    if same_path(entry.path.as_str(), backup_root) {
        return None;
    }
    match &entry.file_name {
        None => None,
        Some(name) => match XdgDir::from_dir_name(name.as_str()) {
            None => None,
            Some(dir) => Some(
                DetectedMapping {
                    xdg_dir: dir,
                    source_path: entry.path.clone(),
                    dest_path: join(home_dir, dir.dir_name()),
                },
            ),
        },
    }
}

impl ScanResult {
    /// A scan that has met nothing yet.
    pub fn new() -> (scan: ScanResult)
        ensures
            scan@ == ScanResultView::empty(),
    {
        let scan = ScanResult { mappings: Vec::new(), warnings: Vec::new() };
        assert(scan@.mappings =~= Seq::empty());
        assert(scan@.warnings =~= Seq::empty());
        scan
    }

    /// Takes in what the walk came upon. What could not be read becomes a
    /// warning and does not end the scan. An entry that stands for a mapping
    /// is recorded. Returns whether the walk is to leave out what lies below
    /// the entry.
    pub fn observe(&mut self, backup_root: &str, home_dir: &str, event: WalkEvent) -> (prune: bool)
        ensures
            final(self)@ == old(self)@.after(backup_root@, home_dir@, event@),
            prune == prunes(backup_root@, home_dir@, event@),
    {
        match event {
            WalkEvent::Unreadable(message) => {
                self.warnings.push(message);
                assert(final(self)@.warnings =~= old(self)@.warnings.push(message@));
                false
            },
            WalkEvent::Entry(entry) => match match_entry(backup_root, home_dir, &entry) {
                Some(mapping) => {
                    self.mappings.push(mapping);
                    assert(final(self)@.mappings =~= old(self)@.mappings.push(mapping@));
                    true
                },
                None => false,
            },
        }
    }
}

} // verus!
