//! The data that a restore works on: the personal directories, the planned
//! operations and the records of what became of them. Paths are held as text.

use vstd::prelude::*;
use crate::text::text_eq;

verus! {

/// One of the eight personal directories that a restore looks for.
#[derive(Debug, Clone, Copy, PartialEq, Eq, PartialOrd, Ord, Hash, Structural)]
pub enum XdgDir {
    Desktop,
    Documents,
    Downloads,
    Music,
    Pictures,
    Public,
    Templates,
    Videos,
}

impl XdgDir {
    /// Every directory, in the order of their names.
    pub const ALL: [XdgDir; 8] = [
        XdgDir::Desktop,
        XdgDir::Documents,
        XdgDir::Downloads,
        XdgDir::Music,
        XdgDir::Pictures,
        XdgDir::Public,
        XdgDir::Templates,
        XdgDir::Videos,
    ];

    /// The directory's name on disk, as a sequence of characters.
    pub open spec fn name(self) -> Seq<char> {
        match self {
            XdgDir::Desktop => "Desktop"@,
            XdgDir::Documents => "Documents"@,
            XdgDir::Downloads => "Downloads"@,
            XdgDir::Music => "Music"@,
            XdgDir::Pictures => "Pictures"@,
            XdgDir::Public => "Public"@,
            XdgDir::Templates => "Templates"@,
            XdgDir::Videos => "Videos"@,
        }
    }

    /// Returns the directory name as it appears on disk.
    pub fn dir_name(&self) -> (name: &'static str)
        ensures
            name@ == self.name(),
    {
        match self {
            XdgDir::Desktop => "Desktop",
            XdgDir::Documents => "Documents",
            XdgDir::Downloads => "Downloads",
            XdgDir::Music => "Music",
            XdgDir::Pictures => "Pictures",
            XdgDir::Public => "Public",
            XdgDir::Templates => "Templates",
            XdgDir::Videos => "Videos",
        }
    }

    /// The directory that carries the given name, if there is one.
    pub open spec fn named(name: Seq<char>) -> Option<XdgDir> {
        if name == XdgDir::Desktop.name() {
            Some(XdgDir::Desktop)
        } else if name == XdgDir::Documents.name() {
            Some(XdgDir::Documents)
        } else if name == XdgDir::Downloads.name() {
            Some(XdgDir::Downloads)
        } else if name == XdgDir::Music.name() {
            Some(XdgDir::Music)
        } else if name == XdgDir::Pictures.name() {
            Some(XdgDir::Pictures)
        } else if name == XdgDir::Public.name() {
            Some(XdgDir::Public)
        } else if name == XdgDir::Templates.name() {
            Some(XdgDir::Templates)
        } else if name == XdgDir::Videos.name() {
            Some(XdgDir::Videos)
        } else {
            None
        }
    }

    /// The directory that carries the given name, if there is one. Names are
    /// compared exactly: case matters, and nothing is trimmed.
    pub fn from_dir_name(name: &str) -> (found: Option<XdgDir>)
        ensures
            found == XdgDir::named(name@),
    {
        let mut i: usize = 0;
        while i < 8
            invariant
                i <= 8,
                forall|k: int| 0 <= k < i ==> XdgDir::ALL[k].name() != name@,
            decreases 8 - i,
        {
            let d = XdgDir::ALL[i];
            if text_eq(d.dir_name(), name) {
                return Some(d);
            }
            i = i + 1;
        }
        None
    }
}

/// No two directories share a name.
pub proof fn lemma_names_differ(a: XdgDir, b: XdgDir)
    ensures
        a.name() == b.name() ==> a == b,
{
    reveal_strlit("Desktop");
    reveal_strlit("Documents");
    reveal_strlit("Downloads");
    reveal_strlit("Music");
    reveal_strlit("Pictures");
    reveal_strlit("Public");
    reveal_strlit("Templates");
    reveal_strlit("Videos");
    assert("Documents"@[2] != "Downloads"@[2]);
    assert("Documents"@[0] != "Templates"@[0]);
    assert("Public"@[0] != "Videos"@[0]);
    assert("Desktop"@.len() == 7);
    assert("Pictures"@.len() == 8);
}

/// Looking a directory up by its own name finds that directory, and a
/// directory that was found carries the name it was looked up by.
pub proof fn lemma_name_round_trip(d: XdgDir, name: Seq<char>)
    ensures
        XdgDir::named(d.name()) == Some(d),
        XdgDir::named(name) == Some(d) <==> name == d.name(),
{
    lemma_names_differ(d, XdgDir::Desktop);
    lemma_names_differ(d, XdgDir::Documents);
    lemma_names_differ(d, XdgDir::Downloads);
    lemma_names_differ(d, XdgDir::Music);
    lemma_names_differ(d, XdgDir::Pictures);
    lemma_names_differ(d, XdgDir::Public);
    lemma_names_differ(d, XdgDir::Templates);
    lemma_names_differ(d, XdgDir::Videos);
}

/// A failure reported by the file system: whether it said that the destination
/// was already there, and its message.
#[derive(Debug, Clone)]
pub struct IoFailure {
    pub already_exists: bool,
    pub message: String,
}

/// What a failure holds, with its paths and texts as sequences of characters.
pub struct IoFailureView {
    pub already_exists: bool,
    pub message: Seq<char>,
}

impl View for IoFailure {
    type V = IoFailureView;

    open spec fn view(&self) -> IoFailureView {
        IoFailureView { already_exists: self.already_exists, message: self.message@ }
    }
}

/// A directory found in the backup, and the directory at home that it
/// belongs to.
#[derive(Debug, Clone)]
pub struct DetectedMapping {
    pub xdg_dir: XdgDir,
    pub source_path: String,
    pub dest_path: String,
}

/// What a mapping holds, with its paths and texts as sequences of characters.
pub struct DetectedMappingView {
    pub xdg_dir: XdgDir,
    pub source_path: Seq<char>,
    pub dest_path: Seq<char>,
}

impl View for DetectedMapping {
    type V = DetectedMappingView;

    open spec fn view(&self) -> DetectedMappingView {
        DetectedMappingView {
            xdg_dir: self.xdg_dir,
            source_path: self.source_path@,
            dest_path: self.dest_path@,
        }
    }
}

/// A single file copy operation.
#[derive(Debug, Clone)]
pub struct CopyOp {
    pub source: String,
    pub dest: String,
    pub size: u64,
    pub xdg_dir: XdgDir,
}

/// What a planned copy holds, with its paths and texts as sequences of characters.
pub struct CopyOpView {
    pub source: Seq<char>,
    pub dest: Seq<char>,
    pub size: u64,
    pub xdg_dir: XdgDir,
}

impl View for CopyOp {
    type V = CopyOpView;

    open spec fn view(&self) -> CopyOpView {
        CopyOpView {
            source: self.source@,
            dest: self.dest@,
            size: self.size,
            xdg_dir: self.xdg_dir,
        }
    }
}

/// A directory that has to exist before files are copied.
#[derive(Debug, Clone)]
pub struct DirOp {
    pub dest: String,
}

impl View for DirOp {
    type V = Seq<char>;

    open spec fn view(&self) -> Seq<char> {
        self.dest@
    }
}

/// The full copy plan.
#[derive(Debug, Clone)]
pub struct CopyPlan {
    pub dirs: Vec<DirOp>,
    pub files: Vec<CopyOp>,
    pub total_bytes: u64,
}

/// What a plan holds, with its paths and texts as sequences of characters.
pub struct CopyPlanView {
    pub dirs: Seq<Seq<char>>,
    pub files: Seq<CopyOpView>,
    pub total_bytes: nat,
}

impl View for CopyPlan {
    type V = CopyPlanView;

    open spec fn view(&self) -> CopyPlanView {
        CopyPlanView {
            dirs: views(self.dirs@),
            files: views(self.files@),
            total_bytes: self.total_bytes as nat,
        }
    }
}

/// A successfully copied file.
#[derive(Debug, Clone)]
pub struct CopiedFile {
    pub source: String,
    pub dest: String,
    pub size: u64,
    pub xdg_dir: XdgDir,
}

/// What a copied file holds, with its paths and texts as sequences of characters.
pub struct CopiedFileView {
    pub source: Seq<char>,
    pub dest: Seq<char>,
    pub size: u64,
    pub xdg_dir: XdgDir,
}

impl View for CopiedFile {
    type V = CopiedFileView;

    open spec fn view(&self) -> CopiedFileView {
        CopiedFileView {
            source: self.source@,
            dest: self.dest@,
            size: self.size,
            xdg_dir: self.xdg_dir,
        }
    }
}

/// A conflict: the destination was taken, so the content went to a restore
/// path beside it, and the destination was left alone.
#[derive(Debug, Clone)]
pub struct Conflict {
    pub restore_path: String,
    pub original_path: String,
    pub size: u64,
    pub xdg_dir: XdgDir,
}

/// What a conflict holds, with its paths and texts as sequences of characters.
pub struct ConflictView {
    pub restore_path: Seq<char>,
    pub original_path: Seq<char>,
    pub size: u64,
    pub xdg_dir: XdgDir,
}

impl View for Conflict {
    type V = ConflictView;

    open spec fn view(&self) -> ConflictView {
        ConflictView {
            restore_path: self.restore_path@,
            original_path: self.original_path@,
            size: self.size,
            xdg_dir: self.xdg_dir,
        }
    }
}

/// An error during the copy of a single file.
#[derive(Debug, Clone)]
pub struct CopyError {
    pub source: String,
    pub dest: String,
    pub error: IoFailure,
    pub xdg_dir: XdgDir,
}

/// What an error holds, with its paths and texts as sequences of characters.
pub struct CopyErrorView {
    pub source: Seq<char>,
    pub dest: Seq<char>,
    pub error: IoFailureView,
    pub xdg_dir: XdgDir,
}

impl View for CopyError {
    type V = CopyErrorView;

    open spec fn view(&self) -> CopyErrorView {
        CopyErrorView {
            source: self.source@,
            dest: self.dest@,
            error: self.error@,
            xdg_dir: self.xdg_dir,
        }
    }
}

/// Results of the copy operation.
#[derive(Debug, Clone)]
pub struct CopyResult {
    pub copied: Vec<CopiedFile>,
    pub conflicts: Vec<Conflict>,
    pub errors: Vec<CopyError>,
    pub bytes_copied: u64,
}

/// What a result holds, with its paths and texts as sequences of characters.
pub struct CopyResultView {
    pub copied: Seq<CopiedFileView>,
    pub conflicts: Seq<ConflictView>,
    pub errors: Seq<CopyErrorView>,
    pub bytes_copied: nat,
}

impl View for CopyResult {
    type V = CopyResultView;

    open spec fn view(&self) -> CopyResultView {
        CopyResultView {
            copied: views(self.copied@),
            conflicts: views(self.conflicts@),
            errors: views(self.errors@),
            bytes_copied: self.bytes_copied as nat,
        }
    }
}

/// The views of the items of a sequence, in the same order.
pub open spec fn views<T: View>(items: Seq<T>) -> Seq<T::V> {
    items.map_values(|item: T| item@)
}

} // verus!
