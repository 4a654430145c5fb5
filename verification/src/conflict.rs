//! What to do with a conflict once its user has decided, and how the
//! choices of a menu map to such decisions. Nothing here touches a file:
//! each decision comes out as the one action to perform. An action that
//! fails is reported for its conflict and holds up no other.

use vstd::prelude::*;
use crate::types::{Conflict, ConflictView};

verus! {

/// What to do with a conflict.
#[derive(Debug, Clone, Copy, PartialEq, Eq, Structural)]
pub enum Resolution {
    /// Replace the original with the restored version.
    Overwrite,
    /// Delete the restored version, keeping the original.
    KeepOriginal,
    /// Leave both files in place.
    LeaveAsIs,
}

/// The one thing to do on disk for a decision.
#[derive(Debug, Clone)]
pub enum FileAction {
    /// Rename `from` to `to`, replacing what is at `to`.
    Rename { from: String, to: String },
    /// Delete the file at `path`.
    Remove { path: String },
    /// Change nothing, and fail where there is no file at `path`.
    Check { path: String },
}

/// The view of an action.
pub enum FileActionView {
    Rename { from: Seq<char>, to: Seq<char> },
    Remove { path: Seq<char> },
    Check { path: Seq<char> },
}

impl View for FileAction {
    type V = FileActionView;

    open spec fn view(&self) -> FileActionView {
        match self {
            FileAction::Rename { from, to } => FileActionView::Rename { from: from@, to: to@ },
            FileAction::Remove { path } => FileActionView::Remove { path: path@ },
            FileAction::Check { path } => FileActionView::Check { path: path@ },
        }
    }
}

/// The action that carries out a decision: to overwrite is to rename the
/// restore path to the original path, which replaces the original in one
/// step; to keep the original is to delete the file at the restore path; to
/// leave both is to change nothing. Each of the three fails where the file
/// at the restore path is gone, so a conflict that was decided before is
/// not decided again in silence.
pub open spec fn action_for(conflict: ConflictView, resolution: Resolution) -> FileActionView {
    match resolution {
        Resolution::Overwrite => FileActionView::Rename {
            from: conflict.restore_path,
            to: conflict.original_path,
        },
        Resolution::KeepOriginal => FileActionView::Remove { path: conflict.restore_path },
        Resolution::LeaveAsIs => FileActionView::Check { path: conflict.restore_path },
    }
}

/// The action that carries out a decision on one conflict. Each conflict is
/// decided by itself: the action names no other file than the two of this
/// conflict.
pub fn resolution_action(conflict: &Conflict, resolution: Resolution) -> (action: FileAction)
    ensures
        action@ == action_for(conflict@, resolution),
{
    match resolution {
        Resolution::Overwrite => FileAction::Rename {
            from: conflict.restore_path.clone(),
            to: conflict.original_path.clone(),
        },
        Resolution::KeepOriginal => FileAction::Remove { path: conflict.restore_path.clone() },
        Resolution::LeaveAsIs => FileAction::Check { path: conflict.restore_path.clone() },
    }
}

/// How the conflicts of a run are decided.
#[derive(Debug, Clone, Copy, PartialEq, Eq, Structural)]
pub enum Strategy {
    /// One decision for all conflicts.
    All(Resolution),
    /// One decision for each directory.
    PerFolder,
    /// One decision for each conflict.
    Individually,
}

/// The number of entries in the menu of strategies.
pub const STRATEGY_CHOICES: usize = 5;

/// The strategy behind an entry of the menu of strategies, whose entries
/// are, in this order: overwrite all, keep all originals, decide per
/// folder, decide individually, leave all as they are.
pub open spec fn strategy_of(choice: int) -> Strategy {
    if choice == 0 {
        Strategy::All(Resolution::Overwrite)
    } else if choice == 1 {
        Strategy::All(Resolution::KeepOriginal)
    } else if choice == 2 {
        Strategy::PerFolder
    } else if choice == 3 {
        Strategy::Individually
    } else {
        Strategy::All(Resolution::LeaveAsIs)
    }
}

/// The strategy behind an entry of the menu of strategies.
pub fn strategy_for(choice: usize) -> (strategy: Strategy)
    requires
        choice < STRATEGY_CHOICES,
    ensures
        strategy == strategy_of(choice as int),
{
    if choice == 0 {
        Strategy::All(Resolution::Overwrite)
    } else if choice == 1 {
        Strategy::All(Resolution::KeepOriginal)
    } else if choice == 2 {
        Strategy::PerFolder
    } else if choice == 3 {
        Strategy::Individually
    } else {
        Strategy::All(Resolution::LeaveAsIs)
    }
}

/// The decision behind an entry of the menu of decisions, whose entries
/// are, in this order: overwrite, keep the original, leave as it is. Every
/// further number counts as the last entry.
pub open spec fn resolution_of(choice: int) -> Resolution {
    if choice == 0 {
        Resolution::Overwrite
    } else if choice == 1 {
        Resolution::KeepOriginal
    } else {
        Resolution::LeaveAsIs
    }
}

/// The decision behind an entry of the menu of decisions.
pub fn resolution_for(choice: usize) -> (resolution: Resolution)
    ensures
        resolution == resolution_of(choice as int),
{
    if choice == 0 {
        Resolution::Overwrite
    } else if choice == 1 {
        Resolution::KeepOriginal
    } else {
        Resolution::LeaveAsIs
    }
}

} // verus!
