//! From the directories found in a backup to the plan of a restore. The
//! trees are walked elsewhere; what is decided here is where each entry of
//! a walked tree goes.

use vstd::prelude::*;
use crate::paths::{join, joined, path_strip_prefix, strip_prefix};
use crate::types::{
    views, CopyOp, CopyOpView, CopyPlan, CopyPlanView, DetectedMapping, DetectedMappingView,
    DirOp,
};

verus! {

/// One entry of a walked tree: its path, whether it is a directory, and its
/// size in bytes. The size counts for files only.
#[derive(Debug, Clone)]
pub struct TreeEntry {
    pub path: String,
    pub is_dir: bool,
    pub size: u64,
}

/// The view of an entry.
pub struct TreeEntryView {
    pub path: Seq<char>,
    pub is_dir: bool,
    pub size: u64,
}

impl View for TreeEntry {
    type V = TreeEntryView;

    open spec fn view(&self) -> TreeEntryView {
        TreeEntryView { path: self.path@, is_dir: self.is_dir, size: self.size }
    }
}

/// A directory found in a backup, with the entries that a walk of it gave,
/// the directory itself among them.
#[derive(Debug, Clone)]
pub struct WalkedTree {
    pub mapping: DetectedMapping,
    pub entries: Vec<TreeEntry>,
}

/// The view of a walked tree.
pub struct WalkedTreeView {
    pub mapping: DetectedMappingView,
    pub entries: Seq<TreeEntryView>,
}

impl View for WalkedTree {
    type V = WalkedTreeView;

    open spec fn view(&self) -> WalkedTreeView {
        WalkedTreeView { mapping: self.mapping@, entries: views(self.entries@) }
    }
}

/// What an entry adds to a plan.
#[derive(Debug, Clone)]
pub enum PlanItem {
    Dir(DirOp),
    File(CopyOp),
}

/// The view of what an entry adds to a plan.
pub enum PlanItemView {
    Dir(Seq<char>),
    File(CopyOpView),
}

impl View for PlanItem {
    type V = PlanItemView;

    open spec fn view(&self) -> PlanItemView {
        match self {
            PlanItem::Dir(dir) => PlanItemView::Dir(dir@),
            PlanItem::File(file) => PlanItemView::File(file@),
        }
    }
}

/// Why no plan could be made.
#[derive(Debug, Clone, Copy, PartialEq, Eq, Structural)]
pub enum PlanError {
    /// An entry does not lie in the tree it was listed under.
    OutsideTree,
    /// The files together have more bytes than a plan can count.
    TooLarge,
}

/// What an entry adds to a plan, given its path below the root of its tree.
/// The root itself, whose path below the root is empty, asks for the
/// directory that the tree goes to. Every other entry goes below that
/// directory, by the same path as below the root: a directory as a
/// directory to create, anything else as a file to copy.
pub open spec fn placed(
    mapping: DetectedMappingView,
    entry: TreeEntryView,
    relative: Seq<char>,
) -> PlanItemView {
    if relative.len() == 0 {
        PlanItemView::Dir(mapping.dest_path)
    } else if entry.is_dir {
        PlanItemView::Dir(joined(mapping.dest_path, relative))
    } else {
        PlanItemView::File(
            CopyOpView {
                source: entry.path,
                dest: joined(mapping.dest_path, relative),
                size: entry.size,
                xdg_dir: mapping.xdg_dir,
            },
        )
    }
}

/// What an entry adds to a plan; nothing where the entry does not lie in
/// the tree.
pub open spec fn planned(mapping: DetectedMappingView, entry: TreeEntryView) -> Option<
    PlanItemView,
> {
    match path_strip_prefix(entry.path, mapping.source_path) {
        Some(relative) => Some(placed(mapping, entry, relative)),
        None => None,
    }
}

impl CopyPlanView {
    /// A plan without operations.
    pub open spec fn empty() -> CopyPlanView {
        CopyPlanView { dirs: Seq::empty(), files: Seq::empty(), total_bytes: 0 }
    }

    /// The plan with one more operation, and with its bytes if it is a copy.
    pub open spec fn with(self, item: PlanItemView) -> CopyPlanView {
        match item {
            PlanItemView::Dir(dest) => CopyPlanView { dirs: self.dirs.push(dest), ..self },
            PlanItemView::File(file) => CopyPlanView {
                files: self.files.push(file),
                total_bytes: self.total_bytes + file.size as nat,
                ..self
            },
        }
    }

    /// The bytes of the plan's copies.
    pub open spec fn file_bytes(self) -> nat {
        planned_bytes(self.files)
    }
}

/// The bytes of a sequence of copies.
pub open spec fn planned_bytes(files: Seq<CopyOpView>) -> nat
    decreases files.len(),
{
    if files.len() == 0 {
        0
    } else {
        planned_bytes(files.drop_last()) + files.last().size as nat
    }
}

/// The plan after the entries of one tree, entry by entry; the first entry
/// that has no place, or that makes the plan too large, ends it.
pub open spec fn plan_after_entries(
    plan: Result<CopyPlanView, PlanError>,
    mapping: DetectedMappingView,
    entries: Seq<TreeEntryView>,
) -> Result<CopyPlanView, PlanError>
    decreases entries.len(),
{
    if entries.len() == 0 {
        plan
    } else {
        match plan_after_entries(plan, mapping, entries.drop_last()) {
            Err(error) => Err(error),
            Ok(before) => match planned(mapping, entries.last()) {
                None => Err(PlanError::OutsideTree),
                Some(item) => if before.with(item).total_bytes > u64::MAX {
                    Err(PlanError::TooLarge)
                } else {
                    Ok(before.with(item))
                },
            },
        }
    }
}

/// The plan after the given trees, tree by tree.
pub open spec fn plan_after_trees(trees: Seq<WalkedTreeView>) -> Result<CopyPlanView, PlanError>
    decreases trees.len(),
{
    if trees.len() == 0 {
        Ok(CopyPlanView::empty())
    } else {
        plan_after_entries(
            plan_after_trees(trees.drop_last()),
            trees.last().mapping,
            trees.last().entries,
        )
    }
}

/// What an entry adds to a plan, given its path below the root of its tree.
pub fn place_entry(mapping: &DetectedMapping, entry: &TreeEntry, relative: &str) -> (item:
    PlanItem)
    ensures
        item@ == placed(mapping@, entry@, relative@),
{
    if relative.is_empty() {
        PlanItem::Dir(DirOp { dest: mapping.dest_path.clone() })
    } else {
        let dest = join(mapping.dest_path.as_str(), relative);
        if entry.is_dir {
            PlanItem::Dir(DirOp { dest })
        } else {
            PlanItem::File(
                CopyOp {
                    source: entry.path.clone(),
                    dest,
                    size: entry.size,
                    xdg_dir: mapping.xdg_dir,
                },
            )
        }
    }
}

/// What an entry adds to a plan; nothing where the entry does not lie in
/// the tree of the mapping.
pub fn plan_entry(mapping: &DetectedMapping, entry: &TreeEntry) -> (item: Option<PlanItem>)
    ensures
        match item {
            Some(item) => planned(mapping@, entry@) == Some(item@),
            None => planned(mapping@, entry@) is None,
        },
{
    match strip_prefix(entry.path.as_str(), mapping.source_path.as_str()) {
        Some(relative) => Some(place_entry(mapping, entry, relative.as_str())),
        None => None,
    }
}

impl CopyPlan {
    /// A plan without operations.
    pub fn new() -> (plan: CopyPlan)
        ensures
            plan@ == CopyPlanView::empty(),
    {
        let plan = CopyPlan { dirs: Vec::new(), files: Vec::new(), total_bytes: 0 };
        assert(plan@.dirs =~= Seq::empty());
        assert(plan@.files =~= Seq::empty());
        plan
    }

    /// Adds one operation to the plan, behind those of its kind.
    pub fn add(&mut self, item: PlanItem)
        requires
            old(self)@.with(item@).total_bytes <= u64::MAX,
        ensures
            final(self)@ == old(self)@.with(item@),
    {
        match item {
            PlanItem::Dir(dir) => {
                self.dirs.push(dir);
                assert(final(self)@.dirs =~= old(self)@.dirs.push(dir@));
            },
            PlanItem::File(file) => {
                self.total_bytes = self.total_bytes + file.size;
                self.files.push(file);
                assert(final(self)@.files =~= old(self)@.files.push(file@));
            },
        }
    }
}

/// The bytes that an item adds to a plan.
fn item_bytes(item: &PlanItem) -> (bytes: u64)
    ensures
        bytes == match item@ {
            PlanItemView::Dir(_) => 0,
            PlanItemView::File(file) => file.size,
        },
{
    match item {
        PlanItem::Dir(_) => 0,
        PlanItem::File(file) => file.size,
    }
}

/// Build a copy plan from walked trees: one directory to create for each
/// directory met, the root of each tree among them, one copy for each file,
/// and the bytes of all files. The operations stand in the order of the
/// trees and, within a tree, of its entries.
pub fn build_plan(trees: &Vec<WalkedTree>) -> (plan: Result<CopyPlan, PlanError>)
    ensures
        match plan {
            Ok(plan) => plan_after_trees(views(trees@)) == Ok::<CopyPlanView, PlanError>(plan@),
            Err(error) => plan_after_trees(views(trees@)) == Err::<CopyPlanView, PlanError>(
                error,
            ),
        },
{
    let ghost all = views(trees@);
    let mut plan = CopyPlan::new();
    let mut t: usize = 0;
    while t < trees.len()
        invariant
            t <= trees.len(),
            all == views(trees@),
            plan_after_trees(all.take(t as int)) == Ok::<CopyPlanView, PlanError>(plan@),
        decreases trees.len() - t,
    {
        let tree = &trees[t];
        let ghost before = plan_after_trees(all.take(t as int));
        let ghost listed = views(tree.entries@);
        let mut e: usize = 0;
        assert(all.take(t + 1).drop_last() =~= all.take(t as int));
        while e < tree.entries.len()
            invariant
                e <= tree.entries.len(),
                t < trees.len(),
                all == views(trees@),
                listed == views(tree.entries@),
                plan_after_trees(all.take(t + 1)) == plan_after_entries(
                    before,
                    tree@.mapping,
                    listed,
                ),
                plan_after_entries(before, tree@.mapping, listed.take(e as int)) == Ok::<
                    CopyPlanView,
                    PlanError,
                >(plan@),
            decreases tree.entries.len() - e,
        {
            assert(listed.take(e + 1).drop_last() =~= listed.take(e as int));
            let ghost rest = listed.skip(e + 1);
            match plan_entry(&tree.mapping, &tree.entries[e]) {
                None => {
                    proof {
                        lemma_error_stays(before, tree@.mapping, listed, e + 1);
                        lemma_tree_error_stays(all, t + 1);
                    }
                    return Err(PlanError::OutsideTree);
                },
                Some(item) => {
                    if item_bytes(&item) > u64::MAX - plan.total_bytes {
                        proof {
                            lemma_error_stays(before, tree@.mapping, listed, e + 1);
                            lemma_tree_error_stays(all, t + 1);
                        }
                        return Err(PlanError::TooLarge);
                    }
                    plan.add(item);
                },
            }
            e = e + 1;
        }
        assert(listed.take(e as int) =~= listed);
        t = t + 1;
    }
    assert(all.take(t as int) =~= all);
    Ok(plan)
}

/// Once an entry has ended the plan, the entries behind it change nothing.
proof fn lemma_error_stays(
    plan: Result<CopyPlanView, PlanError>,
    mapping: DetectedMappingView,
    entries: Seq<TreeEntryView>,
    count: int,
)
    requires
        0 <= count <= entries.len(),
        plan_after_entries(plan, mapping, entries.take(count)) is Err,
    ensures
        plan_after_entries(plan, mapping, entries) == plan_after_entries(
            plan,
            mapping,
            entries.take(count),
        ),
    decreases entries.len(),
{
    if count == entries.len() {
        assert(entries.take(count) =~= entries);
    } else {
        assert(entries.drop_last().take(count) =~= entries.take(count));
        lemma_error_stays(plan, mapping, entries.drop_last(), count);
    }
}

/// Once a tree has ended the plan, the trees behind it change nothing.
proof fn lemma_tree_error_stays(trees: Seq<WalkedTreeView>, count: int)
    requires
        0 <= count <= trees.len(),
        plan_after_trees(trees.take(count)) is Err,
    ensures
        plan_after_trees(trees) == plan_after_trees(trees.take(count)),
    decreases trees.len(),
{
    if count == trees.len() {
        assert(trees.take(count) =~= trees);
    } else {
        assert(trees.drop_last().take(count) =~= trees.take(count));
        lemma_tree_error_stays(trees.drop_last(), count);
        lemma_error_starts(
            plan_after_trees(trees.drop_last()),
            trees.last().mapping,
            trees.last().entries,
        );
    }
}

/// A plan that has ended stays as it is, whatever entries follow.
proof fn lemma_error_starts(
    plan: Result<CopyPlanView, PlanError>,
    mapping: DetectedMappingView,
    entries: Seq<TreeEntryView>,
)
    requires
        plan is Err,
    ensures
        plan_after_entries(plan, mapping, entries) == plan,
    decreases entries.len(),
{
    if entries.len() > 0 {
        lemma_error_starts(plan, mapping, entries.drop_last());
    }
}

/// A plan that was built counts the bytes of its files, and none else.
pub proof fn lemma_plan_counts_its_files(trees: Seq<WalkedTreeView>)
    ensures
        plan_after_trees(trees) matches Ok(plan) ==> plan.total_bytes == plan.file_bytes(),
    decreases trees.len(),
{
    if trees.len() > 0 {
        lemma_plan_counts_its_files(trees.drop_last());
        lemma_entries_count_their_files(
            plan_after_trees(trees.drop_last()),
            trees.last().mapping,
            trees.last().entries,
        );
    }
}

/// Entries that are added to a plan keep its bytes those of its files.
proof fn lemma_entries_count_their_files(
    plan: Result<CopyPlanView, PlanError>,
    mapping: DetectedMappingView,
    entries: Seq<TreeEntryView>,
)
    requires
        plan matches Ok(start) ==> start.total_bytes == start.file_bytes(),
    ensures
        plan_after_entries(plan, mapping, entries) matches Ok(end) ==> end.total_bytes
            == end.file_bytes(),
    decreases entries.len(),
{
    if entries.len() > 0 {
        lemma_entries_count_their_files(plan, mapping, entries.drop_last());
        match plan_after_entries(plan, mapping, entries.drop_last()) {
            Ok(before) => match planned(mapping, entries.last()) {
                Some(PlanItemView::File(file)) => {
                    assert(before.files.push(file).drop_last() =~= before.files);
                },
                _ => {},
            },
            _ => {},
        }
    }
}

/// The number of entries that the trees list.
pub open spec fn listed_entries(trees: Seq<WalkedTreeView>) -> nat
    decreases trees.len(),
{
    if trees.len() == 0 {
        0
    } else {
        listed_entries(trees.drop_last()) + trees.last().entries.len()
    }
}

/// A plan that was built holds one operation for each entry that was
/// listed: a directory to create or a file to copy.
pub proof fn lemma_plan_has_one_operation_each(trees: Seq<WalkedTreeView>)
    ensures
        plan_after_trees(trees) matches Ok(plan) ==> plan.dirs.len() + plan.files.len()
            == listed_entries(trees),
    decreases trees.len(),
{
    if trees.len() > 0 {
        lemma_plan_has_one_operation_each(trees.drop_last());
        match plan_after_trees(trees.drop_last()) {
            Ok(start) => {
                lemma_entries_add_one_each(start, trees.last().mapping, trees.last().entries);
            },
            Err(_) => {
                lemma_error_starts(
                    plan_after_trees(trees.drop_last()),
                    trees.last().mapping,
                    trees.last().entries,
                );
            },
        }
    }
}

/// Each entry that is added to a plan adds one operation.
proof fn lemma_entries_add_one_each(
    start: CopyPlanView,
    mapping: DetectedMappingView,
    entries: Seq<TreeEntryView>,
)
    ensures
        plan_after_entries(Ok(start), mapping, entries) matches Ok(end) ==> end.dirs.len()
            + end.files.len() == start.dirs.len() + start.files.len() + entries.len(),
    decreases entries.len(),
{
    if entries.len() > 0 {
        lemma_entries_add_one_each(start, mapping, entries.drop_last());
    }
}

} // verus!
