//! Items sorted by the directory they belong to.

use vstd::prelude::*;
use crate::types::{views, XdgDir};

verus! {

/// The items of one directory, by their places in the list they came from.
#[derive(Debug, Clone)]
pub struct DirGroup {
    pub xdg_dir: XdgDir,
    pub members: Vec<usize>,
}

/// The view of a group.
pub struct DirGroupView {
    pub xdg_dir: XdgDir,
    pub members: Seq<usize>,
}

impl View for DirGroup {
    type V = DirGroupView;

    open spec fn view(&self) -> DirGroupView {
        DirGroupView { xdg_dir: self.xdg_dir, members: self.members@ }
    }
}

/// The places at which a directory occurs in a list, in rising order.
pub open spec fn places_of(dirs: Seq<XdgDir>, dir: XdgDir) -> Seq<usize>
    decreases dirs.len(),
{
    if dirs.len() == 0 {
        Seq::empty()
    } else if dirs.last() == dir {
        places_of(dirs.drop_last(), dir).push((dirs.len() - 1) as usize)
    } else {
        places_of(dirs.drop_last(), dir)
    }
}

/// The groups of the first `count` directories, in the order of the
/// directories, without those that occur nowhere in the list.
pub open spec fn groups_of(dirs: Seq<XdgDir>, count: nat) -> Seq<DirGroupView>
    decreases count,
{
    if count == 0 || count > 8 {
        Seq::empty()
    } else {
        let before = groups_of(dirs, (count - 1) as nat);
        let dir = XdgDir::ALL[count - 1];
        if places_of(dirs, dir).len() == 0 {
            before
        } else {
            before.push(DirGroupView { xdg_dir: dir, members: places_of(dirs, dir) })
        }
    }
}

/// The places at which a directory occurs in a list, in rising order.
pub fn places(dirs: &Vec<XdgDir>, dir: XdgDir) -> (found: Vec<usize>)
    ensures
        found@ == places_of(dirs@, dir),
{
    let mut found: Vec<usize> = Vec::new();
    let mut i: usize = 0;
    while i < dirs.len()
        invariant
            i <= dirs.len(),
            found@ == places_of(dirs@.take(i as int), dir),
        decreases dirs.len() - i,
    {
        assert(dirs@.take(i + 1).drop_last() =~= dirs@.take(i as int));
        if dirs[i] == dir {
            found.push(i);
        }
        i = i + 1;
    }
    assert(dirs@.take(i as int) =~= dirs@);
    found
}

/// Sorts the items of a list by directory. `dirs` holds the directory of
/// each item. The groups come in the order of the directories, the members
/// of a group in the order of the list, and a directory without an item has
/// no group.
pub fn group_by_dir(dirs: &Vec<XdgDir>) -> (groups: Vec<DirGroup>)
    ensures
        views(groups@) == groups_of(dirs@, 8),
{
    let mut groups: Vec<DirGroup> = Vec::new();
    let mut i: usize = 0;
    while i < 8
        invariant
            i <= 8,
            views(groups@) == groups_of(dirs@, i as nat),
        decreases 8 - i,
    {
        let dir = XdgDir::ALL[i];
        let members = places(dirs, dir);
        let ghost before = views(groups@);
        if members.len() != 0 {
            let group = DirGroup { xdg_dir: dir, members };
            groups.push(group);
        }
        i = i + 1;
    }
    groups
}

/// Every item has its place in the group of its directory, and in no
/// other.
pub proof fn lemma_places_are_exact(dirs: Seq<XdgDir>, dir: XdgDir, place: usize)
    requires
        dirs.len() <= usize::MAX,
    ensures
        places_of(dirs, dir).contains(place) <==> place < dirs.len() && dirs[place as int] == dir,
    decreases dirs.len(),
{
    if dirs.len() > 0 {
        let before = places_of(dirs.drop_last(), dir);
        lemma_places_are_exact(dirs.drop_last(), dir, place);
        let last = (dirs.len() - 1) as usize;
        if dirs.last() == dir {
            let all = before.push(last);
            assert(all[all.len() - 1] == last);
            if place != last {
                if all.contains(place) {
                    let k = choose|k: int| 0 <= k < all.len() && all[k] == place;
                }
                if before.contains(place) {
                    let k = choose|k: int| 0 <= k < before.len() && before[k] == place;
                    assert(all[k] == place);
                }
            }
        }
    }
}

} // verus!
