use backup_restore::folders::{group_by_dir, places};
use backup_restore::types::XdgDir;

#[test]
fn groups_come_in_the_order_of_the_directories() {
    let dirs = vec![
        XdgDir::Music,
        XdgDir::Documents,
        XdgDir::Music,
        XdgDir::Desktop,
        XdgDir::Documents,
        XdgDir::Music,
    ];

    let groups = group_by_dir(&dirs);

    let found: Vec<(XdgDir, Vec<usize>)> =
        groups.iter().map(|g| (g.xdg_dir, g.members.clone())).collect();
    assert_eq!(
        found,
        vec![
            (XdgDir::Desktop, vec![3]),
            (XdgDir::Documents, vec![1, 4]),
            (XdgDir::Music, vec![0, 2, 5]),
        ]
    );
}

#[test]
fn a_directory_without_items_has_no_group() {
    assert!(group_by_dir(&vec![]).is_empty());
    let groups = group_by_dir(&vec![XdgDir::Videos, XdgDir::Videos]);
    assert_eq!(groups.len(), 1);
    assert_eq!(groups[0].xdg_dir, XdgDir::Videos);
    assert_eq!(groups[0].members, vec![0, 1]);
}

#[test]
fn every_item_is_in_exactly_one_group() {
    let dirs: Vec<XdgDir> = (0..40).map(|i| XdgDir::ALL[(i * 7 + i / 3) % 8]).collect();
    let groups = group_by_dir(&dirs);
    let mut seen = vec![0; dirs.len()];
    for group in &groups {
        for &place in &group.members {
            assert_eq!(dirs[place], group.xdg_dir);
            seen[place] += 1;
        }
    }
    assert!(seen.iter().all(|&times| times == 1));
}

#[test]
fn places_rise() {
    let dirs = vec![XdgDir::Public, XdgDir::Music, XdgDir::Public, XdgDir::Public];
    assert_eq!(places(&dirs, XdgDir::Public), vec![0, 2, 3]);
    assert_eq!(places(&dirs, XdgDir::Music), vec![1]);
    assert!(places(&dirs, XdgDir::Desktop).is_empty());
}
