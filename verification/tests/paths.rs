use std::path::Path;

use backup_restore::paths::{join, split_name};

#[test]
fn join_puts_one_separator_between_base_and_tail() {
    assert_eq!(join("/home/joe", "Documents"), "/home/joe/Documents");
    assert_eq!(join("/home/joe/", "Documents"), "/home/joe/Documents");
    assert_eq!(join("/", "Documents"), "/Documents");
    assert_eq!(join("backup", "a/b/c.txt"), "backup/a/b/c.txt");
}

#[test]
fn join_below_an_empty_base_is_the_tail() {
    assert_eq!(join("", "notes.txt"), "notes.txt");
    assert_eq!(join("", ""), "");
}

#[test]
fn join_lets_a_tail_from_the_root_stand_for_itself() {
    assert_eq!(join("/home/joe", "/etc/passwd"), "/etc/passwd");
    assert_eq!(join("", "/"), "/");
}

#[test]
fn join_agrees_with_the_standard_library() {
    let bases = ["", "/", "a", "a/", "/a", "/a/b", "/a/b/", "a//", ".", "..", "/home/jo\u{e9}", "x y"];
    let tails = ["", "b", "b/c", "/b", "/", ".", "..", "b/", ".restore", "\u{e9}t\u{e9}.txt", "//b"];
    for base in bases {
        for tail in tails {
            let expected = Path::new(base).join(tail);
            assert_eq!(
                join(base, tail),
                expected.to_str().unwrap(),
                "for {base:?} and {tail:?}"
            );
        }
    }
}

#[test]
fn a_name_splits_at_its_last_dot() {
    assert_eq!(split_name("photo.jpg"), (String::from("photo"), Some(String::from("jpg"))));
    assert_eq!(split_name("archive.tar.gz"), (String::from("archive.tar"), Some(String::from("gz"))));
    assert_eq!(split_name("Makefile"), (String::from("Makefile"), None));
    assert_eq!(split_name(".profile"), (String::from(".profile"), None));
    assert_eq!(split_name(".config.bak"), (String::from(".config"), Some(String::from("bak"))));
    assert_eq!(split_name("notes."), (String::from("notes"), Some(String::new())));
    assert_eq!(split_name(""), (String::new(), None));
}

#[test]
fn splitting_a_name_agrees_with_the_standard_library() {
    let names = [
        "photo.jpg",
        "archive.tar.gz",
        "Makefile",
        ".profile",
        ".config.bak",
        "notes.",
        "a",
        "a.b",
        ".a.",
        "..a",
        "...",
        "a..b",
        "\u{e9}t\u{e9}.t\u{e9}xt",
        "with space.txt",
        "x.restore.2.jpg",
    ];
    for name in names {
        let path = Path::new(name);
        assert_eq!(path.file_name().unwrap().to_str().unwrap(), name);
        let (stem, extension) = split_name(name);
        assert_eq!(Some(stem.as_str()), path.file_stem().unwrap().to_str(), "for {name:?}");
        assert_eq!(
            extension.as_deref(),
            path.extension().map(|extension| extension.to_str().unwrap()),
            "for {name:?}"
        );
    }
}
