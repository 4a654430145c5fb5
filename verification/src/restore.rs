//! The names under which content is written when its destination is taken.

use vstd::prelude::*;
use vstd::relations::injective_on;
use vstd::set_lib::{lemma_int_range, lemma_len_subset, lemma_map_size, set_int_range};
use vstd::string::StringExecFns;
use crate::paths::{
    extension_of, file_name_of, join, joined, lemma_join_keeps_tails_apart, parent_of,
    path_file_name, path_parent, split_name, stem_of,
};
use crate::text::{decimal, lemma_decimal_injective, lemma_decimal_len, push_decimal};

verus! {

/// A file name with `.restore` put between its stem and its extension, and a
/// number behind `.restore` where one is given.
pub open spec fn restore_name(stem: Seq<char>, ext: Option<Seq<char>>, n: Option<nat>) -> Seq<
    char,
> {
    stem + ".restore"@ + match n {
        Some(n) => "."@ + decimal(n),
        None => Seq::empty(),
    } + match ext {
        Some(ext) => "."@ + ext,
        None => Seq::empty(),
    }
}

/// The number that an attempt puts into the name: none for the first, its
/// own number from the second on.
pub open spec fn attempt_number(attempt: nat) -> Option<nat> {
    if attempt <= 1 {
        None
    } else {
        Some(attempt)
    }
}

/// The directory of a path: what stands before its last component, and
/// nothing where it has no such part.
pub open spec fn directory_of(path: Seq<char>) -> Seq<char> {
    match path_parent(path) {
        Some(parent) => parent,
        None => Seq::empty(),
    }
}

/// The file name of a path: its last component, and nothing where it has
/// none.
pub open spec fn file_name_in(path: Seq<char>) -> Seq<char> {
    match path_file_name(path) {
        Some(name) => name,
        None => Seq::empty(),
    }
}

/// The path that an attempt tries in place of a taken one: in the same
/// directory, under the restore name of that attempt.
pub open spec fn candidate_path(original: Seq<char>, attempt: nat) -> Seq<char> {
    joined(
        directory_of(original),
        restore_name(
            stem_of(file_name_in(original)),
            extension_of(file_name_in(original)),
            attempt_number(attempt),
        ),
    )
}

/// Builds a restore name from the parts of a file name: `photo.restore.jpg`
/// from `photo` and `jpg`, `photo.restore.2.jpg` with the number 2, and
/// `Makefile.restore` where there is no extension.
pub fn make_restore_name(stem: &str, ext: Option<&str>, n: Option<u32>) -> (name: String)
    ensures
        name@ == restore_name(
            stem@,
            match ext {
                Some(ext) => Some(ext@),
                None => None,
            },
            match n {
                Some(n) => Some(n as nat),
                None => None,
            },
        ),
{
    let mut name = String::from_str(stem);
    match n {
        None => {
            name.append(".restore");
        },
        Some(n) => {
            name.append(".restore.");
            push_decimal(&mut name, n as u128);
        },
    }
    if let Some(ext) = ext {
        name.append(".");
        name.append(ext);
    }
    proof {
        reveal_strlit(".restore");
        reveal_strlit(".restore.");
        reveal_strlit(".");
    }
    name
}

/// The path to try when `original_path` is taken, for the attempt of the
/// given number. The first attempt puts `.restore` before the extension, the
/// attempt `n` from the second on `.restore.n`. Nothing is looked up on disk.
pub fn next_candidate(original_path: &str, attempt: u32) -> (candidate: String)
    requires
        attempt >= 1,
    ensures
        candidate@ == candidate_path(original_path@, attempt as nat),
{
    let file_name = file_name_of(original_path);
    let parent = parent_of(original_path);
    proof {
        reveal_strlit("");
    }
    let (stem, ext) = split_name(
        match &file_name {
            Some(name) => name.as_str(),
            None => "",
        },
    );
    let n = if attempt == 1 {
        None
    } else {
        Some(attempt)
    };
    let name = make_restore_name(
        stem.as_str(),
        match &ext {
            Some(ext) => Some(ext.as_str()),
            None => None,
        },
        n,
    );
    join(
        match &parent {
            Some(parent) => parent.as_str(),
            None => "",
        },
        name.as_str(),
    )
}

/// Two attempts with different numbers get different restore names.
pub proof fn lemma_restore_names_differ(
    stem: Seq<char>,
    ext: Option<Seq<char>>,
    first: nat,
    second: nat,
)
    requires
        first >= 1,
        second >= 1,
        first != second,
    ensures
        restore_name(stem, ext, attempt_number(first)) != restore_name(
            stem,
            ext,
            attempt_number(second),
        ),
{
    let a = restore_name(stem, ext, attempt_number(first));
    let b = restore_name(stem, ext, attempt_number(second));
    let head = stem + ".restore"@;
    let tail = match ext {
        Some(ext) => "."@ + ext,
        None => Seq::<char>::empty(),
    };
    reveal_strlit(".");
    if a == b {
        if first == 1 || second == 1 {
            let n = if first == 1 {
                second
            } else {
                first
            };
            lemma_decimal_len(n);
            assert(a.len() != b.len());
        } else {
            let x = "."@ + decimal(first);
            let y = "."@ + decimal(second);
            assert(a =~= head + x + tail);
            assert forall|i: int| 0 <= i < decimal(first).len() implies decimal(first)[i]
                == decimal(second)[i] by {
                assert(a[head.len() + 1 + i] == x[1 + i]);
            }
            assert(decimal(first) =~= decimal(second));
            lemma_decimal_injective(first, second);
        }
    }
}

/// Two attempts with different numbers try different paths, so an attempt
/// never comes back to a path that was found taken before.
pub proof fn lemma_candidates_differ(original: Seq<char>, first: nat, second: nat)
    requires
        first >= 1,
        second >= 1,
        first != second,
    ensures
        candidate_path(original, first) != candidate_path(original, second),
{
    let parent = directory_of(original);
    let stem = stem_of(file_name_in(original));
    let ext = extension_of(file_name_in(original));
    let a = restore_name(stem, ext, attempt_number(first));
    let b = restore_name(stem, ext, attempt_number(second));
    lemma_restore_names_differ(stem, ext, first, second);
    reveal_strlit(".restore");
    lemma_join_keeps_tails_apart(parent, a, b);
}

/// However many paths are taken, as long as they are finitely many, one of
/// the attempts finds a free one: among the first attempts, one more than
/// there are taken paths, at least one tries a path that is not taken.
pub proof fn lemma_some_candidate_is_free(original: Seq<char>, taken: Set<Seq<char>>)
    requires
        taken.finite(),
    ensures
        exists|attempt: nat|
            1 <= attempt <= taken.len() + 1 && !taken.contains(
                #[trigger] candidate_path(original, attempt),
            ),
{
    let count = taken.len() as int;
    let attempts = set_int_range(1, count + 2);
    let path_of = |attempt: int| candidate_path(original, attempt as nat);
    let tried = attempts.map(path_of);
    lemma_int_range(1, count + 2);
    assert(injective_on(path_of, attempts)) by {
        assert forall|a: int, b: int|
            attempts.contains(a) && attempts.contains(b) && #[trigger] path_of(a)
                == #[trigger] path_of(b) implies a == b by {
            if a != b {
                lemma_candidates_differ(original, a as nat, b as nat);
            }
        }
    }
    lemma_map_size(attempts, tried, path_of);
    if tried.subset_of(taken) {
        lemma_len_subset(tried, taken);
    } else {
        let path = choose|path: Seq<char>| tried.contains(path) && !taken.contains(path);
        let attempt = choose|attempt: int| attempts.contains(attempt) && path_of(attempt) == path;
        assert(!taken.contains(candidate_path(original, attempt as nat)));
    }
}

} // verus!
