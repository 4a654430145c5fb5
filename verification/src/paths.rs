//! Paths as text. They are taken apart by the standard library's `Path`.
//! What `Path` returns is not proved here: each wrapper below names the
//! result of one of its methods, and the rest of the library speaks of these
//! names. Paths are put together here, with `/` between their parts.

use vstd::prelude::*;
use vstd::string::StringExecFns;

verus! {

/// What `Path::parent` returns for a path: the path without its last
/// component, or nothing where the path ends in a root or is empty.
pub uninterp spec fn path_parent(path: Seq<char>) -> Option<Seq<char>>;

/// What `Path::file_name` returns for a path: its last component, or
/// nothing where the path ends in `..` or in a root, or is empty.
pub uninterp spec fn path_file_name(path: Seq<char>) -> Option<Seq<char>>;

/// What `Path::strip_prefix` returns for a path and a base: the rest of the
/// path below the base, or nothing where the path does not start with it.
pub uninterp spec fn path_strip_prefix(path: Seq<char>, base: Seq<char>) -> Option<Seq<char>>;

/// Whether `Path` takes two paths to be equal, which it decides component by
/// component.
pub uninterp spec fn path_same(a: Seq<char>, b: Seq<char>) -> bool;

/// Calls `Path::parent`. The contract only names the result.
#[verifier::external_body]
pub(crate) fn parent_of(path: &str) -> (parent: Option<String>)
    ensures
        parent.deep_view() == path_parent(path@),
{
    match std::path::Path::new(path).parent() {
        Some(parent) => Some(parent.to_string_lossy().into_owned()),
        None => None,
    }
}

/// Calls `Path::file_name`. The contract only names the result.
#[verifier::external_body]
pub(crate) fn file_name_of(path: &str) -> (name: Option<String>)
    ensures
        name.deep_view() == path_file_name(path@),
{
    match std::path::Path::new(path).file_name() {
        Some(name) => Some(name.to_string_lossy().into_owned()),
        None => None,
    }
}

/// Calls `Path::strip_prefix`. The contract only names the result.
#[verifier::external_body]
pub(crate) fn strip_prefix(path: &str, base: &str) -> (rest: Option<String>)
    ensures
        rest.deep_view() == path_strip_prefix(path@, base@),
{
    match std::path::Path::new(path).strip_prefix(base) {
        Ok(rest) => Some(rest.to_string_lossy().into_owned()),
        Err(_) => None,
    }
}

/// Compares two paths as `Path` does. The contract only names the result.
#[verifier::external_body]
pub(crate) fn same_path(a: &str, b: &str) -> (same: bool)
    ensures
        same == path_same(a@, b@),
{
    std::path::Path::new(a) == std::path::Path::new(b)
}

/// A path below a base: the base, one `/` unless the base is empty or ends
/// in one, and the tail. A tail that starts at the root stands for itself.
pub open spec fn joined(base: Seq<char>, tail: Seq<char>) -> Seq<char> {
    if tail.len() > 0 && tail[0] == '/' {
        tail
    } else if base.len() == 0 || base.last() == '/' {
        base + tail
    } else {
        base + seq!['/'] + tail
    }
}

/// Puts a path below a base.
pub fn join(base: &str, tail: &str) -> (path: String)
    ensures
        path@ == joined(base@, tail@),
{
    proof {
        reveal_strlit("/");
    }
    if !tail.is_empty() && tail.get_char(0) == '/' {
        return String::from_str(tail);
    }
    let mut path = String::from_str(base);
    let length = base.unicode_len();
    if length != 0 && base.get_char(length - 1) != '/' {
        path.append("/");
    }
    path.append(tail);
    path
}

/// Different tails below one base are different paths, unless one of them
/// starts at the root and the other does not.
pub proof fn lemma_join_keeps_tails_apart(base: Seq<char>, first: Seq<char>, second: Seq<char>)
    requires
        first != second,
        (first.len() > 0 && first[0] == '/') == (second.len() > 0 && second[0] == '/'),
    ensures
        joined(base, first) != joined(base, second),
{
    let head = if base.len() == 0 || base.last() == '/' {
        base
    } else {
        base + seq!['/']
    };
    if !(first.len() > 0 && first[0] == '/') && joined(base, first) == joined(base, second) {
        assert forall|i: int| 0 <= i < first.len() implies first[i] == second[i] by {
            assert((head + first)[head.len() + i] == first[i]);
        }
        assert(first =~= second);
    }
}

/// The place of the last dot among the first `end` characters of a name,
/// if there is a dot among them.
pub open spec fn last_dot(name: Seq<char>, end: int) -> Option<int>
    decreases end,
{
    if end <= 0 {
        None
    } else if name[end - 1] == '.' {
        Some(end - 1)
    } else {
        last_dot(name, end - 1)
    }
}

/// Whether a file name has an extension: it has a dot behind its first
/// character. A name that only begins with a dot has none.
pub open spec fn has_extension(name: Seq<char>) -> bool {
    last_dot(name, name.len() as int) matches Some(dot) && dot > 0
}

/// The stem of a file name: what stands before its last dot, and the whole
/// name where it has no extension.
pub open spec fn stem_of(name: Seq<char>) -> Seq<char> {
    if has_extension(name) {
        name.take(last_dot(name, name.len() as int)->0)
    } else {
        name
    }
}

/// The extension of a file name, if it has one: what stands behind its last
/// dot.
pub open spec fn extension_of(name: Seq<char>) -> Option<Seq<char>> {
    if has_extension(name) {
        Some(name.skip(last_dot(name, name.len() as int)->0 + 1))
    } else {
        None
    }
}

/// Splits a file name into its stem and its extension.
pub fn split_name(name: &str) -> (parts: (String, Option<String>))
    ensures
        parts.0@ == stem_of(name@),
        parts.1.deep_view() == extension_of(name@),
{
    let length = name.unicode_len();
    let mut end = length;
    while end > 0 && name.get_char(end - 1) != '.'
        invariant
            end <= length == name@.len(),
            last_dot(name@, length as int) == last_dot(name@, end as int),
        decreases end,
    {
        end = end - 1;
    }
    if end > 1 {
        let stem = name.substring_char(0, end - 1);
        let extension = name.substring_char(end, length);
        (String::from_str(stem), Some(String::from_str(extension)))
    } else {
        (String::from_str(name), None)
    }
}

/// A name is its stem, and its extension behind a dot if it has one.
pub proof fn lemma_name_is_stem_and_extension(name: Seq<char>)
    ensures
        name == match extension_of(name) {
            Some(extension) => stem_of(name) + seq!['.'] + extension,
            None => stem_of(name),
        },
        extension_of(name) matches Some(extension) ==> !extension.contains('.') && stem_of(
            name,
        ).len() > 0,
{
    let end = name.len() as int;
    lemma_last_dot(name, end);
    if has_extension(name) {
        let dot = last_dot(name, end)->0;
        let extension = name.skip(dot + 1);
        assert(name =~= name.take(dot) + seq!['.'] + extension);
        if extension.contains('.') {
            let i = choose|i: int| 0 <= i < extension.len() && extension[i] == '.';
            assert(name[dot + 1 + i] == '.');
        }
    }
}

/// The last dot is a dot, and no dot stands behind it.
proof fn lemma_last_dot(name: Seq<char>, end: int)
    requires
        0 <= end <= name.len(),
    ensures
        match last_dot(name, end) {
            Some(dot) => 0 <= dot < end && name[dot] == '.' && forall|i: int|
                dot < i < end ==> name[i] != '.',
            None => forall|i: int| 0 <= i < end ==> name[i] != '.',
        },
    decreases end,
{
    if end > 0 && name[end - 1] != '.' {
        lemma_last_dot(name, end - 1);
    }
}

} // verus!
