//! File-name parts of paths, as `std::path` computes them.
use vstd::prelude::*;

verus! {

/// What `std::path::Path::file_name` gives for the path spelled `path`.
pub uninterp spec fn path_file_name_of(path: Seq<char>) -> Option<Seq<char>>;

/// The position of the final `.` in `name`, or -1 when there is none.
pub open spec fn last_dot(name: Seq<char>) -> int
    decreases name.len(),
{
    if name.len() == 0 {
        -1
    } else if name.last() == '.' {
        name.len() - 1
    } else {
        last_dot(name.drop_last())
    }
}

/// The extension of the file name `name`: the part after its final `.`;
/// none when it has no `.`, or when its only `.` is its first character.
pub open spec fn name_extension(name: Seq<char>) -> Option<Seq<char>> {
    let i = last_dot(name);
    if i <= 0 {
        None
    } else {
        Some(name.subrange(i + 1, name.len() as int))
    }
}

/// The stem of the file name `name`: the part before its final `.`; the
/// whole name when it has no `.`, or when its only `.` is its first
/// character.
pub open spec fn name_stem(name: Seq<char>) -> Seq<char> {
    let i = last_dot(name);
    if i <= 0 {
        name
    } else {
        name.subrange(0, i)
    }
}

/// What `std::path::Path::extension` gives for the path spelled `path`: the
/// extension of its file name, none without a file name.
pub open spec fn path_extension_of(path: Seq<char>) -> Option<Seq<char>> {
    match path_file_name_of(path) {
        Some(n) => name_extension(n),
        None => None,
    }
}

/// What `std::path::Path::file_stem` gives for the path spelled `path`: the
/// stem of its file name, none without a file name.
pub open spec fn path_file_stem_of(path: Seq<char>) -> Option<Seq<char>> {
    match path_file_name_of(path) {
        Some(n) => Some(name_stem(n)),
        None => None,
    }
}

/// Calls `std::path::Path::extension` on `path`. Trusted to return what its
/// documentation says: of the file name (the one `path_file_name` gives),
/// the part after the final `.`, none when there is no `.` or the only one
/// starts the name (`to_str` cannot fail on a path made from a `str`).
#[verifier::external_body]
pub(crate) fn path_extension(path: &str) -> (r: Option<String>)
    ensures
        r matches Some(e) ==> path_extension_of(path@) == Some(e@),
        r is None ==> path_extension_of(path@) is None,
{
    std::path::Path::new(path).extension().and_then(|e| e.to_str()).map(|e| e.to_string())
}

/// Calls `std::path::Path::file_stem` on `path`. Trusted to return what its
/// documentation says: of the file name (the one `path_file_name` gives),
/// the part before the final `.`, the whole name when there is no `.` or the
/// only one starts the name.
#[verifier::external_body]
pub(crate) fn path_file_stem(path: &str) -> (r: Option<String>)
    ensures
        r matches Some(e) ==> path_file_stem_of(path@) == Some(e@),
        r is None ==> path_file_stem_of(path@) is None,
{
    std::path::Path::new(path).file_stem().and_then(|e| e.to_str()).map(|e| e.to_string())
}

/// Calls `std::path::Path::file_name` on `path`. Trusted to return the final
/// component that `path_file_name_of` names for the same path, a function of
/// the path's characters alone.
#[verifier::external_body]
pub(crate) fn path_file_name(path: &str) -> (r: Option<String>)
    ensures
        r matches Some(e) ==> path_file_name_of(path@) == Some(e@),
        r is None ==> path_file_name_of(path@) is None,
{
    std::path::Path::new(path).file_name().and_then(|e| e.to_str()).map(|e| e.to_string())
}

} // verus!
