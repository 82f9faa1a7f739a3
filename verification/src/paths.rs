//! Path operations, done by `std::path` and stated over their textual views.
//!
//! `path_join` and `path_extension` are written out as `std::path`
//! documents them on Unix; each other name stands for what the
//! corresponding `std::path` function computes on the path text (converted
//! back lossily where the result is a path). They are pure functions of
//! their arguments.
use vstd::prelude::*;

verus! {

/// `Path::parent` of `path`, as text.
pub uninterp spec fn path_parent(path: Seq<char>) -> Option<Seq<char>>;

/// `Path::file_name` of `path`, as text.
pub uninterp spec fn path_file_name(path: Seq<char>) -> Option<Seq<char>>;

/// `Path::join` of `base` and `rest`, as text, on Unix: an absolute `rest`
/// replaces `base`; otherwise `rest` follows `base`, with a `/` between them
/// unless `base` is empty or already ends in one.
pub open spec fn path_join(base: Seq<char>, rest: Seq<char>) -> Seq<char> {
    if rest.len() > 0 && rest[0] == '/' {
        rest
    } else if base.len() == 0 || base.last() == '/' {
        base + rest
    } else {
        base + seq!['/'] + rest
    }
}

/// `Path::starts_with`: whether the components of `base` are a prefix of the
/// components of `path`.
pub uninterp spec fn path_starts_with(path: Seq<char>, base: Seq<char>) -> bool;

/// The `as_os_str` of each of `Path::components`, as text, in order.
pub uninterp spec fn path_components(path: Seq<char>) -> Seq<Seq<char>>;

/// Index of the last `.` in `name`, or `-1` when there is none.
pub open spec fn last_dot_in(name: Seq<char>) -> int
    decreases name.len(),
{
    if name.len() == 0 {
        -1
    } else if name.last() == '.' {
        name.len() - 1
    } else {
        last_dot_in(name.drop_last())
    }
}

/// `Path::extension` of `path`, as text: what follows the last `.` of the
/// file name; none without a file name, without a `.`, or when the only `.`
/// starts the name.
pub open spec fn path_extension(path: Seq<char>) -> Option<Seq<char>> {
    match path_file_name(path) {
        None => None,
        Some(name) => if last_dot_in(name) <= 0 { None } else { Some(name.skip(last_dot_in(name) + 1)) },
    }
}

/// `Path::new(path).extension()`, converted lossily back to a `String`.
#[verifier::external_body]
pub(crate) fn std_path_extension(path: &str) -> (r: Option<String>)
    ensures
        match r {
            Some(e) => path_extension(path@) == Some(e@),
            None => path_extension(path@) is None,
        },
{
    std::path::Path::new(path).extension().map(|e| e.to_string_lossy().into_owned())
}

/// `Path::new(path).parent()`, converted lossily back to a `String`.
#[verifier::external_body]
pub(crate) fn std_path_parent(path: &str) -> (r: Option<String>)
    ensures
        match r {
            Some(p) => path_parent(path@) == Some(p@),
            None => path_parent(path@) is None,
        },
{
    std::path::Path::new(path).parent().map(|p| p.to_string_lossy().into_owned())
}

/// `Path::new(path).file_name()`, converted lossily back to a `String`.
#[verifier::external_body]
pub(crate) fn std_path_file_name(path: &str) -> (r: Option<String>)
    ensures
        match r {
            Some(p) => path_file_name(path@) == Some(p@),
            None => path_file_name(path@) is None,
        },
{
    std::path::Path::new(path).file_name().map(|n| n.to_string_lossy().into_owned())
}

/// `Path::new(base).join(rest)`, converted lossily back to a `String`.
#[verifier::external_body]
pub(crate) fn std_path_join(base: &str, rest: &str) -> (r: String)
    ensures
        r@ == path_join(base@, rest@),
{
    std::path::Path::new(base).join(rest).to_string_lossy().into_owned()
}

/// `Path::new(path).starts_with(base)`.
#[verifier::external_body]
pub(crate) fn std_path_starts_with(path: &str, base: &str) -> (r: bool)
    ensures
        r == path_starts_with(path@, base@),
{
    std::path::Path::new(path).starts_with(base)
}

/// `Path::new(path).components()`, each rendered lossily to a `String`.
#[verifier::external_body]
pub(crate) fn std_path_components(path: &str) -> (r: Vec<String>)
    ensures
        r@.len() == path_components(path@).len(),
        forall|i: int| 0 <= i < r@.len() ==> (#[trigger] r@[i])@ == path_components(path@)[i],
{
    std::path::Path::new(path).components().map(|c| c.as_os_str().to_string_lossy().into_owned()).collect()
}

} // verus!
