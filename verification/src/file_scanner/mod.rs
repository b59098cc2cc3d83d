//! Scanning the notes of a vault.
use crate::text::opt_string;
use vstd::prelude::*;

pub mod daily_todo;
pub mod file_search_config;
pub mod recent_file_tracker;
pub mod sync_conflict;
pub mod time_reminder;

verus! {

/// What `std::path::Path::strip_prefix` gives for `path` and `root`: the
/// path that joined onto `root` yields `path`, where `root` is a prefix of
/// `path` component by component.
pub uninterp spec fn stripped_path(path: Seq<char>, root: Seq<char>) -> Option<Seq<char>>;

/// `Path::new(path).strip_prefix(root)`, as text. The result is named
/// `stripped_path(path, root)`; the matching by components (separators,
/// `.` components) is `std`'s and is not spelt out. The remainder of a path
/// that came from a `str` is valid UTF-8, so its text is always there.
#[verifier::external_body]
fn strip_path_prefix(path: &str, root: &str) -> (r: Option<String>)
    ensures
        opt_string(r) == stripped_path(path@, root@),
{
    match std::path::Path::new(path).strip_prefix(root) {
        Ok(p) => match p.to_str() {
            Some(s) => Some(s.to_owned()),
            None => None,
        },
        Err(_) => None,
    }
}

/// The path of `path` relative to `root`.
pub fn path_str_no_root(path: &str, root: &str) -> (r: String)
    requires
        stripped_path(path@, root@) is Some,
    ensures
        r@ == stripped_path(path@, root@)->0,
{
    match strip_path_prefix(path, root) {
        Some(s) => s,
        None => String::new(),
    }
}

/// The path of `path` relative to `root`, or `None` where `root` is not a
/// prefix of `path`.
pub fn path_str_under_root(path: &str, root: &str) -> (r: Option<String>)
    ensures
        opt_string(r) == stripped_path(path@, root@),
{
    match strip_path_prefix(path, root) {
        Some(_) => Some(path_str_no_root(path, root)),
        None => None,
    }
}

} // verus!
