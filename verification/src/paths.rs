//! Box art paths: where an entry's box art is looked for.
//!
//! Whether a path is relative, and what joining two paths gives, is decided by
//! `std::path` by the rules of the platform the crate is built for. The two
//! calls stand behind private wrappers whose results the contracts only name:
//! nothing here says what `std::path` answers for a given path.

use vstd::prelude::*;

verus! {

/// Whether `std::path::Path::is_relative` holds of the path with these
/// characters, on the platform the crate is built for.
pub uninterp spec fn path_is_relative(path: Seq<char>) -> bool;

/// The characters of what `std::path::Path::join` gives for a base and a
/// path, on the platform the crate is built for.
pub uninterp spec fn path_joined(base: Seq<char>, path: Seq<char>) -> Seq<char>;

/// Calls `std::path::Path::is_relative`. Not proved: that the answer is the
/// one the name `path_is_relative` stands for, that is, that it depends on
/// the characters of the path alone.
#[verifier::external_body]
fn is_relative_path(path: &str) -> (r: bool)
    ensures
        r == path_is_relative(path@),
{
    std::path::Path::new(path).is_relative()
}

/// Calls `std::path::Path::join` on a base directory and a path, both given
/// as text, and hands the joined path back as text. Not proved: that the
/// result is the one the name `path_joined` stands for, that is, that it
/// depends on the characters of the two arguments alone.
#[verifier::external_body]
fn join_path(base: &str, path: &str) -> (r: String)
    ensures
        r@ == path_joined(base@, path@),
{
    std::path::Path::new(base).join(path).to_string_lossy().into_owned()
}

/// Where the box art of an entry is recorded: a relative path is joined to
/// the base directory when one is configured, any other path stands as given.
pub open spec fn placed(path: Seq<char>, base: Option<Seq<char>>) -> Seq<char> {
    match base {
        Some(b) => if path_is_relative(path) { path_joined(b, path) } else { path },
        None => path,
    }
}

/// The recorded box art of an entry that may not name one.
pub open spec fn recorded_box_art(path: Option<Seq<char>>, base: Option<Seq<char>>) -> Option<Seq<char>> {
    match path {
        Some(p) => Some(placed(p, base)),
        None => None,
    }
}

/// Places a box art path once it is known whether it is relative and what
/// joining it to the base directory gives: the joined path where a base
/// directory is configured and the path is relative, the path itself otherwise.
pub fn place_box_art(path: String, base_configured: bool, relative: bool, joined: String) -> (r: String)
    ensures
        r@ == if base_configured && relative { joined@ } else { path@ },
{
    if base_configured && relative {
        joined
    } else {
        path
    }
}

/// The recorded box art path of an entry, given the path it names (if any)
/// and the configured base directory (if any).
pub fn box_art_override(path: &Option<String>, base: &Option<String>) -> (r: Option<String>)
    ensures
        crate::model::text(r) == recorded_box_art(crate::model::text(*path), crate::model::text(*base)),
{
    match path {
        Some(p) => match base {
            Some(b) => {
                let relative = is_relative_path(p.as_str());
                let joined = join_path(b.as_str(), p.as_str());
                Some(place_box_art(p.clone(), true, relative, joined))
            },
            None => Some(p.clone()),
        },
        None => None,
    }
}

} // verus!
