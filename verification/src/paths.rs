//! Path-string logic: the extension heuristic for directory entries and the
//! extension rewriting of output paths. Components are separated by `/`.
//!
//! A path "has an extension" when its final component holds a `.` that is
//! not the component's first character; the extension is everything after
//! the last such `.`. An extension-less directory entry is treated as a raw
//! proxy listing; an entry with an extension is skipped.

use vstd::prelude::*;
use crate::text::{find_last, last_occ, lemma_last_occ_before};

verus! {

/// Index of the first character of the final path component.
pub open spec fn component_start(p: Seq<char>) -> int {
    last_occ(p, '/') + 1
}

/// Index of the dot that starts the extension, or `-1` when there is none.
pub open spec fn ext_dot(p: Seq<char>) -> int {
    if last_occ(p, '.') > component_start(p) {
        last_occ(p, '.')
    } else {
        -1
    }
}

/// The path names an extension.
pub open spec fn has_ext(p: Seq<char>) -> bool {
    ext_dot(p) >= 0
}

/// The path with its extension (and its dot) removed.
pub open spec fn strip_ext(p: Seq<char>) -> Seq<char> {
    if has_ext(p) {
        p.take(ext_dot(p))
    } else {
        p
    }
}

/// The fixed suffix of an output file.
pub open spec fn yaml_suffix() -> Seq<char> {
    seq!['.', 'y', 'a', 'm', 'l']
}

/// The path with its extension rewritten to the output suffix.
pub open spec fn with_yaml_ext(p: Seq<char>) -> Seq<char> {
    strip_ext(p) + yaml_suffix()
}

/// Whether a path names an extension: decides which directory entries are
/// treated as proxy-listing sources.
pub fn has_extension(path: &str) -> (r: bool)
    ensures
        r == has_ext(path@),
{
    let dot = find_last(path, '.');
    let slash = find_last(path, '/');
    match dot {
        None => false,
        Some(di) => match slash {
            None => di > 0,
            Some(si) => di > 0 && di - 1 > si,
        },
    }
}

/// The path with its extension (and its dot) removed.
pub fn strip_extension(path: &str) -> (r: String)
    ensures
        r@ == strip_ext(path@),
{
    let dot = find_last(path, '.');
    let slash = find_last(path, '/');
    let ext_at: Option<usize> = match dot {
        None => None,
        Some(di) => match slash {
            None => if di > 0 {
                Some(di)
            } else {
                None
            },
            Some(si) => if di > 0 && di - 1 > si {
                Some(di)
            } else {
                None
            },
        },
    };
    match ext_at {
        Some(di) => {
            proof {
                lemma_last_occ_before(path@, '.', path@.len() as int);
                assert(di as int == ext_dot(path@));
                assert(path@.subrange(0, di as int) =~= path@.take(ext_dot(path@)));
            }
            String::from_str(path.substring_char(0, di))
        },
        None => String::from_str(path),
    }
}

/// The output path for a source path: the extension, if any, is discarded
/// and the fixed output suffix is appended.
pub fn path_with_yaml_extension(path: &str) -> (r: String)
    ensures
        r@ == with_yaml_ext(path@),
{
    let suffix = ".yaml";
    proof {
        reveal_strlit(".yaml");
        assert(suffix@ =~= yaml_suffix());
    }
    let r = strip_extension(path).concat(suffix);
    proof {
        assert(r@ =~= with_yaml_ext(path@));
    }
    r
}

} // verus!
