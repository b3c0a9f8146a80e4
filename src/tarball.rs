//! The pure part of packing a directory into a tarball: how entry names are made relative
//! to the base directory. Walking the directory and compressing is left to the caller.
use vstd::prelude::*;
use crate::text::{ends_with_char, push_char};

verus! {

/// A base path that ends with the separator: the path itself when it already does or is
/// empty, else the path followed by the separator.
pub open spec fn base_path_text(path: Seq<char>, separator: char) -> Seq<char> {
    if path.len() == 0 || path.last() == separator {
        path
    } else {
        path.push(separator)
    }
}

/// The base path under which archive entries are named, from the canonical path of the
/// directory (as text) and the platform's path separator.
pub fn resolve_base_path(canonical_path: &str, separator: char) -> (r: String)
    ensures
        r@ == base_path_text(canonical_path@, separator),
{
    let mut r = String::from_str(canonical_path);
    if !canonical_path.is_empty() && !ends_with_char(canonical_path, separator) {
        push_char(&mut r, separator);
    }
    r
}

} // verus!
