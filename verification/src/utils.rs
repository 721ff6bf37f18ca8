//! Path helpers for the files the mod manager keeps beside archives and
//! mods.

use vstd::prelude::*;

use crate::paths::{
    extension, file_name, path_extension, path_file_name, path_with_extension,
    path_with_file_name, with_extension, with_file_name,
};
use crate::text::{str_lower, to_lower};

verus! {

/// `p` with `.ext` appended to its extension, or with extension `ext` when
/// it has none.
pub open spec fn add_extension_spec(p: Seq<char>, ext: Seq<char>) -> Seq<char> {
    match path_extension(p) {
        Some(e) => path_with_extension(p, e + "."@ + ext),
        None => path_with_extension(p, ext),
    }
}

/// `p` with `.ext` appended to its extension (`foo.zip` becomes
/// `foo.zip.json`), or with extension `ext` when it has none; `ext` holds
/// no path separator.
pub fn add_extension(p: &str, ext: &str) -> (r: String)
    requires
        !ext@.contains('/'),
    ensures
        r@ == add_extension_spec(p@, ext@),
{
    match extension(p) {
        Some(e) => {
            let combined = e.concat(".").concat(ext);
            proof {
                reveal_strlit(".");
                if combined@.contains('/') {
                    let k = choose|k: int| 0 <= k < combined@.len() && combined@[k] == '/';
                    if k < e@.len() {
                        assert(e@[k] == '/');
                    } else if k > e@.len() {
                        assert(ext@[k - e@.len() - 1] == '/');
                    }
                }
            }
            with_extension(p, combined.as_str())
        },
        None => with_extension(p, ext),
    }
}

/// The path `p` renamed to the lower-cased form of its final component;
/// `None` for a path without one.
pub fn lower_case(p: &str) -> (r: Option<String>)
    ensures
        match path_file_name(p@) {
            Some(n) => r matches Some(q) && q@ == path_with_file_name(p@, str_lower(n)),
            None => r is None,
        },
{
    match file_name(p) {
        Some(n) => {
            let lower = to_lower(n.as_str());
            Some(with_file_name(p, lower.as_str()))
        },
        None => None,
    }
}

} // verus!
