//! Finding a mod in the mod list by what the user typed: its exact name,
//! its position, or the name it resembles most.

use vstd::prelude::*;

use crate::conflict::views;
use crate::fuzzy::{best_match, fuzzy_scores, match_score};
use crate::manifest::{Manifest, ManifestView};
use crate::mods::mod_by_name_from;
use crate::text::{parse_unsigned, parse_usize};

verus! {

/// The position `idx`, when the list has a mod there.
pub fn find_mod_by_index(mods: &[Manifest], idx: usize) -> (r: Option<usize>)
    ensures
        idx < mods@.len() ==> r == Some(idx),
        idx >= mods@.len() ==> r is None,
{
    if idx < mods.len() {
        Some(idx)
    } else {
        None
    }
}

/// The position of the first mod named `name`.
pub fn find_mod_by_name(mods: &[Manifest], name: &str) -> (r: Option<usize>)
    ensures
        r matches Some(i) ==> mod_by_name_from(views(mods@), name@, 0) == Some(i as int),
        r is None ==> mod_by_name_from(views(mods@), name@, 0) is None,
{
    crate::mods::find_mod_by_name(mods, name)
}

/// The names of the mods.
fn mod_names(mods: &[Manifest]) -> (r: Vec<String>)
    ensures
        r@.len() == mods@.len(),
        forall|k: int| 0 <= k < r@.len() ==> #[trigger] r@[k]@ == mods@[k]@.name,
{
    let mut r: Vec<String> = Vec::new();
    let mut i: usize = 0;
    while i < mods.len()
        invariant
            i <= mods@.len(),
            r@.len() == i,
            forall|k: int| 0 <= k < i ==> #[trigger] r@[k]@ == mods@[k]@.name,
        decreases mods.len() - i,
    {
        r.push(String::from_str(mods[i].name()));
        i += 1;
    }
    r
}

/// The position of a mod whose name resembles `fuzzy_name` most (by the
/// skim score of `fuzzy_name` in the names); `None` for an empty list.
pub fn find_mod_by_name_fuzzy(mods: &[Manifest], fuzzy_name: &str) -> (r: Option<usize>)
    ensures
        r is None <==> mods@.len() == 0,
        r matches Some(i) ==> i < mods@.len() && forall|k: int|
            0 <= k < mods@.len() ==> match_score(#[trigger] mods@[k]@.name, fuzzy_name@) <= match_score(
                mods@[i as int]@.name,
                fuzzy_name@,
            ),
{
    let names = mod_names(mods);
    let scores = fuzzy_scores(names.as_slice(), fuzzy_name);
    let r = best_match(&scores);
    match r {
        Some(i) => {
            assert forall|k: int| 0 <= k < mods@.len() implies match_score(
                #[trigger] mods@[k]@.name,
                fuzzy_name@,
            ) <= match_score(mods@[i as int]@.name, fuzzy_name@) by {
                assert(scores@[k] == match_score(names@[k]@, fuzzy_name@));
                assert(scores@[i as int] == match_score(names@[i as int]@, fuzzy_name@));
            }
        },
        None => {},
    }
    r
}

/// The mod the user means by `mod_name`: the first with that exact name;
/// else, when it is a number, the mod at that position; else the mod whose
/// name it resembles most.
pub fn find_mod(mods: &[Manifest], mod_name: &str) -> (r: Option<usize>)
    ensures
        match mod_by_name_from(views(mods@), mod_name@, 0) {
            Some(i) => r == Some(i as usize),
            None => match parse_unsigned(mod_name@, usize::MAX as nat) {
                Some(n) => if n < mods@.len() {
                    r == Some(n as usize)
                } else {
                    r is None
                },
                None => (r is None <==> mods@.len() == 0) && (r matches Some(i) ==> i < mods@.len()
                    && forall|k: int|
                    0 <= k < mods@.len() ==> match_score(#[trigger] mods@[k]@.name, mod_name@)
                        <= match_score(mods@[i as int]@.name, mod_name@)),
            },
        },
{
    match find_mod_by_name(mods, mod_name) {
        Some(i) => Some(i),
        None => match parse_usize(mod_name) {
            Some(idx) => find_mod_by_index(mods, idx),
            None => find_mod_by_name_fuzzy(mods, mod_name),
        },
    }
}

} // verus!
