//! The commands that remove the mod manager's files; the mods are disabled
//! first.

use vstd::prelude::*;

verus! {

/// What to remove.
#[derive(Copy, Clone, Debug, PartialEq, Eq, Structural)]
pub enum PurgeCmd {
    /// The settings and the extracted mods.
    Config,
    /// The extracted mods only.
    Cache,
}

} // verus!
