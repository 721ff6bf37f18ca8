//! What the `show` command shows.

use vstd::prelude::*;

verus! {

/// What to show.
#[derive(Debug)]
pub enum ShowCmd {
    /// A mod's details.
    Mod { name: String },
    /// The legend of the colours.
    Legenda,
    /// A mod's files.
    Files { name: String },
}

impl Default for ShowCmd {
    fn default() -> (r: Self)
        ensures
            r == ShowCmd::Legenda,
    {
        ShowCmd::Legenda
    }
}

} // verus!
