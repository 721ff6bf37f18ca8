//! The commands on the game's plugins.

use vstd::prelude::*;

verus! {

/// Commands on the game's plugins.
#[derive(Copy, Clone, Debug, PartialEq, Eq, Structural)]
pub enum PluginCmd {
    /// Show the plugins.
    Show,
    /// Sort the plugins' load order.
    Sort,
}

impl Default for PluginCmd {
    fn default() -> (r: Self)
        ensures
            r == PluginCmd::Show,
    {
        PluginCmd::Show
    }
}

} // verus!
