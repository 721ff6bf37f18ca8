//! The commands on the settings.

use vstd::prelude::*;

use crate::settings::RunCmdKind;

verus! {

/// Commands on the settings.
#[derive(Debug)]
pub enum ConfigCmd {
    /// Show the settings.
    Show,
    /// Update the settings with the values given.
    Update {
        download_dir: Option<String>,
        game_dir: Option<String>,
        cache_dir: Option<String>,
        proton_dir: Option<String>,
        compat_dir: Option<String>,
        editor: Option<String>,
        default_run: Option<RunCmdKind>,
        xedit_dir: Option<String>,
        loot_data_dir: Option<String>,
    },
}

impl Default for ConfigCmd {
    fn default() -> (r: Self)
        ensures
            r == ConfigCmd::Show,
    {
        ConfigCmd::Show
    }
}

} // verus!
