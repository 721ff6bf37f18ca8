//! The games the mod manager knows, with their fixed names and locations.

use vstd::prelude::*;

verus! {

/// A supported game.
#[derive(Copy, Clone, Debug, PartialEq, Eq, Structural)]
pub enum Game {
    Starfield,
}

impl Default for Game {
    fn default() -> (g: Self)
        ensures
            g == Game::Starfield,
    {
        Game::Starfield
    }
}

impl Game {
    /// The command name of the mod manager for this game.
    pub fn mod_manager_name(&self) -> (r: &'static str)
        ensures
            r@ == "starmod"@,
    {
        match self {
            Game::Starfield => "starmod",
        }
    }

    /// The name of the game.
    pub fn game_name(&self) -> (r: &'static str)
        ensures
            r@ == "Starfield"@,
    {
        match self {
            Game::Starfield => "Starfield",
        }
    }

    /// The name of the game on Nexus Mods.
    pub fn nexus_game_name(&self) -> (r: &'static str)
        ensures
            r@ == "starfield"@,
    {
        match self {
            Game::Starfield => "starfield",
        }
    }

    /// The Steam application id of the game.
    pub fn steam_id(&self) -> (r: usize)
        ensures
            r == 1716740,
    {
        match self {
            Game::Starfield => 1716740,
        }
    }

    /// The file name of the game's executable.
    pub fn exe_name(&self) -> (r: &'static str)
        ensures
            r@ == "Starfield.exe"@,
    {
        match self {
            Game::Starfield => "Starfield.exe",
        }
    }

    /// The file name of the script extender's loader.
    pub fn loader_name(&self) -> (r: &'static str)
        ensures
            r@ == "sfse_loader.exe"@,
    {
        match self {
            Game::Starfield => "sfse_loader.exe",
        }
    }

    /// The game's configuration files.
    pub fn ini_files(&self) -> (r: Vec<&'static str>)
        ensures
            r@.len() == 3,
            r@[0]@ == "Starfield.ini"@,
            r@[1]@ == "StarfieldPrefs.ini"@,
            r@[2]@ == "StarfieldCustom.ini"@,
    {
        match self {
            Game::Starfield => vec!["Starfield.ini", "StarfieldPrefs.ini", "StarfieldCustom.ini"],
        }
    }

    /// The executable of LOOT, the load-order tool, in its directory.
    pub fn loot_name(&self) -> (r: &'static str)
        ensures
            r@ == "LOOT.exe"@,
    {
        match self {
            Game::Starfield => "LOOT.exe",
        }
    }

    /// The executable of the game's xEdit, the plugin editor, in its directory.
    pub fn xedit_name(&self) -> (r: &'static str)
        ensures
            r@ == "SF1Edit64.exe"@,
    {
        match self {
            Game::Starfield => "SF1Edit64.exe",
        }
    }

    /// Where the game keeps its documents, relative to the Proton prefix.
    pub fn my_game_dir(&self) -> (r: &'static str)
        ensures
            r@ == "pfx/drive_c/users/steamuser/My Documents/My Games/Starfield"@,
    {
        match self {
            Game::Starfield => "pfx/drive_c/users/steamuser/My Documents/My Games/Starfield",
        }
    }

    /// The game's installation directory, when it can be found; no search
    /// is made, so none is found.
    pub fn find_game(&self) -> (r: Option<String>)
        ensures
            r is None,
    {
        None
    }

    /// The Steam library directories that were found; no search is made,
    /// so the list is empty.
    pub fn find_steam_dirs() -> (r: Vec<String>)
        ensures
            r@.len() == 0,
    {
        Vec::new()
    }
}

} // verus!
