//! Running the game and its tools through Proton, and editing the game's
//! configuration files.

use vstd::prelude::*;

use crate::errors::SettingErrors;
use crate::game::Game;
use crate::paths::{file_name, join, path_file_name, path_join};
use crate::settings::{RunCmdKind, Settings, SettingsView};
use crate::text::{decimal, decimal_string, str_eq};

verus! {

/// Game related commands.
#[derive(Debug)]
pub enum GameCmd {
    /// Run a program; with none named, the configured default or the game.
    Run { cmd: Option<RunCmd> },
    /// Edit the game's configuration files, or the one named.
    EditConfig { config_name: Option<String> },
}

impl Default for GameCmd {
    fn default() -> (r: Self)
        ensures
            r == (GameCmd::Run { cmd: Some(RunCmd::Game) }),
    {
        GameCmd::Run { cmd: Some(RunCmd::default()) }
    }
}

/// A program to run.
#[derive(Copy, Clone, Debug, PartialEq, Eq, Structural)]
pub enum RunCmd {
    Game,
    Loader,
    Loot,
    XEdit,
}

impl Default for RunCmd {
    fn default() -> (r: Self)
        ensures
            r == RunCmd::Game,
    {
        RunCmd::Game
    }
}

/// The program a `run` command starts: the one named, else the
/// configured default, else the game.
pub open spec fn run_target_spec(cmd: Option<RunCmd>, default_run: Option<RunCmdKind>) -> RunCmd {
    match cmd {
        Some(c) => c,
        None => match default_run {
            Some(RunCmdKind::Game) => RunCmd::Game,
            Some(RunCmdKind::Loader) => RunCmd::Loader,
            Some(RunCmdKind::Loot) => RunCmd::Loot,
            Some(RunCmdKind::XEdit) => RunCmd::XEdit,
            None => RunCmd::Game,
        },
    }
}

impl GameCmd {
    /// The program a `run` command starts.
    pub fn run_target(cmd: Option<RunCmd>, default_run: Option<RunCmdKind>) -> (r: RunCmd)
        ensures
            r == run_target_spec(cmd, default_run),
    {
        match cmd {
            Some(c) => c,
            None => match default_run {
                Some(k) => RunCmd::from(k),
                None => RunCmd::default(),
            },
        }
    }
}

/// How to run a Windows program through Proton: `proton_exe run
/// executable`, with the game's prefix and Steam's directory in the
/// environment.
#[derive(Debug)]
pub struct ProtonRun {
    pub proton_exe: String,
    pub executable: String,
    pub compat_dir: String,
    pub steam_dir: String,
}

/// How to carry out a run command.
#[derive(Debug)]
pub enum RunPlan {
    /// Run a Windows program through Proton.
    Proton(ProtonRun),
    /// Run `flatpak` with these arguments.
    Flatpak(Vec<String>),
    /// The program's location is not configured.
    Unconfigured,
}

/// The game's prefix directory: the configured one, with the game's Steam
/// id appended unless it already ends in it.
pub open spec fn prefix_dir(compat: Seq<char>) -> Seq<char> {
    if path_file_name(compat) == Some(decimal(1716740nat)) {
        compat
    } else {
        path_join(compat, decimal(1716740nat))
    }
}

/// The prefix handed to Proton is the game's own prefix: a configured
/// directory whose last component is the game's Steam id (1716740) is used
/// as it is, and any other gets the id appended as a new last component.
pub proof fn lemma_prefix_dir(compat: Seq<char>)
    ensures
        path_file_name(compat) == Some("1716740"@) ==> prefix_dir(compat) == compat,
        path_file_name(compat) != Some("1716740"@) ==> prefix_dir(compat) == path_join(compat, "1716740"@),
{
    reveal_strlit("1716740");
    assert(decimal(1nat) == seq!['1']);
    assert(decimal(17nat) == seq!['1', '7']);
    assert(decimal(171nat) == seq!['1', '7', '1']);
    assert(decimal(1716nat) == seq!['1', '7', '1', '6']);
    assert(decimal(17167nat) == seq!['1', '7', '1', '6', '7']);
    assert(decimal(171674nat) == seq!['1', '7', '1', '6', '7', '4']);
    assert(decimal(1716740nat) == seq!['1', '7', '1', '6', '7', '4', '0']);
    assert(decimal(1716740nat) =~= "1716740"@);
}

/// The executable a program runs from, when its directory is configured.
pub open spec fn executable_of(s: SettingsView, cmd: RunCmd) -> Option<Seq<char>> {
    match cmd {
        RunCmd::Game => Some(path_join(s.game_dir, "Starfield.exe"@)),
        RunCmd::Loader => Some(path_join(s.game_dir, "sfse_loader.exe"@)),
        RunCmd::Loot => match s.loot {
            Some(d) => Some(path_join(d, "LOOT.exe"@)),
            None => None,
        },
        RunCmd::XEdit => match s.xedit_dir {
            Some(d) => Some(path_join(d, "SF1Edit64.exe"@)),
            None => None,
        },
    }
}

/// The arguments of the LOOT flatpak for the game.
pub open spec fn flatpak_args_spec(s: SettingsView) -> Seq<Seq<char>> {
    seq![
        "run"@,
        "io.github.loot.loot"@,
        "--game"@,
        "starfield"@,
        "--game-path"@,
        s.game_dir,
        "--loot-data-path"@,
        s.loot_data_dir,
    ]
}

impl RunCmd {
    /// How to run the program through Proton. The Proton, prefix and
    /// Steam directories must be configured, in that order, else the error
    /// names the first missing; `None` when the program's own location is
    /// not configured.
    pub fn run_executable(settings: &Settings, cmd: RunCmd) -> (r: Result<Option<ProtonRun>, SettingErrors>)
        ensures
            settings@.proton_dir is None ==> (r matches Err(SettingErrors::NoProtonDirFound(n)) && n@
                == "starmod"@),
            settings@.proton_dir is Some && settings@.compat_dir is None ==> (r matches Err(
                SettingErrors::NoCompatDirFound(n),
            ) && n@ == "starmod"@),
            settings@.proton_dir is Some && settings@.compat_dir is Some && settings@.steam_dir is None
                ==> (r matches Err(SettingErrors::NoSteamDirFound(n)) && n@ == "starmod"@),
            settings@.proton_dir matches Some(p) ==> settings@.compat_dir matches Some(c)
                ==> settings@.steam_dir matches Some(st) ==> match executable_of(settings@, cmd) {
                None => r matches Ok(None),
                Some(e) => r matches Ok(Some(run)) && run.proton_exe@ == path_join(p, "proton"@)
                    && run.executable@ == e && run.compat_dir@ == prefix_dir(c) && run.steam_dir@
                    == st,
            },
    {
        let proton_dir = match settings.proton_dir() {
            Some(p) => p,
            None => {
                return Err(SettingErrors::NoProtonDirFound(String::from_str(settings.cmd_name())));
            },
        };
        let compat_dir = match settings.compat_dir() {
            Some(c) => c,
            None => {
                return Err(SettingErrors::NoCompatDirFound(String::from_str(settings.cmd_name())));
            },
        };
        let steam_dir = match settings.steam_dir() {
            Some(s) => s,
            None => {
                return Err(SettingErrors::NoSteamDirFound(String::from_str(settings.cmd_name())));
            },
        };
        let game = settings.game();
        let id = decimal_string(game.steam_id() as u64);
        let same = match file_name(compat_dir) {
            Some(n) => str_eq(n.as_str(), id.as_str()),
            None => false,
        };
        let compat = if same {
            String::from_str(compat_dir)
        } else {
            join(compat_dir, id.as_str())
        };
        let proton_exe = join(proton_dir, "proton");
        let executable = match cmd {
            RunCmd::Game => Some(join(settings.game_dir(), game.exe_name())),
            RunCmd::Loader => Some(join(settings.game_dir(), game.loader_name())),
            RunCmd::Loot => match settings.loot() {
                crate::settings::LootType::Windows(d) => Some(join(d.as_str(), game.loot_name())),
                crate::settings::LootType::FlatPack => None,
            },
            RunCmd::XEdit => match settings.xedit_dir() {
                Some(d) => Some(join(d, game.xedit_name())),
                None => None,
            },
        };
        match executable {
            Some(e) => Ok(
                Some(
                    ProtonRun {
                        proton_exe,
                        executable: e,
                        compat_dir: compat,
                        steam_dir: String::from_str(steam_dir),
                    },
                ),
            ),
            None => Ok(None),
        }
    }

    /// The arguments of the LOOT flatpak for the game.
    pub fn run_flatpack_loot(settings: &Settings) -> (r: Vec<String>)
        ensures
            r@.map_values(|a: String| a@) == flatpak_args_spec(settings@),
    {
        let mut r: Vec<String> = Vec::new();
        r.push(String::from_str("run"));
        r.push(String::from_str("io.github.loot.loot"));
        r.push(String::from_str("--game"));
        r.push(String::from_str(settings.game().nexus_game_name()));
        r.push(String::from_str("--game-path"));
        r.push(String::from_str(settings.game_dir()));
        r.push(String::from_str("--loot-data-path"));
        r.push(String::from_str(settings.loot_data_dir()));
        assert(r@.map_values(|a: String| a@) =~= flatpak_args_spec(settings@));
        r
    }

    /// How to carry out the command: LOOT runs as a flatpak unless a
    /// Windows build is configured; everything else runs through Proton.
    pub fn execute(self, settings: &Settings) -> (r: Result<RunPlan, SettingErrors>)
        ensures
            self == RunCmd::Loot && settings@.loot is None ==> (r matches Ok(RunPlan::Flatpak(a))
                && a@.map_values(|x: String| x@) == flatpak_args_spec(settings@)),
            !(self == RunCmd::Loot && settings@.loot is None) ==> {
                &&& settings@.proton_dir is None ==> (r matches Err(SettingErrors::NoProtonDirFound(n))
                    && n@ == "starmod"@)
                &&& settings@.proton_dir is Some && settings@.compat_dir is None ==> (r matches Err(
                    SettingErrors::NoCompatDirFound(n),
                ) && n@ == "starmod"@)
                &&& settings@.proton_dir is Some && settings@.compat_dir is Some
                    && settings@.steam_dir is None ==> (r matches Err(SettingErrors::NoSteamDirFound(n))
                    && n@ == "starmod"@)
                &&& settings@.proton_dir matches Some(p) ==> settings@.compat_dir matches Some(c)
                    ==> settings@.steam_dir matches Some(st) ==> match executable_of(settings@, self) {
                    None => r matches Ok(RunPlan::Unconfigured),
                    Some(e) => r matches Ok(RunPlan::Proton(run)) && run.proton_exe@ == path_join(
                        p,
                        "proton"@,
                    ) && run.executable@ == e && run.compat_dir@ == prefix_dir(c) && run.steam_dir@
                        == st,
                }
            },
    {
        let flatpak = match settings.loot() {
            crate::settings::LootType::FlatPack => true,
            crate::settings::LootType::Windows(_) => false,
        };
        if self == RunCmd::Loot && flatpak {
            return Ok(RunPlan::Flatpak(RunCmd::run_flatpack_loot(settings)));
        }
        match RunCmd::run_executable(settings, self) {
            Ok(Some(run)) => Ok(RunPlan::Proton(run)),
            Ok(None) => Ok(RunPlan::Unconfigured),
            Err(e) => Err(e),
        }
    }
}

impl ProtonRun {
    /// The run, once it is known whether its executable exists; the error
    /// names a missing executable.
    pub fn checked(self, exists: bool) -> (r: Result<ProtonRun, SettingErrors>)
        ensures
            exists ==> (r matches Ok(x) && x == self),
            !exists ==> (r matches Err(SettingErrors::ExecutableNotFound(p)) && p@ == self.executable@),
    {
        if exists {
            Ok(self)
        } else {
            Err(SettingErrors::ExecutableNotFound(self.executable))
        }
    }
}

/// The directory of the game's configuration files: its documents in the
/// game's Proton prefix.
pub fn game_config_dir(settings: &Settings) -> (r: String)
    requires
        settings@.compat_dir is Some,
    ensures
        r@ == path_join(
            path_join(settings@.compat_dir->0, decimal(1716740nat)),
            "pfx/drive_c/users/steamuser/My Documents/My Games/Starfield"@,
        ),
{
    let game = settings.game();
    let compat = match settings.compat_dir() {
        Some(c) => c,
        None => "",
    };
    let id = decimal_string(game.steam_id() as u64);
    let prefix = join(compat, id.as_str());
    join(prefix.as_str(), game.my_game_dir())
}

/// `name` is one of the game's configuration files.
pub fn is_ini_file(game: Game, name: &str) -> (r: bool)
    ensures
        r == (name@ == "Starfield.ini"@ || name@ == "StarfieldPrefs.ini"@ || name@ == "StarfieldCustom.ini"@),
{
    let inis = game.ini_files();
    str_eq(name, inis[0]) || str_eq(name, inis[1]) || str_eq(name, inis[2])
}

/// The configuration files to edit: the one named, in `dir`; else those
/// found there.
pub fn edit_game_config_files(dir: &str, config_name: &Option<String>, found: Vec<String>) -> (r: Vec<String>)
    ensures
        match config_name {
            Some(n) => r@.len() == 1 && r@[0]@ == path_join(dir@, n@),
            None => r@ == found@,
        },
{
    match config_name {
        Some(n) => {
            let mut r: Vec<String> = Vec::new();
            r.push(join(dir, n.as_str()));
            r
        },
        None => found,
    }
}

} // verus!
