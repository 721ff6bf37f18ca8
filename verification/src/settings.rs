//! The mod manager's settings: where the game, the downloads and the
//! extracted mods are, how to run the game's tools, and how much to log.

use vstd::prelude::*;

use crate::commands::game::RunCmd;
use crate::errors::SettingErrors;
use crate::game::Game;
use crate::paths::{path_with_extension, with_extension};
use crate::ui::{cell, cell_views, Table, TableCell, TableView};
use crate::tag::Colour;

verus! {

/// The extension of the configuration file.
pub const CONFIG_EXTENTION: &'static str = "ron";

/// The environment variable naming the user's editor.
pub const EDITOR_ENV: &'static str = "EDITOR";

/// The most lines a selection list shows at once.
pub const MAX_PAGE_SIZE: usize = 50;

/// What `run` starts when no program is named.
#[derive(Copy, Clone, Debug, PartialEq, Eq, Structural)]
pub enum RunCmdKind {
    Game,
    Loader,
    Loot,
    XEdit,
}

impl From<RunCmdKind> for RunCmd {
    fn from(kind: RunCmdKind) -> (r: RunCmd) {
        match kind {
            RunCmdKind::Game => RunCmd::Game,
            RunCmdKind::Loader => RunCmd::Loader,
            RunCmdKind::Loot => RunCmd::Loot,
            RunCmdKind::XEdit => RunCmd::XEdit,
        }
    }
}

impl vstd::std_specs::convert::FromSpecImpl<RunCmdKind> for RunCmd {
    open spec fn obeys_from_spec() -> bool {
        true
    }

    open spec fn from_spec(kind: RunCmdKind) -> RunCmd {
        match kind {
            RunCmdKind::Game => RunCmd::Game,
            RunCmdKind::Loader => RunCmd::Loader,
            RunCmdKind::Loot => RunCmd::Loot,
            RunCmdKind::XEdit => RunCmd::XEdit,
        }
    }
}

/// How LOOT is installed: a Windows build in a directory, or the flatpak.
#[derive(Debug)]
pub enum LootType {
    Windows(String),
    FlatPack,
}

/// How much the mod manager logs.
#[derive(Copy, Clone, Debug, PartialEq, Eq, Structural)]
pub enum LogLevel {
    Error,
    Warn,
    Info,
    Debug,
    Trace,
}

impl Default for LogLevel {
    fn default() -> (r: Self)
        ensures
            r == LogLevel::Warn,
    {
        LogLevel::Warn
    }
}

/// The level for the number of `-v` flags given.
pub open spec fn level_of_verbosity(verbose: u8) -> LogLevel {
    if verbose == 0 {
        LogLevel::Info
    } else if verbose == 1 {
        LogLevel::Debug
    } else {
        LogLevel::Trace
    }
}

impl From<u8> for LogLevel {
    fn from(verbose: u8) -> (r: LogLevel) {
        if verbose == 0 {
            LogLevel::Info
        } else if verbose == 1 {
            LogLevel::Debug
        } else {
            LogLevel::Trace
        }
    }
}

impl vstd::std_specs::convert::FromSpecImpl<u8> for LogLevel {
    open spec fn obeys_from_spec() -> bool {
        true
    }

    open spec fn from_spec(verbose: u8) -> LogLevel {
        level_of_verbosity(verbose)
    }
}

impl LogLevel {
    /// The level of what is also written to the terminal: never less than
    /// the informational messages, which the program's output is made of.
    pub fn stdout_level(self) -> (r: LogLevel)
        ensures
            r == match self {
                LogLevel::Debug => LogLevel::Debug,
                LogLevel::Trace => LogLevel::Trace,
                _ => LogLevel::Info,
            },
    {
        match self {
            LogLevel::Error | LogLevel::Warn | LogLevel::Info => LogLevel::Info,
            LogLevel::Debug => LogLevel::Debug,
            LogLevel::Trace => LogLevel::Trace,
        }
    }
}

/// The abstract value of the settings.
pub struct SettingsView {
    pub game: Game,
    pub verbosity: LogLevel,
    pub cache_dir: Seq<char>,
    pub config_path: Seq<char>,
    pub log_path: Seq<char>,
    pub download_dir: Seq<char>,
    pub game_dir: Seq<char>,
    pub proton_dir: Option<Seq<char>>,
    pub compat_dir: Option<Seq<char>>,
    pub steam_dir: Option<Seq<char>>,
    pub loot: Option<Seq<char>>,
    pub loot_data_dir: Seq<char>,
    pub xedit_dir: Option<Seq<char>>,
    pub default_run: Option<RunCmdKind>,
    pub editor: Option<Seq<char>>,
}

/// The settings.
#[derive(Debug)]
pub struct Settings {
    game: Game,
    verbosity: LogLevel,
    cache_dir: String,
    config_path: String,
    log_path: String,
    download_dir: String,
    game_dir: String,
    proton_dir: Option<String>,
    compat_dir: Option<String>,
    steam_dir: Option<String>,
    loot: LootType,
    loot_data_dir: String,
    xedit_dir: Option<String>,
    default_run: Option<RunCmdKind>,
    editor: Option<String>,
}

/// The view of an optional string.
pub open spec fn opt_view(s: Option<String>) -> Option<Seq<char>> {
    match s {
        Some(t) => Some(t@),
        None => None,
    }
}

/// The view of how LOOT is installed: the directory of a Windows build.
pub open spec fn loot_view(l: LootType) -> Option<Seq<char>> {
    match l {
        LootType::Windows(d) => Some(d@),
        LootType::FlatPack => None,
    }
}

impl View for Settings {
    type V = SettingsView;

    closed spec fn view(&self) -> SettingsView {
        SettingsView {
            game: self.game,
            verbosity: self.verbosity,
            cache_dir: self.cache_dir@,
            config_path: self.config_path@,
            log_path: self.log_path@,
            download_dir: self.download_dir@,
            game_dir: self.game_dir@,
            proton_dir: opt_view(self.proton_dir),
            compat_dir: opt_view(self.compat_dir),
            steam_dir: opt_view(self.steam_dir),
            loot: loot_view(self.loot),
            loot_data_dir: self.loot_data_dir@,
            xedit_dir: opt_view(self.xedit_dir),
            default_run: self.default_run,
            editor: opt_view(self.editor),
        }
    }
}

/// A copy of an optional string.
fn copy_opt(s: &Option<String>) -> (r: Option<String>)
    ensures
        opt_view(r) == opt_view(*s),
{
    match s {
        Some(t) => Some(t.clone()),
        None => None,
    }
}

/// A copy of how LOOT is installed.
fn copy_loot(l: &LootType) -> (r: LootType)
    ensures
        loot_view(r) == loot_view(*l),
{
    match l {
        LootType::Windows(d) => LootType::Windows(d.clone()),
        LootType::FlatPack => LootType::FlatPack,
    }
}

/// The name of the configuration file of the mod manager for `game`.
pub fn config_file_name(game: Game) -> (r: String)
    ensures
        r@ == path_with_extension("starmod"@, "ron"@),
{
    proof {
        reveal_strlit("ron");
    }
    with_extension(game.mod_manager_name(), CONFIG_EXTENTION)
}

/// How many lines a selection list shows: the terminal's height, at most
/// fifty, or fifty when the height is unknown.
pub fn default_page_size(height: Option<usize>) -> (r: usize)
    ensures
        r == match height {
            Some(h) => if h > 50 {
                50
            } else {
                h
            },
            None => 50,
        },
{
    let h = match height {
        Some(h) => h,
        None => MAX_PAGE_SIZE,
    };
    if h > MAX_PAGE_SIZE {
        MAX_PAGE_SIZE
    } else {
        h
    }
}

/// The text of an optional setting, `<Unknown>` when it is not set.
pub open spec fn or_unknown(s: Option<Seq<char>>) -> Seq<char> {
    match s {
        Some(t) => t,
        None => "<Unknown>"@,
    }
}

/// The rows of the settings table.
pub open spec fn settings_rows(s: SettingsView) -> Seq<Seq<(Seq<char>, Colour)>> {
    seq![
        seq![("Config File"@, Colour::Reset), (s.config_path, Colour::Reset)],
        seq![("Cache Dir"@, Colour::Reset), (s.cache_dir, Colour::Reset)],
        seq![("Download Dir"@, Colour::Reset), (s.download_dir, Colour::Reset)],
        seq![("Game Dir"@, Colour::Reset), (s.game_dir, Colour::Reset)],
        seq![("Steam Proton Dir"@, Colour::Reset), (or_unknown(s.proton_dir), Colour::Reset)],
        seq![("Xedit Dir"@, Colour::Reset), (or_unknown(s.xedit_dir), Colour::Reset)],
        seq![("User Dir"@, Colour::Reset), (or_unknown(s.compat_dir), Colour::Reset)],
        seq![("Editor"@, Colour::Reset), (or_unknown(s.editor), Colour::Reset)],
    ]
}

/// A row of two plain cells.
fn pair_row(a: &str, b: String) -> (r: Vec<TableCell>)
    ensures
        cell_views(r@) == seq![(a@, Colour::Reset), (b@, Colour::Reset)],
{
    let mut r: Vec<TableCell> = Vec::new();
    r.push(cell(String::from_str(a), Colour::Reset));
    r.push(cell(b, Colour::Reset));
    assert(cell_views(r@) =~= seq![(a@, Colour::Reset), (b@, Colour::Reset)]);
    r
}

/// The text of an optional setting, `<Unknown>` when it is not set.
fn text_or_unknown(s: &Option<String>) -> (r: String)
    ensures
        r@ == or_unknown(opt_view(*s)),
{
    match s {
        Some(t) => t.clone(),
        None => String::from_str("<Unknown>"),
    }
}

impl Settings {
    /// Fresh settings for `game`: the configuration file at `config_path`,
    /// the log beside it, the given download, cache and LOOT data
    /// directories, editor and Steam directory, LOOT as a flatpak, and
    /// nothing else set.
    #[allow(clippy::too_many_arguments)]
    pub fn create(
        game: Game,
        verbosity: LogLevel,
        config_path: String,
        download_dir: String,
        cache_dir: String,
        editor: Option<String>,
        steam_dir: Option<String>,
        loot_data_dir: String,
    ) -> (r: Settings)
        ensures
            r@ == (SettingsView {
                game,
                verbosity,
                cache_dir: cache_dir@,
                log_path: path_with_extension(config_path@, "log"@),
                config_path: config_path@,
                download_dir: download_dir@,
                game_dir: Seq::empty(),
                proton_dir: None,
                compat_dir: None,
                steam_dir: opt_view(steam_dir),
                loot: None,
                loot_data_dir: loot_data_dir@,
                xedit_dir: None,
                default_run: None,
                editor: opt_view(editor),
            }),
    {
        proof {
            reveal_strlit("log");
        }
        let log_path = with_extension(config_path.as_str(), "log");
        Settings {
            game,
            verbosity,
            cache_dir,
            config_path,
            log_path,
            download_dir,
            game_dir: String::new(),
            proton_dir: None,
            compat_dir: None,
            steam_dir,
            loot: LootType::FlatPack,
            loot_data_dir,
            xedit_dir: None,
            default_run: None,
            editor,
        }
    }

    /// The settings read from the configuration file, if it could be
    /// opened, with the game and verbosity of this run; else `created`.
    pub fn read_config(created: Settings, read: Option<Settings>, verbosity: LogLevel) -> (r: Settings)
        ensures
            match read {
                Some(s) => r@ == (SettingsView { game: created@.game, verbosity, ..s@ }),
                None => r@ == created@,
            },
    {
        match read {
            Some(s) => Settings { game: created.game, verbosity, ..s },
            None => created,
        }
    }

    /// The game.
    pub fn game(&self) -> (r: Game)
        ensures
            r == self@.game,
    {
        self.game
    }

    /// The command name of the mod manager.
    pub fn cmd_name(&self) -> (r: &'static str)
        ensures
            r@ == "starmod"@,
    {
        self.game.mod_manager_name()
    }

    /// The verbosity.
    pub fn verbosity(&self) -> (r: LogLevel)
        ensures
            r == self@.verbosity,
    {
        self.verbosity
    }

    /// The configuration file.
    pub fn config_file(&self) -> (r: &str)
        ensures
            r@ == self@.config_path,
    {
        self.config_path.as_str()
    }

    /// The log file.
    pub fn log_file(&self) -> (r: &str)
        ensures
            r@ == self@.log_path,
    {
        self.log_path.as_str()
    }

    /// The directory of the downloaded archives.
    pub fn download_dir(&self) -> (r: &str)
        ensures
            r@ == self@.download_dir,
    {
        self.download_dir.as_str()
    }

    /// The directory of the extracted mods.
    pub fn cache_dir(&self) -> (r: &str)
        ensures
            r@ == self@.cache_dir,
    {
        self.cache_dir.as_str()
    }

    /// The game's directory.
    pub fn game_dir(&self) -> (r: &str)
        ensures
            r@ == self@.game_dir,
    {
        self.game_dir.as_str()
    }

    /// Proton's directory.
    pub fn proton_dir(&self) -> (r: Option<&str>)
        ensures
            r matches Some(t) ==> self@.proton_dir == Some(t@),
            r is None ==> self@.proton_dir is None,
    {
        match &self.proton_dir {
            Some(d) => Some(d.as_str()),
            None => None,
        }
    }

    /// The game's Proton prefix directory.
    pub fn compat_dir(&self) -> (r: Option<&str>)
        ensures
            r matches Some(t) ==> self@.compat_dir == Some(t@),
            r is None ==> self@.compat_dir is None,
    {
        match &self.compat_dir {
            Some(d) => Some(d.as_str()),
            None => None,
        }
    }

    /// Steam's directory.
    pub fn steam_dir(&self) -> (r: Option<&str>)
        ensures
            r matches Some(t) ==> self@.steam_dir == Some(t@),
            r is None ==> self@.steam_dir is None,
    {
        match &self.steam_dir {
            Some(d) => Some(d.as_str()),
            None => None,
        }
    }

    /// How LOOT is installed.
    pub fn loot(&self) -> (r: &LootType)
        ensures
            loot_view(*r) == self@.loot,
    {
        &self.loot
    }

    /// LOOT's data directory.
    pub fn loot_data_dir(&self) -> (r: &str)
        ensures
            r@ == self@.loot_data_dir,
    {
        self.loot_data_dir.as_str()
    }

    /// xEdit's directory.
    pub fn xedit_dir(&self) -> (r: Option<&str>)
        ensures
            r matches Some(t) ==> self@.xedit_dir == Some(t@),
            r is None ==> self@.xedit_dir is None,
    {
        match &self.xedit_dir {
            Some(d) => Some(d.as_str()),
            None => None,
        }
    }

    /// What `run` starts when no program is named.
    pub fn default_run(&self) -> (r: Option<RunCmdKind>)
        ensures
            r == self@.default_run,
    {
        self.default_run
    }

    /// The configured editor, if one is set.
    pub fn configured_editor(&self) -> (r: Option<&str>)
        ensures
            r matches Some(t) ==> self@.editor == Some(t@),
            r is None ==> self@.editor is None,
    {
        match &self.editor {
            Some(e) => Some(e.as_str()),
            None => None,
        }
    }

    /// The editor to open files with: the configured one, else `xdg-open`.
    pub fn editor(&self) -> (r: String)
        ensures
            r@ == match self@.editor {
                Some(e) => e,
                None => "xdg-open"@,
            },
    {
        match &self.editor {
            Some(e) => e.clone(),
            None => String::from_str("xdg-open"),
        }
    }

    /// The directories an update of the configuration would use: the
    /// given download, game and cache directories, else the current ones.
    pub fn resolve_dirs(
        &self,
        download_dir: &Option<String>,
        game_dir: &Option<String>,
        cache_dir: &Option<String>,
    ) -> (r: (String, String, String))
        ensures
            r.0@ == match opt_view(*download_dir) {
                Some(d) => d,
                None => self@.download_dir,
            },
            r.1@ == match opt_view(*game_dir) {
                Some(d) => d,
                None => self@.game_dir,
            },
            r.2@ == match opt_view(*cache_dir) {
                Some(d) => d,
                None => self@.cache_dir,
            },
    {
        let d = match download_dir {
            Some(d) => d.clone(),
            None => self.download_dir.clone(),
        };
        let g = match game_dir {
            Some(d) => d.clone(),
            None => self.game_dir.clone(),
        };
        let c = match cache_dir {
            Some(d) => d.clone(),
            None => self.cache_dir.clone(),
        };
        (d, g, c)
    }

    /// The settings updated with the given values, each replacing the
    /// current one where given. The directories chosen by `resolve_dirs`
    /// must be readable: `cache_ok`, `download_ok` and `game_ok` say
    /// whether they are, and the first that is not gives the error. Where
    /// the game directory is not there, the game is looked for with
    /// `Game::find_game` (which finds none).
    #[allow(clippy::too_many_arguments)]
    pub fn create_config(
        &self,
        download_dir: Option<String>,
        game_dir: Option<String>,
        cache_dir: Option<String>,
        proton_dir: Option<String>,
        compat_dir: Option<String>,
        editor: Option<String>,
        default_run: Option<RunCmdKind>,
        xedit_dir: Option<String>,
        loot_type: Option<LootType>,
        loot_data_dir: Option<String>,
        cache_ok: bool,
        download_ok: bool,
        game_ok: bool,
    ) -> (r: Result<Settings, SettingErrors>)
        ensures
            !cache_ok ==> (r matches Err(SettingErrors::NoCacheDirFound(n)) && n@ == "starmod"@),
            cache_ok && !download_ok ==> (r matches Err(SettingErrors::NoDownloadDirFound(n)) && n@
                == "starmod"@),
            cache_ok && download_ok && !game_ok ==> (r matches Err(SettingErrors::NoGameDirFound(g, n))
                && g@ == "Starfield"@ && n@ == "starmod"@),
            cache_ok && download_ok && game_ok ==> (r matches Ok(s) && s@ == (SettingsView {
                download_dir: match opt_view(download_dir) {
                    Some(d) => d,
                    None => self@.download_dir,
                },
                game_dir: match opt_view(game_dir) {
                    Some(d) => d,
                    None => self@.game_dir,
                },
                cache_dir: match opt_view(cache_dir) {
                    Some(d) => d,
                    None => self@.cache_dir,
                },
                proton_dir: match opt_view(proton_dir) {
                    Some(d) => Some(d),
                    None => self@.proton_dir,
                },
                compat_dir: match opt_view(compat_dir) {
                    Some(d) => Some(d),
                    None => self@.compat_dir,
                },
                editor: match opt_view(editor) {
                    Some(d) => Some(d),
                    None => self@.editor,
                },
                default_run: match default_run {
                    Some(d) => Some(d),
                    None => self@.default_run,
                },
                xedit_dir: match opt_view(xedit_dir) {
                    Some(d) => Some(d),
                    None => self@.xedit_dir,
                },
                loot: match loot_type {
                    Some(l) => loot_view(l),
                    None => self@.loot,
                },
                loot_data_dir: match opt_view(loot_data_dir) {
                    Some(d) => d,
                    None => self@.loot_data_dir,
                },
                ..self@
            })),
    {
        let (d, g, c) = self.resolve_dirs(&download_dir, &game_dir, &cache_dir);
        let g = if game_ok {
            g
        } else {
            match self.game.find_game() {
                Some(found) => found,
                None => g,
            }
        };
        if !cache_ok {
            return Err(SettingErrors::NoCacheDirFound(String::from_str(self.game.mod_manager_name())));
        }
        if !download_ok {
            return Err(
                SettingErrors::NoDownloadDirFound(String::from_str(self.game.mod_manager_name())),
            );
        }
        if !game_ok {
            return Err(
                SettingErrors::NoGameDirFound(
                    String::from_str(self.game.game_name()),
                    String::from_str(self.game.mod_manager_name()),
                ),
            );
        }
        let proton_dir = match proton_dir {
            Some(p) => Some(p),
            None => copy_opt(&self.proton_dir),
        };
        let compat_dir = match compat_dir {
            Some(p) => Some(p),
            None => copy_opt(&self.compat_dir),
        };
        let editor = match editor {
            Some(p) => Some(p),
            None => copy_opt(&self.editor),
        };
        let default_run = match default_run {
            Some(p) => Some(p),
            None => self.default_run,
        };
        let xedit_dir = match xedit_dir {
            Some(p) => Some(p),
            None => copy_opt(&self.xedit_dir),
        };
        let loot_data_dir = match loot_data_dir {
            Some(p) => p,
            None => self.loot_data_dir.clone(),
        };
        let loot = match loot_type {
            Some(l) => l,
            None => copy_loot(&self.loot),
        };
        Ok(
            Settings {
                game: self.game,
                verbosity: self.verbosity,
                cache_dir: c,
                config_path: self.config_path.clone(),
                log_path: self.log_path.clone(),
                download_dir: d,
                game_dir: g,
                proton_dir,
                compat_dir,
                steam_dir: copy_opt(&self.steam_dir),
                loot,
                loot_data_dir,
                xedit_dir,
                default_run,
                editor,
            },
        )
    }

    /// The table of the settings, as they are shown to the user.
    pub fn table(&self) -> (r: Table)
        ensures
            r@ == (TableView { headers: seq!["Setting"@, "Value"@], rows: settings_rows(self@) }),
    {
        let mut headers: Vec<String> = Vec::new();
        headers.push(String::from_str("Setting"));
        headers.push(String::from_str("Value"));
        let mut rows: Vec<Vec<TableCell>> = Vec::new();
        rows.push(pair_row("Config File", self.config_path.clone()));
        rows.push(pair_row("Cache Dir", self.cache_dir.clone()));
        rows.push(pair_row("Download Dir", self.download_dir.clone()));
        rows.push(pair_row("Game Dir", self.game_dir.clone()));
        rows.push(pair_row("Steam Proton Dir", text_or_unknown(&self.proton_dir)));
        rows.push(pair_row("Xedit Dir", text_or_unknown(&self.xedit_dir)));
        rows.push(pair_row("User Dir", text_or_unknown(&self.compat_dir)));
        rows.push(pair_row("Editor", text_or_unknown(&self.editor)));
        let r = Table { headers, rows };
        assert(r@.headers =~= seq!["Setting"@, "Value"@]);
        assert(r@.rows =~= settings_rows(self@));
        r
    }
}

} // verus!
