use starmod::commands::game::{edit_game_config_files, game_config_dir, is_ini_file, GameCmd, RunCmd, RunPlan};
use starmod::decompress::{path_result, DecompressError, SupportedArchives};
use starmod::dmodman::{DmodMan, UpdateStatus};
use starmod::errors::{DownloadError, GameErrors, ModErrors, SettingErrors};
use starmod::game::Game;
use starmod::manifest::install_file::InstallFile;
use starmod::manifest::Manifest;
use starmod::mods::ModKind;
use starmod::settings::{config_file_name, default_page_size, LogLevel, LootType, RunCmdKind, Settings};
use starmod::tag::Colour;
use starmod::ui::list::{ArchiveListBuilder, FileListBuilder, ModListBuilder};
use starmod::ui::{FindSelectBuilder, ListBuilder, Table};

fn cells(t: &Table) -> Vec<Vec<(String, Colour)>> {
    t.rows.iter().map(|r| r.iter().map(|c| (c.text.clone(), c.colour)).collect()).collect()
}

fn c(text: &str, colour: Colour) -> (String, Colour) {
    (text.to_string(), colour)
}

fn base_settings() -> Settings {
    Settings::create(
        Game::Starfield,
        LogLevel::Warn,
        "/home/u/.config/starmod/starmod.ron".to_string(),
        "/home/u/Downloads".to_string(),
        "/home/u/.cache/starmod".to_string(),
        None,
        Some("/home/u/.steam".to_string()),
        "/home/u/.loot".to_string(),
    )
}

fn configured(proton: bool, compat: bool, loot: Option<LootType>) -> Settings {
    base_settings()
        .create_config(
            None,
            Some("/games/Starfield".to_string()),
            None,
            if proton { Some("/proton".to_string()) } else { None },
            if compat { Some("/compat".to_string()) } else { None },
            None,
            None,
            Some("/xedit".to_string()),
            loot,
            None,
            true,
            true,
            true,
        )
        .unwrap()
}

#[test]
fn fresh_settings() {
    let s = base_settings();
    assert_eq!(s.log_file(), "/home/u/.config/starmod/starmod.log");
    assert_eq!(s.cmd_name(), "starmod");
    assert_eq!(s.game_dir(), "");
    assert_eq!(s.proton_dir(), None);
    assert_eq!(s.editor(), "xdg-open");
    assert!(matches!(s.loot(), LootType::FlatPack));
    assert_eq!(config_file_name(Game::Starfield), "starmod.ron");
}

#[test]
fn reading_a_config_keeps_this_run() {
    let created = base_settings();
    let read = configured(true, true, None);
    let s = Settings::read_config(created, Some(read), LogLevel::Trace);
    assert_eq!(s.verbosity(), LogLevel::Trace);
    assert_eq!(s.game_dir(), "/games/Starfield");
    let t = Settings::read_config(base_settings(), None, LogLevel::Info);
    assert_eq!(t.verbosity(), LogLevel::Warn);
}

#[test]
fn update_config_errors_in_order() {
    let s = base_settings();
    let e = s
        .create_config(None, None, None, None, None, None, None, None, None, None, false, false, false)
        .unwrap_err();
    assert!(matches!(e, SettingErrors::NoCacheDirFound(ref n) if n == "starmod"));
    let e = s
        .create_config(None, None, None, None, None, None, None, None, None, None, true, false, false)
        .unwrap_err();
    assert!(matches!(e, SettingErrors::NoDownloadDirFound(_)));
    let e = s
        .create_config(None, None, None, None, None, None, None, None, None, None, true, true, false)
        .unwrap_err();
    assert_eq!(
        e.message(),
        "The game directory for Starfield cannot be found, Please run 'starmod update-config' and provide manually."
    );
}

#[test]
fn update_config_replaces_given_values() {
    let s = configured(true, false, None)
        .create_config(
            Some("/dl".to_string()),
            None,
            None,
            None,
            Some("/compat".to_string()),
            Some("vim".to_string()),
            Some(RunCmdKind::Loader),
            None,
            Some(LootType::Windows("/loot".to_string())),
            None,
            true,
            true,
            true,
        )
        .unwrap();
    assert_eq!(s.download_dir(), "/dl");
    assert_eq!(s.game_dir(), "/games/Starfield");
    assert_eq!(s.cache_dir(), "/home/u/.cache/starmod");
    assert_eq!(s.proton_dir(), Some("/proton"));
    assert_eq!(s.compat_dir(), Some("/compat"));
    assert_eq!(s.editor(), "vim");
    assert_eq!(s.default_run(), Some(RunCmdKind::Loader));
    assert_eq!(s.xedit_dir(), Some("/xedit"));
    assert!(matches!(s.loot(), LootType::Windows(d) if d == "/loot"));
    let (d, g, cdir) = s.resolve_dirs(&None, &Some("/g".to_string()), &None);
    assert_eq!((d.as_str(), g.as_str(), cdir.as_str()), ("/dl", "/g", "/home/u/.cache/starmod"));
}

#[test]
fn settings_table() {
    let t = base_settings().table();
    assert_eq!(t.headers, vec!["Setting".to_string(), "Value".to_string()]);
    assert_eq!(t.rows.len(), 8);
    assert_eq!(cells(&t)[4], vec![c("Steam Proton Dir", Colour::Reset), c("<Unknown>", Colour::Reset)]);
}

#[test]
fn log_levels_and_page_size() {
    assert_eq!(LogLevel::from(0u8), LogLevel::Info);
    assert_eq!(LogLevel::from(1u8), LogLevel::Debug);
    assert_eq!(LogLevel::from(5u8), LogLevel::Trace);
    assert_eq!(LogLevel::default(), LogLevel::Warn);
    assert_eq!(LogLevel::Error.stdout_level(), LogLevel::Info);
    assert_eq!(LogLevel::Trace.stdout_level(), LogLevel::Trace);
    assert_eq!(default_page_size(Some(20)), 20);
    assert_eq!(default_page_size(Some(200)), 50);
    assert_eq!(default_page_size(None), 50);
}

#[test]
fn run_targets() {
    assert_eq!(GameCmd::run_target(Some(RunCmd::Loot), Some(RunCmdKind::Loader)), RunCmd::Loot);
    assert_eq!(GameCmd::run_target(None, Some(RunCmdKind::XEdit)), RunCmd::XEdit);
    assert_eq!(GameCmd::run_target(None, None), RunCmd::Game);
    assert_eq!(RunCmd::from(RunCmdKind::Game), RunCmd::Game);
}

#[test]
fn running_through_proton() {
    let s = configured(true, true, None);
    let run = RunCmd::run_executable(&s, RunCmd::Game).unwrap().expect("configured");
    assert_eq!(run.proton_exe, "/proton/proton");
    assert_eq!(run.executable, "/games/Starfield/Starfield.exe");
    assert_eq!(run.compat_dir, "/compat/1716740");
    assert_eq!(run.steam_dir, "/home/u/.steam");
    let loader = RunCmd::run_executable(&s, RunCmd::Loader).unwrap().unwrap();
    assert_eq!(loader.executable, "/games/Starfield/sfse_loader.exe");
    let xedit = RunCmd::run_executable(&s, RunCmd::XEdit).unwrap().unwrap();
    assert_eq!(xedit.executable, "/xedit/SF1Edit64.exe");
    assert!(RunCmd::run_executable(&s, RunCmd::Loot).unwrap().is_none());
    let checked = run.checked(false).unwrap_err();
    assert_eq!(checked.message(), "The executable could not be found: /games/Starfield/Starfield.exe.");
}

#[test]
fn running_needs_proton_prefix_and_steam() {
    let no_proton = configured(false, true, None);
    assert!(matches!(RunCmd::run_executable(&no_proton, RunCmd::Game), Err(SettingErrors::NoProtonDirFound(_))));
    let no_compat = configured(true, false, None);
    assert!(matches!(RunCmd::run_executable(&no_compat, RunCmd::Game), Err(SettingErrors::NoCompatDirFound(_))));
    assert!(matches!(RunCmd::Game.execute(&no_compat), Err(SettingErrors::NoCompatDirFound(_))));
}

#[test]
fn loot_runs_as_flatpak_or_windows_build() {
    let flat = configured(false, false, None);
    match RunCmd::Loot.execute(&flat).unwrap() {
        RunPlan::Flatpak(args) => assert_eq!(
            args,
            vec![
                "run",
                "io.github.loot.loot",
                "--game",
                "starfield",
                "--game-path",
                "/games/Starfield",
                "--loot-data-path",
                "/home/u/.loot"
            ]
        ),
        other => panic!("unexpected {:?}", other),
    }
    let win = configured(true, true, Some(LootType::Windows("/loot".to_string())));
    match RunCmd::Loot.execute(&win).unwrap() {
        RunPlan::Proton(run) => assert_eq!(run.executable, "/loot/LOOT.exe"),
        other => panic!("unexpected {:?}", other),
    }
}

#[test]
fn game_config_locations() {
    let s = configured(true, true, None);
    assert_eq!(
        game_config_dir(&s),
        "/compat/1716740/pfx/drive_c/users/steamuser/My Documents/My Games/Starfield"
    );
    assert!(is_ini_file(Game::Starfield, "StarfieldPrefs.ini"));
    assert!(!is_ini_file(Game::Starfield, "Other.ini"));
    assert_eq!(
        edit_game_config_files("/cfg", &Some("Starfield.ini".to_string()), vec!["x".to_string()]),
        vec!["/cfg/Starfield.ini".to_string()]
    );
    assert_eq!(edit_game_config_files("/cfg", &None, vec!["x".to_string()]), vec!["x".to_string()]);
}

#[test]
fn game_names() {
    let g = Game::Starfield;
    assert_eq!(g.game_name(), "Starfield");
    assert_eq!(g.nexus_game_name(), "starfield");
    assert_eq!(g.steam_id(), 1716740);
    assert_eq!(g.exe_name(), "Starfield.exe");
    assert_eq!(g.loader_name(), "sfse_loader.exe");
    assert_eq!(g.ini_files(), vec!["Starfield.ini", "StarfieldPrefs.ini", "StarfieldCustom.ini"]);
}

#[test]
fn archive_formats() {
    assert_eq!(SupportedArchives::from_path("a.tar.gz").unwrap(), SupportedArchives::TarGz);
    assert_eq!(SupportedArchives::from_path("a.tar.xz").unwrap(), SupportedArchives::TarXz);
    assert_eq!(SupportedArchives::from_path("a.7z").unwrap(), SupportedArchives::SevenZip);
    assert_eq!(SupportedArchives::from_path("a.7zip").unwrap(), SupportedArchives::SevenZip);
    assert_eq!(SupportedArchives::from_path("a.zip").unwrap(), SupportedArchives::Zip);
    assert_eq!(SupportedArchives::from_path("a.rar").unwrap(), SupportedArchives::Rar);
    assert_eq!(SupportedArchives::TarGz.label(), "tar.gz");
    match SupportedArchives::from_path("a.gz") {
        Err(e) => assert_eq!(e.message(), "the file `a.gz` is in an unsuported format"),
        Ok(f) => panic!("unexpected {:?}", f),
    }
    assert!(matches!(DecompressError::Unsupported("x".to_string()), DecompressError::Unsupported(_)));
    assert_eq!(path_result(Some("a/b")), "a/b");
    assert_eq!(path_result(None), "path missing!");
}

#[test]
fn error_messages() {
    assert_eq!(
        SettingErrors::ConfigNotFound("starmod".to_string()).message(),
        "No valid config file could be found; Please run 'starmod update-config' first."
    );
    assert_eq!(
        GameErrors::ConfigNotFound("Starfield.ini".to_string()).message(),
        "Could not find file(s) 'Starfield.ini' in the game directories."
    );
    assert_eq!(
        ModErrors::ModNotFound("x".to_string()).message(),
        "The mod 'x' could not be found. Is the mod installed?"
    );
    assert_eq!(
        ModErrors::TagNotFound("m".to_string(), "t".to_string()).message(),
        "Could not find tag 't' in mod m. Did you perhaps mispel it?"
    );
    assert_eq!(
        DownloadError::ArchiveNotFound("a.zip".to_string()).message(),
        "the archive a.zip cannot be found."
    );
}

fn listed_mod(name: &str, priority: isize, files: &[&str]) -> Manifest {
    let fs: Vec<InstallFile> = files
        .iter()
        .map(|f| InstallFile::new_raw(f.to_string(), format!("Data/{}", f)))
        .collect();
    let mut m = Manifest::new(
        "cache",
        name,
        name.to_string(),
        name.to_string(),
        Some(77),
        Some("1.0".to_string()),
        fs,
        Vec::new(),
        ModKind::Data,
    );
    m.set_priority(priority);
    m.set_enabled();
    m
}

#[test]
fn mod_table_columns() {
    let mut a = listed_mod("a", 0, &["x.esp", "a.esp"]);
    assert!(a.add_tag("ui"));
    let mods = vec![a, listed_mod("b", 1, &["x.esp"])];
    let t = ModListBuilder::new(&mods).build();
    assert!(t.headers.is_empty());
    assert_eq!(cells(&t), vec![vec![c("a", Colour::Reset)], vec![c("b", Colour::Reset)]]);
    let full = ModListBuilder::new(&mods)
        .with_index()
        .with_priority()
        .with_status()
        .with_version()
        .with_nexus_id()
        .with_mod_type()
        .with_tags()
        .with_colour()
        .with_headers()
        .build();
    assert_eq!(
        full.headers,
        vec!["Index", "Name", "Priority", "Status", "Version", "Nexus Id", "Mod Type", "Tags"]
    );
    assert_eq!(
        cells(&full)[0],
        vec![
            c("0", Colour::Yellow),
            c("a", Colour::Yellow),
            c("0", Colour::Yellow),
            c("Enabled", Colour::Yellow),
            c("1.0", Colour::Yellow),
            c("77", Colour::Yellow),
            c("Data", Colour::Yellow),
            c("ui", Colour::Reset),
        ]
    );
    assert_eq!(cells(&full)[1][0], c("1", Colour::Green));
}

#[test]
fn mod_table_notes_updates() {
    let mut m = Manifest::new(
        "cache",
        "somemod",
        "somemod".to_string(),
        "somemod".to_string(),
        Some(1234),
        Some("1.0".to_string()),
        Vec::new(),
        Vec::new(),
        ModKind::Data,
    );
    m.set_enabled();
    let mods = vec![m];
    let dmods = vec![DmodMan::new(
        "starfield".to_string(),
        "SomeMod-1234-1-1-1700000000.zip".to_string(),
        1234,
        1,
        UpdateStatus::HasNewFile(1),
    )];
    let t = ModListBuilder::new(&mods).with_notes(dmods).build();
    assert_eq!(cells(&t)[0], vec![c("somemod", Colour::Reset), c("Update Available", Colour::Reset)]);
}

#[test]
fn file_table_columns() {
    let mut m = listed_mod("a", 0, &["x.esp", "y.esp"]);
    assert!(m.disable_file("y.esp"));
    let t = FileListBuilder::new(&m).with_index().with_origin().with_headers().build();
    assert_eq!(t.headers, vec!["Index", "Source", "Destination"]);
    assert_eq!(
        cells(&t),
        vec![vec![c("0", Colour::White), c("x.esp", Colour::White), c("Data/x.esp", Colour::White)]]
    );
    let d = FileListBuilder::new(&m).disabled_files().build();
    assert_eq!(cells(&d), vec![vec![c("Data/y.esp", Colour::White)]]);
}

#[test]
fn archive_table_states() {
    let mut installed = listed_mod("somemod", 0, &[]);
    installed.set_name("somemod".to_string());
    let archives = vec![
        "SomeMod-1234-1-1-1700000000.zip".to_string(),
        "New Thing.zip".to_string(),
        "Plain.zip".to_string(),
    ];
    let dmods = vec![
        Some(DmodMan::new(
            "starfield".to_string(),
            "SomeMod-1234-1-1-1700000000.zip".to_string(),
            77,
            1,
            UpdateStatus::UpToDate(1),
        )),
        None,
        None,
    ];
    let plain = listed_mod("plain", 0, &[]);
    let b = ArchiveListBuilder::new(archives, dmods, vec![installed, plain]);
    assert_eq!(b.list().len(), 3);
    let t = b.with_index().with_status().with_colour().with_headers().build();
    assert_eq!(t.headers, vec!["Index", "File", "Status"]);
    let rows = cells(&t);
    assert_eq!(rows[1], vec![c("1", Colour::Green), c("New Thing.zip", Colour::Green), c("New", Colour::Green)]);
    assert_eq!(rows[2][2], c("Installed", Colour::Grey));
}

#[test]
fn select_prompts() {
    let mods = vec![listed_mod("a", 0, &[]), listed_mod("b", 1, &[])];
    let p = FindSelectBuilder::new(ModListBuilder::new(&mods))
        .with_msg("Choose a mod")
        .with_input(Some("b"))
        .build();
    assert_eq!(p.msg, "Choose a mod");
    assert_eq!(p.filter, Some("b".to_string()));
    assert_eq!(p.preselected, Some(1));
    assert_eq!(p.table.rows.len(), 2);
    let q = FindSelectBuilder::new(ModListBuilder::new(&mods)).build();
    assert_eq!(q.msg, "");
    assert_eq!(q.preselected, None);
    let f = FindSelectBuilder::new(FileListBuilder::new(&mods[0])).with_input(Some("x")).build();
    assert_eq!(f.preselected, None);
    assert_eq!(f.filter, Some("x".to_string()));
}
