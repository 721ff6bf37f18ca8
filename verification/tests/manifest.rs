use starmod::dmodman::{DmodMan, UpdateStatus};
use starmod::manifest::install_file::InstallFile;
use starmod::manifest::mod_state::ModState;
use starmod::manifest::Manifest;
use starmod::mods::{sort_mods, ModKind};
use starmod::text::{split_str, version_before};

fn data_mod(name: &str, priority: isize, enabled: bool, files: &[&str]) -> Manifest {
    let fs: Vec<InstallFile> = files
        .iter()
        .map(|f| InstallFile::new_raw(f.to_string(), format!("Data/{}", f)))
        .collect();
    let mut m = Manifest::new(
        "cache",
        name,
        name.to_string(),
        name.to_string(),
        None,
        None,
        fs,
        Vec::new(),
        ModKind::Data,
    );
    m.set_priority(priority);
    if enabled {
        m.set_enabled();
    }
    m
}

fn dmod(file_name: &str, mod_id: u32) -> DmodMan {
    DmodMan::new("starfield".to_string(), file_name.to_string(), mod_id, 99, UpdateStatus::UpToDate(0))
}

#[test]
fn install_file_destinations() {
    let f = InstallFile::new("Textures/A.DDS".to_string(), "Textures/A.DDS".to_string());
    assert_eq!(f.source(), "Textures/A.DDS");
    assert_eq!(f.destination(), "Data/Textures/a.dds");
    let g = InstallFile::new("x".to_string(), "data/Meshes/X.nif".to_string());
    assert_eq!(g.destination(), "Data/meshes/x.nif");
    let upper = InstallFile::new("x".to_string(), "Data/Foo.esm".to_string());
    assert_eq!(upper.destination(), "Data/foo.esm");
    let database = InstallFile::new("x".to_string(), "database.esm".to_string());
    assert_eq!(database.destination(), "Data/database.esm");
    let h = InstallFile::from_path("data/Meshes/X.nif");
    assert_eq!(h.source(), "data/Meshes/X.nif");
    assert_eq!(h.destination(), "Data/Meshes/X.nif");
    let k = InstallFile::from_path("textures/t.dds");
    assert_eq!(k.destination(), "Data/Textures/t.dds");
}

#[test]
fn new_manifest_is_disabled() {
    let m = data_mod("alpha", 0, false, &["a.esp"]);
    assert_eq!(m.name(), "alpha");
    assert_eq!(m.priority(), 0);
    assert!(!m.is_enabled());
    assert_eq!(m.mod_state(), ModState::Disabled);
    assert_eq!(m.kind(), ModKind::Data);
    assert!(m.tags().is_empty());
    assert_eq!(m.dest_files(), vec!["Data/a.esp".to_string()]);
    assert_eq!(m.origin_files(), vec!["alpha/a.esp".to_string()]);
}

#[test]
fn mod_state_labels() {
    assert!(ModState::Enabled.is_enabled());
    assert!(!ModState::from_bool(false).is_enabled());
    assert_eq!(ModState::default(), ModState::Disabled);
}

#[test]
fn tags_are_lower_case_and_unique() {
    let mut m = data_mod("alpha", 0, false, &[]);
    assert!(m.add_tag("Graphics"));
    assert!(!m.add_tag("GRAPHICS"));
    assert!(m.add_tag("ui"));
    assert!(m.add_tag("sound"));
    assert_eq!(m.tags(), &["graphics".to_string(), "ui".to_string(), "sound".to_string()]);
    assert!(m.remove_tag("Graphics"));
    assert_eq!(m.tags(), &["sound".to_string(), "ui".to_string()]);
    assert!(!m.remove_tag("missing"));
    assert_eq!(m.tags().len(), 2);
}

#[test]
fn disable_then_enable_file_restores_it() {
    let mut m = data_mod("alpha", 0, false, &["a.esp", "sub/b.esp"]);
    assert!(m.disable_file("b.esp"));
    assert_eq!(m.dest_files(), vec!["Data/a.esp".to_string()]);
    assert_eq!(m.disabled_files().len(), 1);
    assert!(!m.disable_file("c.esp"));
    assert!(m.enable_file("sub/b.esp"));
    assert_eq!(m.dest_files(), vec!["Data/a.esp".to_string(), "Data/sub/b.esp".to_string()]);
    assert!(m.disabled_files().is_empty());
}

#[test]
fn loader_files_cannot_be_disabled() {
    let files = vec![
        InstallFile::new_raw("sfse_loader.exe".to_string(), "sfse_loader.exe".to_string()),
        InstallFile::new_raw("sfse.dll".to_string(), "sfse.dll".to_string()),
    ];
    let mut m = Manifest::new(
        "cache",
        "sfse",
        "sfse".to_string(),
        "sfse".to_string(),
        None,
        None,
        files,
        Vec::new(),
        ModKind::Loader,
    );
    assert!(!m.disable_file("sfse.dll"));
    assert_eq!(m.files().len(), 2);
}

#[test]
fn config_files_by_extension() {
    let m = data_mod("alpha", 0, false, &["a.esp", "cfg/settings.ini", "cfg/x.json", "readme.txt"]);
    assert_eq!(
        m.find_config_files(None),
        vec!["alpha/cfg/settings.ini".to_string(), "alpha/cfg/x.json".to_string()]
    );
    assert_eq!(m.find_config_files(Some("txt")), vec!["alpha/readme.txt".to_string()]);
}

#[test]
fn sort_by_priority_then_name() {
    let mods = vec![
        data_mod("zeta", 0, false, &[]),
        data_mod("beta", 2, false, &[]),
        data_mod("alpha", 0, false, &[]),
        data_mod("gamma", -1, false, &[]),
    ];
    let sorted = sort_mods(mods);
    let names: Vec<&str> = sorted.iter().map(|m| m.name()).collect();
    assert_eq!(names, vec!["gamma", "alpha", "zeta", "beta"]);
}

#[test]
fn sort_keeps_the_order_of_mods_in_the_same_place() {
    let mods = vec![
        data_mod("same", 1, false, &["first.esp"]),
        data_mod("other", 0, false, &[]),
        data_mod("same", 1, false, &["second.esp"]),
        data_mod("same", 1, false, &["third.esp"]),
    ];
    let sorted = sort_mods(mods);
    let firsts: Vec<String> = sorted
        .iter()
        .map(|m| m.files().first().map(|f| f.source().to_string()).unwrap_or_default())
        .collect();
    assert_eq!(firsts, vec!["", "first.esp", "second.esp", "third.esp"]);
}

#[test]
fn dmodman_file_name_parts() {
    let d = dmod("SomeMod-1234-1-0-1699999999.zip", 1234);
    assert!(d.has_name());
    assert_eq!(d.name(), "somemod");
    assert_eq!(d.version(), Some("1.0".to_string()));
    assert_eq!(d.timestamp(), Some("1699999999".to_string()));
    let e = dmod("unrelated.zip", 1234);
    assert!(!e.has_name());
    assert_eq!(e.version(), None);
}

#[test]
fn same_mod_compares_game_id_and_name() {
    let a = dmod("SomeMod-1234-1-0-1699999999.zip", 1234);
    let b = dmod("somemod-1234-1-1-1700000000.zip", 1234);
    let c = dmod("OtherMod-1234-1-0-1699999999.zip", 1234);
    assert!(a.same_mod(&b));
    assert!(!a.same_mod(&c));
}

#[test]
fn update_needs_newer_version() {
    let mut m = Manifest::new(
        "cache",
        "somemod",
        "somemod".to_string(),
        "Some Mod".to_string(),
        Some(1234),
        Some("1.0".to_string()),
        Vec::new(),
        Vec::new(),
        ModKind::Data,
    );
    m.set_enabled();
    let newer = dmod("SomeMod-1234-1-1-1700000000.zip", 1234);
    let same = dmod("SomeMod-1234-1-0-1699999999.zip", 1234);
    let other_id = dmod("SomeMod-99-2-0-1700000000.zip", 99);
    assert!(m.is_an_update(&newer));
    assert!(!m.is_an_update(&same));
    assert!(!m.is_an_update(&other_id));
}

#[test]
fn versions_compare_by_number() {
    let m = Manifest::new(
        "cache",
        "starui inventory",
        "starui inventory".to_string(),
        "StarUI".to_string(),
        Some(773),
        Some("1.9".to_string()),
        Vec::new(),
        Vec::new(),
        ModKind::Data,
    );
    let d = dmod("StarUI Inventory-773-1-10-1700000000.zip", 773);
    assert_eq!(d.version(), Some("1.10".to_string()));
    assert!(m.is_an_update(&d));
    assert!(version_before("1.9", "1.10"));
    assert!(!version_before("1.10", "1.9"));
    assert!(version_before("1.0", "1.0.1"));
    assert!(!version_before("1.0", "1.0"));
    assert!(version_before("1.0a", "1.0b"));
    assert_eq!(split_str("1..2", '.'), vec!["1".to_string(), "".to_string(), "2".to_string()]);
}

#[test]
fn custom_rescan_replaces_files() {
    let mut m = Manifest::new(
        "cache",
        "mine",
        "mine".to_string(),
        "mine".to_string(),
        None,
        None,
        vec![InstallFile::new_raw("a".to_string(), "Data/a".to_string())],
        Vec::new(),
        ModKind::Custom,
    );
    m.rescan(vec![
        InstallFile::new_raw("b".to_string(), "Data/b".to_string()),
        InstallFile::new_raw("c".to_string(), "Data/c".to_string()),
    ]);
    assert_eq!(m.dest_files(), vec!["Data/b".to_string(), "Data/c".to_string()]);
    let mut d = data_mod("alpha", 0, false, &["a.esp"]);
    d.rescan(Vec::new());
    assert_eq!(d.dest_files(), vec!["Data/a.esp".to_string()]);
}

#[test]
fn an_empty_name_names_no_file() {
    let mut m = data_mod("alpha", 0, false, &["..", "a.esp"]);
    assert!(!m.disable_file(""));
    assert!(m.disable_file("a.esp"));
    assert_eq!(m.disabled_files().len(), 1);
}
