use starmod::commands::downloads::{
    archive_choice, archive_not_found, extraction_paths, find_archive, find_archive_by_name,
    find_archive_by_name_fuzzy, install_name, needs_extraction, restore_after_upgrade, upgrade_mod,
    upgrades, ArchiveChoice, ArchiveLookup, FuzzyOutcome,
};
use starmod::commands::list::{list_conflicts, list_disabled_files, list_files, ListCmd};
use starmod::commands::modlist;
use starmod::commands::mods::{
    selected_file_index, set_priority, show_mod_status, PriorityFollowUp, tag_add, tag_remove, toggle_file,
};
use starmod::commands::show_legenda;
use starmod::dmodman::{DmodMan, UpdateStatus};
use starmod::errors::{DownloadError, ModErrors};
use starmod::fuzzy::{best_match, fuzzy_candidates, fuzzy_scores};
use starmod::installers::stdin::{Input, InputWithDefault};
use starmod::manifest::install_file::InstallFile;
use starmod::manifest::Manifest;
use starmod::mods::ModKind;
use starmod::tag::Colour;
use starmod::ui::Table;

fn data_mod(name: &str, priority: isize, enabled: bool, files: &[&str]) -> Manifest {
    let fs: Vec<InstallFile> = files
        .iter()
        .map(|f| InstallFile::new_raw(f.to_string(), format!("Data/{}", f)))
        .collect();
    let mut m = Manifest::new(
        "cache",
        name,
        name.to_string(),
        name.to_string(),
        None,
        None,
        fs,
        Vec::new(),
        ModKind::Data,
    );
    m.set_priority(priority);
    if enabled {
        m.set_enabled();
    }
    m
}

fn dmod(file_name: &str, mod_id: u32) -> DmodMan {
    DmodMan::new("starfield".to_string(), file_name.to_string(), mod_id, 1, UpdateStatus::UpToDate(0))
}

fn cells(t: &Table) -> Vec<Vec<(String, Colour)>> {
    t.rows.iter().map(|r| r.iter().map(|c| (c.text.clone(), c.colour)).collect()).collect()
}

fn c(text: &str, colour: Colour) -> (String, Colour) {
    (text.to_string(), colour)
}

fn archives() -> Vec<String> {
    vec![
        "SomeMod-1234-1-0-1699999999.zip".to_string(),
        "Textures Pack-55-2-0-1700000000.7z".to_string(),
        "other.rar".to_string(),
    ]
}

#[test]
fn archive_by_exact_name() {
    let a = archives();
    assert_eq!(find_archive_by_name(&a, "other.rar"), Some(2));
    assert_eq!(find_archive_by_name(&a, "other"), None);
    let nested = vec!["dir//x.zip".to_string(), "dir/x.zip".to_string()];
    assert_eq!(find_archive_by_name(&nested, "dir/x.zip"), Some(0));
}

#[test]
fn archive_by_number_name_or_resemblance() {
    let a = archives();
    assert!(matches!(find_archive(&a, "1", true), ArchiveLookup::At(1)));
    assert!(matches!(find_archive(&a, "9", true), ArchiveLookup::Missing));
    assert!(matches!(find_archive(&a, "other.rar", true), ArchiveLookup::At(2)));
    assert!(matches!(find_archive(&a, "TexturesPack", false), ArchiveLookup::At(1)));
    assert!(matches!(find_archive(&a, "qqqqqqqq", false), ArchiveLookup::NotFound));
}

#[test]
fn fuzzy_archive_search() {
    let a = archives();
    assert!(matches!(find_archive_by_name_fuzzy(&a, "somemod", false), FuzzyOutcome::Found(0)));
    assert!(matches!(find_archive_by_name_fuzzy(&a, "zzzzzz", true), FuzzyOutcome::NotFound));
    let same = vec!["modname-1.zip".to_string(), "modname-2.zip".to_string()];
    match find_archive_by_name_fuzzy(&same, "modname", true) {
        FuzzyOutcome::Choose(c) => {
            let mut c = c;
            c.sort();
            assert_eq!(c, vec![0, 1]);
        }
        other => panic!("unexpected {:?}", other),
    }
    assert!(matches!(find_archive_by_name_fuzzy(&same, "modname", false), FuzzyOutcome::Found(_)));
}

#[test]
fn fuzzy_scores_and_candidates() {
    let names = vec!["alpha".to_string(), "beta".to_string()];
    let scores = fuzzy_scores(&names, "alp");
    assert_eq!(scores.len(), 2);
    assert!(scores[0] > scores[1]);
    assert_eq!(best_match(&scores), Some(0));
    assert_eq!(best_match(&Vec::new()), None);
    assert_eq!(fuzzy_candidates(&vec![10, 60, 80, 51, 50]), vec![2, 1, 3]);
    assert_eq!(fuzzy_candidates(&vec![70; 8]).len(), 6);
}

#[test]
fn archive_choices() {
    assert_eq!(archive_choice(3, InputWithDefault::Default), ArchiveChoice::Chosen(0));
    assert_eq!(archive_choice(3, InputWithDefault::Input(Input::Digit(2))), ArchiveChoice::Chosen(2));
    assert_eq!(archive_choice(3, InputWithDefault::Input(Input::Digit(3))), ArchiveChoice::Again);
    assert_eq!(archive_choice(3, InputWithDefault::Input(Input::Exit)), ArchiveChoice::Exit);
    match archive_not_found("nothing") {
        DownloadError::ArchiveNotFound(n) => assert_eq!(n, "nothing"),
        other => panic!("unexpected {:?}", other),
    }
}

#[test]
fn extraction_layout() {
    let p = extraction_paths("downloads", "cache", "SomeMod-1234.zip");
    assert_eq!(p.download_file, "downloads/SomeMod-1234.zip");
    assert_eq!(p.archive, "cache/somemod-1234");
    assert_eq!(p.dmodman_file, "downloads/SomeMod-1234.zip.json");
    assert_eq!(p.archive_dmodman, "cache/somemod-1234.dmodman");
    assert_eq!(p.name, "somemod-1234");
    assert_eq!(install_name("Mod.7z"), "mod");
    assert!(needs_extraction(false, Some(true)));
    assert!(needs_extraction(true, None));
    assert!(needs_extraction(true, Some(false)));
    assert!(!needs_extraction(true, Some(true)));
}

fn installed_somemod(enabled: bool) -> Manifest {
    let mut m = Manifest::new(
        "cache",
        "somemod",
        "somemod".to_string(),
        "somemod".to_string(),
        Some(1234),
        Some("1.0".to_string()),
        Vec::new(),
        Vec::new(),
        ModKind::Data,
    );
    m.set_priority(4);
    if enabled {
        m.set_enabled();
    }
    m
}

#[test]
fn upgrades_of_installed_mods() {
    let mods = vec![installed_somemod(true), data_mod("plain", 0, false, &[])];
    let dmods = vec![
        dmod("SomeMod-1234-1-1-1700000000.zip", 1234),
        dmod("SomeMod-1234-0-9-1600000000.zip", 1234),
    ];
    let ups = upgrades(&mods, &dmods);
    assert!(ups.is_empty());
    let newer_last = vec![
        dmod("SomeMod-1234-0-9-1600000000.zip", 1234),
        dmod("SomeMod-1234-1-1-1700000000.zip", 1234),
    ];
    let ups = upgrades(&mods, &newer_last);
    assert_eq!(ups.len(), 1);
    assert_eq!(ups[0].mod_index, 0);
    assert_eq!(ups[0].archive, "SomeMod-1234-1-1-1700000000.zip");
    assert_eq!(ups[0].priority, 4);
    assert!(ups[0].enabled);
}

#[test]
fn upgrade_keeps_priority_and_state() {
    let m = installed_somemod(true);
    let dmods = vec![dmod("other-1-1-0-1.zip", 1), dmod("SomeMod-1234-2-0-1800000000.zip", 1234)];
    let up = upgrade_mod(&m, 3, &dmods).expect("upgrade");
    assert_eq!(up.mod_index, 3);
    assert_eq!(up.archive, "SomeMod-1234-2-0-1800000000.zip");
    let mut fresh = data_mod("somemod", 0, false, &[]);
    restore_after_upgrade(&mut fresh, &up);
    assert_eq!(fresh.priority(), 4);
    assert!(fresh.is_enabled());
    assert!(upgrade_mod(&m, 0, &vec![dmod("x-9-1-0-1.zip", 9)]).is_none());
}

#[test]
fn mod_lookup_by_name_number_or_resemblance() {
    let mods = vec![
        data_mod("alpha-weapons", 0, false, &[]),
        data_mod("beta-textures", 1, false, &[]),
        data_mod("7", 2, false, &[]),
    ];
    assert_eq!(modlist::find_mod(&mods, "beta-textures"), Some(1));
    assert_eq!(modlist::find_mod(&mods, "7"), Some(2));
    assert_eq!(modlist::find_mod(&mods, "1"), Some(1));
    assert_eq!(modlist::find_mod(&mods, "12"), None);
    assert_eq!(modlist::find_mod(&mods, "textures"), Some(1));
    assert_eq!(modlist::find_mod(&[], "textures"), None);
    assert_eq!(modlist::find_mod_by_index(&mods, 2), Some(2));
    assert_eq!(modlist::find_mod_by_index(&mods, 3), None);
    assert_eq!(modlist::find_mod_by_name_fuzzy(&mods, "weapon"), Some(0));
}

#[test]
fn toggling_files_of_a_mod() {
    let mut mods = vec![data_mod("a", 0, true, &["x.esp", "y.esp"]), data_mod("b", 1, false, &["z.esp"])];
    assert_eq!(toggle_file(&mut mods, 0, "x.esp", true, &None).unwrap(), true);
    assert_eq!(mods[0].dest_files(), vec!["Data/y.esp".to_string()]);
    assert_eq!(toggle_file(&mut mods, 1, "z.esp", true, &None).unwrap(), false);
    match toggle_file(&mut mods, 0, "nope.esp", false, &Some("alpha".to_string())) {
        Err(ModErrors::FileNotFound(n, f)) => {
            assert_eq!(n, "alpha");
            assert_eq!(f, "nope.esp");
        }
        other => panic!("unexpected {:?}", other),
    }
    assert_eq!(toggle_file(&mut mods, 0, "x.esp", false, &None).unwrap(), true);
    assert_eq!(mods[0].dest_files(), vec!["Data/y.esp".to_string(), "Data/x.esp".to_string()]);
}

#[test]
fn priorities_and_re_enabling() {
    let mut mods = vec![data_mod("a", 0, true, &[]), data_mod("b", 3, false, &[])];
    assert!(matches!(set_priority(&mut mods, 0, 5), PriorityFollowUp::Nothing));
    assert_eq!(mods[0].priority(), 5);
    assert!(matches!(set_priority(&mut mods, 1, 1), PriorityFollowUp::ReEnable(3)));
    assert!(matches!(set_priority(&mut mods, 1, 9), PriorityFollowUp::ReEnable(9)));
    assert_eq!(mods[1].priority(), 9);
}

#[test]
fn negative_priority_disables_the_mod() {
    let mut mods = vec![data_mod("a", 0, true, &["x.esp"]), data_mod("b", 1, true, &["y.esp"])];
    match set_priority(&mut mods, 0, -1) {
        PriorityFollowUp::Disable(plan) => {
            let unlinked: Vec<&str> = plan.unlink.iter().map(|f| f.destination()).collect();
            let linked: Vec<&str> = plan.link.iter().map(|f| f.destination()).collect();
            assert_eq!(unlinked, vec!["Data/x.esp", "Data/y.esp"]);
            assert_eq!(linked, vec!["Data/y.esp"]);
        }
        other => panic!("unexpected {:?}", other),
    }
    assert!(!mods[0].is_enabled());
    assert_eq!(mods[0].priority(), -1);
    assert!(matches!(set_priority(&mut mods, 0, -2), PriorityFollowUp::Nothing));
    assert!(!mods[0].is_enabled());
}

#[test]
fn tagging_mods() {
    let mut mods = vec![data_mod("a", 0, true, &[])];
    assert!(tag_add(&mut mods, 0, "UI", &None).is_ok());
    match tag_add(&mut mods, 0, "ui", &Some("a".to_string())) {
        Err(ModErrors::DuplicateTag(n, t)) => {
            assert_eq!(n, "a");
            assert_eq!(t, "ui");
        }
        other => panic!("unexpected {:?}", other),
    }
    assert!(tag_remove(&mut mods, 0, "Ui", &None).is_ok());
    assert!(mods[0].tags().is_empty());
    match tag_remove(&mut mods, 0, "ui", &Some("a".to_string())) {
        Err(ModErrors::TagNotFound(n, t)) => {
            assert_eq!(n, "a");
            assert_eq!(t, "ui");
        }
        other => panic!("unexpected {:?}", other),
    }
}

#[test]
fn selected_lines() {
    assert_eq!(selected_file_index("  3   12  Data/x.esp"), Some(12));
    assert_eq!(selected_file_index("3"), None);
    assert_eq!(selected_file_index("3 x"), None);
}

#[test]
fn file_overview_is_sorted_and_coloured() {
    let mods = vec![data_mod("a", 0, true, &["x.esp", "b.esp"]), data_mod("b", 1, true, &["x.esp"])];
    let (files, table) = list_files(&mods);
    assert_eq!(files.len(), 3);
    assert_eq!(table.headers, vec!["File".to_string(), "Destination".to_string(), "Mod".to_string()]);
    assert_eq!(
        cells(&table),
        vec![
            vec![c("b.esp", Colour::White), c("Data/b.esp", Colour::White), c("a", Colour::White)],
            vec![c("x.esp", Colour::Red), c("Data/x.esp", Colour::Red), c("a", Colour::Red)],
            vec![c("x.esp", Colour::Green), c("Data/x.esp", Colour::Green), c("b", Colour::Green)],
        ]
    );
    let (conflicts, ctable) = list_conflicts(&mods);
    assert_eq!(conflicts.len(), 2);
    assert_eq!(
        cells(&ctable),
        vec![
            vec![c("Data/x.esp", Colour::Red), c("a", Colour::Red)],
            vec![c("Data/x.esp", Colour::Green), c("b", Colour::Green)],
        ]
    );
    let (_none, empty) = list_files(&[]);
    assert_eq!(cells(&empty), vec![vec![c("No files found.", Colour::Reset)]]);
}

#[test]
fn disabled_files_overview() {
    let mut m = data_mod("a", 0, true, &["x.esp", "y.esp"]);
    assert!(m.disable_file("y.esp"));
    let t = list_disabled_files(&[m]);
    assert_eq!(cells(&t), vec![vec![c("Data/y.esp", Colour::Reset), c("a", Colour::Reset)]]);
    let empty = list_disabled_files(&[data_mod("b", 0, true, &["z.esp"])]);
    assert_eq!(cells(&empty), vec![vec![c("No disabled files found.", Colour::Reset)]]);
    assert_eq!(ListCmd::default(), ListCmd::ModList);
}

#[test]
fn mod_status_tables() {
    let mut a = data_mod("a", 0, true, &["x.esp", "b.esp"]);
    assert!(a.disable_file("b.esp"));
    let mods = vec![a, data_mod("b", 1, true, &["x.esp"])];
    let (files, status) = show_mod_status(&mods, 1);
    assert_eq!(files.len(), 1);
    assert_eq!(
        cells(&status.info),
        vec![vec![
            c("b", Colour::White),
            c("1", Colour::White),
            c("Enabled", Colour::White),
            c("Data", Colour::White),
            c("<Unknown>", Colour::White),
            c("<Unknown>", Colour::White),
        ]]
    );
    assert_eq!(cells(&status.files), vec![vec![c("x.esp", Colour::Green), c("Data/x.esp", Colour::Green)]]);
    assert!(status.disabled.is_none());
    let (_f, status_a) = show_mod_status(&mods, 0);
    let disabled = status_a.disabled.expect("a has a disabled file");
    assert_eq!(cells(&disabled), vec![vec![c("b.esp", Colour::Grey)]]);
}

#[test]
fn legenda_rows() {
    let t = show_legenda();
    assert_eq!(t.rows.len(), 6);
    assert_eq!(t.rows[1][0].text, "w");
    assert_eq!(t.rows[1][1].text, "Green");
    assert_eq!(t.rows[1][0].colour, Colour::Green);
}
