use starmod::conflict::{
    conflict_list_by_file, conflict_list_by_mod, enabled_dest_files, enlist_files, mod_tag,
    names_for_file,
};
use starmod::manifest::install_file::InstallFile;
use starmod::manifest::Manifest;
use starmod::mods::{
    disable_mod, enable_mod, enabled_indices, find_mod, find_mod_by_name, link_step, plan_disable,
    plan_enable, removes_link, restores_backup, FindInModList, LinkStep, ModKind,
};
use starmod::tag::{Colour, Tag};

fn data_mod(name: &str, priority: isize, enabled: bool, files: &[&str]) -> Manifest {
    let fs: Vec<InstallFile> = files
        .iter()
        .map(|f| InstallFile::new_raw(f.to_string(), format!("Data/{}", f)))
        .collect();
    let mut m = Manifest::new(
        "cache",
        name,
        name.to_string(),
        name.to_string(),
        None,
        None,
        fs,
        Vec::new(),
        ModKind::Data,
    );
    m.set_priority(priority);
    if enabled {
        m.set_enabled();
    }
    m
}

fn pairs(files: &[InstallFile]) -> Vec<(String, String)> {
    files.iter().map(|f| (f.source().to_string(), f.destination().to_string())).collect()
}

fn pair(a: &str, b: &str) -> (String, String) {
    (a.to_string(), b.to_string())
}

fn two_mods() -> Vec<Manifest> {
    vec![
        data_mod("a", 0, true, &["x.esp", "a.esp"]),
        data_mod("b", 1, true, &["x.esp"]),
    ]
}

#[test]
fn conflict_by_file_lists_owners_in_order() {
    let mods = two_mods();
    let cl = conflict_list_by_file(&mods);
    assert_eq!(cl.len(), 1);
    assert_eq!(cl.file_at(0), "Data/x.esp");
    assert_eq!(cl.get("Data/x.esp"), Some(&vec!["a".to_string(), "b".to_string()]));
    assert!(cl.get("Data/a.esp").is_none());
    assert!(cl.contains_key("Data/x.esp"));
    assert_eq!(names_for_file(&mods, "Data/x.esp"), vec!["a".to_string(), "b".to_string()]);
}

#[test]
fn no_conflict_without_an_enabled_owner() {
    let mods = vec![
        data_mod("a", 0, false, &["x.esp"]),
        data_mod("b", 1, false, &["x.esp"]),
    ];
    let cl = conflict_list_by_file(&mods);
    assert_eq!(cl.len(), 0);
    assert!(enabled_dest_files(&mods).is_empty());
}

#[test]
fn enabled_destinations_have_no_repeats() {
    let mods = two_mods();
    let mut d = enabled_dest_files(&mods);
    d.sort();
    assert_eq!(d, vec!["Data/a.esp".to_string(), "Data/x.esp".to_string()]);
}

#[test]
fn conflicts_per_mod() {
    let mods = two_mods();
    let cm = conflict_list_by_mod(&mods);
    let a = cm.get("a").expect("a conflicts");
    assert_eq!(a.conflict_files(), &["Data/x.esp".to_string()]);
    assert_eq!(a.losing_to(), &["b".to_string()]);
    assert!(a.winning_over().is_empty());
    let b = cm.get("b").expect("b conflicts");
    assert_eq!(b.winning_over(), &["a".to_string()]);
    assert!(b.losing_to().is_empty());
}

#[test]
fn status_tags() {
    let mods = vec![
        data_mod("a", 0, true, &["x.esp", "a.esp"]),
        data_mod("b", 1, true, &["x.esp", "y.esp"]),
        data_mod("c", 2, true, &["y.esp"]),
        data_mod("d", 3, false, &["z.esp"]),
        data_mod("e", 4, true, &["e.esp"]),
    ];
    let cm = conflict_list_by_mod(&mods);
    // `a` only loses `x.esp`; the entry for `y.esp` does not name it.
    assert_eq!(mod_tag(&cm, &mods[0]), Tag::Loser);
    assert_eq!(mod_tag(&cm, &mods[1]), Tag::Conflict);
    assert_eq!(mod_tag(&cm, &mods[2]), Tag::Winner);
    assert_eq!(mod_tag(&cm, &mods[3]), Tag::Disabled);
    assert_eq!(mod_tag(&cm, &mods[4]), Tag::Enabled);
    let all_lost = vec![
        data_mod("a", 0, true, &["x.esp"]),
        data_mod("b", 1, true, &["x.esp"]),
    ];
    let cm2 = conflict_list_by_mod(&all_lost);
    assert_eq!(mod_tag(&cm2, &all_lost[0]), Tag::CompleteLoser);
    assert_eq!(mod_tag(&cm2, &all_lost[1]), Tag::Winner);
    let partly_lost = two_mods();
    let cm3 = conflict_list_by_mod(&partly_lost);
    assert_eq!(mod_tag(&cm3, &partly_lost[0]), Tag::Loser);
}

#[test]
fn tag_marks() {
    assert_eq!(Tag::CompleteLoser.label(), "All Files Overwritten");
    assert_eq!(Tag::Winner.to_char(), 'w');
    assert_eq!(Tag::Disabled.colour(), Colour::DarkGrey);
    assert_eq!(Tag::from_flags(true, true), Tag::Conflict);
    assert_eq!(Tag::from_flags(false, false), Tag::Enabled);
}

#[test]
fn winner_keeps_conflicting_file() {
    let mods = two_mods();
    let cl = conflict_list_by_file(&mods);
    assert_eq!(pairs(&enlist_files(&mods[0], &cl)), vec![pair("a/a.esp", "Data/a.esp")]);
    assert_eq!(pairs(&enlist_files(&mods[1], &cl)), vec![pair("b/x.esp", "Data/x.esp")]);
}

#[test]
fn enable_all_links_winners() {
    let mut mods = vec![
        data_mod("a", 0, false, &["x.esp", "a.esp"]),
        data_mod("b", 1, false, &["x.esp"]),
        data_mod("n", -1, false, &["n.esp"]),
    ];
    let plan = plan_enable(&mut mods);
    assert_eq!(
        pairs(&plan),
        vec![pair("a/a.esp", "Data/a.esp"), pair("b/x.esp", "Data/x.esp")]
    );
    assert!(mods[0].is_enabled() && mods[1].is_enabled());
    assert!(!mods[2].is_enabled());
}

#[test]
fn enabling_a_mod_keeps_a_later_winner_linked() {
    let mut mods = vec![
        data_mod("a", 0, false, &["x.esp"]),
        data_mod("b", 1, true, &["x.esp"]),
    ];
    let plans = enable_mod(&mut mods, 0).expect("mod exists");
    assert_eq!(plans.len(), 1);
    assert_eq!(pairs(&plans[0].link), vec![pair("b/x.esp", "Data/x.esp")]);
    assert!(mods[0].is_enabled());
    let mut negative = vec![data_mod("n", -1, false, &["n.esp"])];
    let plans = enable_mod(&mut negative, 0).expect("mod exists");
    assert!(!negative[0].is_enabled());
    assert!(plans[0].link.is_empty());
}

#[test]
fn disable_after_enable_unlinks_the_same_files() {
    let mut mods = vec![
        data_mod("a", 0, false, &["x.esp", "a.esp"]),
        data_mod("b", 1, false, &["x.esp"]),
    ];
    let linked = plan_enable(&mut mods);
    let unlinked = plan_disable(&mut mods);
    assert_eq!(pairs(&linked), pairs(&unlinked));
    assert!(mods.iter().all(|m| !m.is_enabled()));
}

#[test]
fn disabling_a_mod_relinks_the_rest() {
    let mut mods = two_mods();
    let plan = disable_mod(&mut mods, 1).expect("mod exists");
    assert!(!mods[1].is_enabled());
    assert!(mods[0].is_enabled());
    assert_eq!(
        pairs(&plan.unlink),
        vec![pair("a/x.esp", "Data/x.esp"), pair("a/a.esp", "Data/a.esp"), pair("b/x.esp", "Data/x.esp")]
    );
    assert_eq!(
        pairs(&plan.link),
        vec![pair("a/x.esp", "Data/x.esp"), pair("a/a.esp", "Data/a.esp")]
    );
    assert!(disable_mod(&mut mods, 5).is_none());
}

#[test]
fn enabling_an_enabled_mod_plans_twice() {
    let mut mods = two_mods();
    let plans = enable_mod(&mut mods, 0).expect("mod exists");
    assert_eq!(plans.len(), 2);
    let mut mods2 = vec![
        data_mod("a", 0, true, &["a.esp"]),
        data_mod("b", 1, false, &["x.esp"]),
    ];
    let plans2 = enable_mod(&mut mods2, 1).expect("mod exists");
    assert_eq!(plans2.len(), 1);
    assert!(mods2[1].is_enabled());
    assert_eq!(
        pairs(&plans2[0].link),
        vec![pair("a/a.esp", "Data/a.esp"), pair("b/x.esp", "Data/x.esp")]
    );
    assert!(enable_mod(&mut mods2, 2).is_none());
}

#[test]
fn enabled_positions() {
    let mut mods = two_mods();
    mods.insert(1, data_mod("c", 0, false, &[]));
    assert_eq!(enabled_indices(&mods), vec![0, 2]);
}

#[test]
fn finding_mods() {
    let mods = two_mods();
    assert_eq!(find_mod_by_name(&mods, "b"), Some(1));
    assert_eq!(find_mod_by_name(&mods, "z"), None);
    assert_eq!(find_mod(&mods, "1"), Some(1));
    assert_eq!(find_mod(&mods, "7"), Some(7));
    assert_eq!(find_mod(&mods, "a"), Some(0));
    assert_eq!(mods.find_mod("b"), Some(1));
    assert_eq!(mods.find_mod_by_name("a"), Some(0));
}

#[test]
fn mod_kind_detection() {
    let shallow = vec!["fomod/info.xml".to_string(), "fomod/moduleconfig.xml".to_string()];
    assert_eq!(ModKind::detect_mod_type(&shallow, &Vec::new()), ModKind::FoMod);
    let deep = vec!["bin/sfse_loader.exe".to_string()];
    assert_eq!(ModKind::detect_mod_type(&Vec::new(), &deep), ModKind::Loader);
    let plain = vec!["textures".to_string(), "a.esp".to_string()];
    assert_eq!(ModKind::detect_mod_type(&plain, &plain), ModKind::Data);
    assert_eq!(ModKind::Custom.label(), "Custom");
}

#[test]
fn each_destination_is_linked_once() {
    let mut mods = vec![
        data_mod("a", 0, false, &["x.esp", "y.esp", "a.esp"]),
        data_mod("b", 1, false, &["x.esp"]),
        data_mod("c", 2, false, &["y.esp", "x.esp"]),
    ];
    let plan = plan_enable(&mut mods);
    let mut dests: Vec<String> = plan.iter().map(|f| f.destination().to_string()).collect();
    let n = dests.len();
    dests.sort();
    dests.dedup();
    assert_eq!(dests.len(), n);
    assert_eq!(
        pairs(&plan),
        vec![pair("a/a.esp", "Data/a.esp"), pair("c/y.esp", "Data/y.esp"), pair("c/x.esp", "Data/x.esp")]
    );
}

#[test]
fn a_negative_priority_holder_does_not_shadow_the_file() {
    let mut mods = vec![data_mod("a", 0, false, &["x.esp", "a.esp"]), data_mod("b", -1, false, &["x.esp"])];
    let plan = plan_enable(&mut mods);
    assert_eq!(pairs(&plan), vec![pair("a/x.esp", "Data/x.esp"), pair("a/a.esp", "Data/a.esp")]);
}

#[test]
fn disabled_mods_take_no_part_in_conflicts() {
    let mods = vec![data_mod("a", 0, true, &["x.esp"]), data_mod("b", 1, false, &["x.esp"])];
    assert_eq!(conflict_list_by_file(&mods).len(), 0);
}

#[test]
fn link_and_unlink_decisions() {
    assert_eq!(link_step(false, false, false, false), LinkStep::Link);
    assert_eq!(link_step(false, true, true, false), LinkStep::Link);
    assert_eq!(link_step(true, true, true, true), LinkStep::ReplaceOwnLink);
    assert_eq!(link_step(true, true, false, true), LinkStep::BackUpThenLink);
    assert_eq!(link_step(true, false, false, true), LinkStep::BackUpThenLink);
    assert!(removes_link(true, true, true));
    assert!(!removes_link(true, true, false));
    assert!(restores_backup(true, Some("starmod_bkp"), false));
    assert!(!restores_backup(true, Some("starmod_bkp"), true));
    assert!(!restores_backup(true, Some("bak"), false));
}

#[test]
fn a_mod_wins_over_only_mods_it_overrides() {
    let mods = vec![
        data_mod("a", 0, true, &["f1.esp"]),
        data_mod("b", 1, true, &["f1.esp"]),
        data_mod("c", 2, true, &["f2.esp"]),
        data_mod("d", 3, true, &["f2.esp"]),
    ];
    let cm = conflict_list_by_mod(&mods);
    let a = cm.get("a").expect("a conflicts");
    assert!(a.winning_over().is_empty());
    assert_eq!(a.losing_to(), &["b".to_string()]);
    assert_eq!(mod_tag(&cm, &mods[0]), Tag::CompleteLoser);
    let c = cm.get("c").expect("c conflicts");
    assert!(c.winning_over().is_empty());
    let b = cm.get("b").expect("b conflicts");
    assert_eq!(b.winning_over(), &["a".to_string()]);
    assert_eq!(mod_tag(&cm, &mods[1]), Tag::Winner);
}
