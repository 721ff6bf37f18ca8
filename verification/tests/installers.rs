use starmod::dmodman::{DmodMan, UpdateStatus};
use starmod::installers::custom::{create_custom_manifest, custom_install_files};
use starmod::installers::data::{create_data_manifest, data_install_files, data_search_reads, find_data_dir};
use starmod::installers::fomod::{
    conditionals_evaluable_with, create_fomod_manifest, fetch_plugin_flags, fomod_install_files, fomod_names, remove_shadowed,
    ConditionFlag, ConditionalInstall, FomodCondition, FomodConfig, FomodDependency, FomodEntry,
    FomodGroup, FomodPlugin, GroupKind, Selection, SelectionStep,
};
use starmod::installers::fomod_xml::read_fomod;
use starmod::installers::label::create_label_manifest;
use starmod::installers::loader::{create_loader_manifest, files_ready, loader_install_files};
use starmod::installers::stdin::{Input, InputWithDefault, InputWithDone};
use starmod::installers::{InstallerError, WalkEntry};
use starmod::manifest::install_file::InstallFile;
use starmod::mods::ModKind;

fn entry(path: &str, is_dir: bool) -> WalkEntry {
    let p = std::path::Path::new(path);
    WalkEntry {
        path: path.to_string(),
        file_name: p.file_name().unwrap().to_str().unwrap().to_string(),
        extension: if is_dir { None } else { p.extension().map(|e| e.to_str().unwrap().to_string()) },
        depth: path.split('/').count(),
        is_dir,
        is_file: !is_dir,
    }
}

fn pairs(files: &[InstallFile]) -> Vec<(String, String)> {
    files.iter().map(|f| (f.source().to_string(), f.destination().to_string())).collect()
}

fn pair(a: &str, b: &str) -> (String, String) {
    (a.to_string(), b.to_string())
}

fn file_entry(source: &str, destination: &str) -> FomodEntry {
    FomodEntry { source: source.to_string(), destination: Some(destination.to_string()), folder: None }
}

fn flag(name: &str, value: &str) -> ConditionFlag {
    ConditionFlag { name: name.to_string(), value: value.to_string() }
}

fn plugin(name: &str, files: Vec<FomodEntry>, flags: Vec<ConditionFlag>) -> FomodPlugin {
    FomodPlugin { name: name.to_string(), description: String::new(), files, flags }
}

#[test]
fn typed_inputs() {
    assert_eq!(Input::from_str("EXIT"), Some(Input::Exit));
    assert_eq!(Input::from_str("e"), Some(Input::Exit));
    assert_eq!(Input::from_str("12"), Some(Input::Digit(12)));
    assert_eq!(Input::from_str("300"), None);
    assert_eq!(Input::from_str("what"), None);
    assert_eq!(InputWithDone::from_str("Done"), Some(InputWithDone::Done));
    assert_eq!(InputWithDone::from_str("3"), Some(InputWithDone::Input(Input::Digit(3))));
    assert_eq!(InputWithDefault::from_str(""), Some(InputWithDefault::Default));
    assert_eq!(InputWithDefault::from_str("x"), None);
    assert_eq!(InputWithDefault::from_str("exit"), Some(InputWithDefault::Input(Input::Exit)));
}

#[test]
fn selection_of_exactly_one() {
    let mut s = Selection::new(GroupKind::SelectExactlyOne, 3);
    assert!(!s.is_complete());
    assert_eq!(s.step(InputWithDone::Done), SelectionStep::Again { invalid: false, empty: false });
    assert_eq!(
        s.step(InputWithDone::Input(Input::Digit(5))),
        SelectionStep::Again { invalid: false, empty: false }
    );
    assert_eq!(s.step(InputWithDone::Input(Input::Digit(2))), SelectionStep::Finished);
    assert_eq!(s.choices(), &vec![2]);
}

#[test]
fn selection_of_at_least_one() {
    let mut s = Selection::new(GroupKind::SelectAtLeastOne, 3);
    assert_eq!(s.step(InputWithDone::Done), SelectionStep::Again { invalid: false, empty: true });
    assert_eq!(
        s.step(InputWithDone::Input(Input::Digit(9))),
        SelectionStep::Again { invalid: true, empty: false }
    );
    assert_eq!(
        s.step(InputWithDone::Input(Input::Digit(0))),
        SelectionStep::Again { invalid: false, empty: false }
    );
    assert_eq!(
        s.step(InputWithDone::Input(Input::Digit(2))),
        SelectionStep::Again { invalid: false, empty: false }
    );
    assert_eq!(s.step(InputWithDone::Done), SelectionStep::Finished);
    assert_eq!(s.choices(), &vec![0, 2]);
    assert_eq!(s.step(InputWithDone::Input(Input::Exit)), SelectionStep::Cancelled);
}

#[test]
fn selection_of_all_needs_no_answer() {
    let s = Selection::new(GroupKind::SelectAll, 3);
    assert!(s.is_complete());
    assert_eq!(s.choices(), &vec![0, 1, 2]);
    let mut any = Selection::new(GroupKind::SelectAny, 2);
    assert_eq!(any.step(InputWithDone::Done), SelectionStep::Finished);
    assert!(any.choices().is_empty());
    let e = Selection::cancelled("some mod");
    assert_eq!(e.message(), "the installer of mod some mod has been cancelled.");
}

#[test]
fn later_files_shadow_earlier_ones() {
    let files = vec![
        InstallFile::new_raw("a1".to_string(), "Data/a".to_string()),
        InstallFile::new_raw("b1".to_string(), "Data/b".to_string()),
        InstallFile::new_raw("a2".to_string(), "Data/a".to_string()),
    ];
    assert_eq!(
        pairs(&remove_shadowed(&files)),
        vec![pair("b1", "Data/b"), pair("a2", "Data/a")]
    );
}

#[test]
fn plugin_flags_are_unique() {
    let plugins = vec![
        plugin("p0", Vec::new(), vec![flag("hd", "on")]),
        plugin("p1", Vec::new(), vec![flag("hd", "on"), flag("lod", "1")]),
    ];
    let flags = fetch_plugin_flags(&[0, 1, 7], &plugins);
    let mut got: Vec<(String, String)> = flags.iter().map(|f| (f.name.clone(), f.value.clone())).collect();
    got.sort();
    assert_eq!(got, vec![pair("hd", "on"), pair("lod", "1")]);
}

fn sample_config() -> FomodConfig {
    let group = FomodGroup {
        step: "Main".to_string(),
        name: "Textures".to_string(),
        kind: GroupKind::SelectExactlyOne,
        plugins: vec![
            plugin("2k", vec![file_entry("Tex\\2K\\A.dds", "textures\\A.dds")], vec![flag("res", "2k")]),
            plugin("4k", vec![file_entry("Tex\\4K\\A.dds", "textures\\A.dds")], vec![flag("res", "4k")]),
        ],
    };
    FomodConfig {
        required: vec![
            file_entry("Core\\Main.esm", "Main.esm"),
            file_entry("Core\\Default.dds", "textures\\A.dds"),
        ],
        groups: vec![group],
        conditionals: vec![
            ConditionalInstall {
                dependency: FomodDependency::Flag(flag("res", "4k")),
                files: vec![file_entry("Extra\\4k.ini", "4k.ini")],
            },
            ConditionalInstall {
                dependency: FomodDependency::Or(vec![
                    FomodCondition::Flag(flag("res", "2k")),
                    FomodCondition::Flag(flag("res", "8k")),
                ]),
                files: vec![file_entry("Extra\\2k.ini", "2k.ini")],
            },
        ],
    }
}

#[test]
fn fomod_files_follow_choices_and_flags() {
    let cfg = sample_config();
    let files = fomod_install_files(&cfg, &vec![vec![1]]);
    assert_eq!(
        pairs(&files),
        vec![
            pair("core/main.esm", "Data/main.esm"),
            pair("tex/4k/a.dds", "Data/Textures/a.dds"),
            pair("extra/4k.ini", "Data/4k.ini"),
        ]
    );
    let files2 = fomod_install_files(&cfg, &vec![vec![0]]);
    assert_eq!(
        pairs(&files2),
        vec![
            pair("core/main.esm", "Data/main.esm"),
            pair("tex/2k/a.dds", "Data/Textures/a.dds"),
            pair("extra/2k.ini", "Data/2k.ini"),
        ]
    );
}

#[test]
fn fomod_folder_entries() {
    let cfg = FomodConfig {
        required: vec![FomodEntry {
            source: "Opt\\Main".to_string(),
            destination: Some("data/Meshes".to_string()),
            folder: Some(vec!["a.nif".to_string(), "sub/b.nif".to_string()]),
        }],
        groups: Vec::new(),
        conditionals: Vec::new(),
    };
    assert_eq!(
        pairs(&fomod_install_files(&cfg, &Vec::new())),
        vec![
            pair("opt/main/a.nif", "Data/meshes/a.nif"),
            pair("opt/main/sub/b.nif", "Data/meshes/sub/b.nif"),
        ]
    );
}

#[test]
fn fomod_manifest_names_and_version() {
    let cfg = sample_config();
    let m = create_fomod_manifest(
        ModKind::FoMod,
        "cache",
        "texpack",
        &Some("Texture Pack".to_string()),
        &Some("2.1".to_string()),
        &cfg,
        &vec![vec![0]],
        None,
    );
    assert_eq!(m.name(), "Texture Pack");
    assert_eq!(m.bare_file_name(), "texpack");
    assert_eq!(m.version(), Some("2.1"));
    assert_eq!(m.nexus_id(), None);
    assert_eq!(m.files().len(), 3);
    let d = DmodMan::new(
        "starfield".to_string(),
        "TexPack-55-3-0-1700000000.7z".to_string(),
        55,
        1,
        UpdateStatus::UpToDate(0),
    );
    let (name, bare) = fomod_names("texpack", &None, Some(&d));
    assert_eq!(name, "texpack");
    assert_eq!(bare, "texpack");
    let m2 = create_fomod_manifest(
        ModKind::FoMod,
        "cache",
        "texpack",
        &None,
        &Some("2.1".to_string()),
        &cfg,
        &vec![vec![0]],
        Some(&d),
    );
    assert_eq!(m2.version(), Some("3.0"));
    assert_eq!(m2.nexus_id(), Some(55));
}

#[test]
fn data_dir_search() {
    let plain = vec![entry("a.esm", false), entry("textures", true), entry("textures/t.dds", false)];
    assert_eq!(find_data_dir("m", &plain).unwrap(), "");
    let nested = vec![
        entry("Mod", true),
        entry("Mod/data", true),
        entry("Mod/data/a.esm", false),
        entry("Mod/readme.txt", false),
    ];
    assert_eq!(find_data_dir("m", &nested).unwrap(), "Mod/data");
    let by_plugin = vec![entry("Mod", true), entry("Mod/a.esm", false), entry("Mod/t.dds", false)];
    assert_eq!(find_data_dir("m", &by_plugin).unwrap(), "Mod");
    let two = vec![entry("x", true), entry("x/data", true), entry("y", true), entry("y/data", true)];
    match find_data_dir("two", &two) {
        Err(InstallerError::MultipleDataDirectories(n)) => assert_eq!(n, "two"),
        other => panic!("unexpected {:?}", other),
    }
    let with_esp = vec![entry("a.esp", false)];
    assert!(find_data_dir("m", &with_esp).is_err());
}

#[test]
fn data_files_and_readmes() {
    let es = vec![
        entry("Mod", true),
        entry("Mod/data", true),
        entry("Mod/data/A.esm", false),
        entry("Mod/data/Textures", true),
        entry("Mod/data/Textures/T.dds", false),
        entry("Mod/data/readme.txt", false),
        entry("Mod/other.txt", false),
    ];
    let (files, readmes) = data_install_files(&es, "Mod/data");
    assert_eq!(
        pairs(&files),
        vec![
            pair("Mod/data/A.esm", "Data/a.esm"),
            pair("Mod/data/Textures/T.dds", "Data/Textures/t.dds"),
        ]
    );
    assert_eq!(pairs(&readmes), vec![pair("Mod/data/readme.txt", "Data/readme.txt")]);
    let m = create_data_manifest(ModKind::Data, "cache", "mod", &es, None).unwrap();
    assert_eq!(m.name(), "mod");
    assert_eq!(m.files().len(), 2);
    assert_eq!(m.disabled_files().len(), 1);
}

#[test]
fn data_manifest_error_names_the_mod() {
    let two = vec![entry("x", true), entry("x/data", true), entry("y", true), entry("y/data", true)];
    let e = create_data_manifest(ModKind::Data, "cache", "twodirs", &two, None).unwrap_err();
    assert_eq!(e.mod_name(), "twodirs");
    assert_eq!(e.message(), "the mod twodirs has multiple data directories.");
}

#[test]
fn loader_files_go_to_the_root() {
    let es = vec![
        entry("sfse", true),
        entry("sfse/sfse_loader.exe", false),
        entry("sfse/sfse_1_0.dll", false),
        entry("sfse/readme.txt", false),
    ];
    let files = loader_install_files(&es);
    assert_eq!(
        pairs(&files),
        vec![
            pair("sfse/sfse_loader.exe", "sfse_loader.exe"),
            pair("sfse/sfse_1_0.dll", "sfse_1_0.dll"),
        ]
    );
    assert!(files_ready(ModKind::Loader, &files));
    assert!(!files_ready(ModKind::Loader, &files[..1]));
    assert!(files_ready(ModKind::Data, &[]));
    let m = create_loader_manifest(ModKind::Loader, "cache", "sfse", &es, None);
    assert_eq!(m.name(), "sfse");
    assert_eq!(m.dest_files(), vec!["sfse_1_0.dll".to_string(), "sfse_loader.exe".to_string()]);
}

#[test]
fn custom_mod_files() {
    let es = vec![entry("Meshes", true), entry("Meshes/X.nif", false), entry("README.md", false), entry("readme.md", false)];
    let (files, readmes) = custom_install_files(&es);
    assert_eq!(pairs(&files), vec![pair("Meshes/X.nif", "Data/meshes/x.nif"), pair("README.md", "Data/readme.md")]);
    assert_eq!(pairs(&readmes), vec![pair("readme.md", "Data/readme.md")]);
    let m = create_custom_manifest(ModKind::Custom, "cache", "mine", &es);
    assert_eq!(m.kind(), ModKind::Custom);
    assert_eq!(m.files().len(), 2);
}

#[test]
fn label_is_empty() {
    let m = create_label_manifest(ModKind::Data, "cache", "--- Section ---");
    assert_eq!(m.version(), Some("Label"));
    assert!(m.files().is_empty());
    assert_eq!(m.name(), "--- Section ---");
}

fn with_conditional(dependency: FomodDependency) -> FomodConfig {
    let mut cfg = sample_config();
    cfg.conditionals = vec![ConditionalInstall { dependency, files: Vec::new() }];
    cfg
}

#[test]
fn conditionals_are_read_until_the_answer_is_known() {
    let choose_4k = vec![vec![1]];
    let and_stops = with_conditional(FomodDependency::And(vec![
        FomodCondition::Flag(flag("res", "2k")),
        FomodCondition::Other,
    ]));
    assert!(conditionals_evaluable_with(&and_stops, &choose_4k));
    let and_reaches = with_conditional(FomodDependency::And(vec![
        FomodCondition::Flag(flag("res", "4k")),
        FomodCondition::Other,
    ]));
    assert!(!conditionals_evaluable_with(&and_reaches, &choose_4k));
    let or_stops = with_conditional(FomodDependency::Or(vec![
        FomodCondition::Flag(flag("res", "4k")),
        FomodCondition::Other,
    ]));
    assert!(conditionals_evaluable_with(&or_stops, &choose_4k));
    assert!(!conditionals_evaluable_with(&or_stops, &vec![vec![0]]));
    assert!(!conditionals_evaluable_with(&with_conditional(FomodDependency::Other), &choose_4k));
    assert!(conditionals_evaluable_with(&sample_config(), &choose_4k));
    assert_eq!(pairs(&fomod_install_files(&and_stops, &choose_4k)).len(), 2);
}

const INFO_XML: &str = r#"<fomod>
  <Name>StarUI Inventory</Name>
  <Version>2.1</Version>
</fomod>"#;

const CONFIG_XML: &str = r#"<config>
    <moduleName>Example Mod</moduleName>
    <requiredInstallFiles>
        <file source="example.plugin"/>
        <file source="example2.plugin"/>
    </requiredInstallFiles>
    <installSteps order="Explicit">
        <installStep name="Choose Option">
            <optionalFileGroups order="Explicit">
                <group name="Select an option:" type="SelectExactlyOne">
                    <plugins order="Explicit">
                        <plugin name="Option A">
                            <description>Option A</description>
                            <files />
                            <typeDescriptor><type name="Recommended"/></typeDescriptor>
                        </plugin>
                        <plugin name="Option B">
                            <description>Option B</description>
                            <files />
                            <typeDescriptor><type name="Optional"/></typeDescriptor>
                        </plugin>
                    </plugins>
                </group>
            </optionalFileGroups>
        </installStep>
    </installSteps>
</config>"#;

#[test]
fn fomod_files_are_read_from_their_xml() {
    let files = read_fomod("m", INFO_XML, CONFIG_XML).expect("both files parse");
    assert_eq!(files.name, Some("StarUI Inventory".to_string()));
    assert_eq!(files.version, Some("2.1".to_string()));
    let sources: Vec<&str> = files.config.required.iter().map(|e| e.source.as_str()).collect();
    assert_eq!(sources, vec!["example.plugin", "example2.plugin"]);
    assert!(files.config.required.iter().all(|e| e.folder.is_none()));
    assert_eq!(files.config.groups.len(), 1);
    let g = &files.config.groups[0];
    assert_eq!(g.step, "Choose Option");
    assert_eq!(g.kind, GroupKind::SelectExactlyOne);
    let names: Vec<&str> = g.plugins.iter().map(|p| p.name.as_str()).collect();
    assert_eq!(names, vec!["Option A", "Option B"]);
    match read_fomod("m", "", CONFIG_XML) {
        Err(InstallerError::InvalidFomod(m, f)) => {
            assert_eq!(m, "m");
            assert_eq!(f, "fomod/info.xml");
        }
        other => panic!("unexpected {:?}", other),
    }
    match read_fomod("m", INFO_XML, "") {
        Err(InstallerError::InvalidFomod(_, f)) => assert_eq!(f, "fomod/moduleconfig.xml"),
        other => panic!("unexpected {:?}", other),
    }
}

#[test]
fn plugin_search_stops_before_files_without_extension() {
    let bare_first = vec![entry("README", false), entry("a.esm", false)];
    assert!(!data_search_reads(&bare_first));
    let esp_first = vec![entry("a.esp", false), entry("README", false)];
    assert!(data_search_reads(&esp_first));
    let two_esm = vec![entry("a.esm", false), entry("b.esm", false), entry("README", false)];
    assert!(data_search_reads(&two_esm));
    let with_data = vec![entry("data", true), entry("README", false)];
    assert!(data_search_reads(&with_data));
    match create_data_manifest(ModKind::Data, "cache", "m", &esp_first, None) {
        Err(InstallerError::MultipleDataDirectories(n)) => assert_eq!(n, "m"),
        other => panic!("unexpected {:?}", other),
    }
}
