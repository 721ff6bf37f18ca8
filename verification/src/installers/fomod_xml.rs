//! Reading the two XML files of a FOMOD mod with the `fomod` crate: its
//! information file (name and version) and its configuration, brought into
//! the installer's own `FomodConfig`. Which files lie below a folder entry
//! is not in the XML: the caller fills it in from the extracted mod.

use vstd::prelude::*;

use super::fomod::{
    opt_seq, ConditionFlag, ConditionalInstall, ConfigView, FomodCondition, FomodConfig,
    FomodDependency, FomodEntry, FomodEntryView, FomodGroup, FomodPlugin, GroupKind,
    FOMOD_INFO_FILE, FOMOD_MODCONFIG_FILE,
};
use super::InstallerError;

verus! {

#[verifier::external_type_specification]
#[verifier::external_body]
pub struct ExFomodConfig(fomod::Config);

#[verifier::external_type_specification]
#[verifier::external_body]
pub struct ExFomodGroup(fomod::Group);

#[verifier::external_type_specification]
#[verifier::external_body]
pub struct ExFomodPlugin(fomod::Plugin);

#[verifier::external_type_specification]
#[verifier::external_body]
pub struct ExFomodFileType(fomod::FileType);

#[verifier::external_type_specification]
#[verifier::external_body]
pub struct ExFomodDependency(fomod::Dependency);

/// What `fomod::Config::try_from` makes of the configuration text `xml`,
/// brought into the installer's configuration: the required files, the
/// groups of the install steps in the order `vec_sorted` gives them, and
/// the conditional installs; nothing where the text does not parse.
pub uninterp spec fn fomod_config_of(xml: Seq<char>) -> Option<ConfigView>;

/// What `fomod::Info::try_from` makes of the information text `xml`: its
/// name and version; nothing where the text does not parse.
pub uninterp spec fn fomod_info_of(xml: Seq<char>) -> Option<(Option<Seq<char>>, Option<Seq<char>>)>;

/// No entry of the entries `es` has its folder filled in.
pub open spec fn entries_unfilled(es: Seq<FomodEntryView>) -> bool {
    forall|k: int| 0 <= k < es.len() ==> (#[trigger] es[k]).folder is None
}

/// No entry of the configuration has its folder filled in.
pub open spec fn folders_unfilled(c: ConfigView) -> bool {
    &&& entries_unfilled(c.required)
    &&& forall|g: int, p: int|
        0 <= g < c.groups.len() && 0 <= p < c.groups[g].plugins.len() ==> entries_unfilled(
            #[trigger] c.groups[g].plugins[p].files,
        )
    &&& forall|k: int| 0 <= k < c.conditionals.len() ==> entries_unfilled(#[trigger] c.conditionals[k].files)
}

/// The view of an optional configuration.
pub open spec fn opt_config(c: Option<FomodConfig>) -> Option<ConfigView> {
    match c {
        Some(x) => Some(x@),
        None => None,
    }
}

/// The file entry of a `fomod::FileType`, as the configuration gives it.
#[verifier::external_body]
fn entry_of(f: &fomod::FileType) -> FomodEntry {
    FomodEntry { source: f.source.clone(), destination: f.destination.clone(), folder: None }
}

/// The file entries of a list of `fomod::FileType`.
#[verifier::external_body]
fn entries_of(fs: &Vec<fomod::FileType>) -> Vec<FomodEntry> {
    fs.iter().map(entry_of).collect()
}

/// One condition of a composite `fomod::Dependency`.
#[verifier::external_body]
fn condition_of(d: &fomod::Dependency) -> FomodCondition {
    match d {
        fomod::Dependency::Flag(f) => FomodCondition::Flag(ConditionFlag { name: f.flag.clone(), value: f.value.clone() }),
        _ => FomodCondition::Other,
    }
}

/// The dependency of a conditional install, from a `fomod::Dependency`.
#[verifier::external_body]
fn dependency_of(d: &fomod::Dependency) -> FomodDependency {
    match d {
        fomod::Dependency::Flag(f) => FomodDependency::Flag(ConditionFlag { name: f.flag.clone(), value: f.value.clone() }),
        fomod::Dependency::Dependency(fomod::DependencyOperator::And(l)) => FomodDependency::And(l.iter().map(condition_of).collect()),
        fomod::Dependency::Dependency(fomod::DependencyOperator::Or(l)) => FomodDependency::Or(l.iter().map(condition_of).collect()),
        _ => FomodDependency::Other,
    }
}

/// A plugin of a group, from a `fomod::Plugin`.
#[verifier::external_body]
fn plugin_of(p: &fomod::Plugin) -> FomodPlugin {
    FomodPlugin {
        name: p.name.clone(),
        description: p.description.clone(),
        files: entries_of(&p.files),
        flags: p.condition_flags.iter().map(|f| ConditionFlag { name: f.name.clone(), value: f.flag_value.clone() }).collect(),
    }
}

/// A group of the install step `step`, from a `fomod::Group`, its plugins
/// in the order `vec_sorted` gives them.
#[verifier::external_body]
fn group_of(step: &str, g: &fomod::Group) -> FomodGroup {
    let (kind, plugins) = match &g.plugins {
        fomod::GroupType::SelectAtLeastOne(p) => (GroupKind::SelectAtLeastOne, p),
        fomod::GroupType::SelectAtMostOne(p) => (GroupKind::SelectAtMostOne, p),
        fomod::GroupType::SelectExactlyOne(p) => (GroupKind::SelectExactlyOne, p),
        fomod::GroupType::SelectAll(p) => (GroupKind::SelectAll, p),
        fomod::GroupType::SelectAny(p) => (GroupKind::SelectAny, p),
    };
    FomodGroup { step: step.to_string(), name: g.name.clone(), kind, plugins: plugins.vec_sorted().iter().map(plugin_of).collect() }
}

/// The installer's configuration from a `fomod::Config`: the groups of the
/// install steps, steps and groups in the order `vec_sorted` gives them.
#[verifier::external_body]
fn config_of(c: &fomod::Config) -> FomodConfig {
    let groups: Vec<FomodGroup> = c.install_steps.vec_sorted().iter().flat_map(|s| {
        s.optional_file_groups.vec_sorted().iter().map(|g| group_of(&s.name, g)).collect::<Vec<_>>()
    }).collect();
    let conditionals = c.conditional_file_installs.iter().map(|ci| ConditionalInstall {
        dependency: dependency_of(&ci.dependencies),
        files: entries_of(&ci.files),
    }).collect();
    FomodConfig { required: entries_of(&c.required_install_files), groups, conditionals }
}

/// Parses the configuration text `xml` with `fomod::Config::try_from` and
/// brings it into the installer's configuration; the result is named by
/// `fomod_config_of`, and no folder entry has its files filled in yet.
#[verifier::external_body]
fn parse_config(xml: &str) -> (r: Option<FomodConfig>)
    ensures
        opt_config(r) == fomod_config_of(xml@),
        r matches Some(c) ==> folders_unfilled(c@),
{
    fomod::Config::try_from(xml).ok().map(|c| config_of(&c))
}

/// Parses the information text `xml` with `fomod::Info::try_from`; the
/// name and version it gives are named by `fomod_info_of`.
#[verifier::external_body]
fn parse_info(xml: &str) -> (r: Option<(Option<String>, Option<String>)>)
    ensures
        match r {
            Some((n, v)) => fomod_info_of(xml@) == Some((opt_seq(n), opt_seq(v))),
            None => fomod_info_of(xml@) is None,
        },
{
    fomod::Info::try_from(xml).ok().map(|i| (i.name, i.version))
}

/// What the installer reads of a FOMOD mod's XML files.
#[derive(Debug)]
pub struct FomodFiles {
    /// The name in the information file.
    pub name: Option<String>,
    /// The version in the information file.
    pub version: Option<String>,
    /// The configuration, its folder entries not yet filled in.
    pub config: FomodConfig,
}

/// Reads the information file and the configuration of the FOMOD mod
/// `mod_name` from their texts; the error names the first of the two files
/// that does not parse.
pub fn read_fomod(mod_name: &str, info_xml: &str, config_xml: &str) -> (r: Result<FomodFiles, InstallerError>)
    ensures
        match (fomod_info_of(info_xml@), fomod_config_of(config_xml@)) {
            (Some((n, v)), Some(c)) => r matches Ok(f) && opt_seq(f.name) == n && opt_seq(f.version) == v
                && f.config@ == c && folders_unfilled(c),
            (None, _) => r matches Err(InstallerError::InvalidFomod(m, file)) && m@ == mod_name@ && file@
                == FOMOD_INFO_FILE@,
            (Some(_), None) => r matches Err(InstallerError::InvalidFomod(m, file)) && m@ == mod_name@
                && file@ == FOMOD_MODCONFIG_FILE@,
        },
{
    let (name, version) = match parse_info(info_xml) {
        Some(i) => i,
        None => {
            return Err(
                InstallerError::InvalidFomod(String::from_str(mod_name), String::from_str(FOMOD_INFO_FILE)),
            );
        },
    };
    match parse_config(config_xml) {
        Some(config) => Ok(FomodFiles { name, version, config }),
        None => Err(
            InstallerError::InvalidFomod(String::from_str(mod_name), String::from_str(FOMOD_MODCONFIG_FILE)),
        ),
    }
}

} // verus!
