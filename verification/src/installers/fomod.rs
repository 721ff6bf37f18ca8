//! The installer of a FOMOD mod: the mod ships a configuration of install
//! steps, each made of groups of optional plugins; the user picks plugins
//! group by group, and the chosen plugins' files, those the configuration
//! always installs and those whose conditions the chosen plugins meet are
//! installed.
//!
//! The configuration reaches the library already read: `FomodConfig` holds
//! what the installer reads of it, groups in the order of their steps.

use vstd::prelude::*;

use super::stdin::{Input, InputWithDone};
use super::InstallerError;
use crate::dmodman::{dmod_version, DmodMan, DmodView};
use crate::manifest::install_file::{data_destination, file_specs, FileSpec, InstallFile};
use crate::manifest::{internal_of, Manifest, ManifestView};
use crate::manifest::mod_state::ModState;
use crate::mods::ModKind;
use crate::paths::{join, path_join};
use crate::text::{replace_all, replace_str, str_eq, str_lower, strip_prefix, strip_prefix_str, to_lower};

verus! {

/// The path of a mod's FOMOD information file.
pub const FOMOD_INFO_FILE: &'static str = "fomod/info.xml";

/// The path of a mod's FOMOD configuration file.
pub const FOMOD_MODCONFIG_FILE: &'static str = "fomod/moduleconfig.xml";

/// A condition flag: its name and its value.
#[derive(Debug)]
pub struct ConditionFlag {
    pub name: String,
    pub value: String,
}

impl View for ConditionFlag {
    type V = (Seq<char>, Seq<char>);

    open spec fn view(&self) -> (Seq<char>, Seq<char>) {
        (self.name@, self.value@)
    }
}

/// The abstract value of a file entry of the configuration.
pub struct FomodEntryView {
    pub source: Seq<char>,
    pub destination: Option<Seq<char>>,
    pub folder: Option<Seq<Seq<char>>>,
}

/// A file entry of the configuration: a file, or a folder together with
/// the files found below it (paths relative to the folder, in walk order).
/// Paths in the configuration may use `\` as separator.
#[derive(Debug)]
pub struct FomodEntry {
    pub source: String,
    pub destination: Option<String>,
    pub folder: Option<Vec<String>>,
}

/// The views of a vector of strings.
pub open spec fn str_seqs(v: Seq<String>) -> Seq<Seq<char>> {
    v.map_values(|s: String| s@)
}

impl View for FomodEntry {
    type V = FomodEntryView;

    open spec fn view(&self) -> FomodEntryView {
        FomodEntryView {
            source: self.source@,
            destination: match self.destination {
                Some(d) => Some(d@),
                None => None,
            },
            folder: match self.folder {
                Some(l) => Some(str_seqs(l@)),
                None => None,
            },
        }
    }
}

/// The views of file entries.
pub open spec fn entry_views(s: Seq<FomodEntry>) -> Seq<FomodEntryView> {
    s.map_values(|e: FomodEntry| e@)
}

/// `s` with `/` in place of every `\`.
pub open spec fn slashes(s: Seq<char>) -> Seq<char> {
    replace_all(s, "\\"@, "/"@)
}

/// The lower-cased source of an entry, with `/` as separator.
pub open spec fn entry_source(e: FomodEntryView) -> Seq<char> {
    str_lower(slashes(e.source))
}

/// The destination of a file entry: the configured one, with `/` as
/// separator, or the empty path.
pub open spec fn file_destination(e: FomodEntryView) -> Seq<char> {
    match e.destination {
        Some(d) => slashes(d),
        None => Seq::empty(),
    }
}

/// The destination of a folder entry: the configured one with `/` as
/// separator, lower-cased and without a leading `data/` where it has one,
/// or the empty path.
pub open spec fn folder_destination(e: FomodEntryView) -> Seq<char> {
    match e.destination {
        Some(d) => match strip_prefix(slashes(d), "data/"@) {
            Some(t) => str_lower(t),
            None => slashes(d),
        },
        None => Seq::empty(),
    }
}

/// The install file of the file `rel` found below a folder entry.
pub open spec fn folder_file(e: FomodEntryView, rel: Seq<char>) -> FileSpec {
    FileSpec {
        source: path_join(entry_source(e), rel),
        destination: data_destination(folder_destination(e) + "/"@ + rel),
    }
}

/// The install files of an entry.
pub open spec fn entry_files(e: FomodEntryView) -> Seq<FileSpec> {
    match e.folder {
        None => seq![
            FileSpec {
                source: entry_source(e),
                destination: data_destination(file_destination(e)),
            },
        ],
        Some(l) => l.map_values(|rel: Seq<char>| folder_file(e, rel)),
    }
}

/// The install files of entries, entry by entry.
pub open spec fn entries_files(es: Seq<FomodEntryView>) -> Seq<FileSpec>
    decreases es.len(),
{
    if es.len() == 0 {
        Seq::empty()
    } else {
        entries_files(es.drop_last()) + entry_files(es.last())
    }
}

/// The lower-cased source of an entry, with `/` as separator: the folder
/// whose files a folder entry installs, relative to the mod's directory.
pub fn entry_source_of(e: &FomodEntry) -> (r: String)
    ensures
        r@ == entry_source(e@),
{
    proof {
        reveal_strlit("\\");
    }
    let s = replace_str(e.source.as_str(), "\\", "/");
    to_lower(s.as_str())
}

/// The install files of one entry.
fn entry_install_files(e: &FomodEntry) -> (r: Vec<InstallFile>)
    ensures
        file_specs(r@) == entry_files(e@),
{
    proof {
        reveal_strlit("\\");
        reveal_strlit("/");
        reveal_strlit("data/");
    }
    let source = entry_source_of(e);
    match &e.folder {
        None => {
            let destination = match &e.destination {
                Some(d) => replace_str(d.as_str(), "\\", "/"),
                None => String::new(),
            };
            let f = InstallFile::new(source, destination);
            let mut r: Vec<InstallFile> = Vec::new();
            r.push(f);
            assert(file_specs(r@) =~= entry_files(e@));
            r
        },
        Some(list) => {
            let dst = match &e.destination {
                Some(d) => {
                    let d1 = replace_str(d.as_str(), "\\", "/");
                    match strip_prefix_str(d1.as_str(), "data/") {
                        Some(t) => to_lower(t.as_str()),
                        None => d1,
                    }
                },
                None => String::new(),
            };
            assert(dst@ == folder_destination(e@));
            let ghost g = |rel: Seq<char>| folder_file(e@, rel);
            let mut r: Vec<InstallFile> = Vec::new();
            let mut i: usize = 0;
            while i < list.len()
                invariant
                    i <= list@.len(),
                    e.folder == Some(*list),
                    source@ == entry_source(e@),
                    dst@ == folder_destination(e@),
                    g == (|rel: Seq<char>| folder_file(e@, rel)),
                    file_specs(r@) == str_seqs(list@).take(i as int).map_values(g),
                decreases list.len() - i,
            {
                let rel = &list[i];
                let src = join(source.as_str(), rel.as_str());
                let d = dst.clone().concat("/").concat(rel.as_str());
                let f = InstallFile::new(src, d);
                assert(str_seqs(list@)[i as int] == rel@);
                assert(f@ == g(rel@));
                let ghost before = file_specs(r@);
                r.push(f);
                assert(file_specs(r@) =~= before.push(g(rel@)));
                assert(str_seqs(list@).take(i + 1) =~= str_seqs(list@).take(i as int).push(rel@));
                i += 1;
            }
            assert(str_seqs(list@).take(i as int) =~= str_seqs(list@));
            r
        },
    }
}

/// The install files of entries of the configuration, in order.
pub fn to_own_vec(entries: &Vec<FomodEntry>) -> (r: Vec<InstallFile>)
    ensures
        file_specs(r@) == entries_files(entry_views(entries@)),
{
    let ghost es = entry_views(entries@);
    let mut r: Vec<InstallFile> = Vec::new();
    let mut i: usize = 0;
    assert(es.take(0) =~= Seq::<FomodEntryView>::empty());
    assert(file_specs(r@) =~= Seq::<FileSpec>::empty());
    while i < entries.len()
        invariant
            i <= entries@.len(),
            es == entry_views(entries@),
            file_specs(r@) == entries_files(es.take(i as int)),
        decreases entries.len() - i,
    {
        let mut part = entry_install_files(&entries[i]);
        assert(es.take(i + 1).drop_last() =~= es.take(i as int));
        assert(es.take(i + 1).last() == entries@[i as int]@);
        let ghost before = file_specs(r@);
        let ghost added = file_specs(part@);
        r.append(&mut part);
        assert(file_specs(r@) =~= before + added);
        i += 1;
    }
    assert(es.take(i as int) =~= es);
    r
}


/// The abstract value of a plugin.
pub struct PluginView {
    pub name: Seq<char>,
    pub description: Seq<char>,
    pub files: Seq<FomodEntryView>,
    pub flags: Seq<(Seq<char>, Seq<char>)>,
}

/// A plugin of a group: what choosing it installs and which condition
/// flags choosing it sets.
#[derive(Debug)]
pub struct FomodPlugin {
    pub name: String,
    pub description: String,
    pub files: Vec<FomodEntry>,
    pub flags: Vec<ConditionFlag>,
}

/// The views of condition flags.
pub open spec fn flag_views(s: Seq<ConditionFlag>) -> Seq<(Seq<char>, Seq<char>)> {
    s.map_values(|f: ConditionFlag| f@)
}

impl View for FomodPlugin {
    type V = PluginView;

    open spec fn view(&self) -> PluginView {
        PluginView {
            name: self.name@,
            description: self.description@,
            files: entry_views(self.files@),
            flags: flag_views(self.flags@),
        }
    }
}

/// The views of plugins.
pub open spec fn plugin_views(s: Seq<FomodPlugin>) -> Seq<PluginView> {
    s.map_values(|p: FomodPlugin| p@)
}

/// The install files of the chosen plugins, choice by choice; a choice
/// beyond the plugins chooses nothing.
pub open spec fn chosen_files(choices: Seq<usize>, plugins: Seq<PluginView>) -> Seq<FileSpec>
    decreases choices.len(),
{
    if choices.len() == 0 {
        Seq::empty()
    } else {
        let c = choices.last() as int;
        chosen_files(choices.drop_last(), plugins) + if c < plugins.len() {
            entries_files(plugins[c].files)
        } else {
            Seq::empty()
        }
    }
}

/// The condition flags that the chosen plugins set.
pub open spec fn chosen_flags(choices: Seq<usize>, plugins: Seq<PluginView>) -> Set<(Seq<char>, Seq<char>)> {
    Set::new(
        |f: (Seq<char>, Seq<char>)|
            exists|k: int|
                0 <= k < choices.len() && (choices[k] as int) < plugins.len()
                    && #[trigger] plugins[choices[k] as int].flags.contains(f),
    )
}

/// The install files of the chosen plugins (`choices` are positions in `plugins`).
pub fn fetch_plugin_files(choices: &[usize], plugins: &[FomodPlugin]) -> (r: Vec<InstallFile>)
    ensures
        file_specs(r@) == chosen_files(choices@, plugin_views(plugins@)),
{
    let ghost ps = plugin_views(plugins@);
    let mut r: Vec<InstallFile> = Vec::new();
    let mut i: usize = 0;
    assert(choices@.take(0) =~= Seq::<usize>::empty());
    assert(file_specs(r@) =~= Seq::<FileSpec>::empty());
    while i < choices.len()
        invariant
            i <= choices@.len(),
            ps == plugin_views(plugins@),
            file_specs(r@) == chosen_files(choices@.take(i as int), ps),
        decreases choices.len() - i,
    {
        let c = choices[i];
        assert(choices@.take(i + 1).drop_last() =~= choices@.take(i as int));
        assert(choices@.take(i + 1).last() == c);
        if c < plugins.len() {
            let mut part = to_own_vec(&plugins[c].files);
            assert(ps[c as int] == plugins@[c as int]@);
            let ghost before = file_specs(r@);
            let ghost added = file_specs(part@);
            r.append(&mut part);
            assert(file_specs(r@) =~= before + added);
        } else {
            assert(chosen_files(choices@.take(i + 1), ps) =~= chosen_files(choices@.take(i as int), ps));
        }
        i += 1;
    }
    assert(choices@.take(i as int) =~= choices@);
    r
}

/// Whether `flags` holds the flag `name` with value `value`.
fn has_flag(flags: &Vec<ConditionFlag>, name: &str, value: &str) -> (r: bool)
    ensures
        r == flag_views(flags@).contains((name@, value@)),
{
    let mut i: usize = 0;
    while i < flags.len()
        invariant
            i <= flags@.len(),
            forall|k: int| 0 <= k < i ==> (#[trigger] flag_views(flags@)[k]) != (name@, value@),
        decreases flags.len() - i,
    {
        assert(flag_views(flags@)[i as int] == flags@[i as int]@);
        if str_eq(flags[i].name.as_str(), name) && str_eq(flags[i].value.as_str(), value) {
            assert(flag_views(flags@)[i as int] == (name@, value@));
            return true;
        }
        i += 1;
    }
    false
}

/// A copy of a condition flag.
fn copy_flag(f: &ConditionFlag) -> (r: ConditionFlag)
    ensures
        r@ == f@,
{
    ConditionFlag { name: f.name.clone(), value: f.value.clone() }
}

/// The condition flags the chosen plugins set, each once.
pub fn fetch_plugin_flags(choices: &[usize], plugins: &[FomodPlugin]) -> (r: Vec<ConditionFlag>)
    ensures
        flag_views(r@).to_set() == chosen_flags(choices@, plugin_views(plugins@)),
        flag_views(r@).no_duplicates(),
{
    let ghost ps = plugin_views(plugins@);
    let mut r: Vec<ConditionFlag> = Vec::new();
    let mut i: usize = 0;
    proof {
        assert(flag_views(r@) =~= Seq::<(Seq<char>, Seq<char>)>::empty());
        assert(flag_views(r@).to_set() =~= chosen_flags(choices@.take(0), ps));
    }
    while i < choices.len()
        invariant
            i <= choices@.len(),
            ps == plugin_views(plugins@),
            flag_views(r@).to_set() == chosen_flags(choices@.take(i as int), ps),
            flag_views(r@).no_duplicates(),
        decreases choices.len() - i,
    {
        let c = choices[i];
        let ghost before_set = flag_views(r@).to_set();
        if c < plugins.len() {
            let p = &plugins[c];
            assert(ps[c as int] == p@);
            let mut j: usize = 0;
            while j < p.flags.len()
                invariant
                    i < choices@.len(),
                    c == choices@[i as int],
                    c < plugins@.len(),
                    *p == plugins@[c as int],
                    ps == plugin_views(plugins@),
                    j <= p.flags@.len(),
                    before_set == chosen_flags(choices@.take(i as int), ps),
                    flag_views(r@).to_set() == before_set + flag_views(p.flags@).take(j as int).to_set(),
                    flag_views(r@).no_duplicates(),
                decreases p.flags.len() - j,
            {
                let f = &p.flags[j];
                assert(flag_views(p.flags@)[j as int] == f@);
                assert(flag_views(p.flags@).take(j + 1) =~= flag_views(p.flags@).take(j as int).push(f@));
                proof {
                    flag_views(p.flags@).take(j as int).lemma_push_to_set_commute(f@);
                }
                if !has_flag(&r, f.name.as_str(), f.value.as_str()) {
                    let ghost before = flag_views(r@);
                    r.push(copy_flag(f));
                    assert(flag_views(r@) =~= before.push(f@));
                    proof {
                        before.lemma_push_to_set_commute(f@);
                        assert(flag_views(r@).no_duplicates()) by {
                            assert forall|a: int, b: int|
                                0 <= a < b < flag_views(r@).len() implies flag_views(r@)[a] != flag_views(r@)[b] by {
                                if b == before.len() {
                                    assert(before.contains(before[a]));
                                }
                            }
                        }
                    }
                    assert(flag_views(r@).to_set() =~= before_set + flag_views(p.flags@).take(j + 1).to_set());
                } else {
                    assert(flag_views(r@).to_set().contains(f@));
                    assert(flag_views(r@).to_set() =~= before_set + flag_views(p.flags@).take(j + 1).to_set());
                }
                j += 1;
            }
            assert(flag_views(p.flags@).take(j as int) =~= flag_views(p.flags@));
            assert(flag_views(r@).to_set() =~= chosen_flags(choices@.take(i + 1), ps)) by {
                assert forall|f: (Seq<char>, Seq<char>)| #[trigger] chosen_flags(choices@.take(i + 1), ps).contains(f)
                    implies flag_views(r@).to_set().contains(f) by {
                    let k = choose|k: int|
                        0 <= k < choices@.take(i + 1).len() && (choices@.take(i + 1)[k] as int) < ps.len()
                            && #[trigger] ps[choices@.take(i + 1)[k] as int].flags.contains(f);
                    if k < i {
                        assert(choices@.take(i as int)[k] == choices@.take(i + 1)[k]);
                        assert(chosen_flags(choices@.take(i as int), ps).contains(f));
                    } else {
                        assert(flag_views(p.flags@).to_set().contains(f));
                    }
                }
                assert forall|f: (Seq<char>, Seq<char>)| flag_views(r@).to_set().contains(f)
                    implies #[trigger] chosen_flags(choices@.take(i + 1), ps).contains(f) by {
                    if before_set.contains(f) {
                        let k = choose|k: int|
                            0 <= k < choices@.take(i as int).len() && (choices@.take(i as int)[k] as int) < ps.len()
                                && #[trigger] ps[choices@.take(i as int)[k] as int].flags.contains(f);
                        assert(choices@.take(i + 1)[k] == choices@.take(i as int)[k]);
                    } else {
                        assert(flag_views(p.flags@).to_set().contains(f));
                        assert(flag_views(p.flags@).contains(f));
                        assert(ps[c as int].flags == flag_views(p.flags@));
                        assert(choices@.take(i + 1)[i as int] == c);
                        assert(ps[choices@.take(i + 1)[i as int] as int].flags.contains(f));
                    }
                }
            }
        } else {
            assert(chosen_flags(choices@.take(i + 1), ps) =~= chosen_flags(choices@.take(i as int), ps)) by {
                assert forall|f: (Seq<char>, Seq<char>)| #[trigger] chosen_flags(choices@.take(i + 1), ps).contains(f)
                    implies chosen_flags(choices@.take(i as int), ps).contains(f) by {
                    let k = choose|k: int|
                        0 <= k < choices@.take(i + 1).len() && (choices@.take(i + 1)[k] as int) < ps.len()
                            && #[trigger] ps[choices@.take(i + 1)[k] as int].flags.contains(f);
                    assert(k < i);
                    assert(choices@.take(i as int)[k] == choices@.take(i + 1)[k]);
                }
                assert forall|f: (Seq<char>, Seq<char>)| #[trigger] chosen_flags(choices@.take(i as int), ps).contains(f)
                    implies chosen_flags(choices@.take(i + 1), ps).contains(f) by {
                    let k = choose|k: int|
                        0 <= k < choices@.take(i as int).len() && (choices@.take(i as int)[k] as int) < ps.len()
                            && #[trigger] ps[choices@.take(i as int)[k] as int].flags.contains(f);
                    assert(choices@.take(i + 1)[k] == choices@.take(i as int)[k]);
                }
            }
        }
        i += 1;
    }
    assert(choices@.take(i as int) =~= choices@);
    r
}


/// How many plugins of a group the user may choose.
#[derive(Copy, Clone, Debug, PartialEq, Eq, Structural)]
pub enum GroupKind {
    SelectAtLeastOne,
    SelectAtMostOne,
    SelectExactlyOne,
    SelectAll,
    SelectAny,
}

/// The abstract value of a group.
pub struct GroupView {
    pub step: Seq<char>,
    pub name: Seq<char>,
    pub kind: GroupKind,
    pub plugins: Seq<PluginView>,
}

/// A group of plugins, with the name of the install step it belongs to.
#[derive(Debug)]
pub struct FomodGroup {
    pub step: String,
    pub name: String,
    pub kind: GroupKind,
    pub plugins: Vec<FomodPlugin>,
}

impl View for FomodGroup {
    type V = GroupView;

    open spec fn view(&self) -> GroupView {
        GroupView {
            step: self.step@,
            name: self.name@,
            kind: self.kind,
            plugins: plugin_views(self.plugins@),
        }
    }
}

/// One condition of a composite dependency: a flag, or anything else (a
/// file, a game or a tool version, a nested composite).
#[derive(Debug)]
pub enum FomodCondition {
    Flag(ConditionFlag),
    Other,
}

/// The dependency of a conditional install.
#[derive(Debug)]
pub enum FomodDependency {
    Flag(ConditionFlag),
    And(Vec<FomodCondition>),
    Or(Vec<FomodCondition>),
    Other,
}

/// The abstract value of a condition.
pub enum CondView {
    Flag((Seq<char>, Seq<char>)),
    Other,
}

/// The abstract value of a dependency.
pub enum DepView {
    Flag((Seq<char>, Seq<char>)),
    And(Seq<CondView>),
    Or(Seq<CondView>),
    Other,
}

impl View for FomodCondition {
    type V = CondView;

    open spec fn view(&self) -> CondView {
        match self {
            FomodCondition::Flag(f) => CondView::Flag(f@),
            FomodCondition::Other => CondView::Other,
        }
    }
}

/// The views of conditions.
pub open spec fn cond_views(s: Seq<FomodCondition>) -> Seq<CondView> {
    s.map_values(|c: FomodCondition| c@)
}

impl View for FomodDependency {
    type V = DepView;

    open spec fn view(&self) -> DepView {
        match self {
            FomodDependency::Flag(f) => DepView::Flag(f@),
            FomodDependency::And(l) => DepView::And(cond_views(l@)),
            FomodDependency::Or(l) => DepView::Or(cond_views(l@)),
            FomodDependency::Other => DepView::Other,
        }
    }
}

/// The installer can evaluate a dependency for the set flags: it is a
/// flag, or a list of conditions that it reads in order until the answer is
/// known (the first that fails for `And`, the first that holds for `Or`),
/// without reaching a condition other than a flag.
pub open spec fn dep_evaluable(d: DepView, flags: Set<(Seq<char>, Seq<char>)>) -> bool {
    match d {
        DepView::Flag(_) => true,
        DepView::And(l) => forall|k: int|
            0 <= k < l.len() && (#[trigger] l[k]) is Other ==> exists|j: int|
                0 <= j < k && !cond_met(#[trigger] l[j], flags),
        DepView::Or(l) => forall|k: int|
            0 <= k < l.len() && (#[trigger] l[k]) is Other ==> exists|j: int|
                0 <= j < k && cond_met(#[trigger] l[j], flags),
        DepView::Other => false,
    }
}

/// A condition holds: it is a flag that is set.
pub open spec fn cond_met(c: CondView, flags: Set<(Seq<char>, Seq<char>)>) -> bool {
    match c {
        CondView::Flag(f) => flags.contains(f),
        CondView::Other => false,
    }
}

/// A dependency holds for the set flags.
pub open spec fn dep_met(d: DepView, flags: Set<(Seq<char>, Seq<char>)>) -> bool {
    match d {
        DepView::Flag(f) => flags.contains(f),
        DepView::And(l) => forall|k: int| 0 <= k < l.len() ==> cond_met(#[trigger] l[k], flags),
        DepView::Or(l) => exists|k: int| 0 <= k < l.len() && cond_met(#[trigger] l[k], flags),
        DepView::Other => false,
    }
}

/// The abstract value of a conditional install.
pub struct CondInstallView {
    pub dependency: DepView,
    pub files: Seq<FomodEntryView>,
}

/// Files installed when a dependency holds.
#[derive(Debug)]
pub struct ConditionalInstall {
    pub dependency: FomodDependency,
    pub files: Vec<FomodEntry>,
}

impl View for ConditionalInstall {
    type V = CondInstallView;

    open spec fn view(&self) -> CondInstallView {
        CondInstallView { dependency: self.dependency@, files: entry_views(self.files@) }
    }
}

/// The abstract value of a configuration.
pub struct ConfigView {
    pub required: Seq<FomodEntryView>,
    pub groups: Seq<GroupView>,
    pub conditionals: Seq<CondInstallView>,
}

/// What the installer reads of a FOMOD configuration: the files always
/// installed, the groups of every install step in order, and the
/// conditional installs.
#[derive(Debug)]
pub struct FomodConfig {
    pub required: Vec<FomodEntry>,
    pub groups: Vec<FomodGroup>,
    pub conditionals: Vec<ConditionalInstall>,
}

impl View for FomodConfig {
    type V = ConfigView;

    open spec fn view(&self) -> ConfigView {
        ConfigView {
            required: entry_views(self.required@),
            groups: self.groups@.map_values(|g: FomodGroup| g@),
            conditionals: self.conditionals@.map_values(|c: ConditionalInstall| c@),
        }
    }
}

/// The choices made, group by group.
pub open spec fn choice_views(cs: Seq<Vec<usize>>) -> Seq<Seq<usize>> {
    cs.map_values(|v: Vec<usize>| v@)
}

/// The files chosen in the groups `gs`, group by group; `cs[k]` are the
/// choices made in group `k`.
pub open spec fn groups_files(gs: Seq<GroupView>, cs: Seq<Seq<usize>>) -> Seq<FileSpec>
    decreases gs.len(),
{
    if gs.len() == 0 {
        Seq::empty()
    } else {
        groups_files(gs.drop_last(), cs) + chosen_files(cs[gs.len() - 1], gs.last().plugins)
    }
}

/// The flags set by the choices in the groups `gs`.
pub open spec fn groups_flags(gs: Seq<GroupView>, cs: Seq<Seq<usize>>) -> Set<(Seq<char>, Seq<char>)>
    decreases gs.len(),
{
    if gs.len() == 0 {
        Set::empty()
    } else {
        groups_flags(gs.drop_last(), cs) + chosen_flags(cs[gs.len() - 1], gs.last().plugins)
    }
}

/// The files of the conditional installs whose dependency holds.
pub open spec fn conditional_files(
    cs: Seq<CondInstallView>,
    flags: Set<(Seq<char>, Seq<char>)>,
) -> Seq<FileSpec>
    decreases cs.len(),
{
    if cs.len() == 0 {
        Seq::empty()
    } else {
        conditional_files(cs.drop_last(), flags) + if dep_met(cs.last().dependency, flags) {
            entries_files(cs.last().files)
        } else {
            Seq::empty()
        }
    }
}

/// No later file of `s` has the destination of its `i`-th file.
pub open spec fn last_for_destination(s: Seq<FileSpec>, i: int) -> bool {
    forall|j: int| i < j < s.len() ==> (#[trigger] s[j]).destination != s[i].destination
}

/// The first `n` files of `s` that no later file of `s` overrides.
pub open spec fn kept_upto(s: Seq<FileSpec>, n: int) -> Seq<FileSpec>
    decreases n,
{
    if n <= 0 {
        Seq::empty()
    } else {
        kept_upto(s, n - 1) + if last_for_destination(s, n - 1) {
            seq![s[n - 1]]
        } else {
            Seq::empty()
        }
    }
}

/// `s` with only the last file for each destination.
pub open spec fn keep_last(s: Seq<FileSpec>) -> Seq<FileSpec> {
    kept_upto(s, s.len() as int)
}

/// The installed files of a configuration with the choices `cs`: the
/// required files, the chosen plugins' files and the conditional files, of
/// which the last for each destination.
pub open spec fn fomod_files(cfg: ConfigView, cs: Seq<Seq<usize>>) -> Seq<FileSpec> {
    keep_last(
        entries_files(cfg.required) + groups_files(cfg.groups, cs) + conditional_files(
            cfg.conditionals,
            groups_flags(cfg.groups, cs),
        ),
    )
}

/// Keeps only the last file for each destination.
pub fn remove_shadowed(files: &Vec<InstallFile>) -> (r: Vec<InstallFile>)
    ensures
        file_specs(r@) == keep_last(file_specs(files@)),
{
    let ghost s = file_specs(files@);
    let mut r: Vec<InstallFile> = Vec::new();
    let mut i: usize = 0;
    assert(file_specs(r@) =~= Seq::<FileSpec>::empty());
    while i < files.len()
        invariant
            i <= files@.len(),
            s == file_specs(files@),
            file_specs(r@) == kept_upto(s, i as int),
        decreases files.len() - i,
    {
        let d = files[i].destination();
        let mut j: usize = i + 1;
        let mut last = true;
        while j < files.len()
            invariant
                i < j <= files@.len(),
                s == file_specs(files@),
                d@ == s[i as int].destination,
                last == (forall|k: int| i < k < j ==> (#[trigger] s[k]).destination != s[i as int].destination),
            decreases files.len() - j,
        {
            assert(s[j as int] == files@[j as int]@);
            if str_eq(files[j].destination(), d) {
                last = false;
            }
            j += 1;
        }
        assert(s[i as int] == files@[i as int]@);
        let ghost before = file_specs(r@);
        if last {
            r.push(files[i].duplicate());
            assert(file_specs(r@) =~= before + seq![s[i as int]]);
        } else {
            assert(kept_upto(s, i + 1) =~= kept_upto(s, i as int));
        }
        i += 1;
    }
    r
}

/// A copy of a flag list with the flags of `extra` added, each once.
fn add_flags(flags: &mut Vec<ConditionFlag>, extra: Vec<ConditionFlag>)
    requires
        flag_views(old(flags)@).no_duplicates(),
    ensures
        flag_views(final(flags)@).no_duplicates(),
        flag_views(final(flags)@).to_set() == flag_views(old(flags)@).to_set() + flag_views(extra@).to_set(),
{
    let ghost start = flag_views(flags@).to_set();
    let mut j: usize = 0;
    while j < extra.len()
        invariant
            j <= extra@.len(),
            flag_views(flags@).no_duplicates(),
            flag_views(flags@).to_set() == start + flag_views(extra@).take(j as int).to_set(),
        decreases extra.len() - j,
    {
        let f = &extra[j];
        assert(flag_views(extra@)[j as int] == f@);
        assert(flag_views(extra@).take(j + 1) =~= flag_views(extra@).take(j as int).push(f@));
        proof {
            flag_views(extra@).take(j as int).lemma_push_to_set_commute(f@);
        }
        if !has_flag(flags, f.name.as_str(), f.value.as_str()) {
            let ghost before = flag_views(flags@);
            flags.push(copy_flag(f));
            assert(flag_views(flags@) =~= before.push(f@));
            proof {
                before.lemma_push_to_set_commute(f@);
                assert forall|a: int, b: int|
                    0 <= a < b < flag_views(flags@).len() implies flag_views(flags@)[a] != flag_views(flags@)[b] by {
                    if b == before.len() {
                        assert(before.contains(before[a]));
                    }
                }
            }
            assert(flag_views(flags@).to_set() =~= start + flag_views(extra@).take(j + 1).to_set());
        } else {
            assert(flag_views(flags@).to_set().contains(f@));
            assert(flag_views(flags@).to_set() =~= start + flag_views(extra@).take(j + 1).to_set());
        }
        j += 1;
    }
    assert(flag_views(extra@).take(j as int) =~= flag_views(extra@));
}

/// Whether a dependency holds for the set flags.
fn dependency_met(d: &FomodDependency, flags: &Vec<ConditionFlag>) -> (r: bool)
    ensures
        r == dep_met(d@, flag_views(flags@).to_set()),
{
    let ghost set = flag_views(flags@).to_set();
    match d {
        FomodDependency::Flag(f) => has_flag(flags, f.name.as_str(), f.value.as_str()),
        FomodDependency::And(l) => {
            assert(d@ == DepView::And(cond_views(l@)));
            let mut k: usize = 0;
            while k < l.len()
                invariant
                    *d == FomodDependency::And(*l),
                    d@ == DepView::And(cond_views(l@)),
                    set == flag_views(flags@).to_set(),
                    k <= l@.len(),
                    forall|m: int| 0 <= m < k ==> cond_met(#[trigger] cond_views(l@)[m], set),
                decreases l.len() - k,
            {
                assert(cond_views(l@)[k as int] == l@[k as int]@);
                match &l[k] {
                    FomodCondition::Flag(f) => {
                        if !has_flag(flags, f.name.as_str(), f.value.as_str()) {
                            assert(!cond_met(cond_views(l@)[k as int], set));
                            assert(d@->And_0 =~= cond_views(l@));
                            return false;
                        }
                    },
                    FomodCondition::Other => {
                        assert(!cond_met(cond_views(l@)[k as int], set));
                        assert(d@->And_0 =~= cond_views(l@));
                        return false;
                    },
                }
                k += 1;
            }
            true
        },
        FomodDependency::Or(l) => {
            assert(d@ == DepView::Or(cond_views(l@)));
            let mut k: usize = 0;
            while k < l.len()
                invariant
                    *d == FomodDependency::Or(*l),
                    d@ == DepView::Or(cond_views(l@)),
                    set == flag_views(flags@).to_set(),
                    k <= l@.len(),
                    forall|m: int| 0 <= m < k ==> !cond_met(#[trigger] cond_views(l@)[m], set),
                decreases l.len() - k,
            {
                assert(cond_views(l@)[k as int] == l@[k as int]@);
                match &l[k] {
                    FomodCondition::Flag(f) => {
                        if has_flag(flags, f.name.as_str(), f.value.as_str()) {
                            assert(cond_met(cond_views(l@)[k as int], set));
                            assert(d@->Or_0 =~= cond_views(l@));
                            return true;
                        }
                    },
                    FomodCondition::Other => {},
                }
                k += 1;
            }
            false
        },
        FomodDependency::Other => false,
    }
}

/// The installer can evaluate the dependency of every conditional install
/// for the set flags.
pub open spec fn conditionals_evaluable(cfg: ConfigView, flags: Set<(Seq<char>, Seq<char>)>) -> bool {
    forall|k: int| 0 <= k < cfg.conditionals.len() ==> dep_evaluable(#[trigger] cfg.conditionals[k].dependency, flags)
}

/// Whether the installer can evaluate a dependency for the set flags.
fn dependency_evaluable(d: &FomodDependency, flags: &Vec<ConditionFlag>) -> (r: bool)
    ensures
        r == dep_evaluable(d@, flag_views(flags@).to_set()),
{
    let ghost set = flag_views(flags@).to_set();
    match d {
        FomodDependency::Flag(_) => true,
        FomodDependency::And(l) => {
            let ghost cl = cond_views(l@);
            let mut k: usize = 0;
            while k < l.len()
                invariant
                    *d == FomodDependency::And(*l),
                    d@ == DepView::And(cl),
                    set == flag_views(flags@).to_set(),
                    cl == cond_views(l@),
                    k <= l@.len(),
                    forall|m: int| 0 <= m < k ==> cond_met(#[trigger] cl[m], set),
                decreases l.len() - k,
            {
                assert(cl[k as int] == l@[k as int]@);
                match &l[k] {
                    FomodCondition::Flag(f) => {
                        if !has_flag(flags, f.name.as_str(), f.value.as_str()) {
                            assert forall|k2: int| 0 <= k2 < cl.len() && (#[trigger] cl[k2]) is Other implies exists|j: int|
                                0 <= j < k2 && !cond_met(#[trigger] cl[j], set) by {
                                if k2 < k {
                                    assert(cond_met(cl[k2], set));
                                }
                                assert(!cond_met(cl[k as int], set));
                            }
                            return true;
                        }
                    },
                    FomodCondition::Other => {
                        assert(cl[k as int] is Other);
                        return false;
                    },
                }
                k += 1;
            }
            true
        },
        FomodDependency::Or(l) => {
            let ghost cl = cond_views(l@);
            let mut k: usize = 0;
            while k < l.len()
                invariant
                    *d == FomodDependency::Or(*l),
                    d@ == DepView::Or(cl),
                    set == flag_views(flags@).to_set(),
                    cl == cond_views(l@),
                    k <= l@.len(),
                    forall|m: int| 0 <= m < k ==> (#[trigger] cl[m]) is Flag && !cond_met(cl[m], set),
                decreases l.len() - k,
            {
                assert(cl[k as int] == l@[k as int]@);
                match &l[k] {
                    FomodCondition::Flag(f) => {
                        if has_flag(flags, f.name.as_str(), f.value.as_str()) {
                            assert forall|k2: int| 0 <= k2 < cl.len() && (#[trigger] cl[k2]) is Other implies exists|j: int|
                                0 <= j < k2 && cond_met(#[trigger] cl[j], set) by {
                                if k2 < k {
                                    assert(cl[k2] is Flag);
                                }
                                assert(cond_met(cl[k as int], set));
                            }
                            return true;
                        }
                    },
                    FomodCondition::Other => {
                        assert(cl[k as int] is Other);
                        return false;
                    },
                }
                k += 1;
            }
            true
        },
        FomodDependency::Other => false,
    }
}

/// The flags set by the choices made in the configuration's groups, each
/// once.
fn set_flags(config: &FomodConfig, choices: &Vec<Vec<usize>>) -> (r: Vec<ConditionFlag>)
    requires
        choices@.len() == config.groups@.len(),
    ensures
        flag_views(r@).to_set() == groups_flags(config@.groups, choice_views(choices@)),
{
    let ghost cfg = config@;
    let ghost cs = choice_views(choices@);
    let mut flags: Vec<ConditionFlag> = Vec::new();
    proof {
        assert(flag_views(flags@) =~= Seq::<(Seq<char>, Seq<char>)>::empty());
        assert(flag_views(flags@).to_set() =~= Set::<(Seq<char>, Seq<char>)>::empty());
        assert(cfg.groups.take(0) =~= Seq::<GroupView>::empty());
    }
    let mut g: usize = 0;
    while g < config.groups.len()
        invariant
            g <= config.groups@.len(),
            choices@.len() == config.groups@.len(),
            cfg == config@,
            cs == choice_views(choices@),
            flag_views(flags@).to_set() == groups_flags(cfg.groups.take(g as int), cs),
            flag_views(flags@).no_duplicates(),
        decreases config.groups.len() - g,
    {
        let group = &config.groups[g];
        let chosen = &choices[g];
        assert(cfg.groups[g as int] == group@);
        assert(cs[g as int] == chosen@);
        assert(cfg.groups.take(g + 1).drop_last() =~= cfg.groups.take(g as int));
        assert(cfg.groups.take(g + 1).last() == group@);
        let new_flags = fetch_plugin_flags(chosen.as_slice(), group.plugins.as_slice());
        add_flags(&mut flags, new_flags);
        g += 1;
    }
    assert(cfg.groups.take(g as int) =~= cfg.groups);
    flags
}

/// Whether the installer can evaluate every conditional install of the
/// configuration, with the flags set by the choices made in its groups:
/// the test that `create_fomod_manifest` asks of its caller.
pub fn conditionals_evaluable_with(config: &FomodConfig, choices: &Vec<Vec<usize>>) -> (r: bool)
    requires
        choices@.len() == config.groups@.len(),
    ensures
        r == conditionals_evaluable(config@, groups_flags(config@.groups, choice_views(choices@))),
{
    let flags = set_flags(config, choices);
    let ghost set = flag_views(flags@).to_set();
    let ghost cfg = config@;
    let mut c: usize = 0;
    while c < config.conditionals.len()
        invariant
            c <= config.conditionals@.len(),
            cfg == config@,
            set == flag_views(flags@).to_set(),
            set == groups_flags(cfg.groups, choice_views(choices@)),
            forall|m: int| 0 <= m < c ==> dep_evaluable(#[trigger] cfg.conditionals[m].dependency, set),
        decreases config.conditionals.len() - c,
    {
        assert(cfg.conditionals[c as int] == config.conditionals@[c as int]@);
        if !dependency_evaluable(&config.conditionals[c].dependency, &flags) {
            assert(!dep_evaluable(cfg.conditionals[c as int].dependency, set));
            return false;
        }
        c += 1;
    }
    true
}

/// The installed files of a FOMOD mod, given the choices made in each of
/// the configuration's groups (`choices[k]` for group `k`).
pub fn fomod_install_files(config: &FomodConfig, choices: &Vec<Vec<usize>>) -> (r: Vec<InstallFile>)
    requires
        choices@.len() == config.groups@.len(),
        conditionals_evaluable(config@, groups_flags(config@.groups, choice_views(choices@))),
    ensures
        file_specs(r@) == fomod_files(config@, choice_views(choices@)),
{
    let ghost cfg = config@;
    let ghost cs = choice_views(choices@);
    let mut files = to_own_vec(&config.required);
    let mut flags: Vec<ConditionFlag> = Vec::new();
    let ghost req = file_specs(files@);
    proof {
        assert(flag_views(flags@) =~= Seq::<(Seq<char>, Seq<char>)>::empty());
        assert(flag_views(flags@).to_set() =~= Set::<(Seq<char>, Seq<char>)>::empty());
        assert(cfg.groups.take(0) =~= Seq::<GroupView>::empty());
        assert(file_specs(files@) =~= req + groups_files(cfg.groups.take(0), cs));
    }
    let mut g: usize = 0;
    while g < config.groups.len()
        invariant
            g <= config.groups@.len(),
            choices@.len() == config.groups@.len(),
            cfg == config@,
            cs == choice_views(choices@),
            req == entries_files(cfg.required),
            file_specs(files@) == req + groups_files(cfg.groups.take(g as int), cs),
            flag_views(flags@).to_set() == groups_flags(cfg.groups.take(g as int), cs),
            flag_views(flags@).no_duplicates(),
        decreases config.groups.len() - g,
    {
        let group = &config.groups[g];
        let chosen = &choices[g];
        assert(cfg.groups[g as int] == group@);
        assert(cs[g as int] == chosen@);
        assert(cfg.groups.take(g + 1).drop_last() =~= cfg.groups.take(g as int));
        assert(cfg.groups.take(g + 1).last() == group@);
        let mut part = fetch_plugin_files(chosen.as_slice(), group.plugins.as_slice());
        let ghost before = file_specs(files@);
        let ghost added = file_specs(part@);
        files.append(&mut part);
        assert(file_specs(files@) =~= before + added);
        let new_flags = fetch_plugin_flags(chosen.as_slice(), group.plugins.as_slice());
        add_flags(&mut flags, new_flags);
        g += 1;
    }
    assert(cfg.groups.take(g as int) =~= cfg.groups);
    let ghost set = flag_views(flags@).to_set();
    let ghost mid = file_specs(files@);
    let mut c: usize = 0;
    assert(cfg.conditionals.take(0) =~= Seq::<CondInstallView>::empty());
    assert(file_specs(files@) =~= mid + conditional_files(cfg.conditionals.take(0), set));
    while c < config.conditionals.len()
        invariant
            c <= config.conditionals@.len(),
            cfg == config@,
            set == flag_views(flags@).to_set(),
            file_specs(files@) == mid + conditional_files(cfg.conditionals.take(c as int), set),
        decreases config.conditionals.len() - c,
    {
        let ci = &config.conditionals[c];
        assert(cfg.conditionals[c as int] == ci@);
        assert(cfg.conditionals.take(c + 1).drop_last() =~= cfg.conditionals.take(c as int));
        assert(cfg.conditionals.take(c + 1).last() == ci@);
        if dependency_met(&ci.dependency, &flags) {
            let mut part = to_own_vec(&ci.files);
            let ghost before = file_specs(files@);
            let ghost added = file_specs(part@);
            files.append(&mut part);
            assert(file_specs(files@) =~= before + added);
        } else {
            assert(conditional_files(cfg.conditionals.take(c + 1), set) =~= conditional_files(
                cfg.conditionals.take(c as int),
                set,
            ));
        }
        c += 1;
    }
    assert(cfg.conditionals.take(c as int) =~= cfg.conditionals);
    remove_shadowed(&files)
}


/// The views of optional download metadata.
pub open spec fn dmod_view_opt(d: Option<&DmodMan>) -> Option<DmodView> {
    match d {
        Some(x) => Some(x@),
        None => None,
    }
}

/// The name a FOMOD mod is shown under: the name in its information file,
/// else the download's mod name, else its directory's name.
pub open spec fn fomod_name(mod_dir: Seq<char>, info_name: Option<Seq<char>>, d: Option<DmodView>) -> Seq<char> {
    match info_name {
        Some(n) => n,
        None => match d {
            Some(x) => x.name(),
            None => mod_dir,
        },
    }
}

/// The name a FOMOD mod's archive is known by: the download's mod name,
/// else its directory's name.
pub open spec fn fomod_bare_name(mod_dir: Seq<char>, d: Option<DmodView>) -> Seq<char> {
    match d {
        Some(x) => x.name(),
        None => mod_dir,
    }
}

/// The version of a FOMOD mod: the download's, else the information file's.
pub open spec fn fomod_version(info_version: Option<Seq<char>>, d: Option<DmodView>) -> Option<Seq<char>> {
    match d {
        Some(x) => dmod_version(x.file_name, x.mod_id),
        None => info_version,
    }
}

/// The view of an optional string.
pub open spec fn opt_seq(s: Option<String>) -> Option<Seq<char>> {
    match s {
        Some(t) => Some(t@),
        None => None,
    }
}

/// The names of a FOMOD mod: the name it is shown under and the name of
/// its archive.
pub fn fomod_names(mod_dir: &str, info_name: &Option<String>, dmodman: Option<&DmodMan>) -> (r: (
    String,
    String,
))
    requires
        dmodman matches Some(d) ==> d@.has_name(),
    ensures
        r.0@ == fomod_name(mod_dir@, opt_seq(*info_name), dmod_view_opt(dmodman)),
        r.1@ == fomod_bare_name(mod_dir@, dmod_view_opt(dmodman)),
{
    let bare = match dmodman {
        Some(d) => d.name(),
        None => String::from_str(mod_dir),
    };
    let name = match info_name {
        Some(n) => n.clone(),
        None => bare.clone(),
    };
    (name, bare)
}

/// The manifest of the FOMOD mod extracted into `cache_dir/mod_dir`, with
/// the name and version of its information file, its configuration, the
/// choices made in each group, and the download's metadata if there is any.
pub fn create_fomod_manifest(
    mod_kind: ModKind,
    cache_dir: &str,
    mod_dir: &str,
    info_name: &Option<String>,
    info_version: &Option<String>,
    config: &FomodConfig,
    choices: &Vec<Vec<usize>>,
    dmodman: Option<&DmodMan>,
) -> (r: Manifest)
    requires
        mod_kind != ModKind::Loader,
        dmodman matches Some(d) ==> d@.has_name(),
        choices@.len() == config.groups@.len(),
        conditionals_evaluable(config@, groups_flags(config@.groups, choice_views(choices@))),
    ensures
        r@ == (ManifestView {
            cache_dir: cache_dir@,
            manifest_dir: mod_dir@,
            bare_file_name: fomod_bare_name(mod_dir@, dmod_view_opt(dmodman)),
            name: fomod_name(mod_dir@, opt_seq(*info_name), dmod_view_opt(dmodman)),
            version: fomod_version(opt_seq(*info_version), dmod_view_opt(dmodman)),
            nexus_id: match dmodman {
                Some(d) => Some(d@.mod_id),
                None => None,
            },
            mod_state: ModState::Disabled,
            mod_kind,
            priority: 0,
            internal: internal_of(
                mod_kind,
                fomod_files(config@, choice_views(choices@)),
                Seq::empty(),
            ),
            tags: Seq::empty(),
        }),
{
    let (name, bare) = fomod_names(mod_dir, info_name, dmodman);
    let (nexus_id, version) = match dmodman {
        Some(d) => (Some(d.mod_id()), d.version()),
        None => (
            None,
            match info_version {
                Some(v) => Some(v.clone()),
                None => None,
            },
        ),
    };
    let files = fomod_install_files(config, choices);
    let disabled: Vec<InstallFile> = Vec::new();
    assert(file_specs(disabled@) =~= Seq::<FileSpec>::empty());
    Manifest::new(cache_dir, mod_dir, bare, name, nexus_id, version, files, disabled, mod_kind)
}

/// Where a selection stands after an answer.
#[derive(Copy, Clone, Debug, PartialEq, Eq, Structural)]
pub enum SelectionStep {
    /// Ask again; `invalid` when the answer was a number beyond the plugins,
    /// `empty` when the selection was ended before anything was chosen
    /// where at least one choice is needed.
    Again { invalid: bool, empty: bool },
    /// The selection is complete.
    Finished,
    /// The user left the installer.
    Cancelled,
}

/// The abstract value of a selection in progress.
pub struct SelectionView {
    pub kind: GroupKind,
    pub n_plugins: nat,
    pub choices: Seq<usize>,
}

/// The choices made so far in a group of `n_plugins` plugins.
#[derive(Debug)]
pub struct Selection {
    kind: GroupKind,
    n_plugins: usize,
    choices: Vec<usize>,
}

impl View for Selection {
    type V = SelectionView;

    closed spec fn view(&self) -> SelectionView {
        SelectionView { kind: self.kind, n_plugins: self.n_plugins as nat, choices: self.choices@ }
    }
}

/// A selection of the group kind `kind`, over `n` plugins, after an
/// answer: the new choices and where the selection stands.
pub open spec fn selection_step(kind: GroupKind, n: nat, choices: Seq<usize>, input: InputWithDone) -> (
    Seq<usize>,
    SelectionStep,
) {
    match input {
        InputWithDone::Input(Input::Exit) => (choices, SelectionStep::Cancelled),
        InputWithDone::Input(Input::Digit(d)) => if (d as nat) < n {
            match kind {
                GroupKind::SelectExactlyOne | GroupKind::SelectAtMostOne => (
                    seq![d as usize],
                    SelectionStep::Finished,
                ),
                _ => (choices.push(d as usize), SelectionStep::Again { invalid: false, empty: false }),
            }
        } else {
            (choices, SelectionStep::Again { invalid: kind != GroupKind::SelectExactlyOne, empty: false })
        },
        InputWithDone::Done => match kind {
            GroupKind::SelectExactlyOne => (choices, SelectionStep::Again { invalid: false, empty: false }),
            GroupKind::SelectAtLeastOne => if choices.len() > 0 {
                (choices, SelectionStep::Finished)
            } else {
                (choices, SelectionStep::Again { invalid: false, empty: true })
            },
            _ => (choices, SelectionStep::Finished),
        },
    }
}

impl Selection {
    /// A selection in a group of kind `kind` with `n_plugins` plugins; in a
    /// group where every plugin is installed, all are chosen at once.
    pub fn new(kind: GroupKind, n_plugins: usize) -> (r: Selection)
        ensures
            r@.kind == kind,
            r@.n_plugins == n_plugins,
            kind == GroupKind::SelectAll ==> r@.choices == Seq::new(n_plugins as nat, |i: int| i as usize),
            kind != GroupKind::SelectAll ==> r@.choices == Seq::<usize>::empty(),
    {
        let mut choices: Vec<usize> = Vec::new();
        if kind == GroupKind::SelectAll {
            let mut i: usize = 0;
            while i < n_plugins
                invariant
                    i <= n_plugins,
                    choices@ == Seq::new(i as nat, |k: int| k as usize),
                decreases n_plugins - i,
            {
                choices.push(i);
                i += 1;
                assert(choices@ =~= Seq::new(i as nat, |k: int| k as usize));
            }
        }
        assert(kind != GroupKind::SelectAll ==> choices@ =~= Seq::<usize>::empty());
        Selection { kind, n_plugins, choices }
    }

    /// The selection needs no answer: every plugin is installed.
    pub fn is_complete(&self) -> (r: bool)
        ensures
            r == (self@.kind == GroupKind::SelectAll),
    {
        self.kind == GroupKind::SelectAll
    }

    /// Takes the user's answer.
    pub fn step(&mut self, input: InputWithDone) -> (r: SelectionStep)
        ensures
            final(self)@.kind == old(self)@.kind,
            final(self)@.n_plugins == old(self)@.n_plugins,
            (final(self)@.choices, r) == selection_step(
                old(self)@.kind,
                old(self)@.n_plugins,
                old(self)@.choices,
                input,
            ),
            old(self)@.kind == GroupKind::SelectAny || old(self)@.kind == GroupKind::SelectAtLeastOne
                ==> match input {
                InputWithDone::Input(Input::Digit(d)) => (d as nat) < old(self)@.n_plugins ==> (final(self)@.choices
                    == old(self)@.choices.push(d as usize) && r == (SelectionStep::Again {
                    invalid: false,
                    empty: false,
                })),
                _ => true,
            },
            old(self)@.kind == GroupKind::SelectAny && input == InputWithDone::Done ==> final(self)@.choices
                == old(self)@.choices && r == SelectionStep::Finished,
    {
        match input {
            InputWithDone::Input(Input::Exit) => SelectionStep::Cancelled,
            InputWithDone::Input(Input::Digit(d)) => {
                let d = d as usize;
                if d < self.n_plugins {
                    match self.kind {
                        GroupKind::SelectExactlyOne | GroupKind::SelectAtMostOne => {
                            let mut one: Vec<usize> = Vec::new();
                            one.push(d);
                            self.choices = one;
                            assert(self.choices@ =~= seq![d]);
                            SelectionStep::Finished
                        },
                        _ => {
                            self.choices.push(d);
                            SelectionStep::Again { invalid: false, empty: false }
                        },
                    }
                } else {
                    SelectionStep::Again {
                        invalid: self.kind != GroupKind::SelectExactlyOne,
                        empty: false,
                    }
                }
            },
            InputWithDone::Done => match self.kind {
                GroupKind::SelectExactlyOne => SelectionStep::Again { invalid: false, empty: false },
                GroupKind::SelectAtLeastOne => {
                    if self.choices.len() > 0 {
                        SelectionStep::Finished
                    } else {
                        SelectionStep::Again { invalid: false, empty: true }
                    }
                },
                _ => SelectionStep::Finished,
            },
        }
    }

    /// The choices made.
    pub fn choices(&self) -> (r: &Vec<usize>)
        ensures
            r@ == self@.choices,
    {
        &self.choices
    }

    /// The error that ends the installer of `mod_name` when the user leaves it.
    pub fn cancelled(mod_name: &str) -> (r: InstallerError)
        ensures
            r matches InstallerError::InstallerCancelled(n) && n@ == mod_name@,
    {
        InstallerError::InstallerCancelled(String::from_str(mod_name))
    }
}

/// Every choice of a finished selection is a plugin of the group.
pub proof fn lemma_selection_in_range(kind: GroupKind, n: nat, choices: Seq<usize>, input: InputWithDone)
    requires
        forall|k: int| 0 <= k < choices.len() ==> (#[trigger] choices[k] as nat) < n,
    ensures
        forall|k: int|
            0 <= k < selection_step(kind, n, choices, input).0.len()
                ==> (#[trigger] selection_step(kind, n, choices, input).0[k] as nat) < n,
{
}

/// In a group where at most one plugin is chosen, a selection that goes
/// on still holds no choice.
pub proof fn lemma_single_choice_waits(kind: GroupKind, n: nat, choices: Seq<usize>, input: InputWithDone)
    requires
        kind == GroupKind::SelectExactlyOne || kind == GroupKind::SelectAtMostOne,
        choices.len() == 0,
        selection_step(kind, n, choices, input).1 is Again,
    ensures
        selection_step(kind, n, choices, input).0.len() == 0,
{
}

/// A finished selection of a group where exactly one plugin is chosen
/// holds one choice; of one where at most one is chosen, at most one; of
/// one where at least one is chosen, at least one.
pub proof fn lemma_selection_counts(kind: GroupKind, n: nat, choices: Seq<usize>, input: InputWithDone)
    requires
        selection_step(kind, n, choices, input).1 == SelectionStep::Finished,
        kind == GroupKind::SelectExactlyOne || kind == GroupKind::SelectAtMostOne ==> choices.len() == 0,
    ensures
        kind == GroupKind::SelectExactlyOne ==> selection_step(kind, n, choices, input).0.len() == 1,
        kind == GroupKind::SelectAtMostOne ==> selection_step(kind, n, choices, input).0.len() <= 1,
        kind == GroupKind::SelectAtLeastOne ==> selection_step(kind, n, choices, input).0.len() >= 1,
{
}



/// The selection after the answers `inputs`, one after the other, while it
/// asks again: the choices and where it stands.
pub open spec fn selection_after(kind: GroupKind, n: nat, choices: Seq<usize>, inputs: Seq<InputWithDone>) -> (
    Seq<usize>,
    SelectionStep,
)
    decreases inputs.len(),
{
    if inputs.len() == 0 {
        (choices, SelectionStep::Again { invalid: false, empty: false })
    } else {
        let (c, st) = selection_step(kind, n, choices, inputs[0]);
        if st is Again {
            selection_after(kind, n, c, inputs.drop_first())
        } else {
            (c, st)
        }
    }
}

/// The answers that pick the plugins `ds`, one digit each.
pub open spec fn digit_answers(ds: Seq<u8>) -> Seq<InputWithDone> {
    ds.map_values(|d: u8| InputWithDone::Input(Input::Digit(d)))
}

/// In a group where any plugins may be chosen, picking plugins of the
/// group one after the other and then answering `Done` chooses exactly
/// those plugins, in that order, after the choices already made.
pub proof fn lemma_select_any_collects(n: nat, choices: Seq<usize>, ds: Seq<u8>)
    requires
        forall|k: int| 0 <= k < ds.len() ==> (#[trigger] ds[k] as nat) < n,
    ensures
        selection_after(GroupKind::SelectAny, n, choices, digit_answers(ds).push(InputWithDone::Done)) == (
            choices + ds.map_values(|d: u8| d as usize),
            SelectionStep::Finished,
        ),
    decreases ds.len(),
{
    let inputs = digit_answers(ds).push(InputWithDone::Done);
    if ds.len() == 0 {
        assert(inputs.drop_first() =~= Seq::<InputWithDone>::empty());
        assert(choices + ds.map_values(|d: u8| d as usize) =~= choices);
    } else {
        let rest = ds.drop_first();
        assert(inputs[0] == InputWithDone::Input(Input::Digit(ds[0])));
        assert(inputs.drop_first() =~= digit_answers(rest).push(InputWithDone::Done));
        assert forall|k: int| 0 <= k < rest.len() implies (#[trigger] rest[k] as nat) < n by {
            assert(rest[k] == ds[k + 1]);
        }
        lemma_select_any_collects(n, choices.push(ds[0] as usize), rest);
        assert(choices.push(ds[0] as usize) + rest.map_values(|d: u8| d as usize) =~= choices + ds.map_values(
            |d: u8| d as usize,
        ));
    }
}

/// In a group where at least one plugin must be chosen, the same holds once
/// at least one plugin is picked.
pub proof fn lemma_select_at_least_one_collects(n: nat, choices: Seq<usize>, ds: Seq<u8>)
    requires
        forall|k: int| 0 <= k < ds.len() ==> (#[trigger] ds[k] as nat) < n,
        choices.len() + ds.len() > 0,
    ensures
        selection_after(GroupKind::SelectAtLeastOne, n, choices, digit_answers(ds).push(InputWithDone::Done))
            == (choices + ds.map_values(|d: u8| d as usize), SelectionStep::Finished),
    decreases ds.len(),
{
    let inputs = digit_answers(ds).push(InputWithDone::Done);
    if ds.len() == 0 {
        assert(inputs.drop_first() =~= Seq::<InputWithDone>::empty());
        assert(choices + ds.map_values(|d: u8| d as usize) =~= choices);
    } else {
        let rest = ds.drop_first();
        assert(inputs[0] == InputWithDone::Input(Input::Digit(ds[0])));
        assert(inputs.drop_first() =~= digit_answers(rest).push(InputWithDone::Done));
        assert forall|k: int| 0 <= k < rest.len() implies (#[trigger] rest[k] as nat) < n by {
            assert(rest[k] == ds[k + 1]);
        }
        lemma_select_at_least_one_collects(n, choices.push(ds[0] as usize), rest);
        assert(choices.push(ds[0] as usize) + rest.map_values(|d: u8| d as usize) =~= choices + ds.map_values(
            |d: u8| d as usize,
        ));
    }
}

/// A kept file is a file of the prefix that no later file overrides: the
/// answer is its position.
proof fn lemma_kept_member(s: Seq<FileSpec>, n: int, k: int) -> (i: int)
    requires
        0 <= n <= s.len(),
        0 <= k < kept_upto(s, n).len(),
    ensures
        0 <= i < n,
        kept_upto(s, n)[k] == s[i],
        last_for_destination(s, i),
    decreases n,
{
    if n <= 0 {
        assert(kept_upto(s, n) =~= Seq::<FileSpec>::empty());
        0
    } else if k < kept_upto(s, n - 1).len() {
        assert(kept_upto(s, n)[k] == kept_upto(s, n - 1)[k]);
        lemma_kept_member(s, n - 1, k)
    } else {
        assert(last_for_destination(s, n - 1));
        assert(kept_upto(s, n)[k] == s[n - 1]);
        n - 1
    }
}

/// Every file of the prefix that no later file overrides is kept.
proof fn lemma_kept_upto(s: Seq<FileSpec>, n: int)
    requires
        0 <= n <= s.len(),
    ensures
        forall|i: int| 0 <= i < n && #[trigger] last_for_destination(s, i) ==> kept_upto(s, n).contains(s[i]),
    decreases n,
{
    if n > 0 {
        lemma_kept_upto(s, n - 1);
        assert forall|i: int| 0 <= i < n && #[trigger] last_for_destination(s, i) implies kept_upto(s, n).contains(s[i]) by {
            if i < n - 1 {
                let k = choose|k: int| 0 <= k < kept_upto(s, n - 1).len() && #[trigger] kept_upto(s, n - 1)[k] == s[i];
                assert(kept_upto(s, n)[k] == kept_upto(s, n - 1)[k]);
            } else {
                assert(kept_upto(s, n)[kept_upto(s, n - 1).len() as int] == s[i]);
            }
        }
    }
}

/// The files a FOMOD mod installs after the last-wins filtering: no two
/// go to the same destination, every destination of the unfiltered files
/// is still installed, and each installed file is one of the unfiltered.
pub proof fn lemma_keep_last_unique(s: Seq<FileSpec>)
    ensures
        forall|a: int, b: int|
            0 <= a < b < keep_last(s).len() ==> (#[trigger] keep_last(s)[a]).destination != (
            #[trigger] keep_last(s)[b]).destination,
        forall|i: int| #![trigger s[i]]
            0 <= i < s.len() ==> exists|j: int|
                0 <= j < keep_last(s).len() && #[trigger] keep_last(s)[j].destination == s[i].destination,
        forall|j: int| 0 <= j < keep_last(s).len() ==> s.contains(#[trigger] keep_last(s)[j]),
{
    let n = s.len() as int;
    let kl = keep_last(s);
    lemma_kept_upto(s, n);
    assert forall|j: int| 0 <= j < kl.len() implies s.contains(#[trigger] kl[j]) by {
        let i = lemma_kept_member(s, n, j);
    }
    assert forall|i: int| #![trigger s[i]] 0 <= i < s.len() implies exists|j: int|
        0 <= j < kl.len() && #[trigger] kl[j].destination == s[i].destination by {
        lemma_last_holder(s, i, n);
        let m = choose|m: int|
            i <= m < n && s[m].destination == s[i].destination && #[trigger] last_for_destination(s, m);
        assert(kl.contains(s[m]));
        let j = choose|j: int| 0 <= j < kl.len() && kl[j] == s[m];
        assert(kl[j].destination == s[i].destination);
    }
    assert forall|a: int, b: int| 0 <= a < b < kl.len() implies kl[a].destination != kl[b].destination by {
        lemma_kept_order(s, n, a, b);
    }
}

/// Some file at or after `i` with the destination of the `i`-th is the
/// last one for it.
proof fn lemma_last_holder(s: Seq<FileSpec>, i: int, n: int)
    requires
        0 <= i < n,
        n == s.len(),
    ensures
        exists|m: int| i <= m < n && s[m].destination == s[i].destination && #[trigger] last_for_destination(s, m),
    decreases n - i,
{
    if last_for_destination(s, i) {
        assert(last_for_destination(s, i));
    } else {
        let j = choose|j: int| i < j < s.len() && (#[trigger] s[j]).destination == s[i].destination;
        lemma_last_holder(s, j, n);
        let m = choose|m: int| j <= m < n && s[m].destination == s[j].destination && #[trigger] last_for_destination(s, m);
        assert(s[m].destination == s[i].destination);
    }
}

/// Kept files come in the order of their positions, and two kept files
/// have different destinations.
proof fn lemma_kept_order(s: Seq<FileSpec>, n: int, a: int, b: int)
    requires
        0 <= n <= s.len(),
        0 <= a < b < kept_upto(s, n).len(),
    ensures
        kept_upto(s, n)[a].destination != kept_upto(s, n)[b].destination,
    decreases n,
{
    let prev = kept_upto(s, n - 1);
    let cur = kept_upto(s, n);
    if b < prev.len() {
        assert(cur[a] == prev[a]);
        assert(cur[b] == prev[b]);
        lemma_kept_order(s, n - 1, a, b);
    } else {
        // `b` is the file at `n - 1`, the last for its destination; `a` is an
        // earlier kept file, itself the last for its own destination.
        assert(cur[b] == s[n - 1]);
        assert(cur[a] == prev[a]);
        let i = lemma_kept_member(s, n - 1, a);
        assert(s[n - 1].destination != s[i].destination);
    }
}

} // verus!
