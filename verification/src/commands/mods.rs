//! The commands on installed mods: the decisions each makes between the
//! prompts and the changes to the game's directory.

use vstd::prelude::*;

use super::list::{file_colour, listed_sorted, listed_views, mod_listed, rows_or, sort_listed,
    ListedFile, ListedView};
use crate::conflict::{conflict_list_by_file, conflict_spec, lookup, views};
use crate::errors::ModErrors;
use crate::manifest::data::{data_disable, data_enable};
use crate::manifest::install_file::{file_specs, FileSpec, InstallFile};
use crate::manifest::mod_state::ModState;
use crate::mods::{disable_mod, relink_plan, state_at, unlink_plan, LinkPlan};
use crate::manifest::{
    internal_disabled, is_config_file, str_opt_view, tags_add, tags_remove, InternalView, Manifest,
    ManifestView,
};
use crate::paths::{file_name, join, path_file_name, path_join, path_strip_prefix, strip_prefix};
use crate::tag::Colour;
use crate::text::{
    decimal, decimal_string, nth_word, nth_word_str, parse_unsigned, parse_usize, signed_decimal,
    signed_decimal_string, str_eq, str_lower, strs,
};
use crate::ui::list::{kind_label, state_label};
use crate::ui::{cell, cell_views, Table, TableCell, TableView};

verus! {

/// Commands on the installed mods; a mod is named by (part of) its name or
/// by its position in the mod list.
#[derive(Debug)]
pub enum ModCmd {
    /// Copy a file of one mod into another.
    CopyToCustom { source: Option<String>, destination: Option<String>, file: Option<String> },
    /// Create a label.
    CreateLabel { name: String },
    /// Create a custom mod, optionally linked to a directory elsewhere.
    CreateCustom { name: Option<String>, origin: Option<String> },
    /// Disable a mod.
    Disable { name: Option<String> },
    /// Disable every mod.
    DisableAll,
    /// Disable a file of a mod.
    DisableFile { name: Option<String>, file: Option<String> },
    /// Enable a disabled file of a mod.
    EnableFile { name: Option<String>, file: Option<String> },
    /// Edit a mod's configuration files.
    EditConfig {
        name: Option<String>,
        destination: Option<Option<String>>,
        config_name: Option<String>,
        extension: Option<String>,
    },
    /// Enable a mod.
    Enable { name: Option<String> },
    /// Enable every mod.
    EnableAll,
    /// Show the mod list.
    List,
    /// Show a mod's details.
    Show { name: Option<String> },
    /// Add a tag to a mod.
    TagAdd { name: Option<String>, tag: Option<String> },
    /// Remove a tag from a mod.
    TagRemove { name: Option<String>, tag: Option<String> },
    /// Remove a mod.
    Remove { name: Option<String> },
    /// Rename a mod.
    Rename { old_mod_name: Option<String>, new_mod_name: Option<String> },
    /// Set a mod's priority; a negative one disables it.
    SetPriority { name: Option<String>, priority: Option<isize> },
}

impl Default for ModCmd {
    fn default() -> (r: Self)
        ensures
            r == ModCmd::List,
    {
        ModCmd::List
    }
}

/// The name the user gave, or nothing.
pub open spec fn given_name(name: Option<String>) -> Seq<char> {
    match name {
        Some(n) => n@,
        None => Seq::empty(),
    }
}

/// A copy of the name the user gave, or the empty string.
fn name_or_empty(name: &Option<String>) -> (r: String)
    ensures
        r@ == given_name(*name),
{
    match name {
        Some(n) => n.clone(),
        None => String::new(),
    }
}

/// What disabling (`disable`) or enabling the file `file` of a manifest
/// makes of it, and whether the file was found.
pub open spec fn toggled(m: ManifestView, file: Seq<char>, disable: bool) -> (InternalView, bool) {
    match m.internal {
        InternalView::Data(d) => if disable {
            (InternalView::Data(data_disable(d, file).0), data_disable(d, file).1)
        } else {
            (InternalView::Data(data_enable(d, file).0), data_enable(d, file).1)
        },
        _ => (m.internal, false),
    }
}

/// Disables (`disable`) or enables the file `file` of the `idx`-th mod.
/// When the file is found, the answer is whether the mod is enabled (its
/// files must then be linked again); otherwise the error names the mod as
/// the user gave it and the file.
pub fn toggle_file(
    mods: &mut Vec<Manifest>,
    idx: usize,
    file: &str,
    disable: bool,
    name: &Option<String>,
) -> (r: Result<bool, ModErrors>)
    requires
        idx < old(mods)@.len(),
    ensures
        final(mods)@.len() == old(mods)@.len(),
        forall|j: int| 0 <= j < old(mods)@.len() && j != idx ==> #[trigger] final(mods)@[j]@ == old(mods)@[j]@,
        final(mods)@[idx as int]@ == (ManifestView {
            internal: toggled(old(mods)@[idx as int]@, file@, disable).0,
            ..old(mods)@[idx as int]@
        }),
        toggled(old(mods)@[idx as int]@, file@, disable).1 ==> r == Ok::<bool, ModErrors>(
            old(mods)@[idx as int]@.enabled(),
        ),
        !toggled(old(mods)@[idx as int]@, file@, disable).1 ==> (r matches Err(
            ModErrors::FileNotFound(n, f),
        ) && n@ == given_name(*name) && f@ == file@),
{
    let mut m = mods.remove(idx);
    let found = if disable {
        m.disable_file(file)
    } else {
        m.enable_file(file)
    };
    let enabled = m.is_enabled();
    mods.insert(idx, m);
    if found {
        Ok(enabled)
    } else {
        Err(ModErrors::FileNotFound(name_or_empty(name), String::from_str(file)))
    }
}

/// What changing a mod's priority asks of the game directory.
#[derive(Debug)]
pub enum PriorityFollowUp {
    /// Nothing is relinked.
    Nothing,
    /// The mod is disabled: the first `n` mods of the list are re-enabled.
    ReEnable(isize),
    /// The mod was enabled and its new priority is negative, which disables
    /// it: this plan unlinks and relinks the list.
    Disable(LinkPlan),
}

/// The list with the `idx`-th mod given priority `priority`.
pub open spec fn with_priority(ms: Seq<ManifestView>, idx: int, priority: isize) -> Seq<ManifestView> {
    ms.update(idx, ManifestView { priority, ..ms[idx] })
}

/// Sets the priority of the `idx`-th mod. A priority below zero disables
/// the mod: an enabled mod is disabled and its files unlinked, the list
/// being relinked as `disable_mod` does. Otherwise, when the mod is
/// disabled, the answer is how many mods from the top of the list must be
/// re-enabled: up to the larger of the new and the old priority.
pub fn set_priority(mods: &mut Vec<Manifest>, idx: usize, priority: isize) -> (r: PriorityFollowUp)
    requires
        idx < old(mods)@.len(),
    ensures
        priority >= 0 ==> views(final(mods)@) == with_priority(views(old(mods)@), idx as int, priority),
        priority < 0 ==> views(final(mods)@) == state_at(
            with_priority(views(old(mods)@), idx as int, priority),
            idx as int,
            ModState::Disabled,
        ),
        match r {
            PriorityFollowUp::Nothing => old(mods)@[idx as int]@.enabled() == (priority >= 0),
            PriorityFollowUp::ReEnable(n) => priority >= 0 && !old(mods)@[idx as int]@.enabled() && n == if priority
                > old(mods)@[idx as int]@.priority {
                priority
            } else {
                old(mods)@[idx as int]@.priority
            },
            PriorityFollowUp::Disable(p) => priority < 0 && old(mods)@[idx as int]@.enabled()
                && file_specs(p.unlink@) == unlink_plan(views(final(mods)@)) && file_specs(p.link@)
                == relink_plan(views(final(mods)@)),
        },
        priority < 0 && !old(mods)@[idx as int]@.enabled() ==> r is Nothing,
{
    let ghost orig = views(mods@);
    let mut m = mods.remove(idx);
    let old_priority = m.priority();
    m.set_priority(priority);
    let enabled = m.is_enabled();
    mods.insert(idx, m);
    assert(views(mods@) =~= with_priority(orig, idx as int, priority));
    if priority < 0 {
        if enabled {
            match disable_mod(mods, idx) {
                Some(p) => PriorityFollowUp::Disable(p),
                None => PriorityFollowUp::Nothing,
            }
        } else {
            assert(orig[idx as int].mod_state == ModState::Disabled);
            assert(views(mods@) =~= state_at(with_priority(orig, idx as int, priority), idx as int, ModState::Disabled));
            PriorityFollowUp::Nothing
        }
    } else if enabled {
        PriorityFollowUp::Nothing
    } else if priority > old_priority {
        PriorityFollowUp::ReEnable(priority)
    } else {
        PriorityFollowUp::ReEnable(old_priority)
    }
}

/// Adds `tag` to the `idx`-th mod; the error names the mod as the user
/// gave it and the tag when the mod has it already.
pub fn tag_add(mods: &mut Vec<Manifest>, idx: usize, tag: &str, name: &Option<String>) -> (r: Result<(), ModErrors>)
    requires
        idx < old(mods)@.len(),
    ensures
        final(mods)@.len() == old(mods)@.len(),
        forall|j: int| 0 <= j < old(mods)@.len() && j != idx ==> #[trigger] final(mods)@[j]@ == old(mods)@[j]@,
        final(mods)@[idx as int]@ == (ManifestView {
            tags: tags_add(old(mods)@[idx as int]@.tags, str_lower(tag@)).0,
            ..old(mods)@[idx as int]@
        }),
        tags_add(old(mods)@[idx as int]@.tags, str_lower(tag@)).1 ==> r is Ok,
        !tags_add(old(mods)@[idx as int]@.tags, str_lower(tag@)).1 ==> (r matches Err(
            ModErrors::DuplicateTag(n, t),
        ) && n@ == given_name(*name) && t@ == tag@),
{
    let mut m = mods.remove(idx);
    let added = m.add_tag(tag);
    mods.insert(idx, m);
    if added {
        Ok(())
    } else {
        Err(ModErrors::DuplicateTag(name_or_empty(name), String::from_str(tag)))
    }
}

/// Removes `tag` from the `idx`-th mod; the error names the mod as the
/// user gave it and the tag when the mod does not have it.
pub fn tag_remove(mods: &mut Vec<Manifest>, idx: usize, tag: &str, name: &Option<String>) -> (r: Result<(), ModErrors>)
    requires
        idx < old(mods)@.len(),
    ensures
        final(mods)@.len() == old(mods)@.len(),
        forall|j: int| 0 <= j < old(mods)@.len() && j != idx ==> #[trigger] final(mods)@[j]@ == old(mods)@[j]@,
        final(mods)@[idx as int]@ == (ManifestView {
            tags: tags_remove(old(mods)@[idx as int]@.tags, str_lower(tag@)),
            ..old(mods)@[idx as int]@
        }),
        old(mods)@[idx as int]@.tags.contains(str_lower(tag@)) ==> r is Ok,
        !old(mods)@[idx as int]@.tags.contains(str_lower(tag@)) ==> (r matches Err(
            ModErrors::TagNotFound(n, t),
        ) && n@ == given_name(*name) && t@ == tag@),
{
    let mut m = mods.remove(idx);
    let removed = m.remove_tag(tag);
    mods.insert(idx, m);
    if removed {
        Ok(())
    } else {
        Err(ModErrors::TagNotFound(name_or_empty(name), String::from_str(tag)))
    }
}

/// The position given in a selected line of a file list: its second word,
/// read as a number.
pub fn selected_file_index(line: &str) -> (r: Option<usize>)
    ensures
        match nth_word(line@, 0, 1) {
            Some(w) => match parse_unsigned(w, usize::MAX as nat) {
                Some(n) => r == Some(n as usize),
                None => r is None,
            },
            None => r is None,
        },
{
    match nth_word_str(line, 1) {
        Some(w) => parse_usize(w.as_str()),
        None => None,
    }
}

/// Where a file of the mod `source` is copied from and to when it is
/// copied into the mod `destination`: the same path below each mod's
/// directory in `cache_dir`.
pub fn copy_file_paths(cache_dir: &str, source: &Manifest, destination: &Manifest, file_idx: usize) -> (r: (String, String))
    requires
        file_idx < source@.files().len(),
    ensures
        r.0@ == path_join(path_join(cache_dir@, source@.manifest_dir), source@.files()[file_idx as int].source),
        r.1@ == path_join(
            path_join(cache_dir@, destination@.manifest_dir),
            source@.files()[file_idx as int].source,
        ),
{
    let files = source.files();
    assert(file_specs(files@)[file_idx as int] == files@[file_idx as int]@);
    let f = &files[file_idx];
    let from_dir = join(cache_dir, source.manifest_dir());
    let to_dir = join(cache_dir, destination.manifest_dir());
    (join(from_dir.as_str(), f.source()), join(to_dir.as_str(), f.source()))
}

/// The rows of a mod's details: name, priority, state, kind, version and
/// Nexus id.
pub open spec fn mod_info_row(m: ManifestView) -> Seq<(Seq<char>, Colour)> {
    seq![
        (m.name, Colour::White),
        (signed_decimal(m.priority as int), Colour::White),
        (state_label(m.mod_state), Colour::White),
        (kind_label(m.mod_kind), Colour::White),
        (
            match m.version {
                Some(v) => v,
                None => "<Unknown>"@,
            },
            Colour::White,
        ),
        (
            match m.nexus_id {
                Some(id) => decimal(id as nat),
                None => "<Unknown>"@,
            },
            Colour::White,
        ),
    ]
}

/// The row of a file in a mod's details: source and destination.
pub open spec fn status_row(ms: Seq<ManifestView>, f: ListedView) -> Seq<(Seq<char>, Colour)> {
    let c = file_colour(ms, f.file.destination, f.mod_name);
    seq![(f.file.source, c), (f.file.destination, c)]
}

/// The details of a mod: its description, its files and its disabled files.
#[derive(Debug)]
pub struct ModStatus {
    pub info: Table,
    pub files: Table,
    pub disabled: Option<Table>,
}

/// The files of mod `m`, with its name and priority.
fn mod_listed_files(m: &Manifest) -> (r: Vec<ListedFile>)
    ensures
        listed_views(r@) == mod_listed(m@),
{
    let files = m.files();
    let mut r: Vec<ListedFile> = Vec::new();
    let mut j: usize = 0;
    assert(listed_views(r@) =~= mod_listed(m@).take(0));
    while j < files.len()
        invariant
            j <= files@.len(),
            file_specs(files@) == m@.files(),
            listed_views(r@) == mod_listed(m@).take(j as int),
        decreases files.len() - j,
    {
        assert(file_specs(files@)[j as int] == files@[j as int]@);
        let ghost prev = listed_views(r@);
        r.push(
            ListedFile {
                file: files[j].duplicate(),
                mod_name: String::from_str(m.name()),
                priority: m.priority(),
            },
        );
        assert(mod_listed(m@).take(j + 1) =~= mod_listed(m@).take(j as int).push(mod_listed(m@)[j as int]));
        assert(listed_views(r@) =~= prev.push(mod_listed(m@)[j as int]));
        j += 1;
    }
    assert(mod_listed(m@).take(j as int) =~= mod_listed(m@));
    r
}

/// Pushes a cell.
fn push_white(row: &mut Vec<TableCell>, text: String)
    ensures
        cell_views(final(row)@) == cell_views(old(row)@).push((text@, Colour::White)),
{
    let ghost before = cell_views(row@);
    row.push(cell(text, Colour::White));
    assert(cell_views(row@) =~= before.push((text@, Colour::White)));
}

/// A table of strings from literals.
fn headers_of(h: &[&str]) -> (r: Vec<String>)
    ensures
        strs(r@) == h@.map_values(|s: &str| s@),
{
    let mut r: Vec<String> = Vec::new();
    let mut i: usize = 0;
    while i < h.len()
        invariant
            i <= h@.len(),
            strs(r@) == h@.map_values(|s: &str| s@).take(i as int),
        decreases h.len() - i,
    {
        let ghost before = strs(r@);
        r.push(String::from_str(h[i]));
        assert(strs(r@) =~= before.push(h@[i as int]@));
        assert(h@.map_values(|s: &str| s@).take(i + 1) =~= h@.map_values(|s: &str| s@).take(i as int).push(
            h@[i as int]@,
        ));
        i += 1;
    }
    assert(h@.map_values(|s: &str| s@).take(i as int) =~= h@.map_values(|s: &str| s@));
    r
}

/// The details of the `idx`-th mod of the list: a row describing it; its
/// files by destination (shown green where it wins a conflict, red where it
/// loses one); and, when it has any, its disabled files.
pub fn show_mod_status(mods: &[Manifest], idx: usize) -> (r: (Vec<ListedFile>, ModStatus))
    requires
        idx < mods@.len(),
    ensures
        r.1.info@ == (TableView {
            headers: seq!["Name"@, "Priority"@, "Status"@, "Mod Type"@, "Version"@, "Nexus Id"@],
            rows: seq![mod_info_row(mods@[idx as int]@)],
        }),
        listed_sorted(listed_views(r.0@)),
        listed_views(r.0@).to_multiset() == mod_listed(mods@[idx as int]@).to_multiset(),
        r.1.files@ == (TableView {
            headers: seq!["File"@, "Destination"@],
            rows: rows_or(
                listed_views(r.0@).map_values(|f: ListedView| status_row(views(mods@), f)),
                "No files found."@,
            ),
        }),
        internal_disabled(mods@[idx as int]@.internal).len() == 0 ==> r.1.disabled is None,
        internal_disabled(mods@[idx as int]@.internal).len() > 0 ==> (r.1.disabled matches Some(t)
            && t@ == (TableView {
            headers: seq!["Disabled File"@],
            rows: internal_disabled(mods@[idx as int]@.internal).map_values(
                |f: FileSpec| seq![(f.source, Colour::Grey)],
            ),
        })),
{
    let ghost ms = views(mods@);
    let cl = conflict_list_by_file(mods);
    let md = &mods[idx];
    proof {
        reveal_strlit("<Unknown>");
        reveal_strlit("Enabled");
        reveal_strlit("Disabled");
    }
    let mut info_row: Vec<TableCell> = Vec::new();
    push_white(&mut info_row, String::from_str(md.name()));
    push_white(&mut info_row, signed_decimal_string(md.priority() as i64));
    push_white(&mut info_row, String::from_str(md.mod_state().label()));
    push_white(&mut info_row, String::from_str(md.kind().label()));
    let v = match md.version() {
        Some(v) => String::from_str(v),
        None => String::from_str("<Unknown>"),
    };
    push_white(&mut info_row, v);
    let n = match md.nexus_id() {
        Some(id) => decimal_string(id as u64),
        None => String::from_str("<Unknown>"),
    };
    push_white(&mut info_row, n);
    assert(cell_views(info_row@) =~= mod_info_row(md@));
    let mut info_rows: Vec<Vec<TableCell>> = Vec::new();
    info_rows.push(info_row);
    let info = Table {
        headers: headers_of(&["Name", "Priority", "Status", "Mod Type", "Version", "Nexus Id"]),
        rows: info_rows,
    };
    assert(info@.rows =~= seq![mod_info_row(mods@[idx as int]@)]);
    assert(info@.headers =~= seq!["Name"@, "Priority"@, "Status"@, "Mod Type"@, "Version"@, "Nexus Id"@]);
    let files = sort_listed(mod_listed_files(md));
    let ghost g = |f: ListedView| status_row(ms, f);
    let mut rows: Vec<Vec<TableCell>> = Vec::new();
    let mut k: usize = 0;
    while k < files.len()
        invariant
            k <= files@.len(),
            ms == views(mods@),
            g == (|f: ListedView| status_row(ms, f)),
            forall|f: Seq<char>| #[trigger] lookup(cl@, f) == conflict_spec(ms, f),
            rows@.len() == k,
            forall|j: int| 0 <= j < k ==> cell_views(#[trigger] rows@[j]@) == g(listed_views(files@)[j]),
        decreases files.len() - k,
    {
        let f = &files[k];
        assert(listed_views(files@)[k as int] == f@);
        assert(lookup(cl@, f@.file.destination) == conflict_spec(ms, f@.file.destination));
        let c = match cl.get(f.file.destination()) {
            Some(w) => {
                if w.len() > 0 && str_eq(w[w.len() - 1].as_str(), f.mod_name.as_str()) {
                    assert(strs(w@).last() == w@[w@.len() - 1]@);
                    Colour::Green
                } else {
                    proof {
                        if w@.len() > 0 {
                            assert(strs(w@).last() == w@[w@.len() - 1]@);
                        }
                    }
                    Colour::Red
                }
            },
            None => Colour::White,
        };
        let mut row: Vec<TableCell> = Vec::new();
        row.push(cell(String::from_str(f.file.source()), c));
        row.push(cell(String::from_str(f.file.destination()), c));
        assert(cell_views(row@) =~= g(f@));
        rows.push(row);
        k += 1;
    }
    let ghost mapped = listed_views(files@).map_values(g);
    if rows.len() == 0 {
        let mut note: Vec<TableCell> = Vec::new();
        note.push(cell(String::from_str("No files found."), Colour::Reset));
        assert(cell_views(note@) =~= seq![("No files found."@, Colour::Reset)]);
        rows.push(note);
    }
    let files_table = Table { headers: headers_of(&["File", "Destination"]), rows };
    assert(files_table@.rows =~= rows_or(mapped, "No files found."@));
    assert(files_table@.headers =~= seq!["File"@, "Destination"@]);
    let disabled_files = md.disabled_files();
    let disabled = if disabled_files.len() > 0 {
        let ghost h = |f: FileSpec| seq![(f.source, Colour::Grey)];
        let mut drows: Vec<Vec<TableCell>> = Vec::new();
        let mut j: usize = 0;
        while j < disabled_files.len()
            invariant
                j <= disabled_files@.len(),
                h == (|f: FileSpec| seq![(f.source, Colour::Grey)]),
                drows@.len() == j,
                forall|q: int| 0 <= q < j ==> cell_views(#[trigger] drows@[q]@) == h(file_specs(disabled_files@)[q]),
            decreases disabled_files.len() - j,
        {
            assert(file_specs(disabled_files@)[j as int] == disabled_files@[j as int]@);
            let mut row: Vec<TableCell> = Vec::new();
            row.push(cell(String::from_str(disabled_files[j].source()), Colour::Grey));
            assert(cell_views(row@) =~= h(file_specs(disabled_files@)[j as int]));
            drows.push(row);
            j += 1;
        }
        let t = Table { headers: headers_of(&["Disabled File"]), rows: drows };
        assert(t@.rows =~= file_specs(disabled_files@).map_values(h));
        assert(t@.headers =~= seq!["Disabled File"@]);
        Some(t)
    } else {
        None
    };
    (files, ModStatus { info, files: files_table, disabled })
}

/// Why a mod's configuration files cannot be edited.
#[derive(Debug)]
pub enum EditConfigError {
    /// The mod has no such configuration file.
    Mod(ModErrors),
    /// A configuration file does not lie in the mod's directory.
    NotInMod(String),
}

/// The configuration files of `m` with the wanted extension (the usual
/// ones when none is given).
pub open spec fn config_candidates(m: ManifestView, extension: Option<Seq<char>>) -> Seq<Seq<char>> {
    m.files().map_values(|f: FileSpec| path_join(m.manifest_dir, f.source)).filter(
        |f: Seq<char>| is_config_file(f, extension),
    )
}

/// The first of `fs` at or after `i` whose file name is `name`.
pub open spec fn first_with_name(fs: Seq<Seq<char>>, name: Seq<char>, i: int) -> Option<int>
    decreases fs.len() - i,
{
    if i < 0 || i >= fs.len() {
        None
    } else if match path_file_name(fs[i]) {
        Some(n) => n,
        None => Seq::empty(),
    } == name {
        Some(i)
    } else {
        first_with_name(fs, name, i + 1)
    }
}

/// The configuration files to edit: the first named `config_name`, when a
/// name is given; else all of them.
pub open spec fn config_selection(m: ManifestView, config_name: Option<Seq<char>>, extension: Option<Seq<char>>) -> Seq<Seq<char>> {
    let cs = config_candidates(m, extension);
    match config_name {
        Some(n) => match first_with_name(cs, n, 0) {
            Some(i) => seq![cs[i]],
            None => Seq::empty(),
        },
        None => cs,
    }
}

/// A found position is a file of that name.
proof fn lemma_first_with_name(fs: Seq<Seq<char>>, name: Seq<char>, i: int)
    ensures
        first_with_name(fs, name, i) matches Some(j) ==> i <= j < fs.len() && 0 <= j,
    decreases fs.len() - i,
{
    if 0 <= i < fs.len() {
        lemma_first_with_name(fs, name, i + 1);
    }
}

/// The configuration files of the mod `manifest` to open in the editor, as
/// paths in `cache_dir` together with their paths relative to the mod's
/// directory; the error names the mod when there is none.
pub fn edit_mod_config_files(
    cache_dir: &str,
    manifest: &Manifest,
    config_name: Option<&str>,
    extension: Option<&str>,
) -> (r: Result<Vec<(String, String)>, EditConfigError>)
    ensures
        config_selection(manifest@, str_opt_view(config_name), str_opt_view(extension)).len() == 0 ==> (
        r matches Err(EditConfigError::Mod(ModErrors::FileNotFound(n, f))) && n@ == manifest@.name
            && f@ == Seq::<char>::empty()),
        r matches Ok(v) ==> v@.len() == config_selection(
            manifest@,
            str_opt_view(config_name),
            str_opt_view(extension),
        ).len() && v@.len() > 0 && forall|k: int|
            0 <= k < v@.len() ==> (#[trigger] v@[k]).0@ == path_join(
                cache_dir@,
                config_selection(manifest@, str_opt_view(config_name), str_opt_view(extension))[k],
            ) && path_strip_prefix(
                config_selection(manifest@, str_opt_view(config_name), str_opt_view(extension))[k],
                manifest@.manifest_dir,
            ) == Some(v@[k].1@),
        config_selection(manifest@, str_opt_view(config_name), str_opt_view(extension)).len() > 0
            && (forall|k: int|
            0 <= k < config_selection(manifest@, str_opt_view(config_name), str_opt_view(extension)).len()
                ==> path_strip_prefix(
                #[trigger] config_selection(manifest@, str_opt_view(config_name), str_opt_view(extension))[k],
                manifest@.manifest_dir,
            ) is Some) ==> r is Ok,
        r matches Err(EditConfigError::NotInMod(p)) ==> exists|k: int|
            0 <= k < config_selection(manifest@, str_opt_view(config_name), str_opt_view(extension)).len()
                && config_selection(manifest@, str_opt_view(config_name), str_opt_view(extension))[k]
                == p@ && path_strip_prefix(p@, manifest@.manifest_dir) is None && forall|q: int|
                0 <= q < k ==> path_strip_prefix(
                #[trigger] config_selection(manifest@, str_opt_view(config_name), str_opt_view(extension))[q],
                manifest@.manifest_dir,
            ) is Some,
{
    let ghost sel = config_selection(manifest@, str_opt_view(config_name), str_opt_view(extension));
    let list = manifest.find_config_files(extension);
    assert(strs(list@) == config_candidates(manifest@, str_opt_view(extension)));
    let chosen: Vec<String> = match config_name {
        Some(n) => {
            let ghost cs = strs(list@);
            let mut found: Option<usize> = None;
            let mut i: usize = 0;
            while i < list.len()
                invariant
                    i <= list@.len(),
                    cs == strs(list@),
                    found is None ==> first_with_name(cs, n@, 0) == first_with_name(cs, n@, i as int),
                    found matches Some(j) ==> first_with_name(cs, n@, 0) == Some(j as int) && j < list@.len(),
                decreases list.len() - i,
            {
                if found.is_none() {
                    assert(cs[i as int] == list@[i as int]@);
                    let fname = match file_name(list[i].as_str()) {
                        Some(f) => f,
                        None => String::new(),
                    };
                    if str_eq(fname.as_str(), n) {
                        found = Some(i);
                    }
                }
                i += 1;
            }
            let mut one: Vec<String> = Vec::new();
            match found {
                Some(j) => {
                    assert(cs[j as int] == list@[j as int]@);
                    one.push(list[j].clone());
                    assert(strs(one@) =~= sel);
                },
                None => {
                    assert(strs(one@) =~= sel);
                },
            }
            one
        },
        None => list,
    };
    assert(strs(chosen@) == sel);
    if chosen.len() == 0 {
        return Err(EditConfigError::Mod(ModErrors::FileNotFound(String::from_str(manifest.name()), String::new())));
    }
    let mut r: Vec<(String, String)> = Vec::new();
    let mut k: usize = 0;
    while k < chosen.len()
        invariant
            k <= chosen@.len(),
            sel == config_selection(manifest@, str_opt_view(config_name), str_opt_view(extension)),
            strs(chosen@) == sel,
            r@.len() == k,
            forall|q: int|
                0 <= q < k ==> (#[trigger] r@[q]).0@ == path_join(cache_dir@, sel[q]) && path_strip_prefix(
                    sel[q],
                    manifest@.manifest_dir,
                ) == Some(r@[q].1@),
        decreases chosen.len() - k,
    {
        let cf = &chosen[k];
        assert(sel[k as int] == cf@);
        match strip_prefix(cf.as_str(), manifest.manifest_dir()) {
            Some(rel) => {
                r.push((join(cache_dir, cf.as_str()), rel));
            },
            None => {
                assert(sel.len() == chosen@.len());
                let p = cf.clone();
                assert(sel[k as int] == p@);
                assert(path_strip_prefix(p@, manifest@.manifest_dir) is None);
                assert forall|q: int| 0 <= q < k implies path_strip_prefix(
                    #[trigger] sel[q],
                    manifest@.manifest_dir,
                ) is Some by {
                    assert(path_strip_prefix(sel[q], manifest@.manifest_dir) == Some(r@[q].1@));
                }
                assert(0 <= k < sel.len() && sel[k as int] == p@);
                return Err(EditConfigError::NotInMod(p));
            },
        }
        k += 1;
    }
    Ok(r)
}

} // verus!
