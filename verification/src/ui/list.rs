//! The tables of mods, of a mod's files and of downloaded archives.

use vstd::prelude::*;

use super::{cell, cell_views, ListBuilder, Table, TableCell, TableView};
use crate::conflict::{conflict_list_by_mod, lemma_tag_order_free, list_tag, mod_tag, views};
use crate::dmodman::{DmodMan, DmodView};
use crate::manifest::install_file::{file_specs, FileSpec, InstallFile};
use crate::manifest::mod_state::ModState;
use crate::manifest::{update_available, Manifest, ManifestView};
use crate::mods::ModKind;
use crate::paths::{path_with_extension, with_extension};
use crate::tag::{tag_colour, Colour, Tag};
use crate::text::{
    decimal, decimal_string, join_strings, join_with, signed_decimal, signed_decimal_string,
    str_eq, str_lower, strs, to_lower,
};

verus! {

/// `x` as a one-element sequence when `b` holds, else nothing.
pub open spec fn opt_one<A>(b: bool, x: A) -> Seq<A> {
    if b {
        seq![x]
    } else {
        Seq::empty()
    }
}

/// Which columns and decorations a mod table has.
#[derive(Copy, Clone, Debug, PartialEq, Eq, Structural)]
pub struct ModListFlags {
    pub index: bool,
    pub priority: bool,
    pub status: bool,
    pub version: bool,
    pub nexus_id: bool,
    pub mod_type: bool,
    pub tags: bool,
    pub notes: bool,
    pub colour: bool,
    pub headers: bool,
}

/// The text that names a mod state.
pub open spec fn state_label(s: ModState) -> Seq<char> {
    match s {
        ModState::Enabled => "Enabled"@,
        ModState::Disabled => "Disabled"@,
    }
}

/// The text that names a mod kind.
pub open spec fn kind_label(k: ModKind) -> Seq<char> {
    match k {
        ModKind::Data => "Data"@,
        ModKind::FoMod => "FoMod"@,
        ModKind::Loader => "Loader"@,
        ModKind::Custom => "Custom"@,
    }
}

/// The headers of a mod table.
pub open spec fn mod_headers(f: ModListFlags) -> Seq<Seq<char>> {
    if f.headers {
        opt_one(f.index, "Index"@) + seq!["Name"@] + opt_one(f.priority, "Priority"@) + opt_one(
            f.status,
            "Status"@,
        ) + opt_one(f.version, "Version"@) + opt_one(f.nexus_id, "Nexus Id"@) + opt_one(
            f.mod_type,
            "Mod Type"@,
        ) + opt_one(f.tags, "Tags"@) + opt_one(f.notes, "Notes"@)
    } else {
        Seq::empty()
    }
}

/// Some download of `ds` is a newer version of `m`.
pub open spec fn has_update(m: ManifestView, ds: Seq<DmodView>) -> bool {
    exists|k: int| 0 <= k < ds.len() && update_available(m, #[trigger] ds[k])
}

/// The colour of a mod's cells.
pub open spec fn row_colour(f: ModListFlags, t: Tag) -> Colour {
    if f.colour {
        tag_colour(t)
    } else {
        Colour::Reset
    }
}

/// The colour of a mod's position: white is shown in the terminal's own colour.
pub open spec fn index_colour(f: ModListFlags, t: Tag) -> Colour {
    if f.colour && tag_colour(t) != Colour::White {
        tag_colour(t)
    } else {
        Colour::Reset
    }
}

/// The row of the `i`-th mod of `ms`.
pub open spec fn mod_row(ms: Seq<ManifestView>, i: int, ds: Seq<DmodView>, f: ModListFlags) -> Seq<
    (Seq<char>, Colour),
> {
    mod_row_with(ms[i], i, list_tag(ms, ms[i]), ds, f)
}

/// The first cells of the row of mod `m` at position `i` with status `t`:
/// position, name, priority, state and version.
pub open spec fn mod_row_head(m: ManifestView, i: int, t: Tag, f: ModListFlags) -> Seq<(Seq<char>, Colour)> {
    let c = row_colour(f, t);
    opt_one(f.index, (decimal(i as nat), index_colour(f, t))) + seq![(m.name, c)] + opt_one(
        f.priority,
        (signed_decimal(m.priority as int), c),
    ) + opt_one(f.status, (state_label(m.mod_state), c)) + opt_one(
        f.version,
        (
            match m.version {
                Some(v) => v,
                None => "<Unknown>"@,
            },
            c,
        ),
    )
}

/// The row of mod `m` at position `i` with status `t`: after the first
/// cells, the Nexus id, the kind, the tags and the update note.
pub open spec fn mod_row_with(m: ManifestView, i: int, t: Tag, ds: Seq<DmodView>, f: ModListFlags) -> Seq<
    (Seq<char>, Colour),
> {
    let c = row_colour(f, t);
    mod_row_head(m, i, t, f) + opt_one(
        f.nexus_id,
        (
            match m.nexus_id {
                Some(id) => decimal(id as nat),
                None => "<Unknown>"@,
            },
            c,
        ),
    ) + opt_one(f.mod_type, (kind_label(m.mod_kind), c)) + opt_one(
        f.tags,
        (join_with(m.tags, ","@), Colour::Reset),
    ) + opt_one(
        f.notes,
        (
            if has_update(m, ds) {
                "Update Available"@
            } else {
                Seq::empty()
            },
            Colour::Reset,
        ),
    )
}

/// The views of downloads.
pub open spec fn dmod_views_of(s: Seq<DmodMan>) -> Seq<DmodView> {
    s.map_values(|d: DmodMan| d@)
}

/// A table of mods in the making.
pub struct ModListBuilder<'a> {
    list: &'a [Manifest],
    dmods: Vec<DmodMan>,
    flags: ModListFlags,
}

/// The flags of a new table: no column but the names.
pub open spec fn no_flags() -> ModListFlags {
    ModListFlags {
        index: false,
        priority: false,
        status: false,
        version: false,
        nexus_id: false,
        mod_type: false,
        tags: false,
        notes: false,
        colour: false,
        headers: false,
    }
}

/// A string from a string literal.
fn text(s: &str) -> (r: String)
    ensures
        r@ == s@,
{
    String::from_str(s)
}

/// Appends the header `h` when `b` holds.
fn push_header_if(headers: &mut Vec<String>, b: bool, h: &str)
    ensures
        strs(final(headers)@) == strs(old(headers)@) + opt_one(b, h@),
{
    let ghost before = strs(headers@);
    if b {
        headers.push(String::from_str(h));
        assert(strs(headers@) =~= before + opt_one(b, h@));
    } else {
        assert(before + opt_one(b, h@) =~= before);
    }
}

/// Appends a cell when `b` holds.
fn push_cell_if(row: &mut Vec<TableCell>, b: bool, text: String, colour: Colour)
    ensures
        cell_views(final(row)@) == cell_views(old(row)@) + opt_one(b, (text@, colour)),
{
    let ghost before = cell_views(row@);
    if b {
        row.push(cell(text, colour));
        assert(cell_views(row@) =~= before + opt_one(b, (text@, colour)));
    } else {
        assert(before + opt_one(b, (text@, colour)) =~= before);
    }
}

/// Appends a cell.
fn push_cell(row: &mut Vec<TableCell>, text: String, colour: Colour)
    ensures
        cell_views(final(row)@) == cell_views(old(row)@).push((text@, colour)),
{
    let ghost before = cell_views(row@);
    row.push(cell(text, colour));
    assert(cell_views(row@) =~= before.push((text@, colour)));
}

impl<'a> ModListBuilder<'a> {
    /// The mods listed.
    pub closed spec fn list_view(&self) -> Seq<Manifest> {
        self.list@
    }

    /// The downloads checked for updates.
    pub closed spec fn dmods_view(&self) -> Seq<DmodView> {
        dmod_views_of(self.dmods@)
    }

    /// The columns and decorations.
    pub closed spec fn flags(&self) -> ModListFlags {
        self.flags
    }

    /// Every download checked for updates names its mod.
    pub open spec fn wf(&self) -> bool {
        forall|k: int| 0 <= k < self.dmods_view().len() ==> (#[trigger] self.dmods_view()[k]).has_name()
    }

    /// The table the builder makes.
    pub open spec fn table_view(&self) -> TableView {
        TableView {
            headers: mod_headers(self.flags()),
            rows: Seq::new(
                self.list_view().len(),
                |i: int| mod_row(views(self.list_view()), i, self.dmods_view(), self.flags()),
            ),
        }
    }

    /// A table of the mods of `list`, showing only their names.
    pub fn new(list: &'a [Manifest]) -> (r: Self)
        ensures
            r.list_view() == list@,
            r.dmods_view() == Seq::<DmodView>::empty(),
            r.flags() == no_flags(),
    {
        let dmods: Vec<DmodMan> = Vec::new();
        assert(dmod_views_of(dmods@) =~= Seq::<DmodView>::empty());
        ModListBuilder {
            list,
            dmods,
            flags: ModListFlags {
                index: false,
                priority: false,
                status: false,
                version: false,
                nexus_id: false,
                mod_type: false,
                tags: false,
                notes: false,
                colour: false,
                headers: false,
            },
        }
    }

    /// The mods listed.
    pub fn list(&self) -> (r: &'a [Manifest])
        ensures
            r@ == self.list_view(),
    {
        self.list
    }

    /// With the mods' positions.
    pub fn with_index(self) -> (r: Self)
        ensures
            r.list_view() == self.list_view(),
            r.dmods_view() == self.dmods_view(),
            r.flags() == (ModListFlags { index: true, ..self.flags() }),
    {
        ModListBuilder { flags: ModListFlags { index: true, ..self.flags }, ..self }
    }

    /// With the mods' priorities.
    pub fn with_priority(self) -> (r: Self)
        ensures
            r.list_view() == self.list_view(),
            r.dmods_view() == self.dmods_view(),
            r.flags() == (ModListFlags { priority: true, ..self.flags() }),
    {
        ModListBuilder { flags: ModListFlags { priority: true, ..self.flags }, ..self }
    }

    /// With the mods' states.
    pub fn with_status(self) -> (r: Self)
        ensures
            r.list_view() == self.list_view(),
            r.dmods_view() == self.dmods_view(),
            r.flags() == (ModListFlags { status: true, ..self.flags() }),
    {
        ModListBuilder { flags: ModListFlags { status: true, ..self.flags }, ..self }
    }

    /// With the mods' versions.
    pub fn with_version(self) -> (r: Self)
        ensures
            r.list_view() == self.list_view(),
            r.dmods_view() == self.dmods_view(),
            r.flags() == (ModListFlags { version: true, ..self.flags() }),
    {
        ModListBuilder { flags: ModListFlags { version: true, ..self.flags }, ..self }
    }

    /// With the mods' Nexus ids.
    pub fn with_nexus_id(self) -> (r: Self)
        ensures
            r.list_view() == self.list_view(),
            r.dmods_view() == self.dmods_view(),
            r.flags() == (ModListFlags { nexus_id: true, ..self.flags() }),
    {
        ModListBuilder { flags: ModListFlags { nexus_id: true, ..self.flags }, ..self }
    }

    /// With the mods' kinds.
    pub fn with_mod_type(self) -> (r: Self)
        ensures
            r.list_view() == self.list_view(),
            r.dmods_view() == self.dmods_view(),
            r.flags() == (ModListFlags { mod_type: true, ..self.flags() }),
    {
        ModListBuilder { flags: ModListFlags { mod_type: true, ..self.flags }, ..self }
    }

    /// With the mods' tags.
    pub fn with_tags(self) -> (r: Self)
        ensures
            r.list_view() == self.list_view(),
            r.dmods_view() == self.dmods_view(),
            r.flags() == (ModListFlags { tags: true, ..self.flags() }),
    {
        ModListBuilder { flags: ModListFlags { tags: true, ..self.flags }, ..self }
    }

    /// With a note on the mods for which one of the downloads `dmods` is
    /// a newer version.
    pub fn with_notes(self, dmods: Vec<DmodMan>) -> (r: Self)
        ensures
            r.list_view() == self.list_view(),
            r.dmods_view() == dmod_views_of(dmods@),
            r.flags() == (ModListFlags { notes: true, ..self.flags() }),
    {
        ModListBuilder { flags: ModListFlags { notes: true, ..self.flags }, dmods, list: self.list }
    }

    /// With the rows coloured by the mods' status.
    pub fn with_colour(self) -> (r: Self)
        ensures
            r.list_view() == self.list_view(),
            r.dmods_view() == self.dmods_view(),
            r.flags() == (ModListFlags { colour: true, ..self.flags() }),
    {
        ModListBuilder { flags: ModListFlags { colour: true, ..self.flags }, ..self }
    }

    /// With a header line.
    pub fn with_headers(self) -> (r: Self)
        ensures
            r.list_view() == self.list_view(),
            r.dmods_view() == self.dmods_view(),
            r.flags() == (ModListFlags { headers: true, ..self.flags() }),
    {
        ModListBuilder { flags: ModListFlags { headers: true, ..self.flags }, ..self }
    }

    /// The header line.
    fn headers(&self) -> (r: Vec<String>)
        ensures
            strs(r@) == mod_headers(self.flags()),
    {
        let f = self.flags;
        let mut h: Vec<String> = Vec::new();
        if f.headers {
            push_header_if(&mut h, f.index, "Index");
            assert(strs(h@) =~= opt_one(f.index, "Index"@));
            push_header_if(&mut h, true, "Name");
            assert(opt_one(true, "Name"@) =~= seq!["Name"@]);
            push_header_if(&mut h, f.priority, "Priority");
            push_header_if(&mut h, f.status, "Status");
            push_header_if(&mut h, f.version, "Version");
            push_header_if(&mut h, f.nexus_id, "Nexus Id");
            push_header_if(&mut h, f.mod_type, "Mod Type");
            push_header_if(&mut h, f.tags, "Tags");
            push_header_if(&mut h, f.notes, "Notes");
        } else {
            assert(strs(h@) =~= Seq::<Seq<char>>::empty());
        }
        h
    }

    /// Whether some download is a newer version of `m`.
    fn update_noted(&self, m: &Manifest) -> (r: bool)
        requires
            self.wf(),
        ensures
            r == has_update(m@, self.dmods_view()),
    {
        let mut k: usize = 0;
        while k < self.dmods.len()
            invariant
                self.wf(),
                k <= self.dmods@.len(),
                forall|j: int| 0 <= j < k ==> !update_available(m@, #[trigger] self.dmods_view()[j]),
            decreases self.dmods.len() - k,
        {
            assert(self.dmods_view()[k as int] == self.dmods@[k as int]@);
            if m.is_an_update(&self.dmods[k]) {
                return true;
            }
            k += 1;
        }
        false
    }

    /// The first cells of the row of the `i`-th mod, whose status is `t`.
    fn row_head(&self, i: usize, t: Tag) -> (r: Vec<TableCell>)
        requires
            i < self.list_view().len(),
        ensures
            cell_views(r@) == mod_row_head(self.list_view()[i as int]@, i as int, t, self.flags()),
    {
        let f = self.flags;
        let m = &self.list[i];
        let tc = t.colour();
        let c = if f.colour {
            tc
        } else {
            Colour::Reset
        };
        let ic = if f.colour && tc != Colour::White {
            tc
        } else {
            Colour::Reset
        };
        proof {
            reveal_strlit("<Unknown>");
            reveal_strlit("Enabled");
            reveal_strlit("Disabled");
        }
        let mut r: Vec<TableCell> = Vec::new();
        push_cell_if(&mut r, f.index, decimal_string(i as u64), ic);
        assert(cell_views(r@) =~= opt_one(f.index, (decimal(i as nat), ic)));
        push_cell_if(&mut r, true, text(m.name()), c);
        assert(opt_one(true, (m@.name, c)) =~= seq![(m@.name, c)]);
        push_cell_if(&mut r, f.priority, signed_decimal_string(m.priority() as i64), c);
        let st = text(m.mod_state().label());
        assert(st@ == state_label(m@.mod_state));
        push_cell_if(&mut r, f.status, st, c);
        let v = match m.version() {
            Some(v) => text(v),
            None => text("<Unknown>"),
        };
        push_cell_if(&mut r, f.version, v, c);
        r
    }

    /// The row of the `i`-th mod, whose status is `t`.
    fn row(&self, i: usize, t: Tag) -> (r: Vec<TableCell>)
        requires
            self.wf(),
            i < self.list_view().len(),
        ensures
            cell_views(r@) == mod_row_with(self.list_view()[i as int]@, i as int, t, self.dmods_view(), self.flags()),
    {
        let f = self.flags;
        let m = &self.list[i];
        let c = if f.colour {
            t.colour()
        } else {
            Colour::Reset
        };
        proof {
            reveal_strlit("<Unknown>");
            reveal_strlit(",");
            reveal_strlit("Update Available");
        }
        let mut r = self.row_head(i, t);
        let n = match m.nexus_id() {
            Some(id) => decimal_string(id as u64),
            None => text("<Unknown>"),
        };
        push_cell_if(&mut r, f.nexus_id, n, c);
        let k = text(m.kind().label());
        assert(k@ == kind_label(m@.mod_kind));
        push_cell_if(&mut r, f.mod_type, k, c);
        push_cell_if(&mut r, f.tags, join_strings(m.tags(), ","), Colour::Reset);
        let upd = if f.notes {
            self.update_noted(m)
        } else {
            false
        };
        let note = if upd {
            text("Update Available")
        } else {
            String::new()
        };
        assert(f.notes ==> note@ == (if has_update(m@, self.dmods_view()) {
            "Update Available"@
        } else {
            Seq::<char>::empty()
        }));
        push_cell_if(&mut r, f.notes, note, Colour::Reset);
        r
    }

    /// The table: the header line and one row per mod, in list order.
    fn build_table(&self) -> (r: Table)
        requires
            self.wf(),
        ensures
            r@ == self.table_view(),
    {
        let conflicts = conflict_list_by_mod(self.list);
        let ghost ms = views(self.list_view());
        let mut rows: Vec<Vec<TableCell>> = Vec::new();
        let mut i: usize = 0;
        while i < self.list.len()
            invariant
                self.wf(),
                i <= self.list_view().len(),
                ms == views(self.list_view()),
                forall|f: Seq<char>| #[trigger] crate::conflict::lookup(conflicts.files_view(), f)
                    == crate::conflict::conflict_spec(ms, f),
                forall|n: Seq<char>| #[trigger] crate::conflict::mod_entry_from(conflicts.mods_view(), n, 0) matches Some(k)
                    ==> Some(conflicts.mods_view()[k].1) == crate::conflict::mod_conflict_spec(ms, conflicts.files_view(), n),
                forall|n: Seq<char>| #[trigger] crate::conflict::mod_entry_from(conflicts.mods_view(), n, 0) is None
                    ==> crate::conflict::mod_conflict_spec(ms, conflicts.files_view(), n) is None,
                crate::conflict::lists_conflicts(conflicts.files_view(), ms),
                rows@.len() == i,
                forall|k: int| 0 <= k < i ==> cell_views(#[trigger] rows@[k]@) == mod_row(ms, k, self.dmods_view(), self.flags()),
            decreases self.list.len() - i,
        {
            let m = &self.list[i];
            assert(ms[i as int] == m@);
            let t = mod_tag(&conflicts, m);
            proof {
                lemma_tag_order_free(ms, conflicts.files_view(), m@);
                assert(crate::conflict::mod_conflicts_of(conflicts.mods_view(), m@.name)
                    == crate::conflict::mod_conflict_spec(ms, conflicts.files_view(), m@.name));
            }
            let row = self.row(i, t);
            assert(cell_views(row@) == mod_row(ms, i as int, self.dmods_view(), self.flags()));
            rows.push(row);
            i += 1;
        }
        let r = Table { headers: self.headers(), rows };
        assert(r@.rows =~= self.table_view().rows);
        r
    }
}

impl<'a> ListBuilder for ModListBuilder<'a> {
    open spec fn ready(&self) -> bool {
        self.wf()
    }

    open spec fn table_spec(&self) -> TableView {
        self.table_view()
    }

    /// The table: the header line and one row per mod, in list order.
    fn build(&self) -> (r: Table) {
        self.build_table()
    }
}

/// Which columns a file table has.
#[derive(Copy, Clone, Debug, PartialEq, Eq, Structural)]
pub struct FileListFlags {
    pub disabled_files: bool,
    pub index: bool,
    pub origin: bool,
    pub headers: bool,
}

/// The headers of a file table.
pub open spec fn file_headers(f: FileListFlags) -> Seq<Seq<char>> {
    if f.headers {
        opt_one(f.index, "Index"@) + opt_one(f.origin, "Source"@) + seq!["Destination"@]
    } else {
        Seq::empty()
    }
}

/// The row of the `k`-th file.
pub open spec fn file_row(k: int, fs: FileSpec, f: FileListFlags) -> Seq<(Seq<char>, Colour)> {
    opt_one(f.index, (decimal(k as nat), Colour::White)) + opt_one(
        f.origin,
        (fs.source, Colour::White),
    ) + seq![(fs.destination, Colour::White)]
}

/// A table of a mod's files in the making.
pub struct FileListBuilder<'a> {
    manifest: &'a Manifest,
    flags: FileListFlags,
}

impl<'a> FileListBuilder<'a> {
    /// The mod whose files are listed.
    pub closed spec fn manifest_view(&self) -> ManifestView {
        self.manifest@
    }

    /// The columns.
    pub closed spec fn flags(&self) -> FileListFlags {
        self.flags
    }

    /// The files listed: the disabled ones, or those installed.
    pub open spec fn listed_files(&self) -> Seq<FileSpec> {
        if self.flags().disabled_files {
            crate::manifest::internal_disabled(self.manifest_view().internal)
        } else {
            self.manifest_view().files()
        }
    }

    /// The table the builder makes.
    pub open spec fn table_view(&self) -> TableView {
        TableView {
            headers: file_headers(self.flags()),
            rows: Seq::new(
                self.listed_files().len(),
                |k: int| file_row(k, self.listed_files()[k], self.flags()),
            ),
        }
    }

    /// A table of the destinations of the files of `manifest`.
    pub fn new(manifest: &'a Manifest) -> (r: Self)
        ensures
            r.manifest_view() == manifest@,
            r.flags() == (FileListFlags { disabled_files: false, index: false, origin: false, headers: false }),
    {
        FileListBuilder {
            manifest,
            flags: FileListFlags { disabled_files: false, index: false, origin: false, headers: false },
        }
    }

    /// Listing the disabled files.
    pub fn disabled_files(self) -> (r: Self)
        ensures
            r.manifest_view() == self.manifest_view(),
            r.flags() == (FileListFlags { disabled_files: true, ..self.flags() }),
    {
        FileListBuilder { flags: FileListFlags { disabled_files: true, ..self.flags }, ..self }
    }

    /// With the files' positions.
    pub fn with_index(self) -> (r: Self)
        ensures
            r.manifest_view() == self.manifest_view(),
            r.flags() == (FileListFlags { index: true, ..self.flags() }),
    {
        FileListBuilder { flags: FileListFlags { index: true, ..self.flags }, ..self }
    }

    /// With the files' sources.
    pub fn with_origin(self) -> (r: Self)
        ensures
            r.manifest_view() == self.manifest_view(),
            r.flags() == (FileListFlags { origin: true, ..self.flags() }),
    {
        FileListBuilder { flags: FileListFlags { origin: true, ..self.flags }, ..self }
    }

    /// With a header line.
    pub fn with_headers(self) -> (r: Self)
        ensures
            r.manifest_view() == self.manifest_view(),
            r.flags() == (FileListFlags { headers: true, ..self.flags() }),
    {
        FileListBuilder { flags: FileListFlags { headers: true, ..self.flags }, ..self }
    }
}

impl<'a> ListBuilder for FileListBuilder<'a> {
    open spec fn ready(&self) -> bool {
        true
    }

    open spec fn table_spec(&self) -> TableView {
        self.table_view()
    }

    /// The table: the header line and one row per file.
    fn build(&self) -> (r: Table) {
        let f = self.flags;
        let mut headers: Vec<String> = Vec::new();
        if f.headers {
            if f.index {
                headers.push(text("Index"));
            }
            if f.origin {
                headers.push(text("Source"));
            }
            headers.push(text("Destination"));
        }
        assert(strs(headers@) =~= file_headers(f));
        let files = if f.disabled_files {
            self.manifest.disabled_files()
        } else {
            self.manifest.files()
        };
        let ghost fs = file_specs(files@);
        assert(fs == self.listed_files());
        let mut rows: Vec<Vec<TableCell>> = Vec::new();
        let mut k: usize = 0;
        while k < files.len()
            invariant
                k <= files@.len(),
                fs == file_specs(files@),
                fs == self.listed_files(),
                f == self.flags(),
                rows@.len() == k,
                forall|j: int| 0 <= j < k ==> cell_views(#[trigger] rows@[j]@) == file_row(j, fs[j], f),
            decreases files.len() - k,
        {
            let isf = &files[k];
            assert(fs[k as int] == isf@);
            let mut row: Vec<TableCell> = Vec::new();
            assert(cell_views(row@) =~= Seq::<(Seq<char>, Colour)>::empty());
            if f.index {
                push_cell(&mut row, decimal_string(k as u64), Colour::White);
            }
            if f.origin {
                push_cell(&mut row, text(isf.source()), Colour::White);
            }
            push_cell(&mut row, text(isf.destination()), Colour::White);
            assert(cell_views(row@) =~= file_row(k as int, fs[k as int], f));
            rows.push(row);
            k += 1;
        }
        let r = Table { headers, rows };
        assert(r@.rows =~= self.table_view().rows);
        r
    }
}

/// Which columns and decorations an archive table has.
#[derive(Copy, Clone, Debug, PartialEq, Eq, Structural)]
pub struct ArchiveListFlags {
    pub index: bool,
    pub status: bool,
    pub headers: bool,
    pub colour: bool,
}

/// The headers of an archive table.
pub open spec fn archive_headers(f: ArchiveListFlags) -> Seq<Seq<char>> {
    if f.headers {
        opt_one(f.index, "Index"@) + seq!["File"@] + opt_one(f.status, "Status"@)
    } else {
        Seq::empty()
    }
}

/// The name an archive's mod is installed under: the download's mod name,
/// or the archive's file name without its extension, lower-cased.
pub open spec fn archive_key(file: Seq<char>, d: Option<DmodView>) -> Seq<char> {
    match d {
        Some(x) => x.name(),
        None => str_lower(path_with_extension(file, Seq::empty())),
    }
}

/// The last of the first `n` mods installed under the name `key`.
pub open spec fn last_with_bare_name(ms: Seq<ManifestView>, key: Seq<char>, n: int) -> Option<int>
    decreases n,
{
    if n <= 0 {
        None
    } else if ms[n - 1].bare_file_name == key {
        Some(n - 1)
    } else {
        last_with_bare_name(ms, key, n - 1)
    }
}

/// Whether an archive is installed, and whether it is a newer version of
/// the installed mod.
pub open spec fn archive_state(
    ms: Seq<ManifestView>,
    file: Seq<char>,
    d: Option<DmodView>,
    f: ArchiveListFlags,
) -> (bool, bool) {
    if f.status {
        let found = last_with_bare_name(ms, archive_key(file, d), ms.len() as int);
        (
            found is Some,
            match (d, found) {
                (Some(x), Some(k)) => update_available(ms[k], x),
                _ => false,
            },
        )
    } else {
        (true, false)
    }
}

/// The row of the `k`-th archive.
pub open spec fn archive_row(
    ms: Seq<ManifestView>,
    k: int,
    file: Seq<char>,
    d: Option<DmodView>,
    f: ArchiveListFlags,
) -> Seq<(Seq<char>, Colour)> {
    let st = archive_state(ms, file, d, f);
    let c = if !f.colour {
        Colour::Reset
    } else if !st.0 {
        Colour::Green
    } else if st.1 {
        Colour::Yellow
    } else {
        Colour::Grey
    };
    let label = if !f.status {
        Seq::empty()
    } else if !st.0 {
        "New"@
    } else if st.1 {
        "Upgrade"@
    } else {
        "Installed"@
    };
    opt_one(f.index, (decimal(k as nat), c)) + seq![(file, c)] + opt_one(f.status, (label, c))
}

/// The views of optional downloads.
pub open spec fn opt_dmod_views(s: Seq<Option<DmodMan>>) -> Seq<Option<DmodView>> {
    s.map_values(
        |d: Option<DmodMan>|
            match d {
                Some(x) => Some(x@),
                None => None,
            },
    )
}

/// A table of the downloaded archives in the making: the archives' file
/// names, the download metadata found beside each, and the installed mods.
pub struct ArchiveListBuilder {
    archives: Vec<String>,
    dmods: Vec<Option<DmodMan>>,
    mods: Vec<Manifest>,
    flags: ArchiveListFlags,
}

impl ArchiveListBuilder {
    /// The archives' file names.
    pub closed spec fn archives_view(&self) -> Seq<Seq<char>> {
        strs(self.archives@)
    }

    /// The metadata of each archive's download.
    pub closed spec fn dmods_view(&self) -> Seq<Option<DmodView>> {
        opt_dmod_views(self.dmods@)
    }

    /// The installed mods.
    pub closed spec fn mods_view(&self) -> Seq<ManifestView> {
        views(self.mods@)
    }

    /// The columns and decorations.
    pub closed spec fn flags(&self) -> ArchiveListFlags {
        self.flags
    }

    /// Every archive has its metadata, or none, and the metadata found
    /// names its mod.
    pub open spec fn wf(&self) -> bool {
        &&& self.dmods_view().len() == self.archives_view().len()
        &&& forall|k: int|
            0 <= k < self.dmods_view().len() ==> (#[trigger] self.dmods_view()[k] matches Some(d)
                ==> d.has_name())
    }

    /// The table the builder makes.
    pub open spec fn table_view(&self) -> TableView {
        TableView {
            headers: archive_headers(self.flags()),
            rows: Seq::new(
                self.archives_view().len(),
                |k: int|
                    archive_row(
                        self.mods_view(),
                        k,
                        self.archives_view()[k],
                        self.dmods_view()[k],
                        self.flags(),
                    ),
            ),
        }
    }

    /// A table of the archives `archives` (file names in the download
    /// directory), with the metadata `dmods` of each and the installed `mods`.
    pub fn new(archives: Vec<String>, dmods: Vec<Option<DmodMan>>, mods: Vec<Manifest>) -> (r: Self)
        ensures
            r.archives_view() == strs(archives@),
            r.dmods_view() == opt_dmod_views(dmods@),
            r.mods_view() == views(mods@),
            r.flags() == (ArchiveListFlags { index: false, status: false, headers: false, colour: false }),
    {
        ArchiveListBuilder {
            archives,
            dmods,
            mods,
            flags: ArchiveListFlags { index: false, status: false, headers: false, colour: false },
        }
    }

    /// The archives' file names.
    pub fn list(&self) -> (r: &Vec<String>)
        ensures
            strs(r@) == self.archives_view(),
    {
        &self.archives
    }

    /// With the archives' positions.
    pub fn with_index(self) -> (r: Self)
        ensures
            r.archives_view() == self.archives_view(),
            r.dmods_view() == self.dmods_view(),
            r.mods_view() == self.mods_view(),
            r.flags() == (ArchiveListFlags { index: true, ..self.flags() }),
    {
        ArchiveListBuilder { flags: ArchiveListFlags { index: true, ..self.flags }, ..self }
    }

    /// With whether each archive is installed.
    pub fn with_status(self) -> (r: Self)
        ensures
            r.archives_view() == self.archives_view(),
            r.dmods_view() == self.dmods_view(),
            r.mods_view() == self.mods_view(),
            r.flags() == (ArchiveListFlags { status: true, ..self.flags() }),
    {
        ArchiveListBuilder { flags: ArchiveListFlags { status: true, ..self.flags }, ..self }
    }

    /// With a header line.
    pub fn with_headers(self) -> (r: Self)
        ensures
            r.archives_view() == self.archives_view(),
            r.dmods_view() == self.dmods_view(),
            r.mods_view() == self.mods_view(),
            r.flags() == (ArchiveListFlags { headers: true, ..self.flags() }),
    {
        ArchiveListBuilder { flags: ArchiveListFlags { headers: true, ..self.flags }, ..self }
    }

    /// With the rows coloured by the archives' status.
    pub fn with_colour(self) -> (r: Self)
        ensures
            r.archives_view() == self.archives_view(),
            r.dmods_view() == self.dmods_view(),
            r.mods_view() == self.mods_view(),
            r.flags() == (ArchiveListFlags { colour: true, ..self.flags() }),
    {
        ArchiveListBuilder { flags: ArchiveListFlags { colour: true, ..self.flags }, ..self }
    }

    /// The last installed mod named `key`.
    fn installed_as(&self, key: &str) -> (r: Option<usize>)
        ensures
            r matches Some(k) ==> last_with_bare_name(self.mods_view(), key@, self.mods_view().len() as int) == Some(k as int)
                && k < self.mods@.len(),
            r is None ==> last_with_bare_name(self.mods_view(), key@, self.mods_view().len() as int) is None,
    {
        let ghost ms = self.mods_view();
        let mut found: Option<usize> = None;
        let mut i: usize = 0;
        while i < self.mods.len()
            invariant
                i <= self.mods@.len(),
                ms == self.mods_view(),
                ms.len() == self.mods@.len(),
                found matches Some(k) ==> last_with_bare_name(ms, key@, i as int) == Some(k as int) && k < i,
                found is None ==> last_with_bare_name(ms, key@, i as int) is None,
            decreases self.mods.len() - i,
        {
            assert(ms[i as int] == self.mods@[i as int]@);
            if str_eq(self.mods[i].bare_file_name(), key) {
                found = Some(i);
            }
            i += 1;
        }
        found
    }

    /// The row of the `k`-th archive.
    fn row(&self, k: usize) -> (r: Vec<TableCell>)
        requires
            self.wf(),
            k < self.archives_view().len(),
        ensures
            cell_views(r@) == archive_row(
                self.mods_view(),
                k as int,
                self.archives_view()[k as int],
                self.dmods_view()[k as int],
                self.flags(),
            ),
    {
        let f = self.flags;
        let file = &self.archives[k];
        let dmod = &self.dmods[k];
        assert(self.archives_view()[k as int] == file@);
        assert(self.dmods_view()[k as int] == match dmod {
            Some(x) => Some(x@),
            None => None,
        });
        let ghost st = archive_state(self.mods_view(), file@, self.dmods_view()[k as int], f);
        let (installed, upgrade) = if f.status {
            let key = match dmod {
                Some(d) => d.name(),
                None => {
                    proof {
                        reveal_strlit("");
                    }
                    let stem = with_extension(file.as_str(), "");
                    to_lower(stem.as_str())
                },
            };
            proof {
                reveal_strlit("");
                assert(""@ =~= Seq::<char>::empty());
            }
            assert(key@ == archive_key(file@, self.dmods_view()[k as int]));
            let found = self.installed_as(key.as_str());
            let up = match (dmod, found) {
                (Some(d), Some(i)) => {
                    assert(self.mods_view()[i as int] == self.mods@[i as int]@);
                    self.mods[i].is_an_update(d)
                },
                _ => false,
            };
            (found.is_some(), up)
        } else {
            (true, false)
        };
        assert((installed, upgrade) == st);
        let c = if !f.colour {
            Colour::Reset
        } else if !installed {
            Colour::Green
        } else if upgrade {
            Colour::Yellow
        } else {
            Colour::Grey
        };
        let mut row: Vec<TableCell> = Vec::new();
        assert(cell_views(row@) =~= Seq::<(Seq<char>, Colour)>::empty());
        if f.index {
            push_cell(&mut row, decimal_string(k as u64), c);
        }
        push_cell(&mut row, file.clone(), c);
        if f.status {
            let label = if !installed {
                text("New")
            } else if upgrade {
                text("Upgrade")
            } else {
                text("Installed")
            };
            push_cell(&mut row, label, c);
        }
        proof {
            reveal_strlit("New");
            reveal_strlit("Upgrade");
            reveal_strlit("Installed");
        }
        assert(cell_views(row@) =~= archive_row(
            self.mods_view(),
            k as int,
            file@,
            self.dmods_view()[k as int],
            f,
        ));
        row
    }
}

impl ListBuilder for ArchiveListBuilder {
    open spec fn ready(&self) -> bool {
        self.wf()
    }

    open spec fn table_spec(&self) -> TableView {
        self.table_view()
    }

    /// The table: the header line and one row per archive, in order.
    fn build(&self) -> (r: Table) {
        let f = self.flags;
        let mut headers: Vec<String> = Vec::new();
        if f.headers {
            if f.index {
                headers.push(text("Index"));
            }
            headers.push(text("File"));
            if f.status {
                headers.push(text("Status"));
            }
        }
        assert(strs(headers@) =~= archive_headers(f));
        let mut rows: Vec<Vec<TableCell>> = Vec::new();
        let mut k: usize = 0;
        while k < self.archives.len()
            invariant
                self.wf(),
                k <= self.archives@.len(),
                self.archives_view().len() == self.archives@.len(),
                rows@.len() == k,
                forall|j: int| 0 <= j < k ==> cell_views(#[trigger] rows@[j]@) == archive_row(
                    self.mods_view(),
                    j,
                    self.archives_view()[j],
                    self.dmods_view()[j],
                    self.flags(),
                ),
            decreases self.archives.len() - k,
        {
            let row = self.row(k);
            rows.push(row);
            k += 1;
        }
        let r = Table { headers, rows };
        assert(r@.rows =~= self.table_view().rows);
        r
    }
}


/// The position the mod list shows for a mod, typed back as the name of a
/// mod, names that mod again.
#[verifier::spinoff_prover]
#[verifier::rlimit(40)]
pub proof fn lemma_shown_index_finds_mod(ms: Seq<ManifestView>, ds: Seq<DmodView>, f: ModListFlags, i: int)
    requires
        0 <= i < ms.len(),
        i <= usize::MAX,
        f.index,
    ensures
        crate::mods::find_mod_spec(ms, mod_row(ms, i, ds, f)[0].0) == Some(i),
{
    crate::text::lemma_decimal_parses_back(i as nat, usize::MAX as nat);
    let t = list_tag(ms, ms[i]);
    let head = mod_row_head(ms[i], i, t, f);
    assert(head[0].0 == decimal(i as nat));
    assert(mod_row(ms, i, ds, f)[0] == head[0]);
}

/// The position the archive list shows for an archive reads back as that
/// position, which is how a chosen line of the list names its archive.
pub proof fn lemma_shown_archive_index(
    ms: Seq<ManifestView>,
    k: int,
    file: Seq<char>,
    d: Option<DmodView>,
    f: ArchiveListFlags,
)
    requires
        0 <= k <= usize::MAX,
        f.index,
    ensures
        crate::text::parse_unsigned(archive_row(ms, k, file, d, f)[0].0, usize::MAX as nat) == Some(
            k as nat,
        ),
{
    crate::text::lemma_decimal_parses_back(k as nat, usize::MAX as nat);
    assert(archive_row(ms, k, file, d, f)[0].0 == decimal(k as nat));
}

} // verus!
