//! The lists of the mod manager: installed files, conflicting files and
//! disabled files of the whole mod list, each file with the mod it comes
//! from, coloured by who wins it.

use vstd::prelude::*;

use crate::conflict::{conflict_list_by_file, conflict_spec, lookup, views, ConflictList};
use crate::manifest::install_file::{file_specs, FileSpec, InstallFile};
use crate::manifest::{Manifest, ManifestView};
use crate::tag::Colour;
use crate::text::{lemma_seq_less_asymmetric, lemma_seq_less_irreflexive, lemma_seq_less_total,
    lemma_seq_less_transitive, seq_less, str_eq, str_less, strs};
use crate::ui::{cell, cell_views, Table, TableCell, TableView};

verus! {

/// The lists.
#[derive(Copy, Clone, Debug, PartialEq, Eq, Structural)]
pub enum ListCmd {
    /// The mod list.
    ModList,
    /// The conflicting files of the enabled mods.
    Conflicts,
    /// Every file of every mod.
    Files,
    /// The disabled files.
    DisabledFiles,
    /// The mods with a tag.
    Tag,
}

impl Default for ListCmd {
    fn default() -> (r: Self)
        ensures
            r == ListCmd::ModList,
    {
        ListCmd::ModList
    }
}

/// The abstract value of a listed file.
pub struct ListedView {
    pub file: FileSpec,
    pub mod_name: Seq<char>,
    pub priority: isize,
}

/// A file of a mod, with the mod's name and priority.
#[derive(Debug)]
pub struct ListedFile {
    pub file: InstallFile,
    pub mod_name: String,
    pub priority: isize,
}

impl View for ListedFile {
    type V = ListedView;

    open spec fn view(&self) -> ListedView {
        ListedView { file: self.file@, mod_name: self.mod_name@, priority: self.priority }
    }
}

/// The views of listed files.
pub open spec fn listed_views(s: Seq<ListedFile>) -> Seq<ListedView> {
    s.map_values(|f: ListedFile| f@)
}

/// `a` is listed before `b`: by destination, then by priority.
pub open spec fn listed_before(a: ListedView, b: ListedView) -> bool {
    seq_less(a.file.destination, b.file.destination) || (a.file.destination == b.file.destination
        && a.priority < b.priority)
}

/// The listed files are in order.
pub open spec fn listed_sorted(s: Seq<ListedView>) -> bool {
    forall|i: int, j: int| 0 <= i < j < s.len() ==> !listed_before(s[j], s[i])
}

/// The files of mod `m`, with its name and priority.
pub open spec fn mod_listed(m: ManifestView) -> Seq<ListedView> {
    m.files().map_values(|f: FileSpec| ListedView { file: f, mod_name: m.name, priority: m.priority })
}

/// The files of every mod of `ms`, mod by mod.
pub open spec fn all_listed(ms: Seq<ManifestView>) -> Seq<ListedView>
    decreases ms.len(),
{
    if ms.len() == 0 {
        Seq::empty()
    } else {
        all_listed(ms.drop_last()) + mod_listed(ms.last())
    }
}

/// The listing order is a strict weak order.
proof fn lemma_listed_order(a: ListedView, b: ListedView, c: ListedView)
    ensures
        !listed_before(a, a),
        listed_before(a, b) ==> !listed_before(b, a),
        listed_before(a, b) && listed_before(b, c) ==> listed_before(a, c),
        !listed_before(a, b) && !listed_before(b, a) ==> a.file.destination == b.file.destination
            && a.priority == b.priority,
{
    lemma_seq_less_irreflexive(a.file.destination);
    lemma_seq_less_asymmetric(a.file.destination, b.file.destination);
    lemma_seq_less_transitive(a.file.destination, b.file.destination, c.file.destination);
    lemma_seq_less_total(a.file.destination, b.file.destination);
}

/// Whether `a` is listed before `b`.
fn is_listed_before(a: &ListedFile, b: &ListedFile) -> (r: bool)
    ensures
        r == listed_before(a@, b@),
{
    str_less(a.file.destination(), b.file.destination()) || (str_eq(
        a.file.destination(),
        b.file.destination(),
    ) && a.priority < b.priority)
}

/// Where `x` goes in the sorted `r`: after every file not listed after it.
fn listed_position(r: &Vec<ListedFile>, x: &ListedFile) -> (k: usize)
    ensures
        k <= r@.len(),
        forall|i: int| 0 <= i < k ==> !listed_before(x@, #[trigger] r@[i]@),
        k < r@.len() ==> listed_before(x@, r@[k as int]@),
{
    let mut k: usize = 0;
    while k < r.len()
        invariant
            k <= r@.len(),
            forall|i: int| 0 <= i < k ==> !listed_before(x@, #[trigger] r@[i]@),
        decreases r.len() - k,
    {
        if is_listed_before(x, &r[k]) {
            return k;
        }
        k += 1;
    }
    k
}

/// Sorts listed files by destination, then by priority.
pub fn sort_listed(files: Vec<ListedFile>) -> (r: Vec<ListedFile>)
    ensures
        listed_sorted(listed_views(r@)),
        listed_views(r@).to_multiset() == listed_views(files@).to_multiset(),
{
    broadcast use vstd::seq_lib::group_to_multiset_ensures;

    let mut input = files;
    let mut r: Vec<ListedFile> = Vec::new();
    let ghost orig = listed_views(input@);
    assert(listed_views(r@) =~= Seq::<ListedView>::empty());
    assert(listed_views(r@).to_multiset().add(listed_views(input@).to_multiset()) =~= orig.to_multiset()) by {
        broadcast use vstd::multiset::group_multiset_axioms;
    }
    while input.len() > 0
        invariant
            listed_sorted(listed_views(r@)),
            listed_views(r@).to_multiset().add(listed_views(input@).to_multiset()) == orig.to_multiset(),
        decreases input.len(),
    {
        let ghost old_input = listed_views(input@);
        let ghost old_r = listed_views(r@);
        let x = input.pop().unwrap();
        assert(listed_views(input@) =~= old_input.drop_last());
        assert(old_input =~= listed_views(input@).push(x@));
        let k = listed_position(&r, &x);
        let ghost xv = x@;
        r.insert(k, x);
        assert(listed_views(r@) =~= old_r.insert(k as int, xv));
        proof {
            let nr = listed_views(r@);
            assert forall|i: int, j: int| 0 <= i < j < nr.len() implies !listed_before(nr[j], nr[i]) by {
                if i < k && j == k {
                    assert(!listed_before(xv, old_r[i]));
                } else if i == k && j > k {
                    let y = old_r[j - 1];
                    lemma_listed_order(y, xv, old_r[k as int]);
                    if j - 1 > k {
                        assert(!listed_before(old_r[j - 1], old_r[k as int]));
                    }
                } else if i < k && j > k {
                    assert(nr[i] == old_r[i]);
                    assert(nr[j] == old_r[j - 1]);
                } else if j < k {
                    assert(nr[i] == old_r[i]);
                    assert(nr[j] == old_r[j]);
                } else {
                    assert(nr[i] == old_r[i - 1]);
                    assert(nr[j] == old_r[j - 1]);
                }
            }
            broadcast use vstd::multiset::group_multiset_axioms;
            vstd::seq_lib::to_multiset_insert(old_r, k as int, xv);
            vstd::seq_lib::to_multiset_build(listed_views(input@), xv);
            assert(listed_views(r@).to_multiset() == old_r.to_multiset().insert(xv));
            assert(old_input.to_multiset() == listed_views(input@).to_multiset().insert(xv));
            assert(listed_views(r@).to_multiset().add(listed_views(input@).to_multiset())
                =~= old_r.to_multiset().add(old_input.to_multiset()));
        }
    }
    assert(listed_views(input@) =~= Seq::<ListedView>::empty());
    assert(listed_views(r@).to_multiset() =~= orig.to_multiset()) by {
        broadcast use vstd::multiset::group_multiset_axioms;
    }
    r
}

/// The files of every mod of the list, mod by mod, with the mod's name and
/// priority.
pub fn gather_listed(mods: &[Manifest]) -> (r: Vec<ListedFile>)
    ensures
        listed_views(r@) == all_listed(views(mods@)),
{
    let ghost ms = views(mods@);
    let mut r: Vec<ListedFile> = Vec::new();
    let mut i: usize = 0;
    assert(ms.take(0) =~= Seq::<ManifestView>::empty());
    assert(listed_views(r@) =~= Seq::<ListedView>::empty());
    while i < mods.len()
        invariant
            i <= mods@.len(),
            ms == views(mods@),
            listed_views(r@) == all_listed(ms.take(i as int)),
        decreases mods.len() - i,
    {
        let m = &mods[i];
        assert(ms[i as int] == m@);
        assert(ms.take(i + 1).drop_last() =~= ms.take(i as int));
        let files = m.files();
        let ghost before = listed_views(r@);
        let mut j: usize = 0;
        while j < files.len()
            invariant
                j <= files@.len(),
                file_specs(files@) == m@.files(),
                listed_views(r@) == before + mod_listed(m@).take(j as int),
            decreases files.len() - j,
        {
            assert(file_specs(files@)[j as int] == files@[j as int]@);
            let ghost prev = listed_views(r@);
            r.push(ListedFile { file: files[j].duplicate(), mod_name: String::from_str(m.name()), priority: m.priority() });
            assert(mod_listed(m@).take(j + 1) =~= mod_listed(m@).take(j as int).push(mod_listed(m@)[j as int]));
            assert(listed_views(r@) =~= prev.push(mod_listed(m@)[j as int]));
            j += 1;
        }
        assert(mod_listed(m@).take(j as int) =~= mod_listed(m@));
        i += 1;
    }
    assert(ms.take(i as int) =~= ms);
    r
}

/// The colour of a file of mod `name` with destination `dest`: green when
/// the mod wins the conflict over it, red when it loses it, white when
/// nothing conflicts.
pub open spec fn file_colour(ms: Seq<ManifestView>, dest: Seq<char>, name: Seq<char>) -> Colour {
    match conflict_spec(ms, dest) {
        Some(w) => if w.len() > 0 && w.last() == name {
            Colour::Green
        } else {
            Colour::Red
        },
        None => Colour::White,
    }
}

/// The colour of a file given the conflict list of the mods.
fn colour_of(cl: &ConflictList, dest: &str, name: &str) -> (r: Colour)
    ensures
        r == match lookup(cl@, dest@) {
            Some(w) => if w.len() > 0 && w.last() == name@ {
                Colour::Green
            } else {
                Colour::Red
            },
            None => Colour::White,
        },
{
    match cl.get(dest) {
        Some(w) => {
            if w.len() > 0 && str_eq(w[w.len() - 1].as_str(), name) {
                assert(strs(w@).last() == w@[w@.len() - 1]@);
                Colour::Green
            } else {
                proof {
                    if w@.len() > 0 {
                        assert(strs(w@).last() == w@[w@.len() - 1]@);
                    }
                }
                Colour::Red
            }
        },
        None => Colour::White,
    }
}

/// The table of files: one row per listed file, with the given cells, or
/// a single row saying `empty` when there is none.
pub open spec fn rows_or(rows: Seq<Seq<(Seq<char>, Colour)>>, empty: Seq<char>) -> Seq<Seq<(Seq<char>, Colour)>> {
    if rows.len() == 0 {
        seq![seq![(empty, Colour::Reset)]]
    } else {
        rows
    }
}

/// A single-cell row.
fn note_row(text: &str) -> (r: Vec<TableCell>)
    ensures
        cell_views(r@) == seq![(text@, Colour::Reset)],
{
    let mut r: Vec<TableCell> = Vec::new();
    r.push(cell(String::from_str(text), Colour::Reset));
    assert(cell_views(r@) =~= seq![(text@, Colour::Reset)]);
    r
}

/// The headers of a table, from literals.
fn header_row(h: &[&str]) -> (r: Vec<String>)
    ensures
        strs(r@) == h@.map_values(|s: &str| s@),
{
    let mut r: Vec<String> = Vec::new();
    let mut i: usize = 0;
    while i < h.len()
        invariant
            i <= h@.len(),
            strs(r@) == h@.map_values(|s: &str| s@).take(i as int),
        decreases h.len() - i,
    {
        let ghost before = strs(r@);
        r.push(String::from_str(h[i]));
        assert(strs(r@) =~= before.push(h@[i as int]@));
        assert(h@.map_values(|s: &str| s@).take(i + 1) =~= h@.map_values(|s: &str| s@).take(i as int).push(
            h@[i as int]@,
        ));
        i += 1;
    }
    assert(h@.map_values(|s: &str| s@).take(i as int) =~= h@.map_values(|s: &str| s@));
    r
}

/// The row of a file in the file overview: source, destination and mod.
pub open spec fn files_row(ms: Seq<ManifestView>, f: ListedView) -> Seq<(Seq<char>, Colour)> {
    let c = file_colour(ms, f.file.destination, f.mod_name);
    seq![(f.file.source, c), (f.file.destination, c), (f.mod_name, c)]
}

/// The row of a file in the conflict overview: destination and mod.
pub open spec fn conflict_row(ms: Seq<ManifestView>, f: ListedView) -> Seq<(Seq<char>, Colour)> {
    let c = file_colour(ms, f.file.destination, f.mod_name);
    seq![(f.file.destination, c), (f.mod_name, c)]
}

/// The file overview of `mods` for the listed files `files`, in their order.
pub fn files_table(mods: &[Manifest], files: &Vec<ListedFile>) -> (r: Table)
    ensures
        r@ == (TableView {
            headers: seq!["File"@, "Destination"@, "Mod"@],
            rows: rows_or(
                listed_views(files@).map_values(|f: ListedView| files_row(views(mods@), f)),
                "No files found."@,
            ),
        }),
{
    let cl = conflict_list_by_file(mods);
    let ghost ms = views(mods@);
    let ghost g = |f: ListedView| files_row(ms, f);
    let mut rows: Vec<Vec<TableCell>> = Vec::new();
    let mut k: usize = 0;
    while k < files.len()
        invariant
            k <= files@.len(),
            ms == views(mods@),
            g == (|f: ListedView| files_row(ms, f)),
            forall|f: Seq<char>| #[trigger] lookup(cl@, f) == conflict_spec(ms, f),
            rows@.len() == k,
            forall|j: int| 0 <= j < k ==> cell_views(#[trigger] rows@[j]@) == g(listed_views(files@)[j]),
        decreases files.len() - k,
    {
        let f = &files[k];
        assert(listed_views(files@)[k as int] == f@);
        let c = colour_of(&cl, f.file.destination(), f.mod_name.as_str());
        assert(lookup(cl@, f@.file.destination) == conflict_spec(ms, f@.file.destination));
        let mut row: Vec<TableCell> = Vec::new();
        row.push(cell(String::from_str(f.file.source()), c));
        row.push(cell(String::from_str(f.file.destination()), c));
        row.push(cell(f.mod_name.clone(), c));
        assert(cell_views(row@) =~= g(f@));
        rows.push(row);
        k += 1;
    }
    let ghost mapped = listed_views(files@).map_values(g);
    if rows.len() == 0 {
        rows.push(note_row("No files found."));
    }
    let r = Table { headers: header_row(&["File", "Destination", "Mod"]), rows };
    assert(r@.rows =~= rows_or(mapped, "No files found."@));
    assert(r@.headers =~= seq!["File"@, "Destination"@, "Mod"@]);
    r
}

/// The file overview: every file of every mod, by destination, then by
/// priority (files with the same destination and priority come in either
/// order).
pub fn list_files(mods: &[Manifest]) -> (r: (Vec<ListedFile>, Table))
    ensures
        listed_sorted(listed_views(r.0@)),
        listed_views(r.0@).to_multiset() == all_listed(views(mods@)).to_multiset(),
        r.1@ == (TableView {
            headers: seq!["File"@, "Destination"@, "Mod"@],
            rows: rows_or(
                listed_views(r.0@).map_values(|f: ListedView| files_row(views(mods@), f)),
                "No files found."@,
            ),
        }),
{
    let files = sort_listed(gather_listed(mods));
    let table = files_table(mods, &files);
    (files, table)
}

/// A copy of a listed file.
fn copy_listed(f: &ListedFile) -> (r: ListedFile)
    ensures
        r@ == f@,
{
    ListedFile { file: f.file.duplicate(), mod_name: f.mod_name.clone(), priority: f.priority }
}

/// The listed files whose destination conflicts.
pub fn retain_conflicting(mods: &[Manifest], files: &Vec<ListedFile>) -> (r: Vec<ListedFile>)
    ensures
        listed_views(r@) == listed_views(files@).filter(
            |f: ListedView| conflict_spec(views(mods@), f.file.destination) is Some,
        ),
{
    let cl = conflict_list_by_file(mods);
    let ghost ms = views(mods@);
    let ghost p = |f: ListedView| conflict_spec(ms, f.file.destination) is Some;
    let ghost all = listed_views(files@);
    let mut kept: Vec<ListedFile> = Vec::new();
    let mut i: usize = 0;
    assert(all.take(0) =~= Seq::<ListedView>::empty());
    assert(listed_views(kept@) =~= Seq::<ListedView>::empty());
    while i < files.len()
        invariant
            i <= files@.len(),
            ms == views(mods@),
            all == listed_views(files@),
            p == (|f: ListedView| conflict_spec(ms, f.file.destination) is Some),
            forall|f: Seq<char>| #[trigger] lookup(cl@, f) == conflict_spec(ms, f),
            listed_views(kept@) == all.take(i as int).filter(p),
        decreases files.len() - i,
    {
        let x = &files[i];
        assert(all[i as int] == x@);
        let ghost t = all.take(i + 1);
        assert(t.drop_last() =~= all.take(i as int));
        assert(t.last() == x@);
        proof {
            reveal_with_fuel(Seq::filter, 1);
        }
        assert(lookup(cl@, x@.file.destination) == conflict_spec(ms, x@.file.destination));
        if cl.contains_key(x.file.destination()) {
            let ghost before = listed_views(kept@);
            kept.push(copy_listed(x));
            assert(listed_views(kept@) =~= before.push(x@));
        } else {
            assert(t.filter(p) == all.take(i as int).filter(p));
        }
        i += 1;
    }
    assert(all.take(i as int) =~= all);
    kept
}

/// The conflict overview of `mods` for the listed files `files`.
pub fn conflicts_table(mods: &[Manifest], files: &Vec<ListedFile>) -> (r: Table)
    ensures
        r@ == (TableView {
            headers: seq!["File"@, "Mod"@],
            rows: rows_or(
                listed_views(files@).map_values(|f: ListedView| conflict_row(views(mods@), f)),
                "No conflicting files found."@,
            ),
        }),
{
    let cl = conflict_list_by_file(mods);
    let ghost ms = views(mods@);
    let ghost g = |f: ListedView| conflict_row(ms, f);
    let mut rows: Vec<Vec<TableCell>> = Vec::new();
    let mut k: usize = 0;
    while k < files.len()
        invariant
            k <= files@.len(),
            ms == views(mods@),
            g == (|f: ListedView| conflict_row(ms, f)),
            forall|f: Seq<char>| #[trigger] lookup(cl@, f) == conflict_spec(ms, f),
            rows@.len() == k,
            forall|j: int| 0 <= j < k ==> cell_views(#[trigger] rows@[j]@) == g(listed_views(files@)[j]),
        decreases files.len() - k,
    {
        let f = &files[k];
        assert(listed_views(files@)[k as int] == f@);
        let c = colour_of(&cl, f.file.destination(), f.mod_name.as_str());
        assert(lookup(cl@, f@.file.destination) == conflict_spec(ms, f@.file.destination));
        let mut row: Vec<TableCell> = Vec::new();
        row.push(cell(String::from_str(f.file.destination()), c));
        row.push(cell(f.mod_name.clone(), c));
        assert(cell_views(row@) =~= g(f@));
        rows.push(row);
        k += 1;
    }
    let ghost mapped = listed_views(files@).map_values(g);
    if rows.len() == 0 {
        rows.push(note_row("No conflicting files found."));
    }
    let r = Table { headers: header_row(&["File", "Mod"]), rows };
    assert(r@.rows =~= rows_or(mapped, "No conflicting files found."@));
    assert(r@.headers =~= seq!["File"@, "Mod"@]);
    r
}

/// The conflict overview: the files of every mod whose destination
/// conflicts, by destination, then by priority.
pub fn list_conflicts(mods: &[Manifest]) -> (r: (Vec<ListedFile>, Table))
    ensures
        listed_sorted(listed_views(r.0@)),
        listed_views(r.0@).to_multiset() == all_listed(views(mods@)).filter(
            |f: ListedView| conflict_spec(views(mods@), f.file.destination) is Some,
        ).to_multiset(),
        r.1@ == (TableView {
            headers: seq!["File"@, "Mod"@],
            rows: rows_or(
                listed_views(r.0@).map_values(|f: ListedView| conflict_row(views(mods@), f)),
                "No conflicting files found."@,
            ),
        }),
{
    let all = gather_listed(mods);
    let files = sort_listed(retain_conflicting(mods, &all));
    let table = conflicts_table(mods, &files);
    (files, table)
}

/// The disabled files of `m`, with its name.
pub open spec fn mod_disabled_rows(m: ManifestView) -> Seq<Seq<(Seq<char>, Colour)>> {
    crate::manifest::internal_disabled(m.internal).map_values(
        |f: FileSpec| seq![(f.destination, Colour::Reset), (m.name, Colour::Reset)],
    )
}

/// The rows of the disabled files of the mods `ms`, mod by mod.
pub open spec fn disabled_rows(ms: Seq<ManifestView>) -> Seq<Seq<(Seq<char>, Colour)>>
    decreases ms.len(),
{
    if ms.len() == 0 {
        Seq::empty()
    } else {
        disabled_rows(ms.drop_last()) + mod_disabled_rows(ms.last())
    }
}

/// The disabled files of every mod, mod by mod: destination and mod.
pub fn list_disabled_files(mods: &[Manifest]) -> (r: Table)
    ensures
        r@ == (TableView {
            headers: seq!["File"@, "Mod"@],
            rows: rows_or(disabled_rows(views(mods@)), "No disabled files found."@),
        }),
{
    let ghost ms = views(mods@);
    let mut rows: Vec<Vec<TableCell>> = Vec::new();
    let mut i: usize = 0;
    assert(ms.take(0) =~= Seq::<ManifestView>::empty());
    assert(rows@.map_values(|r: Vec<TableCell>| cell_views(r@)) =~= disabled_rows(ms.take(0)));
    while i < mods.len()
        invariant
            i <= mods@.len(),
            ms == views(mods@),
            rows@.map_values(|r: Vec<TableCell>| cell_views(r@)) == disabled_rows(ms.take(i as int)),
        decreases mods.len() - i,
    {
        let m = &mods[i];
        assert(ms[i as int] == m@);
        assert(ms.take(i + 1).drop_last() =~= ms.take(i as int));
        let files = m.disabled_files();
        let ghost before = rows@.map_values(|r: Vec<TableCell>| cell_views(r@));
        let mut j: usize = 0;
        while j < files.len()
            invariant
                j <= files@.len(),
                file_specs(files@) == crate::manifest::internal_disabled(m@.internal),
                rows@.map_values(|r: Vec<TableCell>| cell_views(r@)) == before + mod_disabled_rows(m@).take(
                    j as int,
                ),
            decreases files.len() - j,
        {
            assert(file_specs(files@)[j as int] == files@[j as int]@);
            let mut row: Vec<TableCell> = Vec::new();
            row.push(cell(String::from_str(files[j].destination()), Colour::Reset));
            row.push(cell(String::from_str(m.name()), Colour::Reset));
            let ghost rv = cell_views(row@);
            assert(rv =~= mod_disabled_rows(m@)[j as int]);
            let ghost prev = rows@.map_values(|r: Vec<TableCell>| cell_views(r@));
            rows.push(row);
            assert(rows@.map_values(|r: Vec<TableCell>| cell_views(r@)) =~= prev.push(rv));
            assert(mod_disabled_rows(m@).take(j + 1) =~= mod_disabled_rows(m@).take(j as int).push(
                mod_disabled_rows(m@)[j as int],
            ));
            j += 1;
        }
        assert(mod_disabled_rows(m@).take(j as int) =~= mod_disabled_rows(m@));
        i += 1;
    }
    assert(ms.take(i as int) =~= ms);
    let ghost all = rows@.map_values(|r: Vec<TableCell>| cell_views(r@));
    if rows.len() == 0 {
        rows.push(note_row("No disabled files found."));
    }
    let r = Table { headers: header_row(&["File", "Mod"]), rows };
    assert(r@.rows =~= rows_or(all, "No disabled files found."@));
    assert(r@.headers =~= seq!["File"@, "Mod"@]);
    r
}

} // verus!
