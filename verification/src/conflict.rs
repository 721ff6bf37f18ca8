//! Conflicts between mods: files that more than one mod installs to the
//! same destination. The mod that comes last in the mod list (the one with
//! the highest priority) wins such a file.

use vstd::prelude::*;

use crate::manifest::install_file::{file_specs, FileSpec, InstallFile};
use crate::manifest::{Manifest, ManifestView};
use crate::tag::{tag_of_flags, Tag};
use crate::paths::{join, path_join};
use crate::text::{index_of, lemma_index_of, position_of, str_eq, strs};
use crate::mods::{names_distinct, own_dests_distinct};

verus! {

/// How often `x` occurs in `s`.
pub open spec fn count_of(s: Seq<Seq<char>>, x: Seq<char>) -> nat
    decreases s.len(),
{
    if s.len() == 0 {
        0
    } else {
        count_of(s.drop_last(), x) + if s.last() == x {
            1nat
        } else {
            0nat
        }
    }
}

/// `x`, `n` times.
pub open spec fn repeat(x: Seq<char>, n: nat) -> Seq<Seq<char>> {
    Seq::new(n, |_i: int| x)
}

/// The names of the enabled mods of `ms` (the active mod list) that
/// install `f`, in list order, once for each of their files going to `f`.
pub open spec fn names_with(ms: Seq<ManifestView>, f: Seq<char>) -> Seq<Seq<char>>
    decreases ms.len(),
{
    if ms.len() == 0 {
        Seq::empty()
    } else if ms.last().enabled() {
        names_with(ms.drop_last(), f) + repeat(ms.last().name, count_of(ms.last().dests(), f))
    } else {
        names_with(ms.drop_last(), f)
    }
}

/// Some enabled mod of `ms` installs `f`.
pub open spec fn enabled_has(ms: Seq<ManifestView>, f: Seq<char>) -> bool {
    exists|i: int| 0 <= i < ms.len() && ms[i].enabled() && #[trigger] ms[i].dests().contains(f)
}

/// `f` is a conflicting file: an enabled mod installs it, and it is
/// installed more than once.
pub open spec fn is_conflict(ms: Seq<ManifestView>, f: Seq<char>) -> bool {
    enabled_has(ms, f) && names_with(ms, f).len() > 1
}

/// What the conflict list of `ms` holds for the file `f`.
pub open spec fn conflict_spec(ms: Seq<ManifestView>, f: Seq<char>) -> Option<Seq<Seq<char>>> {
    if is_conflict(ms, f) {
        Some(names_with(ms, f))
    } else {
        None
    }
}

/// The abstract values of a list of manifests.
pub open spec fn views(mods: Seq<Manifest>) -> Seq<ManifestView> {
    mods.map_values(|m: Manifest| m@)
}

/// The first entry at or after `i` for the file `f`.
pub open spec fn entry_index_from(
    e: Seq<(Seq<char>, Seq<Seq<char>>)>,
    f: Seq<char>,
    i: int,
) -> Option<int>
    decreases e.len() - i,
{
    if i < 0 || i >= e.len() {
        None
    } else if e[i].0 == f {
        Some(i)
    } else {
        entry_index_from(e, f, i + 1)
    }
}

/// The mods an entry list gives for the file `f`.
pub open spec fn lookup(e: Seq<(Seq<char>, Seq<Seq<char>>)>, f: Seq<char>) -> Option<
    Seq<Seq<char>>,
> {
    match entry_index_from(e, f, 0) {
        Some(i) => Some(e[i].1),
        None => None,
    }
}

/// What `entry_index_from` finds.
pub proof fn lemma_entry_index(e: Seq<(Seq<char>, Seq<Seq<char>>)>, f: Seq<char>, i: int)
    requires
        0 <= i,
    ensures
        entry_index_from(e, f, i) matches Some(j) ==> i <= j < e.len() && e[j].0 == f,
        entry_index_from(e, f, i) is None ==> forall|k: int| i <= k < e.len() ==> e[k].0 != f,
    decreases e.len() - i,
{
    if i >= e.len() {
    } else if e[i].0 == f {
    } else {
        lemma_entry_index(e, f, i + 1);
    }
}

/// In an entry list without repeated files, the lookup of a file gives the
/// mods of its entry.
pub proof fn lemma_lookup_unique(e: Seq<(Seq<char>, Seq<Seq<char>>)>, f: Seq<char>)
    requires
        forall|a: int, b: int| 0 <= a < b < e.len() ==> e[a].0 != e[b].0,
    ensures
        forall|k: int| 0 <= k < e.len() && e[k].0 == f ==> lookup(e, f) == Some(e[k].1),
        (forall|k: int| 0 <= k < e.len() ==> e[k].0 != f) ==> lookup(e, f) is None,
{
    lemma_entry_index(e, f, 0);
}

/// A conflicting file, with the names of the mods that install it.
#[derive(Debug)]
pub struct ConflictEntry {
    file: String,
    mods: Vec<String>,
}

/// The conflicting files of a mod list.
#[derive(Debug)]
pub struct ConflictList {
    entries: Vec<ConflictEntry>,
}

impl View for ConflictList {
    type V = Seq<(Seq<char>, Seq<Seq<char>>)>;

    closed spec fn view(&self) -> Seq<(Seq<char>, Seq<Seq<char>>)> {
        self.entries@.map_values(|e: ConflictEntry| (e.file@, strs(e.mods@)))
    }
}

impl ConflictList {
    /// The names of the mods that install `f`, when `f` is a conflicting file.
    pub fn get(&self, f: &str) -> (r: Option<&Vec<String>>)
        ensures
            r matches Some(v) ==> lookup(self@, f@) == Some(strs(v@)),
            r is None ==> lookup(self@, f@) is None,
    {
        let mut i: usize = 0;
        while i < self.entries.len()
            invariant
                i <= self.entries@.len(),
                self@.len() == self.entries@.len(),
                lookup(self@, f@) == match entry_index_from(self@, f@, i as int) {
                    Some(k) => Some(self@[k].1),
                    None => None,
                },
            decreases self.entries.len() - i,
        {
            let e = &self.entries[i];
            assert(self@[i as int] == (e.file@, strs(e.mods@)));
            if str_eq(e.file.as_str(), f) {
                return Some(&e.mods);
            }
            i += 1;
        }
        None
    }

    /// `f` is a conflicting file.
    pub fn contains_key(&self, f: &str) -> (r: bool)
        ensures
            r == (lookup(self@, f@) is Some),
    {
        self.get(f).is_some()
    }

    /// The number of conflicting files.
    pub fn len(&self) -> (r: usize)
        ensures
            r == self@.len(),
    {
        self.entries.len()
    }

    /// The conflicting file of the `i`-th entry.
    pub fn file_at(&self, i: usize) -> (r: &str)
        requires
            i < self@.len(),
        ensures
            r@ == self@[i as int].0,
    {
        self.entries[i].file.as_str()
    }

    /// The mods of the `i`-th entry.
    pub fn mods_at(&self, i: usize) -> (r: &Vec<String>)
        requires
            i < self@.len(),
        ensures
            strs(r@) == self@[i as int].1,
    {
        &self.entries[i].mods
    }
}

/// `repeat` grows by one element at a time.
pub proof fn lemma_repeat_push(x: Seq<char>, n: nat)
    ensures
        repeat(x, n + 1) == repeat(x, n).push(x),
{
    assert(repeat(x, n + 1) =~= repeat(x, n).push(x));
}

/// The names of the enabled mods of `mods` that install `f`, in list order.
pub fn names_for_file(mods: &[Manifest], f: &str) -> (r: Vec<String>)
    ensures
        strs(r@) == names_with(views(mods@), f@),
{
    let ghost ms = views(mods@);
    let mut r: Vec<String> = Vec::new();
    let mut i: usize = 0;
    assert(ms.take(0) =~= Seq::<ManifestView>::empty());
    assert(strs(r@) =~= Seq::<Seq<char>>::empty());
    while i < mods.len()
        invariant
            i <= mods@.len(),
            ms == views(mods@),
            strs(r@) == names_with(ms.take(i as int), f@),
        decreases mods.len() - i,
    {
        let m = &mods[i];
        assert(ms[i as int] == m@);
        assert(ms.take(i + 1).drop_last() =~= ms.take(i as int));
        assert(ms.take(i + 1).last() == m@);
        if !m.is_enabled() {
            i += 1;
            continue;
        }
        let dests = m.dest_files();
        let name = m.name();
        let ghost base = strs(r@);
        let mut j: usize = 0;
        assert(strs(dests@).take(0) =~= Seq::<Seq<char>>::empty());
        assert(repeat(name@, 0) =~= Seq::<Seq<char>>::empty());
        assert(base + repeat(name@, 0) =~= base);
        while j < dests.len()
            invariant
                j <= dests@.len(),
                strs(dests@) == m@.dests(),
                name@ == m@.name,
                strs(r@) == base + repeat(name@, count_of(strs(dests@).take(j as int), f@)),
            decreases dests.len() - j,
        {
            let ghost t = strs(dests@).take(j + 1);
            assert(t.drop_last() =~= strs(dests@).take(j as int));
            assert(t.last() == dests@[j as int]@);
            let ghost before = r@;
            if str_eq(dests[j].as_str(), f) {
                r.push(String::from_str(name));
                proof {
                    lemma_repeat_push(name@, count_of(strs(dests@).take(j as int), f@));
                    assert(strs(r@) =~= strs(before).push(name@));
                }
            }
            j += 1;
        }
        assert(strs(dests@).take(j as int) =~= strs(dests@));
        i += 1;
    }
    assert(ms.take(i as int) =~= ms);
    r
}


/// A mod list prefix one longer has the files of the shorter one and those
/// of the added mod.
pub proof fn lemma_enabled_has_step(ms: Seq<ManifestView>, i: int, f: Seq<char>)
    requires
        0 <= i < ms.len(),
    ensures
        enabled_has(ms.take(i + 1), f) == (enabled_has(ms.take(i), f) || (ms[i].enabled()
            && ms[i].dests().contains(f))),
{
    let a = ms.take(i + 1);
    let b = ms.take(i);
    if enabled_has(a, f) {
        let k = choose|k: int| 0 <= k < a.len() && a[k].enabled() && #[trigger] a[k].dests().contains(f);
        if k < i {
            assert(b[k] == a[k]);
            assert(b[k].dests().contains(f));
        } else {
            assert(a[k] == ms[i]);
        }
    }
    if enabled_has(b, f) {
        let k = choose|k: int| 0 <= k < b.len() && b[k].enabled() && #[trigger] b[k].dests().contains(f);
        assert(a[k] == b[k]);
        assert(a[k].dests().contains(f));
    }
    if ms[i].enabled() && ms[i].dests().contains(f) {
        assert(a[i] == ms[i]);
        assert(a[i].dests().contains(f));
    }
}

/// The files that enabled mods of `mods` install, each once.
pub fn enabled_dest_files(mods: &[Manifest]) -> (r: Vec<String>)
    ensures
        strs(r@).no_duplicates(),
        forall|f: Seq<char>| #[trigger] strs(r@).contains(f) <==> enabled_has(views(mods@), f),
{
    let ghost ms = views(mods@);
    let mut r: Vec<String> = Vec::new();
    let mut i: usize = 0;
    assert(strs(r@) =~= Seq::<Seq<char>>::empty());
    while i < mods.len()
        invariant
            i <= mods@.len(),
            ms == views(mods@),
            strs(r@).no_duplicates(),
            forall|f: Seq<char>| #[trigger]
                strs(r@).contains(f) <==> enabled_has(ms.take(i as int), f),
        decreases mods.len() - i,
    {
        let m = &mods[i];
        assert(ms[i as int] == m@);
        let dests = m.dest_files();
        let en = m.is_enabled();
        let ghost base = strs(r@);
        let mut j: usize = 0;
        while j < dests.len()
            invariant
                j <= dests@.len(),
                strs(dests@) == m@.dests(),
                en == m@.enabled(),
                strs(r@).no_duplicates(),
                forall|f: Seq<char>| #[trigger]
                    strs(r@).contains(f) <==> (base.contains(f) || (en && strs(dests@).take(
                        j as int,
                    ).contains(f))),
            decreases dests.len() - j,
        {
            let d = &dests[j];
            let ghost t = strs(dests@).take(j + 1);
            assert(t =~= strs(dests@).take(j as int).push(d@));
            proof {
                broadcast use vstd::seq_lib::lemma_seq_contains_after_push;
            }
            if en {
                proof {
                    lemma_index_of(strs(r@), d@);
                }
                let ghost before = strs(r@);
                if position_of(&r, d.as_str()).is_none() {
                    r.push(d.clone());
                    assert(strs(r@) =~= before.push(d@));
                    proof {
                        broadcast use vstd::seq_lib::lemma_seq_contains_after_push;
                    }
                    assert forall|a: int, b: int|
                        0 <= a < strs(r@).len() && 0 <= b < strs(r@).len() && a != b implies strs(
                        r@,
                    )[a] != strs(r@)[b] by {
                        if a == before.len() {
                            assert(before.contains(strs(r@)[b]));
                        } else if b == before.len() {
                            assert(before.contains(strs(r@)[a]));
                        }
                    }
                }
            }
            j += 1;
        }
        assert(strs(dests@).take(j as int) =~= strs(dests@));
        proof {
            assert forall|f: Seq<char>| #[trigger]
                strs(r@).contains(f) <==> enabled_has(ms.take(i + 1), f) by {
                lemma_enabled_has_step(ms, i as int, f);
            }
        }
        i += 1;
    }
    proof {
        assert(ms.take(i as int) =~= ms);
    }
    r
}

/// The conflicting files of `mods`: every file that an enabled mod installs
/// and that more than one mod installs, with the names of all mods that
/// install it in list order.
/// An entry list lists exactly the conflicting files of `ms`, each once,
/// with the names of the mods installing it.
pub open spec fn lists_conflicts(e: Seq<(Seq<char>, Seq<Seq<char>>)>, ms: Seq<ManifestView>) -> bool {
    &&& forall|a: int, b: int| 0 <= a < b < e.len() ==> e[a].0 != e[b].0
    &&& forall|a: int|
        0 <= a < e.len() ==> is_conflict(ms, #[trigger] e[a].0) && e[a].1 == names_with(ms, e[a].0)
    &&& forall|f: Seq<char>| #[trigger] lookup(e, f) == conflict_spec(ms, f)
}

/// The conflicting files of the mod list: each file that an enabled mod
/// installs and that more than one file of the list goes to, with the
/// names of the mods installing it, in list order.
pub fn conflict_list_by_file(mods: &[Manifest]) -> (r: ConflictList)
    ensures
        forall|f: Seq<char>| #[trigger] lookup(r@, f) == conflict_spec(views(mods@), f),
        lists_conflicts(r@, views(mods@)),
{
    let ghost ms = views(mods@);
    let keys = enabled_dest_files(mods);
    let mut entries: Vec<ConflictEntry> = Vec::new();
    let ghost ev = entries@.map_values(|e: ConflictEntry| (e.file@, strs(e.mods@)));
    let mut j: usize = 0;
    while j < keys.len()
        invariant
            j <= keys@.len(),
            ms == views(mods@),
            strs(keys@).no_duplicates(),
            forall|f: Seq<char>| #[trigger] strs(keys@).contains(f) <==> enabled_has(ms, f),
            ev == entries@.map_values(|e: ConflictEntry| (e.file@, strs(e.mods@))),
            forall|a: int, b: int| 0 <= a < b < ev.len() ==> ev[a].0 != ev[b].0,
            forall|a: int|
                0 <= a < ev.len() ==> ev[a].1 == names_with(ms, ev[a].0) && is_conflict(
                    ms,
                    #[trigger] ev[a].0,
                ),
            forall|a: int| #![trigger ev[a]]
                0 <= a < ev.len() ==> exists|k: int|
                    0 <= k < j && #[trigger] strs(keys@)[k] == ev[a].0,
            forall|k: int|
                0 <= k < j && is_conflict(ms, #[trigger] strs(keys@)[k]) ==> exists|a: int|
                    0 <= a < ev.len() && ev[a].0 == strs(keys@)[k],
        decreases keys.len() - j,
    {
        let key = &keys[j];
        assert(strs(keys@)[j as int] == key@);
        assert(strs(keys@).contains(key@));
        let names = names_for_file(mods, key.as_str());
        if names.len() > 1 {
            let ghost old_ev = ev;
            entries.push(ConflictEntry { file: key.clone(), mods: names });
            proof {
                ev = entries@.map_values(|e: ConflictEntry| (e.file@, strs(e.mods@)));
                assert(ev =~= old_ev.push((key@, names_with(ms, key@))));
                assert forall|a: int, b: int| 0 <= a < b < ev.len() implies ev[a].0 != ev[b].0 by {
                    if b == old_ev.len() {
                        let k = choose|k: int| 0 <= k < j && #[trigger] strs(keys@)[k] == old_ev[a].0;
                        assert(strs(keys@)[k] != strs(keys@)[j as int]);
                    }
                }
                assert forall|a: int| #![trigger ev[a]]
                    0 <= a < ev.len() implies exists|k: int|
                        0 <= k < j + 1 && #[trigger] strs(keys@)[k] == ev[a].0 by {
                    if a == old_ev.len() {
                        assert(strs(keys@)[j as int] == ev[a].0);
                    } else {
                        let k = choose|k: int| 0 <= k < j && #[trigger] strs(keys@)[k] == old_ev[a].0;
                        assert(strs(keys@)[k] == ev[a].0);
                    }
                }
                assert forall|k: int|
                    0 <= k < j + 1 && is_conflict(ms, #[trigger] strs(keys@)[k]) implies exists|
                        a: int,
                    |
                        0 <= a < ev.len() && ev[a].0 == strs(keys@)[k] by {
                    if k == j {
                        assert(ev[old_ev.len() as int].0 == strs(keys@)[k]);
                    } else {
                        let a = choose|a: int| 0 <= a < old_ev.len() && old_ev[a].0 == strs(keys@)[k];
                        assert(ev[a] == old_ev[a]);
                    }
                }
            }
        } else {
            proof {
                assert forall|a: int| #![trigger ev[a]]
                    0 <= a < ev.len() implies exists|k: int|
                        0 <= k < j + 1 && #[trigger] strs(keys@)[k] == ev[a].0 by {
                    let k = choose|k: int| 0 <= k < j && #[trigger] strs(keys@)[k] == ev[a].0;
                    assert(strs(keys@)[k] == ev[a].0);
                }
            }
        }
        j += 1;
    }
    let r = ConflictList { entries };
    proof {
        assert(r@ == ev);
        assert forall|f: Seq<char>| #[trigger] lookup(r@, f) == conflict_spec(ms, f) by {
            lemma_lookup_unique(ev, f);
            if is_conflict(ms, f) {
                assert(strs(keys@).contains(f));
                let k = choose|k: int| 0 <= k < strs(keys@).len() && strs(keys@)[k] == f;
                assert(is_conflict(ms, strs(keys@)[k]));
                let a = choose|a: int| 0 <= a < ev.len() && ev[a].0 == strs(keys@)[k];
                assert(ev[a].0 == f);
            } else {
                assert forall|a: int| 0 <= a < ev.len() implies ev[a].0 != f by {
                    assert(is_conflict(ms, ev[a].0));
                }
            }
        }
    }
    r
}


/// `count_of` is positive exactly when `x` occurs.
pub proof fn lemma_count_of_positive(s: Seq<Seq<char>>, x: Seq<char>)
    ensures
        count_of(s, x) > 0 <==> s.contains(x),
    decreases s.len(),
{
    if s.len() > 0 {
        lemma_count_of_positive(s.drop_last(), x);
        if s.drop_last().contains(x) {
            let k = choose|k: int| 0 <= k < s.drop_last().len() && s.drop_last()[k] == x;
            assert(s[k] == x);
        }
        if s.contains(x) && s.last() != x {
            let k = choose|k: int| 0 <= k < s.len() && s[k] == x;
            assert(s.drop_last()[k] == x);
        }
    }
}

/// The last name installing a file is the name of the last mod of the list
/// that installs it: of mods installing the same file, the later one (the
/// one with the higher priority) wins.
pub proof fn lemma_winner_is_last_holder(ms: Seq<ManifestView>, f: Seq<char>, k: int)
    requires
        0 <= k < ms.len(),
        ms[k].enabled(),
        ms[k].dests().contains(f),
        forall|j: int| k < j < ms.len() && (#[trigger] ms[j]).enabled() ==> !ms[j].dests().contains(f),
    ensures
        names_with(ms, f).len() > 0,
        names_with(ms, f).last() == ms[k].name,
    decreases ms.len(),
{
    let last = ms.last();
    lemma_count_of_positive(last.dests(), f);
    if k == ms.len() - 1 {
        let n = count_of(last.dests(), f);
        assert(repeat(last.name, n).last() == last.name);
    } else {
        assert(last == ms[ms.len() - 1]);
        assert(!last.enabled() || !last.dests().contains(f));
        assert(repeat(last.name, 0) =~= Seq::<Seq<char>>::empty());
        let d = ms.drop_last();
        assert forall|j: int| k < j < d.len() && (#[trigger] d[j]).enabled() implies !d[j].dests().contains(f) by {
            assert(d[j] == ms[j]);
        }
        lemma_winner_is_last_holder(d, f, k);
        assert(names_with(ms, f) =~= names_with(d, f));
    }
}

/// A file goes into the install plan of mod `m`: it is not conflicting, or
/// `m` is the last of the mods installing it.
pub open spec fn keeps(m: ManifestView, cl: Seq<(Seq<char>, Seq<Seq<char>>)>, d: Seq<char>) -> bool {
    match lookup(cl, d) {
        Some(w) => w.len() > 0 && w.last() == m.name,
        None => true,
    }
}

/// A mod's file as it is linked: its source joined to the mod's directory.
pub open spec fn linked(m: ManifestView, f: FileSpec) -> FileSpec {
    FileSpec { source: path_join(m.manifest_dir, f.source), destination: f.destination }
}

/// The files of `m` that it installs given the conflict list `cl`.
pub open spec fn enlisted(m: ManifestView, cl: Seq<(Seq<char>, Seq<Seq<char>>)>) -> Seq<FileSpec> {
    m.files().filter(|f: FileSpec| keeps(m, cl, f.destination)).map_values(
        |f: FileSpec| linked(m, f),
    )
}

/// The files of `m` that it installs, given the conflicts of the list:
/// those it does not share, and those of which it is the winner.
pub fn enlist_files(m: &Manifest, conflict_list: &ConflictList) -> (r: Vec<InstallFile>)
    ensures
        file_specs(r@) == enlisted(m@, conflict_list@),
{
    let files = m.files();
    let ghost pred = |f: FileSpec| keeps(m@, conflict_list@, f.destination);
    let ghost g = |f: FileSpec| linked(m@, f);
    let mut r: Vec<InstallFile> = Vec::new();
    let mut i: usize = 0;
    assert(file_specs(r@) =~= Seq::<FileSpec>::empty());
    while i < files.len()
        invariant
            i <= files@.len(),
            file_specs(files@) == m@.files(),
            pred == (|f: FileSpec| keeps(m@, conflict_list@, f.destination)),
            g == (|f: FileSpec| linked(m@, f)),
            file_specs(r@) == file_specs(files@).take(i as int).filter(pred).map_values(g),
        decreases files.len() - i,
    {
        let f = &files[i];
        let d = f.destination();
        let keep = match conflict_list.get(d) {
            Some(w) => {
                if w.len() > 0 {
                    assert(strs(w@).last() == w@[w@.len() - 1]@);
                    str_eq(w[w.len() - 1].as_str(), m.name())
                } else {
                    false
                }
            },
            None => true,
        };
        assert(file_specs(files@)[i as int] == f@);
        assert(keep == pred(f@));
        let ghost t1 = file_specs(files@).take(i + 1);
        assert(t1.drop_last() =~= file_specs(files@).take(i as int));
        assert(t1.last() == f@);
        proof {
            reveal_with_fuel(Seq::filter, 1);
        }
        let ghost before = file_specs(r@);
        if keep {
            let linked_file = InstallFile::new_raw(
                join(m.manifest_dir(), f.source()),
                String::from_str(d),
            );
            r.push(linked_file);
            assert(file_specs(r@) =~= before.push(g(f@)));
            assert(t1.filter(pred) == file_specs(files@).take(i as int).filter(pred).push(f@));
            assert(t1.filter(pred).map_values(g) =~= before.push(g(f@)));
        } else {
            assert(t1.filter(pred) == file_specs(files@).take(i as int).filter(pred));
        }
        i += 1;
    }
    assert(file_specs(files@).take(i as int) =~= file_specs(files@));
    r
}

/// Of the mods of a list, only the winner of a conflicting file installs
/// it: a mod whose plan keeps a conflicting file is named as the last
/// enabled mod of the list that installs that file.
pub proof fn lemma_only_winner_installs(
    ms: Seq<ManifestView>,
    cl: Seq<(Seq<char>, Seq<Seq<char>>)>,
    f: Seq<char>,
    m: ManifestView,
    k: int,
)
    requires
        forall|g: Seq<char>| #[trigger] lookup(cl, g) == conflict_spec(ms, g),
        is_conflict(ms, f),
        0 <= k < ms.len(),
        ms[k].enabled(),
        ms[k].dests().contains(f),
        forall|j: int| k < j < ms.len() && (#[trigger] ms[j]).enabled() ==> !ms[j].dests().contains(f),
        keeps(m, cl, f),
    ensures
        m.name == ms[k].name,
{
    assert(lookup(cl, f) == conflict_spec(ms, f));
    lemma_winner_is_last_holder(ms, f, k);
}

/// A file that is not conflicting is installed by every mod that has it.
pub proof fn lemma_unshared_always_installed(
    ms: Seq<ManifestView>,
    cl: Seq<(Seq<char>, Seq<Seq<char>>)>,
    f: Seq<char>,
    m: ManifestView,
)
    requires
        forall|g: Seq<char>| #[trigger] lookup(cl, g) == conflict_spec(ms, g),
        !is_conflict(ms, f),
    ensures
        keeps(m, cl, f),
{
    assert(lookup(cl, f) == conflict_spec(ms, f));
}


/// No name before position `j` of `v` is `n`.
pub open spec fn before_self(v: Seq<Seq<char>>, n: Seq<char>, j: int) -> bool {
    forall|k: int| 0 <= k < j ==> v[k] != n
}

/// Among the first `upto` names of `v`, `a` (not `n`) comes before any `n`.
pub open spec fn wins_in(v: Seq<Seq<char>>, n: Seq<char>, a: Seq<char>, upto: int) -> bool {
    exists|j: int| 0 <= j < upto && j < v.len() && #[trigger] v[j] == a && a != n && before_self(v, n, j)
}

/// In the entry `v`, which names `n`, `a` (not `n`) comes before every
/// `n`: the mod named `n` overrides a file of the mod named `a`.
pub open spec fn wins_entry(v: Seq<Seq<char>>, n: Seq<char>, a: Seq<char>) -> bool {
    v.contains(n) && wins_in(v, n, a, v.len() as int)
}

/// Among the first `upto` names of `v`, `a` (not `n`) comes after an `n`.
pub open spec fn loses_in(v: Seq<Seq<char>>, n: Seq<char>, a: Seq<char>, upto: int) -> bool {
    exists|j: int| 0 <= j < upto && j < v.len() && #[trigger] v[j] == a && a != n && !before_self(v, n, j)
}

/// In one of the first `i` entries, `a` comes before `n`.
pub open spec fn wins_before(e: Seq<(Seq<char>, Seq<Seq<char>>)>, n: Seq<char>, a: Seq<char>, i: int) -> bool {
    exists|x: int| 0 <= x < i && x < e.len() && #[trigger] wins_entry(e[x].1, n, a)
}

/// In one of the first `i` entries, `a` comes after `n`.
pub open spec fn loses_before(e: Seq<(Seq<char>, Seq<Seq<char>>)>, n: Seq<char>, a: Seq<char>, i: int) -> bool {
    exists|x: int| 0 <= x < i && x < e.len() && #[trigger] loses_in(e[x].1, n, a, e[x].1.len() as int)
}

/// The conflicting files of the mod named `n`: each entry's file, once for
/// each time `n` installs it.
pub open spec fn conflict_files_of(e: Seq<(Seq<char>, Seq<Seq<char>>)>, n: Seq<char>) -> Seq<Seq<char>>
    decreases e.len(),
{
    if e.len() == 0 {
        Seq::empty()
    } else {
        conflict_files_of(e.drop_last(), n) + repeat(e.last().0, count_of(e.last().1, n))
    }
}

/// The abstract value of the conflicts of one mod.
pub struct ConflictsView {
    pub files: Seq<Seq<char>>,
    pub losing_to: Set<Seq<char>>,
    pub winning_over: Set<Seq<char>>,
}

/// The conflicts of the mod named `n` in the conflict entries `e`: its
/// conflicting files; the mods it loses to, those named after it in some
/// entry; and the mods it wins over, those named before it in an entry
/// that names it.
pub open spec fn conflicts_spec(e: Seq<(Seq<char>, Seq<Seq<char>>)>, n: Seq<char>) -> ConflictsView {
    ConflictsView {
        files: conflict_files_of(e, n),
        losing_to: Set::new(|a: Seq<char>| loses_before(e, n, a, e.len() as int)),
        winning_over: Set::new(|a: Seq<char>| wins_before(e, n, a, e.len() as int)),
    }
}

/// The conflicts of one mod.
#[derive(Debug)]
pub struct Conflicts {
    conflict_files: Vec<String>,
    losing_to_mods: Vec<String>,
    winning_over_mods: Vec<String>,
}

impl View for Conflicts {
    type V = ConflictsView;

    closed spec fn view(&self) -> ConflictsView {
        ConflictsView {
            files: strs(self.conflict_files@),
            losing_to: strs(self.losing_to_mods@).to_set(),
            winning_over: strs(self.winning_over_mods@).to_set(),
        }
    }
}

impl Conflicts {
    /// The mod's conflicting files.
    pub fn conflict_files(&self) -> (r: &[String])
        ensures
            strs(r@) == self@.files,
    {
        self.conflict_files.as_slice()
    }

    /// The mods whose files win over this mod's.
    pub fn losing_to(&self) -> (r: &[String])
        ensures
            strs(r@).to_set() == self@.losing_to,
            strs(r@).no_duplicates(),
    {
        proof {
            use_type_invariant(self);
        }
        self.losing_to_mods.as_slice()
    }

    /// The mods whose files this mod's win over.
    pub fn winning_over(&self) -> (r: &[String])
        ensures
            strs(r@).to_set() == self@.winning_over,
            strs(r@).no_duplicates(),
    {
        proof {
            use_type_invariant(self);
        }
        self.winning_over_mods.as_slice()
    }

    #[verifier::type_invariant]
    spec fn inv(&self) -> bool {
        strs(self.losing_to_mods@).no_duplicates() && strs(self.winning_over_mods@).no_duplicates()
    }
}

/// Adds `x` to the set `v` held as a list without repetitions.
fn insert_unique(v: &mut Vec<String>, x: &str)
    requires
        strs(old(v)@).no_duplicates(),
    ensures
        strs(final(v)@).no_duplicates(),
        forall|a: Seq<char>| #[trigger] strs(final(v)@).contains(a) <==> (strs(old(v)@).contains(a) || a == x@),
{
    proof {
        lemma_index_of(strs(v@), x@);
        broadcast use vstd::seq_lib::lemma_seq_contains_after_push;
    }
    if position_of(v, x).is_none() {
        let ghost before = strs(v@);
        v.push(String::from_str(x));
        assert(strs(v@) =~= before.push(x@));
        assert forall|a: int, b: int|
            0 <= a < strs(v@).len() && 0 <= b < strs(v@).len() && a != b implies strs(v@)[a] != strs(v@)[b] by {
            if a == before.len() {
                assert(before.contains(strs(v@)[b]));
            } else if b == before.len() {
                assert(before.contains(strs(v@)[a]));
            }
        }
    }
}

/// One more name of an entry: it is a win, a loss, or the mod itself.
pub proof fn lemma_in_step(v: Seq<Seq<char>>, n: Seq<char>, a: Seq<char>, j: int)
    requires
        0 <= j < v.len(),
    ensures
        wins_in(v, n, a, j + 1) == (wins_in(v, n, a, j) || (v[j] == a && a != n && before_self(v, n, j))),
        loses_in(v, n, a, j + 1) == (loses_in(v, n, a, j) || (v[j] == a && a != n && !before_self(v, n, j))),
        before_self(v, n, j + 1) == (before_self(v, n, j) && v[j] != n),
{
    if wins_in(v, n, a, j + 1) {
        let w = choose|w: int| 0 <= w < j + 1 && w < v.len() && #[trigger] v[w] == a && a != n && before_self(v, n, w);
        if w < j {
            assert(wins_in(v, n, a, j));
        }
    }
    if wins_in(v, n, a, j) {
        let w = choose|w: int| 0 <= w < j && w < v.len() && #[trigger] v[w] == a && a != n && before_self(v, n, w);
        assert(wins_in(v, n, a, j + 1));
    }
    if v[j] == a && a != n && before_self(v, n, j) {
        assert(wins_in(v, n, a, j + 1));
    }
    if loses_in(v, n, a, j + 1) {
        let w = choose|w: int| 0 <= w < j + 1 && w < v.len() && #[trigger] v[w] == a && a != n && !before_self(v, n, w);
        if w < j {
            assert(loses_in(v, n, a, j));
        }
    }
    if loses_in(v, n, a, j) {
        let w = choose|w: int| 0 <= w < j && w < v.len() && #[trigger] v[w] == a && a != n && !before_self(v, n, w);
        assert(!before_self(v, n, w));
        let k = choose|k: int| 0 <= k < w && !(v[k] != n);
        assert(!before_self(v, n, j + 1) || true);
        assert(loses_in(v, n, a, j + 1));
    }
    if v[j] == a && a != n && !before_self(v, n, j) {
        assert(loses_in(v, n, a, j + 1));
    }
}

/// One more entry of the list.
pub proof fn lemma_before_step(e: Seq<(Seq<char>, Seq<Seq<char>>)>, n: Seq<char>, a: Seq<char>, i: int)
    requires
        0 <= i < e.len(),
    ensures
        wins_before(e, n, a, i + 1) == (wins_before(e, n, a, i) || wins_entry(e[i].1, n, a)),
        loses_before(e, n, a, i + 1) == (loses_before(e, n, a, i) || loses_in(e[i].1, n, a, e[i].1.len() as int)),
{
    if wins_before(e, n, a, i + 1) {
        let x = choose|x: int| 0 <= x < i + 1 && x < e.len() && #[trigger] wins_entry(e[x].1, n, a);
        if x < i {
            assert(wins_before(e, n, a, i));
        }
    }
    if loses_before(e, n, a, i + 1) {
        let x = choose|x: int| 0 <= x < i + 1 && x < e.len() && #[trigger] loses_in(e[x].1, n, a, e[x].1.len() as int);
        if x < i {
            assert(loses_before(e, n, a, i));
        }
    }
}

/// Adds the names `v[0..j]` to the set `winning` held as a list without
/// repetitions.
fn insert_prefix(winning: &mut Vec<String>, v: &Vec<String>, j: usize)
    requires
        j <= v@.len(),
        strs(old(winning)@).no_duplicates(),
    ensures
        strs(final(winning)@).no_duplicates(),
        forall|a: Seq<char>| #[trigger] strs(final(winning)@).contains(a) <==> (strs(old(winning)@).contains(a)
            || exists|w: int| 0 <= w < j && #[trigger] strs(v@)[w] == a),
{
    let ghost start = strs(winning@);
    let mut k: usize = 0;
    while k < j
        invariant
            k <= j <= v@.len(),
            strs(winning@).no_duplicates(),
            forall|a: Seq<char>| #[trigger] strs(winning@).contains(a) <==> (start.contains(a)
                || exists|w: int| 0 <= w < k && #[trigger] strs(v@)[w] == a),
        decreases j - k,
    {
        assert(strs(v@)[k as int] == v@[k as int]@);
        insert_unique(winning, v[k].as_str());
        assert forall|a: Seq<char>| #[trigger] strs(winning@).contains(a) <==> (start.contains(a)
            || exists|w: int| 0 <= w < k + 1 && #[trigger] strs(v@)[w] == a) by {
            if exists|w: int| 0 <= w < k + 1 && #[trigger] strs(v@)[w] == a {
                let w = choose|w: int| 0 <= w < k + 1 && #[trigger] strs(v@)[w] == a;
                if w < k {
                    assert(exists|w2: int| 0 <= w2 < k && #[trigger] strs(v@)[w2] == a);
                }
            }
            if exists|w: int| 0 <= w < k && #[trigger] strs(v@)[w] == a {
                let w = choose|w: int| 0 <= w < k && #[trigger] strs(v@)[w] == a;
                assert(0 <= w < k + 1 && strs(v@)[w] == a);
            }
            if a == strs(v@)[k as int] {
                assert(0 <= k < k + 1 && strs(v@)[k as int] == a);
            }
        }
        k += 1;
    }
}

/// The conflicts of the mod named `n` in the conflict list `cl`.
pub fn conflicts_of(cl: &ConflictList, n: &str) -> (r: Conflicts)
    ensures
        r@ == conflicts_spec(cl@, n@),
{
    let ghost e = cl@;
    let mut files: Vec<String> = Vec::new();
    let mut losing: Vec<String> = Vec::new();
    let mut winning: Vec<String> = Vec::new();
    let mut i: usize = 0;
    assert(e.take(0) =~= Seq::<(Seq<char>, Seq<Seq<char>>)>::empty());
    assert(strs(files@) =~= Seq::<Seq<char>>::empty());
    while i < cl.len()
        invariant
            i <= e.len(),
            e == cl@,
            strs(files@) == conflict_files_of(e.take(i as int), n@),
            strs(losing@).no_duplicates(),
            strs(winning@).no_duplicates(),
            forall|a: Seq<char>| #[trigger] strs(losing@).contains(a) <==> loses_before(e, n@, a, i as int),
            forall|a: Seq<char>| #[trigger] strs(winning@).contains(a) <==> wins_before(e, n@, a, i as int),
        decreases e.len() - i,
    {
        let f = cl.file_at(i);
        let v = cl.mods_at(i);
        let ghost vs = strs(v@);
        let ghost base_files = strs(files@);
        let ghost base_l = strs(losing@);
        let ghost base_w = strs(winning@);
        let mut found = false;
        let mut j: usize = 0;
        assert(vs.take(0) =~= Seq::<Seq<char>>::empty());
        assert(repeat(f@, 0) =~= Seq::<Seq<char>>::empty());
        assert(base_files + repeat(f@, 0) =~= base_files);
        while j < v.len()
            invariant
                j <= vs.len(),
                vs == strs(v@),
                vs == e[i as int].1,
                f@ == e[i as int].0,
                found == !before_self(vs, n@, j as int),
                strs(files@) == base_files + repeat(f@, count_of(vs.take(j as int), n@)),
                strs(losing@).no_duplicates(),
                strs(winning@).no_duplicates(),
                forall|a: Seq<char>| #[trigger] strs(losing@).contains(a) <==> (base_l.contains(a) || loses_in(vs, n@, a, j as int)),
                forall|a: Seq<char>| #[trigger] strs(winning@).contains(a) <==> (base_w.contains(a) || (found
                    && wins_in(vs, n@, a, j as int))),
            decreases vs.len() - j,
        {
            let x = v[j].as_str();
            assert(vs[j as int] == x@);
            let ghost t = vs.take(j + 1);
            assert(t.drop_last() =~= vs.take(j as int));
            assert(t.last() == x@);
            proof {
                assert forall|a: Seq<char>| true implies (wins_in(vs, n@, a, j + 1) == (wins_in(vs, n@, a, j as int) || (vs[j as int] == a && a != n@ && before_self(vs, n@, j as int))))
                    && (loses_in(vs, n@, a, j + 1) == (loses_in(vs, n@, a, j as int) || (vs[j as int] == a && a != n@ && !before_self(vs, n@, j as int)))) by {
                    lemma_in_step(vs, n@, a, j as int);
                }
                lemma_in_step(vs, n@, n@, j as int);
            }
            if str_eq(x, n) {
                let ghost before = strs(files@);
                files.push(String::from_str(f));
                proof {
                    lemma_repeat_push(f@, count_of(vs.take(j as int), n@));
                    assert(strs(files@) =~= before.push(f@));
                }
                if !found {
                    insert_prefix(&mut winning, v, j);
                    assert forall|a: Seq<char>| (exists|w: int| 0 <= w < j && #[trigger] vs[w] == a) <==> wins_in(
                        vs,
                        n@,
                        a,
                        j as int,
                    ) by {
                        if exists|w: int| 0 <= w < j && #[trigger] vs[w] == a {
                            let w = choose|w: int| 0 <= w < j && #[trigger] vs[w] == a;
                            assert(before_self(vs, n@, j as int));
                            assert forall|k: int| 0 <= k < w implies vs[k] != n@ by {
                                assert(before_self(vs, n@, j as int));
                            }
                            assert(vs[w] != n@);
                        }
                    }
                }
                found = true;
            } else if found {
                insert_unique(&mut losing, x);
            }
            j += 1;
        }
        assert(vs.take(j as int) =~= vs);
        proof {
            if vs.contains(n@) {
                let q = choose|q: int| 0 <= q < vs.len() && vs[q] == n@;
                assert(!before_self(vs, n@, vs.len() as int));
            }
            if !before_self(vs, n@, vs.len() as int) {
                let q = choose|q: int| 0 <= q < vs.len() && !(vs[q] != n@);
                assert(vs.contains(n@));
            }
            assert(found == vs.contains(n@));
            assert forall|a: Seq<char>| #[trigger] strs(winning@).contains(a) <==> (base_w.contains(a)
                || wins_entry(vs, n@, a)) by {
                assert(j == vs.len());
            }
            assert(e.take(i + 1).drop_last() =~= e.take(i as int));
            assert(e.take(i + 1).last() == e[i as int]);
            assert forall|a: Seq<char>| true implies (wins_before(e, n@, a, i + 1) == (wins_before(e, n@, a, i as int) || wins_entry(vs, n@, a)))
                && (loses_before(e, n@, a, i + 1) == (loses_before(e, n@, a, i as int) || loses_in(vs, n@, a, vs.len() as int))) by {
                lemma_before_step(e, n@, a, i as int);
            }
        }
        i += 1;
    }
    assert(e.take(i as int) =~= e);
    let r = Conflicts { conflict_files: files, losing_to_mods: losing, winning_over_mods: winning };
    assert(r@.losing_to =~= conflicts_spec(e, n@).losing_to);
    assert(r@.winning_over =~= conflicts_spec(e, n@).winning_over);
    r
}


/// Some mod of `ms` is named `n`.
pub open spec fn has_mod_named(ms: Seq<ManifestView>, n: Seq<char>) -> bool {
    exists|k: int| 0 <= k < ms.len() && #[trigger] ms[k].name == n
}

/// What the per-mod conflict list gives for the name `n`: the mod's
/// conflicts, when a mod of the list has that name and has conflicting files.
pub open spec fn mod_conflict_spec(
    ms: Seq<ManifestView>,
    e: Seq<(Seq<char>, Seq<Seq<char>>)>,
    n: Seq<char>,
) -> Option<ConflictsView> {
    if has_mod_named(ms, n) && conflict_files_of(e, n).len() > 0 {
        Some(conflicts_spec(e, n))
    } else {
        None
    }
}

/// The first per-mod entry at or after `i` for the name `n`.
pub open spec fn mod_entry_from(e: Seq<(Seq<char>, ConflictsView)>, n: Seq<char>, i: int) -> Option<int>
    decreases e.len() - i,
{
    if i < 0 || i >= e.len() {
        None
    } else if e[i].0 == n {
        Some(i)
    } else {
        mod_entry_from(e, n, i + 1)
    }
}

/// What `mod_entry_from` finds.
pub proof fn lemma_mod_entry(e: Seq<(Seq<char>, ConflictsView)>, n: Seq<char>, i: int)
    requires
        0 <= i,
    ensures
        mod_entry_from(e, n, i) matches Some(j) ==> i <= j < e.len() && e[j].0 == n,
        mod_entry_from(e, n, i) is None ==> forall|k: int| i <= k < e.len() ==> e[k].0 != n,
    decreases e.len() - i,
{
    if i >= e.len() {
    } else if e[i].0 == n {
    } else {
        lemma_mod_entry(e, n, i + 1);
    }
}

/// The conflicts of each mod of a list, with the conflict list by file
/// they were computed from.
#[derive(Debug)]
pub struct ModConflictList {
    by_file: ConflictList,
    entries: Vec<(String, Conflicts)>,
}

impl ModConflictList {
    /// The conflict list by file.
    pub closed spec fn files_view(&self) -> Seq<(Seq<char>, Seq<Seq<char>>)> {
        self.by_file@
    }

    /// The per-mod entries.
    pub closed spec fn mods_view(&self) -> Seq<(Seq<char>, ConflictsView)> {
        self.entries@.map_values(|p: (String, Conflicts)| (p.0@, p.1@))
    }

    /// The conflict list by file.
    pub fn by_file(&self) -> (r: &ConflictList)
        ensures
            r@ == self.files_view(),
    {
        &self.by_file
    }

    /// The conflicts of the mod named `n`, when it has any.
    pub fn get(&self, n: &str) -> (r: Option<&Conflicts>)
        ensures
            r matches Some(c) ==> mod_entry_from(self.mods_view(), n@, 0) matches Some(k) && c@ == self.mods_view()[k].1,
            r is None ==> mod_entry_from(self.mods_view(), n@, 0) is None,
    {
        let mut i: usize = 0;
        while i < self.entries.len()
            invariant
                i <= self.entries@.len(),
                mod_entry_from(self.mods_view(), n@, 0) == mod_entry_from(self.mods_view(), n@, i as int),
            decreases self.entries.len() - i,
        {
            let p = &self.entries[i];
            assert(self.mods_view()[i as int] == (p.0@, p.1@));
            if str_eq(p.0.as_str(), n) {
                return Some(&p.1);
            }
            i += 1;
        }
        None
    }
}

/// The conflicts of every mod of `mods` that has conflicting files.
pub fn conflict_list_by_mod(mods: &[Manifest]) -> (r: ModConflictList)
    ensures
        forall|f: Seq<char>| #[trigger] lookup(r.files_view(), f) == conflict_spec(views(mods@), f),
        forall|n: Seq<char>| #[trigger] mod_entry_from(r.mods_view(), n, 0) matches Some(k)
            ==> Some(r.mods_view()[k].1) == mod_conflict_spec(views(mods@), r.files_view(), n),
        forall|n: Seq<char>| #[trigger] mod_entry_from(r.mods_view(), n, 0) is None
            ==> mod_conflict_spec(views(mods@), r.files_view(), n) is None,
        lists_conflicts(r.files_view(), views(mods@)),
{
    let ghost ms = views(mods@);
    let cl = conflict_list_by_file(mods);
    let ghost e = cl@;
    let mut entries: Vec<(String, Conflicts)> = Vec::new();
    let ghost ev = entries@.map_values(|p: (String, Conflicts)| (p.0@, p.1@));
    let mut i: usize = 0;
    while i < mods.len()
        invariant
            i <= mods@.len(),
            ms == views(mods@),
            e == cl@,
            ev == entries@.map_values(|p: (String, Conflicts)| (p.0@, p.1@)),
            forall|a: int, b: int| 0 <= a < b < ev.len() ==> ev[a].0 != ev[b].0,
            forall|a: int| #![trigger ev[a]] 0 <= a < ev.len() ==> ev[a].1 == conflicts_spec(e, ev[a].0)
                && conflict_files_of(e, ev[a].0).len() > 0 && has_mod_named(ms, ev[a].0),
            forall|k: int| 0 <= k < i && conflict_files_of(e, #[trigger] ms[k].name).len() > 0
                ==> exists|a: int| 0 <= a < ev.len() && ev[a].0 == ms[k].name,
        decreases mods.len() - i,
    {
        let m = &mods[i];
        assert(ms[i as int] == m@);
        let n = m.name();
        let mut present = false;
        let mut a: usize = 0;
        while a < entries.len()
            invariant
                a <= entries@.len(),
                ev == entries@.map_values(|p: (String, Conflicts)| (p.0@, p.1@)),
                present == exists|b: int| 0 <= b < a && ev[b].0 == n@,
            decreases entries.len() - a,
        {
            assert(ev[a as int].0 == entries@[a as int].0@);
            if str_eq(entries[a].0.as_str(), n) {
                present = true;
            }
            a += 1;
        }
        if !present {
            let c = conflicts_of(&cl, n);
            if c.conflict_files.len() > 0 {
                let ghost old_ev = ev;
                entries.push((String::from_str(n), c));
                proof {
                    ev = entries@.map_values(|p: (String, Conflicts)| (p.0@, p.1@));
                    assert(ev =~= old_ev.push((n@, conflicts_spec(e, n@))));
                    assert(has_mod_named(ms, n@)) by {
                        assert(ms[i as int].name == n@);
                    }
                    assert forall|k: int| 0 <= k < i + 1 && conflict_files_of(e, #[trigger] ms[k].name).len() > 0
                        implies exists|b: int| 0 <= b < ev.len() && ev[b].0 == ms[k].name by {
                        if k == i {
                            assert(ev[old_ev.len() as int].0 == ms[k].name);
                        } else {
                            let b = choose|b: int| 0 <= b < old_ev.len() && old_ev[b].0 == ms[k].name;
                            assert(ev[b] == old_ev[b]);
                        }
                    }
                }
            }
        }
        i += 1;
    }
    let r = ModConflictList { by_file: cl, entries };
    proof {
        assert(r.mods_view() == ev);
        assert(r.files_view() == e);
        assert forall|n: Seq<char>| true implies (mod_entry_from(ev, n, 0) matches Some(k)
            ==> Some(ev[k].1) == mod_conflict_spec(ms, e, n))
            && (mod_entry_from(ev, n, 0) is None ==> mod_conflict_spec(ms, e, n) is None) by {
            lemma_mod_entry(ev, n, 0);
            if has_mod_named(ms, n) && conflict_files_of(e, n).len() > 0 {
                let k = choose|k: int| 0 <= k < ms.len() && #[trigger] ms[k].name == n;
                assert(conflict_files_of(e, ms[k].name).len() > 0);
            }
        }
    }
    r
}

/// A non-empty list has a non-empty set of elements.
pub proof fn lemma_nonempty_set(s: Seq<Seq<char>>)
    ensures
        s.len() > 0 <==> s.to_set() != Set::<Seq<char>>::empty(),
{
    if s.len() > 0 {
        assert(s.to_set().contains(s[0]));
    } else {
        assert(s.to_set() =~= Set::<Seq<char>>::empty());
    }
}

/// Some file of `m` is not lost: it is not conflicting, or `m` is its winner.
pub open spec fn keeps_some_file(m: ManifestView, e: Seq<(Seq<char>, Seq<Seq<char>>)>) -> bool {
    exists|j: int| 0 <= j < m.dests().len() && #[trigger] keeps(m, e, m.dests()[j])
}

/// The status shown for mod `m`: disabled; all files overwritten when it
/// loses conflicts and wins none of its files; otherwise by whether it
/// loses to and wins over other mods.
pub open spec fn mod_tag_spec(m: ManifestView, e: Seq<(Seq<char>, Seq<Seq<char>>)>, c: Option<ConflictsView>) -> Tag {
    let loser = c matches Some(x) && x.losing_to != Set::<Seq<char>>::empty();
    let winner = c matches Some(x) && x.winning_over != Set::<Seq<char>>::empty();
    if !m.enabled() {
        Tag::Disabled
    } else if loser && !keeps_some_file(m, e) {
        Tag::CompleteLoser
    } else {
        tag_of_flags(loser, winner)
    }
}

/// The conflicts the per-mod list gives for the name `n`.
pub open spec fn mod_conflicts_of(l: Seq<(Seq<char>, ConflictsView)>, n: Seq<char>) -> Option<ConflictsView> {
    match mod_entry_from(l, n, 0) {
        Some(k) => Some(l[k].1),
        None => None,
    }
}

/// The status tag of mod `m` in the list whose conflicts are `conflicts`.
pub fn mod_tag(conflicts: &ModConflictList, m: &Manifest) -> (t: Tag)
    ensures
        t == mod_tag_spec(m@, conflicts.files_view(), mod_conflicts_of(conflicts.mods_view(), m@.name)),
{
    let n = m.name();
    let (loser, winner) = match conflicts.get(n) {
        Some(c) => {
            let l = c.losing_to();
            let w = c.winning_over();
            proof {
                lemma_nonempty_set(strs(l@));
                lemma_nonempty_set(strs(w@));
            }
            (l.len() > 0, w.len() > 0)
        },
        None => (false, false),
    };
    let tag = Tag::from_flags(loser, winner);
    let tag = if loser {
        let dests = m.dest_files();
        let cl = conflicts.by_file();
        let mut not_lost = false;
        let mut j: usize = 0;
        while j < dests.len()
            invariant
                j <= dests@.len(),
                strs(dests@) == m@.dests(),
                cl@ == conflicts.files_view(),
                n@ == m@.name,
                not_lost == exists|k: int| 0 <= k < j && #[trigger] keeps(m@, cl@, m@.dests()[k]),
            decreases dests.len() - j,
        {
            let d = dests[j].as_str();
            assert(m@.dests()[j as int] == d@);
            let kept = match cl.get(d) {
                Some(w) => {
                    if w.len() > 0 {
                        assert(strs(w@).last() == w@[w@.len() - 1]@);
                        str_eq(w[w.len() - 1].as_str(), n)
                    } else {
                        false
                    }
                },
                None => true,
            };
            assert(kept == keeps(m@, cl@, m@.dests()[j as int]));
            if kept {
                not_lost = true;
            }
            proof {
                if exists|k: int| 0 <= k < j + 1 && #[trigger] keeps(m@, cl@, m@.dests()[k]) {
                    let k = choose|k: int| 0 <= k < j + 1 && #[trigger] keeps(m@, cl@, m@.dests()[k]);
                    if k < j {
                        assert(exists|k: int| 0 <= k < j && #[trigger] keeps(m@, cl@, m@.dests()[k]));
                    }
                }
            }
            j += 1;
        }
        if not_lost {
            tag
        } else {
            Tag::CompleteLoser
        }
    } else {
        tag
    };
    if m.is_enabled() {
        tag
    } else {
        Tag::Disabled
    }
}

/// A mod shown with all files overwritten loses conflicts and is enabled.
pub proof fn lemma_complete_loser_loses(m: ManifestView, e: Seq<(Seq<char>, Seq<Seq<char>>)>, c: Option<ConflictsView>)
    ensures
        mod_tag_spec(m, e, c) == Tag::CompleteLoser ==> m.enabled() && c is Some,
        mod_tag_spec(m, e, c) == Tag::Disabled <==> !m.enabled(),
{
}


/// Some conflicting file of `ms` is installed by a mod named `n`.
pub open spec fn in_conflict(ms: Seq<ManifestView>, n: Seq<char>) -> bool {
    exists|f: Seq<char>| is_conflict(ms, f) && #[trigger] names_with(ms, f).contains(n)
}

/// In some conflicting file of `ms`, a mod named other than `n` comes after
/// a mod named `n`.
pub open spec fn loses_conflict(ms: Seq<ManifestView>, n: Seq<char>) -> bool {
    exists|f: Seq<char>, a: Seq<char>|
        is_conflict(ms, f) && #[trigger] loses_in(names_with(ms, f), n, a, names_with(ms, f).len() as int)
}

/// In some conflicting file of `ms` that a mod named `n` installs, a mod
/// named other than `n` comes before any mod named `n`.
pub open spec fn wins_conflict(ms: Seq<ManifestView>, n: Seq<char>) -> bool {
    exists|f: Seq<char>, a: Seq<char>|
        is_conflict(ms, f) && #[trigger] wins_entry(names_with(ms, f), n, a)
}

/// Mod `m` keeps a file to install: one of its files is not conflicting
/// in `ms`, or `m` is the last of the mods installing it.
pub open spec fn keeps_some(m: ManifestView, ms: Seq<ManifestView>) -> bool {
    exists|j: int|
        0 <= j < m.dests().len() && match #[trigger] conflict_spec(ms, m.dests()[j]) {
            Some(w) => w.len() > 0 && w.last() == m.name,
            None => true,
        }
}

/// The status shown for mod `m` in the list `ms`: disabled; all files
/// overwritten when it loses conflicts and keeps none of its files;
/// otherwise by whether it loses to and wins over other mods.
pub open spec fn list_tag(ms: Seq<ManifestView>, m: ManifestView) -> Tag {
    let c = has_mod_named(ms, m.name) && in_conflict(ms, m.name);
    let loser = c && loses_conflict(ms, m.name);
    let winner = c && wins_conflict(ms, m.name);
    if !m.enabled() {
        Tag::Disabled
    } else if loser && !keeps_some(m, ms) {
        Tag::CompleteLoser
    } else {
        tag_of_flags(loser, winner)
    }
}

/// The conflicting files of `n` are there exactly when some entry names `n`.
proof fn lemma_conflict_files_nonempty(e: Seq<(Seq<char>, Seq<Seq<char>>)>, n: Seq<char>)
    ensures
        conflict_files_of(e, n).len() > 0 <==> exists|x: int| 0 <= x < e.len() && #[trigger] e[x].1.contains(n),
    decreases e.len(),
{
    if e.len() > 0 {
        let d = e.drop_last();
        lemma_conflict_files_nonempty(d, n);
        lemma_count_of_positive(e.last().1, n);
        if exists|x: int| 0 <= x < d.len() && #[trigger] d[x].1.contains(n) {
            let x = choose|x: int| 0 <= x < d.len() && #[trigger] d[x].1.contains(n);
            assert(e[x].1.contains(n));
        }
        if exists|x: int| 0 <= x < e.len() && #[trigger] e[x].1.contains(n) {
            let x = choose|x: int| 0 <= x < e.len() && #[trigger] e[x].1.contains(n);
            if x < d.len() {
                assert(d[x].1.contains(n));
            }
        }
    }
}

/// The conflicts of a mod read from any entry list of a mod list's
/// conflicts give the same status.
pub proof fn lemma_tag_order_free(ms: Seq<ManifestView>, e: Seq<(Seq<char>, Seq<Seq<char>>)>, m: ManifestView)
    requires
        lists_conflicts(e, ms),
    ensures
        mod_tag_spec(m, e, mod_conflict_spec(ms, e, m.name)) == list_tag(ms, m),
{
    let n = m.name;
    lemma_conflict_files_nonempty(e, n);
    // Entries and conflicting files correspond.
    assert(in_conflict(ms, n) <==> exists|x: int| 0 <= x < e.len() && #[trigger] e[x].1.contains(n)) by {
        if in_conflict(ms, n) {
            let f = choose|f: Seq<char>| is_conflict(ms, f) && #[trigger] names_with(ms, f).contains(n);
            assert(lookup(e, f) == conflict_spec(ms, f));
            lemma_entry_index(e, f, 0);
            let x = entry_index_from(e, f, 0)->0;
            assert(e[x].1.contains(n));
        }
        if exists|x: int| 0 <= x < e.len() && #[trigger] e[x].1.contains(n) {
            let x = choose|x: int| 0 <= x < e.len() && #[trigger] e[x].1.contains(n);
            assert(is_conflict(ms, e[x].0));
            assert(names_with(ms, e[x].0).contains(n));
        }
    }
    let cs = conflicts_spec(e, n);
    assert(cs.losing_to != Set::<Seq<char>>::empty() <==> loses_conflict(ms, n)) by {
        if loses_conflict(ms, n) {
            let (f, a) = choose|f: Seq<char>, a: Seq<char>|
                is_conflict(ms, f) && #[trigger] loses_in(names_with(ms, f), n, a, names_with(ms, f).len() as int);
            assert(lookup(e, f) == conflict_spec(ms, f));
            lemma_entry_index(e, f, 0);
            let x = entry_index_from(e, f, 0)->0;
            assert(loses_in(e[x].1, n, a, e[x].1.len() as int));
            assert(cs.losing_to.contains(a));
        }
        if cs.losing_to != Set::<Seq<char>>::empty() {
            if !(exists|a: Seq<char>| cs.losing_to.contains(a)) {
                assert(cs.losing_to =~= Set::<Seq<char>>::empty());
            }
            let a = choose|a: Seq<char>| cs.losing_to.contains(a);
            let x = choose|x: int| 0 <= x < e.len() && x < e.len() && #[trigger] loses_in(e[x].1, n, a, e[x].1.len() as int);
            assert(is_conflict(ms, e[x].0));
            assert(loses_in(names_with(ms, e[x].0), n, a, names_with(ms, e[x].0).len() as int));
        }
    }
    assert(cs.winning_over != Set::<Seq<char>>::empty() <==> wins_conflict(ms, n)) by {
        if wins_conflict(ms, n) {
            let (f, a) = choose|f: Seq<char>, a: Seq<char>|
                is_conflict(ms, f) && #[trigger] wins_entry(names_with(ms, f), n, a);
            assert(lookup(e, f) == conflict_spec(ms, f));
            lemma_entry_index(e, f, 0);
            let x = entry_index_from(e, f, 0)->0;
            assert(wins_entry(e[x].1, n, a));
            assert(cs.winning_over.contains(a));
        }
        if cs.winning_over != Set::<Seq<char>>::empty() {
            if !(exists|a: Seq<char>| cs.winning_over.contains(a)) {
                assert(cs.winning_over =~= Set::<Seq<char>>::empty());
            }
            let a = choose|a: Seq<char>| cs.winning_over.contains(a);
            let x = choose|x: int| 0 <= x < e.len() && x < e.len() && #[trigger] wins_entry(e[x].1, n, a);
            assert(is_conflict(ms, e[x].0));
            assert(wins_entry(names_with(ms, e[x].0), n, a));
        }
    }
    assert(keeps_some_file(m, e) == keeps_some(m, ms)) by {
        if keeps_some_file(m, e) {
            let j = choose|j: int| 0 <= j < m.dests().len() && #[trigger] keeps(m, e, m.dests()[j]);
            assert(lookup(e, m.dests()[j]) == conflict_spec(ms, m.dests()[j]));
        }
        if keeps_some(m, ms) {
            let j = choose|j: int|
                0 <= j < m.dests().len() && match #[trigger] conflict_spec(ms, m.dests()[j]) {
                    Some(w) => w.len() > 0 && w.last() == m.name,
                    None => true,
                };
            assert(lookup(e, m.dests()[j]) == conflict_spec(ms, m.dests()[j]));
            assert(keeps(m, e, m.dests()[j]));
        }
    }
}


/// A list without repetitions holds each name at most once.
proof fn lemma_count_at_most_one(s: Seq<Seq<char>>, x: Seq<char>)
    requires
        s.no_duplicates(),
    ensures
        count_of(s, x) <= 1,
    decreases s.len(),
{
    if s.len() > 0 {
        let d = s.drop_last();
        assert(d.no_duplicates());
        lemma_count_at_most_one(d, x);
        if s.last() == x {
            lemma_count_of_positive(d, x);
            if d.contains(x) {
                let i = choose|i: int| 0 <= i < d.len() && d[i] == x;
                assert(s[i] == s[s.len() - 1]);
            }
        }
    }
}

/// A name given to a file belongs to an enabled mod of the list that has
/// the file.
pub proof fn lemma_names_with_member(ms: Seq<ManifestView>, f: Seq<char>, x: Seq<char>) -> (k: int)
    requires
        names_with(ms, f).contains(x),
    ensures
        0 <= k < ms.len(),
        ms[k].name == x,
        ms[k].enabled(),
        ms[k].dests().contains(f),
    decreases ms.len(),
{
    let d = ms.drop_last();
    let w = names_with(d, f);
    let c = count_of(ms.last().dests(), f);
    let i = choose|i: int| 0 <= i < names_with(ms, f).len() && names_with(ms, f)[i] == x;
    if i < w.len() {
        assert(names_with(ms, f)[i] == w[i]);
        assert(w.contains(x));
        let k = lemma_names_with_member(d, f, x);
        assert(ms[k] == d[k]);
        k
    } else {
        assert(names_with(ms, f)[i] == repeat(ms.last().name, c)[i - w.len()]);
        lemma_count_of_positive(ms.last().dests(), f);
        ms.len() - 1
    }
}

/// With distinct mod names and no mod holding two files for one
/// destination, the names given to a file are distinct.
proof fn lemma_names_with_distinct(ms: Seq<ManifestView>, f: Seq<char>)
    requires
        names_distinct(ms),
        own_dests_distinct(ms),
    ensures
        names_with(ms, f).no_duplicates(),
    decreases ms.len(),
{
    if ms.len() > 0 {
        let d = ms.drop_last();
        assert forall|k: int| 0 <= k < d.len() implies (#[trigger] d[k]).dests().no_duplicates() by {
            assert(d[k] == ms[k]);
            assert(ms[k].dests().no_duplicates());
        }
        lemma_names_with_distinct(d, f);
        let w = names_with(d, f);
        let last = ms.last();
        assert(last.dests().no_duplicates()) by {
            assert(ms[ms.len() - 1].dests().no_duplicates());
        }
        lemma_count_at_most_one(last.dests(), f);
        let r = if last.enabled() { repeat(last.name, count_of(last.dests(), f)) } else { Seq::empty() };
        let all = names_with(ms, f);
        assert(all =~= w + r);
        assert forall|a: int, b: int| 0 <= a < b < all.len() implies all[a] != all[b] by {
            if a < w.len() && b >= w.len() {
                assert(all[a] == w[a]);
                assert(all[b] == last.name);
                if all[a] == all[b] {
                    assert(w.contains(all[a]));
                    let k = lemma_names_with_member(d, f, all[a]);
                    assert(ms[k] == d[k]);
                    assert(ms[k].name != ms[ms.len() - 1].name);
                }
            } else if a < w.len() {
                assert(all[a] == w[a]);
                assert(all[b] == w[b]);
            }
        }
    }
}

/// A mod that loses a file to another is one the other wins over: when the
/// mods have distinct names and no mod holds two files for one destination,
/// every mod that `a` loses to counts `a` among the mods it wins over
/// (`lemma_winner_counted_by_loser` gives the other direction).
pub proof fn lemma_loser_counted_by_winner(
    ms: Seq<ManifestView>,
    e: Seq<(Seq<char>, Seq<Seq<char>>)>,
    a: Seq<char>,
    b: Seq<char>,
)
    requires
        names_distinct(ms),
        own_dests_distinct(ms),
        lists_conflicts(e, ms),
        mod_conflict_spec(ms, e, a) matches Some(c) && c.losing_to.contains(b),
    ensures
        mod_conflict_spec(ms, e, b) matches Some(c) && c.winning_over.contains(a),
{
    assert(loses_before(e, a, b, e.len() as int));
    let x = choose|x: int| 0 <= x < e.len() as int && x < e.len() && #[trigger] loses_in(e[x].1, a, b, e[x].1.len() as int);
    let v = e[x].1;
    let j = choose|j: int| 0 <= j < v.len() && j < v.len() && #[trigger] v[j] == b && b != a && !before_self(v, a, j);
    let k = choose|k: int| 0 <= k < j && v[k] == a;
    assert(v == names_with(ms, e[x].0));
    lemma_names_with_distinct(ms, e[x].0);
    assert forall|q: int| 0 <= q < k implies v[q] != b by {
        if v[q] == b {
            assert(v[q] == v[j]);
        }
    }
    assert(before_self(v, b, k));
    assert(v[k] == a);
    assert(wins_in(v, b, a, v.len() as int));
    assert(v.contains(b));
    assert(wins_entry(v, b, a));
    assert(wins_before(e, b, a, e.len() as int));
    let m = lemma_names_with_member(ms, e[x].0, b);
    assert(has_mod_named(ms, b));
    lemma_conflict_files_nonempty(e, b);
    assert(e[x].1.contains(b));
}


/// A mod that another wins over loses a file to it: every mod that `b`
/// wins over counts `b` among the mods it loses to.
pub proof fn lemma_winner_counted_by_loser(
    ms: Seq<ManifestView>,
    e: Seq<(Seq<char>, Seq<Seq<char>>)>,
    a: Seq<char>,
    b: Seq<char>,
)
    requires
        lists_conflicts(e, ms),
        mod_conflict_spec(ms, e, b) matches Some(c) && c.winning_over.contains(a),
    ensures
        mod_conflict_spec(ms, e, a) matches Some(c) && c.losing_to.contains(b),
{
    assert(wins_before(e, b, a, e.len() as int));
    let x = choose|x: int| 0 <= x < e.len() as int && x < e.len() && #[trigger] wins_entry(e[x].1, b, a);
    let v = e[x].1;
    let j = choose|j: int| 0 <= j < v.len() && j < v.len() && #[trigger] v[j] == a && a != b && before_self(v, b, j);
    let q = choose|q: int| 0 <= q < v.len() && v[q] == b;
    assert(q > j) by {
        if q < j {
            assert(v[q] != b);
        }
    }
    assert(!before_self(v, a, q));
    assert(loses_in(v, a, b, v.len() as int));
    assert(loses_before(e, a, b, e.len() as int));
    assert(v == names_with(ms, e[x].0));
    assert(v.contains(a));
    let m = lemma_names_with_member(ms, e[x].0, a);
    assert(has_mod_named(ms, a));
    lemma_conflict_files_nonempty(e, a);
}

/// No mod loses to or wins over itself.
pub proof fn lemma_no_conflict_with_self(e: Seq<(Seq<char>, Seq<Seq<char>>)>, n: Seq<char>)
    ensures
        !conflicts_spec(e, n).losing_to.contains(n),
        !conflicts_spec(e, n).winning_over.contains(n),
{
}

} // verus!
