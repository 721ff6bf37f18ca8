//! The kinds of mods, and the operations on the list of installed mods.

use vstd::prelude::*;

use crate::conflict::{
    conflict_list_by_file, conflict_spec, enlist_files, enlisted, keeps, linked, lookup, names_with,
    views,
};
use crate::manifest::install_file::{file_specs, FileSpec, InstallFile};
use crate::manifest::mod_state::ModState;
use crate::manifest::{manifest_before, Manifest, ManifestView};
use crate::paths::{extension, path_extension};
use crate::text::{parse_unsigned, parse_usize, str_eq};
use crate::ui::list::{ModListBuilder, ModListFlags};

verus! {

/// How a mod is installed.
#[derive(Copy, Clone, Debug, PartialEq, Eq, Structural)]
pub enum ModKind {
    /// Files go into the game's `Data` directory.
    Data,
    /// An installer chooses the files, which then go into `Data`.
    FoMod,
    /// An executable and its library go into the game's root directory.
    Loader,
    /// A user-made mod, whose directory is scanned for its files.
    Custom,
}

impl ModKind {
    /// The text that names the kind.
    pub fn label(self) -> (r: &'static str)
        ensures
            self == ModKind::Data ==> r@ == "Data"@,
            self == ModKind::FoMod ==> r@ == "FoMod"@,
            self == ModKind::Loader ==> r@ == "Loader"@,
            self == ModKind::Custom ==> r@ == "Custom"@,
    {
        match self {
            ModKind::Data => "Data",
            ModKind::FoMod => "FoMod",
            ModKind::Loader => "Loader",
            ModKind::Custom => "Custom",
        }
    }
}


/// The mod list is in order: no mod comes before one placed ahead of it.
pub open spec fn sorted_mods(ms: Seq<ManifestView>) -> bool {
    forall|i: int, j: int| 0 <= i < j < ms.len() ==> !manifest_before(ms[j], ms[i])
}

/// Two mods take the same place in the order: same priority and name.
pub open spec fn same_place(a: ManifestView, b: ManifestView) -> bool {
    a.priority == b.priority && a.name == b.name
}

/// The mods of `ms` that take the place of `x`, in their order in `ms`.
pub open spec fn peers(ms: Seq<ManifestView>, x: ManifestView) -> Seq<ManifestView> {
    ms.filter(|m: ManifestView| same_place(m, x))
}

/// The first position of `r` whose mod does not come before `x`.
fn insert_position(r: &Vec<Manifest>, x: &Manifest) -> (k: usize)
    ensures
        k <= r@.len(),
        forall|i: int| 0 <= i < k ==> manifest_before(#[trigger] r@[i]@, x@),
        k < r@.len() ==> !manifest_before(r@[k as int]@, x@),
{
    let mut k: usize = 0;
    while k < r.len()
        invariant
            k <= r@.len(),
            forall|i: int| 0 <= i < k ==> manifest_before(#[trigger] r@[i]@, x@),
        decreases r.len() - k,
    {
        if !r[k].sorts_before(x) {
            return k;
        }
        k += 1;
    }
    k
}

/// The peers of `x` in `r` with `y` put at position `k`, where every mod
/// before `k` comes before `y`.
proof fn lemma_peers_insert(r: Seq<ManifestView>, k: int, y: ManifestView, x: ManifestView)
    requires
        0 <= k <= r.len(),
        forall|i: int| 0 <= i < k ==> manifest_before(#[trigger] r[i], y),
    ensures
        peers(r.insert(k, y), x) == if same_place(y, x) {
            seq![y] + peers(r, x)
        } else {
            peers(r, x)
        },
{
    let p = |m: ManifestView| same_place(m, x);
    let a = r.subrange(0, k);
    let b = r.subrange(k, r.len() as int);
    assert(r.insert(k, y) =~= a + (seq![y] + b));
    assert(r =~= a + b);
    Seq::filter_distributes_over_add(a, seq![y] + b, p);
    Seq::filter_distributes_over_add(seq![y], b, p);
    Seq::filter_distributes_over_add(a, b, p);
    assert(seq![y].filter(p) =~= if p(y) { seq![y] } else { Seq::empty() }) by {
        reveal_with_fuel(Seq::filter, 2);
    }
    if same_place(y, x) {
        assert forall|i: int| 0 <= i < a.len() implies !p(#[trigger] a[i]) by {
            assert(manifest_before(r[i], y));
            crate::manifest::lemma_manifest_order(r[i], y, y);
        }
        assert(a.filter(p) =~= Seq::<ManifestView>::empty()) by {
            if a.filter(p).len() > 0 {
                a.lemma_filter_pred(p, 0);
                let e = a.filter(p)[0];
                assert(a.filter(p).contains(e));
                a.lemma_filter_contains_rev(p, e);
                let idx = choose|idx: int| 0 <= idx < a.len() && a[idx] == e;
                assert(!p(a[idx]));
            }
        }
    }
}

/// Sorts the mod list by priority, then by name, keeping mods that take
/// the same place in the order they came in (a stable sort).
pub fn sort_mods(mods: Vec<Manifest>) -> (r: Vec<Manifest>)
    ensures
        sorted_mods(views(r@)),
        views(r@).to_multiset() == views(mods@).to_multiset(),
        forall|x: ManifestView| #[trigger] peers(views(r@), x) == peers(views(mods@), x),
{
    broadcast use vstd::seq_lib::group_to_multiset_ensures;

    let mut input = mods;
    let mut r: Vec<Manifest> = Vec::new();
    let ghost orig = views(input@);
    assert(views(r@) =~= Seq::<ManifestView>::empty());
    assert(views(r@).to_multiset().add(views(input@).to_multiset()) =~= orig.to_multiset()) by {
        broadcast use vstd::multiset::group_multiset_axioms;
    }
    assert forall|x: ManifestView| #[trigger] peers(views(r@), x) == peers(
        orig.subrange(views(input@).len() as int, orig.len() as int),
        x,
    ) by {
        assert(orig.subrange(views(input@).len() as int, orig.len() as int) =~= Seq::<ManifestView>::empty());
        assert(peers(views(r@), x) =~= Seq::<ManifestView>::empty());
    }
    while input.len() > 0
        invariant
            sorted_mods(views(r@)),
            views(r@).to_multiset().add(views(input@).to_multiset()) == orig.to_multiset(),
            views(input@) == orig.subrange(0, views(input@).len() as int),
            views(input@).len() <= orig.len(),
            forall|x: ManifestView| #[trigger] peers(views(r@), x) == peers(
                orig.subrange(views(input@).len() as int, orig.len() as int),
                x,
            ),
        decreases input.len(),
    {
        let ghost old_input = views(input@);
        let ghost old_r = views(r@);
        let x = input.pop().unwrap();
        assert(views(input@) =~= old_input.drop_last());
        assert(old_input =~= views(input@).push(x@));
        let k = insert_position(&r, &x);
        let ghost xv = x@;
        r.insert(k, x);
        assert(views(r@) =~= old_r.insert(k as int, xv));
        proof {
            let nr = views(r@);
            let n = views(input@).len() as int;
            assert(old_input == orig.subrange(0, n + 1));
            assert(old_input[n] == xv);
            assert(old_input[n] == orig[n]);
            assert(views(input@) =~= orig.subrange(0, n));
            assert(orig.subrange(n, orig.len() as int) =~= seq![xv] + orig.subrange(n + 1, orig.len() as int));
            assert forall|y: ManifestView| #[trigger] peers(nr, y) == peers(
                orig.subrange(n, orig.len() as int),
                y,
            ) by {
                lemma_peers_insert(old_r, k as int, xv, y);
                let p = |m: ManifestView| same_place(m, y);
                Seq::filter_distributes_over_add(seq![xv], orig.subrange(n + 1, orig.len() as int), p);
                assert(seq![xv].filter(p) =~= if p(xv) { seq![xv] } else { Seq::empty() }) by {
                    reveal_with_fuel(Seq::filter, 2);
                }
                assert(peers(old_r, y) == peers(orig.subrange(n + 1, orig.len() as int), y));
            }
            assert forall|i: int, j: int| 0 <= i < j < nr.len() implies !manifest_before(nr[j], nr[i]) by {
                if i < k && j == k {
                    assert(nr[i] == old_r[i]);
                    assert(nr[j] == xv);
                    crate::manifest::lemma_manifest_order(old_r[i], xv, xv);
                } else if i == k && j > k {
                    let y = old_r[j - 1];
                    assert(nr[i] == xv);
                    assert(nr[j] == y);
                    crate::manifest::lemma_manifest_order(y, xv, old_r[k as int]);
                    crate::manifest::lemma_manifest_order(old_r[k as int], xv, xv);
                    if j - 1 > k {
                        assert(!manifest_before(old_r[j - 1], old_r[k as int]));
                    }
                } else if i < k && j > k {
                    assert(nr[i] == old_r[i]);
                    assert(nr[j] == old_r[j - 1]);
                } else if j < k {
                    assert(nr[i] == old_r[i]);
                    assert(nr[j] == old_r[j]);
                } else {
                    assert(nr[i] == old_r[i - 1]);
                    assert(nr[j] == old_r[j - 1]);
                }
            }
            broadcast use vstd::multiset::group_multiset_axioms;
            vstd::seq_lib::to_multiset_insert(old_r, k as int, xv);
            vstd::seq_lib::to_multiset_build(views(input@), xv);
            assert(views(r@).to_multiset() == old_r.to_multiset().insert(xv));
            assert(old_input.to_multiset() == views(input@).to_multiset().insert(xv));
            assert(views(r@).to_multiset().add(views(input@).to_multiset()) =~= old_r.to_multiset().add(old_input.to_multiset()));
        }
    }
    assert(views(input@) =~= Seq::<ManifestView>::empty());
    assert(orig.subrange(0, orig.len() as int) =~= orig);
    assert(views(r@).to_multiset() =~= orig.to_multiset()) by {
        broadcast use vstd::multiset::group_multiset_axioms;
    }
    r
}


/// A file of mod `m` goes into the install plan of the list `ms`: it is
/// not conflicting, or `m` is the last of the mods installing it.
pub open spec fn keeps_in(m: ManifestView, ms: Seq<ManifestView>, d: Seq<char>) -> bool {
    match conflict_spec(ms, d) {
        Some(w) => w.len() > 0 && w.last() == m.name,
        None => true,
    }
}

/// The files mod `m` links into the game when the mod list is `ms`.
pub open spec fn plan_of(m: ManifestView, ms: Seq<ManifestView>) -> Seq<FileSpec> {
    m.files().filter(|f: FileSpec| keeps_in(m, ms, f.destination)).map_values(
        |f: FileSpec| linked(m, f),
    )
}

/// The files the mods `ms` (all of them, or only the enabled ones) link
/// into the game when the whole list is `all`, mod by mod.
pub open spec fn install_plan(ms: Seq<ManifestView>, all: Seq<ManifestView>, only_enabled: bool) -> Seq<FileSpec>
    decreases ms.len(),
{
    if ms.len() == 0 {
        Seq::empty()
    } else {
        install_plan(ms.drop_last(), all, only_enabled) + if !only_enabled || ms.last().enabled() {
            plan_of(ms.last(), all)
        } else {
            Seq::empty()
        }
    }
}

/// The list with every mod of non-negative priority enabled and every mod
/// of negative priority disabled: a priority below zero keeps a mod out.
pub open spec fn enable_eligible(ms: Seq<ManifestView>) -> Seq<ManifestView> {
    ms.map_values(
        |m: ManifestView|
            if m.priority >= 0 {
                ManifestView { mod_state: ModState::Enabled, ..m }
            } else {
                ManifestView { mod_state: ModState::Disabled, ..m }
            },
    )
}

/// The list with every mod in state `st`.
pub open spec fn with_state(ms: Seq<ManifestView>, st: ModState) -> Seq<ManifestView> {
    ms.map_values(|m: ManifestView| ManifestView { mod_state: st, ..m })
}

/// With a conflict list that agrees with the list's conflicts, a mod's
/// enlisted files are its plan.
pub proof fn lemma_enlisted_is_plan(
    m: ManifestView,
    ms: Seq<ManifestView>,
    cl: Seq<(Seq<char>, Seq<Seq<char>>)>,
)
    requires
        forall|f: Seq<char>| #[trigger] lookup(cl, f) == conflict_spec(ms, f),
    ensures
        enlisted(m, cl) == plan_of(m, ms),
{
    let p1 = |f: FileSpec| keeps(m, cl, f.destination);
    let p2 = |f: FileSpec| keeps_in(m, ms, f.destination);
    assert forall|f: FileSpec| #[trigger] p1(f) == p2(f) by {
        assert(lookup(cl, f.destination) == conflict_spec(ms, f.destination));
    }
    assert(p1 =~= p2);
}

/// Sets the state of the `i`-th mod.
fn set_state_at(mods: &mut Vec<Manifest>, i: usize, enabled: bool)
    requires
        i < old(mods)@.len(),
    ensures
        final(mods)@.len() == old(mods)@.len(),
        forall|j: int| 0 <= j < old(mods)@.len() && j != i ==> #[trigger] final(mods)@[j]@ == old(mods)@[j]@,
        final(mods)@[i as int]@ == (ManifestView {
            mod_state: if enabled { ModState::Enabled } else { ModState::Disabled },
            ..old(mods)@[i as int]@
        }),
{
    let mut m = mods.remove(i);
    if enabled {
        m.set_enabled();
    } else {
        m.set_disabled();
    }
    mods.insert(i, m);
}

/// The files that the mods of `mods` (all, or only the enabled ones) link
/// into the game.
fn collect_plan(mods: &Vec<Manifest>, only_enabled: bool) -> (r: Vec<InstallFile>)
    ensures
        file_specs(r@) == install_plan(views(mods@), views(mods@), only_enabled),
{
    let ghost ms = views(mods@);
    let cl = conflict_list_by_file(mods.as_slice());
    let mut r: Vec<InstallFile> = Vec::new();
    let mut i: usize = 0;
    assert(file_specs(r@) =~= Seq::<FileSpec>::empty());
    assert(ms.take(0) =~= Seq::<ManifestView>::empty());
    while i < mods.len()
        invariant
            i <= mods@.len(),
            ms == views(mods@),
            forall|f: Seq<char>| #[trigger] lookup(cl@, f) == conflict_spec(ms, f),
            file_specs(r@) == install_plan(ms.take(i as int), ms, only_enabled),
        decreases mods.len() - i,
    {
        let m = &mods[i];
        assert(ms[i as int] == m@);
        assert(ms.take(i + 1).drop_last() =~= ms.take(i as int));
        assert(ms.take(i + 1).last() == m@);
        if !only_enabled || m.is_enabled() {
            let mut part = enlist_files(m, &cl);
            proof {
                lemma_enlisted_is_plan(m@, ms, cl@);
            }
            let ghost before = r@;
            let ghost added = part@;
            r.append(&mut part);
            assert(file_specs(r@) =~= file_specs(before) + file_specs(added));
        } else {
            assert(install_plan(ms.take(i + 1), ms, only_enabled) =~= install_plan(ms.take(i as int), ms, only_enabled));
        }
        i += 1;
    }
    assert(ms.take(i as int) =~= ms);
    r
}

/// Enables the mod list: every mod of non-negative priority is enabled and
/// every mod of negative priority disabled; the files of the enabled ones
/// are planned with their conflicts resolved (the last mod of the list wins
/// a shared file). The answer is the files to link, source (relative to the
/// cache directory) to destination (relative to the game directory).
pub fn plan_enable(mods: &mut Vec<Manifest>) -> (r: Vec<InstallFile>)
    ensures
        file_specs(r@) == install_plan(
            enable_eligible(views(old(mods)@)),
            enable_eligible(views(old(mods)@)),
            true,
        ),
        views(final(mods)@) == enable_eligible(views(old(mods)@)),
{
    let ghost orig = views(mods@);
    let mut i: usize = 0;
    while i < mods.len()
        invariant
            i <= mods@.len(),
            mods@.len() == orig.len(),
            forall|j: int| 0 <= j < i ==> #[trigger] mods@[j]@ == enable_eligible(orig)[j],
            forall|j: int| i <= j < orig.len() ==> #[trigger] mods@[j]@ == orig[j],
        decreases mods.len() - i,
    {
        let eligible = mods[i].priority() >= 0;
        set_state_at(mods, i, eligible);
        i += 1;
    }
    assert(views(mods@) =~= enable_eligible(orig));
    collect_plan(mods, true)
}

/// Disables the mod list: the files that every mod (enabled or not) would
/// link, with their conflicts resolved among the currently enabled mods,
/// are planned for removal, and every mod is marked disabled.
pub fn plan_disable(mods: &mut Vec<Manifest>) -> (r: Vec<InstallFile>)
    ensures
        file_specs(r@) == install_plan(views(old(mods)@), views(old(mods)@), false),
        views(final(mods)@) == with_state(views(old(mods)@), ModState::Disabled),
{
    let ghost orig = views(mods@);
    let r = collect_plan(mods, false);
    let mut k: usize = 0;
    while k < mods.len()
        invariant
            k <= mods@.len(),
            mods@.len() == orig.len(),
            forall|j: int| 0 <= j < k ==> #[trigger] mods@[j]@ == with_state(orig, ModState::Disabled)[j],
            forall|j: int| k <= j < orig.len() ==> #[trigger] mods@[j]@ == orig[j],
        decreases mods.len() - k,
    {
        set_state_at(mods, k, false);
        k += 1;
    }
    assert(views(mods@) =~= with_state(orig, ModState::Disabled));
    r
}

/// The files a re-enable unlinks from the game and then links again.
#[derive(Debug)]
pub struct LinkPlan {
    pub unlink: Vec<InstallFile>,
    pub link: Vec<InstallFile>,
}

/// The enabled mods of a list, each marked disabled.
pub open spec fn enabled_part(ms: Seq<ManifestView>) -> Seq<ManifestView> {
    with_state(ms.filter(|m: ManifestView| m.enabled()), ModState::Disabled)
}

/// The files a re-enable of the mods `ms` unlinks: those every mod of the
/// list would link.
pub open spec fn unlink_plan(ms: Seq<ManifestView>) -> Seq<FileSpec> {
    install_plan(ms, ms, false)
}

/// The files a re-enable of the mods `ms` links again: the plan of enabling
/// the mods that were enabled.
pub open spec fn relink_plan(ms: Seq<ManifestView>) -> Seq<FileSpec> {
    install_plan(enable_eligible(enabled_part(ms)), enable_eligible(enabled_part(ms)), true)
}

/// The list with the `i`-th mod in state `st`.
pub open spec fn state_at(ms: Seq<ManifestView>, i: int, st: ModState) -> Seq<ManifestView> {
    ms.update(i, ManifestView { mod_state: st, ..ms[i] })
}

/// Copies of the first `n` mods.
fn copies(mods: &Vec<Manifest>, n: usize) -> (r: Vec<Manifest>)
    requires
        n <= mods@.len(),
    ensures
        views(r@) == views(mods@).take(n as int),
{
    let mut r: Vec<Manifest> = Vec::new();
    let mut i: usize = 0;
    while i < n
        invariant
            i <= n <= mods@.len(),
            views(r@) == views(mods@).take(i as int),
        decreases n - i,
    {
        let ghost before = views(r@);
        r.push(mods[i].duplicate());
        assert(views(r@) =~= before.push(mods@[i as int]@));
        assert(views(mods@).take(i + 1) =~= views(mods@).take(i as int).push(mods@[i as int]@));
        i += 1;
    }
    r
}

/// Copies of the enabled mods, marked disabled.
fn enabled_copies(mods: &Vec<Manifest>) -> (r: Vec<Manifest>)
    ensures
        views(r@) == enabled_part(views(mods@)),
{
    let ghost ms = views(mods@);
    let ghost p = |m: ManifestView| m.enabled();
    let ghost f = |m: ManifestView| ManifestView { mod_state: ModState::Disabled, ..m };
    let mut r: Vec<Manifest> = Vec::new();
    let mut i: usize = 0;
    assert(ms.take(0) =~= Seq::<ManifestView>::empty());
    assert(views(r@) =~= with_state(ms.take(0).filter(p), ModState::Disabled));
    while i < mods.len()
        invariant
            i <= mods@.len(),
            ms == views(mods@),
            p == (|m: ManifestView| m.enabled()),
            f == (|m: ManifestView| ManifestView { mod_state: ModState::Disabled, ..m }),
            views(r@) == ms.take(i as int).filter(p).map_values(f),
        decreases mods.len() - i,
    {
        let m = &mods[i];
        assert(ms[i as int] == m@);
        let ghost t = ms.take(i + 1);
        assert(t.drop_last() =~= ms.take(i as int));
        assert(t.last() == m@);
        proof {
            reveal_with_fuel(Seq::filter, 1);
        }
        if m.is_enabled() {
            let mut c = m.duplicate();
            c.set_disabled();
            let ghost before = views(r@);
            r.push(c);
            assert(views(r@) =~= before.push(f(m@)));
            assert(t.filter(p).map_values(f) =~= before.push(f(m@)));
        } else {
            assert(t.filter(p) == ms.take(i as int).filter(p));
        }
        i += 1;
    }
    assert(ms.take(i as int) =~= ms);
    assert(views(r@) =~= enabled_part(ms));
    r
}

/// Re-enables the first `n` mods: every file they would link is unlinked,
/// and the mods that were enabled are enabled again, with their conflicts
/// resolved among themselves. The mods' states are left as they were.
pub fn plan_re_enable(mods: &Vec<Manifest>, n: usize) -> (r: LinkPlan)
    requires
        n <= mods@.len(),
    ensures
        file_specs(r.unlink@) == unlink_plan(views(mods@).take(n as int)),
        file_specs(r.link@) == relink_plan(views(mods@).take(n as int)),
{
    let mut part = copies(mods, n);
    let mut enabled = enabled_copies(&part);
    let unlink = plan_disable(&mut part);
    let link = plan_enable(&mut enabled);
    LinkPlan { unlink, link }
}

/// Disables the `idx`-th mod and re-enables the list, so that each shared
/// file goes to the last enabled mod holding it; `None` when there is no
/// such mod.
pub fn disable_mod(mods: &mut Vec<Manifest>, idx: usize) -> (r: Option<LinkPlan>)
    ensures
        idx >= old(mods)@.len() ==> r is None && final(mods)@ == old(mods)@,
        idx < old(mods)@.len() ==> (r matches Some(p) && views(final(mods)@) == state_at(
            views(old(mods)@),
            idx as int,
            ModState::Disabled,
        ) && file_specs(p.unlink@) == unlink_plan(views(final(mods)@))
            && file_specs(p.link@) == relink_plan(views(final(mods)@))),
{
    if idx >= mods.len() {
        return None;
    }
    let ghost before = views(mods@);
    set_state_at(mods, idx, false);
    assert(views(mods@) =~= state_at(before, idx as int, ModState::Disabled));
    let n = mods.len();
    let plan = plan_re_enable(mods, n);
    assert(views(mods@).take(n as int) =~= views(mods@));
    Some(plan)
}

/// The state `enable_mod` gives a mod: enabled, unless its priority is
/// negative, which keeps it disabled.
pub open spec fn enabled_state(m: ManifestView) -> ModState {
    if m.priority >= 0 {
        ModState::Enabled
    } else {
        ModState::Disabled
    }
}

/// Enables the `idx`-th mod (a mod of negative priority stays disabled)
/// and re-enables the list, so that each shared file goes to the last
/// enabled mod holding it; a mod that is already enabled is first
/// disabled. The plans come in the order they are carried out; `None` when
/// there is no such mod.
pub fn enable_mod(mods: &mut Vec<Manifest>, idx: usize) -> (r: Option<Vec<LinkPlan>>)
    ensures
        idx >= old(mods)@.len() ==> r is None && final(mods)@ == old(mods)@,
        idx < old(mods)@.len() ==> (r matches Some(plans) && views(final(mods)@) == state_at(
            views(old(mods)@),
            idx as int,
            enabled_state(old(mods)@[idx as int]@),
        ) && plans@.len() == (if old(mods)@[idx as int]@.enabled() {
            2int
        } else {
            1int
        }) && file_specs(plans@.last().unlink@) == unlink_plan(views(final(mods)@))
            && file_specs(plans@.last().link@) == relink_plan(views(final(mods)@))
            && (old(mods)@[idx as int]@.enabled() ==> file_specs(plans@[0].unlink@) == unlink_plan(
            state_at(views(old(mods)@), idx as int, ModState::Disabled),
        ) && file_specs(plans@[0].link@) == relink_plan(
            state_at(views(old(mods)@), idx as int, ModState::Disabled),
        ))),
{
    if idx >= mods.len() {
        return None;
    }
    let ghost orig = views(mods@);
    let mut plans: Vec<LinkPlan> = Vec::new();
    if mods[idx].is_enabled() {
        assert(orig[idx as int] == mods@[idx as int]@);
        match disable_mod(mods, idx) {
            Some(p) => plans.push(p),
            None => {},
        }
    }
    let ghost mid = views(mods@);
    assert(mid.len() == orig.len());
    assert(forall|j: int| 0 <= j < orig.len() && j != idx ==> #[trigger] mid[j] == orig[j]);
    assert(mid[idx as int] == (ManifestView { mod_state: mid[idx as int].mod_state, ..orig[idx as int] }));
    let eligible = mods[idx].priority() >= 0;
    set_state_at(mods, idx, eligible);
    assert forall|j: int| 0 <= j < orig.len() implies #[trigger] views(mods@)[j] == state_at(
        orig,
        idx as int,
        enabled_state(orig[idx as int]),
    )[j] by {
        if j != idx {
            assert(views(mods@)[j] == mods@[j]@);
            assert(mid[j] == orig[j]);
        }
    }
    assert(views(mods@) =~= state_at(orig, idx as int, enabled_state(orig[idx as int])));
    let n = mods.len();
    plans.push(plan_re_enable(mods, n));
    assert(views(mods@).take(n as int) =~= views(mods@));
    Some(plans)
}

/// The positions of the enabled mods, in order.
pub fn enabled_indices(mods: &[Manifest]) -> (r: Vec<usize>)
    ensures
        forall|k: int| 0 <= k < r@.len() ==> #[trigger] r@[k] < mods@.len() && mods@[r@[k] as int]@.enabled(),
        forall|j: int| 0 <= j < mods@.len() && (#[trigger] mods@[j])@.enabled() ==> r@.contains(j as usize),
        forall|a: int, b: int| 0 <= a < b < r@.len() ==> r@[a] < r@[b],
{
    let mut r: Vec<usize> = Vec::new();
    let mut i: usize = 0;
    while i < mods.len()
        invariant
            i <= mods@.len(),
            forall|k: int| 0 <= k < r@.len() ==> #[trigger] r@[k] < i && mods@[r@[k] as int]@.enabled(),
            forall|j: int| 0 <= j < i && (#[trigger] mods@[j])@.enabled() ==> r@.contains(j as usize),
            forall|a: int, b: int| 0 <= a < b < r@.len() ==> r@[a] < r@[b],
        decreases mods.len() - i,
    {
        if mods[i].is_enabled() {
            let ghost before = r@;
            r.push(i);
            proof {
                assert forall|j: int| 0 <= j < i + 1 && (#[trigger] mods@[j])@.enabled() implies r@.contains(j as usize) by {
                    if j == i {
                        assert(r@[before.len() as int] == i);
                    } else {
                        let k = choose|k: int| 0 <= k < before.len() && before[k] == j as usize;
                        assert(r@[k] == j as usize);
                    }
                }
            }
        }
        i += 1;
    }
    r
}

/// The first position at or after `i` of a mod named `name`.
pub open spec fn mod_by_name_from(ms: Seq<ManifestView>, name: Seq<char>, i: int) -> Option<int>
    decreases ms.len() - i,
{
    if i < 0 || i >= ms.len() {
        None
    } else if ms[i].name == name {
        Some(i)
    } else {
        mod_by_name_from(ms, name, i + 1)
    }
}

/// What a mod argument refers to: a number is taken as a position in the
/// list (whether or not there is a mod there); otherwise the first mod of
/// that name.
pub open spec fn find_mod_spec(ms: Seq<ManifestView>, name: Seq<char>) -> Option<int> {
    match parse_unsigned(name, usize::MAX as nat) {
        Some(n) => Some(n as int),
        None => mod_by_name_from(ms, name, 0),
    }
}

/// The position of the first mod named `name`.
pub fn find_mod_by_name(mods: &[Manifest], name: &str) -> (r: Option<usize>)
    ensures
        r matches Some(i) ==> mod_by_name_from(views(mods@), name@, 0) == Some(i as int),
        r is None ==> mod_by_name_from(views(mods@), name@, 0) is None,
{
    let ghost ms = views(mods@);
    let mut i: usize = 0;
    while i < mods.len()
        invariant
            i <= mods@.len(),
            ms == views(mods@),
            mod_by_name_from(ms, name@, 0) == mod_by_name_from(ms, name@, i as int),
        decreases mods.len() - i,
    {
        assert(ms[i as int] == mods@[i as int]@);
        if str_eq(mods[i].name(), name) {
            return Some(i);
        }
        i += 1;
    }
    None
}

/// The mod a command-line argument refers to: its position when it is a
/// number, else the first mod of that name.
pub fn find_mod(mods: &[Manifest], mod_name: &str) -> (r: Option<usize>)
    ensures
        r matches Some(i) ==> find_mod_spec(views(mods@), mod_name@) == Some(i as int),
        r is None ==> find_mod_spec(views(mods@), mod_name@) is None,
{
    match parse_usize(mod_name) {
        Some(n) => Some(n),
        None => find_mod_by_name(mods, mod_name),
    }
}

/// The columns of the mod list the selection prompts show: everything but
/// the notes and the header line, coloured.
pub open spec fn default_list_flags() -> ModListFlags {
    ModListFlags {
        index: true,
        priority: true,
        status: true,
        version: true,
        nexus_id: true,
        mod_type: true,
        tags: true,
        notes: false,
        colour: true,
        headers: false,
    }
}

/// Looking mods up in a mod list.
pub trait FindInModList {
    /// The mods of the list.
    spec fn mods_view(&self) -> Seq<ManifestView>;

    /// The mod a command-line argument refers to (see `find_mod_spec`).
    fn find_mod(&self, mod_name: &str) -> (r: Option<usize>)
        ensures
            r matches Some(i) ==> find_mod_spec(self.mods_view(), mod_name@) == Some(i as int),
            r is None ==> find_mod_spec(self.mods_view(), mod_name@) is None,
    ;

    /// The position of the first mod named `name`.
    fn find_mod_by_name(&self, name: &str) -> (r: Option<usize>)
        ensures
            r matches Some(i) ==> mod_by_name_from(self.mods_view(), name@, 0) == Some(i as int),
            r is None ==> mod_by_name_from(self.mods_view(), name@, 0) is None,
    ;

    /// The mod list as the selection prompts show it.
    fn default_list_builder<'a>(&'a self) -> (r: ModListBuilder<'a>)
        ensures
            views(r.list_view()) == self.mods_view(),
            r.dmods_view() == Seq::<crate::dmodman::DmodView>::empty(),
            r.flags() == default_list_flags(),
    ;
}

impl FindInModList for Vec<Manifest> {
    open spec fn mods_view(&self) -> Seq<ManifestView> {
        views(self@)
    }

    fn find_mod(&self, mod_name: &str) -> (r: Option<usize>) {
        find_mod(self.as_slice(), mod_name)
    }

    fn find_mod_by_name(&self, name: &str) -> (r: Option<usize>) {
        find_mod_by_name(self.as_slice(), name)
    }

    fn default_list_builder<'a>(&'a self) -> (r: ModListBuilder<'a>) {
        ModListBuilder::new(self.as_slice()).with_index().with_priority().with_status().with_version().with_nexus_id().with_mod_type().with_tags().with_colour()
    }
}

/// The kind of an extracted archive, from the paths (relative to its
/// directory) found in it: an installer when both installer files are at
/// their place, a loader when an executable lies within three levels, and
/// a data mod otherwise.
pub open spec fn kind_spec(shallow: Seq<Seq<char>>, deep: Seq<Seq<char>>) -> ModKind {
    if shallow.contains("fomod/info.xml"@) && shallow.contains("fomod/moduleconfig.xml"@) {
        ModKind::FoMod
    } else if exists|j: int| 0 <= j < deep.len() && path_extension(#[trigger] deep[j]) == Some("exe"@) {
        ModKind::Loader
    } else {
        ModKind::Data
    }
}

impl ModKind {
    /// The kind of an extracted archive, given the paths of its entries
    /// (relative to its directory) up to two levels deep (`shallow`) and up
    /// to three levels deep (`deep`).
    pub fn detect_mod_type(shallow: &Vec<String>, deep: &Vec<String>) -> (k: ModKind)
        ensures
            k == kind_spec(crate::text::strs(shallow@), crate::text::strs(deep@)),
            k == ModKind::FoMod ==> crate::text::strs(shallow@).contains("fomod/info.xml"@)
                && crate::text::strs(shallow@).contains("fomod/moduleconfig.xml"@),
            k == ModKind::Loader ==> exists|j: int|
                0 <= j < deep@.len() && path_extension(#[trigger] deep@[j]@) == Some("exe"@),
            k != ModKind::Custom,
    {
        proof {
            lemma_mod_kind(crate::text::strs(shallow@), crate::text::strs(deep@));
        }
        proof {
            reveal_strlit("fomod/info.xml");
            reveal_strlit("fomod/moduleconfig.xml");
            reveal_strlit("exe");
            crate::text::lemma_index_of(crate::text::strs(shallow@), "fomod/info.xml"@);
            crate::text::lemma_index_of(crate::text::strs(shallow@), "fomod/moduleconfig.xml"@);
        }
        let info = crate::text::position_of(shallow, "fomod/info.xml").is_some();
        let config = crate::text::position_of(shallow, "fomod/moduleconfig.xml").is_some();
        if info && config {
            return ModKind::FoMod;
        }
        let ghost ds = crate::text::strs(deep@);
        let mut j: usize = 0;
        while j < deep.len()
            invariant
                j <= deep@.len(),
                ds == crate::text::strs(deep@),
                !(crate::text::strs(shallow@).contains("fomod/info.xml"@) && crate::text::strs(
                    shallow@,
                ).contains("fomod/moduleconfig.xml"@)),
                forall|k: int| 0 <= k < j ==> path_extension(#[trigger] ds[k]) != Some("exe"@),
            decreases deep.len() - j,
        {
            assert(ds[j as int] == deep@[j as int]@);
            match extension(deep[j].as_str()) {
                Some(e) => {
                    if str_eq(e.as_str(), "exe") {
                        assert(path_extension(ds[j as int]) == Some("exe"@));
                        return ModKind::Loader;
                    }
                },
                None => {},
            }
            j += 1;
        }
        ModKind::Data
    }
}


/// What the kind of an extracted archive tells of its entries: an
/// installer has both installer files at their place; a loader has an
/// executable; an archive without the installer's configuration file and
/// without an executable is a data mod; the kind is never a custom mod.
pub proof fn lemma_mod_kind(shallow: Seq<Seq<char>>, deep: Seq<Seq<char>>)
    ensures
        kind_spec(shallow, deep) == ModKind::FoMod ==> shallow.contains("fomod/info.xml"@) && shallow.contains(
            "fomod/moduleconfig.xml"@,
        ),
        shallow.contains("fomod/info.xml"@) && shallow.contains("fomod/moduleconfig.xml"@) ==> kind_spec(
            shallow,
            deep,
        ) == ModKind::FoMod,
        kind_spec(shallow, deep) == ModKind::Loader ==> exists|j: int|
            0 <= j < deep.len() && path_extension(#[trigger] deep[j]) == Some("exe"@),
        !shallow.contains("fomod/moduleconfig.xml"@) && (forall|j: int|
            0 <= j < deep.len() ==> path_extension(#[trigger] deep[j]) != Some("exe"@)) ==> kind_spec(shallow, deep)
            == ModKind::Data,
        kind_spec(shallow, deep) != ModKind::Custom,
{
}

/// When every mod of the list is enabled, planning only the enabled mods
/// and planning all of them agree.
pub proof fn lemma_plan_all_enabled(ms: Seq<ManifestView>, all: Seq<ManifestView>)
    requires
        forall|k: int| 0 <= k < ms.len() ==> (#[trigger] ms[k]).enabled(),
    ensures
        install_plan(ms, all, true) == install_plan(ms, all, false),
    decreases ms.len(),
{
    if ms.len() > 0 {
        let d = ms.drop_last();
        assert forall|k: int| 0 <= k < d.len() implies (#[trigger] d[k]).enabled() by {
            assert(d[k] == ms[k]);
        }
        lemma_plan_all_enabled(d, all);
        assert(ms.last().enabled());
    }
}

/// Disabling the list right after enabling it removes exactly the files
/// that enabling linked, when no mod has a negative priority.
pub proof fn lemma_disable_undoes_enable(ms: Seq<ManifestView>)
    requires
        forall|k: int| 0 <= k < ms.len() ==> (#[trigger] ms[k]).priority >= 0,
    ensures
        install_plan(enable_eligible(ms), enable_eligible(ms), false) == install_plan(
            enable_eligible(ms),
            enable_eligible(ms),
            true,
        ),
{
    let e = enable_eligible(ms);
    assert forall|k: int| 0 <= k < e.len() implies (#[trigger] e[k]).enabled() by {
        assert(ms[k].priority >= 0);
    }
    lemma_plan_all_enabled(e, e);
}

/// Every file planned for the enabled mods of `ms` is also planned when
/// all the mods of `ms` are.
pub proof fn lemma_enabled_plan_within(ms: Seq<ManifestView>, all: Seq<ManifestView>, f: FileSpec)
    requires
        install_plan(ms, all, true).contains(f),
    ensures
        install_plan(ms, all, false).contains(f),
    decreases ms.len(),
{
    if ms.len() > 0 {
        let d = ms.drop_last();
        let a = install_plan(d, all, true);
        let b = if ms.last().enabled() { plan_of(ms.last(), all) } else { Seq::empty() };
        let i = choose|i: int| 0 <= i < install_plan(ms, all, true).len() && install_plan(ms, all, true)[i] == f;
        if i < a.len() {
            assert(a[i] == f);
            lemma_enabled_plan_within(d, all, f);
            let j = choose|j: int| 0 <= j < install_plan(d, all, false).len() && install_plan(d, all, false)[j] == f;
            assert(install_plan(ms, all, false)[j] == f);
        } else {
            assert(b[i - a.len()] == f);
            assert(install_plan(ms, all, false)[install_plan(d, all, false).len() + i - a.len()] == f);
        }
    }
}

/// Disabling the list right after enabling it removes every file that
/// enabling linked, whatever the priorities.
pub proof fn lemma_disable_covers_enable(ms: Seq<ManifestView>, f: FileSpec)
    requires
        install_plan(enable_eligible(ms), enable_eligible(ms), true).contains(f),
    ensures
        install_plan(enable_eligible(ms), enable_eligible(ms), false).contains(f),
{
    lemma_enabled_plan_within(enable_eligible(ms), enable_eligible(ms), f);
}


/// No two files of `s` go to the same destination.
pub open spec fn dests_distinct(s: Seq<FileSpec>) -> bool {
    forall|a: int, b: int| 0 <= a < b < s.len() ==> s[a].destination != s[b].destination
}

/// The mods of `ms` have distinct names.
pub open spec fn names_distinct(ms: Seq<ManifestView>) -> bool {
    forall|a: int, b: int| 0 <= a < b < ms.len() ==> ms[a].name != ms[b].name
}

/// No mod of `ms` has two files for one destination.
pub open spec fn own_dests_distinct(ms: Seq<ManifestView>) -> bool {
    forall|k: int| 0 <= k < ms.len() ==> (#[trigger] ms[k]).dests().no_duplicates()
}

/// A filtered list of files keeps distinct destinations distinct.
proof fn lemma_filter_dests_distinct(s: Seq<FileSpec>, p: spec_fn(FileSpec) -> bool)
    requires
        dests_distinct(s),
    ensures
        dests_distinct(s.filter(p)),
    decreases s.len(),
{
    reveal(Seq::filter);
    if s.len() > 0 {
        let t = s.drop_last();
        lemma_filter_dests_distinct(t, p);
        let f = t.filter(p);
        if p(s.last()) {
            assert forall|a: int, b: int| 0 <= a < b < f.push(s.last()).len() implies f.push(
                s.last(),
            )[a].destination != f.push(s.last())[b].destination by {
                if b == f.len() {
                    assert(f.contains(f[a]));
                    t.lemma_filter_contains_rev(p, f[a]);
                    let i = choose|i: int| 0 <= i < t.len() && t[i] == f[a];
                    assert(s[i] == t[i]);
                }
            }
        }
    }
}

/// The files a mod's plan links keep the mod's distinct destinations
/// distinct.
proof fn lemma_plan_of_distinct(m: ManifestView, all: Seq<ManifestView>)
    requires
        m.dests().no_duplicates(),
    ensures
        dests_distinct(plan_of(m, all)),
{
    let fs = m.files();
    assert forall|a: int, b: int| 0 <= a < b < fs.len() implies fs[a].destination != fs[b].destination by {
        assert(m.dests()[a] == fs[a].destination);
        assert(m.dests()[b] == fs[b].destination);
    }
    let p = |f: FileSpec| keeps_in(m, all, f.destination);
    lemma_filter_dests_distinct(fs, p);
}

/// What a mod's plan links: files of the mod whose destination it keeps.
proof fn lemma_plan_of_origin(m: ManifestView, all: Seq<ManifestView>, t: int)
    requires
        0 <= t < plan_of(m, all).len(),
    ensures
        m.dests().contains(plan_of(m, all)[t].destination),
        keeps_in(m, all, plan_of(m, all)[t].destination),
{
    let fs = m.files();
    let p = |f: FileSpec| keeps_in(m, all, f.destination);
    let kept = fs.filter(p);
    fs.lemma_filter_pred(p, t);
    assert(kept.contains(kept[t]));
    fs.lemma_filter_contains_rev(p, kept[t]);
    let i = choose|i: int| 0 <= i < fs.len() && fs[i] == kept[t];
    assert(m.dests()[i] == fs[i].destination);
    assert(plan_of(m, all)[t].destination == kept[t].destination);
}

/// Every link of a plan for the first `n` mods comes from an enabled mod
/// among them that has the destination and keeps it.
proof fn lemma_plan_origin(all: Seq<ManifestView>, n: int, j: int)
    requires
        0 <= n <= all.len(),
        0 <= j < install_plan(all.take(n), all, true).len(),
    ensures
        exists|k: int|
            0 <= k < n && all[k].enabled() && #[trigger] all[k].dests().contains(
                install_plan(all.take(n), all, true)[j].destination,
            ) && keeps_in(all[k], all, install_plan(all.take(n), all, true)[j].destination),
    decreases n,
{
    let ms = all.take(n);
    assert(ms.drop_last() =~= all.take(n - 1));
    let prev = install_plan(all.take(n - 1), all, true);
    let d = install_plan(ms, all, true)[j].destination;
    if j < prev.len() {
        lemma_plan_origin(all, n - 1, j);
        assert(install_plan(ms, all, true)[j] == prev[j]);
        let k = choose|k: int|
            0 <= k < n - 1 && all[k].enabled() && #[trigger] all[k].dests().contains(prev[j].destination)
                && keeps_in(all[k], all, prev[j].destination);
        assert(all[k].dests().contains(d));
    } else {
        assert(ms.last() == all[n - 1]);
        assert(all[n - 1].enabled());
        lemma_plan_of_origin(all[n - 1], all, j - prev.len());
        assert(install_plan(ms, all, true)[j] == plan_of(all[n - 1], all)[j - prev.len()]);
        assert(all[n - 1].dests().contains(d));
    }
}

/// An enabled mod with a file going to `f` gives `f` a name.
proof fn lemma_names_with_one(ms: Seq<ManifestView>, f: Seq<char>, i: int)
    requires
        0 <= i < ms.len(),
        ms[i].enabled(),
        ms[i].dests().contains(f),
    ensures
        names_with(ms, f).len() >= 1,
    decreases ms.len(),
{
    if i == ms.len() - 1 {
        crate::conflict::lemma_count_of_positive(ms.last().dests(), f);
    } else {
        assert(ms.drop_last()[i] == ms[i]);
        lemma_names_with_one(ms.drop_last(), f, i);
        crate::conflict::lemma_count_of_positive(ms.last().dests(), f);
    }
}

/// Two enabled mods that both have `f` give `f` at least two names.
proof fn lemma_names_with_two(ms: Seq<ManifestView>, f: Seq<char>, i: int, k: int)
    requires
        0 <= i < k < ms.len(),
        ms[i].enabled(),
        ms[k].enabled(),
        ms[i].dests().contains(f),
        ms[k].dests().contains(f),
    ensures
        names_with(ms, f).len() >= 2,
    decreases ms.len(),
{
    assert(ms.drop_last()[i] == ms[i]);
    if k == ms.len() - 1 {
        crate::conflict::lemma_count_of_positive(ms.last().dests(), f);
        lemma_names_with_one(ms.drop_last(), f, i);
    } else {
        assert(ms.drop_last()[k] == ms[k]);
        lemma_names_with_two(ms.drop_last(), f, i, k);
        crate::conflict::lemma_count_of_positive(ms.last().dests(), f);
    }
}

/// Two different enabled mods of a list with distinct names cannot both
/// keep a destination they both have.
proof fn lemma_one_keeper(all: Seq<ManifestView>, d: Seq<char>, i: int, k: int)
    requires
        names_distinct(all),
        0 <= i < k < all.len(),
        all[i].enabled(),
        all[k].enabled(),
        all[i].dests().contains(d),
        all[k].dests().contains(d),
    ensures
        !(keeps_in(all[i], all, d) && keeps_in(all[k], all, d)),
{
    lemma_names_with_two(all, d, i, k);
    assert(crate::conflict::enabled_has(all, d));
    assert(crate::conflict::is_conflict(all, d));
}

/// The plan for the first `n` mods links each destination at most once.
proof fn lemma_plan_distinct_upto(all: Seq<ManifestView>, n: int)
    requires
        0 <= n <= all.len(),
        names_distinct(all),
        own_dests_distinct(all),
    ensures
        dests_distinct(install_plan(all.take(n), all, true)),
    decreases n,
{
    if n > 0 {
        let ms = all.take(n);
        assert(ms.drop_last() =~= all.take(n - 1));
        assert(ms.last() == all[n - 1]);
        lemma_plan_distinct_upto(all, n - 1);
        let prev = install_plan(all.take(n - 1), all, true);
        if all[n - 1].enabled() {
            let part = plan_of(all[n - 1], all);
            assert(all[n - 1].dests().no_duplicates());
            lemma_plan_of_distinct(all[n - 1], all);
            let whole = install_plan(ms, all, true);
            assert(whole == prev + part);
            assert forall|a: int, b: int| 0 <= a < b < whole.len() implies whole[a].destination
                != whole[b].destination by {
                if a < prev.len() && b >= prev.len() {
                    if whole[a].destination == whole[b].destination {
                        let d = whole[a].destination;
                        lemma_plan_origin(all, n - 1, a);
                        let k = choose|k: int|
                            0 <= k < n - 1 && all[k].enabled() && #[trigger] all[k].dests().contains(
                                prev[a].destination,
                            ) && keeps_in(all[k], all, prev[a].destination);
                        lemma_plan_of_origin(all[n - 1], all, b - prev.len());
                        assert(part[b - prev.len()] == whole[b]);
                        lemma_one_keeper(all, d, k, n - 1);
                    }
                } else if a >= prev.len() {
                    assert(whole[a] == part[a - prev.len()]);
                    assert(whole[b] == part[b - prev.len()]);
                } else {
                    assert(whole[a] == prev[a]);
                    assert(whole[b] == prev[b]);
                }
            }
        } else {
            assert(install_plan(ms, all, true) =~= prev);
        }
    }
}

/// Linking a mod list links each destination at most once, when the mods
/// have distinct names and no mod has two files for one destination: of
/// mods that share a file, only one links it.
pub proof fn lemma_plan_links_once(ms: Seq<ManifestView>)
    requires
        names_distinct(ms),
        own_dests_distinct(ms),
    ensures
        dests_distinct(install_plan(ms, ms, true)),
{
    assert(ms.take(ms.len() as int) =~= ms);
    lemma_plan_distinct_upto(ms, ms.len() as int);
}

/// Enabling every mod links each destination at most once, when the mods
/// have distinct names and no mod has two files for one destination.
pub proof fn lemma_enable_links_once(ms: Seq<ManifestView>)
    requires
        names_distinct(ms),
        own_dests_distinct(ms),
    ensures
        dests_distinct(install_plan(enable_eligible(ms), enable_eligible(ms), true)),
{
    let e = enable_eligible(ms);
    assert forall|k: int| 0 <= k < e.len() implies (#[trigger] e[k]).name == ms[k].name && e[k].dests()
        == ms[k].dests() by {
        assert(e[k].internal == ms[k].internal);
    }
    assert forall|k: int| 0 <= k < e.len() implies (#[trigger] e[k]).dests().no_duplicates() by {
        assert(ms[k].dests().no_duplicates());
    }
    lemma_plan_links_once(e);
}

/// A file a mod's plan keeps is in the plan of every list that holds the
/// mod, enabled, among its first `n` mods.
proof fn lemma_plan_contains(all: Seq<ManifestView>, n: int, k: int, x: FileSpec)
    requires
        0 <= k < n <= all.len(),
        all[k].enabled(),
        plan_of(all[k], all).contains(x),
    ensures
        install_plan(all.take(n), all, true).contains(x),
    decreases n,
{
    let ms = all.take(n);
    assert(ms.drop_last() =~= all.take(n - 1));
    assert(ms.last() == all[n - 1]);
    let prev = install_plan(all.take(n - 1), all, true);
    let whole = install_plan(ms, all, true);
    if k == n - 1 {
        let part = plan_of(all[k], all);
        assert(whole == prev + part);
        let t = choose|t: int| 0 <= t < part.len() && part[t] == x;
        assert(whole[prev.len() + t] == x);
    } else {
        lemma_plan_contains(all, n - 1, k, x);
        let t = choose|t: int| 0 <= t < prev.len() && prev[t] == x;
        assert(whole[t] == prev[t]);
    }
}

/// Enabling the mod list links every destination whose last holder in the
/// list can be enabled: the mod that comes last among those that have a
/// file wins it, and its file is linked.
pub proof fn lemma_enable_links_winner(ms: Seq<ManifestView>, k: int, d: Seq<char>)
    requires
        0 <= k < ms.len(),
        ms[k].priority >= 0,
        ms[k].dests().contains(d),
        forall|j: int| k < j < ms.len() ==> !(#[trigger] ms[j].dests()).contains(d),
    ensures
        exists|j: int|
            0 <= j < install_plan(enable_eligible(ms), enable_eligible(ms), true).len()
                && #[trigger] install_plan(enable_eligible(ms), enable_eligible(ms), true)[j].destination
                == d,
{
    let e = enable_eligible(ms);
    assert forall|j: int| 0 <= j < e.len() implies (#[trigger] e[j]).dests() == ms[j].dests() by {
        assert(e[j].internal == ms[j].internal);
    }
    assert(e[k].enabled());
    assert forall|j: int| k < j < e.len() implies !(#[trigger] e[j].dests()).contains(d) by {
        assert(e[j].dests() == ms[j].dests());
    }
    assert(e[k].dests().contains(d));
    crate::conflict::lemma_winner_is_last_holder(e, d, k);
    assert(keeps_in(e[k], e, d));
    let fs = e[k].files();
    let i = choose|i: int| 0 <= i < e[k].dests().len() && e[k].dests()[i] == d;
    assert(fs[i].destination == d);
    let p = |f: FileSpec| keeps_in(e[k], e, f.destination);
    fs.lemma_filter_contains(p, i);
    let kept = fs.filter(p);
    let t = choose|t: int| 0 <= t < kept.len() && kept[t] == fs[i];
    let x = linked(e[k], fs[i]);
    assert(plan_of(e[k], e)[t] == x);
    assert(plan_of(e[k], e).contains(x));
    lemma_plan_contains(e, e.len() as int, k, x);
    assert(e.take(e.len() as int) =~= e);
    let whole = install_plan(e, e, true);
    let j = choose|j: int| 0 <= j < whole.len() && whole[j] == x;
    assert(whole[j].destination == d);
}


/// A link of a mod's plan is one of the mod's files, linked.
proof fn lemma_plan_of_file(m: ManifestView, all: Seq<ManifestView>, t: int) -> (f: FileSpec)
    requires
        0 <= t < plan_of(m, all).len(),
    ensures
        m.files().contains(f),
        keeps_in(m, all, f.destination),
        plan_of(m, all)[t] == linked(m, f),
{
    let fs = m.files();
    let p = |g: FileSpec| keeps_in(m, all, g.destination);
    let kept = fs.filter(p);
    assert(kept.contains(kept[t]));
    fs.lemma_filter_contains_rev(p, kept[t]);
    fs.lemma_filter_pred(p, t);
    kept[t]
}

/// A link of the plan for the first `n` mods is a file of one of them,
/// enabled, linked: the position of that mod and the file.
proof fn lemma_plan_link_origin(all: Seq<ManifestView>, n: int, j: int) -> (r: (int, FileSpec))
    requires
        0 <= n <= all.len(),
        0 <= j < install_plan(all.take(n), all, true).len(),
    ensures
        0 <= r.0 < n,
        all[r.0].enabled(),
        all[r.0].files().contains(r.1),
        keeps_in(all[r.0], all, r.1.destination),
        install_plan(all.take(n), all, true)[j] == linked(all[r.0], r.1),
    decreases n,
{
    let ms = all.take(n);
    assert(ms.drop_last() =~= all.take(n - 1));
    assert(ms.last() == all[n - 1]);
    let prev = install_plan(all.take(n - 1), all, true);
    if j < prev.len() {
        let r = lemma_plan_link_origin(all, n - 1, j);
        assert(install_plan(ms, all, true)[j] == prev[j]);
        r
    } else {
        assert(all[n - 1].enabled());
        let f = lemma_plan_of_file(all[n - 1], all, j - prev.len());
        assert(install_plan(ms, all, true)[j] == plan_of(all[n - 1], all)[j - prev.len()]);
        (n - 1, f)
    }
}

/// After a mod is disabled, relinking the list links only files of the
/// other enabled mods: each link is a file of an enabled mod of the list
/// that is not the disabled one.
pub proof fn lemma_relink_skips_disabled(ms: Seq<ManifestView>, idx: int, j: int)
    requires
        0 <= idx < ms.len(),
        !ms[idx].enabled(),
        0 <= j < relink_plan(ms).len(),
    ensures
        exists|k: int, f: FileSpec|
            0 <= k < ms.len() && k != idx && ms[k].enabled() && ms[k].files().contains(f)
                && #[trigger] relink_plan(ms)[j] == linked(ms[k], f),
{
    let p = ms;
    let en = |m: ManifestView| m.enabled();
    let filtered = p.filter(en);
    let e = enable_eligible(enabled_part(p));
    assert(e.take(e.len() as int) =~= e);
    let (k, f) = lemma_plan_link_origin(e, e.len() as int, j);
    assert(enabled_part(p).len() == filtered.len());
    let g = filtered[k];
    p.lemma_filter_pred(en, k);
    assert(filtered.contains(g));
    p.lemma_filter_contains_rev(en, g);
    let k2 = choose|k2: int| 0 <= k2 < p.len() && p[k2] == g;
    assert(ms[k2] == g);
    assert(e[k].internal == g.internal);
    assert(e[k].manifest_dir == g.manifest_dir);
    assert(e[k].files() == g.files());
    assert(k2 != idx);
    assert(relink_plan(p)[j] == linked(ms[k2], f));
}


/// Linking a mod list links each destination to the file of the last
/// enabled mod of the list that has a file going there, and to nothing
/// else, when the mods have distinct names and no mod has two files for one
/// destination: the link for `d` is that mod's file, and there is one.
pub proof fn lemma_plan_links_last_holder(ms: Seq<ManifestView>, k: int, d: Seq<char>)
    requires
        names_distinct(ms),
        own_dests_distinct(ms),
        0 <= k < ms.len(),
        ms[k].enabled(),
        ms[k].dests().contains(d),
        forall|j: int| k < j < ms.len() && (#[trigger] ms[j]).enabled() ==> !ms[j].dests().contains(d),
    ensures
        exists|j: int| 0 <= j < install_plan(ms, ms, true).len() && #[trigger] install_plan(ms, ms, true)[j].destination == d,
        forall|j: int|
            0 <= j < install_plan(ms, ms, true).len() && #[trigger] install_plan(ms, ms, true)[j].destination == d
                ==> exists|f: FileSpec| ms[k].files().contains(f) && f.destination == d && install_plan(ms, ms, true)[j]
                == linked(ms[k], f),
{
    let plan = install_plan(ms, ms, true);
    assert(ms.take(ms.len() as int) =~= ms);
    crate::conflict::lemma_winner_is_last_holder(ms, d, k);
    // The winner's file is linked.
    assert(keeps_in(ms[k], ms, d));
    let fs = ms[k].files();
    let i = choose|i: int| 0 <= i < ms[k].dests().len() && ms[k].dests()[i] == d;
    assert(fs[i].destination == d);
    let p = |f: FileSpec| keeps_in(ms[k], ms, f.destination);
    fs.lemma_filter_contains(p, i);
    let kept = fs.filter(p);
    let t = choose|t: int| 0 <= t < kept.len() && kept[t] == fs[i];
    let x = linked(ms[k], fs[i]);
    assert(plan_of(ms[k], ms)[t] == x);
    lemma_plan_contains(ms, ms.len() as int, k, x);
    let j0 = choose|j0: int| 0 <= j0 < plan.len() && plan[j0] == x;
    assert(plan[j0].destination == d);
    // Every link for `d` is the winner's.
    assert forall|j: int| 0 <= j < plan.len() && #[trigger] plan[j].destination == d implies exists|f: FileSpec|
        ms[k].files().contains(f) && f.destination == d && plan[j] == linked(ms[k], f) by {
        let (k2, f) = lemma_plan_link_origin(ms, ms.len() as int, j);
        assert(f.destination == d);
        if k2 != k {
            let i2 = choose|i2: int| 0 <= i2 < ms[k2].files().len() && ms[k2].files()[i2] == f;
            assert(ms[k2].dests()[i2] == d);
            assert(ms[k2].dests().contains(d));
            assert(k2 < k);
            lemma_names_with_two(ms, d, k2, k);
            assert(crate::conflict::enabled_has(ms, d));
            assert(crate::conflict::is_conflict(ms, d));
            assert(ms[k2].name == ms[k].name);
            assert(false);
        }
    }
}

/// Enabling one mod relinks the list: each destination is linked to the
/// file of the last mod of the list that is enabled, has a non-negative
/// priority and has a file going there, and to nothing else.
pub proof fn lemma_relink_links_last_holder(ms: Seq<ManifestView>, k: int, d: Seq<char>)
    requires
        names_distinct(enable_eligible(enabled_part(ms))),
        own_dests_distinct(enable_eligible(enabled_part(ms))),
        0 <= k < enable_eligible(enabled_part(ms)).len(),
        enable_eligible(enabled_part(ms))[k].enabled(),
        enable_eligible(enabled_part(ms))[k].dests().contains(d),
        forall|j: int|
            k < j < enable_eligible(enabled_part(ms)).len() && (#[trigger] enable_eligible(enabled_part(ms))[j]).enabled()
                ==> !enable_eligible(enabled_part(ms))[j].dests().contains(d),
    ensures
        exists|j: int| 0 <= j < relink_plan(ms).len() && #[trigger] relink_plan(ms)[j].destination == d,
        forall|j: int|
            0 <= j < relink_plan(ms).len() && #[trigger] relink_plan(ms)[j].destination == d ==> exists|f: FileSpec|
                enable_eligible(enabled_part(ms))[k].files().contains(f) && f.destination == d && relink_plan(ms)[j]
                == linked(enable_eligible(enabled_part(ms))[k], f),
{
    let e = enable_eligible(enabled_part(ms));
    lemma_plan_links_last_holder(e, k, d);
    assert(relink_plan(ms) == install_plan(e, e, true));
    let j = choose|j: int| 0 <= j < install_plan(e, e, true).len() && #[trigger] install_plan(e, e, true)[j].destination == d;
    assert(relink_plan(ms)[j].destination == d);
}

/// The extension given to a foreign file moved aside for a link.
pub const BACKUP_EXTENTION: &'static str = "starmod_bkp";

/// What linking a file does at its destination.
#[derive(Debug, Clone, Copy, PartialEq, Eq, Structural)]
pub enum LinkStep {
    /// Nothing is in the way: the link is made.
    Link,
    /// A link of the mod manager (into the cache directory) is there: it is
    /// removed and the new link made, so that the later mod wins.
    ReplaceOwnLink,
    /// A foreign file is there: it is renamed with the backup extension and
    /// the link made.
    BackUpThenLink,
}

/// What linking a file does, given what is at its destination: whether
/// something is there (`present`, following links, so a dangling link
/// counts as nothing: the link is then attempted over it and fails), whether it is a
/// symbolic link, whether that link points into the cache directory, and
/// whether it is a file (following links).
pub fn link_step(present: bool, is_symlink: bool, points_into_cache: bool, is_file: bool) -> (r: LinkStep)
    ensures
        r == if !present {
            LinkStep::Link
        } else if is_symlink && points_into_cache {
            LinkStep::ReplaceOwnLink
        } else if is_file {
            LinkStep::BackUpThenLink
        } else {
            LinkStep::Link
        },
{
    if !present {
        LinkStep::Link
    } else if is_symlink && points_into_cache {
        LinkStep::ReplaceOwnLink
    } else if is_file {
        LinkStep::BackUpThenLink
    } else {
        LinkStep::Link
    }
}

/// Whether unlinking a file removes what is at its destination: only a
/// link of the mod manager to a file (pointing into the cache directory).
pub fn removes_link(is_file: bool, is_symlink: bool, points_into_cache: bool) -> (r: bool)
    ensures
        r == (is_file && is_symlink && points_into_cache),
{
    is_file && is_symlink && points_into_cache
}

/// Whether a file of the game directory is a backup to restore: a file
/// with the backup extension whose original name is free again.
pub fn restores_backup(is_file: bool, extension: Option<&str>, original_exists: bool) -> (r: bool)
    ensures
        r == (is_file && !original_exists && (extension matches Some(e) && e@ == BACKUP_EXTENTION@)),
{
    let backup = match extension {
        Some(e) => str_eq(e, BACKUP_EXTENTION),
        None => false,
    };
    is_file && !original_exists && backup
}

} // verus!
