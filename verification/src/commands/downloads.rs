//! The commands on downloaded archives: which archive a name refers to,
//! where an archive is extracted, and which installed mods a download
//! upgrades.

use vstd::prelude::*;

use crate::conflict::views;
use crate::decompress::SupportedArchives;
use crate::dmodman::{DmodMan, DmodView, DMODMAN_EXTENSION};
use crate::fuzzy::{fuzzy_candidates, fuzzy_scores, match_score};
use crate::installers::stdin::{Input, InputWithDefault};
use crate::manifest::mod_state::ModState;
use crate::manifest::{update_available, Manifest, ManifestView};
use crate::paths::{join, path_join, path_with_extension, with_extension};
use crate::text::{parse_unsigned, parse_usize, str_lower, strs, to_lower};
use crate::utils::{add_extension, add_extension_spec};

verus! {

/// Commands on the downloaded archives.
#[derive(Debug)]
pub enum DownloadCmd {
    /// List the archives in the download directory.
    List,
    /// Extract the archive named, or chosen.
    Extract { name: Option<String> },
    /// Extract every archive not extracted yet.
    ExtractAll,
    /// Install a mod again from its archive.
    ReInstall { name: Option<String> },
    /// Upgrade every mod with a newer archive.
    UpgradeAll,
    /// Upgrade the mod named, or chosen.
    Upgrade { name: Option<String> },
}

impl Default for DownloadCmd {
    fn default() -> (r: Self)
        ensures
            r == DownloadCmd::List,
    {
        DownloadCmd::List
    }
}

/// Paths equal as `camino` compares them (component by component).
pub uninterp spec fn path_equal(a: Seq<char>, b: Seq<char>) -> bool;

/// Whether the paths `a` and `b` are equal, with `Utf8Path`'s `==`, which
/// compares their components; as `Utf8Path` is `Eq`, a path equals itself.
#[verifier::external_body]
fn paths_equal(a: &str, b: &str) -> (r: bool)
    ensures
        r == path_equal(a@, b@),
        a@ == b@ ==> r,
{
    camino::Utf8Path::new(a) == camino::Utf8Path::new(b)
}

/// The first position at or after `i` of an archive whose path equals `name`.
pub open spec fn archive_named_from(files: Seq<Seq<char>>, name: Seq<char>, i: int) -> Option<int>
    decreases files.len() - i,
{
    if i < 0 || i >= files.len() {
        None
    } else if path_equal(files[i], name) {
        Some(i)
    } else {
        archive_named_from(files, name, i + 1)
    }
}

/// The position of the first archive whose path equals `name`; an archive
/// named exactly `name` is found, or one before it.
pub fn find_archive_by_name(archives: &Vec<String>, name: &str) -> (r: Option<usize>)
    ensures
        match archive_named_from(strs(archives@), name@, 0) {
            Some(i) => r == Some(i as usize),
            None => r is None,
        },
        forall|i: int|
            0 <= i < archives@.len() && (#[trigger] archives@[i])@ == name@ ==> (r matches Some(j) && j <= i),
{
    let ghost fs = strs(archives@);
    let mut i: usize = 0;
    while i < archives.len()
        invariant
            i <= archives@.len(),
            fs == strs(archives@),
            archive_named_from(fs, name@, 0) == archive_named_from(fs, name@, i as int),
            forall|m: int| 0 <= m < i ==> (#[trigger] archives@[m])@ != name@,
        decreases archives.len() - i,
    {
        assert(fs[i as int] == archives@[i as int]@);
        if paths_equal(archives[i].as_str(), name) {
            return Some(i);
        }
        i += 1;
    }
    None
}

/// What a fuzzy search among the archives gives.
#[derive(Debug)]
pub enum FuzzyOutcome {
    /// No archive matches well.
    NotFound,
    /// The archive at this position.
    Found(usize),
    /// Several match well: the user chooses among these positions, best
    /// first; taking the default chooses the first.
    Choose(Vec<usize>),
}

/// A fuzzy search for `fuzzy_name` among the archives: the candidates are
/// those `fuzzy_candidates` gives for their scores; a single one is the
/// answer, several are offered to the user when the terminal is
/// interactive, and otherwise the best is taken.
pub fn find_archive_by_name_fuzzy(archives: &Vec<String>, fuzzy_name: &str, interactive: bool) -> (r: FuzzyOutcome)
    ensures
        match r {
            FuzzyOutcome::NotFound => forall|k: int|
                0 <= k < archives@.len() ==> match_score(#[trigger] archives@[k]@, fuzzy_name@) <= 50,
            FuzzyOutcome::Found(i) => i < archives@.len() && match_score(archives@[i as int]@, fuzzy_name@)
                > 50 && forall|k: int|
                0 <= k < archives@.len() ==> match_score(#[trigger] archives@[k]@, fuzzy_name@)
                    <= match_score(archives@[i as int]@, fuzzy_name@),
            FuzzyOutcome::Choose(c) => interactive && 1 < c@.len() <= 6 && c@.no_duplicates()
                && (forall|k: int|
                0 <= k < c@.len() ==> #[trigger] c@[k] < archives@.len() && match_score(
                    archives@[c@[k] as int]@,
                    fuzzy_name@,
                ) > 50) && forall|k: int|
                0 <= k < archives@.len() ==> match_score(#[trigger] archives@[k]@, fuzzy_name@)
                    <= match_score(archives@[c@[0] as int]@, fuzzy_name@),
        },
        (exists|a: int| 0 <= a < archives@.len() && match_score(#[trigger] archives@[a]@, fuzzy_name@) > 50)
            ==> !(r is NotFound),
        interactive && (exists|a: int, b: int|
            0 <= a < b < archives@.len() && match_score(#[trigger] archives@[a]@, fuzzy_name@) > 50
                && match_score(#[trigger] archives@[b]@, fuzzy_name@) > 50) ==> r is Choose,
{
    let scores = fuzzy_scores(archives.as_slice(), fuzzy_name);
    let candidates = fuzzy_candidates(&scores);
    proof {
        // An archive scoring above 50 is a candidate unless six are given.
        assert forall|a: int| 0 <= a < archives@.len() && match_score(#[trigger] archives@[a]@, fuzzy_name@) > 50
            implies candidates@.len() == 6 || exists|q: int| 0 <= q < candidates@.len() && candidates@[q] as int == a by {
            assert(scores@[a] == match_score(archives@[a]@, fuzzy_name@));
        }
        // Every archive scores no more than the first candidate.
        if candidates@.len() > 0 {
            let best = candidates@[0];
            assert forall|k: int| 0 <= k < archives@.len() implies match_score(
                #[trigger] archives@[k]@,
                fuzzy_name@,
            ) <= match_score(archives@[best as int]@, fuzzy_name@) by {
                assert(scores@[k] == match_score(archives@[k]@, fuzzy_name@));
                assert(scores@[best as int] == match_score(archives@[best as int]@, fuzzy_name@));
                if scores@[k] > 50 {
                    if exists|q: int| 0 <= q < candidates@.len() && candidates@[q] as int == k {
                        let q = choose|q: int| 0 <= q < candidates@.len() && candidates@[q] as int == k;
                        if q > 0 {
                            assert(scores@[candidates@[0] as int] >= scores@[candidates@[q] as int]);
                        }
                    } else {
                        assert(candidates@.len() == 6 && scores@[k] <= scores@[candidates@[5] as int]);
                        assert(scores@[candidates@[0] as int] >= scores@[candidates@[5] as int]);
                    }
                } else {
                    assert(scores@[best as int] > 50);
                }
            }
        }
        if interactive && exists|a: int, b: int|
            0 <= a < b < archives@.len() && match_score(#[trigger] archives@[a]@, fuzzy_name@) > 50
                && match_score(#[trigger] archives@[b]@, fuzzy_name@) > 50 {
            let (a, b) = choose|a: int, b: int|
                0 <= a < b < archives@.len() && match_score(#[trigger] archives@[a]@, fuzzy_name@) > 50
                    && match_score(#[trigger] archives@[b]@, fuzzy_name@) > 50;
            if candidates@.len() < 2 {
                let qa = choose|q: int| 0 <= q < candidates@.len() && candidates@[q] as int == a;
                let qb = choose|q: int| 0 <= q < candidates@.len() && candidates@[q] as int == b;
                assert(qa == qb);
            }
        }
    }
    if candidates.len() == 0 {
        assert forall|k: int| 0 <= k < archives@.len() implies match_score(
            #[trigger] archives@[k]@,
            fuzzy_name@,
        ) <= 50 by {
            assert(scores@[k] == match_score(archives@[k]@, fuzzy_name@));
            if scores@[k] > 50 {
                assert(forall|q: int| 0 <= q < candidates@.len() ==> candidates@[q] as int != k);
            }
        }
        FuzzyOutcome::NotFound
    } else if candidates.len() == 1 || !interactive {
        let best = candidates[0];
        assert forall|k: int| 0 <= k < archives@.len() implies match_score(
            #[trigger] archives@[k]@,
            fuzzy_name@,
        ) <= match_score(archives@[best as int]@, fuzzy_name@) by {
            assert(scores@[k] == match_score(archives@[k]@, fuzzy_name@));
            assert(scores@[best as int] == match_score(archives@[best as int]@, fuzzy_name@));
            if scores@[k] > 50 {
                if exists|q: int| 0 <= q < candidates@.len() && candidates@[q] as int == k {
                    let q = choose|q: int| 0 <= q < candidates@.len() && candidates@[q] as int == k;
                    if q > 0 {
                        assert(scores@[candidates@[0] as int] >= scores@[candidates@[q] as int]);
                    }
                } else {
                    assert(candidates@.len() == 6 && scores@[k] <= scores@[candidates@[5] as int]);
                    assert(scores@[candidates@[0] as int] >= scores@[candidates@[5] as int]);
                }
            } else {
                assert(scores@[best as int] > 50);
            }
        }
        FuzzyOutcome::Found(best)
    } else {
        assert forall|k: int| 0 <= k < candidates@.len() implies #[trigger] candidates@[k] < archives@.len()
            && match_score(archives@[candidates@[k] as int]@, fuzzy_name@) > 50 by {
            assert(scores@[candidates@[k] as int] == match_score(
                archives@[candidates@[k] as int]@,
                fuzzy_name@,
            ));
        }
        FuzzyOutcome::Choose(candidates)
    }
}

/// The user's answer when several archives match.
#[derive(Copy, Clone, Debug, PartialEq, Eq, Structural)]
pub enum ArchiveChoice {
    /// The candidate at this position among the candidates.
    Chosen(usize),
    /// The user left; no archive is chosen.
    Exit,
    /// Ask again.
    Again,
}

/// The answer `input` when `n` candidates are offered: leaving, taking
/// the default (the first), or a number among the candidates; another
/// number asks again.
pub fn archive_choice(n: usize, input: InputWithDefault) -> (r: ArchiveChoice)
    ensures
        r == match input {
            InputWithDefault::Input(Input::Exit) => ArchiveChoice::Exit,
            InputWithDefault::Default => ArchiveChoice::Chosen(0),
            InputWithDefault::Input(Input::Digit(d)) => if (d as usize) < n {
                ArchiveChoice::Chosen(d as usize)
            } else {
                ArchiveChoice::Again
            },
        },
{
    match input {
        InputWithDefault::Input(Input::Exit) => ArchiveChoice::Exit,
        InputWithDefault::Default => ArchiveChoice::Chosen(0),
        InputWithDefault::Input(Input::Digit(d)) => {
            if (d as usize) < n {
                ArchiveChoice::Chosen(d as usize)
            } else {
                ArchiveChoice::Again
            }
        },
    }
}

/// Which archive a name given on the command line refers to.
#[derive(Debug)]
pub enum ArchiveLookup {
    /// The archive at this position.
    At(usize),
    /// A number beyond the archives: nothing is extracted.
    Missing,
    /// Several archives match fuzzily; the user chooses among these.
    Choose(Vec<usize>),
    /// No archive is named so.
    NotFound,
}

/// The archive `name` refers to: a number is a position in the list; else
/// the archive of that name; else the best fuzzy match.
pub fn find_archive(archives: &Vec<String>, name: &str, interactive: bool) -> (r: ArchiveLookup)
    ensures
        match parse_unsigned(name@, usize::MAX as nat) {
            Some(n) => if n < archives@.len() {
                r == ArchiveLookup::At(n as usize)
            } else {
                r == ArchiveLookup::Missing
            },
            None => match archive_named_from(strs(archives@), name@, 0) {
                Some(i) => r == ArchiveLookup::At(i as usize),
                None => (match r {
                    ArchiveLookup::At(i) => i < archives@.len() && match_score(archives@[i as int]@, name@)
                        > 50 && forall|k: int|
                        0 <= k < archives@.len() ==> match_score(#[trigger] archives@[k]@, name@)
                            <= match_score(archives@[i as int]@, name@),
                    ArchiveLookup::Choose(c) => interactive && 1 < c@.len() <= 6 && c@.no_duplicates()
                        && (forall|k: int|
                        0 <= k < c@.len() ==> #[trigger] c@[k] < archives@.len() && match_score(
                            archives@[c@[k] as int]@,
                            name@,
                        ) > 50) && forall|k: int|
                        0 <= k < archives@.len() ==> match_score(#[trigger] archives@[k]@, name@)
                            <= match_score(archives@[c@[0] as int]@, name@),
                    ArchiveLookup::NotFound => forall|k: int|
                        0 <= k < archives@.len() ==> match_score(#[trigger] archives@[k]@, name@) <= 50,
                    ArchiveLookup::Missing => false,
                }) && (interactive && (exists|a: int, b: int|
                    0 <= a < b < archives@.len() && match_score(#[trigger] archives@[a]@, name@) > 50
                        && match_score(#[trigger] archives@[b]@, name@) > 50) ==> r is Choose),
            },
        },
{
    match parse_usize(name) {
        Some(n) => {
            if n < archives.len() {
                ArchiveLookup::At(n)
            } else {
                ArchiveLookup::Missing
            }
        },
        None => match find_archive_by_name(archives, name) {
            Some(i) => ArchiveLookup::At(i),
            None => match find_archive_by_name_fuzzy(archives, name, interactive) {
                FuzzyOutcome::Found(i) => ArchiveLookup::At(i),
                FuzzyOutcome::Choose(c) => ArchiveLookup::Choose(c),
                FuzzyOutcome::NotFound => ArchiveLookup::NotFound,
            },
        },
    }
}

/// The error for an archive name that refers to nothing.
pub fn archive_not_found(name: &str) -> (r: crate::errors::DownloadError)
    ensures
        r matches crate::errors::DownloadError::ArchiveNotFound(n) && n@ == name@,
{
    crate::errors::DownloadError::ArchiveNotFound(String::from_str(name))
}

/// Where the extraction of an archive reads and writes.
#[derive(Debug)]
pub struct ExtractionPaths {
    /// The archive in the download directory.
    pub download_file: String,
    /// The directory it is extracted into.
    pub archive: String,
    /// The download's metadata, beside the archive.
    pub dmodman_file: String,
    /// Where the metadata is copied, beside the extracted directory.
    pub archive_dmodman: String,
    /// The name of the extracted mod.
    pub name: String,
}

/// The paths of extracting the archive `file` of `download_dir` into
/// `cache_dir`: the archive is extracted under its lower-cased name without
/// extension, and its metadata file (the archive's path with `.json`
/// added) is copied beside the extracted directory.
pub fn extraction_paths(download_dir: &str, cache_dir: &str, file: &str) -> (r: ExtractionPaths)
    ensures
        r.download_file@ == path_join(download_dir@, file@),
        r.archive@ == path_with_extension(path_join(cache_dir@, str_lower(file@)), Seq::empty()),
        r.dmodman_file@ == add_extension_spec(path_join(download_dir@, file@), "json"@),
        r.archive_dmodman@ == add_extension_spec(r.archive@, "dmodman"@),
        r.name@ == path_with_extension(str_lower(file@), Seq::empty()),
{
    proof {
        reveal_strlit("");
    }
    let download_file = join(download_dir, file);
    let lower = to_lower(file);
    let in_cache = join(cache_dir, lower.as_str());
    let archive = with_extension(in_cache.as_str(), "");
    assert(""@ =~= Seq::<char>::empty());
    proof {
        reveal_strlit("json");
    }
    let dmodman_file = add_extension(download_file.as_str(), "json");
    proof {
        reveal_strlit("dmodman");
    }
    let archive_dmodman = add_extension(archive.as_str(), DMODMAN_EXTENSION);
    let name = with_extension(lower.as_str(), "");
    ExtractionPaths { download_file, archive, dmodman_file, archive_dmodman, name }
}

/// An archive is extracted again unless its directory exists and holds a
/// valid mod (`manifest_valid` says whether its manifest could be read and
/// is valid).
pub fn needs_extraction(archive_is_dir: bool, manifest_valid: Option<bool>) -> (r: bool)
    ensures
        r == !(archive_is_dir && manifest_valid == Some(true)),
{
    let valid = match manifest_valid {
        Some(v) => v,
        None => false,
    };
    !(archive_is_dir && valid)
}

/// The name an extracted archive is installed under: its lower-cased name
/// without extension.
pub fn install_name(file: &str) -> (r: String)
    ensures
        r@ == path_with_extension(str_lower(file@), Seq::empty()),
{
    let lower = to_lower(file);
    proof {
        reveal_strlit("");
        assert(""@ =~= Seq::<char>::empty());
    }
    with_extension(lower.as_str(), "")
}

/// A planned upgrade: the mod to replace, the archive to install in its
/// place, and the priority and state to give the new mod.
#[derive(Debug)]
pub struct Upgrade {
    pub mod_index: usize,
    pub archive: String,
    pub priority: isize,
    pub enabled: bool,
}

/// The last download of `ds` for the archive name `name` and Nexus id `id`.
pub open spec fn last_download_for(ds: Seq<DmodView>, name: Seq<char>, id: u32, n: int) -> Option<int>
    decreases n,
{
    if n <= 0 {
        None
    } else if ds[n - 1].name() == name && ds[n - 1].mod_id == id {
        Some(n - 1)
    } else {
        last_download_for(ds, name, id, n - 1)
    }
}

/// The Nexus id of a mod, 0 when unknown.
pub open spec fn id_or_zero(m: ManifestView) -> u32 {
    match m.nexus_id {
        Some(id) => id,
        None => 0,
    }
}

/// The download that would upgrade mod `m`: the last one for its archive
/// name and Nexus id, when it is newer.
pub open spec fn upgrade_source(m: ManifestView, ds: Seq<DmodView>) -> Option<int> {
    match last_download_for(ds, m.bare_file_name, id_or_zero(m), ds.len() as int) {
        Some(k) => if update_available(m, ds[k]) {
            Some(k)
        } else {
            None
        },
        None => None,
    }
}

/// The views of downloads.
pub open spec fn download_views(s: Seq<DmodMan>) -> Seq<DmodView> {
    s.map_values(|d: DmodMan| d@)
}

/// The download for `m`, by archive name and Nexus id, if it is newer.
fn upgrade_for_mod(m: &Manifest, dmods: &Vec<DmodMan>) -> (r: Option<usize>)
    requires
        forall|k: int| 0 <= k < dmods@.len() ==> (#[trigger] dmods@[k])@.has_name(),
    ensures
        r matches Some(k) ==> k < dmods@.len() && upgrade_source(m@, download_views(dmods@)) == Some(k as int),
        r is None ==> upgrade_source(m@, download_views(dmods@)) is None,
{
    let ghost ds = download_views(dmods@);
    let id = match m.nexus_id() {
        Some(id) => id,
        None => 0,
    };
    let mut found: Option<usize> = None;
    let mut i: usize = 0;
    while i < dmods.len()
        invariant
            i <= dmods@.len(),
            ds == download_views(dmods@),
            forall|k: int| 0 <= k < dmods@.len() ==> (#[trigger] dmods@[k])@.has_name(),
            id == id_or_zero(m@),
            found matches Some(k) ==> k < i && last_download_for(ds, m@.bare_file_name, id, i as int) == Some(k as int),
            found is None ==> last_download_for(ds, m@.bare_file_name, id, i as int) is None,
        decreases dmods.len() - i,
    {
        let d = &dmods[i];
        assert(ds[i as int] == d@);
        assert(d@.has_name());
        let n = d.name();
        if crate::text::str_eq(n.as_str(), m.bare_file_name()) && d.mod_id() == id {
            found = Some(i);
        }
        i += 1;
    }
    assert(ds.len() == dmods@.len());
    proof {
        lemma_last_download_bound(ds, m@.bare_file_name, id, dmods@.len() as int);
    }
    match found {
        Some(k) => {
            assert(ds[k as int] == dmods@[k as int]@);
            if m.is_an_update(&dmods[k]) {
                Some(k)
            } else {
                None
            }
        },
        None => None,
    }
}

/// A found download lies among the first `n`.
proof fn lemma_last_download_bound(ds: Seq<DmodView>, name: Seq<char>, id: u32, n: int)
    ensures
        last_download_for(ds, name, id, n) matches Some(k) ==> 0 <= k < n,
    decreases n,
{
    if n > 0 {
        lemma_last_download_bound(ds, name, id, n - 1);
    }
}

/// The upgrades of every mod that a download is a newer version of, in
/// list order: each replaces the mod by the download's archive and keeps
/// the mod's priority and state.
pub fn upgrades(mods: &Vec<Manifest>, dmods: &Vec<DmodMan>) -> (r: Vec<Upgrade>)
    requires
        forall|k: int| 0 <= k < dmods@.len() ==> (#[trigger] dmods@[k])@.has_name(),
    ensures
        forall|a: int, b: int| 0 <= a < b < r@.len() ==> r@[a].mod_index < r@[b].mod_index,
        forall|i: int|
            0 <= i < mods@.len() ==> (upgrade_source(#[trigger] mods@[i]@, download_views(dmods@)) is Some
                <==> exists|a: int| 0 <= a < r@.len() && r@[a].mod_index == i),
        forall|a: int|
            0 <= a < r@.len() ==> #[trigger] r@[a].mod_index < mods@.len() && (upgrade_source(
                mods@[r@[a].mod_index as int]@,
                download_views(dmods@),
            ) matches Some(k) && r@[a].archive@ == download_views(dmods@)[k].file_name
                && r@[a].priority == mods@[r@[a].mod_index as int]@.priority && r@[a].enabled
                == mods@[r@[a].mod_index as int]@.enabled()),
{
    let mut r: Vec<Upgrade> = Vec::new();
    let mut i: usize = 0;
    while i < mods.len()
        invariant
            i <= mods@.len(),
            forall|k: int| 0 <= k < dmods@.len() ==> (#[trigger] dmods@[k])@.has_name(),
            forall|a: int, b: int| 0 <= a < b < r@.len() ==> r@[a].mod_index < r@[b].mod_index,
            forall|a: int| 0 <= a < r@.len() ==> #[trigger] r@[a].mod_index < i,
            forall|j: int|
                0 <= j < i ==> (upgrade_source(#[trigger] mods@[j]@, download_views(dmods@)) is Some
                    <==> exists|a: int| 0 <= a < r@.len() && r@[a].mod_index == j),
            forall|a: int|
                0 <= a < r@.len() ==> #[trigger] r@[a].mod_index < mods@.len() && (upgrade_source(
                    mods@[r@[a].mod_index as int]@,
                    download_views(dmods@),
                ) matches Some(k) && r@[a].archive@ == download_views(dmods@)[k].file_name
                    && r@[a].priority == mods@[r@[a].mod_index as int]@.priority && r@[a].enabled
                    == mods@[r@[a].mod_index as int]@.enabled()),
        decreases mods.len() - i,
    {
        let m = &mods[i];
        match upgrade_for_mod(m, dmods) {
            Some(k) => {
                assert(download_views(dmods@)[k as int] == dmods@[k as int]@);
                let up = Upgrade {
                    mod_index: i,
                    archive: String::from_str(dmods[k].file_name()),
                    priority: m.priority(),
                    enabled: m.is_enabled(),
                };
                let ghost before = r@;
                r.push(up);
                assert forall|a: int| 0 <= a < r@.len() implies #[trigger] r@[a].mod_index < mods@.len() && (upgrade_source(
                    mods@[r@[a].mod_index as int]@,
                    download_views(dmods@),
                ) matches Some(k) && r@[a].archive@ == download_views(dmods@)[k].file_name
                    && r@[a].priority == mods@[r@[a].mod_index as int]@.priority && r@[a].enabled
                    == mods@[r@[a].mod_index as int]@.enabled()) by {
                    if a < before.len() {
                        assert(r@[a] == before[a]);
                    } else {
                        assert(r@[a].mod_index == i);
                        assert(mods@[i as int] == *m);
                    }
                }
                assert forall|j: int|
                    0 <= j < i + 1 implies (upgrade_source(#[trigger] mods@[j]@, download_views(dmods@)) is Some
                        <==> exists|a: int| 0 <= a < r@.len() && r@[a].mod_index == j) by {
                    if j < i {
                        if exists|a: int| 0 <= a < before.len() && before[a].mod_index == j {
                            let a = choose|a: int| 0 <= a < before.len() && before[a].mod_index == j;
                            assert(r@[a] == before[a]);
                        }
                        if exists|a: int| 0 <= a < r@.len() && r@[a].mod_index == j {
                            let a = choose|a: int| 0 <= a < r@.len() && r@[a].mod_index == j;
                            assert(a < before.len());
                            assert(before[a] == r@[a]);
                        }
                    } else {
                        assert(r@[before.len() as int].mod_index == j);
                    }
                }
            },
            None => {
                assert forall|j: int|
                    0 <= j < i + 1 implies (upgrade_source(#[trigger] mods@[j]@, download_views(dmods@)) is Some
                        <==> exists|a: int| 0 <= a < r@.len() && r@[a].mod_index == j) by {
                    if j == i {
                        assert forall|a: int| 0 <= a < r@.len() implies r@[a].mod_index != j by {
                            assert(r@[a].mod_index < i);
                        }
                    }
                }
            },
        }
        i += 1;
    }
    r
}

/// The upgrade of the mod at `idx`: the first download with the mod's
/// name and Nexus id (an unknown id counts as 0); `None` when there is none.
pub open spec fn first_download_named(ds: Seq<DmodView>, name: Seq<char>, id: u32, i: int) -> Option<int>
    decreases ds.len() - i,
{
    if i < 0 || i >= ds.len() {
        None
    } else if ds[i].name() == name && ds[i].mod_id == id {
        Some(i)
    } else {
        first_download_named(ds, name, id, i + 1)
    }
}

/// The upgrade of the mod `m` (at position `idx`): from the first download
/// with the mod's name and Nexus id; `None` when there is none.
pub fn upgrade_mod(m: &Manifest, idx: usize, dmods: &Vec<DmodMan>) -> (r: Option<Upgrade>)
    requires
        forall|k: int| 0 <= k < dmods@.len() ==> (#[trigger] dmods@[k])@.has_name(),
    ensures
        match first_download_named(download_views(dmods@), m@.name, id_or_zero(m@), 0) {
            Some(k) => r matches Some(u) && u.mod_index == idx && u.archive@ == download_views(
                dmods@,
            )[k].file_name && u.priority == m@.priority && u.enabled == m@.enabled(),
            None => r is None,
        },
{
    let ghost ds = download_views(dmods@);
    let id = match m.nexus_id() {
        Some(id) => id,
        None => 0,
    };
    let mut i: usize = 0;
    while i < dmods.len()
        invariant
            i <= dmods@.len(),
            ds == download_views(dmods@),
            forall|k: int| 0 <= k < dmods@.len() ==> (#[trigger] dmods@[k])@.has_name(),
            id == id_or_zero(m@),
            first_download_named(ds, m@.name, id, 0) == first_download_named(ds, m@.name, id, i as int),
        decreases dmods.len() - i,
    {
        let d = &dmods[i];
        assert(ds[i as int] == d@);
        let n = d.name();
        if crate::text::str_eq(n.as_str(), m.name()) && d.mod_id() == id {
            return Some(
                Upgrade {
                    mod_index: idx,
                    archive: String::from_str(d.file_name()),
                    priority: m.priority(),
                    enabled: m.is_enabled(),
                },
            );
        }
        i += 1;
    }
    None
}

/// Gives the mod installed from an upgrade the priority and state of the
/// mod it replaces.
pub fn restore_after_upgrade(manifest: &mut Manifest, up: &Upgrade)
    ensures
        final(manifest)@ == (ManifestView {
            priority: up.priority,
            mod_state: if up.enabled {
                ModState::Enabled
            } else {
                old(manifest)@.mod_state
            },
            ..old(manifest)@
        }),
{
    manifest.set_priority(up.priority);
    if up.enabled {
        manifest.set_enabled();
    }
}

} // verus!
