//! The installer of a plain data mod: it finds the directory of the mod
//! that corresponds to the game's `Data` directory and installs everything
//! below it, except read-me files.

use vstd::prelude::*;

use super::{walk_views, InstallerError, WalkEntry, WalkView};
use crate::dmodman::{dmod_version, DmodMan, DmodView};
use crate::manifest::install_file::{data_destination, file_specs, FileSpec, InstallFile};
use crate::manifest::{internal_of, opt_view, Manifest, ManifestView};
use crate::manifest::mod_state::ModState;
use crate::mods::ModKind;
use crate::paths::{parent, path_parent, path_strip_prefix, strip_prefix as path_strip};
use crate::text::{contains, contains_seq, str_eq, strip_prefix, strip_prefix_str};

verus! {

/// A directory named `data` at most `max_depth` levels below the mod's directory.
pub open spec fn is_data_dir(e: WalkView, max_depth: nat) -> bool {
    e.is_dir && e.depth <= max_depth && e.file_name == "data"@
}

/// A file with extension `ext` at most five levels below the mod's directory.
pub open spec fn has_ext(e: WalkView, ext: Seq<char>) -> bool {
    e.is_file && e.depth <= 5 && e.extension == Some(ext)
}

/// The directories named `data` at most `max_depth` levels deep.
pub open spec fn data_dirs(es: Seq<WalkView>, max_depth: nat) -> Seq<WalkView> {
    es.filter(|e: WalkView| is_data_dir(e, max_depth))
}

/// The files with extension `ext` at most five levels deep.
pub open spec fn with_ext(es: Seq<WalkView>, ext: Seq<char>) -> Seq<WalkView> {
    es.filter(|e: WalkView| has_ext(e, ext))
}

/// The parent of a path, or the empty path.
pub open spec fn parent_or_empty(p: Seq<char>) -> Seq<char> {
    match path_parent(p) {
        Some(q) => q,
        None => Seq::empty(),
    }
}

/// The mod's data directory, relative to the mod's directory, or `None`
/// when the mod has several candidates. In order of preference: a single
/// `data` directory at most two levels deep; a single one at most five
/// levels deep; the directory of the single `esm` plugin (a mod with an
/// `esp` plugin is refused); the directory of the single `esl` plugin; and
/// otherwise the mod's directory itself.
pub open spec fn data_dir_of(es: Seq<WalkView>) -> Option<Seq<char>> {
    let d2 = data_dirs(es, 2);
    let d5 = data_dirs(es, 5);
    let esm = with_ext(es, "esm"@);
    let esl = with_ext(es, "esl"@);
    if d2.len() == 1 {
        Some(d2[0].path)
    } else if d2.len() > 1 {
        None
    } else if d5.len() == 1 {
        Some(d5[0].path)
    } else if d5.len() > 1 {
        None
    } else if with_ext(es, "esp"@).len() > 0 || esm.len() > 1 {
        None
    } else if esm.len() == 1 {
        Some(parent_or_empty(esm[0].path))
    } else if esl.len() > 1 {
        None
    } else if esl.len() == 1 {
        Some(parent_or_empty(esl[0].path))
    } else {
        Some(Seq::empty())
    }
}


/// The directory holding the entry `e`: its parent, or the mod's directory.
pub open spec fn holding_dir(e: WalkView) -> Seq<char> {
    match path_parent(e.path) {
        Some(q) => q,
        None => Seq::empty(),
    }
}

/// A member of a filtered listing is an entry of the listing that passes.
proof fn lemma_filtered_member(es: Seq<WalkView>, p: spec_fn(WalkView) -> bool) -> (i: int)
    requires
        es.filter(p).len() > 0,
    ensures
        0 <= i < es.len(),
        p(es[i]),
        es[i] == es.filter(p)[0],
{
    es.lemma_filter_pred(p, 0);
    let x = es.filter(p)[0];
    assert(es.filter(p).contains(x));
    es.lemma_filter_contains_rev(p, x);
    choose|i: int| 0 <= i < es.len() && es[i] == x
}

/// Where a mod's data directory is found, by what its listing holds: a
/// single `data` directory at most two levels deep is it; without a `data`
/// directory, an `esp` plugin or two `esm` plugins make the choice
/// ambiguous, and the directory holding the single `esm` plugin, or else the
/// single `esl` plugin, is it.
pub proof fn lemma_data_dir_found(es: Seq<WalkView>)
    ensures
        data_dirs(es, 2).len() == 1 ==> exists|i: int|
            0 <= i < es.len() && es[i].is_dir && es[i].file_name == "data"@ && es[i].depth <= 2
                && data_dir_of(es) == Some(es[i].path),
        data_dirs(es, 2).len() == 0 && data_dirs(es, 5).len() == 1 ==> exists|i: int|
            0 <= i < es.len() && es[i].is_dir && es[i].file_name == "data"@ && es[i].depth <= 5
                && data_dir_of(es) == Some(es[i].path),
        data_dirs(es, 2).len() > 1 ==> data_dir_of(es) is None,
        data_dirs(es, 2).len() == 0 && data_dirs(es, 5).len() == 0 && with_ext(es, "esp"@).len() > 0
            ==> data_dir_of(es) is None,
        data_dirs(es, 2).len() == 0 && data_dirs(es, 5).len() == 0 && with_ext(es, "esp"@).len() == 0
            && with_ext(es, "esm"@).len() == 1 ==> exists|i: int|
            0 <= i < es.len() && es[i].is_file && es[i].extension == Some("esm"@) && data_dir_of(es) == Some(
                holding_dir(es[i]),
            ),
        data_dirs(es, 2).len() == 0 && data_dirs(es, 5).len() == 0 && with_ext(es, "esp"@).len() == 0
            && with_ext(es, "esm"@).len() == 0 && with_ext(es, "esl"@).len() == 1 ==> exists|i: int|
            0 <= i < es.len() && es[i].is_file && es[i].extension == Some("esl"@) && data_dir_of(es) == Some(
                holding_dir(es[i]),
            ),
{
    if data_dirs(es, 2).len() == 1 {
        let i = lemma_filtered_member(es, |e: WalkView| is_data_dir(e, 2));
        assert(data_dir_of(es) == Some(es[i].path));
    }
    if data_dirs(es, 2).len() == 0 && data_dirs(es, 5).len() == 1 {
        let i = lemma_filtered_member(es, |e: WalkView| is_data_dir(e, 5));
        assert(data_dir_of(es) == Some(es[i].path));
    }
    if data_dirs(es, 2).len() == 0 && data_dirs(es, 5).len() == 0 && with_ext(es, "esp"@).len() == 0
        && with_ext(es, "esm"@).len() == 1 {
        let i = lemma_filtered_member(es, |e: WalkView| has_ext(e, "esm"@));
        assert(data_dir_of(es) == Some(holding_dir(es[i])));
    }
    if data_dirs(es, 2).len() == 0 && data_dirs(es, 5).len() == 0 && with_ext(es, "esp"@).len() == 0
        && with_ext(es, "esm"@).len() == 0 && with_ext(es, "esl"@).len() == 1 {
        let i = lemma_filtered_member(es, |e: WalkView| has_ext(e, "esl"@));
        assert(data_dir_of(es) == Some(holding_dir(es[i])));
    }
}

/// The search for plugins, reading the entries from position `i` on in
/// listing order (`seen` telling whether an `esm` file came before), reaches
/// a file at most five levels deep that has no extension before it stops
/// on an `esp` file or on a second `esm` file. The search reads the
/// extension of every such file it reaches, so it cannot go on there.
pub open spec fn scan_reaches_bare(es: Seq<WalkView>, i: int, seen: bool) -> bool
    decreases es.len() - i,
{
    if i < 0 || i >= es.len() {
        false
    } else if !(es[i].is_file && es[i].depth <= 5) {
        scan_reaches_bare(es, i + 1, seen)
    } else {
        match es[i].extension {
            None => true,
            Some(x) => if x == "esp"@ || (x == "esm"@ && seen) {
                false
            } else {
                scan_reaches_bare(es, i + 1, seen || x == "esm"@)
            },
        }
    }
}

/// The search for the data directory can read the listing: where there is
/// no `data` directory, the search for plugins reaches no file without an
/// extension.
pub open spec fn extensions_known(es: Seq<WalkView>) -> bool {
    !scan_reaches_bare(es, 0, false)
}

/// Whether the search for the data directory can read the listing: the
/// test that `create_data_manifest` asks of its caller.
pub fn data_search_reads(entries: &Vec<WalkEntry>) -> (r: bool)
    ensures
        r == (data_dirs(walk_views(entries@), 5).len() == 0 ==> extensions_known(walk_views(entries@))),
{
    let ghost es = walk_views(entries@);
    let ghost p5 = |e: WalkView| is_data_dir(e, 5);
    proof {
        reveal_strlit("data");
        reveal_strlit("esp");
        reveal_strlit("esm");
        assert(es.take(0) =~= Seq::<WalkView>::empty());
    }
    let mut n5: usize = 0;
    let mut i: usize = 0;
    while i < entries.len()
        invariant
            i <= entries@.len(),
            es == walk_views(entries@),
            p5 == (|e: WalkView| is_data_dir(e, 5)),
            n5 == es.take(i as int).filter(p5).len(),
            n5 <= i,
        decreases entries.len() - i,
    {
        let e = &entries[i];
        assert(es[i as int] == e@);
        proof {
            lemma_filter_step(es, p5, i as int);
        }
        if e.is_dir && e.depth <= 5 && str_eq(e.file_name.as_str(), "data") {
            n5 = n5 + 1;
        }
        i += 1;
    }
    assert(es.take(i as int) =~= es);
    if n5 > 0 {
        return true;
    }
    assert(data_dirs(es, 5) == es.filter(p5));
    let mut seen = false;
    let mut k: usize = 0;
    while k < entries.len()
        invariant
            k <= entries@.len(),
            es == walk_views(entries@),
            data_dirs(es, 5).len() == 0,
            scan_reaches_bare(es, 0, false) == scan_reaches_bare(es, k as int, seen),
        decreases entries.len() - k,
    {
        let e = &entries[k];
        assert(es[k as int] == e@);
        if e.is_file && e.depth <= 5 {
            match &e.extension {
                None => {
                    return false;
                },
                Some(x) => {
                    let esm = str_eq(x.as_str(), "esm");
                    if str_eq(x.as_str(), "esp") || (esm && seen) {
                        return true;
                    }
                    seen = seen || esm;
                },
            }
        }
        k += 1;
    }
    true
}

/// A file below the data directory `dp`.
pub open spec fn in_data(e: WalkView, dp: Seq<char>) -> bool {
    e.is_file && path_strip_prefix(e.path, dp) is Some
}

/// A read-me file, which is installed disabled.
pub open spec fn is_readme(e: WalkView) -> bool {
    contains_seq(e.file_name, "readme"@)
}

/// The install file of an entry below the data directory `dp`: its
/// destination is its path without the text of `dp` in front.
pub open spec fn data_file(e: WalkView, dp: Seq<char>) -> FileSpec {
    FileSpec {
        source: e.path,
        destination: data_destination(
            match strip_prefix(e.path, dp) {
                Some(t) => t,
                None => e.path,
            },
        ),
    }
}

/// The installed files of a data mod whose data directory is `dp`.
pub open spec fn data_files(es: Seq<WalkView>, dp: Seq<char>) -> Seq<FileSpec> {
    es.filter(|e: WalkView| in_data(e, dp) && !is_readme(e)).map_values(
        |e: WalkView| data_file(e, dp),
    )
}

/// The read-me files of a data mod whose data directory is `dp`.
pub open spec fn readme_files(es: Seq<WalkView>, dp: Seq<char>) -> Seq<FileSpec> {
    es.filter(|e: WalkView| in_data(e, dp) && is_readme(e)).map_values(
        |e: WalkView| data_file(e, dp),
    )
}

/// Counts and first members of a filter, as a scan keeps them.
proof fn lemma_filter_step(s: Seq<WalkView>, p: spec_fn(WalkView) -> bool, i: int)
    requires
        0 <= i < s.len(),
    ensures
        p(s[i]) ==> s.take(i + 1).filter(p) == s.take(i).filter(p).push(s[i]),
        !p(s[i]) ==> s.take(i + 1).filter(p) == s.take(i).filter(p),
{
    let t = s.take(i + 1);
    assert(t.drop_last() =~= s.take(i));
    assert(t.last() == s[i]);
    reveal_with_fuel(Seq::filter, 1);
}

/// The search for the data directory; `Err` when it is ambiguous.
pub fn find_data_dir(name: &str, entries: &Vec<WalkEntry>) -> (r: Result<String, InstallerError>)
    requires
        data_dirs(walk_views(entries@), 5).len() == 0 ==> extensions_known(walk_views(entries@)),
    ensures
        match data_dir_of(walk_views(entries@)) {
            Some(d) => r matches Ok(p) && p@ == d,
            None => r matches Err(InstallerError::MultipleDataDirectories(n)) && n@ == name@,
        },
{
    let ghost es = walk_views(entries@);
    let ghost p2 = |e: WalkView| is_data_dir(e, 2);
    let ghost p5 = |e: WalkView| is_data_dir(e, 5);
    let ghost pesp = |e: WalkView| has_ext(e, "esp"@);
    let ghost pesm = |e: WalkView| has_ext(e, "esm"@);
    let ghost pesl = |e: WalkView| has_ext(e, "esl"@);
    let mut n2: usize = 0;
    let mut n5: usize = 0;
    let mut nesp: usize = 0;
    let mut nesm: usize = 0;
    let mut nesl: usize = 0;
    let mut f2: String = String::new();
    let mut f5: String = String::new();
    let mut fesm: String = String::new();
    let mut fesl: String = String::new();
    proof {
        reveal_strlit("data");
        reveal_strlit("esp");
        reveal_strlit("esm");
        reveal_strlit("esl");
        assert(es.take(0) =~= Seq::<WalkView>::empty());
    }
    let mut i: usize = 0;
    while i < entries.len()
        invariant
            i <= entries@.len(),
            es == walk_views(entries@),
            p2 == (|e: WalkView| is_data_dir(e, 2)),
            p5 == (|e: WalkView| is_data_dir(e, 5)),
            pesp == (|e: WalkView| has_ext(e, "esp"@)),
            pesm == (|e: WalkView| has_ext(e, "esm"@)),
            pesl == (|e: WalkView| has_ext(e, "esl"@)),
            n2 == es.take(i as int).filter(p2).len(),
            n5 == es.take(i as int).filter(p5).len(),
            nesp == es.take(i as int).filter(pesp).len(),
            nesm == es.take(i as int).filter(pesm).len(),
            nesl == es.take(i as int).filter(pesl).len(),
            n2 > 0 ==> f2@ == es.take(i as int).filter(p2)[0].path,
            n5 > 0 ==> f5@ == es.take(i as int).filter(p5)[0].path,
            nesm > 0 ==> fesm@ == es.take(i as int).filter(pesm)[0].path,
            nesl > 0 ==> fesl@ == es.take(i as int).filter(pesl)[0].path,
            n2 <= i && n5 <= i && nesp <= i && nesm <= i && nesl <= i,
        decreases entries.len() - i,
    {
        let e = &entries[i];
        assert(es[i as int] == e@);
        proof {
            lemma_filter_step(es, p2, i as int);
            lemma_filter_step(es, p5, i as int);
            lemma_filter_step(es, pesp, i as int);
            lemma_filter_step(es, pesm, i as int);
            lemma_filter_step(es, pesl, i as int);
        }
        let named_data = e.is_dir && str_eq(e.file_name.as_str(), "data");
        if named_data && e.depth <= 2 {
            if n2 == 0 {
                f2 = e.path.clone();
            }
            n2 = n2 + 1;
        }
        if named_data && e.depth <= 5 {
            if n5 == 0 {
                f5 = e.path.clone();
            }
            n5 = n5 + 1;
        }
        if e.is_file && e.depth <= 5 {
            match &e.extension {
                Some(x) => {
                    if str_eq(x.as_str(), "esp") {
                        nesp = nesp + 1;
                    }
                    if str_eq(x.as_str(), "esm") {
                        if nesm == 0 {
                            fesm = e.path.clone();
                        }
                        nesm = nesm + 1;
                    }
                    if str_eq(x.as_str(), "esl") {
                        if nesl == 0 {
                            fesl = e.path.clone();
                        }
                        nesl = nesl + 1;
                    }
                },
                None => {},
            }
        }
        i += 1;
    }
    assert(es.take(i as int) =~= es);
    let ambiguous = Err(InstallerError::MultipleDataDirectories(String::from_str(name)));
    if n2 == 1 {
        Ok(f2)
    } else if n2 > 1 {
        ambiguous
    } else if n5 == 1 {
        Ok(f5)
    } else if n5 > 1 {
        ambiguous
    } else if nesp > 0 || nesm > 1 {
        ambiguous
    } else if nesm == 1 {
        match parent(fesm.as_str()) {
            Some(q) => Ok(q),
            None => Ok(String::new()),
        }
    } else if nesl > 1 {
        ambiguous
    } else if nesl == 1 {
        match parent(fesl.as_str()) {
            Some(q) => Ok(q),
            None => Ok(String::new()),
        }
    } else {
        Ok(String::new())
    }
}

/// The installed and the read-me files of a data mod whose data directory
/// is `data_path`, in the order of the listing.
pub fn data_install_files(entries: &Vec<WalkEntry>, data_path: &str) -> (r: (
    Vec<InstallFile>,
    Vec<InstallFile>,
))
    ensures
        file_specs(r.0@) == data_files(walk_views(entries@), data_path@),
        file_specs(r.1@) == readme_files(walk_views(entries@), data_path@),
{
    let ghost es = walk_views(entries@);
    let ghost dp = data_path@;
    let ghost pk = |e: WalkView| in_data(e, dp) && !is_readme(e);
    let ghost pr = |e: WalkView| in_data(e, dp) && is_readme(e);
    let ghost g = |e: WalkView| data_file(e, dp);
    let mut files: Vec<InstallFile> = Vec::new();
    let mut readmes: Vec<InstallFile> = Vec::new();
    proof {
        reveal_strlit("readme");
        assert(es.take(0) =~= Seq::<WalkView>::empty());
        assert(file_specs(files@) =~= Seq::<FileSpec>::empty());
        assert(file_specs(readmes@) =~= Seq::<FileSpec>::empty());
    }
    let mut i: usize = 0;
    while i < entries.len()
        invariant
            i <= entries@.len(),
            es == walk_views(entries@),
            dp == data_path@,
            pk == (|e: WalkView| in_data(e, dp) && !is_readme(e)),
            pr == (|e: WalkView| in_data(e, dp) && is_readme(e)),
            g == (|e: WalkView| data_file(e, dp)),
            file_specs(files@) == es.take(i as int).filter(pk).map_values(g),
            file_specs(readmes@) == es.take(i as int).filter(pr).map_values(g),
        decreases entries.len() - i,
    {
        let e = &entries[i];
        assert(es[i as int] == e@);
        proof {
            lemma_filter_step(es, pk, i as int);
            lemma_filter_step(es, pr, i as int);
        }
        if e.is_file {
            match path_strip(e.path.as_str(), data_path) {
                Some(_) => {
                    let destination = match strip_prefix_str(e.path.as_str(), data_path) {
                        Some(t) => t,
                        None => e.path.clone(),
                    };
                    let f = InstallFile::new(e.path.clone(), destination);
                    assert(f@ == g(e@));
                    if contains(e.file_name.as_str(), "readme") {
                        let ghost before = file_specs(readmes@);
                        readmes.push(f);
                        assert(file_specs(readmes@) =~= before.push(g(e@)));
                        assert(es.take(i + 1).filter(pr).map_values(g) =~= before.push(g(e@)));
                    } else {
                        let ghost before = file_specs(files@);
                        files.push(f);
                        assert(file_specs(files@) =~= before.push(g(e@)));
                        assert(es.take(i + 1).filter(pk).map_values(g) =~= before.push(g(e@)));
                    }
                },
                None => {},
            }
        }
        i += 1;
    }
    assert(es.take(i as int) =~= es);
    (files, readmes)
}

/// The name a mod is listed under: the download's mod name when its
/// metadata is at hand, the name of its directory otherwise.
pub open spec fn listed_name(name: Seq<char>, dmodman: Option<DmodView>) -> Seq<char> {
    match dmodman {
        Some(d) => d.name(),
        None => name,
    }
}

/// The views of optional download metadata.
pub open spec fn dmod_opt(d: Option<&DmodMan>) -> Option<DmodView> {
    match d {
        Some(x) => Some(x@),
        None => None,
    }
}


/// The manifest of the data mod extracted into `cache_dir/name`, whose
/// directory holds `entries` (a listing in walk order). The download's
/// metadata, when there is any, gives the mod's name, Nexus id and version.
pub fn create_data_manifest(
    mod_kind: ModKind,
    cache_dir: &str,
    name: &str,
    entries: &Vec<WalkEntry>,
    dmodman: Option<&DmodMan>,
) -> (r: Result<Manifest, InstallerError>)
    requires
        mod_kind != ModKind::Loader,
        dmodman matches Some(d) ==> d@.has_name(),
        data_dirs(walk_views(entries@), 5).len() == 0 ==> extensions_known(walk_views(entries@)),
    ensures
        match data_dir_of(walk_views(entries@)) {
            Some(dp) => r matches Ok(m) && m@ == (ManifestView {
                cache_dir: cache_dir@,
                manifest_dir: name@,
                bare_file_name: listed_name(name@, dmod_opt(dmodman)),
                name: listed_name(name@, dmod_opt(dmodman)),
                version: match dmodman {
                    Some(d) => dmod_version(d@.file_name, d@.mod_id),
                    None => None,
                },
                nexus_id: match dmodman {
                    Some(d) => Some(d@.mod_id),
                    None => None,
                },
                mod_state: ModState::Disabled,
                mod_kind,
                priority: 0,
                internal: internal_of(
                    mod_kind,
                    data_files(walk_views(entries@), dp),
                    readme_files(walk_views(entries@), dp),
                ),
                tags: Seq::empty(),
            }),
            None => r matches Err(InstallerError::MultipleDataDirectories(n)) && n@ == name@,
        },
{
    let data_path = match find_data_dir(name, entries) {
        Ok(p) => p,
        Err(e) => {
            return Err(e);
        },
    };
    let (files, readmes) = data_install_files(entries, data_path.as_str());
    let (listed, nexus_id, version) = match dmodman {
        Some(d) => (d.name(), Some(d.mod_id()), d.version()),
        None => (String::from_str(name), None, None),
    };
    let bare = listed.clone();
    Ok(Manifest::new(cache_dir, name, bare, listed, nexus_id, version, files, readmes, mod_kind))
}

} // verus!
