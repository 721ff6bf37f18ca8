//! The installer of a loader mod (a script extender): its executables and
//! libraries go into the game's root directory under their own names.

use vstd::prelude::*;

use super::{walk_views, WalkEntry, WalkView};
use crate::dmodman::{dmod_version, DmodMan, DmodView};
use crate::manifest::install_file::{file_specs, FileSpec, InstallFile};
use crate::manifest::loader::{find_with_ext, first_with_ext};
use crate::manifest::mod_state::ModState;
use crate::manifest::{internal_of, loader_ready, Manifest, ManifestView};
use crate::mods::ModKind;
use crate::paths::{extension, file_name, path_extension, path_file_name};
use crate::text::str_eq;

verus! {

/// A file of the mod with extension `dll` or `exe`.
pub open spec fn is_loader_file(e: WalkView) -> bool {
    e.is_file && (path_extension(e.path) == Some("dll"@) || path_extension(e.path) == Some(
        "exe"@,
    ))
}

/// A loader file goes into the game's root directory under its file name.
pub open spec fn loader_file(e: WalkView) -> FileSpec {
    FileSpec {
        source: e.path,
        destination: match path_file_name(e.path) {
            Some(n) => n,
            None => Seq::empty(),
        },
    }
}

/// The files a loader mod installs, in the order of the listing.
pub open spec fn loader_files(es: Seq<WalkView>) -> Seq<FileSpec> {
    es.filter(|e: WalkView| is_loader_file(e)).map_values(|e: WalkView| loader_file(e))
}

/// The files a loader mod whose directory holds `entries` installs.
pub fn loader_install_files(entries: &Vec<WalkEntry>) -> (r: Vec<InstallFile>)
    ensures
        file_specs(r@) == loader_files(walk_views(entries@)),
{
    let ghost es = walk_views(entries@);
    let ghost p = |e: WalkView| is_loader_file(e);
    let ghost g = |e: WalkView| loader_file(e);
    let mut r: Vec<InstallFile> = Vec::new();
    proof {
        reveal_strlit("dll");
        reveal_strlit("exe");
        assert(es.take(0) =~= Seq::<WalkView>::empty());
        assert(file_specs(r@) =~= Seq::<FileSpec>::empty());
    }
    let mut i: usize = 0;
    while i < entries.len()
        invariant
            i <= entries@.len(),
            es == walk_views(entries@),
            p == (|e: WalkView| is_loader_file(e)),
            g == (|e: WalkView| loader_file(e)),
            file_specs(r@) == es.take(i as int).filter(p).map_values(g),
        decreases entries.len() - i,
    {
        let e = &entries[i];
        assert(es[i as int] == e@);
        let ghost t = es.take(i + 1);
        assert(t.drop_last() =~= es.take(i as int));
        assert(t.last() == e@);
        proof {
            reveal_with_fuel(Seq::filter, 1);
        }
        let wanted = e.is_file && match extension(e.path.as_str()) {
            Some(x) => str_eq(x.as_str(), "dll") || str_eq(x.as_str(), "exe"),
            None => false,
        };
        if wanted {
            let name = match file_name(e.path.as_str()) {
                Some(n) => n,
                None => String::new(),
            };
            let f = InstallFile::new_raw(e.path.clone(), name);
            assert(f@ == g(e@));
            let ghost before = file_specs(r@);
            r.push(f);
            assert(file_specs(r@) =~= before.push(g(e@)));
            assert(t.filter(p).map_values(g) =~= before.push(g(e@)));
        } else {
            assert(t.filter(p) == es.take(i as int).filter(p));
        }
        i += 1;
    }
    assert(es.take(i as int) =~= es);
    r
}

/// Whether a manifest of kind `kind` can be made of `files`: a loader's
/// files must hold an executable and a library.
pub fn files_ready(kind: ModKind, files: &[InstallFile]) -> (r: bool)
    ensures
        r == loader_ready(kind, file_specs(files@)),
{
    if kind == ModKind::Loader {
        proof {
            reveal_strlit("exe");
            reveal_strlit("dll");
        }
        find_with_ext(files, "exe").is_some() && find_with_ext(files, "dll").is_some()
    } else {
        true
    }
}

/// The views of optional download metadata.
pub open spec fn dmod_opt_view(d: Option<&DmodMan>) -> Option<DmodView> {
    match d {
        Some(x) => Some(x@),
        None => None,
    }
}

/// The name a mod is listed under: the download's mod name when its
/// metadata is at hand, the name of its directory otherwise.
pub open spec fn dmod_or_dir_name(dir: Seq<char>, d: Option<DmodView>) -> Seq<char> {
    match d {
        Some(x) => x.name(),
        None => dir,
    }
}

/// The manifest of the loader mod extracted into `cache_dir/mod_dir`, whose
/// directory holds `entries`, with the download's metadata if there is any.
pub fn create_loader_manifest(
    mod_kind: ModKind,
    cache_dir: &str,
    mod_dir: &str,
    entries: &Vec<WalkEntry>,
    dmodman: Option<&DmodMan>,
) -> (r: Manifest)
    requires
        loader_ready(mod_kind, loader_files(walk_views(entries@))),
        dmodman matches Some(d) ==> d@.has_name(),
    ensures
        r@ == (ManifestView {
            cache_dir: cache_dir@,
            manifest_dir: mod_dir@,
            bare_file_name: dmod_or_dir_name(mod_dir@, dmod_opt_view(dmodman)),
            name: dmod_or_dir_name(mod_dir@, dmod_opt_view(dmodman)),
            version: match dmodman {
                Some(d) => dmod_version(d@.file_name, d@.mod_id),
                None => None,
            },
            nexus_id: match dmodman {
                Some(d) => Some(d@.mod_id),
                None => None,
            },
            mod_state: ModState::Disabled,
            mod_kind,
            priority: 0,
            internal: internal_of(mod_kind, loader_files(walk_views(entries@)), Seq::empty()),
            tags: Seq::empty(),
        }),
{
    let files = loader_install_files(entries);
    let disabled: Vec<InstallFile> = Vec::new();
    assert(file_specs(disabled@) =~= Seq::<FileSpec>::empty());
    let (name, nexus_id, version) = match dmodman {
        Some(d) => (d.name(), Some(d.mod_id()), d.version()),
        None => (String::from_str(mod_dir), None, None),
    };
    let bare = name.clone();
    Manifest::new(cache_dir, mod_dir, bare, name, nexus_id, version, files, disabled, mod_kind)
}

} // verus!
