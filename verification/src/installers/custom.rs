//! The installer of a custom mod: a directory the user fills, whose files
//! all go into the game's data directory.

use vstd::prelude::*;

use super::{walk_views, WalkEntry, WalkView};
use crate::manifest::install_file::{data_destination, file_specs, FileSpec, InstallFile};
use crate::manifest::mod_state::ModState;
use crate::manifest::{internal_of, Manifest, ManifestView};
use crate::mods::ModKind;
use crate::text::{contains, contains_seq, str_lower, to_lower};

verus! {

/// A file of a custom mod, installed under its lower-cased path.
pub open spec fn custom_file(e: WalkView) -> FileSpec {
    FileSpec { source: e.path, destination: data_destination(str_lower(e.path)) }
}

/// A file whose name holds `readme`.
pub open spec fn is_readme_file(e: WalkView) -> bool {
    e.is_file && contains_seq(e.file_name, "readme"@)
}

/// The installed files of a custom mod.
pub open spec fn custom_files(es: Seq<WalkView>) -> Seq<FileSpec> {
    es.filter(|e: WalkView| e.is_file && !contains_seq(e.file_name, "readme"@)).map_values(
        |e: WalkView| custom_file(e),
    )
}

/// The read-me files of a custom mod, installed disabled.
pub open spec fn custom_readmes(es: Seq<WalkView>) -> Seq<FileSpec> {
    es.filter(|e: WalkView| is_readme_file(e)).map_values(|e: WalkView| custom_file(e))
}

/// The installed and the read-me files of a custom mod whose directory
/// holds `entries`.
pub fn custom_install_files(entries: &Vec<WalkEntry>) -> (r: (Vec<InstallFile>, Vec<InstallFile>))
    ensures
        file_specs(r.0@) == custom_files(walk_views(entries@)),
        file_specs(r.1@) == custom_readmes(walk_views(entries@)),
{
    let ghost es = walk_views(entries@);
    let ghost pk = |e: WalkView| e.is_file && !contains_seq(e.file_name, "readme"@);
    let ghost pr = |e: WalkView| is_readme_file(e);
    let ghost g = |e: WalkView| custom_file(e);
    let mut files: Vec<InstallFile> = Vec::new();
    let mut readmes: Vec<InstallFile> = Vec::new();
    proof {
        reveal_strlit("readme");
        assert(es.take(0) =~= Seq::<WalkView>::empty());
        assert(file_specs(files@) =~= Seq::<FileSpec>::empty());
        assert(file_specs(readmes@) =~= Seq::<FileSpec>::empty());
    }
    let mut i: usize = 0;
    while i < entries.len()
        invariant
            i <= entries@.len(),
            es == walk_views(entries@),
            pk == (|e: WalkView| e.is_file && !contains_seq(e.file_name, "readme"@)),
            pr == (|e: WalkView| is_readme_file(e)),
            g == (|e: WalkView| custom_file(e)),
            file_specs(files@) == es.take(i as int).filter(pk).map_values(g),
            file_specs(readmes@) == es.take(i as int).filter(pr).map_values(g),
        decreases entries.len() - i,
    {
        let e = &entries[i];
        assert(es[i as int] == e@);
        let ghost t = es.take(i + 1);
        assert(t.drop_last() =~= es.take(i as int));
        assert(t.last() == e@);
        proof {
            reveal_with_fuel(Seq::filter, 1);
        }
        if e.is_file {
            let f = InstallFile::new(e.path.clone(), to_lower(e.path.as_str()));
            assert(f@ == g(e@));
            if contains(e.file_name.as_str(), "readme") {
                let ghost before = file_specs(readmes@);
                readmes.push(f);
                assert(file_specs(readmes@) =~= before.push(g(e@)));
                assert(t.filter(pr).map_values(g) =~= before.push(g(e@)));
                assert(t.filter(pk) == es.take(i as int).filter(pk));
            } else {
                let ghost before = file_specs(files@);
                files.push(f);
                assert(file_specs(files@) =~= before.push(g(e@)));
                assert(t.filter(pk).map_values(g) =~= before.push(g(e@)));
                assert(t.filter(pr) == es.take(i as int).filter(pr));
            }
        } else {
            assert(t.filter(pk) == es.take(i as int).filter(pk));
            assert(t.filter(pr) == es.take(i as int).filter(pr));
        }
        i += 1;
    }
    assert(es.take(i as int) =~= es);
    (files, readmes)
}

/// The manifest of the custom mod in `cache_dir/name`, whose directory
/// holds `entries`.
pub fn create_custom_manifest(
    mod_kind: ModKind,
    cache_dir: &str,
    name: &str,
    entries: &Vec<WalkEntry>,
) -> (r: Manifest)
    requires
        mod_kind != ModKind::Loader,
    ensures
        r@ == (ManifestView {
            cache_dir: cache_dir@,
            manifest_dir: name@,
            bare_file_name: name@,
            name: name@,
            version: None,
            nexus_id: None,
            mod_state: ModState::Disabled,
            mod_kind,
            priority: 0,
            internal: internal_of(
                mod_kind,
                custom_files(walk_views(entries@)),
                custom_readmes(walk_views(entries@)),
            ),
            tags: Seq::empty(),
        }),
{
    let (files, readmes) = custom_install_files(entries);
    Manifest::new(
        cache_dir,
        name,
        String::from_str(name),
        String::from_str(name),
        None,
        None,
        files,
        readmes,
        mod_kind,
    )
}

} // verus!
