//! A label: an empty mod that only names a place in the mod list.

use vstd::prelude::*;

use crate::manifest::install_file::{file_specs, FileSpec, InstallFile};
use crate::manifest::mod_state::ModState;
use crate::manifest::{internal_of, Manifest, ManifestView};
use crate::mods::ModKind;

verus! {

/// The manifest of the label `name` in `cache_dir`: no files, and the
/// version `Label`.
pub fn create_label_manifest(mod_kind: ModKind, cache_dir: &str, name: &str) -> (r: Manifest)
    requires
        mod_kind != ModKind::Loader,
    ensures
        r@ == (ManifestView {
            cache_dir: cache_dir@,
            manifest_dir: name@,
            bare_file_name: name@,
            name: name@,
            version: Some("Label"@),
            nexus_id: None,
            mod_state: ModState::Disabled,
            mod_kind,
            priority: 0,
            internal: internal_of(mod_kind, Seq::empty(), Seq::empty()),
            tags: Seq::empty(),
        }),
{
    let files: Vec<InstallFile> = Vec::new();
    let disabled: Vec<InstallFile> = Vec::new();
    assert(file_specs(files@) =~= Seq::<FileSpec>::empty());
    assert(file_specs(disabled@) =~= Seq::<FileSpec>::empty());
    Manifest::new(
        cache_dir,
        name,
        String::from_str(name),
        String::from_str(name),
        None,
        Some(String::from_str("Label")),
        files,
        disabled,
        mod_kind,
    )
}

} // verus!
