//! The manifest of an installed mod: its identity, state, priority, tags,
//! and the files it installs.

pub mod install_file;
pub mod mod_state;
pub mod data;
pub mod loader;
pub mod custom;

use vstd::prelude::*;

use self::custom::CustomManifest;
use self::data::{data_disable, data_enable, DataManifest, DataView};
use self::install_file::{duplicate_files, file_specs, FileSpec, InstallFile};
use self::loader::{extension_or_empty, first_with_ext, LoaderManifest, LoaderView};
use self::mod_state::ModState;
use crate::dmodman::DmodMan;
use crate::mods::ModKind;
use crate::paths::{extension, join, path_extension, path_join};
use crate::text::{
    index_of, lemma_index_of, position_of, seq_less, str_eq, str_less, str_lower, strs, to_lower,
    version_before, version_less,
};

verus! {

/// The extension of manifest files.
pub const MANIFEST_EXTENSION: &'static str = "ron";

/// The abstract value of the kind-specific part of a manifest.
pub enum InternalView {
    Data(DataView),
    Loader(LoaderView),
    Custom(Seq<FileSpec>),
}

/// The files a manifest installs.
pub open spec fn internal_files(v: InternalView) -> Seq<FileSpec> {
    match v {
        InternalView::Data(d) => d.files,
        InternalView::Loader(l) => seq![l.dll, l.exe],
        InternalView::Custom(c) => c,
    }
}

/// The files of a manifest that the user disabled.
pub open spec fn internal_disabled(v: InternalView) -> Seq<FileSpec> {
    match v {
        InternalView::Data(d) => d.disabled,
        _ => Seq::empty(),
    }
}

/// The kind-specific part of a manifest.
#[derive(Debug)]
pub enum ManifestInternal {
    Data(DataManifest),
    Loader(LoaderManifest),
    Custom(CustomManifest),
}

impl View for ManifestInternal {
    type V = InternalView;

    closed spec fn view(&self) -> InternalView {
        match self {
            ManifestInternal::Data(d) => InternalView::Data(d@),
            ManifestInternal::Loader(l) => InternalView::Loader(l@),
            ManifestInternal::Custom(c) => InternalView::Custom(c@),
        }
    }
}

/// What a manifest of kind `kind` made from `files` holds.
pub open spec fn internal_of(kind: ModKind, files: Seq<FileSpec>, disabled: Seq<FileSpec>) -> InternalView {
    match kind {
        ModKind::Data | ModKind::FoMod => InternalView::Data(DataView { files, disabled }),
        ModKind::Loader => InternalView::Loader(
            LoaderView {
                dll: files[first_with_ext(files, "dll"@)->0],
                exe: files[first_with_ext(files, "exe"@)->0],
            },
        ),
        ModKind::Custom => InternalView::Custom(files),
    }
}

/// A loader manifest needs an executable and a library among its files.
pub open spec fn loader_ready(kind: ModKind, files: Seq<FileSpec>) -> bool {
    kind == ModKind::Loader ==> first_with_ext(files, "exe"@) is Some && first_with_ext(
        files,
        "dll"@,
    ) is Some
}

impl ManifestInternal {
    /// The kind-specific part of a new manifest of kind `mod_kind`.
    pub fn new(mod_kind: ModKind, files: Vec<InstallFile>, disabled_files: Vec<InstallFile>) -> (r: Self)
        requires
            loader_ready(mod_kind, file_specs(files@)),
        ensures
            r@ == internal_of(mod_kind, file_specs(files@), file_specs(disabled_files@)),
    {
        match mod_kind {
            ModKind::FoMod | ModKind::Data => ManifestInternal::Data(
                DataManifest::new(files, disabled_files),
            ),
            ModKind::Loader => ManifestInternal::Loader(LoaderManifest::new(files.as_slice())),
            ModKind::Custom => ManifestInternal::Custom(CustomManifest::new(files)),
        }
    }

    /// A copy of the kind-specific part.
    pub fn duplicate(&self) -> (r: Self)
        ensures
            r@ == self@,
    {
        match self {
            ManifestInternal::Data(d) => ManifestInternal::Data(d.duplicate()),
            ManifestInternal::Loader(l) => ManifestInternal::Loader(l.duplicate()),
            ManifestInternal::Custom(c) => ManifestInternal::Custom(c.duplicate()),
        }
    }

    /// The files the mod installs.
    pub fn files(&self) -> (r: Vec<InstallFile>)
        ensures
            file_specs(r@) == internal_files(self@),
    {
        match self {
            ManifestInternal::Data(d) => d.files(),
            ManifestInternal::Loader(l) => l.files(),
            ManifestInternal::Custom(c) => c.files(),
        }
    }

    /// The files the user disabled; only data mods have any.
    pub fn disabled_files(&self) -> (r: Vec<InstallFile>)
        ensures
            file_specs(r@) == internal_disabled(self@),
    {
        match self {
            ManifestInternal::Data(d) => d.disabled_files(),
            _ => {
                let r: Vec<InstallFile> = Vec::new();
                assert(file_specs(r@) =~= Seq::<FileSpec>::empty());
                r
            },
        }
    }

    /// Disables the file `name` of a data mod; other mods have none to disable.
    pub fn disable_file(&mut self, name: &str) -> (found: bool)
        ensures
            match old(self)@ {
                InternalView::Data(d) => final(self)@ == InternalView::Data(data_disable(d, name@).0)
                    && found == data_disable(d, name@).1,
                _ => final(self)@ == old(self)@ && !found,
            },
    {
        match self {
            ManifestInternal::Data(d) => d.disable_file(name),
            _ => false,
        }
    }

    /// Enables the disabled file `name` of a data mod.
    pub fn enable_file(&mut self, name: &str) -> (found: bool)
        ensures
            match old(self)@ {
                InternalView::Data(d) => final(self)@ == InternalView::Data(data_enable(d, name@).0)
                    && found == data_enable(d, name@).1,
                _ => final(self)@ == old(self)@ && !found,
            },
    {
        match self {
            ManifestInternal::Data(d) => d.enable_file(name),
            _ => false,
        }
    }

    /// Replaces the files of a custom mod by those of a new scan.
    pub fn rescan(&mut self, files: Vec<InstallFile>)
        ensures
            old(self)@ is Custom ==> final(self)@ == InternalView::Custom(file_specs(files@)),
            !(old(self)@ is Custom) ==> final(self)@ == old(self)@,
    {
        match self {
            ManifestInternal::Custom(c) => c.rescan(files),
            _ => {},
        }
    }
}

/// The abstract value of a manifest.
pub struct ManifestView {
    pub cache_dir: Seq<char>,
    pub manifest_dir: Seq<char>,
    pub bare_file_name: Seq<char>,
    pub name: Seq<char>,
    pub version: Option<Seq<char>>,
    pub nexus_id: Option<u32>,
    pub mod_state: ModState,
    pub mod_kind: ModKind,
    pub priority: isize,
    pub internal: InternalView,
    pub tags: Seq<Seq<char>>,
}

impl ManifestView {
    /// The files the mod installs.
    pub open spec fn files(self) -> Seq<FileSpec> {
        internal_files(self.internal)
    }

    /// Where the mod's files go.
    pub open spec fn dests(self) -> Seq<Seq<char>> {
        self.files().map_values(|f: FileSpec| f.destination)
    }

    /// The mod is enabled.
    pub open spec fn enabled(self) -> bool {
        self.mod_state == ModState::Enabled
    }
}

/// The text of an optional string, or nothing.
pub open spec fn or_empty(s: Option<Seq<char>>) -> Seq<char> {
    match s {
        Some(t) => t,
        None => Seq::empty(),
    }
}

/// The configuration file extensions looked for when none is given.
pub open spec fn default_config_exts() -> Seq<Seq<char>> {
    seq!["ini"@, "json"@, "yaml"@, "xml"@, "config"@, "toml"@]
}

/// The view of an optional string slice.
pub open spec fn str_opt_view(s: Option<&str>) -> Option<Seq<char>> {
    match s {
        Some(t) => Some(t@),
        None => None,
    }
}

/// `f` is a configuration file: its extension is the one wanted, or one of
/// the usual ones when none is wanted.
pub open spec fn is_config_file(f: Seq<char>, wanted: Option<Seq<char>>) -> bool {
    match path_extension(f) {
        Some(e) => match wanted {
            Some(w) => e == w,
            None => default_config_exts().contains(e),
        },
        None => false,
    }
}

/// The tags after adding the (lower-cased) tag `t`, and whether it was new.
pub open spec fn tags_add(tags: Seq<Seq<char>>, t: Seq<char>) -> (Seq<Seq<char>>, bool) {
    if tags.contains(t) {
        (tags, false)
    } else {
        (tags.push(t), true)
    }
}

/// The tags after removing the (lower-cased) tag `t`: its first occurrence
/// is replaced by the last tag, which is then dropped.
pub open spec fn tags_remove(tags: Seq<Seq<char>>, t: Seq<char>) -> Seq<Seq<char>> {
    match index_of(tags, t) {
        Some(i) => tags.update(i, tags.last()).drop_last(),
        None => tags,
    }
}

/// `a` comes before `b` in the mod list: lower priority first, then by name.
pub open spec fn manifest_before(a: ManifestView, b: ManifestView) -> bool {
    a.priority < b.priority || (a.priority == b.priority && seq_less(a.name, b.name))
}

/// The download `d` is a newer version of mod `m`: same archive name and
/// Nexus id (an unknown id counts as 0), and a newer version than the
/// mod's, dot-separated parts compared in order and numbers by value (an
/// unknown version counts as empty).
pub open spec fn update_available(m: ManifestView, d: crate::dmodman::DmodView) -> bool {
    d.name() == m.bare_file_name && d.mod_id == match m.nexus_id {
        Some(id) => id,
        None => 0,
    } && version_less(
        or_empty(m.version),
        or_empty(crate::dmodman::dmod_version(d.file_name, d.mod_id)),
    )
}

/// An installed mod.
#[derive(Debug)]
pub struct Manifest {
    cache_dir: String,
    manifest_dir: String,
    bare_file_name: String,
    name: String,
    version: Option<String>,
    nexus_id: Option<u32>,
    mod_state: ModState,
    mod_kind: ModKind,
    priority: isize,
    internal: ManifestInternal,
    tags: Vec<String>,
}

/// The view of an optional string.
pub open spec fn opt_view(s: Option<String>) -> Option<Seq<char>> {
    match s {
        Some(t) => Some(t@),
        None => None,
    }
}

impl View for Manifest {
    type V = ManifestView;

    closed spec fn view(&self) -> ManifestView {
        ManifestView {
            cache_dir: self.cache_dir@,
            manifest_dir: self.manifest_dir@,
            bare_file_name: self.bare_file_name@,
            name: self.name@,
            version: opt_view(self.version),
            nexus_id: self.nexus_id,
            mod_state: self.mod_state,
            mod_kind: self.mod_kind,
            priority: self.priority,
            internal: self.internal@,
            tags: strs(self.tags@),
        }
    }
}

/// A copy of an optional string.
fn copy_opt(s: &Option<String>) -> (r: Option<String>)
    ensures
        opt_view(r) == opt_view(*s),
{
    match s {
        Some(t) => Some(t.clone()),
        None => None,
    }
}

impl Manifest {
    /// A new, disabled manifest with priority 0 and no tags.
    #[allow(clippy::too_many_arguments)]
    pub fn new(
        cache_dir: &str,
        manifest_dir: &str,
        bare_file_name: String,
        name: String,
        nexus_id: Option<u32>,
        version: Option<String>,
        files: Vec<InstallFile>,
        disabled_files: Vec<InstallFile>,
        mod_kind: ModKind,
    ) -> (r: Self)
        requires
            loader_ready(mod_kind, file_specs(files@)),
        ensures
            r@ == (ManifestView {
                cache_dir: cache_dir@,
                manifest_dir: manifest_dir@,
                bare_file_name: bare_file_name@,
                name: name@,
                version: opt_view(version),
                nexus_id,
                mod_state: ModState::Disabled,
                mod_kind,
                priority: 0,
                internal: internal_of(mod_kind, file_specs(files@), file_specs(disabled_files@)),
                tags: Seq::empty(),
            }),
    {
        let tags: Vec<String> = Vec::new();
        let r = Manifest {
            cache_dir: String::from_str(cache_dir),
            manifest_dir: String::from_str(manifest_dir),
            bare_file_name,
            name,
            nexus_id,
            version,
            mod_state: ModState::Disabled,
            priority: 0,
            mod_kind,
            internal: ManifestInternal::new(mod_kind, files, disabled_files),
            tags,
        };
        assert(strs(r.tags@) =~= Seq::<Seq<char>>::empty());
        r
    }

    /// Sets the priority.
    pub fn set_priority(&mut self, priority: isize)
        ensures
            final(self)@ == (ManifestView { priority, ..old(self)@ }),
    {
        self.priority = priority;
    }

    /// Sets the displayed name.
    pub fn set_name(&mut self, name: String)
        ensures
            final(self)@ == (ManifestView { name: name@, ..old(self)@ }),
    {
        self.name = name;
    }

    /// Marks the mod enabled.
    pub fn set_enabled(&mut self)
        ensures
            final(self)@ == (ManifestView { mod_state: ModState::Enabled, ..old(self)@ }),
    {
        self.mod_state = ModState::Enabled;
    }

    /// Marks the mod disabled.
    pub fn set_disabled(&mut self)
        ensures
            final(self)@ == (ManifestView { mod_state: ModState::Disabled, ..old(self)@ }),
    {
        self.mod_state = ModState::Disabled;
    }

    /// Sets where the manifest is kept.
    pub fn set_cache_dir(&mut self, cache_dir: &str)
        ensures
            final(self)@ == (ManifestView { cache_dir: cache_dir@, ..old(self)@ }),
    {
        self.cache_dir = String::from_str(cache_dir);
    }

    /// A manifest is always considered valid.
    pub fn is_valid(&self) -> (r: bool)
        ensures
            r,
    {
        true
    }

    /// The directory holding the manifests and the extracted mods.
    pub fn cache_dir(&self) -> (r: &str)
        ensures
            r@ == self@.cache_dir,
    {
        self.cache_dir.as_str()
    }

    /// The mod's directory, relative to the cache directory.
    pub fn manifest_dir(&self) -> (r: &str)
        ensures
            r@ == self@.manifest_dir,
    {
        self.manifest_dir.as_str()
    }

    /// The name of the archive the mod came from.
    pub fn bare_file_name(&self) -> (r: &str)
        ensures
            r@ == self@.bare_file_name,
    {
        self.bare_file_name.as_str()
    }

    /// The displayed name.
    pub fn name(&self) -> (r: &str)
        ensures
            r@ == self@.name,
    {
        self.name.as_str()
    }

    /// The Nexus id.
    pub fn nexus_id(&self) -> (r: Option<u32>)
        ensures
            r == self@.nexus_id,
    {
        self.nexus_id
    }

    /// The version.
    pub fn version(&self) -> (r: Option<&str>)
        ensures
            r matches Some(v) ==> self@.version == Some(v@),
            r is None ==> self@.version is None,
    {
        match &self.version {
            Some(v) => Some(v.as_str()),
            None => None,
        }
    }

    /// The state.
    pub fn mod_state(&self) -> (r: ModState)
        ensures
            r == self@.mod_state,
    {
        self.mod_state
    }

    /// The mod is enabled.
    pub fn is_enabled(&self) -> (r: bool)
        ensures
            r == self@.enabled(),
    {
        self.mod_state.is_enabled()
    }

    /// The kind.
    pub fn kind(&self) -> (r: ModKind)
        ensures
            r == self@.mod_kind,
    {
        self.mod_kind
    }

    /// The priority.
    pub fn priority(&self) -> (r: isize)
        ensures
            r == self@.priority,
    {
        self.priority
    }

    /// A copy of the manifest.
    pub fn duplicate(&self) -> (r: Self)
        ensures
            r@ == self@,
    {
        let mut tags: Vec<String> = Vec::new();
        let mut i: usize = 0;
        while i < self.tags.len()
            invariant
                i <= self.tags@.len(),
                strs(tags@) == strs(self.tags@).take(i as int),
            decreases self.tags.len() - i,
        {
            let ghost before = strs(tags@);
            tags.push(self.tags[i].clone());
            assert(strs(tags@) =~= before.push(self.tags@[i as int]@));
            assert(strs(self.tags@).take(i + 1) =~= strs(self.tags@).take(i as int).push(
                self.tags@[i as int]@,
            ));
            i += 1;
        }
        assert(strs(self.tags@).take(i as int) =~= strs(self.tags@));
        Manifest {
            cache_dir: self.cache_dir.clone(),
            manifest_dir: self.manifest_dir.clone(),
            bare_file_name: self.bare_file_name.clone(),
            name: self.name.clone(),
            version: copy_opt(&self.version),
            nexus_id: self.nexus_id,
            mod_state: self.mod_state,
            mod_kind: self.mod_kind,
            priority: self.priority,
            internal: self.internal.duplicate(),
            tags,
        }
    }

    /// The tags.
    pub fn tags(&self) -> (r: &[String])
        ensures
            strs(r@) == self@.tags,
    {
        self.tags.as_slice()
    }

    /// The files the mod installs.
    pub fn files(&self) -> (r: Vec<InstallFile>)
        ensures
            file_specs(r@) == self@.files(),
    {
        self.internal.files()
    }

    /// Where the mod's files go.
    pub fn dest_files(&self) -> (r: Vec<String>)
        ensures
            strs(r@) == self@.dests(),
    {
        let files = self.files();
        let mut r: Vec<String> = Vec::new();
        let mut i: usize = 0;
        while i < files.len()
            invariant
                i <= files@.len(),
                file_specs(files@) == self@.files(),
                r@.len() == i,
                forall|k: int| 0 <= k < i ==> #[trigger] r@[k]@ == files@[k]@.destination,
            decreases files.len() - i,
        {
            r.push(String::from_str(files[i].destination()));
            i += 1;
        }
        proof {
            assert forall|k: int| 0 <= k < r@.len() implies strs(r@)[k] == self@.dests()[k] by {
                assert(self@.files()[k] == file_specs(files@)[k]);
            }
            assert(strs(r@) =~= self@.dests());
        }
        r
    }

    /// Where the mod's files lie: each source joined to the mod's directory.
    pub fn origin_files(&self) -> (r: Vec<String>)
        ensures
            strs(r@) == self@.files().map_values(
                |f: FileSpec| path_join(self@.manifest_dir, f.source),
            ),
    {
        let files = self.files();
        let mut r: Vec<String> = Vec::new();
        let mut i: usize = 0;
        while i < files.len()
            invariant
                i <= files@.len(),
                file_specs(files@) == self@.files(),
                r@.len() == i,
                forall|k: int|
                    0 <= k < i ==> #[trigger] r@[k]@ == path_join(
                        self@.manifest_dir,
                        files@[k]@.source,
                    ),
            decreases files.len() - i,
        {
            r.push(join(self.manifest_dir.as_str(), files[i].source()));
            i += 1;
        }
        proof {
            let target = self@.files().map_values(
                |f: FileSpec| path_join(self@.manifest_dir, f.source),
            );
            assert forall|k: int| 0 <= k < r@.len() implies strs(r@)[k] == target[k] by {
                assert(self@.files()[k] == file_specs(files@)[k]);
            }
            assert(strs(r@) =~= target);
        }
        r
    }

    /// The files the user disabled.
    pub fn disabled_files(&self) -> (r: Vec<InstallFile>)
        ensures
            file_specs(r@) == internal_disabled(self@.internal),
    {
        self.internal.disabled_files()
    }

    /// Disables the file `name`; tells whether it was found.
    pub fn disable_file(&mut self, name: &str) -> (found: bool)
        ensures
            final(self)@ == (ManifestView { internal: final(self)@.internal, ..old(self)@ }),
            match old(self)@.internal {
                InternalView::Data(d) => final(self)@.internal == InternalView::Data(
                    data_disable(d, name@).0,
                ) && found == data_disable(d, name@).1,
                _ => final(self)@.internal == old(self)@.internal && !found,
            },
    {
        self.internal.disable_file(name)
    }

    /// Enables the disabled file `name`; tells whether it was found.
    pub fn enable_file(&mut self, name: &str) -> (found: bool)
        ensures
            final(self)@ == (ManifestView { internal: final(self)@.internal, ..old(self)@ }),
            match old(self)@.internal {
                InternalView::Data(d) => final(self)@.internal == InternalView::Data(
                    data_enable(d, name@).0,
                ) && found == data_enable(d, name@).1,
                _ => final(self)@.internal == old(self)@.internal && !found,
            },
    {
        self.internal.enable_file(name)
    }

    /// Replaces the files of a custom mod by those of a new scan of its directory.
    pub fn rescan(&mut self, files: Vec<InstallFile>)
        ensures
            final(self)@ == (ManifestView { internal: final(self)@.internal, ..old(self)@ }),
            old(self)@.internal is Custom ==> final(self)@.internal == InternalView::Custom(
                file_specs(files@),
            ),
            !(old(self)@.internal is Custom) ==> final(self)@.internal == old(self)@.internal,
    {
        self.internal.rescan(files)
    }

    /// The mod's configuration files: those of its files (joined to the
    /// mod's directory) whose extension is `extension_wanted`, or, when none
    /// is given, one of the usual configuration extensions.
    pub fn find_config_files(&self, extension_wanted: Option<&str>) -> (r: Vec<String>)
        ensures
            strs(r@) == self.origin_files_spec().filter(
                |f: Seq<char>| is_config_file(f, str_opt_view(extension_wanted)),
            ),
    {
        let origins = self.origin_files();
        let ghost wanted = str_opt_view(extension_wanted);
        let ghost pred = |f: Seq<char>| is_config_file(f, wanted);
        let mut r: Vec<String> = Vec::new();
        let mut i: usize = 0;
        proof {
            reveal_strlit("ini");
            reveal_strlit("json");
            reveal_strlit("yaml");
            reveal_strlit("xml");
            reveal_strlit("config");
            reveal_strlit("toml");
        }
        while i < origins.len()
            invariant
                i <= origins@.len(),
                wanted == str_opt_view(extension_wanted),
                pred == (|f: Seq<char>| is_config_file(f, wanted)),
                strs(origins@) == self.origin_files_spec(),
                strs(r@) == strs(origins@).take(i as int).filter(pred),
            decreases origins.len() - i,
        {
            let f = &origins[i];
            let keep = match extension(f.as_str()) {
                Some(e) => match extension_wanted {
                    Some(w) => str_eq(e.as_str(), w),
                    None => {
                        let x = e.as_str();
                        let k = str_eq(x, "ini") || str_eq(x, "json") || str_eq(x, "yaml")
                            || str_eq(x, "xml") || str_eq(x, "config") || str_eq(x, "toml");
                        proof {
                            assert(default_config_exts()[0] == "ini"@);
                            assert(default_config_exts()[1] == "json"@);
                            assert(default_config_exts()[2] == "yaml"@);
                            assert(default_config_exts()[3] == "xml"@);
                            assert(default_config_exts()[4] == "config"@);
                            assert(default_config_exts()[5] == "toml"@);
                            if k {
                                assert(default_config_exts().contains(x@));
                            } else {
                                assert(!default_config_exts().contains(x@));
                            }
                        }
                        k
                    },
                },
                None => false,
            };
            assert(strs(origins@)[i as int] == f@);
            assert(keep == is_config_file(f@, wanted));
            assert(keep == pred(f@));
            let ghost t1 = strs(origins@).take(i + 1);
            assert(t1.drop_last() =~= strs(origins@).take(i as int));
            assert(t1.last() == f@);
            proof {
                reveal_with_fuel(Seq::filter, 1);
            }
            let ghost before = r@;
            if keep {
                r.push(f.clone());
                assert(strs(r@) =~= strs(before).push(f@));
            } else {
                assert(strs(r@) =~= strs(before));
            }
            i += 1;
        }
        assert(strs(origins@).take(i as int) =~= strs(origins@));
        r
    }

    /// Where the mod's files lie, joined to the mod's directory.
    pub open spec fn origin_files_spec(&self) -> Seq<Seq<char>> {
        self@.files().map_values(|f: FileSpec| path_join(self@.manifest_dir, f.source))
    }

    /// The download `dmodman` is a newer version of this mod: same archive
    /// name and Nexus id, and a version that sorts after the mod's.
    pub fn is_an_update(&self, dmodman: &DmodMan) -> (r: bool)
        requires
            dmodman@.has_name(),
        ensures
            r == update_available(self@, dmodman@),
    {
        let name = dmodman.name();
        let id = match self.nexus_id {
            Some(id) => id,
            None => 0,
        };
        let theirs = match dmodman.version() {
            Some(v) => v,
            None => String::new(),
        };
        let mine = match &self.version {
            Some(v) => v.clone(),
            None => String::new(),
        };
        str_eq(name.as_str(), self.bare_file_name.as_str()) && dmodman.mod_id() == id && version_before(
            mine.as_str(),
            theirs.as_str(),
        )
    }

    /// Adds the lower-cased `tag`; tells whether it was new.
    pub fn add_tag(&mut self, tag: &str) -> (added: bool)
        ensures
            final(self)@ == (ManifestView {
                tags: tags_add(old(self)@.tags, str_lower(tag@)).0,
                ..old(self)@
            }),
            added == tags_add(old(self)@.tags, str_lower(tag@)).1,
    {
        let t = to_lower(tag);
        proof {
            lemma_index_of(strs(self.tags@), t@);
        }
        match position_of(&self.tags, t.as_str()) {
            Some(_) => false,
            None => {
                let ghost before = self.tags@;
                self.tags.push(t);
                assert(strs(self.tags@) =~= strs(before).push(str_lower(tag@)));
                true
            },
        }
    }

    /// Removes the lower-cased `tag` if it is there (the last tag takes its
    /// place); the answer tells whether it was there.
    pub fn remove_tag(&mut self, tag: &str) -> (r: bool)
        ensures
            final(self)@ == (ManifestView {
                tags: tags_remove(old(self)@.tags, str_lower(tag@)),
                ..old(self)@
            }),
            r == old(self)@.tags.contains(str_lower(tag@)),
    {
        let t = to_lower(tag);
        proof {
            lemma_index_of(strs(self.tags@), t@);
        }
        match position_of(&self.tags, t.as_str()) {
            Some(idx) => {
                let ghost before = self.tags@;
                let _removed = self.tags.swap_remove(idx);
                assert(strs(self.tags@) =~= strs(before).update(idx as int, strs(before).last()).drop_last());
                true
            },
            None => false,
        }
    }

    /// This mod comes before `other` in the mod list.
    pub fn sorts_before(&self, other: &Manifest) -> (r: bool)
        ensures
            r == manifest_before(self@, other@),
    {
        self.priority < other.priority || (self.priority == other.priority && str_less(
            self.name.as_str(),
            other.name.as_str(),
        ))
    }

    /// Both describe the same mod: name, version, Nexus id, directory,
    /// state and kind agree.
    pub fn same_as(&self, other: &Manifest) -> (r: bool)
        ensures
            r == (self@.name == other@.name && self@.version == other@.version && self@.nexus_id
                == other@.nexus_id && self@.manifest_dir == other@.manifest_dir && self@.mod_state
                == other@.mod_state && self@.mod_kind == other@.mod_kind),
    {
        let versions_equal = match (&self.version, &other.version) {
            (Some(a), Some(b)) => str_eq(a.as_str(), b.as_str()),
            (None, None) => true,
            _ => false,
        };
        str_eq(self.name.as_str(), other.name.as_str()) && versions_equal && self.nexus_id
            == other.nexus_id && str_eq(self.manifest_dir.as_str(), other.manifest_dir.as_str())
            && self.mod_state == other.mod_state && self.mod_kind == other.mod_kind
    }
}

/// Adding a tag and then removing it gives back the tags there were, when
/// the tag was not there before.
pub proof fn lemma_add_then_remove_tag(tags: Seq<Seq<char>>, t: Seq<char>)
    requires
        !tags.contains(t),
    ensures
        tags_remove(tags_add(tags, t).0, t) == tags,
{
    let added = tags.push(t);
    lemma_index_of(added, t);
    assert(added[tags.len() as int] == t);
    assert(added.contains(t));
    let i = index_of(added, t)->0;
    assert(i == tags.len()) by {
        if i < tags.len() {
            assert(added[i] == tags[i]);
            assert(tags.contains(t));
        }
    }
    assert(added.update(i, added.last()).drop_last() =~= tags);
}

/// Adding a tag keeps the tags free of repetitions.
pub proof fn lemma_add_tag_no_duplicates(tags: Seq<Seq<char>>, t: Seq<char>)
    requires
        tags.no_duplicates(),
    ensures
        tags_add(tags, t).0.no_duplicates(),
{
    if !tags.contains(t) {
        let added = tags.push(t);
        assert forall|i: int, j: int| 0 <= i < added.len() && 0 <= j < added.len() && i != j
            implies added[i] != added[j] by {
            if i == tags.len() {
                assert(tags[j] == added[j]);
            } else if j == tags.len() {
                assert(tags[i] == added[i]);
            }
        }
    }
}

/// After `add_tag` the tag is present, whether or not it was new.
pub proof fn lemma_tag_present_after_add(tags: Seq<Seq<char>>, t: Seq<char>)
    ensures
        tags_add(tags, t).0.contains(t),
{
    if !tags.contains(t) {
        assert(tags.push(t)[tags.len() as int] == t);
    }
}

/// The order of the mod list is a strict total order on (priority, name).
pub proof fn lemma_manifest_order(a: ManifestView, b: ManifestView, c: ManifestView)
    ensures
        !manifest_before(a, a),
        manifest_before(a, b) ==> !manifest_before(b, a),
        manifest_before(a, b) && manifest_before(b, c) ==> manifest_before(a, c),
        !manifest_before(a, b) && !manifest_before(b, a) ==> a.priority == b.priority && a.name
            == b.name,
{
    crate::text::lemma_seq_less_irreflexive(a.name);
    crate::text::lemma_seq_less_asymmetric(a.name, b.name);
    crate::text::lemma_seq_less_transitive(a.name, b.name, c.name);
    crate::text::lemma_seq_less_total(a.name, b.name);
}

} // verus!
