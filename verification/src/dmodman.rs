//! The metadata files that the `dmodman` download manager writes next to a
//! downloaded archive, and the names and versions read from them.

use vstd::prelude::*;

use crate::paths::{join, path_join};
use crate::text::{
    decimal, decimal_string, replace_all, replace_str, rsplit_once, rsplit_once_str, split_once,
    split_once_str, str_eq, str_lower, to_lower,
};

verus! {

/// The update state that `dmodman` recorded for a download, with the time
/// of the newest file it refers to.
#[derive(Copy, Clone, Debug, PartialEq, Eq, Structural)]
pub enum UpdateStatus {
    UpToDate(u64),
    HasNewFile(u64),
    OutOfDate(u64),
    IgnoredUntil(u64),
}

/// The time an update state carries.
pub open spec fn update_time(s: UpdateStatus) -> u64 {
    match s {
        UpdateStatus::UpToDate(t) => t,
        UpdateStatus::HasNewFile(t) => t,
        UpdateStatus::OutOfDate(t) => t,
        UpdateStatus::IgnoredUntil(t) => t,
    }
}

impl UpdateStatus {
    /// The time the state carries.
    pub fn time(&self) -> (t: u64)
        ensures
            t == update_time(*self),
    {
        match self {
            UpdateStatus::UpToDate(t) => *t,
            UpdateStatus::HasNewFile(t) => *t,
            UpdateStatus::OutOfDate(t) => *t,
            UpdateStatus::IgnoredUntil(t) => *t,
        }
    }
}

/// The separator between a mod's name and the rest of a Nexus file name:
/// the mod id between dashes.
pub open spec fn dmod_sep(id: u32) -> Seq<char> {
    "-"@ + decimal(id as nat) + "-"@
}

/// A Nexus file name `<name>-<id>-<version>-<timestamp>.<ext>`, lower-cased
/// and split around the mod id.
pub open spec fn dmod_split(file_name: Seq<char>, id: u32) -> Option<(Seq<char>, Seq<char>)> {
    split_once(str_lower(file_name), dmod_sep(id))
}

/// The version and time stamp parts of a Nexus file name.
pub open spec fn dmod_version_stamp(file_name: Seq<char>, id: u32) -> Option<
    (Seq<char>, Seq<char>),
> {
    match dmod_split(file_name, id) {
        Some((_name, rest)) => match rsplit_once(rest, '.') {
            Some((stem, _ext)) => rsplit_once(stem, '-'),
            None => None,
        },
        None => None,
    }
}

/// The version in a Nexus file name, with its dashes turned into dots.
pub open spec fn dmod_version(file_name: Seq<char>, id: u32) -> Option<Seq<char>> {
    match dmod_version_stamp(file_name, id) {
        Some((v, _t)) => Some(replace_all(v, "-"@, "."@)),
        None => None,
    }
}

/// The time stamp in a Nexus file name.
pub open spec fn dmod_timestamp(file_name: Seq<char>, id: u32) -> Option<Seq<char>> {
    match dmod_version_stamp(file_name, id) {
        Some((_v, t)) => Some(t),
        None => None,
    }
}

/// The extension of a download's metadata file kept beside an extracted mod.
pub const DMODMAN_EXTENSION: &'static str = "dmodman";

/// The abstract value of a download's metadata.
pub struct DmodView {
    pub game: Seq<char>,
    pub file_name: Seq<char>,
    pub mod_id: u32,
    pub file_id: u64,
    pub update_status: UpdateStatus,
}

impl DmodView {
    /// The file name names the mod: its mod id occurs in it between dashes.
    pub open spec fn has_name(self) -> bool {
        dmod_split(self.file_name, self.mod_id) is Some
    }

    /// The mod's name: the lower-cased file name up to its mod id.
    pub open spec fn name(self) -> Seq<char> {
        match dmod_split(self.file_name, self.mod_id) {
            Some((name, _rest)) => name,
            None => Seq::empty(),
        }
    }
}

/// The metadata of a download.
#[derive(Debug)]
pub struct DmodMan {
    game: String,
    file_name: String,
    mod_id: u32,
    file_id: u64,
    update_status: UpdateStatus,
}

impl View for DmodMan {
    type V = DmodView;

    closed spec fn view(&self) -> DmodView {
        DmodView {
            game: self.game@,
            file_name: self.file_name@,
            mod_id: self.mod_id,
            file_id: self.file_id,
            update_status: self.update_status,
        }
    }
}

impl DmodMan {
    /// Metadata with the given fields.
    pub fn new(
        game: String,
        file_name: String,
        mod_id: u32,
        file_id: u64,
        update_status: UpdateStatus,
    ) -> (r: Self)
        ensures
            r@ == (DmodView {
                game: game@,
                file_name: file_name@,
                mod_id,
                file_id,
                update_status,
            }),
    {
        DmodMan { game, file_name, mod_id, file_id, update_status }
    }

    /// The archive's file name.
    pub fn file_name(&self) -> (r: &str)
        ensures
            r@ == self@.file_name,
    {
        self.file_name.as_str()
    }

    /// The game the download is for.
    pub fn game(&self) -> (r: &str)
        ensures
            r@ == self@.game,
    {
        self.game.as_str()
    }

    /// The Nexus id of the mod.
    pub fn mod_id(&self) -> (r: u32)
        ensures
            r == self@.mod_id,
    {
        self.mod_id
    }

    /// The Nexus id of the file.
    pub fn file_id(&self) -> (r: u64)
        ensures
            r == self@.file_id,
    {
        self.file_id
    }

    /// The recorded update state.
    pub fn update_status(&self) -> (r: UpdateStatus)
        ensures
            r == self@.update_status,
    {
        self.update_status
    }

    /// The lower-cased file name split around the mod id.
    fn split(&self) -> (r: Option<(String, String)>)
        ensures
            r matches Some((a, b)) ==> dmod_split(self@.file_name, self@.mod_id) == Some(
                (a@, b@),
            ),
            r is None ==> dmod_split(self@.file_name, self@.mod_id) is None,
    {
        let lower = to_lower(self.file_name.as_str());
        let id = decimal_string(self.mod_id as u64);
        let sep = String::from_str("-").concat(id.as_str()).concat("-");
        proof {
            reveal_strlit("-");
            assert(sep@ =~= dmod_sep(self.mod_id));
        }
        split_once_str(lower.as_str(), sep.as_str())
    }

    /// Whether the file name names the mod, which `name` needs.
    pub fn has_name(&self) -> (r: bool)
        ensures
            r == self@.has_name(),
    {
        self.split().is_some()
    }

    /// The mod's name: the lower-cased file name up to `-<mod id>-`.
    pub fn name(&self) -> (r: String)
        requires
            self@.has_name(),
        ensures
            r@ == self@.name(),
    {
        match self.split() {
            Some((name, _rest)) => name,
            None => String::new(),
        }
    }

    /// The version and time stamp parts of the file name.
    fn version_stamp(&self) -> (r: Option<(String, String)>)
        ensures
            r matches Some((a, b)) ==> dmod_version_stamp(self@.file_name, self@.mod_id) == Some(
                (a@, b@),
            ),
            r is None ==> dmod_version_stamp(self@.file_name, self@.mod_id) is None,
    {
        match self.split() {
            Some((_name, rest)) => match rsplit_once_str(rest.as_str(), '.') {
                Some((stem, _ext)) => rsplit_once_str(stem.as_str(), '-'),
                None => None,
            },
            None => None,
        }
    }

    /// The time stamp in the file name.
    pub fn timestamp(&self) -> (r: Option<String>)
        ensures
            r matches Some(t) ==> dmod_timestamp(self@.file_name, self@.mod_id) == Some(t@),
            r is None ==> dmod_timestamp(self@.file_name, self@.mod_id) is None,
    {
        match self.version_stamp() {
            Some((_v, t)) => Some(t),
            None => None,
        }
    }

    /// The version in the file name, with dots in place of dashes.
    pub fn version(&self) -> (r: Option<String>)
        ensures
            r matches Some(v) ==> dmod_version(self@.file_name, self@.mod_id) == Some(v@),
            r is None ==> dmod_version(self@.file_name, self@.mod_id) is None,
    {
        proof {
            reveal_strlit("-");
        }
        match self.version_stamp() {
            Some((v, _t)) => Some(replace_str(v.as_str(), "-", ".")),
            None => None,
        }
    }

    /// Both describe the same mod: same game, same mod id and same name.
    pub fn same_mod(&self, other: &DmodMan) -> (r: bool)
        requires
            self@.has_name(),
            other@.has_name(),
        ensures
            r == (self@.game == other@.game && self@.mod_id == other@.mod_id && self@.name()
                == other@.name()),
    {
        let a = self.name();
        let b = other.name();
        str_eq(self.game.as_str(), other.game.as_str()) && self.mod_id == other.mod_id
            && str_eq(a.as_str(), b.as_str())
    }
}

/// The first position at or after `i` of a download of the mod named `name`.
pub open spec fn dmod_by_name_from(s: Seq<DmodView>, name: Seq<char>, i: int) -> Option<int>
    decreases s.len() - i,
{
    if i < 0 || i >= s.len() {
        None
    } else if s[i].name() == name {
        Some(i)
    } else {
        dmod_by_name_from(s, name, i + 1)
    }
}

/// The first position at or after `i` of a download of the mod with id `id`.
pub open spec fn dmod_by_id_from(s: Seq<DmodView>, id: u32, i: int) -> Option<int>
    decreases s.len() - i,
{
    if i < 0 || i >= s.len() {
        None
    } else if s[i].mod_id == id {
        Some(i)
    } else {
        dmod_by_id_from(s, id, i + 1)
    }
}

/// The abstract values of a list of downloads.
pub open spec fn dmod_views(s: Seq<DmodMan>) -> Seq<DmodView> {
    s.map_values(|d: DmodMan| d@)
}

/// Every download of the list names its mod.
pub open spec fn all_named(s: Seq<DmodMan>) -> bool {
    forall|i: int| 0 <= i < s.len() ==> (#[trigger] s[i])@.has_name()
}

/// Lookups in a list of downloads.
pub trait FindInDmodManList {
    /// Every download of the list names its mod.
    spec fn names_known(&self) -> bool;

    /// The position of the first download of the mod named `mod_name`.
    fn find_dmodman_by_name(&self, mod_name: &str) -> Option<usize>
        requires
            self.names_known(),
    ;

    /// The position of the first download of the mod with Nexus id `nexus_id`.
    fn find_dmodman_by_id(&self, nexus_id: u32) -> Option<usize>;
}

impl FindInDmodManList for Vec<DmodMan> {
    open spec fn names_known(&self) -> bool {
        all_named(self@)
    }

    fn find_dmodman_by_name(&self, mod_name: &str) -> (r: Option<usize>)
        ensures
            r matches Some(i) ==> dmod_by_name_from(dmod_views(self@), mod_name@, 0) == Some(
                i as int,
            ),
            r is None ==> dmod_by_name_from(dmod_views(self@), mod_name@, 0) is None,
    {
        let mut i: usize = 0;
        while i < self.len()
            invariant
                i <= self@.len(),
                all_named(self@),
                dmod_by_name_from(dmod_views(self@), mod_name@, 0) == dmod_by_name_from(
                    dmod_views(self@),
                    mod_name@,
                    i as int,
                ),
            decreases self.len() - i,
        {
            assert(self@[i as int]@.has_name());
            let n = self[i].name();
            if str_eq(n.as_str(), mod_name) {
                return Some(i);
            }
            i += 1;
        }
        None
    }

    fn find_dmodman_by_id(&self, nexus_id: u32) -> (r: Option<usize>)
        ensures
            r matches Some(i) ==> dmod_by_id_from(dmod_views(self@), nexus_id, 0) == Some(
                i as int,
            ),
            r is None ==> dmod_by_id_from(dmod_views(self@), nexus_id, 0) is None,
    {
        let mut i: usize = 0;
        while i < self.len()
            invariant
                i <= self@.len(),
                dmod_by_id_from(dmod_views(self@), nexus_id, 0) == dmod_by_id_from(
                    dmod_views(self@),
                    nexus_id,
                    i as int,
                ),
            decreases self.len() - i,
        {
            if self[i].mod_id() == nexus_id {
                return Some(i);
            }
            i += 1;
        }
        None
    }
}

/// The settings of `dmodman` that the mod manager reads.
#[derive(Debug)]
pub struct DModManConfig {
    pub download_dir: Option<String>,
    pub profile: Option<String>,
    pub api_key: Option<String>,
}

impl DModManConfig {
    /// Where `dmodman` downloads to: its download directory, joined with
    /// its profile when it has one.
    pub fn download_dir(&self) -> (r: Option<String>)
        ensures
            self.download_dir is None ==> r is None,
            self.download_dir matches Some(d) ==> r matches Some(x) && x@ == match self.profile {
                Some(p) => path_join(d@, p@),
                None => d@,
            },
    {
        match &self.download_dir {
            None => None,
            Some(d) => match &self.profile {
                Some(p) => Some(join(d.as_str(), p.as_str())),
                None => Some(d.clone()),
            },
        }
    }
}

} // verus!
