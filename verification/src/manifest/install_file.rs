//! A file of a mod: where it lies in the mod's directory and where it goes
//! in the game's directory.

use vstd::prelude::*;

use crate::paths::{path_strip_prefix, strip_prefix as path_strip};
use crate::text::{
    replace_all, replace_str, seq_less, str_eq, str_less, str_lower, strip_prefix, strip_prefix_str,
    to_lower,
};

verus! {

/// The abstract value of an install file.
pub struct FileSpec {
    pub source: Seq<char>,
    pub destination: Seq<char>,
}

/// A file to install: `source` relative to the mod's directory, and
/// `destination` relative to the game's directory.
#[derive(Debug)]
pub struct InstallFile {
    source: String,
    destination: String,
}

/// The part of a lower-cased path below a leading `data` directory, or the
/// whole path when it does not start in one.
pub open spec fn below_data(low: Seq<char>) -> Seq<char> {
    match strip_prefix(low, "data/"@) {
        Some(t) => t,
        None => if low == "data"@ {
            Seq::empty()
        } else {
            low
        },
    }
}

/// The destination in the game's `Data` directory for a path inside a
/// mod's data: the path is lower-cased, a leading `data` directory (in any
/// casing) is dropped so that there is one `Data` directory in the game's
/// casing, and textures go to the game's `Textures` directory.
pub open spec fn data_destination(d: Seq<char>) -> Seq<char> {
    replace_all(
        replace_all("Data/"@ + below_data(str_lower(d)), "//"@, "/"@),
        "/textures/"@,
        "/Textures/"@,
    )
}

/// The destination of a mod's file given only by its path: a leading `data`
/// component is dropped, the rest keeps its case.
pub open spec fn path_destination(p: Seq<char>) -> Seq<char> {
    let rest = match path_strip_prefix(p, "data"@) {
        Some(t) => t,
        None => p,
    };
    replace_all(replace_all("Data/"@ + rest, "//"@, "/"@), "/textures/"@, "/Textures/"@)
}

impl View for InstallFile {
    type V = FileSpec;

    closed spec fn view(&self) -> FileSpec {
        FileSpec { source: self.source@, destination: self.destination@ }
    }
}

/// The abstract values of a sequence of install files.
pub open spec fn file_specs(s: Seq<InstallFile>) -> Seq<FileSpec> {
    s.map_values(|f: InstallFile| f@)
}

impl InstallFile {
    /// A file whose destination is computed from `destination` by
    /// `data_destination`.
    pub fn new(source: String, destination: String) -> (r: Self)
        ensures
            r@ == (FileSpec { source: source@, destination: data_destination(destination@) }),
    {
        let lower = to_lower(destination.as_str());
        let rest = match strip_prefix_str(lower.as_str(), "data/") {
            Some(t) => t,
            None => if str_eq(lower.as_str(), "data") {
                String::new()
            } else {
                lower
            },
        };
        let joined = String::from_str("Data/").concat(rest.as_str());
        proof {
            reveal_strlit("Data/");
            reveal_strlit("//");
            reveal_strlit("/textures/");
        }
        let d1 = replace_str(joined.as_str(), "//", "/");
        let d2 = replace_str(d1.as_str(), "/textures/", "/Textures/");
        InstallFile { source, destination: d2 }
    }

    /// A file with the given source and destination, unchanged.
    pub fn new_raw(source: String, destination: String) -> (r: Self)
        ensures
            r@ == (FileSpec { source: source@, destination: destination@ }),
    {
        InstallFile { source, destination }
    }

    /// A file whose destination is computed from its source path by
    /// `path_destination`.
    pub fn from_path(p: &str) -> (r: Self)
        ensures
            r@ == (FileSpec { source: p@, destination: path_destination(p@) }),
    {
        let rest = match path_strip(p, "data") {
            Some(t) => t,
            None => String::from_str(p),
        };
        let joined = String::from_str("Data/").concat(rest.as_str());
        proof {
            reveal_strlit("Data/");
            reveal_strlit("//");
            reveal_strlit("/textures/");
        }
        let d1 = replace_str(joined.as_str(), "//", "/");
        let d2 = replace_str(d1.as_str(), "/textures/", "/Textures/");
        InstallFile { source: String::from_str(p), destination: d2 }
    }

    /// Where the file lies in the mod's directory.
    pub fn source(&self) -> (r: &str)
        ensures
            r@ == self@.source,
    {
        self.source.as_str()
    }

    /// Where the file goes in the game's directory.
    pub fn destination(&self) -> (r: &str)
        ensures
            r@ == self@.destination,
    {
        self.destination.as_str()
    }

    /// An equal copy of the file.
    pub fn duplicate(&self) -> (r: Self)
        ensures
            r@ == self@,
    {
        InstallFile { source: self.source.clone(), destination: self.destination.clone() }
    }

    /// The file sorts before `other`: files are ordered by their source.
    pub fn sorts_before(&self, other: &Self) -> (r: bool)
        ensures
            r == seq_less(self@.source, other@.source),
    {
        str_less(self.source.as_str(), other.source.as_str())
    }
}

/// Equal copies of a list of files.
pub fn duplicate_files(files: &Vec<InstallFile>) -> (r: Vec<InstallFile>)
    ensures
        file_specs(r@) == file_specs(files@),
{
    let mut r: Vec<InstallFile> = Vec::new();
    let mut i: usize = 0;
    while i < files.len()
        invariant
            i <= files@.len(),
            r@.len() == i,
            forall|k: int| 0 <= k < i ==> #[trigger] r@[k]@ == files@[k]@,
        decreases files.len() - i,
    {
        let f = files[i].duplicate();
        r.push(f);
        i += 1;
    }
    assert(file_specs(r@) =~= file_specs(files@));
    r
}

} // verus!
