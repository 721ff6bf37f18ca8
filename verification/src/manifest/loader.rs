//! The manifest of a loader mod: an executable and its library, installed
//! into the game's root directory.

use vstd::prelude::*;

use super::install_file::{file_specs, FileSpec, InstallFile};
use crate::paths::{extension, path_extension};
use crate::text::str_eq;

verus! {

/// The extension of a path, or nothing when it has none.
pub open spec fn extension_or_empty(p: Seq<char>) -> Seq<char> {
    match path_extension(p) {
        Some(e) => e,
        None => Seq::empty(),
    }
}

/// The first file at or after `i` whose source has extension `ext`.
pub open spec fn first_with_ext_from(s: Seq<FileSpec>, ext: Seq<char>, i: int) -> Option<int>
    decreases s.len() - i,
{
    if i < 0 || i >= s.len() {
        None
    } else if extension_or_empty(s[i].source) == ext {
        Some(i)
    } else {
        first_with_ext_from(s, ext, i + 1)
    }
}

/// The first file whose source has extension `ext`.
pub open spec fn first_with_ext(s: Seq<FileSpec>, ext: Seq<char>) -> Option<int> {
    first_with_ext_from(s, ext, 0)
}

/// The abstract value of a loader manifest.
pub struct LoaderView {
    pub dll: FileSpec,
    pub exe: FileSpec,
}

/// A loader mod's two files.
#[derive(Debug)]
pub struct LoaderManifest {
    dll: InstallFile,
    exe: InstallFile,
}

impl View for LoaderManifest {
    type V = LoaderView;

    closed spec fn view(&self) -> LoaderView {
        LoaderView { dll: self.dll@, exe: self.exe@ }
    }
}

/// A found position is a file with that extension.
pub proof fn lemma_first_with_ext_found(s: Seq<FileSpec>, ext: Seq<char>, i: int)
    ensures
        first_with_ext_from(s, ext, i) matches Some(j) ==> 0 <= j < s.len() && i <= j,
    decreases s.len() - i,
{
    if i < 0 || i >= s.len() {
    } else if extension_or_empty(s[i].source) == ext {
    } else {
        lemma_first_with_ext_found(s, ext, i + 1);
    }
}

/// The position of the first of `files` whose source has extension `ext`.
pub fn find_with_ext(files: &[InstallFile], ext: &str) -> (r: Option<usize>)
    ensures
        r matches Some(i) ==> first_with_ext(file_specs(files@), ext@) == Some(i as int),
        r is None ==> first_with_ext(file_specs(files@), ext@) is None,
{
    let ghost s = file_specs(files@);
    let mut i: usize = 0;
    while i < files.len()
        invariant
            i <= files@.len(),
            s == file_specs(files@),
            first_with_ext(s, ext@) == first_with_ext_from(s, ext@, i as int),
        decreases files.len() - i,
    {
        let src = files[i].source();
        let hit = match extension(src) {
            Some(e) => str_eq(e.as_str(), ext),
            None => str_eq(ext, ""),
        };
        proof {
            reveal_strlit("");
            assert(s[i as int] == files@[i as int]@);
            assert(""@ =~= Seq::<char>::empty());
        }
        if hit {
            return Some(i);
        }
        i += 1;
    }
    None
}

impl LoaderManifest {
    /// The loader made of the first `.dll` and the first `.exe` of `files`;
    /// `files` holds both.
    pub fn new(files: &[InstallFile]) -> (r: Self)
        requires
            first_with_ext(file_specs(files@), "exe"@) is Some,
            first_with_ext(file_specs(files@), "dll"@) is Some,
        ensures
            r@.exe == file_specs(files@)[first_with_ext(file_specs(files@), "exe"@)->0],
            r@.dll == file_specs(files@)[first_with_ext(file_specs(files@), "dll"@)->0],
    {
        proof {
            lemma_first_with_ext_found(file_specs(files@), "exe"@, 0);
            lemma_first_with_ext_found(file_specs(files@), "dll"@, 0);
        }
        let e = find_with_ext(files, "exe");
        let d = find_with_ext(files, "dll");
        let ei = match e {
            Some(i) => i,
            None => 0,
        };
        let di = match d {
            Some(i) => i,
            None => 0,
        };
        let exe = files[ei].duplicate();
        let dll = files[di].duplicate();
        LoaderManifest { dll, exe }
    }

    /// A copy of the manifest.
    pub fn duplicate(&self) -> (r: Self)
        ensures
            r@ == self@,
    {
        LoaderManifest { dll: self.dll.duplicate(), exe: self.exe.duplicate() }
    }

    /// The loader's files: its library, then its executable.
    pub fn files(&self) -> (r: Vec<InstallFile>)
        ensures
            file_specs(r@) == seq![self@.dll, self@.exe],
    {
        let mut r: Vec<InstallFile> = Vec::new();
        r.push(self.dll.duplicate());
        r.push(self.exe.duplicate());
        assert(file_specs(r@) =~= seq![self@.dll, self@.exe]);
        r
    }
}

} // verus!
