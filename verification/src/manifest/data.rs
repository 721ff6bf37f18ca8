//! The manifest of a data mod: the files it installs and the files the
//! user has disabled.

use vstd::multiset::Multiset;
use vstd::prelude::*;

use super::install_file::{duplicate_files, file_specs, FileSpec, InstallFile};
use crate::paths::{file_name, path_file_name};
use crate::text::str_eq;

verus! {

broadcast use vstd::seq_lib::group_to_multiset_ensures;

/// The abstract value of a data manifest.
pub struct DataView {
    pub files: Seq<FileSpec>,
    pub disabled: Seq<FileSpec>,
}

/// A file is named `name` by its full source path or by its file name.
pub open spec fn named(f: FileSpec, name: Seq<char>) -> bool {
    f.source == name || path_file_name(f.source) == Some(name)
}

/// The first file at or after `i` named `name`.
pub open spec fn first_named_from(s: Seq<FileSpec>, name: Seq<char>, i: int) -> Option<int>
    decreases s.len() - i,
{
    if i < 0 || i >= s.len() {
        None
    } else if named(s[i], name) {
        Some(i)
    } else {
        first_named_from(s, name, i + 1)
    }
}

/// The first file named `name`.
pub open spec fn first_named(s: Seq<FileSpec>, name: Seq<char>) -> Option<int> {
    first_named_from(s, name, 0)
}

/// Disabling the file `name`: the first installed file of that name moves
/// to the end of the disabled files; the flag tells whether one was found.
pub open spec fn data_disable(v: DataView, name: Seq<char>) -> (DataView, bool) {
    match first_named(v.files, name) {
        Some(i) => (
            DataView { files: v.files.remove(i), disabled: v.disabled.push(v.files[i]) },
            true,
        ),
        None => (v, false),
    }
}

/// Enabling the file `name`: the first disabled file of that name moves to
/// the end of the installed files; the flag tells whether one was found.
pub open spec fn data_enable(v: DataView, name: Seq<char>) -> (DataView, bool) {
    match first_named(v.disabled, name) {
        Some(i) => (
            DataView { files: v.files.push(v.disabled[i]), disabled: v.disabled.remove(i) },
            true,
        ),
        None => (v, false),
    }
}

/// All files of a data manifest, installed or disabled, as a multiset.
pub open spec fn all_files(v: DataView) -> Multiset<FileSpec> {
    (v.files + v.disabled).to_multiset()
}

/// A data mod's files.
#[derive(Debug)]
pub struct DataManifest {
    files: Vec<InstallFile>,
    disabled_files: Vec<InstallFile>,
}

impl View for DataManifest {
    type V = DataView;

    closed spec fn view(&self) -> DataView {
        DataView { files: file_specs(self.files@), disabled: file_specs(self.disabled_files@) }
    }
}

/// A found position is a file of that name, after `i`.
pub proof fn lemma_first_named_found(s: Seq<FileSpec>, name: Seq<char>, i: int)
    requires
        0 <= i,
    ensures
        first_named_from(s, name, i) matches Some(j) ==> i <= j < s.len() && 0 <= j && named(
            s[j],
            name,
        ),
        first_named_from(s, name, i) is None ==> forall|j: int|
            i <= j < s.len() && 0 <= j ==> !named(#[trigger] s[j], name),
    decreases s.len() - i,
{
    if i >= s.len() {
    } else if named(s[i], name) {
    } else {
        lemma_first_named_found(s, name, i + 1);
    }
}

/// The position of the first file of `files` named `name`.
fn find_named(files: &Vec<InstallFile>, name: &str) -> (r: Option<usize>)
    ensures
        r matches Some(i) ==> first_named(file_specs(files@), name@) == Some(i as int),
        r is None ==> first_named(file_specs(files@), name@) is None,
{
    let ghost s = file_specs(files@);
    let mut i: usize = 0;
    while i < files.len()
        invariant
            i <= files@.len(),
            s == file_specs(files@),
            first_named(s, name@) == first_named_from(s, name@, i as int),
        decreases files.len() - i,
    {
        let src = files[i].source();
        let hit = if str_eq(src, name) {
            true
        } else {
            match file_name(src) {
                Some(n) => str_eq(n.as_str(), name),
                None => false,
            }
        };
        assert(s[i as int] == files@[i as int]@);
        if hit {
            return Some(i);
        }
        i += 1;
    }
    None
}

impl DataManifest {
    /// A manifest installing `files`, with `disabled_files` left out.
    pub fn new(files: Vec<InstallFile>, disabled_files: Vec<InstallFile>) -> (r: Self)
        ensures
            r@ == (DataView { files: file_specs(files@), disabled: file_specs(disabled_files@) }),
    {
        DataManifest { files, disabled_files }
    }

    /// A copy of the manifest.
    pub fn duplicate(&self) -> (r: Self)
        ensures
            r@ == self@,
    {
        DataManifest {
            files: duplicate_files(&self.files),
            disabled_files: duplicate_files(&self.disabled_files),
        }
    }

    /// The files the mod installs.
    pub fn files(&self) -> (r: Vec<InstallFile>)
        ensures
            file_specs(r@) == self@.files,
    {
        duplicate_files(&self.files)
    }

    /// The files the user disabled.
    pub fn disabled_files(&self) -> (r: Vec<InstallFile>)
        ensures
            file_specs(r@) == self@.disabled,
    {
        duplicate_files(&self.disabled_files)
    }

    /// Disables the first installed file named `name`; tells whether there was one.
    pub fn disable_file(&mut self, name: &str) -> (found: bool)
        ensures
            (final(self)@, found) == data_disable(old(self)@, name@),
    {
        proof {
            lemma_first_named_found(old(self)@.files, name@, 0);
        }
        match find_named(&self.files, name) {
            Some(idx) => {
                let f = self.files.remove(idx);
                self.disabled_files.push(f);
                assert(self@.files =~= old(self)@.files.remove(idx as int));
                assert(self@.disabled =~= old(self)@.disabled.push(old(self)@.files[idx as int]));
                true
            },
            None => false,
        }
    }

    /// Enables the first disabled file named `name`; tells whether there was one.
    pub fn enable_file(&mut self, name: &str) -> (found: bool)
        ensures
            (final(self)@, found) == data_enable(old(self)@, name@),
    {
        proof {
            lemma_first_named_found(old(self)@.disabled, name@, 0);
        }
        match find_named(&self.disabled_files, name) {
            Some(idx) => {
                let f = self.disabled_files.remove(idx);
                self.files.push(f);
                assert(self@.disabled =~= old(self)@.disabled.remove(idx as int));
                assert(self@.files =~= old(self)@.files.push(old(self)@.disabled[idx as int]));
                true
            },
            None => false,
        }
    }
}

/// Disabling a file neither loses nor adds any file: the installed and the
/// disabled files together stay the same.
pub proof fn lemma_disable_keeps_files(v: DataView, name: Seq<char>)
    ensures
        all_files(data_disable(v, name).0) == all_files(v),
{
    broadcast use vstd::multiset::group_multiset_axioms;
    broadcast use vstd::seq_lib::lemma_multiset_commutative;

    lemma_first_named_found(v.files, name, 0);
    if let Some(i) = first_named(v.files, name) {
        let x = v.files[i];
        assert(v.files.to_multiset().count(x) > 0);
        assert(all_files(data_disable(v, name).0) =~= all_files(v));
    }
}

/// Enabling a file neither loses nor adds any file.
pub proof fn lemma_enable_keeps_files(v: DataView, name: Seq<char>)
    ensures
        all_files(data_enable(v, name).0) == all_files(v),
{
    broadcast use vstd::multiset::group_multiset_axioms;
    broadcast use vstd::seq_lib::lemma_multiset_commutative;

    lemma_first_named_found(v.disabled, name, 0);
    if let Some(i) = first_named(v.disabled, name) {
        let x = v.disabled[i];
        assert(v.disabled.to_multiset().count(x) > 0);
        assert(all_files(data_enable(v, name).0) =~= all_files(v));
    }
}

/// A file that was just disabled can be enabled again by the same name.
pub proof fn lemma_disable_then_enable(v: DataView, name: Seq<char>)
    ensures
        data_disable(v, name).1 ==> data_enable(data_disable(v, name).0, name).1,
{
    lemma_first_named_found(v.files, name, 0);
    if let Some(i) = first_named(v.files, name) {
        let d = data_disable(v, name).0;
        let last = d.disabled.len() - 1;
        assert(named(d.disabled[last], name));
        lemma_first_named_found(d.disabled, name, 0);
    }
}

} // verus!
