//! The manifest of a custom mod, whose files are whatever its directory
//! holds when it is scanned.

use vstd::prelude::*;

use super::install_file::{duplicate_files, file_specs, FileSpec, InstallFile};

verus! {

/// A custom mod's files, as found by the last scan of its directory.
#[derive(Debug)]
pub struct CustomManifest {
    files: Vec<InstallFile>,
}

impl View for CustomManifest {
    type V = Seq<FileSpec>;

    closed spec fn view(&self) -> Seq<FileSpec> {
        file_specs(self.files@)
    }
}

impl CustomManifest {
    /// A custom manifest holding the scanned `files`.
    pub fn new(files: Vec<InstallFile>) -> (r: Self)
        ensures
            r@ == file_specs(files@),
    {
        CustomManifest { files }
    }

    /// A copy of the manifest.
    pub fn duplicate(&self) -> (r: Self)
        ensures
            r@ == self@,
    {
        CustomManifest { files: duplicate_files(&self.files) }
    }

    /// The files found by the last scan.
    pub fn files(&self) -> (r: Vec<InstallFile>)
        ensures
            file_specs(r@) == self@,
    {
        duplicate_files(&self.files)
    }

    /// Replaces the files by those of a new scan.
    pub fn rescan(&mut self, files: Vec<InstallFile>)
        ensures
            final(self)@ == file_specs(files@),
    {
        self.files = files;
    }
}

} // verus!
