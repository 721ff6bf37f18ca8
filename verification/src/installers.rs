//! Building the manifest of a freshly extracted mod, one installer per kind
//! of mod. The installers read the mod's directory through a listing of its
//! entries, made by the caller, and decide from it which files to install
//! and where.

use vstd::prelude::*;

pub mod stdin;
pub mod data;
pub mod fomod;
pub mod fomod_xml;
pub mod loader;
pub mod custom;
pub mod label;

verus! {

/// The game's data directory; mods install into it with this casing.
pub const DATA_DIR_NAME: &'static str = "Data";

/// The game's textures directory, inside the data directory.
pub const TEXTURES_DIR_NAME: &'static str = "Textures";

/// Why an installer could not build a manifest.
#[derive(Debug)]
pub enum InstallerError {
    /// The mod's dependencies are not installed.
    DependenciesNotMet(String),
    /// The mod has more than one candidate data directory.
    MultipleDataDirectories(String),
    /// The user left the installer of the mod.
    InstallerCancelled(String),
    /// A FOMOD file of the mod (the second string) could not be read.
    InvalidFomod(String, String),
}

impl InstallerError {
    /// The mod the error is about.
    pub fn mod_name(&self) -> (r: &str)
        ensures
            r@ == match self {
                InstallerError::DependenciesNotMet(n) => n@,
                InstallerError::MultipleDataDirectories(n) => n@,
                InstallerError::InstallerCancelled(n) => n@,
                InstallerError::InvalidFomod(n, _) => n@,
            },
    {
        match self {
            InstallerError::DependenciesNotMet(n) => n.as_str(),
            InstallerError::MultipleDataDirectories(n) => n.as_str(),
            InstallerError::InstallerCancelled(n) => n.as_str(),
            InstallerError::InvalidFomod(n, _) => n.as_str(),
        }
    }

    /// The message shown to the user.
    pub fn message(&self) -> (r: String)
        ensures
            r@ == match self {
                InstallerError::DependenciesNotMet(n) => "the mod "@ + n@ + " has unmet dependencies."@,
                InstallerError::MultipleDataDirectories(n) => "the mod "@ + n@
                    + " has multiple data directories."@,
                InstallerError::InstallerCancelled(n) => "the installer of mod "@ + n@
                    + " has been cancelled."@,
                InstallerError::InvalidFomod(n, f) => "the mod "@ + n@ + " has an unreadable "@ + f@
                    + "."@,
            },
    {
        proof {
            reveal_strlit("the mod ");
            reveal_strlit(" has unmet dependencies.");
            reveal_strlit(" has multiple data directories.");
            reveal_strlit("the installer of mod ");
            reveal_strlit(" has been cancelled.");
            reveal_strlit(" has an unreadable ");
            reveal_strlit(".");
        }
        match self {
            InstallerError::DependenciesNotMet(n) => String::from_str("the mod ").concat(
                n.as_str(),
            ).concat(" has unmet dependencies."),
            InstallerError::MultipleDataDirectories(n) => String::from_str("the mod ").concat(
                n.as_str(),
            ).concat(" has multiple data directories."),
            InstallerError::InstallerCancelled(n) => String::from_str(
                "the installer of mod ",
            ).concat(n.as_str()).concat(" has been cancelled."),
            InstallerError::InvalidFomod(n, f) => String::from_str("the mod ").concat(n.as_str()).concat(
                " has an unreadable ",
            ).concat(f.as_str()).concat("."),
        }
    }
}

/// The abstract value of a directory entry.
pub struct WalkView {
    pub path: Seq<char>,
    pub file_name: Seq<char>,
    pub extension: Option<Seq<char>>,
    pub depth: nat,
    pub is_dir: bool,
    pub is_file: bool,
}

/// An entry of a mod's directory, as a directory walk finds it: its path
/// relative to the mod's directory, its final component and extension, its
/// depth below the mod's directory (1 for the mod's own entries), and
/// whether it is a directory or a file.
#[derive(Debug)]
pub struct WalkEntry {
    pub path: String,
    pub file_name: String,
    pub extension: Option<String>,
    pub depth: usize,
    pub is_dir: bool,
    pub is_file: bool,
}

/// The view of an optional string.
pub open spec fn opt_str(s: Option<String>) -> Option<Seq<char>> {
    match s {
        Some(t) => Some(t@),
        None => None,
    }
}

impl View for WalkEntry {
    type V = WalkView;

    open spec fn view(&self) -> WalkView {
        WalkView {
            path: self.path@,
            file_name: self.file_name@,
            extension: opt_str(self.extension),
            depth: self.depth as nat,
            is_dir: self.is_dir,
            is_file: self.is_file,
        }
    }
}

/// The views of a listing.
pub open spec fn walk_views(s: Seq<WalkEntry>) -> Seq<WalkView> {
    s.map_values(|e: WalkEntry| e@)
}

} // verus!
