//! The errors the mod manager reports to the user, with their messages.

use vstd::prelude::*;

verus! {

/// `a`, `b` and `c` one after the other.
pub fn concat3(a: &str, b: &str, c: &str) -> (r: String)
    ensures
        r@ == a@ + b@ + c@,
{
    String::from_str(a).concat(b).concat(c)
}

/// `a` to `e` one after the other.
pub fn concat5(a: &str, b: &str, c: &str, d: &str, e: &str) -> (r: String)
    ensures
        r@ == a@ + b@ + c@ + d@ + e@,
{
    String::from_str(a).concat(b).concat(c).concat(d).concat(e)
}

/// Errors in the configuration; each names the command to run to fix it.
#[derive(Debug)]
pub enum SettingErrors {
    ConfigNotFound(String),
    NoGameDirFound(String, String),
    NoDownloadDirFound(String),
    NoCacheDirFound(String),
    NoProtonDirFound(String),
    NoCompatDirFound(String),
    NoSteamDirFound(String),
    ExecutableNotFound(String),
}

impl SettingErrors {
    /// The message shown to the user.
    pub fn message(&self) -> (r: String)
        ensures
            r@ == match self {
                SettingErrors::ConfigNotFound(c) => "No valid config file could be found; Please run '"@ + c@
                    + " update-config' first."@,
                SettingErrors::NoGameDirFound(g, c) => "The game directory for "@ + g@
                    + " cannot be found, Please run '"@ + c@ + " update-config' and provide manually."@,
                SettingErrors::NoDownloadDirFound(c) => "A download directory for cannot be found, Please run '"@
                    + c@ + " update-config' and provide manually."@,
                SettingErrors::NoCacheDirFound(c) => "The cache directory cannot be found, Please run '"@ + c@
                    + " update-config' and provide manually."@,
                SettingErrors::NoProtonDirFound(c) => "The proton directory cannot be found, Please run '"@ + c@
                    + " update-config' and provide manually."@,
                SettingErrors::NoCompatDirFound(c) => "The compat directory cannot be found, Please run '"@ + c@
                    + " update-config' and provide manually."@,
                SettingErrors::NoSteamDirFound(c) => "The steam directory cannot be found, Please run '"@ + c@
                    + " update-config' and provide manually."@,
                SettingErrors::ExecutableNotFound(p) => "The executable could not be found: "@ + p@ + "."@,
            },
    {
        match self {
            SettingErrors::ConfigNotFound(c) => concat3(
                "No valid config file could be found; Please run '",
                c.as_str(),
                " update-config' first.",
            ),
            SettingErrors::NoGameDirFound(g, c) => concat5(
                "The game directory for ",
                g.as_str(),
                " cannot be found, Please run '",
                c.as_str(),
                " update-config' and provide manually.",
            ),
            SettingErrors::NoDownloadDirFound(c) => concat3(
                "A download directory for cannot be found, Please run '",
                c.as_str(),
                " update-config' and provide manually.",
            ),
            SettingErrors::NoCacheDirFound(c) => concat3(
                "The cache directory cannot be found, Please run '",
                c.as_str(),
                " update-config' and provide manually.",
            ),
            SettingErrors::NoProtonDirFound(c) => concat3(
                "The proton directory cannot be found, Please run '",
                c.as_str(),
                " update-config' and provide manually.",
            ),
            SettingErrors::NoCompatDirFound(c) => concat3(
                "The compat directory cannot be found, Please run '",
                c.as_str(),
                " update-config' and provide manually.",
            ),
            SettingErrors::NoSteamDirFound(c) => concat3(
                "The steam directory cannot be found, Please run '",
                c.as_str(),
                " update-config' and provide manually.",
            ),
            SettingErrors::ExecutableNotFound(p) => concat3(
                "The executable could not be found: ",
                p.as_str(),
                ".",
            ),
        }
    }
}

/// Errors about the game's own files.
#[derive(Debug)]
pub enum GameErrors {
    ConfigNotFound(String),
}

impl GameErrors {
    /// The message shown to the user.
    pub fn message(&self) -> (r: String)
        ensures
            r@ == match self {
                GameErrors::ConfigNotFound(f) => "Could not find file(s) '"@ + f@ + "' in the game directories."@,
            },
    {
        match self {
            GameErrors::ConfigNotFound(f) => concat3(
                "Could not find file(s) '",
                f.as_str(),
                "' in the game directories.",
            ),
        }
    }
}

/// Errors about a mod.
#[derive(Debug)]
pub enum ModErrors {
    ModNotFound(String),
    FileNotFound(String, String),
    TagNotFound(String, String),
    DuplicateTag(String, String),
}

impl ModErrors {
    /// The message shown to the user.
    pub fn message(&self) -> (r: String)
        ensures
            r@ == match self {
                ModErrors::ModNotFound(m) => "The mod '"@ + m@ + "' could not be found. Is the mod installed?"@,
                ModErrors::FileNotFound(m, f) => "Could not find the file(s) '"@ + f@ + "' in mod "@ + m@ + "."@,
                ModErrors::TagNotFound(m, t) => "Could not find tag '"@ + t@ + "' in mod "@ + m@
                    + ". Did you perhaps mispel it?"@,
                ModErrors::DuplicateTag(m, t) => "Could not add tag '"@ + t@ + "' to mod "@ + m@
                    + ". Perhaps the mod al-ready has that tag?"@,
            },
    {
        match self {
            ModErrors::ModNotFound(m) => concat3(
                "The mod '",
                m.as_str(),
                "' could not be found. Is the mod installed?",
            ),
            ModErrors::FileNotFound(m, f) => concat5(
                "Could not find the file(s) '",
                f.as_str(),
                "' in mod ",
                m.as_str(),
                ".",
            ),
            ModErrors::TagNotFound(m, t) => concat5(
                "Could not find tag '",
                t.as_str(),
                "' in mod ",
                m.as_str(),
                ". Did you perhaps mispel it?",
            ),
            ModErrors::DuplicateTag(m, t) => concat5(
                "Could not add tag '",
                t.as_str(),
                "' to mod ",
                m.as_str(),
                ". Perhaps the mod al-ready has that tag?",
            ),
        }
    }
}

/// Errors about the downloaded archives.
#[derive(Debug)]
pub enum DownloadError {
    ArchiveNotFound(String),
}

impl DownloadError {
    /// The message shown to the user.
    pub fn message(&self) -> (r: String)
        ensures
            r@ == match self {
                DownloadError::ArchiveNotFound(a) => "the archive "@ + a@ + " cannot be found."@,
            },
    {
        match self {
            DownloadError::ArchiveNotFound(a) => concat3("the archive ", a.as_str(), " cannot be found."),
        }
    }
}

} // verus!
