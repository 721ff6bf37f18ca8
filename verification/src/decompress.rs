//! The archive formats the mod manager can extract, told apart by the
//! archive's file name.

use vstd::prelude::*;

use crate::text::{ends_with, has_suffix};

verus! {

/// Why an archive cannot be extracted.
#[derive(Debug)]
pub enum DecompressError {
    /// The file is in none of the supported formats.
    Unsupported(String),
}

impl DecompressError {
    /// The message shown to the user.
    pub fn message(&self) -> (r: String)
        ensures
            r@ == match self {
                DecompressError::Unsupported(p) => "the file `"@ + p@ + "` is in an unsuported format"@,
            },
    {
        proof {
            reveal_strlit("the file `");
            reveal_strlit("` is in an unsuported format");
        }
        match self {
            DecompressError::Unsupported(p) => String::from_str("the file `").concat(p.as_str()).concat(
                "` is in an unsuported format",
            ),
        }
    }
}

/// The text of a path, or a note that it has none (a path that is not
/// valid UTF-8).
pub fn path_result(path: Option<&str>) -> (r: String)
    ensures
        r@ == match path {
            Some(p) => p@,
            None => "path missing!"@,
        },
{
    match path {
        Some(p) => String::from_str(p),
        None => String::from_str("path missing!"),
    }
}

/// An archive format.
#[derive(Copy, Clone, Debug, PartialEq, Eq, Structural)]
pub enum SupportedArchives {
    SevenZip,
    Zip,
    TarGz,
    TarXz,
    Rar,
}

/// The format of the archive at `p`, by the end of its name.
pub open spec fn archive_format(p: Seq<char>) -> Option<SupportedArchives> {
    if has_suffix(p, ".tar.gz"@) {
        Some(SupportedArchives::TarGz)
    } else if has_suffix(p, ".tar.xz"@) {
        Some(SupportedArchives::TarXz)
    } else if has_suffix(p, ".7z"@) || has_suffix(p, ".7zip"@) {
        Some(SupportedArchives::SevenZip)
    } else if has_suffix(p, ".zip"@) {
        Some(SupportedArchives::Zip)
    } else if has_suffix(p, ".rar"@) {
        Some(SupportedArchives::Rar)
    } else {
        None
    }
}

/// The text that names a format.
pub open spec fn format_label(a: SupportedArchives) -> Seq<char> {
    match a {
        SupportedArchives::SevenZip => "7zip"@,
        SupportedArchives::Zip => "zip"@,
        SupportedArchives::TarGz => "tar.gz"@,
        SupportedArchives::TarXz => "tar.xz"@,
        SupportedArchives::Rar => "rar"@,
    }
}

impl SupportedArchives {
    /// The format of the archive at `path`; an error names a path in no
    /// supported format.
    pub fn from_path(path: &str) -> (r: Result<SupportedArchives, DecompressError>)
        ensures
            match archive_format(path@) {
                Some(a) => r == Ok::<SupportedArchives, DecompressError>(a),
                None => r matches Err(DecompressError::Unsupported(p)) && p@ == path@,
            },
    {
        proof {
            reveal_strlit(".tar.gz");
            reveal_strlit(".tar.xz");
            reveal_strlit(".7z");
            reveal_strlit(".7zip");
            reveal_strlit(".zip");
            reveal_strlit(".rar");
        }
        if ends_with(path, ".tar.gz") {
            Ok(SupportedArchives::TarGz)
        } else if ends_with(path, ".tar.xz") {
            Ok(SupportedArchives::TarXz)
        } else if ends_with(path, ".7z") || ends_with(path, ".7zip") {
            Ok(SupportedArchives::SevenZip)
        } else if ends_with(path, ".zip") {
            Ok(SupportedArchives::Zip)
        } else if ends_with(path, ".rar") {
            Ok(SupportedArchives::Rar)
        } else {
            Err(DecompressError::Unsupported(String::from_str(path)))
        }
    }

    /// The text that names the format.
    pub fn label(self) -> (r: &'static str)
        ensures
            r@ == format_label(self),
    {
        proof {
            reveal_strlit("7zip");
            reveal_strlit("zip");
            reveal_strlit("tar.gz");
            reveal_strlit("tar.xz");
            reveal_strlit("rar");
        }
        match self {
            SupportedArchives::SevenZip => "7zip",
            SupportedArchives::Zip => "zip",
            SupportedArchives::TarGz => "tar.gz",
            SupportedArchives::TarXz => "tar.xz",
            SupportedArchives::Rar => "rar",
        }
    }
}

} // verus!
