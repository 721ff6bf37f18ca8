//! A mod manager library for Bethesda games run through Steam/Proton:
//! the manifest model of installed mods, conflict detection between mods,
//! install planning, and the parsing of archive and download metadata.

pub mod text;
pub mod paths;
pub mod tag;
pub mod game;
pub mod manifest;
pub mod dmodman;
pub mod mods;
pub mod conflict;
pub mod installers;
pub mod ui;
pub mod decompress;
pub mod errors;
pub mod settings;
pub mod commands;
pub mod fuzzy;
pub mod utils;
