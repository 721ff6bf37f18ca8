//! The commands of the mod manager's command line, and the decisions each
//! of them makes.

use vstd::prelude::*;

pub mod config;
pub mod downloads;
pub mod game;
pub mod list;
pub mod modlist;
pub mod mods;
pub mod plugins;
pub mod purge;
pub mod show;

use self::config::ConfigCmd;
use self::downloads::DownloadCmd;
use self::game::{GameCmd, RunCmd};
use self::list::ListCmd;
use self::mods::ModCmd;
use self::plugins::PluginCmd;
use self::purge::PurgeCmd;
use crate::tag::{tag_char, tag_colour, Colour, Tag};
use crate::ui::{cell, cell_views, Table, TableCell, TableView};

verus! {

/// The command groups.
#[derive(Debug)]
pub enum Subcommands {
    /// The settings; shown when no command is given.
    Config { cmd: Option<ConfigCmd> },
    /// The lists; the mod list when no command is given.
    List { cmd: Option<ListCmd> },
    /// The mods; the mod list when no command is given.
    Mods { cmd: Option<ModCmd> },
    /// The downloaded archives; their list when no command is given.
    Downloads { cmd: Option<DownloadCmd> },
    /// The game; it is run when no command is given.
    Game { cmd: Option<GameCmd> },
    /// Running a program; the game when none is named.
    Run { cmd: Option<RunCmd> },
    /// Removing the mod manager's files.
    Purge { cmd: PurgeCmd },
    /// The meaning of the colours.
    Legenda,
    /// Every command.
    ListCommands,
    /// The game's plugins.
    Plugin { cmd: Option<PluginCmd> },
}

impl Default for Subcommands {
    fn default() -> (r: Self)
        ensures
            r == (Subcommands::List { cmd: Some(ListCmd::ModList) }),
    {
        Subcommands::List { cmd: Some(ListCmd::default()) }
    }
}

/// The legend's row for a tag: its mark, the name of its colour and what
/// it means, in its colour.
pub open spec fn legenda_row(t: Tag, colour_name: Seq<char>, meaning: Seq<char>) -> Seq<(Seq<char>, Colour)> {
    seq![(seq![tag_char(t)], tag_colour(t)), (colour_name, tag_colour(t)), (meaning, tag_colour(t))]
}

/// The legend's rows.
pub open spec fn legenda_rows() -> Seq<Seq<(Seq<char>, Colour)>> {
    seq![
        legenda_row(Tag::Enabled, "White"@, "Nothing to see here; move along citizen."@),
        legenda_row(Tag::Winner, "Green"@, "Conflict winner"@),
        legenda_row(Tag::Loser, "Yellow"@, "Conflict loser"@),
        legenda_row(
            Tag::CompleteLoser,
            "Red"@,
            "Complete conflict loser; ALL files are overwitten by other mods"@,
        ),
        legenda_row(Tag::Conflict, "Magenta"@, "Conflict winner for some files, conflict loser for other files."@),
        legenda_row(Tag::Disabled, "DarkGray"@, "Mod is disabled."@),
    ]
}

/// The legend's row for a tag.
fn legenda_line(t: Tag, colour_name: &str, meaning: &str) -> (r: Vec<TableCell>)
    ensures
        cell_views(r@) == legenda_row(t, colour_name@, meaning@),
{
    let c = t.colour();
    let mut mark: Vec<char> = Vec::new();
    mark.push(t.to_char());
    let mut r: Vec<TableCell> = Vec::new();
    r.push(cell(crate::text::string_of(mark.as_slice()), c));
    r.push(cell(String::from_str(colour_name), c));
    r.push(cell(String::from_str(meaning), c));
    assert(cell_views(r@) =~= legenda_row(t, colour_name@, meaning@));
    r
}

/// The legend of the colours and marks of the mod list.
pub fn show_legenda() -> (r: Table)
    ensures
        r@ == (TableView { headers: seq!["Tag"@, "Color"@, "Meaning"@], rows: legenda_rows() }),
{
    let mut rows: Vec<Vec<TableCell>> = Vec::new();
    rows.push(legenda_line(Tag::Enabled, "White", "Nothing to see here; move along citizen."));
    rows.push(legenda_line(Tag::Winner, "Green", "Conflict winner"));
    rows.push(legenda_line(Tag::Loser, "Yellow", "Conflict loser"));
    rows.push(
        legenda_line(
            Tag::CompleteLoser,
            "Red",
            "Complete conflict loser; ALL files are overwitten by other mods",
        ),
    );
    rows.push(
        legenda_line(
            Tag::Conflict,
            "Magenta",
            "Conflict winner for some files, conflict loser for other files.",
        ),
    );
    rows.push(legenda_line(Tag::Disabled, "DarkGray", "Mod is disabled."));
    let mut headers: Vec<String> = Vec::new();
    headers.push(String::from_str("Tag"));
    headers.push(String::from_str("Color"));
    headers.push(String::from_str("Meaning"));
    let r = Table { headers, rows };
    assert(r@.rows =~= legenda_rows());
    assert(r@.headers =~= seq!["Tag"@, "Color"@, "Meaning"@]);
    r
}

} // verus!
