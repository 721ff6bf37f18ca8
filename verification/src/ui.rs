//! What the user is shown: tables of mods, files and archives, and the
//! selection prompts built on them. The library decides each table's
//! headers, cells and colours; laying a table out on the terminal is left
//! to the caller.

use vstd::prelude::*;

pub mod list;

use self::list::{ArchiveListBuilder, FileListBuilder, ModListBuilder};
use crate::conflict::views;
use crate::mods::{find_mod, find_mod_spec};
use crate::tag::Colour;

verus! {

/// One cell of a table: its text and colour.
#[derive(Debug)]
pub struct TableCell {
    pub text: String,
    pub colour: Colour,
}

impl View for TableCell {
    type V = (Seq<char>, Colour);

    open spec fn view(&self) -> (Seq<char>, Colour) {
        (self.text@, self.colour)
    }
}

/// The abstract value of a table.
pub struct TableView {
    pub headers: Seq<Seq<char>>,
    pub rows: Seq<Seq<(Seq<char>, Colour)>>,
}

/// A table: its headers (none when the table has no header line) and rows.
#[derive(Debug)]
pub struct Table {
    pub headers: Vec<String>,
    pub rows: Vec<Vec<TableCell>>,
}

/// The views of a row of cells.
pub open spec fn cell_views(r: Seq<TableCell>) -> Seq<(Seq<char>, Colour)> {
    r.map_values(|c: TableCell| c@)
}

impl View for Table {
    type V = TableView;

    open spec fn view(&self) -> TableView {
        TableView {
            headers: self.headers@.map_values(|h: String| h@),
            rows: self.rows@.map_values(|r: Vec<TableCell>| cell_views(r@)),
        }
    }
}

/// A cell with the given text and colour.
pub fn cell(text: String, colour: Colour) -> (r: TableCell)
    ensures
        r@ == (text@, colour),
{
    TableCell { text, colour }
}

/// Something that lists rows for the user to choose from.
pub trait ListBuilder {
    /// The builder has what it needs to make its table.
    spec fn ready(&self) -> bool;

    /// The table the builder makes.
    spec fn table_spec(&self) -> TableView;

    /// The table of the list.
    fn build(&self) -> (r: Table)
        requires
            self.ready(),
        ensures
            r@ == self.table_spec(),
    ;
}

/// A selection prompt over a list: its message, the table of the choices,
/// the text the list starts filtered by, and the position chosen already
/// when the text names a mod.
#[derive(Debug)]
pub struct SelectPrompt {
    pub msg: String,
    pub table: Table,
    pub filter: Option<String>,
    pub preselected: Option<usize>,
}

/// A selection prompt in the making.
pub struct FindSelectBuilder<'a, B: ListBuilder> {
    pub msg: Option<&'a str>,
    pub list_builder: B,
    pub input: Option<&'a str>,
}

/// The view of an optional string slice.
pub open spec fn opt_str_view(s: Option<&str>) -> Option<Seq<char>> {
    match s {
        Some(t) => Some(t@),
        None => None,
    }
}

/// The text of an optional message, empty when there is none.
fn msg_text(msg: Option<&str>) -> (r: String)
    ensures
        r@ == match opt_str_view(msg) {
            Some(t) => t,
            None => Seq::empty(),
        },
{
    match msg {
        Some(m) => String::from_str(m),
        None => String::new(),
    }
}

/// An optional copy of an optional string slice.
fn opt_string(s: Option<&str>) -> (r: Option<String>)
    ensures
        r matches Some(t) ==> opt_str_view(s) == Some(t@),
        r is None ==> s is None,
{
    match s {
        Some(t) => Some(String::from_str(t)),
        None => None,
    }
}

impl<'a, B: ListBuilder> FindSelectBuilder<'a, B> {
    /// A prompt over the list `list_builder` makes, without message or input.
    pub fn new(list_builder: B) -> (r: Self)
        ensures
            r.msg is None,
            r.input is None,
            r.list_builder == list_builder,
    {
        FindSelectBuilder { msg: None, list_builder, input: None }
    }

    /// The prompt with the message `msg`.
    pub fn with_msg(self, msg: &'a str) -> (r: Self)
        ensures
            r.msg == Some(msg),
            r.input == self.input,
            r.list_builder == self.list_builder,
    {
        FindSelectBuilder { msg: Some(msg), list_builder: self.list_builder, input: self.input }
    }

    /// The prompt with the user's input `input`, if any.
    pub fn with_input(self, input: Option<&'a str>) -> (r: Self)
        ensures
            r.input == input,
            r.msg == self.msg,
            r.list_builder == self.list_builder,
    {
        FindSelectBuilder { msg: self.msg, list_builder: self.list_builder, input }
    }
}

impl<'a> FindSelectBuilder<'a, ModListBuilder<'a>> {
    /// The prompt over a mod list; the input, when it names a mod (see
    /// `find_mod`), preselects it.
    pub fn build(self) -> (r: SelectPrompt)
        requires
            self.list_builder.ready(),
        ensures
            r.msg@ == match opt_str_view(self.msg) {
                Some(t) => t,
                None => Seq::empty(),
            },
            r.table@ == self.list_builder.table_spec(),
            opt_str_view(self.input) == match r.filter {
                Some(t) => Some(t@),
                None => None,
            },
            r.preselected == match self.input {
                Some(t) => match find_mod_spec(views(self.list_builder.list_view()), t@) {
                    Some(i) => Some(i as usize),
                    None => None,
                },
                None => None,
            },
    {
        let preselected = match self.input {
            Some(t) => find_mod(self.list_builder.list(), t),
            None => None,
        };
        let table = self.list_builder.build();
        SelectPrompt {
            msg: msg_text(self.msg),
            table,
            filter: opt_string(self.input),
            preselected,
        }
    }
}

impl<'a> FindSelectBuilder<'a, FileListBuilder<'a>> {
    /// The prompt over a mod's files.
    pub fn build(self) -> (r: SelectPrompt)
        requires
            self.list_builder.ready(),
        ensures
            r.msg@ == match opt_str_view(self.msg) {
                Some(t) => t,
                None => Seq::empty(),
            },
            r.table@ == self.list_builder.table_spec(),
            opt_str_view(self.input) == match r.filter {
                Some(t) => Some(t@),
                None => None,
            },
            r.preselected is None,
    {
        let table = self.list_builder.build();
        SelectPrompt { msg: msg_text(self.msg), table, filter: opt_string(self.input), preselected: None }
    }
}

impl<'a> FindSelectBuilder<'a, ArchiveListBuilder> {
    /// The prompt over the downloaded archives.
    pub fn build(self) -> (r: SelectPrompt)
        requires
            self.list_builder.ready(),
        ensures
            r.msg@ == match opt_str_view(self.msg) {
                Some(t) => t,
                None => Seq::empty(),
            },
            r.table@ == self.list_builder.table_spec(),
            opt_str_view(self.input) == match r.filter {
                Some(t) => Some(t@),
                None => None,
            },
            r.preselected is None,
    {
        let table = self.list_builder.build();
        SelectPrompt { msg: msg_text(self.msg), table, filter: opt_string(self.input), preselected: None }
    }
}

} // verus!
