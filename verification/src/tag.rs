//! The status tags shown next to a mod in the mod list, with their
//! single-character marks and their colours.

use vstd::prelude::*;

verus! {

/// The colours the mod manager paints its lists with.
#[derive(Copy, Clone, Debug, PartialEq, Eq, Structural)]
pub enum Colour {
    Reset,
    White,
    Grey,
    DarkGrey,
    Green,
    Yellow,
    Red,
    Magenta,
}

/// The status of a mod with respect to the other mods of the list.
#[derive(Copy, Clone, Debug, PartialEq, Eq, Structural)]
pub enum Tag {
    Enabled,
    Winner,
    Loser,
    CompleteLoser,
    Conflict,
    Disabled,
}

/// The text that names a tag.
pub open spec fn tag_label(tag: Tag) -> Seq<char> {
    match tag {
        Tag::Enabled => "Enabled"@,
        Tag::Winner => "Winner"@,
        Tag::Loser => "Loser"@,
        Tag::CompleteLoser => "All Files Overwritten"@,
        Tag::Conflict => "Conflict"@,
        Tag::Disabled => "Disabled"@,
    }
}

/// The one-character mark of a tag.
pub open spec fn tag_char(tag: Tag) -> char {
    match tag {
        Tag::Enabled => 'e',
        Tag::Winner => 'w',
        Tag::Loser => 'l',
        Tag::CompleteLoser => 'L',
        Tag::Conflict => 'c',
        Tag::Disabled => 'D',
    }
}

/// The colour of a tag.
pub open spec fn tag_colour(tag: Tag) -> Colour {
    match tag {
        Tag::Enabled => Colour::White,
        Tag::Winner => Colour::Green,
        Tag::Loser => Colour::Yellow,
        Tag::CompleteLoser => Colour::Red,
        Tag::Conflict => Colour::Magenta,
        Tag::Disabled => Colour::DarkGrey,
    }
}

/// The tag of a mod that loses (`loser`) and/or wins (`winner`) conflicts.
pub open spec fn tag_of_flags(loser: bool, winner: bool) -> Tag {
    if loser && winner {
        Tag::Conflict
    } else if loser {
        Tag::Loser
    } else if winner {
        Tag::Winner
    } else {
        Tag::Enabled
    }
}

impl Tag {
    /// The text that names the tag.
    pub fn label(self) -> (r: &'static str)
        ensures
            r@ == tag_label(self),
    {
        match self {
            Tag::Enabled => "Enabled",
            Tag::Winner => "Winner",
            Tag::Loser => "Loser",
            Tag::CompleteLoser => "All Files Overwritten",
            Tag::Conflict => "Conflict",
            Tag::Disabled => "Disabled",
        }
    }

    /// The one-character mark of the tag.
    pub fn to_char(self) -> (c: char)
        ensures
            c == tag_char(self),
    {
        match self {
            Tag::Enabled => 'e',
            Tag::Winner => 'w',
            Tag::Loser => 'l',
            Tag::CompleteLoser => 'L',
            Tag::Conflict => 'c',
            Tag::Disabled => 'D',
        }
    }

    /// The colour of the tag.
    pub fn colour(self) -> (c: Colour)
        ensures
            c == tag_colour(self),
    {
        match self {
            Tag::Enabled => Colour::White,
            Tag::Winner => Colour::Green,
            Tag::Loser => Colour::Yellow,
            Tag::CompleteLoser => Colour::Red,
            Tag::Conflict => Colour::Magenta,
            Tag::Disabled => Colour::DarkGrey,
        }
    }

    /// The tag of a mod that loses and/or wins file conflicts.
    pub fn from_flags(loser: bool, winner: bool) -> (t: Tag)
        ensures
            t == tag_of_flags(loser, winner),
    {
        match (loser, winner) {
            (false, false) => Tag::Enabled,
            (false, true) => Tag::Winner,
            (true, false) => Tag::Loser,
            (true, true) => Tag::Conflict,
        }
    }
}

/// Distinct tags have distinct marks and distinct colours, so a list shows
/// every status apart from the others.
pub proof fn lemma_tags_distinguishable(a: Tag, b: Tag)
    ensures
        a != b ==> tag_char(a) != tag_char(b),
        a != b ==> tag_colour(a) != tag_colour(b),
{
}

/// The conflict flags of a mod are recovered from its tag: a tag built from
/// flags is a loser tag exactly when the mod loses, and a winner tag exactly
/// when it wins.
pub proof fn lemma_flags_recoverable(loser: bool, winner: bool)
    ensures
        (tag_of_flags(loser, winner) == Tag::Loser || tag_of_flags(loser, winner) == Tag::Conflict)
            == loser,
        (tag_of_flags(loser, winner) == Tag::Winner || tag_of_flags(loser, winner) == Tag::Conflict)
            == winner,
{
}

} // verus!
