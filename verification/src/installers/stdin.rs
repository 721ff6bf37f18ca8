//! The answers a user types at the installers' prompts.

use vstd::prelude::*;

use crate::text::{parse_u8, parse_unsigned, str_eq, str_lower, to_lower};

verus! {

/// A choice: the number of an option, or leaving the installer.
#[derive(Copy, Clone, Debug, PartialEq, Eq, Structural)]
pub enum Input {
    Digit(u8),
    Exit,
}

/// A choice, or the end of a selection.
#[derive(Copy, Clone, Debug, PartialEq, Eq, Structural)]
pub enum InputWithDone {
    Input(Input),
    Done,
}

/// A choice, or taking the proposed default.
#[derive(Copy, Clone, Debug, PartialEq, Eq, Structural)]
pub enum InputWithDefault {
    Input(Input),
    Default,
}

/// `s` is one of the words `a` and `b`, in any case.
pub open spec fn is_word(s: Seq<char>, a: Seq<char>, b: Seq<char>) -> bool {
    str_lower(s) == a || str_lower(s) == b
}

/// What a typed line means as a choice; `None` when it is neither `e`,
/// `exit` (in any case) nor a number from 0 to 255.
pub open spec fn input_of(s: Seq<char>) -> Option<Input> {
    if is_word(s, "e"@, "exit"@) {
        Some(Input::Exit)
    } else {
        match parse_unsigned(s, 255) {
            Some(n) => Some(Input::Digit(n as u8)),
            None => None,
        }
    }
}

/// What a typed line means where a selection can be ended with `d` or `done`.
pub open spec fn input_with_done_of(s: Seq<char>) -> Option<InputWithDone> {
    if is_word(s, "d"@, "done"@) {
        Some(InputWithDone::Done)
    } else {
        match input_of(s) {
            Some(i) => Some(InputWithDone::Input(i)),
            None => None,
        }
    }
}

/// What a typed line means where an empty line takes the default.
pub open spec fn input_with_default_of(s: Seq<char>) -> Option<InputWithDefault> {
    if s.len() == 0 {
        Some(InputWithDefault::Default)
    } else {
        match input_of(s) {
            Some(i) => Some(InputWithDefault::Input(i)),
            None => None,
        }
    }
}

impl Input {
    /// Reads a choice from a typed line; `None` when it is not one.
    pub fn from_str(s: &str) -> (r: Option<Input>)
        ensures
            r == input_of(s@),
    {
        proof {
            reveal_strlit("e");
            reveal_strlit("exit");
        }
        let lower = to_lower(s);
        if str_eq(lower.as_str(), "e") || str_eq(lower.as_str(), "exit") {
            Some(Input::Exit)
        } else {
            match parse_u8(s) {
                Some(d) => Some(Input::Digit(d)),
                None => None,
            }
        }
    }
}

impl InputWithDone {
    /// The choice as an answer where a selection can be ended.
    pub fn from_input(i: Input) -> (r: InputWithDone)
        ensures
            r == InputWithDone::Input(i),
    {
        InputWithDone::Input(i)
    }

    /// Reads an answer from a typed line; `None` when it is not one.
    pub fn from_str(s: &str) -> (r: Option<InputWithDone>)
        ensures
            r == input_with_done_of(s@),
    {
        proof {
            reveal_strlit("d");
            reveal_strlit("done");
        }
        let lower = to_lower(s);
        if str_eq(lower.as_str(), "d") || str_eq(lower.as_str(), "done") {
            Some(InputWithDone::Done)
        } else {
            match Input::from_str(s) {
                Some(i) => Some(InputWithDone::from_input(i)),
                None => None,
            }
        }
    }
}

impl InputWithDefault {
    /// Reads an answer from a typed line; `None` when it is not one.
    pub fn from_str(s: &str) -> (r: Option<InputWithDefault>)
        ensures
            r == input_with_default_of(s@),
    {
        if s.unicode_len() == 0 {
            Some(InputWithDefault::Default)
        } else {
            match Input::from_str(s) {
                Some(i) => Some(InputWithDefault::Input(i)),
                None => None,
            }
        }
    }
}

} // verus!
