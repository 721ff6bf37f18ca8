//! Whether a mod is enabled.

use vstd::prelude::*;

verus! {

/// The state of a mod: enabled (its files linked into the game) or not.
#[derive(Copy, Clone, Debug, PartialEq, Eq, Structural)]
pub enum ModState {
    Enabled,
    Disabled,
}

impl Default for ModState {
    fn default() -> (s: Self)
        ensures
            s == ModState::Disabled,
    {
        ModState::Disabled
    }
}

/// The flag of a state: `true` for enabled.
pub open spec fn flag_of_state(s: ModState) -> bool {
    s == ModState::Enabled
}

/// The state of a flag: enabled for `true`.
pub open spec fn state_of_flag(v: bool) -> ModState {
    if v {
        ModState::Enabled
    } else {
        ModState::Disabled
    }
}

impl ModState {
    /// The mod is enabled.
    pub fn is_enabled(self) -> (r: bool)
        ensures
            r == flag_of_state(self),
    {
        match self {
            ModState::Enabled => true,
            ModState::Disabled => false,
        }
    }

    /// The state for a flag: `true` is enabled.
    pub fn from_bool(v: bool) -> (s: Self)
        ensures
            s == state_of_flag(v),
    {
        if v {
            ModState::Enabled
        } else {
            ModState::Disabled
        }
    }

    /// The text that names the state.
    pub fn label(self) -> (r: &'static str)
        ensures
            self == ModState::Enabled ==> r@ == "Enabled"@,
            self == ModState::Disabled ==> r@ == "Disabled"@,
    {
        match self {
            ModState::Enabled => "Enabled",
            ModState::Disabled => "Disabled",
        }
    }
}

/// A state and its flag convert into each other both ways: the state of a
/// state's flag is the state, and the flag of a flag's state is the flag.
pub proof fn lemma_state_flag_roundtrip(s: ModState, v: bool)
    ensures
        state_of_flag(flag_of_state(s)) == s,
        flag_of_state(state_of_flag(v)) == v,
{
}

} // verus!
