//! The states of the interactive shell and the moves between them.

use vstd::prelude::*;
use crate::numeral::{parse_u32, unsigned_number};

verus! {

/// Where the shell is: at the menu, in one of the four operations, or
/// leaving.
#[derive(Debug, Clone, Copy, PartialEq, Eq, Structural)]
pub enum State {
    Menu,
    Displaying,
    Adding,
    Deleting,
    Editing,
    Exiting,
}

/// Why a selection kept the shell at the menu.
#[derive(Debug, Clone, Copy, PartialEq, Eq, Structural)]
pub enum MenuError {
    /// The input is not a number.
    NotANumber,
    /// The number is none of 1 to 5.
    UnknownChoice,
}

/// The state that a selection leads to: 1 lists, 2 adds, 3 deletes, 4 edits
/// and 5 leaves.
pub open spec fn selected(input: Seq<char>) -> Result<State, MenuError> {
    match unsigned_number(input, u32::MAX as nat) {
        None => Err(MenuError::NotANumber),
        Some(choice) => if choice == 1 {
            Ok(State::Displaying)
        } else if choice == 2 {
            Ok(State::Adding)
        } else if choice == 3 {
            Ok(State::Deleting)
        } else if choice == 4 {
            Ok(State::Editing)
        } else if choice == 5 {
            Ok(State::Exiting)
        } else {
            Err(MenuError::UnknownChoice)
        },
    }
}

/// The state that follows once the work of `state` is done: every operation
/// goes back to the menu, and nothing follows the exit.
pub open spec fn followed_by(state: State) -> Option<State> {
    if state is Exiting {
        None
    } else {
        Some(State::Menu)
    }
}

/// Reads a selection made at the menu. On an error the shell stays at the
/// menu.
pub fn select(input: &str) -> (next: Result<State, MenuError>)
    ensures
        next == selected(input@),
        !(next matches Ok(State::Menu)),
{
    match parse_u32(input) {
        None => Err(MenuError::NotANumber),
        Some(choice) => if choice == 1 {
            Ok(State::Displaying)
        } else if choice == 2 {
            Ok(State::Adding)
        } else if choice == 3 {
            Ok(State::Deleting)
        } else if choice == 4 {
            Ok(State::Editing)
        } else if choice == 5 {
            Ok(State::Exiting)
        } else {
            Err(MenuError::UnknownChoice)
        },
    }
}

/// Leaves a state whose work is done.
pub fn resume(state: State) -> (next: Option<State>)
    ensures
        next == followed_by(state),
{
    match state {
        State::Exiting => None,
        _ => Some(State::Menu),
    }
}

} // verus!
