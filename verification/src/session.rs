//! The menu-driven session: which action a typed choice asks for, and
//! when the session ends.

use vstd::prelude::*;
use vstd::string::*;
use crate::text::{signed_decimal, signed_decimal_text, texts, trim, trimmed};

verus! {

/// Whether the menu is still being served.
#[derive(Clone, Copy, Debug, PartialEq, Eq, Structural)]
pub enum SessionState {
    Running,
    Terminated,
}

/// What the caller is to do after a choice was typed.
#[derive(Clone, Copy, Debug, PartialEq, Eq, Structural)]
pub enum Action {
    /// Ask for a new record and append it.
    AddMovie,
    /// Show the catalog.
    ListMovies,
    /// Ask which record to delete, and delete it.
    DeleteMovie,
    /// Write the catalog out and stop.
    SaveAndExit,
    /// Tell the operator that the choice is not on the menu.
    RejectChoice,
    /// The session is over: there is nothing to do.
    Nothing,
}

/// How a run of the program ended.
#[derive(Debug)]
pub enum RunResult {
    /// The session returned this code.
    Finished(i32),
    /// The session gave up with this message.
    Failed(String),
    /// The session broke off unexpectedly.
    Faulted,
}

/// The action that a typed choice asks for: `1` to `4`, white space
/// around it ignored; anything else is rejected.
pub open spec fn action_of(input: Seq<char>) -> Action {
    let t = trimmed(input);
    if t.len() != 1 {
        Action::RejectChoice
    } else if t[0] == '1' {
        Action::AddMovie
    } else if t[0] == '2' {
        Action::ListMovies
    } else if t[0] == '3' {
        Action::DeleteMovie
    } else if t[0] == '4' {
        Action::SaveAndExit
    } else {
        Action::RejectChoice
    }
}

/// The state after a choice, and what is to be done for it. A session
/// that is over stays over; a running one ends with save-and-exit and
/// with nothing else.
pub open spec fn next_step(state: SessionState, input: Seq<char>) -> (SessionState, Action) {
    if state == SessionState::Terminated {
        (SessionState::Terminated, Action::Nothing)
    } else if action_of(input) == Action::SaveAndExit {
        (SessionState::Terminated, Action::SaveAndExit)
    } else {
        (SessionState::Running, action_of(input))
    }
}

pub open spec fn menu_text() -> Seq<Seq<char>> {
    seq![
        "\nMovie Database Menu:"@,
        "1. Add new movie"@,
        "2. View all movies"@,
        "3. Delete a movie"@,
        "4. Save & Exit"@,
    ]
}

/// The exit code of a run, and the diagnostic that goes with it if
/// there is one.
pub open spec fn exit_report_of(result: RunResult) -> (i32, Option<Seq<char>>) {
    match result {
        RunResult::Finished(code) => if code == 0 {
            (0i32, None)
        } else {
            (code, Some("Program ended with error code: "@ + signed_decimal(code as int)))
        },
        RunResult::Failed(reason) => (1i32, Some("Error: "@ + reason@)),
        RunResult::Faulted => (1i32, Some("Error: An unexpected error occurred."@)),
    }
}

/// The lines of the menu.
pub fn menu_lines() -> (lines: Vec<String>)
    ensures
        texts(lines@) == menu_text(),
{
    let mut lines: Vec<String> = Vec::new();
    lines.push(String::from_str("\nMovie Database Menu:"));
    lines.push(String::from_str("1. Add new movie"));
    lines.push(String::from_str("2. View all movies"));
    lines.push(String::from_str("3. Delete a movie"));
    lines.push(String::from_str("4. Save & Exit"));
    proof {
        assert(texts(lines@) =~= menu_text());
    }
    lines
}

/// Reads a typed menu choice.
pub fn parse_choice(input: &str) -> (action: Action)
    ensures
        action == action_of(input@),
{
    let t: &str = trim(input);
    if t.unicode_len() != 1 {
        return Action::RejectChoice;
    }
    let c: char = t.get_char(0);
    if c == '1' {
        Action::AddMovie
    } else if c == '2' {
        Action::ListMovies
    } else if c == '3' {
        Action::DeleteMovie
    } else if c == '4' {
        Action::SaveAndExit
    } else {
        Action::RejectChoice
    }
}

/// One turn of the session: from the state and the typed choice to the
/// next state and what the caller is to do.
pub fn step(state: SessionState, input: &str) -> (r: (SessionState, Action))
    ensures
        r == next_step(state, input@),
{
    match state {
        SessionState::Terminated => (SessionState::Terminated, Action::Nothing),
        SessionState::Running => {
            let action: Action = parse_choice(input);
            match action {
                Action::SaveAndExit => (SessionState::Terminated, Action::SaveAndExit),
                _ => (SessionState::Running, action),
            }
        },
    }
}

/// The notice for a choice that is not on the menu.
pub fn invalid_choice_notice() -> (notice: &'static str)
    ensures
        notice@ == "Invalid choice. Please try again."@,
{
    "Invalid choice. Please try again."
}

/// The exit code of a run and its diagnostic.
pub fn exit_report(result: &RunResult) -> (r: (i32, Option<String>))
    ensures
        r.0 == exit_report_of(*result).0,
        match exit_report_of(*result).1 {
            Some(text) => r.1.is_some() && r.1.unwrap()@ == text,
            None => r.1.is_none(),
        },
{
    match result {
        RunResult::Finished(code) => {
            if *code == 0 {
                (0, None)
            } else {
                (
                    *code,
                    Some(
                        String::from_str("Program ended with error code: ").concat(
                            signed_decimal_text(*code).as_str(),
                        ),
                    ),
                )
            }
        },
        RunResult::Failed(reason) => (1, Some(String::from_str("Error: ").concat(reason.as_str()))),
        RunResult::Faulted => (1, Some(String::from_str("Error: An unexpected error occurred."))),
    }
}

} // verus!
