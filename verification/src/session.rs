//! A session of the calculator: what each line that comes in asks for, and
//! the log of what was computed.

use vstd::prelude::*;
use crate::expression::EvaluationError;
use crate::history::{entry_text, History};
use crate::text::{eq_ignoring_case, same_ignoring_case, trim, trimmed};

verus! {

/// What a line asks for.
#[derive(Clone, Copy, Debug, PartialEq, Eq, Structural)]
pub enum Command {
    /// `quit` or `q`: end the session.
    Quit,
    /// `history`: show the log.
    ShowHistory,
    /// `clear`: empty the log.
    ClearHistory,
    /// Nothing but separators: pass over the line.
    Nothing,
    /// Anything else: evaluate the line.
    Evaluate,
}

/// The command that a line spells. The separators at its ends do not count,
/// nor does the case of its letters.
pub open spec fn command_of(line: Seq<char>) -> Command {
    let t = trimmed(line);
    if same_ignoring_case(t, seq!['q', 'u', 'i', 't']) || same_ignoring_case(t, seq!['q']) {
        Command::Quit
    } else if same_ignoring_case(t, seq!['h', 'i', 's', 't', 'o', 'r', 'y']) {
        Command::ShowHistory
    } else if same_ignoring_case(t, seq!['c', 'l', 'e', 'a', 'r']) {
        Command::ClearHistory
    } else if t.len() == 0 {
        Command::Nothing
    } else {
        Command::Evaluate
    }
}

/// Reads the command of a line.
pub fn parse_command(line: &str) -> (c: Command)
    ensures
        c == command_of(line@),
{
    let t = trim(line);
    proof {
        reveal_strlit("quit");
        reveal_strlit("q");
        reveal_strlit("history");
        reveal_strlit("clear");
    }
    if eq_ignoring_case(t, "quit") || eq_ignoring_case(t, "q") {
        Command::Quit
    } else if eq_ignoring_case(t, "history") {
        Command::ShowHistory
    } else if eq_ignoring_case(t, "clear") {
        Command::ClearHistory
    } else if t.unicode_len() == 0 {
        Command::Nothing
    } else {
        Command::Evaluate
    }
}

/// What the caller is to do after a line came in.
#[derive(Clone, Debug, PartialEq, Eq)]
pub enum Action {
    /// End the session; `calculations` is the number of entries in the log.
    Quit { calculations: usize },
    /// Show the log.
    ShowHistory,
    /// The log was emptied: say so.
    Cleared,
    /// Do nothing.
    Skip,
    /// Evaluate `line`, the line that came in without the separators at its
    /// ends, and report how it ended with `Session::finish`.
    Evaluate { line: String },
}

/// The state of a session: its log.
#[derive(Clone, Debug)]
pub struct Session {
    pub history: History,
}

impl Session {
    /// A session with an empty log.
    pub fn new() -> (s: Session)
        ensures
            s.history@ == Seq::<Seq<char>>::empty(),
    {
        Session { history: History::new() }
    }

    /// Takes a line in and says what is to be done. Only `clear` changes
    /// the log.
    pub fn step(&mut self, line: &str) -> (action: Action)
        ensures
            match command_of(line@) {
                Command::Quit => action == (Action::Quit { calculations: old(self).history@.len() as usize })
                    && final(self).history@ == old(self).history@,
                Command::ShowHistory => action == Action::ShowHistory && final(self).history@ == old(
                    self,
                ).history@,
                Command::ClearHistory => action == Action::Cleared && final(self).history@
                    == Seq::<Seq<char>>::empty(),
                Command::Nothing => action == Action::Skip && final(self).history@ == old(self).history@,
                Command::Evaluate => (action matches Action::Evaluate { line: l } && l@ == trimmed(line@))
                    && final(self).history@ == old(self).history@,
            },
    {
        match parse_command(line) {
            Command::Quit => Action::Quit { calculations: self.history.len() },
            Command::ShowHistory => Action::ShowHistory,
            Command::ClearHistory => {
                self.history.clear();
                Action::Cleared
            },
            Command::Nothing => Action::Skip,
            Command::Evaluate => Action::Evaluate { line: String::from_str(trim(line)) },
        }
    }

    /// Takes in how the evaluation of `line` ended, and gives the text to
    /// show. A result, given as it is shown, becomes one new entry at the
    /// end of the log, `line = result`; an error leaves the log as it was.
    pub fn finish(&mut self, line: &str, outcome: &Result<String, EvaluationError>) -> (shown: String)
        ensures
            match outcome {
                Ok(result) => final(self).history@ == old(self).history@.push(entry_text(line@, result@))
                    && shown@ == "Result: "@ + result@,
                Err(error) => final(self).history@ == old(self).history@ && shown@ == "Error: "@
                    + error.spec_message(),
            },
    {
        match outcome {
            Ok(result) => {
                self.history.record(line, result.as_str());
                let mut shown = String::from_str("Result: ");
                shown.append(result.as_str());
                shown
            },
            Err(error) => {
                let mut shown = String::from_str("Error: ");
                shown.append(error.message().as_str());
                shown
            },
        }
    }
}

} // verus!
