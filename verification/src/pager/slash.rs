//! Slash-command values exchanged with the pager.

use vstd::prelude::*;

verus! {

/// An argument suggestion shown in the pager's completion menu.
#[derive(Debug, Clone)]
pub struct ArgItem {
    /// Text shown in the menu.
    pub display: String,
    /// Text the query is matched against.
    pub match_text: String,
    /// Text inserted when the suggestion is accepted.
    pub insert_text: String,
    /// Longer description (empty when there is none).
    pub description: String,
}

/// Outcome of running a slash command.
#[derive(Debug, Clone)]
pub enum CommandResult {
    /// Show a message to the user.
    Message(String),
    /// Hand the command line on to the shell.
    PassThrough(String),
}

} // verus!
