//! What the protocol asks of the search: to go, to stop, or to quit.

use vstd::prelude::*;
use crate::search_options::{default_options, SearchOptions};

verus! {

/// A command to the search. `Go` is the command that neither stops nor quits;
/// only it reads the options.
pub struct EngineCommand {
    pub search_options: SearchOptions,
    pub stop: bool,
    pub quit: bool,
}

impl EngineCommand {
    /// The command that asks for nothing: no stop, no quit, the options
    /// before any command.
    pub fn default() -> (command: EngineCommand)
        ensures
            !command.stop,
            !command.quit,
            command.search_options@ == default_options(),
    {
        EngineCommand { search_options: SearchOptions::default(), stop: false, quit: false }
    }

    /// The command to search with `options`.
    pub fn go(options: SearchOptions) -> (command: EngineCommand)
        ensures
            !command.stop,
            !command.quit,
            command.search_options@ == options@,
    {
        EngineCommand { search_options: options, stop: false, quit: false }
    }

    /// The command to stop the search.
    pub fn stop() -> (command: EngineCommand)
        ensures
            command.stop,
            !command.quit,
            command.search_options@ == default_options(),
    {
        EngineCommand { search_options: SearchOptions::default(), stop: true, quit: false }
    }

    /// The command to stop the search and to end.
    pub fn quit() -> (command: EngineCommand)
        ensures
            command.stop,
            command.quit,
            command.search_options@ == default_options(),
    {
        EngineCommand { search_options: SearchOptions::default(), stop: true, quit: true }
    }
}

} // verus!
