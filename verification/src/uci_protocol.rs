//! The protocol's side of the engine: what each line of input asks for.
//!
//! Reading lines, printing and sending are left to the caller: one step takes
//! the words of a line and says what is to be printed or sent.

use vstd::prelude::*;
use crate::engine_command::EngineCommand;
use crate::infra::{capitalize_first_letter, uppercase_of};
use crate::search_options::{
    carried_out, default_options, stated_game, stated_option, stated_search, with_option,
    CommandError, SearchOptions, SearchOptionsView,
};
use crate::text::{lowercase_of, same_text, words_of};

verus! {

/// What a line of input asks for.
#[derive(Clone, Copy, Debug, PartialEq, Eq, Structural)]
pub enum Verb {
    Uci,
    IsReady,
    Go,
    Stop,
    SetOption,
    NewGame,
    Position,
    Quit,
    /// An empty line, or a first word that is no command.
    Unknown,
}

/// What is to be done after a line of input.
pub enum Reaction {
    /// Nothing.
    Nothing,
    /// These lines are to be printed.
    Print(Vec<String>),
    /// This command is to be sent to the search.
    Send(EngineCommand),
    /// This command is to be sent to the search, and no further line read.
    Quit(EngineCommand),
    /// The line could not be carried out, and has changed nothing.
    Failed(CommandError),
}

/// The verb of a line with the words `words`.
pub open spec fn verb_of(words: Seq<Seq<char>>) -> Verb {
    if words.len() == 0 {
        Verb::Unknown
    } else if words[0] == "uci"@ {
        Verb::Uci
    } else if words[0] == "isready"@ {
        Verb::IsReady
    } else if words[0] == "go"@ {
        Verb::Go
    } else if words[0] == "stop"@ {
        Verb::Stop
    } else if words[0] == "setoption"@ {
        Verb::SetOption
    } else if words[0] == "ucinewgame"@ {
        Verb::NewGame
    } else if words[0] == "position"@ {
        Verb::Position
    } else if words[0] == "quit"@ {
        Verb::Quit
    } else {
        Verb::Unknown
    }
}

/// What a reaction says of the command that led to it: that it failed, or
/// that it was carried out.
pub open spec fn done_of(reaction: Reaction) -> Result<(), CommandError> {
    match reaction {
        Reaction::Failed(e) => Err(e),
        _ => Ok(()),
    }
}

/// `text` with a comma and a space in place of each colon.
pub open spec fn with_commas(text: Seq<char>) -> Seq<char>
    decreases text.len(),
{
    if text.len() == 0 {
        Seq::<char>::empty()
    } else if text.last() == ':' {
        with_commas(text.drop_last()) + seq![',', ' ']
    } else {
        with_commas(text.drop_last()).push(text.last())
    }
}

/// The first line of the answer to `uci`: the engine's name with its first
/// letter in upper case, and its version.
pub open spec fn name_line(name: Seq<char>, version: Seq<char>) -> Seq<char> {
    "id name "@ + (if name.len() == 0 {
        Seq::<char>::empty()
    } else {
        uppercase_of(name[0]) + name.skip(1)
    }) + seq![' '] + version
}

/// The second line of the answer to `uci`: the authors, a comma between them.
pub open spec fn author_line(authors: Seq<char>) -> Seq<char> {
    "id author "@ + with_commas(authors)
}

/// `text` with a comma and a space in place of each colon.
pub fn replace_colons(text: &str) -> (replaced: String)
    ensures
        replaced@ == with_commas(text@),
{
    let length = text.unicode_len();
    let mut replaced = String::new();
    let mut i: usize = 0;
    while i < length
        invariant
            i <= length,
            length == text@.len(),
            replaced@ == with_commas(text@.take(i as int)),
        decreases length - i,
    {
        proof {
            assert(text@.take(i + 1).drop_last() == text@.take(i as int));
            assert(text@.take(i + 1).last() == text@[i as int]);
        }
        if text.get_char(i) == ':' {
            replaced.append(", ");
            proof {
                reveal_strlit(", ");
                assert(", "@ == seq![',', ' ']);
            }
        } else {
            let piece = text.substring_char(i, i + 1);
            assert(piece@ == seq![text@[i as int]]);
            replaced.append(piece);
        }
        i = i + 1;
    }
    assert(text@.take(length as int) == text@);
    replaced
}

/// The protocol's state: the options of the next search.
pub struct UciProtocol {
    search_options: SearchOptions,
}

impl View for UciProtocol {
    type V = SearchOptionsView;

    closed spec fn view(&self) -> SearchOptionsView {
        self.search_options@
    }
}

impl UciProtocol {
    /// The protocol before any line: the options before any command.
    pub fn new() -> (protocol: UciProtocol)
        ensures
            protocol@ == default_options(),
    {
        UciProtocol { search_options: SearchOptions::default() }
    }

    /// The options of the next search.
    pub fn options(&self) -> (options: &SearchOptions)
        ensures
            options@ == self@,
    {
        &self.search_options
    }

    /// The answer to `uci`: the engine's name and version, its authors, one
    /// line for each option, and `uciok`.
    pub fn uci(name: &str, version: &str, authors: &str) -> (lines: Vec<String>)
        ensures
            lines@.len() == 7,
            lines@[0]@ == name_line(name@, version@),
            lines@[1]@ == author_line(authors@),
            lines@[2]@ == "option name MaxDepth type spin default -1 min -1 max 99"@,
            lines@[3]@ == "option name Move Overhead type spin default 10 min 0 max 5000"@,
            lines@[4]@ == "option name Syzygy50MoveRule type check default true"@,
            lines@[5]@ == "option name SyzygyPath type string default <empty>"@,
            lines@[6]@ == "uciok"@,
    {
        let mut lines: Vec<String> = Vec::new();
        let mut first = String::from_str("id name ");
        first.append(capitalize_first_letter(name).as_str());
        first.append(" ");
        proof {
            reveal_strlit(" ");
            assert(" "@ == seq![' ']);
        }
        first.append(version);
        lines.push(first);
        let mut second = String::from_str("id author ");
        second.append(replace_colons(authors).as_str());
        lines.push(second);
        let mut options = SearchOptions::get_uci_options();
        let fourth = options.pop().unwrap();
        let third = options.pop().unwrap();
        let second_option = options.pop().unwrap();
        let first_option = options.pop().unwrap();
        lines.push(first_option);
        lines.push(second_option);
        lines.push(third);
        lines.push(fourth);
        lines.push(String::from_str("uciok"));
        lines
    }

    /// The answer to `isready`.
    pub fn is_ready() -> (line: String)
        ensures
            line@ == "readyok"@,
    {
        String::from_str("readyok")
    }

    /// Carries out the words of a `go` command and hands out the command for
    /// the search, with a copy of the options.
    pub fn go(&mut self, args: &[String]) -> (command: Result<EngineCommand, CommandError>)
        ensures
            match stated_search(old(self)@, words_of(args@)) {
                Ok(v) => {
                    &&& final(self)@ == v
                    &&& command matches Ok(c)
                    &&& !c.stop
                    &&& !c.quit
                    &&& c.search_options@ == v
                },
                Err(e) => {
                    &&& final(self)@ == old(self)@
                    &&& command matches Err(f)
                    &&& f == e
                },
            },
    {
        match self.search_options.set_search_parameters(args) {
            Ok(()) => Ok(EngineCommand::go(self.search_options.duplicate())),
            Err(e) => Err(e),
        }
    }

    /// The command that stops the search.
    pub fn stop(&self) -> (command: EngineCommand)
        ensures
            command.stop,
            !command.quit,
            command.search_options@ == default_options(),
    {
        EngineCommand::stop()
    }

    /// The command that stops the search and ends the engine.
    pub fn quit(&self) -> (command: EngineCommand)
        ensures
            command.stop,
            command.quit,
            command.search_options@ == default_options(),
    {
        EngineCommand::quit()
    }

    /// Carries out the words of a `setoption` command.
    pub fn set_option(&mut self, args: &[String]) -> (done: Result<(), CommandError>)
        ensures
            match stated_option(words_of(args@)) {
                Err(e) => done == Err::<(), CommandError>(e) && final(self)@ == old(self)@,
                Ok((name, value)) => carried_out(
                    old(self)@,
                    final(self)@,
                    done,
                    with_option(old(self)@, lowercase_of(name), lowercase_of(value), true),
                ) || carried_out(
                    old(self)@,
                    final(self)@,
                    done,
                    with_option(old(self)@, lowercase_of(name), lowercase_of(value), false),
                ),
            },
    {
        self.search_options.set_option(args)
    }

    /// Carries out `ucinewgame`: the options are those before any command,
    /// however often it is said.
    pub fn new_game(&mut self)
        ensures
            final(self)@ == default_options(),
    {
        self.search_options.reset();
    }

    /// Carries out the words of a `position` command.
    pub fn position(&mut self, args: &[String]) -> (done: Result<(), CommandError>)
        ensures
            match stated_game(words_of(args@)) {
                Ok(g) => done is Ok && final(self)@ == (SearchOptionsView { game: g, ..old(self)@ }),
                Err(e) => done == Err::<(), CommandError>(e) && final(self)@ == old(self)@,
            },
    {
        self.search_options.set_position(args)
    }

    /// The verb of a line with the words `words`.
    pub fn verb(words: &[String]) -> (verb: Verb)
        ensures
            verb == verb_of(words_of(words@)),
    {
        if words.len() == 0 {
            return Verb::Unknown;
        }
        assert(words_of(words@)[0] == words@[0]@);
        let first = words[0].as_str();
        if same_text(first, "uci") {
            Verb::Uci
        } else if same_text(first, "isready") {
            Verb::IsReady
        } else if same_text(first, "go") {
            Verb::Go
        } else if same_text(first, "stop") {
            Verb::Stop
        } else if same_text(first, "setoption") {
            Verb::SetOption
        } else if same_text(first, "ucinewgame") {
            Verb::NewGame
        } else if same_text(first, "position") {
            Verb::Position
        } else if same_text(first, "quit") {
            Verb::Quit
        } else {
            Verb::Unknown
        }
    }

    /// One step of the protocol: carries out the line with the words `words`
    /// and says what is to be printed or sent. The engine's name, version and
    /// authors go into the answer to `uci`. A line that is empty or starts
    /// with an unknown word changes nothing and asks for nothing.
    pub fn react(&mut self, words: &[String], name: &str, version: &str, authors: &str) -> (reaction:
        Reaction)
        ensures
            match verb_of(words_of(words@)) {
                Verb::Uci => {
                    &&& final(self)@ == old(self)@
                    &&& reaction matches Reaction::Print(lines)
                    &&& lines@.len() == 7
                    &&& lines@[0]@ == name_line(name@, version@)
                    &&& lines@[1]@ == author_line(authors@)
                    &&& lines@[2]@ == "option name MaxDepth type spin default -1 min -1 max 99"@
                    &&& lines@[3]@
                        == "option name Move Overhead type spin default 10 min 0 max 5000"@
                    &&& lines@[4]@ == "option name Syzygy50MoveRule type check default true"@
                    &&& lines@[5]@ == "option name SyzygyPath type string default <empty>"@
                    &&& lines@[6]@ == "uciok"@
                },
                Verb::IsReady => {
                    &&& final(self)@ == old(self)@
                    &&& reaction matches Reaction::Print(lines)
                    &&& lines@.len() == 1
                    &&& lines@[0]@ == "readyok"@
                },
                Verb::Go => match stated_search(old(self)@, words_of(words@).skip(1)) {
                    Ok(v) => {
                        &&& final(self)@ == v
                        &&& reaction matches Reaction::Send(c)
                        &&& !c.stop
                        &&& !c.quit
                        &&& c.search_options@ == v
                    },
                    Err(e) => {
                        &&& final(self)@ == old(self)@
                        &&& reaction matches Reaction::Failed(f)
                        &&& f == e
                    },
                },
                Verb::Stop => {
                    &&& final(self)@ == old(self)@
                    &&& reaction matches Reaction::Send(c)
                    &&& c.stop
                    &&& !c.quit
                    &&& c.search_options@ == default_options()
                },
                Verb::SetOption => (reaction is Nothing || reaction is Failed) && match stated_option(
                    words_of(words@).skip(1),
                ) {
                    Err(e) => done_of(reaction) == Err::<(), CommandError>(e) && final(self)@
                        == old(self)@,
                    Ok((name, value)) => carried_out(
                        old(self)@,
                        final(self)@,
                        done_of(reaction),
                        with_option(old(self)@, lowercase_of(name), lowercase_of(value), true),
                    ) || carried_out(
                        old(self)@,
                        final(self)@,
                        done_of(reaction),
                        with_option(old(self)@, lowercase_of(name), lowercase_of(value), false),
                    ),
                },
                Verb::NewGame => final(self)@ == default_options() && reaction is Nothing,
                Verb::Position => match stated_game(words_of(words@).skip(1)) {
                    Ok(g) => reaction is Nothing && final(self)@ == (SearchOptionsView {
                        game: g,
                        ..old(self)@
                    }),
                    Err(e) => {
                        &&& final(self)@ == old(self)@
                        &&& reaction matches Reaction::Failed(f)
                        &&& f == e
                    },
                },
                Verb::Quit => {
                    &&& final(self)@ == old(self)@
                    &&& reaction matches Reaction::Quit(c)
                    &&& c.stop
                    &&& c.quit
                    &&& c.search_options@ == default_options()
                },
                Verb::Unknown => final(self)@ == old(self)@ && reaction is Nothing,
            },
    {
        let verb = UciProtocol::verb(words);
        let length = words.len();
        match verb {
            Verb::Uci => Reaction::Print(UciProtocol::uci(name, version, authors)),
            Verb::IsReady => {
                let mut lines: Vec<String> = Vec::new();
                lines.push(UciProtocol::is_ready());
                Reaction::Print(lines)
            },
            Verb::Go => {
                let args = vstd::slice::slice_subrange(words, 1, length);
                assert(words_of(args@) =~= words_of(words@).skip(1));
                match self.go(args) {
                    Ok(command) => Reaction::Send(command),
                    Err(e) => Reaction::Failed(e),
                }
            },
            Verb::Stop => Reaction::Send(self.stop()),
            Verb::SetOption => {
                let args = vstd::slice::slice_subrange(words, 1, length);
                assert(words_of(args@) =~= words_of(words@).skip(1));
                match self.set_option(args) {
                    Ok(()) => Reaction::Nothing,
                    Err(e) => Reaction::Failed(e),
                }
            },
            Verb::NewGame => {
                self.new_game();
                Reaction::Nothing
            },
            Verb::Position => {
                let args = vstd::slice::slice_subrange(words, 1, length);
                assert(words_of(args@) =~= words_of(words@).skip(1));
                match self.position(args) {
                    Ok(()) => Reaction::Nothing,
                    Err(e) => Reaction::Failed(e),
                }
            },
            Verb::Quit => Reaction::Quit(self.quit()),
            Verb::Unknown => Reaction::Nothing,
        }
    }
}

} // verus!
