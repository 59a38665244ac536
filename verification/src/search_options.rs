//! What one search is asked to do: the position, the clocks, the depth, and
//! the options that last from one search to the next.

use vstd::prelude::*;
use crate::chess_move::{parsed_move, Move};
use crate::fen::well_shaped;
use crate::game::{Game, GameView};
use crate::rules::{fen_accepted, start_position};
use crate::text::{
    find_word, first_index_of, join_words, joined, lemma_first_index_of, lowercase, lowercase_of,
    parse_i64, parse_u64, same_text, signed_of, unsigned_of, words_of,
};

verus! {

/// Why a command was not carried out.
#[derive(Clone, Copy, Debug, PartialEq, Eq, Structural)]
pub enum CommandError {
    /// A word that the command needs is not there.
    MissingToken,
    /// The position's text is not well shaped, or the rules do not accept it.
    InvalidFen,
    /// A move's text spells no move.
    InvalidMove,
    /// A value is no number, or one too large.
    InvalidValue,
    /// A `setoption` command without `name` before `value`.
    InvalidSetOption,
}

/// The search depth that stands for "no limit" is `None`.
pub type Depth = Option<i64>;

/// The lesser of two depths.
pub open spec fn lesser_depth(a: Depth, b: Depth) -> Depth {
    match (a, b) {
        (None, _) => b,
        (_, None) => a,
        (Some(x), Some(y)) => if x <= y {
            a
        } else {
            b
        },
    }
}

/// The mathematical model of [`SearchOptions`].
pub struct SearchOptionsView {
    pub game: GameView,
    pub move_time: u64,
    pub white_time: u64,
    pub white_increment: u64,
    pub black_time: u64,
    pub black_increment: u64,
    pub depth: Depth,
    pub fifty_moves_rule: bool,
    pub max_depth: Depth,
    pub move_overhead: u64,
    pub syzygy_path: Option<Seq<char>>,
}

/// The options of one search. Times are in milliseconds; a time of zero is
/// not set.
pub struct SearchOptions {
    pub chess_game: Game,
    pub move_time: u64,
    pub white_time: u64,
    pub white_increment: u64,
    pub black_time: u64,
    pub black_increment: u64,
    pub depth: Depth,
    pub fifty_moves_rule: bool,
    pub max_depth: Depth,
    pub move_overhead: u64,
    pub syzygy_path: Option<String>,
}

impl View for SearchOptions {
    type V = SearchOptionsView;

    open spec fn view(&self) -> SearchOptionsView {
        SearchOptionsView {
            game: self.chess_game@,
            move_time: self.move_time,
            white_time: self.white_time,
            white_increment: self.white_increment,
            black_time: self.black_time,
            black_increment: self.black_increment,
            depth: self.depth,
            fifty_moves_rule: self.fifty_moves_rule,
            max_depth: self.max_depth,
            move_overhead: self.move_overhead,
            syzygy_path: match self.syzygy_path {
                Some(path) => Some(path@),
                None => None,
            },
        }
    }
}

/// The options before any command: the starting position, no clock, no limit
/// of depth, an overhead of ten milliseconds, the fifty-move rule on.
pub open spec fn default_options() -> SearchOptionsView {
    SearchOptionsView {
        game: GameView { fen: start_position(), played: Seq::<Move>::empty() },
        move_time: 0,
        white_time: 0,
        white_increment: 0,
        black_time: 0,
        black_increment: 0,
        depth: None,
        fifty_moves_rule: true,
        max_depth: None,
        move_overhead: 10,
        syzygy_path: None,
    }
}

/// `v` with the clocks unset and no limit of depth.
pub open spec fn without_clocks(v: SearchOptionsView) -> SearchOptionsView {
    SearchOptionsView {
        move_time: 0,
        white_time: 0,
        white_increment: 0,
        black_time: 0,
        black_increment: 0,
        depth: None,
        ..v
    }
}

/// The game after the moves that `texts` spell, played in turn from `g`; a
/// move that is not legal when its turn comes is passed over. Nothing where
/// one of the texts spells no move.
pub open spec fn replayed(g: GameView, texts: Seq<Seq<char>>) -> Option<GameView>
    decreases texts.len(),
{
    if texts.len() == 0 {
        Some(g)
    } else {
        match replayed(g, texts.drop_last()) {
            None => None,
            Some(before) => match parsed_move(texts.last()) {
                None => None,
                Some(m) => if before.legal_moves().contains(m) {
                    Some(before.after(m))
                } else {
                    Some(before)
                },
            },
        }
    }
}

/// Where the text of the position ends among `words`: at the first `moves`
/// after the second word, or at the end.
pub open spec fn fen_end(words: Seq<Seq<char>>) -> int {
    match first_index_of(words.skip(2), "moves"@) {
        Some(i) => i + 2,
        None => words.len() as int,
    }
}

/// Where the moves begin among `words`: behind the first `moves`, or at the
/// end.
pub open spec fn moves_start(words: Seq<Seq<char>>) -> int {
    match first_index_of(words, "moves"@) {
        Some(i) => i + 1,
        None => words.len() as int,
    }
}

/// The game that the words of a `position` command state.
pub open spec fn stated_game(words: Seq<Seq<char>>) -> Result<GameView, CommandError> {
    if words.len() == 0 {
        Err(CommandError::MissingToken)
    } else if words[0] == "fen"@ && words.len() < 2 {
        Err(CommandError::MissingToken)
    } else {
        let fen = if words[0] == "fen"@ {
            joined(words, 1, fen_end(words))
        } else {
            start_position()
        };
        if words[0] == "fen"@ && !(well_shaped(fen) && fen_accepted(fen)) {
            Err(CommandError::InvalidFen)
        } else {
            match replayed(
                GameView { fen, played: Seq::<Move>::empty() },
                words.skip(moves_start(words)),
            ) {
                Some(g) => Ok(g),
                None => Err(CommandError::InvalidMove),
            }
        }
    }
}

/// The number behind the first `key` among `words`: nothing where `key` is
/// absent.
pub open spec fn stated_number(words: Seq<Seq<char>>, key: Seq<char>) -> Result<
    Option<u64>,
    CommandError,
> {
    match first_index_of(words, key) {
        None => Ok(None),
        Some(i) => if i + 1 >= words.len() {
            Err(CommandError::MissingToken)
        } else {
            match unsigned_of(words[i + 1]) {
                Some(n) => if n <= u64::MAX {
                    Ok(Some(n as u64))
                } else {
                    Err(CommandError::InvalidValue)
                },
                None => Err(CommandError::InvalidValue),
            }
        },
    }
}

/// The depth behind the first `depth` among `words`: nothing where the word
/// is absent.
pub open spec fn stated_depth(words: Seq<Seq<char>>) -> Result<Option<i64>, CommandError> {
    match first_index_of(words, "depth"@) {
        None => Ok(None),
        Some(i) => if i + 1 >= words.len() {
            Err(CommandError::MissingToken)
        } else {
            match signed_of(words[i + 1]) {
                Some(n) => if i64::MIN <= n <= i64::MAX {
                    Ok(Some(n as i64))
                } else {
                    Err(CommandError::InvalidValue)
                },
                None => Err(CommandError::InvalidValue),
            }
        },
    }
}

/// `n`, or zero where nothing was stated.
pub open spec fn or_zero(n: Option<u64>) -> u64 {
    match n {
        Some(v) => v,
        None => 0,
    }
}

/// The options after a `go` command with the words `words`, given the options
/// `v` before it.
pub open spec fn stated_search(v: SearchOptionsView, words: Seq<Seq<char>>) -> Result<
    SearchOptionsView,
    CommandError,
> {
    if first_index_of(words, "infinite"@) is Some {
        Ok(without_clocks(v))
    } else {
        match stated_number(words, "movetime"@) {
            Err(e) => Err(e),
            Ok(move_time) => match stated_number(words, "wtime"@) {
                Err(e) => Err(e),
                Ok(white_time) => match stated_number(words, "winc"@) {
                    Err(e) => Err(e),
                    Ok(white_increment) => match stated_number(words, "btime"@) {
                        Err(e) => Err(e),
                        Ok(black_time) => match stated_number(words, "binc"@) {
                            Err(e) => Err(e),
                            Ok(black_increment) => match stated_depth(words) {
                                Err(e) => Err(e),
                                Ok(depth) => Ok(
                                    SearchOptionsView {
                                        move_time: or_zero(move_time),
                                        white_time: or_zero(white_time),
                                        white_increment: or_zero(white_increment),
                                        black_time: or_zero(black_time),
                                        black_increment: or_zero(black_increment),
                                        depth: if words.len() == 0 {
                                            Some(2i64)
                                        } else {
                                            depth
                                        },
                                        ..v
                                    },
                                ),
                            },
                        },
                    },
                },
            },
        }
    }
}

/// The options after the option `name` is set to `value`, both in lower case,
/// given the options `v` before it; `exists` says whether a path named by
/// `value` was found.
pub open spec fn with_option(
    v: SearchOptionsView,
    name: Seq<char>,
    value: Seq<char>,
    exists: bool,
) -> Result<SearchOptionsView, CommandError> {
    if name == "maxdepth"@ {
        match signed_of(value) {
            Some(n) => if i64::MIN <= n <= i64::MAX {
                Ok(
                    SearchOptionsView {
                        max_depth: if n == -1 {
                            None
                        } else {
                            Some(n as i64)
                        },
                        ..v
                    },
                )
            } else {
                Err(CommandError::InvalidValue)
            },
            None => Err(CommandError::InvalidValue),
        }
    } else if name == "move overhead"@ {
        match unsigned_of(value) {
            Some(n) => if n <= u64::MAX {
                Ok(SearchOptionsView { move_overhead: n as u64, ..v })
            } else {
                Err(CommandError::InvalidValue)
            },
            None => Err(CommandError::InvalidValue),
        }
    } else if name == "syzygy50moverule"@ {
        Ok(SearchOptionsView { fifty_moves_rule: value == "true"@, ..v })
    } else if name == "syzygypath"@ {
        Ok(
            SearchOptionsView {
                syzygy_path: if exists {
                    Some(value)
                } else {
                    None
                },
                ..v
            },
        )
    } else {
        Ok(v)
    }
}

/// The name and the value that the words of a `setoption` command state, as
/// they stand: the words between `name` and `value`, and those behind `value`.
pub open spec fn stated_option(words: Seq<Seq<char>>) -> Result<(Seq<char>, Seq<char>), CommandError> {
    match (first_index_of(words, "name"@), first_index_of(words, "value"@)) {
        (Some(n), Some(v)) => if n + 1 <= v {
            Ok((joined(words, n + 1, v), joined(words, v + 1, words.len() as int)))
        } else {
            Err(CommandError::InvalidSetOption)
        },
        _ => Err(CommandError::InvalidSetOption),
    }
}

/// Whether a command did what was `wanted` of it: on success the options are
/// the wanted ones, on failure the error is reported and nothing has changed.
pub open spec fn carried_out(
    before: SearchOptionsView,
    after: SearchOptionsView,
    done: Result<(), CommandError>,
    wanted: Result<SearchOptionsView, CommandError>,
) -> bool {
    match wanted {
        Ok(v) => done is Ok && after == v,
        Err(e) => done == Err::<(), CommandError>(e) && after == before,
    }
}

/// `std::path::Path::exists` of the standard library: whether something is
/// found at `path` at this moment. Nothing is claimed of the answer.
#[verifier::external_body]
fn path_exists(path: &str) -> bool {
    std::path::Path::new(path).exists()
}

/// Once a text fails to spell a move, no longer list of texts is replayed.
proof fn lemma_replayed_fails(g: GameView, texts: Seq<Seq<char>>, n: int)
    requires
        0 <= n <= texts.len(),
        replayed(g, texts.take(n)) is None,
    ensures
        replayed(g, texts) is None,
    decreases texts.len() - n,
{
    if n == texts.len() {
        assert(texts.take(n) == texts);
    } else {
        assert(texts.take(n + 1).drop_last() == texts.take(n));
        lemma_replayed_fails(g, texts, n + 1);
    }
}

impl SearchOptions {
    /// The options before any command.
    pub fn default() -> (options: SearchOptions)
        ensures
            options@ == default_options(),
    {
        SearchOptions {
            chess_game: Game::new(),
            move_time: 0,
            white_time: 0,
            white_increment: 0,
            black_time: 0,
            black_increment: 0,
            depth: None,
            fifty_moves_rule: true,
            max_depth: None,
            move_overhead: 10,
            syzygy_path: None,
        }
    }

    /// The lines that announce the options to the other side of the protocol.
    pub fn get_uci_options() -> (lines: Vec<String>)
        ensures
            lines@.len() == 4,
            lines@[0]@ == "option name MaxDepth type spin default -1 min -1 max 99"@,
            lines@[1]@ == "option name Move Overhead type spin default 10 min 0 max 5000"@,
            lines@[2]@ == "option name Syzygy50MoveRule type check default true"@,
            lines@[3]@ == "option name SyzygyPath type string default <empty>"@,
    {
        let mut lines: Vec<String> = Vec::new();
        lines.push(String::from_str("option name MaxDepth type spin default -1 min -1 max 99"));
        lines.push(
            String::from_str("option name Move Overhead type spin default 10 min 0 max 5000"),
        );
        lines.push(String::from_str("option name Syzygy50MoveRule type check default true"));
        lines.push(String::from_str("option name SyzygyPath type string default <empty>"));
        lines
    }

    /// Back to the options before any command.
    pub fn reset(&mut self)
        ensures
            final(self)@ == default_options(),
    {
        *self = SearchOptions::default();
    }

    /// A copy of these options.
    pub fn duplicate(&self) -> (copy: SearchOptions)
        ensures
            copy@ == self@,
    {
        SearchOptions {
            chess_game: self.chess_game.duplicate(),
            move_time: self.move_time,
            white_time: self.white_time,
            white_increment: self.white_increment,
            black_time: self.black_time,
            black_increment: self.black_increment,
            depth: self.depth,
            fifty_moves_rule: self.fifty_moves_rule,
            max_depth: self.max_depth,
            move_overhead: self.move_overhead,
            syzygy_path: match &self.syzygy_path {
                Some(path) => Some(path.clone()),
                None => None,
            },
        }
    }

    /// The depth to search: the lesser of the depth asked for and the greatest
    /// depth allowed.
    pub fn search_depth(&self) -> (depth: Depth)
        ensures
            depth == lesser_depth(self.max_depth, self.depth),
    {
        match (self.max_depth, self.depth) {
            (None, _) => self.depth,
            (_, None) => self.max_depth,
            (Some(x), Some(y)) => if x <= y {
                self.max_depth
            } else {
                self.depth
            },
        }
    }

    /// The clocks unset and no limit of depth.
    fn reset_temporary_parameters(&mut self)
        ensures
            final(self)@ == without_clocks(old(self)@),
    {
        self.move_time = 0;
        self.white_time = 0;
        self.white_increment = 0;
        self.black_time = 0;
        self.black_increment = 0;
        self.depth = None;
    }

    /// Carries out a `position` command: the game becomes the one that the
    /// words state. Where they state none, nothing changes.
    pub fn set_position(&mut self, args: &[String]) -> (done: Result<(), CommandError>)
        ensures
            match stated_game(words_of(args@)) {
                Ok(g) => done is Ok && final(self)@ == (SearchOptionsView { game: g, ..old(self)@ }),
                Err(e) => done == Err::<(), CommandError>(e) && final(self)@ == old(self)@,
            },
    {
        let ghost words = words_of(args@);
        if args.len() == 0 {
            return Err(CommandError::MissingToken);
        }
        assert(words[0] == args@[0]@);
        let from_fen = same_text(args[0].as_str(), "fen");
        if from_fen && args.len() < 2 {
            return Err(CommandError::MissingToken);
        }
        let mut game = if from_fen {
            let mut end: usize = 2;
            while end < args.len() && !same_text(args[end].as_str(), "moves")
                invariant
                    2 <= end <= args.len(),
                    words == words_of(args@),
                    forall|j: int| 2 <= j < end ==> words[j] != "moves"@,
                decreases args.len() - end,
            {
                assert(words[end as int] == args@[end as int]@);
                end = end + 1;
            }
            proof {
                let rest = words.skip(2);
                assert forall|j: int| 0 <= j < rest.len() implies rest[j] == words[j + 2] by {}
                if end < args.len() {
                    assert(words[end as int] == args@[end as int]@);
                    lemma_first_index_of(rest, "moves"@, Some(end - 2));
                } else {
                    lemma_first_index_of(rest, "moves"@, None);
                }
                assert(fen_end(words) == end);
            }
            let fen = join_words(args, 1, end);
            match Game::from_fen(fen.as_str()) {
                Some(g) => g,
                None => {
                    return Err(CommandError::InvalidFen);
                },
            }
        } else {
            Game::new()
        };
        let start: usize = match find_word(args, "moves") {
            Some(i) => i + 1,
            None => args.len(),
        };
        let ghost first = game@;
        let ghost texts = words.skip(start as int);
        let ghost wanted = stated_game(words);
        assert(wanted == match replayed(first, texts) {
            Some(g) => Ok::<GameView, CommandError>(g),
            None => Err::<GameView, CommandError>(CommandError::InvalidMove),
        });
        let mut i: usize = start;
        while i < args.len()
            invariant
                start <= i <= args.len(),
                words == words_of(args@),
                texts == words.skip(start as int),
                wanted == stated_game(words),
                wanted == match replayed(first, texts) {
                    Some(g) => Ok::<GameView, CommandError>(g),
                    None => Err::<GameView, CommandError>(CommandError::InvalidMove),
                },
                *self == *old(self),
                replayed(first, texts.take(i - start)) == Some(game@),
            decreases args.len() - i,
        {
            proof {
                assert(texts.take(i - start + 1).drop_last() == texts.take(i - start));
                assert(texts.take(i - start + 1).last() == words[i as int]);
                assert(words[i as int] == args@[i as int]@);
            }
            match Move::from_uci(args[i].as_str()) {
                Some(m) => {
                    match game.try_play(m) {
                        Some(next) => {
                            game = next;
                        },
                        None => {},
                    }
                },
                None => {
                    proof {
                        lemma_replayed_fails(first, texts, i - start + 1);
                    }
                    return Err(CommandError::InvalidMove);
                },
            }
            i = i + 1;
        }
        assert(texts.take(args.len() - start) == texts);
        self.chess_game = game;
        Ok(())
    }

    /// The number behind the first `key` among `args`.
    fn number_after(args: &[String], key: &str) -> (stated: Result<Option<u64>, CommandError>)
        ensures
            stated == stated_number(words_of(args@), key@),
    {
        match find_word(args, key) {
            None => Ok(None),
            Some(i) => {
                let length = args.len();
                if i + 1 >= length {
                    Err(CommandError::MissingToken)
                } else {
                    assert(words_of(args@)[i + 1] == args@[i + 1]@);
                    match parse_u64(args[i + 1].as_str()) {
                        Some(n) => Ok(Some(n)),
                        None => Err(CommandError::InvalidValue),
                    }
                }
            },
        }
    }

    /// The depth behind the first `depth` among `args`.
    fn depth_after(args: &[String]) -> (stated: Result<Option<i64>, CommandError>)
        ensures
            stated == stated_depth(words_of(args@)),
    {
        match find_word(args, "depth") {
            None => Ok(None),
            Some(i) => {
                let length = args.len();
                if i + 1 >= length {
                    Err(CommandError::MissingToken)
                } else {
                    assert(words_of(args@)[i + 1] == args@[i + 1]@);
                    match parse_i64(args[i + 1].as_str()) {
                        Some(n) => Ok(Some(n)),
                        None => Err(CommandError::InvalidValue),
                    }
                }
            },
        }
    }

    /// Carries out the words of a `go` command: the clocks and the depth
    /// become what the words state, `infinite` lifting every limit and no word
    /// at all asking for depth 2. Where a value is missing or no number,
    /// nothing changes.
    pub fn set_search_parameters(&mut self, args: &[String]) -> (done: Result<(), CommandError>)
        ensures
            carried_out(old(self)@, final(self)@, done, stated_search(old(self)@, words_of(args@))),
    {
        if find_word(args, "infinite").is_some() {
            self.reset_temporary_parameters();
            return Ok(());
        }
        let move_time = match SearchOptions::number_after(args, "movetime") {
            Ok(n) => n,
            Err(e) => {
                return Err(e);
            },
        };
        let white_time = match SearchOptions::number_after(args, "wtime") {
            Ok(n) => n,
            Err(e) => {
                return Err(e);
            },
        };
        let white_increment = match SearchOptions::number_after(args, "winc") {
            Ok(n) => n,
            Err(e) => {
                return Err(e);
            },
        };
        let black_time = match SearchOptions::number_after(args, "btime") {
            Ok(n) => n,
            Err(e) => {
                return Err(e);
            },
        };
        let black_increment = match SearchOptions::number_after(args, "binc") {
            Ok(n) => n,
            Err(e) => {
                return Err(e);
            },
        };
        let depth = match SearchOptions::depth_after(args) {
            Ok(n) => n,
            Err(e) => {
                return Err(e);
            },
        };
        self.move_time = move_time.unwrap_or(0);
        self.white_time = white_time.unwrap_or(0);
        self.white_increment = white_increment.unwrap_or(0);
        self.black_time = black_time.unwrap_or(0);
        self.black_increment = black_increment.unwrap_or(0);
        self.depth = if args.len() == 0 {
            Some(2)
        } else {
            depth
        };
        Ok(())
    }

    /// Sets the option `name` to `value`, both in lower case; `exists` says
    /// whether a path named by `value` was found. An option that is not known
    /// changes nothing, and neither does a value that is no number.
    pub fn apply_option(&mut self, name: &str, value: &str, exists: bool) -> (done: Result<
        (),
        CommandError,
    >)
        ensures
            carried_out(old(self)@, final(self)@, done, with_option(old(self)@, name@, value@, exists)),
    {
        if same_text(name, "maxdepth") {
            match parse_i64(value) {
                Some(n) => {
                    self.max_depth = if n == -1 {
                        None
                    } else {
                        Some(n)
                    };
                    Ok(())
                },
                None => Err(CommandError::InvalidValue),
            }
        } else if same_text(name, "move overhead") {
            match parse_u64(value) {
                Some(n) => {
                    self.move_overhead = n;
                    Ok(())
                },
                None => Err(CommandError::InvalidValue),
            }
        } else if same_text(name, "syzygy50moverule") {
            self.fifty_moves_rule = same_text(value, "true");
            Ok(())
        } else if same_text(name, "syzygypath") {
            self.syzygy_path = if exists {
                Some(String::from_str(value))
            } else {
                None
            };
            Ok(())
        } else {
            Ok(())
        }
    }

    /// Carries out the words of a `setoption` command. The name stands between
    /// `name` and `value`, the value behind `value`; both count in lower case.
    /// For the tablebase path the file system is asked whether the path is
    /// there.
    pub fn set_option(&mut self, args: &[String]) -> (done: Result<(), CommandError>)
        ensures
            match stated_option(words_of(args@)) {
                Err(e) => done == Err::<(), CommandError>(e) && final(self)@ == old(self)@,
                Ok((name, value)) => carried_out(
                    old(self)@,
                    final(self)@,
                    done,
                    with_option(old(self)@, lowercase_of(name), lowercase_of(value), true),
                ) || carried_out(
                    old(self)@,
                    final(self)@,
                    done,
                    with_option(old(self)@, lowercase_of(name), lowercase_of(value), false),
                ),
            },
    {
        let name_index = find_word(args, "name");
        let value_index = find_word(args, "value");
        match (name_index, value_index) {
            (Some(n), Some(v)) => {
                let length = args.len();
                if n + 1 > v {
                    return Err(CommandError::InvalidSetOption);
                }
                let name = lowercase(join_words(args, n + 1, v).as_str());
                let value = lowercase(join_words(args, v + 1, length).as_str());
                let found = if same_text(name.as_str(), "syzygypath") {
                    path_exists(value.as_str())
                } else {
                    false
                };
                let done = self.apply_option(name.as_str(), value.as_str(), found);
                done
            },
            _ => Err(CommandError::InvalidSetOption),
        }
    }
}

} // verus!
