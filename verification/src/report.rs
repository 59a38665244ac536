//! The lines in which a search reports: one for each finished iteration, and
//! one for the move to play.

use vstd::prelude::*;
use crate::chess_move::{long_algebraic, Move};
use crate::engine::{nodes_per_second, SearchInfo};
use crate::score::{to_centipawns, whole_centipawns};

verus! {

/// The character of the digit `d`.
pub open spec fn digit_char(d: int) -> char {
    if d == 0 {
        '0'
    } else if d == 1 {
        '1'
    } else if d == 2 {
        '2'
    } else if d == 3 {
        '3'
    } else if d == 4 {
        '4'
    } else if d == 5 {
        '5'
    } else if d == 6 {
        '6'
    } else if d == 7 {
        '7'
    } else if d == 8 {
        '8'
    } else {
        '9'
    }
}

/// The decimal digits of `n`, without leading zeros.
pub open spec fn decimal_text(n: nat) -> Seq<char>
    decreases n,
{
    if n < 10 {
        seq![digit_char(n as int)]
    } else {
        decimal_text(n / 10).push(digit_char((n % 10) as int))
    }
}

/// The decimal digits of `n`, behind a minus sign where `n` is negative.
pub open spec fn signed_text(n: int) -> Seq<char> {
    if n < 0 {
        seq!['-'] + decimal_text((-n) as nat)
    } else {
        decimal_text(n as nat)
    }
}

/// The text of the digit `d`.
fn digit_text(d: u8) -> (text: &'static str)
    requires
        d < 10,
    ensures
        text@ == seq![digit_char(d as int)],
{
    proof {
        reveal_strlit("0");
        reveal_strlit("1");
        reveal_strlit("2");
        reveal_strlit("3");
        reveal_strlit("4");
        reveal_strlit("5");
        reveal_strlit("6");
        reveal_strlit("7");
        reveal_strlit("8");
        reveal_strlit("9");
    }
    let text = if d == 0 {
        "0"
    } else if d == 1 {
        "1"
    } else if d == 2 {
        "2"
    } else if d == 3 {
        "3"
    } else if d == 4 {
        "4"
    } else if d == 5 {
        "5"
    } else if d == 6 {
        "6"
    } else if d == 7 {
        "7"
    } else if d == 8 {
        "8"
    } else {
        "9"
    };
    assert(text@ =~= seq![digit_char(d as int)]);
    text
}

/// The decimal digits of `n`.
pub fn decimal(n: u128) -> (text: String)
    ensures
        text@ == decimal_text(n as nat),
    decreases n,
{
    if n < 10 {
        String::from_str(digit_text(n as u8))
    } else {
        let mut text = decimal(n / 10);
        text.append(digit_text((n % 10) as u8));
        assert(text@ =~= decimal_text((n / 10) as nat).push(digit_char((n % 10) as int)));
        text
    }
}

/// The decimal digits of `n`, behind a minus sign where `n` is negative.
pub fn signed_decimal(n: i64) -> (text: String)
    ensures
        text@ == signed_text(n as int),
{
    if n < 0 {
        let mut text = String::from_str("-");
        proof {
            reveal_strlit("-");
            assert("-"@ =~= seq!['-']);
        }
        text.append(decimal((-(n as i128)) as u128).as_str());
        text
    } else {
        decimal(n as u128)
    }
}

/// The moves of `line` in long algebraic notation, each behind a space.
pub open spec fn line_text(line: Seq<Move>) -> Seq<char>
    decreases line.len(),
{
    if line.len() == 0 {
        Seq::<char>::empty()
    } else {
        line_text(line.drop_last()) + seq![' '] + (if line.last().on_board() {
            long_algebraic(line.last())
        } else {
            Seq::<char>::empty()
        })
    }
}

/// The line that reports an iteration of `depth` plies with a score of
/// `centipawns`, `nodes` nodes, `rate` nodes in a second and `millis`
/// milliseconds, the principal variation being `line`.
pub open spec fn info_text(
    depth: nat,
    centipawns: int,
    nodes: nat,
    rate: nat,
    millis: nat,
    line: Seq<Move>,
) -> Seq<char> {
    "info depth "@ + decimal_text(depth) + " score cp "@ + signed_text(centipawns) + " nodes "@
        + decimal_text(nodes) + " nps "@ + decimal_text(rate) + " time "@ + decimal_text(millis)
        + " pv"@ + line_text(line)
}

/// The line that names the move to play: `0000` where there is none.
pub open spec fn best_move_text(best: Option<Move>) -> Seq<char> {
    "bestmove "@ + match best {
        Some(m) => if m.on_board() {
            long_algebraic(m)
        } else {
            Seq::<char>::empty()
        },
        None => "0000"@,
    }
}

/// The line that reports the iteration `info`, `micros` microseconds after the
/// search began: its depth, its score in whole centipawns, the nodes so far,
/// the nodes in a second, the whole milliseconds, and the principal variation.
pub fn info_line(info: &SearchInfo, micros: u128) -> (line: String)
    ensures
        line@ == info_text(
            info.depth as nat,
            whole_centipawns(info.score as int),
            info.nodes as nat,
            nodes_per_second(info.nodes, micros) as nat,
            (micros / 1000) as nat,
            info.pv@,
        ),
{
    let mut line = String::from_str("info depth ");
    line.append(decimal(info.depth as u128).as_str());
    line.append(" score cp ");
    line.append(signed_decimal(to_centipawns(info.score)).as_str());
    line.append(" nodes ");
    line.append(decimal(info.nodes as u128).as_str());
    line.append(" nps ");
    line.append(decimal(nodes_per_second(info.nodes, micros) as u128).as_str());
    line.append(" time ");
    line.append(decimal(micros / 1000).as_str());
    line.append(" pv");
    let ghost head = line@;
    let mut i: usize = 0;
    while i < info.pv.len()
        invariant
            i <= info.pv.len(),
            line@ == head + line_text(info.pv@.take(i as int)),
        decreases info.pv.len() - i,
    {
        proof {
            assert(info.pv@.take(i + 1).drop_last() == info.pv@.take(i as int));
            assert(info.pv@.take(i + 1).last() == info.pv@[i as int]);
            reveal_strlit(" ");
            assert(" "@ =~= seq![' ']);
        }
        line.append(" ");
        line.append(info.pv[i].to_uci().as_str());
        i = i + 1;
    }
    assert(info.pv@.take(info.pv.len() as int) == info.pv@);
    line
}

/// The line that names the move to play.
pub fn best_move_line(best: Option<Move>) -> (line: String)
    ensures
        line@ == best_move_text(best),
{
    let mut line = String::from_str("bestmove ");
    match best {
        Some(m) => {
            line.append(m.to_uci().as_str());
        },
        None => {
            line.append("0000");
        },
    }
    line
}

} // verus!
