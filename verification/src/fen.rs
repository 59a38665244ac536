//! The shape of a position record: before any rule of chess is asked, the
//! placement field must describe eight ranks of eight files with one king and
//! at most sixteen pieces of each colour.

use vstd::prelude::*;
use crate::uci_options::START_POSITION;

verus! {

/// What a scan of a placement field has seen so far.
pub struct Shape {
    /// Ranks closed by a `/`.
    pub ranks: int,
    /// Files filled in the open rank.
    pub files: int,
    pub white_kings: int,
    pub black_kings: int,
    /// White pieces, the king among them.
    pub white_pieces: int,
    /// Black pieces, the king among them.
    pub black_pieces: int,
    /// No rank was too long or too short, and no character was foreign.
    pub ok: bool,
}

/// The greatest number of pieces that one side has on the board.
pub const SIDE_PIECES: u64 = 16;

/// Whether `c` names a white piece.
pub open spec fn is_white_letter(c: char) -> bool {
    c == 'P' || c == 'N' || c == 'B' || c == 'R' || c == 'Q' || c == 'K'
}

/// Whether `c` names a piece, in either colour.
pub open spec fn is_piece_letter(c: char) -> bool {
    c == 'p' || c == 'n' || c == 'b' || c == 'r' || c == 'q' || c == 'k' || c == 'P' || c == 'N'
        || c == 'B' || c == 'R' || c == 'Q' || c == 'K'
}

/// The shape after one more character.
pub open spec fn step(s: Shape, c: char) -> Shape {
    if c == '/' {
        Shape { ranks: s.ranks + 1, files: 0, ok: s.ok && s.files == 8 && s.ranks < 7, ..s }
    } else if '1' <= c <= '8' {
        let files = s.files + (c as int - '0' as int);
        Shape { files, ok: s.ok && files <= 8, ..s }
    } else if is_piece_letter(c) {
        Shape {
            files: s.files + 1,
            white_kings: s.white_kings + if c == 'K' {
                1int
            } else {
                0int
            },
            black_kings: s.black_kings + if c == 'k' {
                1int
            } else {
                0int
            },
            white_pieces: s.white_pieces + if is_white_letter(c) {
                1int
            } else {
                0int
            },
            black_pieces: s.black_pieces + if is_white_letter(c) {
                0int
            } else {
                1int
            },
            ok: s.ok && s.files + 1 <= 8,
            ..s
        }
    } else {
        Shape { ok: false, ..s }
    }
}

/// The shape after the first `n` characters of `text`.
pub open spec fn scanned(text: Seq<char>, n: nat) -> Shape
    decreases n,
{
    if n == 0 {
        Shape {
            ranks: 0,
            files: 0,
            white_kings: 0,
            black_kings: 0,
            white_pieces: 0,
            black_pieces: 0,
            ok: true,
        }
    } else {
        step(scanned(text, (n - 1) as nat), text[n - 1])
    }
}

/// The length of the first field of `text`: the characters before its first
/// space.
pub open spec fn first_field(text: Seq<char>) -> nat
    decreases text.len(),
{
    if text.len() == 0 || text[0] == ' ' {
        0
    } else {
        1 + first_field(text.skip(1))
    }
}

/// Whether the placement field of `text` describes eight ranks of eight files
/// with exactly one king and at most sixteen pieces of each colour.
pub open spec fn well_shaped(text: Seq<char>) -> bool {
    let s = scanned(text, first_field(text));
    &&& s.ok
    &&& s.ranks == 7
    &&& s.files == 8
    &&& s.white_kings == 1
    &&& s.black_kings == 1
    &&& s.white_pieces <= SIDE_PIECES
    &&& s.black_pieces <= SIDE_PIECES
}

/// The first field of `text` ends at its first space, or at its end.
proof fn lemma_first_field(text: Seq<char>, n: nat)
    requires
        n <= text.len(),
        forall|i: int| 0 <= i < n ==> text[i] != ' ',
        n == text.len() || text[n as int] == ' ',
    ensures
        first_field(text) == n,
    decreases n,
{
    if n > 0 {
        let rest = text.skip(1);
        assert forall|i: int| 0 <= i < n - 1 implies rest[i] != ' ' by {
            assert(rest[i] == text[i + 1]);
        }
        lemma_first_field(rest, (n - 1) as nat);
    }
}

/// The first field of `text` is followed by a space, or by nothing, and holds
/// no space itself.
proof fn lemma_first_field_is_space(text: Seq<char>)
    ensures
        first_field(text) <= text.len(),
        first_field(text) == text.len() || text[first_field(text) as int] == ' ',
        forall|i: int| 0 <= i < first_field(text) ==> text[i] != ' ',
    decreases text.len(),
{
    if text.len() == 0 || text[0] == ' ' {
    } else {
        let rest = text.skip(1);
        lemma_first_field_is_space(rest);
        assert forall|i: int| 0 <= i < first_field(text) implies text[i] != ' ' by {
            if i > 0 {
                assert(rest[i - 1] == text[i]);
            }
        }
        if first_field(rest) < rest.len() {
            assert(rest[first_field(rest) as int] == text[first_field(rest) as int + 1]);
        }
    }
}

/// The shape of a scan that has not failed.
spec fn seen(
    ranks: int,
    files: int,
    white_kings: int,
    black_kings: int,
    white_pieces: int,
    black_pieces: int,
) -> Shape {
    Shape { ranks, files, white_kings, black_kings, white_pieces, black_pieces, ok: true }
}

/// The starting position of chess is well shaped: the scan is followed
/// character by character.
pub proof fn lemma_start_position_shaped()
    ensures
        well_shaped(START_POSITION@),
{
    reveal_strlit("rnbqkbnr/pppppppp/8/8/8/8/PPPPPPPP/RNBQKBNR w KQkq - 0 1");
    let text = START_POSITION@;
    assert(text.len() == 56);
    assert(text[43] == ' ');
    assert(scanned(text, 0) == seen(0, 0, 0, 0, 0, 0));
    assert(text[0] == 'r' && scanned(text, 1) == seen(0, 1, 0, 0, 0, 1));
    assert(text[1] == 'n' && scanned(text, 2) == seen(0, 2, 0, 0, 0, 2));
    assert(text[2] == 'b' && scanned(text, 3) == seen(0, 3, 0, 0, 0, 3));
    assert(text[3] == 'q' && scanned(text, 4) == seen(0, 4, 0, 0, 0, 4));
    assert(text[4] == 'k' && scanned(text, 5) == seen(0, 5, 0, 1, 0, 5));
    assert(text[5] == 'b' && scanned(text, 6) == seen(0, 6, 0, 1, 0, 6));
    assert(text[6] == 'n' && scanned(text, 7) == seen(0, 7, 0, 1, 0, 7));
    assert(text[7] == 'r' && scanned(text, 8) == seen(0, 8, 0, 1, 0, 8));
    assert(text[8] == '/' && scanned(text, 9) == seen(1, 0, 0, 1, 0, 8));
    assert(text[9] == 'p' && scanned(text, 10) == seen(1, 1, 0, 1, 0, 9));
    assert(text[10] == 'p' && scanned(text, 11) == seen(1, 2, 0, 1, 0, 10));
    assert(text[11] == 'p' && scanned(text, 12) == seen(1, 3, 0, 1, 0, 11));
    assert(text[12] == 'p' && scanned(text, 13) == seen(1, 4, 0, 1, 0, 12));
    assert(text[13] == 'p' && scanned(text, 14) == seen(1, 5, 0, 1, 0, 13));
    assert(text[14] == 'p' && scanned(text, 15) == seen(1, 6, 0, 1, 0, 14));
    assert(text[15] == 'p' && scanned(text, 16) == seen(1, 7, 0, 1, 0, 15));
    assert(text[16] == 'p' && scanned(text, 17) == seen(1, 8, 0, 1, 0, 16));
    assert(text[17] == '/' && scanned(text, 18) == seen(2, 0, 0, 1, 0, 16));
    assert(text[18] == '8' && scanned(text, 19) == seen(2, 8, 0, 1, 0, 16));
    assert(text[19] == '/' && scanned(text, 20) == seen(3, 0, 0, 1, 0, 16));
    assert(text[20] == '8' && scanned(text, 21) == seen(3, 8, 0, 1, 0, 16));
    assert(text[21] == '/' && scanned(text, 22) == seen(4, 0, 0, 1, 0, 16));
    assert(text[22] == '8' && scanned(text, 23) == seen(4, 8, 0, 1, 0, 16));
    assert(text[23] == '/' && scanned(text, 24) == seen(5, 0, 0, 1, 0, 16));
    assert(text[24] == '8' && scanned(text, 25) == seen(5, 8, 0, 1, 0, 16));
    assert(text[25] == '/' && scanned(text, 26) == seen(6, 0, 0, 1, 0, 16));
    assert(text[26] == 'P' && scanned(text, 27) == seen(6, 1, 0, 1, 1, 16));
    assert(text[27] == 'P' && scanned(text, 28) == seen(6, 2, 0, 1, 2, 16));
    assert(text[28] == 'P' && scanned(text, 29) == seen(6, 3, 0, 1, 3, 16));
    assert(text[29] == 'P' && scanned(text, 30) == seen(6, 4, 0, 1, 4, 16));
    assert(text[30] == 'P' && scanned(text, 31) == seen(6, 5, 0, 1, 5, 16));
    assert(text[31] == 'P' && scanned(text, 32) == seen(6, 6, 0, 1, 6, 16));
    assert(text[32] == 'P' && scanned(text, 33) == seen(6, 7, 0, 1, 7, 16));
    assert(text[33] == 'P' && scanned(text, 34) == seen(6, 8, 0, 1, 8, 16));
    assert(text[34] == '/' && scanned(text, 35) == seen(7, 0, 0, 1, 8, 16));
    assert(text[35] == 'R' && scanned(text, 36) == seen(7, 1, 0, 1, 9, 16));
    assert(text[36] == 'N' && scanned(text, 37) == seen(7, 2, 0, 1, 10, 16));
    assert(text[37] == 'B' && scanned(text, 38) == seen(7, 3, 0, 1, 11, 16));
    assert(text[38] == 'Q' && scanned(text, 39) == seen(7, 4, 0, 1, 12, 16));
    assert(text[39] == 'K' && scanned(text, 40) == seen(7, 5, 1, 1, 13, 16));
    assert(text[40] == 'B' && scanned(text, 41) == seen(7, 6, 1, 1, 14, 16));
    assert(text[41] == 'N' && scanned(text, 42) == seen(7, 7, 1, 1, 15, 16));
    assert(text[42] == 'R' && scanned(text, 43) == seen(7, 8, 1, 1, 16, 16));
    assert forall|i: int| 0 <= i < 43 implies text[i] != ' ' by {}
    lemma_first_field(text, 43);
}

/// A scan that has failed stays failed.
proof fn lemma_failed_stays(text: Seq<char>, n: nat, m: nat)
    requires
        n <= m,
        !scanned(text, n).ok,
    ensures
        !scanned(text, m).ok,
    decreases m - n,
{
    if n < m {
        lemma_failed_stays(text, n, (m - 1) as nat);
    }
}

/// Whether the placement field of `text` describes eight ranks of eight files
/// with exactly one king and at most sixteen pieces of each colour.
pub fn is_well_shaped(text: &str) -> (shaped: bool)
    ensures
        shaped == well_shaped(text@),
{
    let length = text.unicode_len();
    let mut ranks: u64 = 0;
    let mut files: u64 = 0;
    let mut white_kings: u64 = 0;
    let mut black_kings: u64 = 0;
    let mut white_pieces: u64 = 0;
    let mut black_pieces: u64 = 0;
    let mut i: usize = 0;
    let mut failed_at: Option<usize> = None;
    let mut at_end = false;
    while i < length && !at_end && failed_at.is_none()
        invariant
            i <= length,
            length == text@.len(),
            forall|j: int| 0 <= j < i ==> text@[j] != ' ',
            at_end ==> i < length && text@[i as int] == ' ',
            failed_at matches Some(k) ==> k < length && !scanned(text@, (k + 1) as nat).ok
                && forall|j: int| 0 <= j <= k ==> text@[j] != ' ',
            failed_at is None ==> scanned(text@, i as nat) == (Shape {
                ranks: ranks as int,
                files: files as int,
                white_kings: white_kings as int,
                black_kings: black_kings as int,
                white_pieces: white_pieces as int,
                black_pieces: black_pieces as int,
                ok: true,
            }),
            ranks <= 7,
            files <= 8,
            white_kings <= 8 * ranks + files,
            black_kings <= 8 * ranks + files,
            white_pieces <= 8 * ranks + files,
            black_pieces <= 8 * ranks + files,
        decreases
                length - i,
                if at_end || failed_at is Some {
                    0int
                } else {
                    1int
                },
    {
        let c = text.get_char(i);
        if c == ' ' {
            at_end = true;
        } else {
            let mut ok = true;
            if c == '/' {
                ok = files == 8 && ranks < 7;
                if ok {
                    ranks = ranks + 1;
                    files = 0;
                }
            } else if '1' <= c && c <= '8' {
                let wide: u64 = c as u64 - '0' as u64;
                ok = files + wide <= 8;
                if ok {
                    files = files + wide;
                }
            } else if c == 'p' || c == 'n' || c == 'b' || c == 'r' || c == 'q' || c == 'k' || c
                == 'P' || c == 'N' || c == 'B' || c == 'R' || c == 'Q' || c == 'K' {
                ok = files + 1 <= 8;
                if ok {
                    files = files + 1;
                    if c == 'K' {
                        white_kings = white_kings + 1;
                    }
                    if c == 'k' {
                        black_kings = black_kings + 1;
                    }
                    if c == 'P' || c == 'N' || c == 'B' || c == 'R' || c == 'Q' || c == 'K' {
                        white_pieces = white_pieces + 1;
                    } else {
                        black_pieces = black_pieces + 1;
                    }
                }
            } else {
                ok = false;
            }
            if ok {
                i = i + 1;
            } else {
                failed_at = Some(i);
            }
        }
    }
    match failed_at {
        Some(k) => {
            proof {
                let n = first_field(text@);
                if n <= k {
                    lemma_first_field_is_space(text@);
                } else {
                    lemma_failed_stays(text@, (k + 1) as nat, n);
                }
            }
            false
        },
        None => {
            proof {
                lemma_first_field(text@, i as nat);
            }
            ranks == 7 && files == 8 && white_kings == 1 && black_kings == 1 && white_pieces
                <= SIDE_PIECES && black_pieces <= SIDE_PIECES
        },
    }
}

} // verus!
