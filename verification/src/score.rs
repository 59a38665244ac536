//! Scores: exact integers in ticks.
//!
//! One centipawn is 7 207 200 ticks. The factor is divisible by every
//! distance from 1 to 14 and by 20, so the evaluator's distance quotients and
//! the search's discount of 19/20 are exact integers.

use vstd::prelude::*;

verus! {

/// A score in ticks, from the point of view of the side to move.
pub type Score = i64;

/// Ticks in one centipawn.
pub const TICKS_PER_CENTIPAWN: i64 = 7_207_200;

/// The score of a won game: 12 000 centipawns.
pub const WIN_VALUE: i64 = 86_486_400_000;

/// The score of a lost game: -12 000 centipawns.
pub const LOSS_VALUE: i64 = -86_486_400_000;

/// The score of a drawn game.
pub const DRAW_VALUE: i64 = 0;

/// The widest bound of a search window. No score leaves `[-INFINITY, INFINITY]`.
pub const INFINITY: i64 = 1_000_000_000_000_000;

/// `centipawns` in ticks.
pub open spec fn ticks(centipawns: int) -> int {
    centipawns * TICKS_PER_CENTIPAWN
}

/// Whether `score` lies within the widest window.
pub open spec fn bounded(score: int) -> bool {
    -INFINITY <= score <= INFINITY
}

/// Nineteen twentieths of `score`, the discount that the quiescence search
/// applies to static values: exact where `score` is a multiple of 20, and
/// rounded towards zero elsewhere.
pub open spec fn discounted(score: int) -> int {
    if score >= 0 {
        19 * (score / 20)
    } else {
        -(19 * ((-score) / 20))
    }
}

/// `score` in whole centipawns, rounded towards zero.
pub open spec fn whole_centipawns(score: int) -> int {
    if score >= 0 {
        score / (TICKS_PER_CENTIPAWN as int)
    } else {
        -((-score) / (TICKS_PER_CENTIPAWN as int))
    }
}

/// `centipawns` in ticks.
pub fn from_centipawns(centipawns: i64) -> (score: Score)
    requires
        i64::MIN <= centipawns * TICKS_PER_CENTIPAWN <= i64::MAX,
    ensures
        score == ticks(centipawns as int),
{
    centipawns * TICKS_PER_CENTIPAWN
}

/// Nineteen twentieths of `score`.
pub fn discount(score: Score) -> (reduced: Score)
    ensures
        reduced == discounted(score as int),
        reduced == -discounted(-score),
        bounded(score as int) ==> bounded(reduced as int),
{
    if score >= 0 {
        19 * (score / 20)
    } else if score == i64::MIN {
        -(19 * (i64::MAX / 20))
    } else {
        -(19 * ((-score) / 20))
    }
}

/// `score` in whole centipawns, rounded towards zero.
pub fn to_centipawns(score: Score) -> (centipawns: i64)
    ensures
        centipawns == whole_centipawns(score as int),
{
    if score >= 0 {
        score / TICKS_PER_CENTIPAWN
    } else if score == i64::MIN {
        -(i64::MAX / TICKS_PER_CENTIPAWN)
    } else {
        -((-score) / TICKS_PER_CENTIPAWN)
    }
}

} // verus!
