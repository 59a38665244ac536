//! A chess engine core: static evaluation, move ordering and a fail-hard
//! alpha-beta search with quiescence, driven by typed engine commands.
//!
//! Scores are exact integers in ticks (see [`score`]); chess rules come from
//! the `chess` crate behind the contracts of [`rules`].

pub mod chess_move;
pub mod engine;
pub mod engine_command;
pub mod fen;
pub mod game;
pub mod heuristic;
pub mod infra;
pub mod ordering;
pub mod piece;
pub mod position;
pub mod report;
pub mod rules;
pub mod score;
pub mod search;
pub mod search_options;
pub mod signals;
pub mod soundness;
pub mod text;
pub mod uci_options;
pub mod uci_protocol;
