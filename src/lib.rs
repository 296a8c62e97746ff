//! A move-generation and lookahead engine for abstract board games of any
//! number of dimensions. Pieces, movement rules and the board's shape are data.
//!
//! - `position`: cells and displacements, one coordinate per axis.
//! - `piece`, `board`: pieces with attributes, and a sparse board of them.
//! - `moves`: candidate moves and movement rules.
//! - `generator`: the pseudo-moves of a board (step, walk, piece, search) and
//!   what playing one does to the board.
//! - `tree`: the tree of positions reachable within a given depth.
//! - `controller`: the game's board and rules, and the last tree computed.
//! - `setup`: the opening position and rules of the classic game.
//! - `notation`: reading a typed move and picking the candidates it names.
//! - `laws`: what holds of every board, rule table and search.
//! - `code`: a small scripting language for piece definitions.
//! - `file_scan`: a piece definition as stored in a file.

pub mod position;
pub mod traits;
pub mod piece;
pub mod board;
pub mod moves;
pub mod generator;
pub mod parallel;
pub mod tree;
pub mod controller;
pub mod setup;
pub mod laws;
pub mod notation;
pub mod code;
pub mod file_scan;
