//! A chess move-legality engine: per-piece movement rules, a threat test for
//! the king, and a parser that turns move text into a checked board change.
pub mod board;
pub mod laws;
pub mod notation;
pub mod parse;
pub mod pieces;
pub mod rules;
pub mod search;

pub use board::{layout_fits, Board};
pub use notation::{AlgebraicNotation, MoveError, Notation};
pub use pieces::{
    AdjustPiece, Bishop, King, Knight, Pawn, Piece, PieceClone, PieceCommon, PieceTrait, Queen,
    Rook, _BLACK_PIECE, _WHITE_PIECE,
};
pub use search::FoundPiece;
