//! The pieces: one plain record per kind, the tagged union the board holds,
//! and the capability traits every kind implements.
use vstd::prelude::*;

use crate::board::Board;

verus! {

/// Colour code of the side that starts the game.
pub const _WHITE_PIECE: usize = 0;

/// Colour code of the other side.
pub const _BLACK_PIECE: usize = 1;

/// The colour that plays against `color`; every code but white counts as black here.
pub open spec fn opponent(color: usize) -> usize {
    if color == _WHITE_PIECE {
        _BLACK_PIECE
    } else {
        _WHITE_PIECE
    }
}

/// A move counter after `delta` more moves, stuck at the largest value instead of wrapping.
pub open spec fn bumped(count: usize, delta: usize) -> usize {
    if count + delta > usize::MAX {
        usize::MAX
    } else {
        (count + delta) as usize
    }
}

pub fn add_moves(count: usize, delta: usize) -> (r: usize)
    ensures
        r == bumped(count, delta),
{
    if delta > usize::MAX - count {
        usize::MAX
    } else {
        count + delta
    }
}

#[derive(Debug, Clone, Copy, PartialEq, Eq)]
pub struct Pawn {
    pub color: usize,
    pub has_moved: usize,
}

#[derive(Debug, Clone, Copy, PartialEq, Eq)]
pub struct Rook {
    pub color: usize,
    pub has_moved: usize,
}

#[derive(Debug, Clone, Copy, PartialEq, Eq)]
pub struct Knight {
    pub color: usize,
    pub has_moved: usize,
}

#[derive(Debug, Clone, Copy, PartialEq, Eq)]
pub struct Bishop {
    pub color: usize,
    pub has_moved: usize,
}

#[derive(Debug, Clone, Copy, PartialEq, Eq)]
pub struct Queen {
    pub color: usize,
    pub has_moved: usize,
}

#[derive(Debug, Clone, Copy, PartialEq, Eq)]
pub struct King {
    pub color: usize,
    pub has_moved: usize,
}

/// What a square of the board can hold: one piece of one of the six kinds.
#[derive(Debug, Clone, Copy, PartialEq, Eq)]
pub enum Piece {
    Pawn(Pawn),
    Rook(Rook),
    Knight(Knight),
    Bishop(Bishop),
    Queen(Queen),
    King(King),
}

impl Piece {
    pub open spec fn color(self) -> usize {
        match self {
            Piece::Pawn(p) => p.color,
            Piece::Rook(p) => p.color,
            Piece::Knight(p) => p.color,
            Piece::Bishop(p) => p.color,
            Piece::Queen(p) => p.color,
            Piece::King(p) => p.color,
        }
    }

    /// How many moves the piece has been credited with.
    pub open spec fn moves(self) -> usize {
        match self {
            Piece::Pawn(p) => p.has_moved,
            Piece::Rook(p) => p.has_moved,
            Piece::Knight(p) => p.has_moved,
            Piece::Bishop(p) => p.has_moved,
            Piece::Queen(p) => p.has_moved,
            Piece::King(p) => p.has_moved,
        }
    }

    /// The letter that names the kind in move text.
    pub open spec fn identity(self) -> char {
        match self {
            Piece::Pawn(_) => 'P',
            Piece::Rook(_) => 'R',
            Piece::Knight(_) => 'N',
            Piece::Bishop(_) => 'B',
            Piece::Queen(_) => 'Q',
            Piece::King(_) => 'K',
        }
    }

    /// The same kind with the given colour and move count.
    pub open spec fn remade(self, color: usize, has_moved: usize) -> Piece {
        match self {
            Piece::Pawn(_) => Piece::Pawn(Pawn { color, has_moved }),
            Piece::Rook(_) => Piece::Rook(Rook { color, has_moved }),
            Piece::Knight(_) => Piece::Knight(Knight { color, has_moved }),
            Piece::Bishop(_) => Piece::Bishop(Bishop { color, has_moved }),
            Piece::Queen(_) => Piece::Queen(Queen { color, has_moved }),
            Piece::King(_) => Piece::King(King { color, has_moved }),
        }
    }
}

/// The unmoved white piece that a letter of move text names, if any.
pub open spec fn prototype_of(letter: char) -> Option<Piece> {
    if letter == 'P' {
        Some(Piece::Pawn(Pawn { color: _WHITE_PIECE, has_moved: 0 }))
    } else if letter == 'R' {
        Some(Piece::Rook(Rook { color: _WHITE_PIECE, has_moved: 0 }))
    } else if letter == 'N' {
        Some(Piece::Knight(Knight { color: _WHITE_PIECE, has_moved: 0 }))
    } else if letter == 'B' {
        Some(Piece::Bishop(Bishop { color: _WHITE_PIECE, has_moved: 0 }))
    } else if letter == 'Q' {
        Some(Piece::Queen(Queen { color: _WHITE_PIECE, has_moved: 0 }))
    } else if letter == 'K' {
        Some(Piece::King(King { color: _WHITE_PIECE, has_moved: 0 }))
    } else {
        None
    }
}

/// The registry of canonical pieces, used to set up a board and to promote.
pub fn prototype(letter: char) -> (r: Option<Piece>)
    ensures
        r == prototype_of(letter),
{
    if letter == 'P' {
        Some(Piece::Pawn(Pawn { color: _WHITE_PIECE, has_moved: 0 }))
    } else if letter == 'R' {
        Some(Piece::Rook(Rook { color: _WHITE_PIECE, has_moved: 0 }))
    } else if letter == 'N' {
        Some(Piece::Knight(Knight { color: _WHITE_PIECE, has_moved: 0 }))
    } else if letter == 'B' {
        Some(Piece::Bishop(Bishop { color: _WHITE_PIECE, has_moved: 0 }))
    } else if letter == 'Q' {
        Some(Piece::Queen(Queen { color: _WHITE_PIECE, has_moved: 0 }))
    } else if letter == 'K' {
        Some(Piece::King(King { color: _WHITE_PIECE, has_moved: 0 }))
    } else {
        None
    }
}

/// An extra board change that comes with an accepted move. `piece` is a
/// square by row and column index (rank - 1, file - 1); its occupant gains
/// `increase_movement` moves, then is taken off if `remove_piece` is set.
#[derive(Clone, Copy, Debug, PartialEq, Eq)]
pub struct AdjustPiece {
    pub piece: (usize, usize),
    pub increase_movement: usize,
    pub remove_piece: bool,
}

/// A square in 1-based (rank, file) coordinates that lies on the board.
pub open spec fn on_board(p: (usize, usize)) -> bool {
    1 <= p.0 <= 8 && 1 <= p.1 <= 8
}

/// A rule's verdict as a value: `Ok(false)` illegal, `Ok(true)` legal with no
/// side effect, `Err(effects)` legal with the given side effects.
pub open spec fn verdict_of(r: Result<bool, Vec<AdjustPiece>>) -> Result<bool, Seq<AdjustPiece>> {
    match r {
        Ok(b) => Ok(b),
        Err(v) => Err(v@),
    }
}

/// Whether a verdict lets the move happen.
pub open spec fn is_legal(v: Result<bool, Seq<AdjustPiece>>) -> bool {
    match v {
        Ok(b) => b,
        Err(_) => true,
    }
}

pub trait PieceClone {
    fn clone_box(&self) -> Piece;
}

pub trait PieceCommon {
    fn set_color(&mut self, color: usize);

    fn get_color(&self) -> usize;

    /// Adds `movement` to the move count and returns the new count; 0 only reads it.
    fn movement(&mut self, movement: usize) -> usize;
}

pub trait PieceTrait: PieceClone + PieceCommon {
    /// Judges moving this piece from `position` to `new_position` on `board`.
    fn theory_valid_move(
        &self,
        board: &Board,
        capture: bool,
        position: (usize, usize),
        new_position: (usize, usize),
    ) -> Result<bool, Vec<AdjustPiece>>
        requires
            board.wf(),
            on_board(position),
            on_board(new_position),
    ;

    fn get_identity(&self) -> String;
}

impl PieceCommon for Pawn {
    fn set_color(&mut self, color: usize)
        ensures
            *final(self) == (Pawn { color, has_moved: old(self).has_moved }),
    {
        self.color = color;
    }

    fn get_color(&self) -> (r: usize)
        ensures
            r == self.color,
    {
        self.color
    }

    fn movement(&mut self, movement: usize) -> (r: usize)
        ensures
            *final(self) == (Pawn { color: old(self).color, has_moved: bumped(old(self).has_moved, movement) }),
            r == final(self).has_moved,
    {
        self.has_moved = add_moves(self.has_moved, movement);
        self.has_moved
    }
}

impl PieceClone for Pawn {
    fn clone_box(&self) -> (r: Piece)
        ensures
            r == Piece::Pawn(*self),
    {
        Piece::Pawn(*self)
    }
}

impl PieceCommon for Rook {
    fn set_color(&mut self, color: usize)
        ensures
            *final(self) == (Rook { color, has_moved: old(self).has_moved }),
    {
        self.color = color;
    }

    fn get_color(&self) -> (r: usize)
        ensures
            r == self.color,
    {
        self.color
    }

    fn movement(&mut self, movement: usize) -> (r: usize)
        ensures
            *final(self) == (Rook { color: old(self).color, has_moved: bumped(old(self).has_moved, movement) }),
            r == final(self).has_moved,
    {
        self.has_moved = add_moves(self.has_moved, movement);
        self.has_moved
    }
}

impl PieceClone for Rook {
    fn clone_box(&self) -> (r: Piece)
        ensures
            r == Piece::Rook(*self),
    {
        Piece::Rook(*self)
    }
}

impl PieceCommon for Knight {
    fn set_color(&mut self, color: usize)
        ensures
            *final(self) == (Knight { color, has_moved: old(self).has_moved }),
    {
        self.color = color;
    }

    fn get_color(&self) -> (r: usize)
        ensures
            r == self.color,
    {
        self.color
    }

    fn movement(&mut self, movement: usize) -> (r: usize)
        ensures
            *final(self) == (Knight { color: old(self).color, has_moved: bumped(old(self).has_moved, movement) }),
            r == final(self).has_moved,
    {
        self.has_moved = add_moves(self.has_moved, movement);
        self.has_moved
    }
}

impl PieceClone for Knight {
    fn clone_box(&self) -> (r: Piece)
        ensures
            r == Piece::Knight(*self),
    {
        Piece::Knight(*self)
    }
}

impl PieceCommon for Bishop {
    fn set_color(&mut self, color: usize)
        ensures
            *final(self) == (Bishop { color, has_moved: old(self).has_moved }),
    {
        self.color = color;
    }

    fn get_color(&self) -> (r: usize)
        ensures
            r == self.color,
    {
        self.color
    }

    fn movement(&mut self, movement: usize) -> (r: usize)
        ensures
            *final(self) == (Bishop { color: old(self).color, has_moved: bumped(old(self).has_moved, movement) }),
            r == final(self).has_moved,
    {
        self.has_moved = add_moves(self.has_moved, movement);
        self.has_moved
    }
}

impl PieceClone for Bishop {
    fn clone_box(&self) -> (r: Piece)
        ensures
            r == Piece::Bishop(*self),
    {
        Piece::Bishop(*self)
    }
}

impl PieceCommon for Queen {
    fn set_color(&mut self, color: usize)
        ensures
            *final(self) == (Queen { color, has_moved: old(self).has_moved }),
    {
        self.color = color;
    }

    fn get_color(&self) -> (r: usize)
        ensures
            r == self.color,
    {
        self.color
    }

    fn movement(&mut self, movement: usize) -> (r: usize)
        ensures
            *final(self) == (Queen { color: old(self).color, has_moved: bumped(old(self).has_moved, movement) }),
            r == final(self).has_moved,
    {
        self.has_moved = add_moves(self.has_moved, movement);
        self.has_moved
    }
}

impl PieceClone for Queen {
    fn clone_box(&self) -> (r: Piece)
        ensures
            r == Piece::Queen(*self),
    {
        Piece::Queen(*self)
    }
}

impl PieceCommon for King {
    fn set_color(&mut self, color: usize)
        ensures
            *final(self) == (King { color, has_moved: old(self).has_moved }),
    {
        self.color = color;
    }

    fn get_color(&self) -> (r: usize)
        ensures
            r == self.color,
    {
        self.color
    }

    fn movement(&mut self, movement: usize) -> (r: usize)
        ensures
            *final(self) == (King { color: old(self).color, has_moved: bumped(old(self).has_moved, movement) }),
            r == final(self).has_moved,
    {
        self.has_moved = add_moves(self.has_moved, movement);
        self.has_moved
    }
}

impl PieceClone for King {
    fn clone_box(&self) -> (r: Piece)
        ensures
            r == Piece::King(*self),
    {
        Piece::King(*self)
    }
}

impl Piece {
    /// The kind letter, as a `char`.
    pub fn identity_char(&self) -> (r: char)
        ensures
            r == self.identity(),
    {
        match self {
            Piece::Pawn(_) => 'P',
            Piece::Rook(_) => 'R',
            Piece::Knight(_) => 'N',
            Piece::Bishop(_) => 'B',
            Piece::Queen(_) => 'Q',
            Piece::King(_) => 'K',
        }
    }
}

impl PieceCommon for Piece {
    fn set_color(&mut self, color: usize)
        ensures
            *final(self) == old(self).remade(color, old(self).moves()),
    {
        match self {
            Piece::Pawn(p) => p.set_color(color),
            Piece::Rook(p) => p.set_color(color),
            Piece::Knight(p) => p.set_color(color),
            Piece::Bishop(p) => p.set_color(color),
            Piece::Queen(p) => p.set_color(color),
            Piece::King(p) => p.set_color(color),
        }
    }

    fn get_color(&self) -> (r: usize)
        ensures
            r == self.color(),
    {
        match self {
            Piece::Pawn(p) => p.color,
            Piece::Rook(p) => p.color,
            Piece::Knight(p) => p.color,
            Piece::Bishop(p) => p.color,
            Piece::Queen(p) => p.color,
            Piece::King(p) => p.color,
        }
    }

    fn movement(&mut self, movement: usize) -> (r: usize)
        ensures
            *final(self) == old(self).remade(old(self).color(), bumped(old(self).moves(), movement)),
            r == final(self).moves(),
    {
        match self {
            Piece::Pawn(p) => p.movement(movement),
            Piece::Rook(p) => p.movement(movement),
            Piece::Knight(p) => p.movement(movement),
            Piece::Bishop(p) => p.movement(movement),
            Piece::Queen(p) => p.movement(movement),
            Piece::King(p) => p.movement(movement),
        }
    }
}

impl PieceClone for Piece {
    fn clone_box(&self) -> (r: Piece)
        ensures
            r == *self,
    {
        *self
    }
}

} // verus!
