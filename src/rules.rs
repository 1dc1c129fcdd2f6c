//! The movement rule of each kind, as spec functions over the grid and as the
//! `PieceTrait` impls that are proved to compute them.
use vstd::prelude::*;

use crate::board::{at, occupied, Board, Grid};
use crate::pieces::{
    on_board, verdict_of, AdjustPiece, Bishop, King, Knight, Pawn, Piece, PieceCommon,
    PieceTrait, Queen, Rook, _WHITE_PIECE,
};

verus! {

pub open spec fn dist(a: int, b: int) -> int {
    if a >= b {
        a - b
    } else {
        b - a
    }
}

/// The coordinate `k` steps from `a` in the direction of `b`.
pub open spec fn toward(a: int, b: int, k: int) -> int {
    if b > a {
        a + k
    } else if b < a {
        a - k
    } else {
        a
    }
}

/// Same rank or same file.
pub open spec fn straight(from: (usize, usize), to: (usize, usize)) -> bool {
    from.0 == to.0 || from.1 == to.1
}

/// On one diagonal, and not the same square.
pub open spec fn diagonal(from: (usize, usize), to: (usize, usize)) -> bool {
    from.0 != to.0 && dist(from.0 as int, to.0 as int) == dist(from.1 as int, to.1 as int)
}

/// Number of single steps from `from` to `to` along a line.
pub open spec fn span(from: (usize, usize), to: (usize, usize)) -> int {
    let dr = dist(from.0 as int, to.0 as int);
    let df = dist(from.1 as int, to.1 as int);
    if dr > df {
        dr
    } else {
        df
    }
}

/// Every square strictly between `from` and `to` on their line is empty.
pub open spec fn clear_between(g: Grid, from: (usize, usize), to: (usize, usize)) -> bool {
    forall|k: int|
        0 < k < span(from, to) ==> !#[trigger] occupied(
            g,
            toward(from.0 as int, to.0 as int, k),
            toward(from.1 as int, to.1 as int, k),
        )
}

/// Rank step of a pawn of `color`: white moves up, any other code counts as black and moves down.
pub open spec fn forward(color: usize) -> int {
    if color == _WHITE_PIECE {
        1
    } else {
        -1
    }
}

/// The rank on which a pawn of `color` may capture en passant (its fifth).
pub open spec fn passant_rank(color: usize) -> int {
    if color == _WHITE_PIECE {
        5
    } else {
        4
    }
}

/// The square holds an enemy pawn that has just made its double step.
pub open spec fn passant_victim(g: Grid, color: usize, rank: int, file: int) -> bool {
    match at(g, rank, file) {
        Some(Piece::Pawn(p)) => p.color != color && p.has_moved == 2,
        _ => false,
    }
}

/// The single side effect `(rank - 1, file - 1)` gains `inc` moves or is removed.
pub open spec fn effect(rank: usize, file: usize, inc: usize, remove: bool) -> Seq<AdjustPiece> {
    seq![AdjustPiece { piece: ((rank - 1) as usize, (file - 1) as usize), increase_movement: inc, remove_piece: remove }]
}

pub open spec fn pawn_rule(
    color: usize,
    has_moved: usize,
    g: Grid,
    capture: bool,
    pos: (usize, usize),
    new: (usize, usize),
) -> Result<bool, Seq<AdjustPiece>> {
    let r = pos.0 as int;
    let f = pos.1 as int;
    let nr = new.0 as int;
    let nf = new.1 as int;
    if !capture {
        if nf != f || occupied(g, nr, nf) {
            Ok(false)
        } else if nr == r + forward(color) {
            Ok(true)
        } else if nr == r + forward(color) + forward(color) && has_moved == 0 && !occupied(
            g,
            r + forward(color),
            f,
        ) {
            Err(effect(new.0, new.1, 2, false))
        } else {
            Ok(false)
        }
    } else if nr == r + forward(color) && dist(nf, f) == 1 {
        match at(g, nr, nf) {
            Some(p) => Ok(p.color() != color),
            None => if r == passant_rank(color) && passant_victim(g, color, r, nf) {
                Err(effect(pos.0, new.1, 0, true))
            } else {
                Ok(false)
            },
        }
    } else {
        Ok(false)
    }
}

/// A capture needs an enemy on the destination; any other move an empty one.
pub open spec fn rook_target_ok(g: Grid, color: usize, capture: bool, new: (usize, usize)) -> bool {
    match at(g, new.0 as int, new.1 as int) {
        Some(p) => capture && p.color() != color,
        None => !capture,
    }
}

pub open spec fn rook_rule(
    color: usize,
    g: Grid,
    capture: bool,
    pos: (usize, usize),
    new: (usize, usize),
) -> Result<bool, Seq<AdjustPiece>> {
    if straight(pos, new) && clear_between(g, pos, new) && rook_target_ok(g, color, capture, new) {
        Err(effect(new.0, new.1, 1, false))
    } else {
        Ok(false)
    }
}

pub open spec fn knight_jump(pos: (usize, usize), new: (usize, usize)) -> bool {
    let dr = dist(pos.0 as int, new.0 as int);
    let df = dist(pos.1 as int, new.1 as int);
    (dr == 2 && df == 1) || (dr == 1 && df == 2)
}

pub open spec fn knight_rule(
    g: Grid,
    capture: bool,
    pos: (usize, usize),
    new: (usize, usize),
) -> Result<bool, Seq<AdjustPiece>> {
    Ok(knight_jump(pos, new) && (capture || !occupied(g, new.0 as int, new.1 as int)))
}

pub open spec fn bishop_rule(
    g: Grid,
    capture: bool,
    pos: (usize, usize),
    new: (usize, usize),
) -> Result<bool, Seq<AdjustPiece>> {
    Ok(occupied(g, new.0 as int, new.1 as int) == capture && diagonal(pos, new) && clear_between(
        g,
        pos,
        new,
    ))
}

pub open spec fn queen_rule(
    color: usize,
    g: Grid,
    capture: bool,
    pos: (usize, usize),
    new: (usize, usize),
) -> Result<bool, Seq<AdjustPiece>> {
    Ok(rook_rule(color, g, capture, pos, new) is Err || bishop_rule(g, capture, pos, new) == Ok::<
        bool,
        Seq<AdjustPiece>,
    >(true))
}

pub open spec fn king_rule(
    g: Grid,
    capture: bool,
    pos: (usize, usize),
    new: (usize, usize),
) -> Result<bool, Seq<AdjustPiece>> {
    if dist(pos.0 as int, new.0 as int) <= 1 && dist(pos.1 as int, new.1 as int) <= 1 && (capture
        || !occupied(g, new.0 as int, new.1 as int)) {
        Err(effect(new.0, new.1, 1, false))
    } else {
        Ok(false)
    }
}

/// The verdict of the rule of `p`'s kind.
pub open spec fn piece_rule(
    p: Piece,
    g: Grid,
    capture: bool,
    pos: (usize, usize),
    new: (usize, usize),
) -> Result<bool, Seq<AdjustPiece>> {
    match p {
        Piece::Pawn(x) => pawn_rule(x.color, x.has_moved, g, capture, pos, new),
        Piece::Rook(x) => rook_rule(x.color, g, capture, pos, new),
        Piece::Knight(_) => knight_rule(g, capture, pos, new),
        Piece::Bishop(_) => bishop_rule(g, capture, pos, new),
        Piece::Queen(x) => queen_rule(x.color, g, capture, pos, new),
        Piece::King(_) => king_rule(g, capture, pos, new),
    }
}

fn dist_of(a: usize, b: usize) -> (r: usize)
    ensures
        r == dist(a as int, b as int),
{
    if a >= b {
        a - b
    } else {
        b - a
    }
}

fn step_toward(a: usize, b: usize, k: usize) -> (r: usize)
    requires
        1 <= a <= 8,
        1 <= b <= 8,
        a == b || k < dist(a as int, b as int),
    ensures
        r == toward(a as int, b as int, k as int),
        1 <= r <= 8,
{
    if b > a {
        a + k
    } else if b < a {
        a - k
    } else {
        a
    }
}

/// Whether the squares strictly between two squares of one line are all empty.
fn path_clear(board: &Board, from: (usize, usize), to: (usize, usize)) -> (r: bool)
    requires
        board.wf(),
        on_board(from),
        on_board(to),
        straight(from, to) || diagonal(from, to),
    ensures
        r == clear_between(board@, from, to),
{
    let dr = dist_of(from.0, to.0);
    let df = dist_of(from.1, to.1);
    let n = if dr > df {
        dr
    } else {
        df
    };
    let mut k: usize = 1;
    while k < n
        invariant
            board.wf(),
            on_board(from),
            on_board(to),
            straight(from, to) || diagonal(from, to),
            n == span(from, to),
            1 <= k <= n + 1,
            forall|j: int|
                0 < j < k ==> !#[trigger] occupied(
                    board@,
                    toward(from.0 as int, to.0 as int, j),
                    toward(from.1 as int, to.1 as int, j),
                ),
        decreases n - k,
    {
        let r = step_toward(from.0, to.0, k);
        let f = step_toward(from.1, to.1, k);
        if board.square(r, f).is_some() {
            assert(occupied(
                board@,
                toward(from.0 as int, to.0 as int, k as int),
                toward(from.1 as int, to.1 as int, k as int),
            ));
            return false;
        }
        k += 1;
    }
    true
}

impl PieceTrait for Pawn {
    fn theory_valid_move(
        &self,
        board: &Board,
        capture: bool,
        position: (usize, usize),
        new_position: (usize, usize),
    ) -> (r: Result<bool, Vec<AdjustPiece>>)
        ensures
            verdict_of(r) == pawn_rule(
                self.color,
                self.has_moved,
                board@,
                capture,
                position,
                new_position,
            ),
    {
        let (r, f) = position;
        let (nr, nf) = new_position;
        let black = self.color != _WHITE_PIECE;
        if !capture {
            if nf != f || board.square(nr, nf).is_some() {
                return Ok(false);
            }
            if black {
                if nr + 1 == r {
                    return Ok(true);
                }
                if nr + 2 == r && self.has_moved == 0 && board.square(r - 1, f).is_none() {
                    let v = vec![AdjustPiece { piece: (nr - 1, nf - 1), increase_movement: 2, remove_piece: false }];
                    assert(v@ == effect(nr, nf, 2, false));
                    return Err(v);
                }
            } else {
                if nr == r + 1 {
                    return Ok(true);
                }
                if nr == r + 2 && self.has_moved == 0 && board.square(r + 1, f).is_none() {
                    let v = vec![AdjustPiece { piece: (nr - 1, nf - 1), increase_movement: 2, remove_piece: false }];
                    assert(v@ == effect(nr, nf, 2, false));
                    return Err(v);
                }
            }
            return Ok(false);
        }
        let ahead = if black {
            nr + 1 == r
        } else {
            nr == r + 1
        };
        if !ahead || dist_of(nf, f) != 1 {
            return Ok(false);
        }
        match board.square(nr, nf) {
            Some(p) => Ok(p.get_color() != self.color),
            None => {
                let home: usize = if black {
                    4
                } else {
                    5
                };
                if r == home {
                    if let Some(Piece::Pawn(v)) = board.square(r, nf) {
                        if v.color != self.color && v.has_moved == 2 {
                            let e = vec![AdjustPiece { piece: (r - 1, nf - 1), increase_movement: 0, remove_piece: true }];
                            assert(e@ == effect(r, nf, 0, true));
                            return Err(e);
                        }
                    }
                }
                Ok(false)
            },
        }
    }

    fn get_identity(&self) -> (r: String)
        ensures
            r@ == seq!['P'],
    {
        proof {
            reveal_strlit("P");
        }
        "P".to_string()
    }
}


/// Whether the destination suits a rook of `color`: an enemy for a capture, empty otherwise.
fn rook_target(board: &Board, color: usize, capture: bool, new: (usize, usize)) -> (r: bool)
    requires
        board.wf(),
        on_board(new),
    ensures
        r == rook_target_ok(board@, color, capture, new),
{
    match board.square(new.0, new.1) {
        Some(p) => capture && p.get_color() != color,
        None => !capture,
    }
}

impl PieceTrait for Rook {
    fn theory_valid_move(
        &self,
        board: &Board,
        capture: bool,
        position: (usize, usize),
        new_position: (usize, usize),
    ) -> (r: Result<bool, Vec<AdjustPiece>>)
        ensures
            verdict_of(r) == rook_rule(self.color, board@, capture, position, new_position),
    {
        if (position.0 == new_position.0 || position.1 == new_position.1) && path_clear(
            board,
            position,
            new_position,
        ) && rook_target(board, self.color, capture, new_position) {
            let v = vec![AdjustPiece { piece: (new_position.0 - 1, new_position.1 - 1), increase_movement: 1, remove_piece: false }];
            assert(v@ == effect(new_position.0, new_position.1, 1, false));
            Err(v)
        } else {
            Ok(false)
        }
    }

    fn get_identity(&self) -> (r: String)
        ensures
            r@ == seq!['R'],
    {
        proof {
            reveal_strlit("R");
        }
        "R".to_string()
    }
}

impl PieceTrait for Knight {
    fn theory_valid_move(
        &self,
        board: &Board,
        capture: bool,
        position: (usize, usize),
        new_position: (usize, usize),
    ) -> (r: Result<bool, Vec<AdjustPiece>>)
        ensures
            verdict_of(r) == knight_rule(board@, capture, position, new_position),
    {
        let dr = dist_of(position.0, new_position.0);
        let df = dist_of(position.1, new_position.1);
        if (dr == 2 && df == 1) || (dr == 1 && df == 2) {
            if board.square(new_position.0, new_position.1).is_some() && !capture {
                return Ok(false);
            }
            return Ok(true);
        }
        Ok(false)
    }

    fn get_identity(&self) -> (r: String)
        ensures
            r@ == seq!['N'],
    {
        proof {
            reveal_strlit("N");
        }
        "N".to_string()
    }
}

impl PieceTrait for Bishop {
    fn theory_valid_move(
        &self,
        board: &Board,
        capture: bool,
        position: (usize, usize),
        new_position: (usize, usize),
    ) -> (r: Result<bool, Vec<AdjustPiece>>)
        ensures
            verdict_of(r) == bishop_rule(board@, capture, position, new_position),
    {
        if board.square(new_position.0, new_position.1).is_some() != capture {
            return Ok(false);
        }
        if position.0 != new_position.0 && dist_of(position.0, new_position.0) == dist_of(
            position.1,
            new_position.1,
        ) {
            return Ok(path_clear(board, position, new_position));
        }
        Ok(false)
    }

    fn get_identity(&self) -> (r: String)
        ensures
            r@ == seq!['B'],
    {
        proof {
            reveal_strlit("B");
        }
        "B".to_string()
    }
}

impl PieceTrait for Queen {
    fn theory_valid_move(
        &self,
        board: &Board,
        capture: bool,
        position: (usize, usize),
        new_position: (usize, usize),
    ) -> (r: Result<bool, Vec<AdjustPiece>>)
        ensures
            verdict_of(r) == queen_rule(self.color, board@, capture, position, new_position),
    {
        let as_rook = Rook { color: self.color, has_moved: 0 };
        let as_bishop = Bishop { color: self.color, has_moved: 0 };
        let by_file = as_rook.theory_valid_move(board, capture, position, new_position);
        let by_diagonal = as_bishop.theory_valid_move(board, capture, position, new_position);
        let by_diagonal_ok = match by_diagonal {
            Ok(b) => b,
            Err(_) => false,
        };
        Ok(by_file.is_err() || by_diagonal_ok)
    }

    fn get_identity(&self) -> (r: String)
        ensures
            r@ == seq!['Q'],
    {
        proof {
            reveal_strlit("Q");
        }
        "Q".to_string()
    }
}

impl PieceTrait for King {
    fn theory_valid_move(
        &self,
        board: &Board,
        capture: bool,
        position: (usize, usize),
        new_position: (usize, usize),
    ) -> (r: Result<bool, Vec<AdjustPiece>>)
        ensures
            verdict_of(r) == king_rule(board@, capture, position, new_position),
    {
        if dist_of(position.0, new_position.0) <= 1 && dist_of(position.1, new_position.1) <= 1 {
            if board.square(new_position.0, new_position.1).is_some() && !capture {
                return Ok(false);
            }
            let v = vec![AdjustPiece { piece: (new_position.0 - 1, new_position.1 - 1), increase_movement: 1, remove_piece: false }];
            assert(v@ == effect(new_position.0, new_position.1, 1, false));
            return Err(v);
        }
        Ok(false)
    }

    fn get_identity(&self) -> (r: String)
        ensures
            r@ == seq!['K'],
    {
        proof {
            reveal_strlit("K");
        }
        "K".to_string()
    }
}

impl PieceTrait for Piece {
    fn theory_valid_move(
        &self,
        board: &Board,
        capture: bool,
        position: (usize, usize),
        new_position: (usize, usize),
    ) -> (r: Result<bool, Vec<AdjustPiece>>)
        ensures
            verdict_of(r) == piece_rule(*self, board@, capture, position, new_position),
    {
        match self {
            Piece::Pawn(p) => p.theory_valid_move(board, capture, position, new_position),
            Piece::Rook(p) => p.theory_valid_move(board, capture, position, new_position),
            Piece::Knight(p) => p.theory_valid_move(board, capture, position, new_position),
            Piece::Bishop(p) => p.theory_valid_move(board, capture, position, new_position),
            Piece::Queen(p) => p.theory_valid_move(board, capture, position, new_position),
            Piece::King(p) => p.theory_valid_move(board, capture, position, new_position),
        }
    }

    fn get_identity(&self) -> (r: String)
        ensures
            r@ == seq![self.identity()],
    {
        match self {
            Piece::Pawn(p) => p.get_identity(),
            Piece::Rook(p) => p.get_identity(),
            Piece::Knight(p) => p.get_identity(),
            Piece::Bishop(p) => p.get_identity(),
            Piece::Queen(p) => p.get_identity(),
            Piece::King(p) => p.get_identity(),
        }
    }
}

} // verus!
