//! Finding pieces on the board, and the threat test for a king.
use vstd::prelude::*;

use crate::board::{at, Board, Grid};
use crate::pieces::{
    is_legal, opponent, verdict_of, PieceCommon, PieceTrait, _BLACK_PIECE, _WHITE_PIECE,
};
use crate::rules::piece_rule;

verus! {

/// A candidate found on the board: its kind letter and its 1-based square.
#[derive(Debug, Clone, Copy, PartialEq, Eq)]
pub struct FoundPiece {
    pub piece: char,
    pub position: (usize, usize),
}

/// The 1-based square of the `k`-th square in rank-major order.
pub open spec fn square_of(k: int) -> (usize, usize) {
    ((k / 8 + 1) as usize, (k % 8 + 1) as usize)
}

/// The `k`-th square holds a piece of `color`, of kind `piece` (any kind for `'\0'`).
pub open spec fn wanted(g: Grid, piece: char, color: usize, k: int) -> bool {
    match at(g, k / 8 + 1, k % 8 + 1) {
        Some(p) => (piece == '\0' || p.identity() == piece) && p.color() == color,
        None => false,
    }
}

/// The wanted pieces on squares `lo .. hi`, in rank-major order.
pub open spec fn found_in(g: Grid, piece: char, color: usize, lo: int, hi: int) -> Seq<FoundPiece>
    decreases hi - lo,
{
    if hi <= lo {
        seq![]
    } else {
        let prev = found_in(g, piece, color, lo, hi - 1);
        if wanted(g, piece, color, hi - 1) {
            prev.push(
                FoundPiece {
                    piece: at(g, (hi - 1) / 8 + 1, (hi - 1) % 8 + 1)->0.identity(),
                    position: square_of(hi - 1),
                },
            )
        } else {
            prev
        }
    }
}

/// What a search finds: one square when rank and file are given, one rank
/// when only the rank is, the whole board when neither is.
pub open spec fn search(g: Grid, piece: char, rank: usize, file: usize, color: usize) -> Seq<
    FoundPiece,
> {
    if rank == 0 && file == 0 {
        found_in(g, piece, color, 0, 64)
    } else if rank != 0 && file == 0 {
        found_in(g, piece, color, (rank - 1) * 8, (rank - 1) * 8 + 8)
    } else if rank != 0 {
        found_in(g, piece, color, (rank - 1) * 8 + file - 1, (rank - 1) * 8 + file)
    } else {
        seq![]
    }
}

/// Every find is an on-board square holding a wanted piece of that letter.
pub open spec fn finds_ok(g: Grid, piece: char, color: usize, s: Seq<FoundPiece>) -> bool {
    forall|j: int|
        0 <= j < s.len() ==> {
            let fp = #[trigger] s[j];
            &&& 1 <= fp.position.0 <= 8
            &&& 1 <= fp.position.1 <= 8
            &&& at(g, fp.position.0 as int, fp.position.1 as int) is Some
            &&& at(g, fp.position.0 as int, fp.position.1 as int)->0.color() == color
            &&& at(g, fp.position.0 as int, fp.position.1 as int)->0.identity() == fp.piece
            &&& (piece == '\0' || fp.piece == piece)
        }
}

pub proof fn lemma_found_in(g: Grid, piece: char, color: usize, lo: int, hi: int)
    requires
        0 <= lo,
        hi <= 64,
    ensures
        finds_ok(g, piece, color, found_in(g, piece, color, lo, hi)),
    decreases hi - lo,
{
    if hi > lo {
        lemma_found_in(g, piece, color, lo, hi - 1);
    }
}

/// The first enemy, from index `i` of `enemies` on, whose rule lets it capture on `king`.
pub open spec fn attacker_from(g: Grid, enemies: Seq<FoundPiece>, king: (usize, usize), i: int) -> Option<
    FoundPiece,
>
    decreases enemies.len() - i,
{
    if i < 0 || i >= enemies.len() {
        None
    } else {
        let e = enemies[i];
        if e.position != king && is_legal(
            piece_rule(
                at(g, e.position.0 as int, e.position.1 as int)->0,
                g,
                true,
                e.position,
                king,
            ),
        ) {
            Some(e)
        } else {
            attacker_from(g, enemies, king, i + 1)
        }
    }
}

/// The king of `color` (the first one found) and the first enemy attacking it, if any.
pub open spec fn king_threat(g: Grid, color: usize) -> Option<(FoundPiece, FoundPiece)> {
    let kings = found_in(g, 'K', color, 0, 64);
    if kings.len() == 0 {
        None
    } else {
        match attacker_from(g, found_in(g, '\0', opponent(color), 0, 64), kings[0].position, 0) {
            Some(a) => Some((kings[0], a)),
            None => None,
        }
    }
}

/// The wanted pieces on squares `lo .. hi`.
pub fn collect(board: &Board, piece: char, color: usize, lo: usize, hi: usize) -> (r: Vec<
    FoundPiece,
>)
    requires
        board.wf(),
        lo <= hi <= 64,
    ensures
        r@ == found_in(board@, piece, color, lo as int, hi as int),
{
    let mut found: Vec<FoundPiece> = Vec::new();
    let mut k: usize = lo;
    while k < hi
        invariant
            board.wf(),
            lo <= k <= hi <= 64,
            found@ == found_in(board@, piece, color, lo as int, k as int),
        decreases hi - k,
    {
        let rank = k / 8 + 1;
        let file = k % 8 + 1;
        if let Some(p) = board.square(rank, file) {
            if (piece == '\0' || p.identity_char() == piece) && p.get_color() == color {
                found.push(FoundPiece { piece: p.identity_char(), position: (rank, file) });
            }
        }
        k += 1;
    }
    found
}

pub fn opponent_of(color: usize) -> (r: usize)
    ensures
        r == opponent(color),
{
    if color == _WHITE_PIECE {
        _BLACK_PIECE
    } else {
        _WHITE_PIECE
    }
}

/// The king of `color` and its first attacker, when that king is in check.
pub fn threat_to(board: &Board, color: usize) -> (r: Option<(FoundPiece, FoundPiece)>)
    requires
        board.wf(),
    ensures
        r == king_threat(board@, color),
{
    let kings = collect(board, 'K', color, 0, 64);
    if kings.len() == 0 {
        return None;
    }
    let king = kings[0];
    proof {
        lemma_found_in(board@, 'K', color, 0, 64);
        assert(kings@[0] == king);
    }
    let enemies = collect(board, '\0', opponent_of(color), 0, 64);
    proof {
        lemma_found_in(board@, '\0', opponent(color), 0, 64);
    }
    let mut i: usize = 0;
    while i < enemies.len()
        invariant
            board.wf(),
            0 <= i <= enemies@.len(),
            enemies@ == found_in(board@, '\0', opponent(color), 0, 64),
            finds_ok(board@, '\0', opponent(color), enemies@),
            1 <= king.position.0 <= 8,
            1 <= king.position.1 <= 8,
            found_in(board@, 'K', color, 0, 64).len() > 0,
            king == found_in(board@, 'K', color, 0, 64)[0],
            attacker_from(board@, enemies@, king.position, 0) == attacker_from(
                board@,
                enemies@,
                king.position,
                i as int,
            ),
        decreases enemies@.len() - i,
    {
        let e = enemies[i];
        assert(enemies@[i as int] == e);
        if e.position.0 != king.position.0 || e.position.1 != king.position.1 {
            let p = board.square(e.position.0, e.position.1).unwrap();
            let v = p.theory_valid_move(board, true, e.position, king.position);
            let legal = match v {
                Ok(b) => b,
                Err(_) => true,
            };
            if legal {
                assert(is_legal(verdict_of(v)));
                assert(attacker_from(board@, enemies@, king.position, i as int) == Some(e));
                return Some((king, e));
            }
        }
        i += 1;
    }
    None
}

} // verus!
