//! The game state and its move engine: resolving move text against the board,
//! the check gate, castling, and committing a move with its side effects.
use vstd::prelude::*;
use vstd::string::StrSliceExecFns;

use crate::board::{at, occupied, put, Board, Grid};
use crate::parse::{parse_chars, parse_request, ParsedMove, Request};
use crate::pieces::{
    bumped, is_legal, on_board, opponent, prototype, prototype_of, verdict_of, AdjustPiece, Piece,
    PieceCommon, PieceTrait, _WHITE_PIECE,
};
use crate::rules::piece_rule;
use crate::search::{
    collect, finds_ok, found_in, king_threat, lemma_found_in, opponent_of, search, square_of,
    threat_to, FoundPiece,
};

verus! {

/// Why a move was refused.
#[derive(Debug, Clone, Copy, PartialEq, Eq)]
pub enum MoveError {
    /// The text names no move.
    ParseFailure,
    /// No piece of the side to move fits the kind and origin given.
    AmbiguousOrMissingSource,
    /// The rule of the piece's kind forbids the move.
    RuleIllegal,
    /// The king is in check and the move does not take the attacker safely.
    SelfCheckViolation,
    /// King or rook has moved, the path is blocked, or the king would pass an attacked square.
    CastlingPrerequisiteUnmet,
}

/// `g` with the occupant of `from` moved to `to`.
pub open spec fn shifted(g: Grid, from: (usize, usize), to: (usize, usize)) -> Grid {
    put(put(g, to.0 as int, to.1 as int, at(g, from.0 as int, from.1 as int)), from.0 as int, from.1 as int, None)
}

/// The verdict of the rule of the piece on candidate `c` for a move to `to`.
pub open spec fn verdict_for(g: Grid, c: FoundPiece, capture: bool, to: (usize, usize)) -> Result<
    bool,
    Seq<AdjustPiece>,
> {
    piece_rule(at(g, c.position.0 as int, c.position.1 as int)->0, g, capture, c.position, to)
}

/// Candidate `c` can make the move: it is not already on `to` and its rule accepts.
pub open spec fn can_move(g: Grid, c: FoundPiece, capture: bool, to: (usize, usize)) -> bool {
    c.position != to && is_legal(verdict_for(g, c, capture, to))
}

/// The index of the first candidate, from `i` on, that can make the move, or
/// `cands.len()` when none can.
pub open spec fn first_legal_index(
    g: Grid,
    cands: Seq<FoundPiece>,
    capture: bool,
    to: (usize, usize),
    i: int,
) -> int
    decreases cands.len() - i,
{
    if i < 0 || i >= cands.len() {
        cands.len() as int
    } else if can_move(g, cands[i], capture, to) {
        i
    } else {
        first_legal_index(g, cands, capture, to, i + 1)
    }
}

pub proof fn lemma_first_legal_index(
    g: Grid,
    cands: Seq<FoundPiece>,
    capture: bool,
    to: (usize, usize),
    i: int,
)
    requires
        0 <= i <= cands.len(),
    ensures
        i <= first_legal_index(g, cands, capture, to, i) <= cands.len(),
        first_legal_index(g, cands, capture, to, i) < cands.len() ==> can_move(
            g,
            cands[first_legal_index(g, cands, capture, to, i)],
            capture,
            to,
        ),
    decreases cands.len() - i,
{
    if i < cands.len() && !can_move(g, cands[i], capture, to) {
        lemma_first_legal_index(g, cands, capture, to, i + 1);
    }
}

/// What lands on the destination: the moving piece, or for a promotion a fresh
/// piece of the named kind in the mover's colour.
pub open spec fn placed(g: Grid, from: (usize, usize), promotion: Option<char>, turn: usize) -> Option<Piece> {
    match promotion {
        Some(l) => Some(prototype_of(l)->0.remade(turn, 0)),
        None => at(g, from.0 as int, from.1 as int),
    }
}

/// One side effect: credit moves to the occupant of its square, then remove it if asked.
pub open spec fn apply_effect(g: Grid, e: AdjustPiece) -> Grid {
    let r = e.piece.0 + 1;
    let f = e.piece.1 + 1;
    if e.piece.0 < 8 && e.piece.1 < 8 {
        let g1 = if e.increase_movement >= 1 && occupied(g, r, f) {
            let p = at(g, r, f)->0;
            put(g, r, f, Some(p.remade(p.color(), bumped(p.moves(), e.increase_movement))))
        } else {
            g
        };
        if e.remove_piece {
            put(g1, r, f, None)
        } else {
            g1
        }
    } else {
        g
    }
}

/// The side effects applied in order.
pub open spec fn apply_effects(g: Grid, effects: Seq<AdjustPiece>) -> Grid
    decreases effects.len(),
{
    if effects.len() == 0 {
        g
    } else {
        apply_effect(apply_effects(g, effects.drop_last()), effects.last())
    }
}

/// The board after moving from `from` to `to`, putting `p` there, with the
/// verdict's side effects.
pub open spec fn commit(
    g: Grid,
    from: (usize, usize),
    to: (usize, usize),
    p: Option<Piece>,
    v: Result<bool, Seq<AdjustPiece>>,
) -> Grid {
    let g1 = put(put(g, to.0 as int, to.1 as int, p), from.0 as int, from.1 as int, None);
    match v {
        Err(effects) => apply_effects(g1, effects),
        Ok(_) => g1,
    }
}

/// The board after a non-castling move by `turn`, or why it is refused. The
/// move needs exactly one candidate that can make it. While in check, the move must land on the attacker's square and leave the
/// king safe.
pub open spec fn play(g: Grid, turn: usize, pm: ParsedMove) -> Result<Grid, MoveError> {
    let threat = king_threat(g, turn);
    let cands = search(g, pm.piece, pm.from.0, pm.from.1, turn);
    let j = first_legal_index(g, cands, pm.capture, pm.to, 0);
    if cands.len() == 0 {
        Err(MoveError::AmbiguousOrMissingSource)
    } else if j >= cands.len() {
        Err(MoveError::RuleIllegal)
    } else if first_legal_index(g, cands, pm.capture, pm.to, j + 1) < cands.len() {
        Err(MoveError::AmbiguousOrMissingSource)
    } else {
        let c = cands[j];
        let v = verdict_for(g, c, pm.capture, pm.to);
        match threat {
            Some((_, attacker)) => if attacker.position != pm.to || king_threat(
                shifted(g, c.position, pm.to),
                turn,
            ) is Some {
                Err(MoveError::SelfCheckViolation)
            } else {
                Ok(commit(g, c.position, pm.to, placed(g, c.position, pm.promotion, turn), v))
            },
            None => Ok(commit(g, c.position, pm.to, placed(g, c.position, pm.promotion, turn), v)),
        }
    }
}

/// The rank on which `turn`'s king and rooks start.
pub open spec fn home_rank(turn: usize) -> usize {
    if turn == _WHITE_PIECE {
        1
    } else {
        8
    }
}

pub open spec fn rook_file(kingside: bool) -> usize {
    if kingside {
        8
    } else {
        1
    }
}

/// The king on `kf` can castle toward the rook: its landing square, two files
/// toward the rook, lies on the board.
pub open spec fn castle_fits(kf: usize, kingside: bool) -> bool {
    if kingside {
        kf + 2 <= 8
    } else {
        kf >= 3
    }
}

/// One file toward the rook.
pub open spec fn toward_rook(kingside: bool) -> int {
    if kingside {
        1
    } else {
        -1
    }
}

/// Every square of rank `home` strictly between files `kf` and `rf` is empty.
pub open spec fn castle_path_clear(g: Grid, home: int, kf: int, rf: int) -> bool {
    forall|f: int|
        ((kf < f < rf) || (rf < f < kf)) ==> !#[trigger] occupied(g, home, f)
}

/// Neither square the king crosses or lands on is attacked once the king stands there.
pub open spec fn transit_safe(g: Grid, turn: usize, home: usize, kf: usize, kingside: bool) -> bool {
    let d = toward_rook(kingside);
    king_threat(shifted(g, (home, kf), (home, (kf + d) as usize)), turn) is None && king_threat(
        shifted(g, (home, kf), (home, (kf + d + d) as usize)),
        turn,
    ) is None
}

/// Both start squares emptied, the king two files toward the rook, the rook on
/// the square the king crossed.
pub open spec fn castled_grid(g: Grid, home: int, kf: int, kingside: bool) -> Grid {
    let rf = rook_file(kingside) as int;
    let d = toward_rook(kingside);
    let cleared = put(put(g, home, kf, None), home, rf, None);
    put(put(cleared, home, kf + d + d, at(g, home, kf)), home, kf + d, at(g, home, rf))
}

/// The board after castling by `turn`, or the refusal when castling is not
/// allowed. The king is the first king of `turn` found; it must stand on its
/// home rank, and the rook in that rank's corner on the chosen side.
pub open spec fn castle(g: Grid, turn: usize, kingside: bool) -> Result<Grid, MoveError> {
    let home = home_rank(turn);
    let rf = rook_file(kingside);
    let kings = found_in(g, 'K', turn, 0, 64);
    let rooks = search(g, 'R', home, rf, turn);
    let kf = kings[0].position.1;
    if kings.len() > 0 && kings[0].position.0 == home && castle_fits(kf, kingside) && at(
        g,
        home as int,
        kf as int,
    )->0.moves() == 0 && king_threat(g, turn) is None && rooks.len() == 1 && at(
        g,
        home as int,
        rf as int,
    )->0.moves() == 0 && castle_path_clear(g, home as int, kf as int, rf as int) && transit_safe(
        g,
        turn,
        home,
        kf,
        kingside,
    ) {
        Ok(castled_grid(g, home as int, kf as int, kingside))
    } else {
        Err(MoveError::CastlingPrerequisiteUnmet)
    }
}

/// The board after `turn` plays the move text `m`, or why it is refused.
pub open spec fn move_result(g: Grid, turn: usize, base: char, m: Seq<char>) -> Result<Grid, MoveError> {
    match parse_request(m, base, turn) {
        Request::Invalid => Err(MoveError::ParseFailure),
        Request::Castle(kingside) => castle(g, turn, kingside),
        Request::Move(pm) => play(g, turn, pm),
    }
}

pub trait Notation: Sized {
    /// The state can take moves: its board has eight rows of eight squares.
    spec fn well_formed(&self) -> bool;

    fn new(board: Board, turn: usize) -> (r: Self)
        requires
            board.wf(),
        ensures
            r.well_formed(),
    ;

    /// Plays the move text if it is legal; `false`, with nothing changed, otherwise.
    fn do_move(&mut self, p_move: &str) -> (r: bool)
        requires
            old(self).well_formed(),
        ensures
            final(self).well_formed(),
    ;

    fn find_piece(
        &self,
        board: &Board,
        piece: char,
        rank: usize,
        file: usize,
        color: usize,
    ) -> Vec<FoundPiece>
        requires
            board.wf(),
            rank <= 8,
            file <= 8,
    ;

    fn check_king_threat(&self, board: &Board) -> Result<bool, FoundPiece>
        requires
            board.wf(),
    ;
}

/// A game in progress: the board, whose turn it is, and the letter of file 1.
pub struct AlgebraicNotation {
    pub base_notation: char,
    pub board: Board,
    pub turn: usize,
}

/// The pieces `search` describes.
pub fn search_board(board: &Board, piece: char, rank: usize, file: usize, color: usize) -> (r: Vec<
    FoundPiece,
>)
    requires
        board.wf(),
        rank <= 8,
        file <= 8,
    ensures
        r@ == search(board@, piece, rank, file, color),
{
    if rank == 0 && file == 0 {
        collect(board, piece, color, 0, 64)
    } else if rank != 0 && file == 0 {
        collect(board, piece, color, (rank - 1) * 8, (rank - 1) * 8 + 8)
    } else if rank != 0 {
        collect(board, piece, color, (rank - 1) * 8 + file - 1, (rank - 1) * 8 + file)
    } else {
        Vec::new()
    }
}

/// The characters of `s`.
fn chars_of(s: &str) -> (r: Vec<char>)
    ensures
        r@ == s@,
{
    let n = s.unicode_len();
    let mut out: Vec<char> = Vec::new();
    let mut i: usize = 0;
    while i < n
        invariant
            n == s@.len(),
            0 <= i <= n,
            out@ == s@.subrange(0, i as int),
        decreases n - i,
    {
        out.push(s.get_char(i));
        i += 1;
        assert(out@ =~= s@.subrange(0, i as int));
    }
    assert(out@ =~= s@);
    out
}

/// Applies one side effect to the board.
fn apply_one(b: &mut Board, e: AdjustPiece)
    requires
        old(b).wf(),
    ensures
        final(b).wf(),
        final(b)@ == apply_effect(old(b)@, e),
{
    if e.piece.0 < 8 && e.piece.1 < 8 {
        let r = e.piece.0 + 1;
        let f = e.piece.1 + 1;
        if e.increase_movement >= 1 {
            match b.square(r, f) {
                Some(p) => {
                    let mut q = p;
                    q.movement(e.increase_movement);
                    b.set_square(r, f, Some(q));
                },
                None => {},
            }
        }
        if e.remove_piece {
            b.set_square(r, f, None);
        }
    }
}

/// Applies the side effects in order.
fn apply_all(b: &mut Board, effects: &Vec<AdjustPiece>)
    requires
        old(b).wf(),
    ensures
        final(b).wf(),
        final(b)@ == apply_effects(old(b)@, effects@),
{
    let ghost g0 = b@;
    let mut i: usize = 0;
    while i < effects.len()
        invariant
            b.wf(),
            0 <= i <= effects@.len(),
            b@ == apply_effects(g0, effects@.subrange(0, i as int)),
        decreases effects@.len() - i,
    {
        proof {
            assert(effects@.subrange(0, i + 1).drop_last() =~= effects@.subrange(0, i as int));
        }
        apply_one(b, effects[i]);
        i += 1;
    }
    assert(effects@.subrange(0, effects@.len() as int) =~= effects@);
}

/// A copy of the board with the occupant of `from` moved to `to`.
fn shifted_board(board: &Board, from: (usize, usize), to: (usize, usize)) -> (r: Board)
    requires
        board.wf(),
        on_board(from),
        on_board(to),
    ensures
        r.wf(),
        r@ == shifted(board@, from, to),
{
    let mut b = board.copy();
    let p = board.square(from.0, from.1);
    b.set_square(to.0, to.1, p);
    b.set_square(from.0, from.1, None);
    b
}


/// The parsed move makes sense on a board: squares in range, a known promotion letter.
pub open spec fn parsed_ok(pm: ParsedMove) -> bool {
    &&& 1 <= pm.from.0 <= 8
    &&& pm.from.1 <= 8
    &&& on_board(pm.to)
    &&& (pm.promotion is Some ==> prototype_of(pm.promotion->0) is Some)
}

pub proof fn lemma_parsed_ok(m: Seq<char>, base: char, turn: usize)
    ensures
        parse_request(m, base, turn) is Move ==> parsed_ok(parse_request(m, base, turn)->Move_0),
{
}

/// The verdict for candidate `c`, when it can make the move.
fn try_candidate(board: &Board, c: FoundPiece, capture: bool, to: (usize, usize)) -> (r: Option<
    Result<bool, Vec<AdjustPiece>>,
>)
    requires
        board.wf(),
        on_board(c.position),
        at(board@, c.position.0 as int, c.position.1 as int) is Some,
        on_board(to),
    ensures
        r is Some <==> can_move(board@, c, capture, to),
        r matches Some(v) ==> verdict_of(v) == verdict_for(board@, c, capture, to),
{
    if c.position.0 == to.0 && c.position.1 == to.1 {
        return None;
    }
    let p = board.square(c.position.0, c.position.1).unwrap();
    let v = p.theory_valid_move(board, capture, c.position, to);
    let legal = match &v {
        Ok(b) => *b,
        Err(_) => true,
    };
    if legal {
        Some(v)
    } else {
        None
    }
}

/// The index of the first candidate, from `start` on, that can make the move.
fn next_legal(
    board: &Board,
    cands: &Vec<FoundPiece>,
    piece: char,
    turn: usize,
    capture: bool,
    to: (usize, usize),
    start: usize,
) -> (r: usize)
    requires
        board.wf(),
        finds_ok(board@, piece, turn, cands@),
        on_board(to),
        start <= cands@.len(),
    ensures
        r == first_legal_index(board@, cands@, capture, to, start as int),
{
    let mut i: usize = start;
    while i < cands.len()
        invariant
            board.wf(),
            finds_ok(board@, piece, turn, cands@),
            on_board(to),
            start <= i <= cands@.len(),
            first_legal_index(board@, cands@, capture, to, start as int) == first_legal_index(
                board@,
                cands@,
                capture,
                to,
                i as int,
            ),
        decreases cands@.len() - i,
    {
        assert(cands@[i as int] == cands[i as int]);
        if try_candidate(board, cands[i], capture, to).is_some() {
            return i;
        }
        i += 1;
    }
    i
}

/// The board after the non-castling move `pm` by `turn`, if it is allowed.
fn played(board: &Board, turn: usize, pm: ParsedMove) -> (r: Result<Board, MoveError>)
    requires
        board.wf(),
        parsed_ok(pm),
    ensures
        match r {
            Ok(b) => b.wf() && play(board@, turn, pm) == Ok::<Grid, MoveError>(b@),
            Err(e) => play(board@, turn, pm) == Err::<Grid, MoveError>(e),
        },
{
    let ghost g = board@;
    let cands = search_board(board, pm.piece, pm.from.0, pm.from.1, turn);
    let threat = threat_to(board, turn);
    proof {
        if pm.from.0 != 0 && pm.from.1 == 0 {
            lemma_found_in(g, pm.piece, turn, (pm.from.0 - 1) * 8, (pm.from.0 - 1) * 8 + 8);
        } else if pm.from.0 != 0 {
            lemma_found_in(g, pm.piece, turn, (pm.from.0 - 1) * 8 + pm.from.1 - 1, (pm.from.0 - 1) * 8 + pm.from.1);
        } else {
            lemma_found_in(g, pm.piece, turn, 0, 64);
        }
    }
    if cands.len() == 0 {
        return Err(MoveError::AmbiguousOrMissingSource);
    }
    let j = next_legal(board, &cands, pm.piece, turn, pm.capture, pm.to, 0);
    proof {
        lemma_first_legal_index(g, cands@, pm.capture, pm.to, 0);
    }
    if j == cands.len() {
        return Err(MoveError::RuleIllegal);
    }
    if next_legal(board, &cands, pm.piece, turn, pm.capture, pm.to, j + 1) < cands.len() {
        return Err(MoveError::AmbiguousOrMissingSource);
    }
    let c = cands[j];
    assert(cands@[j as int] == c);
    let v = try_candidate(board, c, pm.capture, pm.to).unwrap();
    match threat {
        Some((_, attacker)) => {
            if attacker.position.0 != pm.to.0 || attacker.position.1 != pm.to.1 {
                return Err(MoveError::SelfCheckViolation);
            }
            let trial = shifted_board(board, c.position, pm.to);
            if threat_to(&trial, turn).is_some() {
                return Err(MoveError::SelfCheckViolation);
            }
        },
        None => {},
    }
    let p = board.square(c.position.0, c.position.1).unwrap();
    let mut b = board.copy();
    let arriving = match pm.promotion {
        Some(letter) => {
            let mut q = prototype(letter).unwrap();
            q.set_color(turn);
            Some(q)
        },
        None => Some(p),
    };
    b.set_square(pm.to.0, pm.to.1, arriving);
    b.set_square(c.position.0, c.position.1, None);
    match &v {
        Err(effects) => apply_all(&mut b, effects),
        Ok(_) => {},
    }
    Ok(b)
}

/// The board after castling by `turn`, if castling is allowed.
fn castled(board: &Board, turn: usize, kingside: bool) -> (r: Result<Board, MoveError>)
    requires
        board.wf(),
    ensures
        match r {
            Ok(b) => b.wf() && castle(board@, turn, kingside) == Ok::<Grid, MoveError>(b@),
            Err(e) => castle(board@, turn, kingside) == Err::<Grid, MoveError>(e),
        },
{
    let ghost g = board@;
    let home: usize = if turn == _WHITE_PIECE {
        1
    } else {
        8
    };
    let rf: usize = if kingside {
        8
    } else {
        1
    };
    let kings = collect(board, 'K', turn, 0, 64);
    proof {
        lemma_found_in(g, 'K', turn, 0, 64);
    }
    if kings.len() == 0 {
        return Err(MoveError::CastlingPrerequisiteUnmet);
    }
    let king_at = kings[0].position;
    assert(kings@[0].position == king_at);
    let kf = king_at.1;
    if king_at.0 != home {
        return Err(MoveError::CastlingPrerequisiteUnmet);
    }
    if (kingside && kf + 2 > 8) || (!kingside && kf < 3) {
        return Err(MoveError::CastlingPrerequisiteUnmet);
    }
    let king = board.square(home, kf).unwrap();
    let mut probe = king;
    if probe.movement(0) > 0 {
        return Err(MoveError::CastlingPrerequisiteUnmet);
    }
    if threat_to(board, turn).is_some() {
        return Err(MoveError::CastlingPrerequisiteUnmet);
    }
    let rooks = search_board(board, 'R', home, rf, turn);
    proof {
        let k = (home - 1) * 8 + rf - 1;
        lemma_found_in(g, 'R', turn, k, k + 1);
        assert(k / 8 == home - 1 && k % 8 == rf - 1) by {
            if home == 1 {
                if rf == 1 {
                    assert(k == 0);
                } else {
                    assert(k == 7);
                }
            } else {
                if rf == 1 {
                    assert(k == 56);
                } else {
                    assert(k == 63);
                }
            }
        }
    }
    if rooks.len() != 1 {
        return Err(MoveError::CastlingPrerequisiteUnmet);
    }
    proof {
        let k = (home - 1) * 8 + rf - 1;
        assert(rooks@ == found_in(g, 'R', turn, k, k + 1));
        assert(found_in(g, 'R', turn, k, k).len() == 0);
        assert(rooks@[0].position == square_of(k));
    }
    assert(rooks@[0].position == (home, rf));
    let rook = board.square(home, rf).unwrap();
    let mut probe = rook;
    if probe.movement(0) > 0 {
        return Err(MoveError::CastlingPrerequisiteUnmet);
    }
    let (lo, hi) = if kf < rf {
        (kf, rf)
    } else {
        (rf, kf)
    };
    let mut f: usize = lo + 1;
    while f < hi
        invariant
            board.wf(),
            g == board@,
            1 <= home <= 8,
            1 <= lo < hi <= 8,
            lo + 1 <= f <= hi,
            (lo == kf && hi == rf) || (lo == rf && hi == kf),
            kings@ == found_in(g, 'K', turn, 0, 64),
            kings@.len() > 0,
            kf == kings@[0].position.1,
            home == home_rank(turn),
            rf == rook_file(kingside),
            forall|x: int| lo < x < f ==> !#[trigger] occupied(g, home as int, x),
        decreases hi - f,
    {
        if board.square(home, f).is_some() {
            assert(occupied(g, home as int, f as int));
            assert(!castle_path_clear(g, home as int, kf as int, rf as int));
            return Err(MoveError::CastlingPrerequisiteUnmet);
        }
        f += 1;
    }
    let (a, b, rt) = if kingside {
        (kf + 1, kf + 2, kf + 1)
    } else {
        (kf - 1, kf - 2, kf - 1)
    };
    let trial = shifted_board(board, (home, kf), (home, a));
    if threat_to(&trial, turn).is_some() {
        return Err(MoveError::CastlingPrerequisiteUnmet);
    }
    let trial = shifted_board(board, (home, kf), (home, b));
    if threat_to(&trial, turn).is_some() {
        return Err(MoveError::CastlingPrerequisiteUnmet);
    }
    let mut out = board.copy();
    out.set_square(home, kf, None);
    out.set_square(home, rf, None);
    out.set_square(home, b, Some(king));
    out.set_square(home, rt, Some(rook));
    Ok(out)
}

impl AlgebraicNotation {
    /// Plays the move text if it is legal; otherwise says why not and changes nothing.
    pub fn try_move(&mut self, p_move: &str) -> (r: Result<(), MoveError>)
        requires
            old(self).board.wf(),
        ensures
            final(self).board.wf(),
            match move_result(old(self).board@, old(self).turn, old(self).base_notation, p_move@) {
                Ok(g) => r is Ok && final(self).board@ == g && final(self).turn == opponent(
                    old(self).turn,
                ) && final(self).base_notation == old(self).base_notation,
                Err(e) => r == Err::<(), MoveError>(e) && *final(self) == *old(self),
            },
    {
        let chars = chars_of(p_move);
        let request = parse_chars(&chars, self.base_notation, self.turn);
        proof {
            lemma_parsed_ok(p_move@, self.base_notation, self.turn);
        }
        let next = match request {
            Request::Invalid => Err(MoveError::ParseFailure),
            Request::Castle(kingside) => castled(&self.board, self.turn, kingside),
            Request::Move(pm) => played(&self.board, self.turn, pm),
        };
        match next {
            Ok(b) => {
                self.board = b;
                self.turn = opponent_of(self.turn);
                Ok(())
            },
            Err(e) => Err(e),
        }
    }

    /// The side to move.
    pub fn turn(&self) -> (r: usize)
        ensures
            r == self.turn,
    {
        self.turn
    }
}

impl Notation for AlgebraicNotation {
    open spec fn well_formed(&self) -> bool {
        self.board.wf()
    }

    fn new(board: Board, turn: usize) -> (r: AlgebraicNotation)
        ensures
            r.base_notation == 'a',
            r.board@ == board@,
            r.turn == turn,
    {
        AlgebraicNotation { base_notation: 'a', board, turn }
    }

    fn do_move(&mut self, p_move: &str) -> (r: bool)
        ensures
            match move_result(old(self).board@, old(self).turn, old(self).base_notation, p_move@) {
                Ok(g) => r && final(self).board@ == g && final(self).turn == opponent(old(self).turn)
                    && final(self).base_notation == old(self).base_notation,
                Err(_) => !r && *final(self) == *old(self),
            },
    {
        self.try_move(p_move).is_ok()
    }

    fn find_piece(
        &self,
        board: &Board,
        piece: char,
        rank: usize,
        file: usize,
        color: usize,
    ) -> (r: Vec<FoundPiece>)
        ensures
            r@ == search(board@, piece, rank, file, color),
    {
        search_board(board, piece, rank, file, color)
    }

    fn check_king_threat(&self, board: &Board) -> (r: Result<bool, FoundPiece>)
        ensures
            match king_threat(board@, self.turn) {
                Some((king, _)) => r == Err::<bool, FoundPiece>(king),
                None => r == Ok::<bool, FoundPiece>(false),
            },
    {
        match threat_to(board, self.turn) {
            Some((king, _)) => Err(king),
            None => Ok(false),
        }
    }
}

} // verus!
