//! Properties of the rules and the engine, proved over their spec functions.
use vstd::arithmetic::div_mod::lemma_fundamental_div_mod_converse;
use vstd::prelude::*;

use crate::board::{at, grid_wf, occupied, put, Grid};
use crate::notation::{
    apply_effect, apply_effects, castle, castle_path_clear, commit, home_rank, move_result,
    can_move, first_legal_index, placed, play, rook_file, toward_rook, transit_safe,
    shifted, verdict_for, MoveError,
};
use crate::parse::{has_dash, ParsedMove};
use crate::pieces::{is_legal, on_board, opponent, prototype_of, AdjustPiece, Pawn, Piece};
use crate::rules::{
    bishop_rule, dist, effect, forward, passant_rank, passant_victim, pawn_rule, queen_rule,
    rook_rule, span, toward,
};
use crate::search::{found_in, king_threat, lemma_found_in, search, square_of, FoundPiece};

verus! {

proof fn lemma_put_at(g: Grid, r: int, f: int, v: Option<Piece>, r2: int, f2: int)
    requires
        grid_wf(g),
        1 <= r <= 8,
        1 <= f <= 8,
        1 <= r2 <= 8,
        1 <= f2 <= 8,
    ensures
        grid_wf(put(g, r, f, v)),
        at(put(g, r, f, v), r2, f2) == if r == r2 && f == f2 {
            v
        } else {
            at(g, r2, f2)
        },
{
}

/// A pawn's two-square advance is legal only for an unmoved pawn that passes
/// an empty square onto an empty square of its own file; once committed, the
/// pawn stands on the destination with a move count of 2.
pub proof fn law_pawn_double_step(
    color: usize,
    has_moved: usize,
    g: Grid,
    pos: (usize, usize),
    new: (usize, usize),
)
    requires
        grid_wf(g),
        on_board(pos),
        on_board(new),
        new.0 == pos.0 + forward(color) + forward(color),
    ensures
        is_legal(pawn_rule(color, has_moved, g, false, pos, new)) ==> {
            &&& has_moved == 0
            &&& new.1 == pos.1
            &&& !occupied(g, pos.0 + forward(color), pos.1 as int)
            &&& !occupied(g, new.0 as int, new.1 as int)
            &&& at(
                commit(
                    g,
                    pos,
                    new,
                    Some(Piece::Pawn(Pawn { color, has_moved })),
                    pawn_rule(color, has_moved, g, false, pos, new),
                ),
                new.0 as int,
                new.1 as int,
            ) == Some(Piece::Pawn(Pawn { color, has_moved: 2 }))
        },
{
    let v = pawn_rule(color, has_moved, g, false, pos, new);
    if is_legal(v) {
        let p = Some(Piece::Pawn(Pawn { color, has_moved }));
        let g0 = put(g, new.0 as int, new.1 as int, p);
        lemma_put_at(g, new.0 as int, new.1 as int, p, new.0 as int, new.1 as int);
        let g1 = put(g0, pos.0 as int, pos.1 as int, None);
        lemma_put_at(g0, pos.0 as int, pos.1 as int, None, new.0 as int, new.1 as int);
        assert(v == Err::<bool, Seq<AdjustPiece>>(effect(new.0, new.1, 2, false)));
        let effects = effect(new.0, new.1, 2, false);
        assert(effects.drop_last() =~= Seq::<AdjustPiece>::empty());
        assert(apply_effects(g1, effects.drop_last()) == g1);
        let e = effects.last();
        assert(e.piece.0 + 1 == new.0 && e.piece.1 + 1 == new.1);
        assert(occupied(g1, new.0 as int, new.1 as int));
        let moved = Piece::Pawn(Pawn { color, has_moved: 2 });
        assert(apply_effect(g1, e) == put(g1, new.0 as int, new.1 as int, Some(moved)));
        lemma_put_at(g1, new.0 as int, new.1 as int, Some(moved), new.0 as int, new.1 as int);
        assert(commit(g, pos, new, p, v) == apply_effect(g1, e));
    }
}

/// En passant: a pawn capture onto an empty square is legal only from the
/// capturer's fifth rank, one rank forward and one file aside, onto the square
/// just behind an enemy pawn whose move count is 2; committing it removes that
/// pawn and leaves the capturer on the destination.
pub proof fn law_en_passant(
    color: usize,
    has_moved: usize,
    g: Grid,
    pos: (usize, usize),
    new: (usize, usize),
)
    requires
        grid_wf(g),
        on_board(pos),
        on_board(new),
        !occupied(g, new.0 as int, new.1 as int),
    ensures
        is_legal(pawn_rule(color, has_moved, g, true, pos, new)) ==> {
            let pawn = Some(Piece::Pawn(Pawn { color, has_moved }));
            let after = commit(g, pos, new, pawn, pawn_rule(color, has_moved, g, true, pos, new));
            &&& pos.0 == passant_rank(color)
            &&& new.0 == pos.0 + forward(color)
            &&& dist(new.1 as int, pos.1 as int) == 1
            &&& passant_victim(g, color, pos.0 as int, new.1 as int)
            &&& at(after, pos.0 as int, new.1 as int) is None
            &&& at(after, new.0 as int, new.1 as int) == pawn
            &&& at(after, pos.0 as int, pos.1 as int) is None
        },
{
    let v = pawn_rule(color, has_moved, g, true, pos, new);
    if is_legal(v) {
        let p = Some(Piece::Pawn(Pawn { color, has_moved }));
        let g0 = put(g, new.0 as int, new.1 as int, p);
        let g1 = put(g0, pos.0 as int, pos.1 as int, None);
        let (r, f, nr, nf) = (pos.0 as int, pos.1 as int, new.0 as int, new.1 as int);
        lemma_put_at(g, nr, nf, p, nr, nf);
        lemma_put_at(g, nr, nf, p, r, nf);
        lemma_put_at(g, nr, nf, p, r, f);
        lemma_put_at(g0, r, f, None, nr, nf);
        lemma_put_at(g0, r, f, None, r, nf);
        lemma_put_at(g0, r, f, None, r, f);
        assert(v == Err::<bool, Seq<AdjustPiece>>(effect(pos.0, new.1, 0, true)));
        let effects = effect(pos.0, new.1, 0, true);
        assert(effects.drop_last() =~= Seq::<AdjustPiece>::empty());
        assert(apply_effects(g1, effects.drop_last()) == g1);
        let e = effects.last();
        assert(apply_effect(g1, e) == put(g1, r, nf, None));
        assert(commit(g, pos, new, p, v) == put(g1, r, nf, None));
        lemma_put_at(g1, r, nf, None, r, nf);
        lemma_put_at(g1, r, nf, None, nr, nf);
        lemma_put_at(g1, r, nf, None, r, f);
    }
}

/// Rook, bishop and queen moves are illegal whenever a square strictly between
/// source and destination is occupied.
pub proof fn law_sliders_blocked(
    color: usize,
    g: Grid,
    capture: bool,
    pos: (usize, usize),
    new: (usize, usize),
    k: int,
)
    requires
        0 < k < span(pos, new),
        occupied(g, toward(pos.0 as int, new.0 as int, k), toward(pos.1 as int, new.1 as int, k)),
    ensures
        rook_rule(color, g, capture, pos, new) == Ok::<bool, Seq<AdjustPiece>>(false),
        bishop_rule(g, capture, pos, new) == Ok::<bool, Seq<AdjustPiece>>(false),
        queen_rule(color, g, capture, pos, new) == Ok::<bool, Seq<AdjustPiece>>(false),
{
}

/// Castling happens only when the king stands unmoved on its home rank, the
/// rook unmoved in that rank's corner, every square between them is empty, the
/// king is not in check and neither square it crosses or lands on is attacked.
/// The king then moves two files toward the rook, the rook to the square the
/// king crossed, and every other square keeps its occupant.
pub proof fn law_castling(g: Grid, turn: usize, kingside: bool)
    requires
        grid_wf(g),
    ensures
        castle(g, turn, kingside) matches Ok(after) ==> {
            let home = home_rank(turn) as int;
            let rf = rook_file(kingside) as int;
            let kf = found_in(g, 'K', turn, 0, 64)[0].position.1 as int;
            let d = toward_rook(kingside);
            &&& 1 <= kf + d + d <= 8
            &&& at(g, home, kf) is Some
            &&& at(g, home, kf)->0.identity() == 'K'
            &&& at(g, home, kf)->0.color() == turn
            &&& at(g, home, kf)->0.moves() == 0
            &&& at(g, home, rf) is Some
            &&& at(g, home, rf)->0.identity() == 'R'
            &&& at(g, home, rf)->0.color() == turn
            &&& at(g, home, rf)->0.moves() == 0
            &&& castle_path_clear(g, home, kf, rf)
            &&& king_threat(g, turn) is None
            &&& transit_safe(g, turn, home as usize, kf as usize, kingside)
            &&& at(after, home, kf + d + d) == at(g, home, kf)
            &&& at(after, home, kf + d) == at(g, home, rf)
            &&& at(after, home, kf) is None
            &&& (rf != kf + d + d ==> at(after, home, rf) is None)
            &&& forall|r: int, f: int|
                1 <= r <= 8 && 1 <= f <= 8 && !(r == home && (f == kf || f == rf || f == kf + d
                    || f == kf + d + d)) ==> #[trigger] at(after, r, f) == at(g, r, f)
        },
{
    if castle(g, turn, kingside) is Ok {
        let home = home_rank(turn) as int;
        let rf = rook_file(kingside) as int;
        let k = (home - 1) * 8 + rf - 1;
        lemma_found_in(g, 'K', turn, 0, 64);
        lemma_found_in(g, 'R', turn, k, k + 1);
        let kings = found_in(g, 'K', turn, 0, 64);
        let kf = kings[0].position.1 as int;
        let d = toward_rook(kingside);
        assert(at(g, home, kf)->0.identity() == kings[0].piece);
        assert(k / 8 == home - 1 && k % 8 == rf - 1) by {
            if home == 1 {
                if rf == 1 {
                    assert(k == 0);
                } else {
                    assert(k == 7);
                }
            } else {
                if rf == 1 {
                    assert(k == 56);
                } else {
                    assert(k == 63);
                }
            }
        }
        let rooks = found_in(g, 'R', turn, k, k + 1);
        assert(search(g, 'R', home as usize, rf as usize, turn) == rooks);
        assert(found_in(g, 'R', turn, k, k).len() == 0);
        assert(rooks[0].position == square_of(k));
        assert(at(g, home, rf)->0.identity() == rooks[0].piece);
        let kp = at(g, home, kf);
        let rp = at(g, home, rf);
        let g1 = put(g, home, kf, None);
        let g2 = put(g1, home, rf, None);
        let g3 = put(g2, home, kf + d + d, kp);
        let after = put(g3, home, kf + d, rp);
        assert forall|r: int, f: int| 1 <= r <= 8 && 1 <= f <= 8 implies #[trigger] at(after, r, f)
            == if r == home && f == kf + d {
            rp
        } else if r == home && f == kf + d + d {
            kp
        } else if r == home && (f == kf || f == rf) {
            None
        } else {
            at(g, r, f)
        } by {
            lemma_put_at(g, home, kf, None, r, f);
            lemma_put_at(g1, home, rf, None, r, f);
            lemma_put_at(g2, home, kf + d + d, kp, r, f);
            lemma_put_at(g3, home, kf + d, rp, r, f);
        }
    }
}

/// A search of one square finds exactly the wanted piece standing there.
proof fn lemma_search_square(g: Grid, piece: char, r: usize, f: usize, color: usize)
    requires
        grid_wf(g),
        1 <= r <= 8,
        1 <= f <= 8,
        at(g, r as int, f as int) is Some,
        at(g, r as int, f as int)->0.identity() == piece,
        at(g, r as int, f as int)->0.color() == color,
    ensures
        search(g, piece, r, f, color) == seq![FoundPiece { piece, position: (r, f) }],
{
    let k = (r - 1) * 8 + f - 1;
    lemma_fundamental_div_mod_converse(k, 8, r - 1, f - 1);
    assert(found_in(g, piece, color, k, k).len() == 0);
    assert(search(g, piece, r, f, color) =~= seq![FoundPiece { piece, position: (r, f) }]);
}

/// With a single candidate that can make the move and no check, the move is
/// committed from that candidate.
proof fn lemma_play_single(g: Grid, turn: usize, pm: ParsedMove, c: FoundPiece)
    requires
        search(g, pm.piece, pm.from.0, pm.from.1, turn) == seq![c],
        can_move(g, c, pm.capture, pm.to),
        king_threat(g, turn) is None,
    ensures
        play(g, turn, pm) == Ok::<Grid, MoveError>(
            commit(
                g,
                c.position,
                pm.to,
                placed(g, c.position, pm.promotion, turn),
                verdict_for(g, c, pm.capture, pm.to),
            ),
        ),
{
    let cands = search(g, pm.piece, pm.from.0, pm.from.1, turn);
    assert(first_legal_index(g, cands, pm.capture, pm.to, 0) == 0);
    assert(first_legal_index(g, cands, pm.capture, pm.to, 1) == 1);
}

/// Through the engine: an unmoved pawn of the side to move advancing two
/// squares over empty squares, with its king not in check, lands with a move
/// count of 2; its start square empties and no other square changes.
pub proof fn law_double_step_move(g: Grid, turn: usize, pm: ParsedMove)
    requires
        grid_wf(g),
        pm.piece == 'P',
        !pm.capture,
        pm.promotion is None,
        on_board(pm.from),
        on_board(pm.to),
        pm.to.1 == pm.from.1,
        pm.to.0 == pm.from.0 + forward(turn) + forward(turn),
        at(g, pm.from.0 as int, pm.from.1 as int) == Some(Piece::Pawn(Pawn { color: turn, has_moved: 0 })),
        !occupied(g, pm.from.0 + forward(turn), pm.from.1 as int),
        !occupied(g, pm.to.0 as int, pm.to.1 as int),
        king_threat(g, turn) is None,
    ensures
        play(g, turn, pm) matches Ok(after) && {
            &&& at(after, pm.to.0 as int, pm.to.1 as int) == Some(Piece::Pawn(Pawn { color: turn, has_moved: 2 }))
            &&& at(after, pm.from.0 as int, pm.from.1 as int) is None
            &&& forall|r: int, f: int|
                1 <= r <= 8 && 1 <= f <= 8 && !(r == pm.from.0 && f == pm.from.1) && !(r == pm.to.0
                    && f == pm.to.1) ==> #[trigger] at(after, r, f) == at(g, r, f)
        },
{
    let (from, to) = (pm.from, pm.to);
    lemma_search_square(g, 'P', from.0, from.1, turn);
    let c = FoundPiece { piece: 'P', position: from };
    let v = verdict_for(g, c, false, to);
    assert(v == Err::<bool, Seq<AdjustPiece>>(effect(to.0, to.1, 2, false)));
    lemma_play_single(g, turn, pm, c);
    let p = at(g, from.0 as int, from.1 as int);
    let g0 = put(g, to.0 as int, to.1 as int, p);
    let g1 = put(g0, from.0 as int, from.1 as int, None);
    let e = effect(to.0, to.1, 2, false);
    assert(e.drop_last() =~= Seq::<AdjustPiece>::empty());
    lemma_put_at(g, to.0 as int, to.1 as int, p, to.0 as int, to.1 as int);
    lemma_put_at(g0, from.0 as int, from.1 as int, None, to.0 as int, to.1 as int);
    let moved = Some(Piece::Pawn(Pawn { color: turn, has_moved: 2 }));
    assert(apply_effects(g1, e.drop_last()) == g1);
    assert(e.last().piece.0 + 1 == to.0 && e.last().piece.1 + 1 == to.1);
    assert(occupied(g1, to.0 as int, to.1 as int));
    assert(apply_effect(g1, e.last()) == put(g1, to.0 as int, to.1 as int, moved));
    assert(apply_effects(g1, e) == put(g1, to.0 as int, to.1 as int, moved));
    let after = put(g1, to.0 as int, to.1 as int, moved);
    assert forall|r: int, f: int| 1 <= r <= 8 && 1 <= f <= 8 implies #[trigger] at(after, r, f)
        == if r == to.0 && f == to.1 {
        moved
    } else if r == from.0 && f == from.1 {
        None
    } else {
        at(g, r, f)
    } by {
        lemma_put_at(g, to.0 as int, to.1 as int, p, r, f);
        lemma_put_at(g0, from.0 as int, from.1 as int, None, r, f);
        lemma_put_at(g1, to.0 as int, to.1 as int, moved, r, f);
    }
}

/// Through the engine: a pawn of the side to move on its fifth rank capturing
/// diagonally onto the empty square behind an enemy pawn whose move count is
/// 2, with its king not in check, removes that enemy pawn; only the three
/// squares involved change.
pub proof fn law_en_passant_move(g: Grid, turn: usize, pm: ParsedMove, has_moved: usize)
    requires
        grid_wf(g),
        pm.piece == 'P',
        pm.capture,
        pm.promotion is None,
        on_board(pm.from),
        on_board(pm.to),
        pm.from.0 == passant_rank(turn),
        pm.to.0 == pm.from.0 + forward(turn),
        dist(pm.to.1 as int, pm.from.1 as int) == 1,
        at(g, pm.from.0 as int, pm.from.1 as int) == Some(Piece::Pawn(Pawn { color: turn, has_moved })),
        !occupied(g, pm.to.0 as int, pm.to.1 as int),
        passant_victim(g, turn, pm.from.0 as int, pm.to.1 as int),
        king_threat(g, turn) is None,
    ensures
        play(g, turn, pm) matches Ok(after) && {
            &&& at(after, pm.to.0 as int, pm.to.1 as int) == Some(Piece::Pawn(Pawn { color: turn, has_moved }))
            &&& at(after, pm.from.0 as int, pm.from.1 as int) is None
            &&& at(after, pm.from.0 as int, pm.to.1 as int) is None
            &&& forall|r: int, f: int|
                1 <= r <= 8 && 1 <= f <= 8 && !(r == pm.from.0 && (f == pm.from.1 || f == pm.to.1))
                    && !(r == pm.to.0 && f == pm.to.1) ==> #[trigger] at(after, r, f) == at(g, r, f)
        },
{
    let (from, to) = (pm.from, pm.to);
    lemma_search_square(g, 'P', from.0, from.1, turn);
    let c = FoundPiece { piece: 'P', position: from };
    let v = verdict_for(g, c, true, to);
    assert(v == Err::<bool, Seq<AdjustPiece>>(effect(from.0, to.1, 0, true)));
    lemma_play_single(g, turn, pm, c);
    let p = at(g, from.0 as int, from.1 as int);
    let g0 = put(g, to.0 as int, to.1 as int, p);
    let g1 = put(g0, from.0 as int, from.1 as int, None);
    let e = effect(from.0, to.1, 0, true);
    assert(e.drop_last() =~= Seq::<AdjustPiece>::empty());
    assert(apply_effects(g1, e.drop_last()) == g1);
    assert(apply_effect(g1, e.last()) == put(g1, from.0 as int, to.1 as int, None));
    assert(apply_effects(g1, e) == put(g1, from.0 as int, to.1 as int, None));
    let after = put(g1, from.0 as int, to.1 as int, None);
    assert forall|r: int, f: int| 1 <= r <= 8 && 1 <= f <= 8 implies #[trigger] at(after, r, f)
        == if r == from.0 && (f == to.1 || f == from.1) {
        None
    } else if r == to.0 && f == to.1 {
        p
    } else {
        at(g, r, f)
    } by {
        lemma_put_at(g, to.0 as int, to.1 as int, p, r, f);
        lemma_put_at(g0, from.0 as int, from.1 as int, None, r, f);
        lemma_put_at(g1, from.0 as int, to.1 as int, None, r, f);
    }
}

/// Through the engine: a pawn of the side to move one rank behind an empty
/// destination on its own file, with its king not in check, is replaced there
/// by a fresh piece of the requested kind in the mover's colour; only the two
/// squares change.
pub proof fn law_promotion_move(g: Grid, turn: usize, pm: ParsedMove, has_moved: usize)
    requires
        grid_wf(g),
        pm.piece == 'P',
        !pm.capture,
        pm.promotion matches Some(l) && prototype_of(l) is Some,
        on_board(pm.from),
        on_board(pm.to),
        pm.to.1 == pm.from.1,
        pm.to.0 == pm.from.0 + forward(turn),
        at(g, pm.from.0 as int, pm.from.1 as int) == Some(Piece::Pawn(Pawn { color: turn, has_moved })),
        !occupied(g, pm.to.0 as int, pm.to.1 as int),
        king_threat(g, turn) is None,
    ensures
        play(g, turn, pm) matches Ok(after) && {
            &&& at(after, pm.to.0 as int, pm.to.1 as int) == Some(prototype_of(pm.promotion->0)->0.remade(turn, 0))
            &&& at(after, pm.to.0 as int, pm.to.1 as int)->0.color() == turn
            &&& at(after, pm.from.0 as int, pm.from.1 as int) is None
            &&& forall|r: int, f: int|
                1 <= r <= 8 && 1 <= f <= 8 && !(r == pm.from.0 && f == pm.from.1) && !(r == pm.to.0
                    && f == pm.to.1) ==> #[trigger] at(after, r, f) == at(g, r, f)
        },
{
    let (from, to) = (pm.from, pm.to);
    lemma_search_square(g, 'P', from.0, from.1, turn);
    let c = FoundPiece { piece: 'P', position: from };
    assert(verdict_for(g, c, false, to) == Ok::<bool, Seq<AdjustPiece>>(true));
    lemma_play_single(g, turn, pm, c);
    let p = Some(prototype_of(pm.promotion->0)->0.remade(turn, 0));
    let g0 = put(g, to.0 as int, to.1 as int, p);
    let after = put(g0, from.0 as int, from.1 as int, None);
    assert forall|r: int, f: int| 1 <= r <= 8 && 1 <= f <= 8 implies #[trigger] at(after, r, f)
        == if r == from.0 && f == from.1 {
        None
    } else if r == to.0 && f == to.1 {
        p
    } else {
        at(g, r, f)
    } by {
        lemma_put_at(g, to.0 as int, to.1 as int, p, r, f);
        lemma_put_at(g0, from.0 as int, from.1 as int, None, r, f);
    }
}

/// While the side to move is in check, a move is accepted only if it lands on
/// the attacker's square and the king is safe once the mover stands there;
/// castling is refused outright.
pub proof fn law_in_check(g: Grid, turn: usize, pm: ParsedMove, kingside: bool)
    requires
        king_threat(g, turn) is Some,
    ensures
        play(g, turn, pm) is Ok ==> {
            let cands = search(g, pm.piece, pm.from.0, pm.from.1, turn);
            let c = cands[first_legal_index(g, cands, pm.capture, pm.to, 0)];
            &&& king_threat(g, turn) matches Some((_, attacker)) && pm.to == attacker.position
            &&& king_threat(shifted(g, c.position, pm.to), turn) is None
        },
        castle(g, turn, kingside) is Err,
{
}

/// Promotion to a pawn is always refused.
pub proof fn law_no_pawn_promotion(g: Grid, turn: usize, base: char, m: Seq<char>)
    requires
        m.len() == 3,
        !has_dash(m),
        m[2] == 'P',
    ensures
        move_result(g, turn, base, m) == Err::<Grid, MoveError>(MoveError::ParseFailure),
{
}

/// The game after a move: the new board and the other side to move, or, when
/// the move is refused, the game unchanged.
pub open spec fn after_move(g: Grid, turn: usize, base: char, m: Seq<char>) -> (Grid, usize) {
    match move_result(g, turn, base, m) {
        Ok(next) => (next, opponent(turn)),
        Err(_) => (g, turn),
    }
}

/// A refused move leaves the game as it was, so repeating it is refused again.
pub proof fn law_refusal_repeats(g: Grid, turn: usize, base: char, m: Seq<char>)
    requires
        move_result(g, turn, base, m) is Err,
    ensures
        after_move(g, turn, base, m) == (g, turn),
        move_result(after_move(g, turn, base, m).0, after_move(g, turn, base, m).1, base, m)
            == move_result(g, turn, base, m),
{
}

} // verus!
