//! Reading move text: castling tokens, promotions, captures and plain moves.
use vstd::prelude::*;

use crate::pieces::{prototype, prototype_of, _WHITE_PIECE};
use crate::rules::forward;

verus! {

/// A move read from text, before any board is consulted. Squares are 1-based;
/// a 0 in `from` means that coordinate was not given.
#[derive(Debug, Clone, Copy, PartialEq, Eq)]
pub struct ParsedMove {
    pub piece: char,
    pub from: (usize, usize),
    pub to: (usize, usize),
    pub capture: bool,
    pub promotion: Option<char>,
}

/// What a move text asks for.
#[derive(Debug, Clone, Copy, PartialEq, Eq)]
pub enum Request {
    /// Castling; `true` on the king's side.
    Castle(bool),
    Move(ParsedMove),
    /// Text that names no move.
    Invalid,
}

pub open spec fn is_letter(c: char) -> bool {
    (97 <= c as u32 <= 122) || (65 <= c as u32 <= 90)
}

pub open spec fn is_digit(c: char) -> bool {
    48 <= c as u32 <= 57
}

/// The value of the last digit in `s`, or 0.
pub open spec fn rank_in(s: Seq<char>) -> int
    decreases s.len(),
{
    if s.len() == 0 {
        0
    } else if is_digit(s.last()) {
        s.last() as u32 - 48
    } else {
        rank_in(s.drop_last())
    }
}

/// The file that the last letter in `s` names, counting `base` as file 1, or 0.
pub open spec fn file_in(s: Seq<char>, base: char) -> int
    decreases s.len(),
{
    if s.len() == 0 {
        0
    } else if is_letter(s.last()) {
        s.last() as u32 - base as u32 + 1
    } else {
        file_in(s.drop_last(), base)
    }
}

/// The index of the first `'x'` in `m` at or after `i`, or `m.len()`.
pub open spec fn first_x(m: Seq<char>, i: int) -> int
    decreases m.len() - i,
{
    if i < 0 || i >= m.len() {
        m.len() as int
    } else if m[i] == 'x' {
        i
    } else {
        first_x(m, i + 1)
    }
}

pub open spec fn has_dash(m: Seq<char>) -> bool {
    exists|i: int| 0 <= i < m.len() && m[i] == '-'
}

/// `0-0`, castling on the king's side.
pub open spec fn short_castle(m: Seq<char>) -> bool {
    m.len() == 3 && m[0] == '0' && m[1] == '-' && m[2] == '0'
}

/// `0-0-0`, castling on the queen's side.
pub open spec fn long_castle(m: Seq<char>) -> bool {
    m.len() == 5 && m[0] == '0' && m[1] == '-' && m[2] == '0' && m[3] == '-' && m[4] == '0'
}

/// A promotion: destination file and rank, then the new kind's letter. The pawn
/// comes from the rank behind the destination, as seen by the side to move.
pub open spec fn parse_promotion(m: Seq<char>, base: char, turn: usize) -> Request {
    let rank = rank_in(m.subrange(0, 2));
    let file = file_in(m.subrange(0, 2), base);
    let from_rank = rank - forward(turn);
    if m[2] == 'P' || prototype_of(m[2]) is None || !(1 <= rank <= 8 && 1 <= file <= 8 && 1
        <= from_rank <= 8) {
        Request::Invalid
    } else {
        Request::Move(
            ParsedMove {
                piece: 'P',
                from: (from_rank as usize, file as usize),
                to: (rank as usize, file as usize),
                capture: false,
                promotion: Some(m[2]),
            },
        )
    }
}

/// A pawn capture written without a kind letter: the pawn's file, the capture
/// mark, then the destination. The pawn comes from the rank behind the
/// destination, as seen by the side to move.
pub open spec fn parse_pawn_capture(m: Seq<char>, base: char, turn: usize) -> Request {
    let file = file_in(m.subrange(0, 1), base);
    let after = m.subrange(2, m.len() as int);
    let tr = rank_in(after);
    let tf = file_in(after, base);
    let fr = tr - forward(turn);
    if 1 <= file <= 8 && 1 <= tr <= 8 && 1 <= tf <= 8 && 1 <= fr <= 8 {
        Request::Move(
            ParsedMove {
                piece: 'P',
                from: (fr as usize, file as usize),
                to: (tr as usize, tf as usize),
                capture: true,
                promotion: None,
            },
        )
    } else {
        Request::Invalid
    }
}

/// A move with a kind letter: the letter, an origin part, and a destination
/// part, split at the capture mark when there is one. The origin must give a
/// rank; it may give a file as well.
pub open spec fn parse_plain(m: Seq<char>, base: char) -> Request {
    let piece = m[0];
    let body = m.subrange(1, m.len() as int);
    let i = first_x(m, 0);
    let capture = i < m.len();
    if capture && i == 0 {
        Request::Invalid
    } else {
        let before = if capture {
            body.subrange(0, i - 1)
        } else if body.len() == 4 {
            body.subrange(0, 2)
        } else {
            body.subrange(0, 1)
        };
        let after = if capture {
            body.subrange(i, body.len() as int)
        } else if body.len() == 4 {
            body.subrange(2, 4)
        } else {
            body.subrange(1, body.len() as int)
        };
        let fr = rank_in(before);
        let ff = file_in(before, base);
        let tr = rank_in(after);
        let tf = file_in(after, base);
        if 1 <= fr <= 8 && 0 <= ff <= 8 && 1 <= tr <= 8 && 1 <= tf <= 8 {
            Request::Move(
                ParsedMove {
                    piece,
                    from: (fr as usize, ff as usize),
                    to: (tr as usize, tf as usize),
                    capture,
                    promotion: None,
                },
            )
        } else {
            Request::Invalid
        }
    }
}

pub open spec fn parse_request(m: Seq<char>, base: char, turn: usize) -> Request {
    if has_dash(m) {
        if short_castle(m) {
            Request::Castle(true)
        } else if long_castle(m) {
            Request::Castle(false)
        } else {
            Request::Invalid
        }
    } else if m.len() == 3 {
        parse_promotion(m, base, turn)
    } else if m.len() < 2 {
        Request::Invalid
    } else if m[1] == 'x' {
        parse_pawn_capture(m, base, turn)
    } else {
        parse_plain(m, base)
    }
}

fn is_letter_char(c: char) -> (r: bool)
    ensures
        r == is_letter(c),
{
    let u = c as u32;
    (97 <= u && u <= 122) || (65 <= u && u <= 90)
}

fn is_digit_char(c: char) -> (r: bool)
    ensures
        r == is_digit(c),
{
    let u = c as u32;
    48 <= u && u <= 57
}

/// The rank and file named by `m[a .. b]`.
fn coords(m: &Vec<char>, a: usize, b: usize, base: char) -> (r: (i64, i64))
    requires
        a <= b <= m@.len(),
    ensures
        r.0 == rank_in(m@.subrange(a as int, b as int)),
        r.1 == file_in(m@.subrange(a as int, b as int), base),
        0 <= r.0 <= 9,
        -0x110000 <= r.1 <= 0x110000,
{
    let mut rank: i64 = 0;
    let mut file: i64 = 0;
    let mut j: usize = a;
    while j < b
        invariant
            a <= j <= b <= m@.len(),
            rank == rank_in(m@.subrange(a as int, j as int)),
            file == file_in(m@.subrange(a as int, j as int), base),
            0 <= rank <= 9,
            -0x110000 <= file <= 0x110000,
        decreases b - j,
    {
        let c = m[j];
        let ghost next = m@.subrange(a as int, j + 1);
        assert(next.drop_last() =~= m@.subrange(a as int, j as int));
        assert(next.last() == c);
        if is_digit_char(c) {
            rank = (c as u32 - 48) as i64;
        }
        if is_letter_char(c) {
            file = (c as u32) as i64 - (base as u32) as i64 + 1;
        }
        j += 1;
    }
    (rank, file)
}

/// Reads the text `m` for the side `turn`, files counted from `base`.
pub fn parse_chars(m: &Vec<char>, base: char, turn: usize) -> (r: Request)
    ensures
        r == parse_request(m@, base, turn),
{
    let n = m.len();
    let mut dash = false;
    let mut x: usize = n;
    let mut i: usize = 0;
    while i < n
        invariant
            n == m@.len(),
            0 <= i <= n,
            dash == exists|k: int| 0 <= k < i && m@[k] == '-',
            x == n ==> first_x(m@, 0) == first_x(m@, i as int),
            x <= n,
            x < n ==> x < i && first_x(m@, 0) == x,
        decreases n - i,
    {
        if m[i] == '-' {
            dash = true;
        }
        if x == n && m[i] == 'x' {
            x = i;
        }
        i += 1;
    }
    assert(first_x(m@, n as int) == n);
    let ghost fx = first_x(m@, 0);
    assert(x <= n);
    assert(x < n <==> fx < n);
    if dash {
        if n == 3 && m[0] == '0' && m[1] == '-' && m[2] == '0' {
            return Request::Castle(true);
        }
        if n == 5 && m[0] == '0' && m[1] == '-' && m[2] == '0' && m[3] == '-' && m[4] == '0' {
            return Request::Castle(false);
        }
        return Request::Invalid;
    }
    if n == 3 {
        let (rank, file) = coords(m, 0, 2, base);
        let from_rank: i64 = if turn == _WHITE_PIECE {
            rank - 1
        } else {
            rank + 1
        };
        let letter = m[2];
        if letter == 'P' || prototype(letter).is_none() || !(1 <= rank && rank <= 8 && 1 <= file
            && file <= 8 && 1 <= from_rank && from_rank <= 8) {
            return Request::Invalid;
        }
        return Request::Move(
            ParsedMove {
                piece: 'P',
                from: (from_rank as usize, file as usize),
                to: (rank as usize, file as usize),
                capture: false,
                promotion: Some(letter),
            },
        );
    }
    if n < 2 {
        return Request::Invalid;
    }
    if m[1] == 'x' {
        let (_, file) = coords(m, 0, 1, base);
        let (tr, tf) = coords(m, 2, n, base);
        let fr: i64 = if turn == _WHITE_PIECE {
            tr - 1
        } else {
            tr + 1
        };
        if 1 <= file && file <= 8 && 1 <= tr && tr <= 8 && 1 <= tf && tf <= 8 && 1 <= fr && fr
            <= 8 {
            return Request::Move(
                ParsedMove {
                    piece: 'P',
                    from: (fr as usize, file as usize),
                    to: (tr as usize, tf as usize),
                    capture: true,
                    promotion: None,
                },
            );
        }
        return Request::Invalid;
    }
    let piece = m[0];
    let off: usize = 1;
    let body_len = n - off;
    let ghost body = m@.subrange(off as int, n as int);
    let capture = x < n;
    assert(capture <==> fx < m@.len());
    if capture && x == 0 {
        return Request::Invalid;
    }
    let (b0, b1, a0, a1) = if capture {
        (0, x - 1, x, body_len)
    } else if body_len == 4 {
        (0, 2, 2, 4)
    } else {
        (0, 1, 1, body_len)
    };
    assert(body.subrange(b0 as int, b1 as int) =~= m@.subrange(off + b0, off + b1));
    assert(body.subrange(a0 as int, a1 as int) =~= m@.subrange(off + a0, off + a1));
    let (fr, ff) = coords(m, off + b0, off + b1, base);
    let (tr, tf) = coords(m, off + a0, off + a1, base);
    if 1 <= fr && fr <= 8 && 0 <= ff && ff <= 8 && 1 <= tr && tr <= 8 && 1 <= tf && tf <= 8 {
        Request::Move(
            ParsedMove {
                piece,
                from: (fr as usize, ff as usize),
                to: (tr as usize, tf as usize),
                capture,
                promotion: None,
            },
        )
    } else {
        Request::Invalid
    }
}

} // verus!
