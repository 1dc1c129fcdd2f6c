//! The 8×8 board and its set-up.
use vstd::prelude::*;
use vstd::string::StrSliceExecFns;

use crate::pieces::{prototype, prototype_of, Piece, PieceCommon, _BLACK_PIECE};

verus! {

/// The board as a value: rows by storage index (rank - 1), then squares by file - 1.
pub type Grid = Seq<Seq<Option<Piece>>>;

/// What stands on the square at 1-based `(rank, file)`.
pub open spec fn at(g: Grid, rank: int, file: int) -> Option<Piece> {
    g[rank - 1][file - 1]
}

pub open spec fn occupied(g: Grid, rank: int, file: int) -> bool {
    at(g, rank, file) is Some
}

/// `g` with the square at 1-based `(rank, file)` holding `v`.
pub open spec fn put(g: Grid, rank: int, file: int, v: Option<Piece>) -> Grid {
    g.update(rank - 1, g[rank - 1].update(file - 1, v))
}

/// Eight rows of eight squares.
pub open spec fn grid_wf(g: Grid) -> bool {
    &&& g.len() == 8
    &&& forall|i: int| 0 <= i < 8 ==> #[trigger] g[i].len() == 8
}

/// The grid with every square empty.
pub open spec fn empty_grid() -> Grid {
    Seq::new(8, |i: int| Seq::new(8, |j: int| None))
}

/// The layout text without its line breaks: one letter per square.
pub open spec fn layout_letters(s: Seq<char>) -> Seq<char>
    decreases s.len(),
{
    if s.len() == 0 {
        seq![]
    } else if s.last() == '\n' {
        layout_letters(s.drop_last())
    } else {
        layout_letters(s.drop_last()).push(s.last())
    }
}

/// At most eight ranks' worth of letters, each naming a kind.
pub open spec fn layout_ok(s: Seq<char>) -> bool {
    let l = layout_letters(s);
    l.len() <= 64 && forall|i: int| 0 <= i < l.len() ==> prototype_of(#[trigger] l[i]) is Some
}

/// `g` after placing the letters in order: the `k`-th white at rank `k / 8 + 1`,
/// file `k % 8 + 1`, and its black twin on the mirrored rank.
pub open spec fn populated(g: Grid, l: Seq<char>) -> Grid
    decreases l.len(),
{
    if l.len() == 0 {
        g
    } else {
        let k = l.len() - 1;
        let white = prototype_of(l[k])->0;
        let g1 = put(populated(g, l.drop_last()), k / 8 + 1, k % 8 + 1, Some(white));
        put(g1, 8 - k / 8, k % 8 + 1, Some(white.remade(_BLACK_PIECE, white.moves())))
    }
}

/// The letters of a prefix of a layout are a prefix of its letters.
pub proof fn lemma_letters_prefix(s: Seq<char>, i: int)
    requires
        0 <= i <= s.len(),
    ensures
        layout_letters(s.subrange(0, i)).len() <= layout_letters(s).len(),
        forall|j: int|
            0 <= j < layout_letters(s.subrange(0, i)).len() ==> layout_letters(s.subrange(0, i))[j]
                == layout_letters(s)[j],
    decreases s.len() - i,
{
    if i < s.len() {
        lemma_letters_prefix(s, i + 1);
        assert(s.subrange(0, i + 1).drop_last() =~= s.subrange(0, i));
    } else {
        assert(s.subrange(0, i) =~= s);
    }
}

/// Whether `layout` is a text `Board::populate_board` accepts.
pub fn layout_fits(layout: &str) -> (r: bool)
    ensures
        r == layout_ok(layout@),
{
    let n = layout.unicode_len();
    let mut k: usize = 0;
    let mut i: usize = 0;
    while i < n
        invariant
            n == layout@.len(),
            0 <= i <= n,
            k == layout_letters(layout@.subrange(0, i as int)).len(),
            k <= 64,
            forall|j: int|
                0 <= j < k ==> prototype_of(#[trigger] layout_letters(layout@.subrange(0, i as int))[j]) is Some,
        decreases n - i,
    {
        let c = layout.get_char(i);
        proof {
            let next = layout@.subrange(0, i + 1);
            assert(next.drop_last() =~= layout@.subrange(0, i as int));
            lemma_letters_prefix(layout@, i + 1);
        }
        if c != '\n' {
            if k == 64 || prototype(c).is_none() {
                proof {
                    lemma_letters_prefix(layout@, i + 1);
                    let next = layout_letters(layout@.subrange(0, i + 1));
                    assert(next[k as int] == c);
                    assert(layout_letters(layout@)[k as int] == c);
                }
                return false;
            }
            k += 1;
        }
        i += 1;
    }
    assert(layout@.subrange(0, n as int) =~= layout@);
    true
}

#[derive(Debug, Clone)]
pub struct Board {
    pub table: Vec<Vec<Option<Piece>>>,
}

impl View for Board {
    type V = Grid;

    open spec fn view(&self) -> Grid {
        self.table@.map_values(|row: Vec<Option<Piece>>| row@)
    }
}

/// Relies on array2d's `Array2D::filled_with` and `Array2D::as_rows`: eight rows
/// of eight clones of `None`.
#[verifier::external_body]
fn empty_table() -> (r: Vec<Vec<Option<Piece>>>)
    ensures
        r@.len() == 8,
        forall|i: int| 0 <= i < 8 ==> (#[trigger] r@[i])@ == Seq::<Option<Piece>>::new(8, |j: int| None),
{
    array2d::Array2D::filled_with(None, 8, 8).as_rows()
}

impl Board {
    pub open spec fn wf(&self) -> bool {
        grid_wf(self@)
    }

    /// An empty board.
    pub fn new() -> (r: Board)
        ensures
            r.wf(),
            r@ == empty_grid(),
    {
        let table = empty_table();
        let r = Board { table };
        assert(r@ =~= empty_grid());
        r
    }

    /// Sets up pieces from a layout text, read rank by rank from rank 1 for
    /// white and mirrored from rank 8 for black.
    pub fn populate_board(&mut self, layout: &str)
        requires
            old(self).wf(),
            layout_ok(layout@),
        ensures
            final(self).wf(),
            final(self)@ == populated(old(self)@, layout_letters(layout@)),
    {
        let ghost g0 = self@;
        let n = layout.unicode_len();
        let mut k: usize = 0;
        let mut i: usize = 0;
        while i < n
            invariant
                self.wf(),
                n == layout@.len(),
                0 <= i <= n,
                layout_ok(layout@),
                k == layout_letters(layout@.subrange(0, i as int)).len(),
                self@ == populated(g0, layout_letters(layout@.subrange(0, i as int))),
                layout_letters(layout@.subrange(0, i as int)).len() <= layout_letters(layout@).len(),
                forall|j: int|
                    0 <= j < k ==> layout_letters(layout@.subrange(0, i as int))[j]
                        == layout_letters(layout@)[j],
            decreases n - i,
        {
            let c = layout.get_char(i);
            proof {
                let pre = layout@.subrange(0, i as int);
                let next = layout@.subrange(0, i + 1);
                assert(next.drop_last() =~= pre);
                lemma_letters_prefix(layout@, i + 1);
            }
            if c != '\n' {
                proof {
                    let pre = layout_letters(layout@.subrange(0, i as int));
                    let next = layout_letters(layout@.subrange(0, i + 1));
                    assert(next == pre.push(c));
                    assert(next.drop_last() =~= pre);
                    assert(next[k as int] == c);
                    assert(layout_letters(layout@)[k as int] == c);
                }
                let white = prototype(c).unwrap();
                let mut black = white;
                black.set_color(_BLACK_PIECE);
                self.set_square(k / 8 + 1, k % 8 + 1, Some(white));
                self.set_square(8 - k / 8, k % 8 + 1, Some(black));
                k += 1;
            }
            i += 1;
        }
        assert(layout@.subrange(0, n as int) =~= layout@);
    }

    /// The occupant of the square at 1-based `(rank, file)`.
    pub fn square(&self, rank: usize, file: usize) -> (r: Option<Piece>)
        requires
            self.wf(),
            1 <= rank <= 8,
            1 <= file <= 8,
        ensures
            r == at(self@, rank as int, file as int),
    {
        assert(self@[rank - 1] == self.table@[rank - 1]@);
        self.table[rank - 1][file - 1]
    }

    /// Puts `v` on the square at 1-based `(rank, file)`.
    pub fn set_square(&mut self, rank: usize, file: usize, v: Option<Piece>)
        requires
            old(self).wf(),
            1 <= rank <= 8,
            1 <= file <= 8,
        ensures
            final(self).wf(),
            final(self)@ == put(old(self)@, rank as int, file as int, v),
    {
        assert(self@[rank - 1] == self.table@[rank - 1]@);
        self.table[rank - 1][file - 1] = v;
        assert(self@ =~= put(old(self)@, rank as int, file as int, v));
    }

    /// A deep copy of the board.
    pub fn copy(&self) -> (r: Board)
        requires
            self.wf(),
        ensures
            r.wf(),
            r@ == self@,
    {
        let mut table: Vec<Vec<Option<Piece>>> = Vec::new();
        let mut i: usize = 0;
        while i < 8
            invariant
                self.wf(),
                0 <= i <= 8,
                table@.len() == i,
                forall|k: int| 0 <= k < i ==> (#[trigger] table@[k])@ == self@[k],
            decreases 8 - i,
        {
            let mut row: Vec<Option<Piece>> = Vec::new();
            let mut j: usize = 0;
            while j < 8
                invariant
                    self.wf(),
                    0 <= i < 8,
                    0 <= j <= 8,
                    row@ == self@[i as int].subrange(0, j as int),
                decreases 8 - j,
            {
                assert(self@[i as int] == self.table@[i as int]@);
                row.push(self.table[i][j]);
                j += 1;
                assert(row@ =~= self@[i as int].subrange(0, j as int));
            }
            assert(row@ =~= self@[i as int]);
            table.push(row);
            i += 1;
        }
        let r = Board { table };
        assert(r@ =~= self@);
        r
    }
}

} // verus!
