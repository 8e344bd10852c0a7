//! The playing field: a 20x10 grid of optional cell colors that answers
//! collision queries and performs locking and line clearing.

use crate::piece::{lemma_shape_bounds, shape, Piece, TetrominoType};
use vstd::prelude::*;

verus! {

/// Number of columns of the playing field.
pub const BOARD_WIDTH: usize = 10;

/// Number of rows of the playing field.
pub const BOARD_HEIGHT: usize = 20;

/// The grid of locked cells; `None` is an empty cell, `Some(kind)` carries
/// the kind of the piece that locked there.
pub struct Board {
    cells: Vec<Vec<Option<TetrominoType>>>,
}

/// The mathematical contents of a grid held as a vector of rows.
pub open spec fn grid_of(cells: Seq<Vec<Option<TetrominoType>>>) -> Seq<
    Seq<Option<TetrominoType>>,
> {
    cells.map_values(|row: Vec<Option<TetrominoType>>| row@)
}

/// A row with every column occupied.
pub open spec fn row_full(row: Seq<Option<TetrominoType>>) -> bool {
    forall|x: int| 0 <= x < row.len() ==> (#[trigger] row[x]) is Some
}

/// A row with every column empty.
pub open spec fn empty_row() -> Seq<Option<TetrominoType>> {
    Seq::new(BOARD_WIDTH as nat, |x: int| None::<TetrominoType>)
}

/// A grid with every cell empty.
pub open spec fn empty_grid() -> Seq<Seq<Option<TetrominoType>>> {
    Seq::new(BOARD_HEIGHT as nat, |y: int| empty_row())
}

/// The rows of `rows` that are not full, in their original order.
pub open spec fn kept_rows(rows: Seq<Seq<Option<TetrominoType>>>) -> Seq<
    Seq<Option<TetrominoType>>,
>
    decreases rows.len(),
{
    if rows.len() == 0 {
        Seq::empty()
    } else if row_full(rows[0]) {
        kept_rows(rows.drop_first())
    } else {
        seq![rows[0]] + kept_rows(rows.drop_first())
    }
}

/// How many rows of `rows` are full.
pub open spec fn num_cleared(rows: Seq<Seq<Option<TetrominoType>>>) -> int {
    rows.len() - kept_rows(rows).len()
}

/// The grid after compaction: the surviving rows slide to the bottom and
/// the vacated rows at the top are empty.
pub open spec fn cleared_rows(rows: Seq<Seq<Option<TetrominoType>>>) -> Seq<
    Seq<Option<TetrominoType>>,
> {
    Seq::new(num_cleared(rows) as nat, |y: int| empty_row()) + kept_rows(rows)
}

/// The grid after writing the in-bounds blocks of `p` into `rows`.
pub open spec fn lock_rows(rows: Seq<Seq<Option<TetrominoType>>>, p: Piece) -> Seq<
    Seq<Option<TetrominoType>>,
> {
    Seq::new(
        rows.len(),
        |y: int|
            Seq::new(
                rows[y].len(),
                |x: int|
                    if p.covers(x, y) {
                        Some(p.kind)
                    } else {
                        rows[y][x]
                    },
            ),
    )
}

impl Board {
    /// The mathematical contents of the grid, row by row.
    pub closed spec fn grid(self) -> Seq<Seq<Option<TetrominoType>>> {
        grid_of(self.cells@)
    }

    /// The grid has exactly `BOARD_HEIGHT` rows of `BOARD_WIDTH` cells.
    pub open spec fn wf(self) -> bool {
        &&& self.grid().len() == BOARD_HEIGHT as int
        &&& forall|y: int|
            0 <= y < BOARD_HEIGHT as int ==> (#[trigger] self.grid()[y]).len() == BOARD_WIDTH as int
    }

    /// Block `i` of a piece of the given kind and rotation, placed at
    /// `(px, py)`, lands on a legal cell: inside the columns, above the
    /// floor, and, when on the visible grid, on an empty cell.  Rows above
    /// the top (`y < 0`) are legal regardless of occupancy.
    pub open spec fn block_fits_at(
        self,
        kind: TetrominoType,
        rotation: int,
        px: int,
        py: int,
        i: int,
    ) -> bool {
        let x = px + shape(kind, rotation)[i].0;
        let y = py + shape(kind, rotation)[i].1;
        &&& 0 <= x < BOARD_WIDTH as int
        &&& y < BOARD_HEIGHT as int
        &&& (0 <= y ==> self.grid()[y][x] is None)
    }

    /// A piece of the given kind and rotation fits at `(px, py)`.
    pub open spec fn fits_at(
        self,
        kind: TetrominoType,
        rotation: int,
        px: int,
        py: int,
    ) -> bool {
        forall|i: int| 0 <= i < 4 ==> self.block_fits_at(kind, rotation, px, py, i)
    }

    /// The piece fits the board at its own position.
    pub open spec fn spec_fits(self, p: Piece) -> bool {
        self.fits_at(p.kind, p.rotation as int, p.x as int, p.y as int)
    }

    /// An entirely empty board.
    pub fn new() -> (b: Board)
        ensures
            b.wf(),
            b.grid() == empty_grid(),
    {
        let mut cells: Vec<Vec<Option<TetrominoType>>> = Vec::new();
        let mut y: usize = 0;
        while y < BOARD_HEIGHT
            invariant
                y <= BOARD_HEIGHT,
                cells@.len() == y as int,
                forall|j: int| 0 <= j < y as int ==> (#[trigger] cells@[j])@ == empty_row(),
            decreases BOARD_HEIGHT - y,
        {
            cells.push(empty_row_vec());
            y += 1;
        }
        let b = Board { cells };
        proof {
            assert(b.grid() =~~= empty_grid());
        }
        b
    }

    /// Whether every block of `piece` lands on a legal cell, per
    /// [`Board::spec_fits`].
    pub fn fits(&self, piece: &Piece) -> (r: bool)
        requires
            self.wf(),
            piece.wf(),
        ensures
            r == self.spec_fits(*piece),
    {
        let offs = piece.offsets();
        let mut i: usize = 0;
        while i < 4
            invariant
                self.wf(),
                piece.wf(),
                i <= 4,
                offs@ == shape(piece.kind, piece.rotation as int),
                forall|j: int|
                    0 <= j < i as int ==> self.block_fits_at(
                        piece.kind,
                        piece.rotation as int,
                        piece.x as int,
                        piece.y as int,
                        j,
                    ),
            decreases 4 - i,
        {
            let (dx, dy) = offs[i];
            let x: i64 = piece.x as i64 + dx as i64;
            let y: i64 = piece.y as i64 + dy as i64;
            if x < 0 || x >= BOARD_WIDTH as i64 || y >= BOARD_HEIGHT as i64 {
                proof {
                    assert(!self.block_fits_at(
                        piece.kind,
                        piece.rotation as int,
                        piece.x as int,
                        piece.y as int,
                        i as int,
                    ));
                }
                return false;
            }
            if y >= 0 {
                if self.cells[y as usize][x as usize].is_some() {
                    proof {
                        assert(!self.block_fits_at(
                            piece.kind,
                            piece.rotation as int,
                            piece.x as int,
                            piece.y as int,
                            i as int,
                        ));
                    }
                    return false;
                }
            }
            i += 1;
        }
        true
    }
}

/// Block `i` of `p` occupies `(x, y)`, for some `i < n`.
spec fn covers_upto(p: Piece, x: int, y: int, n: int) -> bool {
    exists|i: int| 0 <= i < n && p.block_x(i) == x && p.block_y(i) == y
}

/// The grid after writing the in-bounds cells of the first `n` blocks.
spec fn lock_rows_upto(rows: Seq<Seq<Option<TetrominoType>>>, p: Piece, n: int) -> Seq<
    Seq<Option<TetrominoType>>,
> {
    Seq::new(
        rows.len(),
        |y: int|
            Seq::new(
                rows[y].len(),
                |x: int|
                    if covers_upto(p, x, y, n) {
                        Some(p.kind)
                    } else {
                        rows[y][x]
                    },
            ),
    )
}

impl Board {
    /// The grid after the piece's in-bounds blocks are written into it;
    /// blocks above the visible top, or otherwise out of bounds, are
    /// silently skipped.
    pub fn lock_piece(&mut self, piece: &Piece)
        requires
            old(self).wf(),
            piece.wf(),
        ensures
            final(self).wf(),
            final(self).grid() == lock_rows(old(self).grid(), *piece),
    {
        let offs = piece.offsets();
        proof {
            lemma_shape_bounds(piece.kind, piece.rotation as int);
            assert(self.grid() =~~= lock_rows_upto(old(self).grid(), *piece, 0));
        }
        let mut i: usize = 0;
        while i < 4
            invariant
                self.wf(),
                piece.wf(),
                i <= 4,
                offs@ == shape(piece.kind, piece.rotation as int),
                self.grid() == lock_rows_upto(old(self).grid(), *piece, i as int),
                old(self).wf(),
            decreases 4 - i,
        {
            let ghost g0 = old(self).grid();
            let ghost p = *piece;
            let ghost gi = i as int;
            let (dx, dy) = offs[i];
            let bx: i64 = piece.x as i64 + dx as i64;
            let by: i64 = piece.y as i64 + dy as i64;
            proof {
                lemma_lock_step(g0, p, gi);
                assert(bx as int == p.block_x(gi) && by as int == p.block_y(gi));
            }
            if 0 <= bx && bx < BOARD_WIDTH as i64 && 0 <= by && by < BOARD_HEIGHT as i64 {
                let ghost prevc = self.cells@;
                proof {
                    assert(self.grid()[by as int] == self.cells@[by as int]@);
                    assert(g0[by as int].len() == BOARD_WIDTH as int);
                    assert(self.grid()[by as int].len() == BOARD_WIDTH as int);
                }
                self.cells[by as usize][bx as usize] = Some(piece.kind);
                proof {
                    assert(self.cells@[by as int]@ == prevc[by as int]@.update(
                        bx as int,
                        Some(p.kind),
                    ));
                    assert forall|t: int| 0 <= t < self.grid().len() implies self.grid()[t]
                        == lock_rows_upto(g0, p, gi + 1)[t] by {
                        if t != by as int {
                            assert(self.cells@[t] == prevc[t]);
                        }
                    }
                    assert(self.grid() =~= lock_rows_upto(g0, p, gi + 1));
                }
            } else {
                proof {
                    if 0 <= by && by < BOARD_HEIGHT as i64 {
                        assert(g0[by as int].len() == BOARD_WIDTH as int);
                    }
                    assert(lock_rows_upto(g0, p, gi + 1) == lock_rows_upto(g0, p, gi));
                }
            }
            i += 1;
        }
        proof {
            assert(lock_rows_upto(old(self).grid(), *piece, 4) =~~= lock_rows(
                old(self).grid(),
                *piece,
            ));
        }
    }

    /// Remove every full row, slide the rows above each down, and refill
    /// the vacated rows at the top with empty rows; the count of removed
    /// rows is returned.
    pub fn clear_full_lines(&mut self) -> (cleared: u32)
        requires
            old(self).wf(),
        ensures
            final(self).wf(),
            final(self).grid() == cleared_rows(old(self).grid()),
            cleared as int == num_cleared(old(self).grid()),
            cleared <= BOARD_HEIGHT as u32,
    {
        let ghost orig = old(self).grid();
        let mut cleared: u32 = 0;
        let mut y: usize = 0;
        while y < self.cells.len()
            invariant
                old(self).wf(),
                cleared as int + y as int <= BOARD_HEIGHT as int,
                self.cells@.len() == BOARD_HEIGHT as int - cleared as int,
                self.grid() == kept_rows(orig.take(y as int + cleared as int)) + orig.skip(
                    y as int + cleared as int,
                ),
                y as int == kept_rows(orig.take(y as int + cleared as int)).len(),
                orig == old(self).grid(),
            decreases BOARD_HEIGHT - y - cleared,
        {
            let ghost k = y as int + cleared as int;
            let ghost prevc = self.cells@;
            let ghost prevg = self.grid();
            proof {
                lemma_kept_rows_add(orig.take(k), seq![orig[k]]);
                lemma_kept_rows_single(orig[k]);
                assert(orig.take(k + 1) =~= orig.take(k) + seq![orig[k]]);
                assert(self.grid()[y as int] == orig[k]);
                assert(self.grid()[y as int] == self.cells@[y as int]@);
                assert(orig[k].len() == BOARD_WIDTH as int);
            }
            if row_is_full(&self.cells[y]) {
                self.cells.remove(y);
                cleared += 1;
                proof {
                    assert(self.cells@ == prevc.remove(y as int));
                    assert forall|t: int| 0 <= t < self.grid().len() implies self.grid()[t]
                        == prevg.remove(y as int)[t] by {
                        if t < y as int {
                            assert(self.cells@[t] == prevc[t]);
                        } else {
                            assert(self.cells@[t] == prevc[t + 1]);
                        }
                    }
                    assert(self.grid() =~= prevg.remove(y as int));
                    assert(self.grid() =~= kept_rows(orig.take(k + 1)) + orig.skip(k + 1));
                }
            } else {
                y += 1;
                proof {
                    assert(kept_rows(orig.take(k + 1)) == kept_rows(orig.take(k)) + seq![orig[k]]);
                    assert(self.grid() =~= kept_rows(orig.take(k + 1)) + orig.skip(k + 1));
                }
            }
        }
        proof {
            assert(orig.take(y as int + cleared as int) =~= orig);
            assert(orig.skip(y as int + cleared as int) =~= Seq::<
                Seq<Option<TetrominoType>>,
            >::empty());
            assert(self.grid() =~= kept_rows(orig));
            lemma_kept_rows_wf(orig);
        }
        let mut j: u32 = 0;
        while j < cleared
            invariant
                j <= cleared,
                cleared as int == num_cleared(orig),
                cleared as int <= BOARD_HEIGHT as int,
                self.cells@.len() == j as int + kept_rows(orig).len(),
                self.grid() == Seq::new(j as nat, |y: int| empty_row()) + kept_rows(orig),
                orig == old(self).grid(),
                old(self).wf(),
            decreases cleared - j,
        {
            let row = empty_row_vec();
            let ghost prevc = self.cells@;
            let ghost prevg = self.grid();
            self.cells.insert(0, row);
            j += 1;
            proof {
                assert(self.cells@ == prevc.insert(0, self.cells@[0]));
                assert(self.cells@[0]@ == empty_row());
                assert forall|t: int| 0 <= t < self.grid().len() implies self.grid()[t] == (
                Seq::new(j as nat, |y: int| empty_row()) + kept_rows(orig))[t] by {
                    if t > 0 {
                        assert(self.cells@[t] == prevc[t - 1]);
                        assert(self.grid()[t] == prevg[t - 1]);
                    }
                }
                assert(self.grid() =~= Seq::new(j as nat, |y: int| empty_row()) + kept_rows(orig));
            }
        }
        proof {
            assert(self.grid() =~= cleared_rows(orig));
            lemma_kept_rows_wf(orig);
        }
        cleared
    }

    /// A full-grid snapshot with the piece's blocks overlaid on the locked
    /// cells, for a renderer; the board itself is not changed.
    pub fn merged_with_piece(&self, piece: &Piece) -> (r: Vec<Vec<Option<TetrominoType>>>)
        requires
            self.wf(),
            piece.wf(),
        ensures
            grid_of(r@) == lock_rows(self.grid(), *piece),
    {
        let mut copy: Vec<Vec<Option<TetrominoType>>> = Vec::new();
        let mut y: usize = 0;
        while y < BOARD_HEIGHT
            invariant
                self.wf(),
                y <= BOARD_HEIGHT,
                copy@.len() == y as int,
                forall|j: int| 0 <= j < y as int ==> (#[trigger] copy@[j])@ == self.grid()[j],
            decreases BOARD_HEIGHT - y,
        {
            let mut rowv: Vec<Option<TetrominoType>> = Vec::new();
            let mut x: usize = 0;
            while x < BOARD_WIDTH
                invariant
                    self.wf(),
                    y < BOARD_HEIGHT,
                    x <= BOARD_WIDTH,
                    rowv@.len() == x as int,
                    forall|j: int| 0 <= j < x as int ==> rowv@[j] == self.grid()[y as int][j],
                decreases BOARD_WIDTH - x,
            {
                proof {
                    assert(self.grid()[y as int] == self.cells@[y as int]@);
                    assert(self.grid()[y as int].len() == BOARD_WIDTH as int);
                }
                rowv.push(self.cells[y][x]);
                x += 1;
            }
            proof {
                assert(rowv@ =~= self.grid()[y as int]);
            }
            copy.push(rowv);
            y += 1;
        }
        let mut scratch = Board { cells: copy };
        proof {
            assert(scratch.grid() =~~= self.grid());
        }
        scratch.lock_piece(piece);
        scratch.cells
    }
}

/// Writing one more block extends the partial overlay: the grid cell under
/// block `i` changes when that block lies inside the grid, and nothing
/// changes otherwise.
proof fn lemma_lock_step(rows: Seq<Seq<Option<TetrominoType>>>, p: Piece, i: int)
    requires
        0 <= i < 4,
    ensures
        (0 <= p.block_y(i) < rows.len() && 0 <= p.block_x(i) < rows[p.block_y(i)].len())
            ==> lock_rows_upto(rows, p, i + 1) == lock_rows_upto(rows, p, i).update(
            p.block_y(i),
            lock_rows_upto(rows, p, i)[p.block_y(i)].update(p.block_x(i), Some(p.kind)),
        ),
        !(0 <= p.block_y(i) < rows.len() && 0 <= p.block_x(i) < rows[p.block_y(i)].len())
            ==> lock_rows_upto(rows, p, i + 1) == lock_rows_upto(rows, p, i),
{
    let bx = p.block_x(i);
    let by = p.block_y(i);
    if 0 <= by < rows.len() && 0 <= bx < rows[by].len() {
        let lhs = lock_rows_upto(rows, p, i + 1);
        let rhs = lock_rows_upto(rows, p, i).update(
            by,
            lock_rows_upto(rows, p, i)[by].update(bx, Some(p.kind)),
        );
        assert forall|y: int| 0 <= y < rows.len() implies lhs[y] == rhs[y] by {
            assert forall|x: int| 0 <= x < rows[y].len() implies lhs[y][x] == rhs[y][x] by {
                if covers_upto(p, x, y, i) {
                    assert(covers_upto(p, x, y, i + 1));
                } else if x == bx && y == by {
                    assert(covers_upto(p, x, y, i + 1));
                } else {
                    if covers_upto(p, x, y, i + 1) {
                        let j = choose|j: int|
                            0 <= j < i + 1 && p.block_x(j) == x && p.block_y(j) == y;
                        assert(covers_upto(p, x, y, i));
                    }
                }
            }
            assert(lhs[y] =~= rhs[y]);
        }
        assert(lhs =~= rhs);
    } else {
        let lhs = lock_rows_upto(rows, p, i + 1);
        let rhs = lock_rows_upto(rows, p, i);
        assert forall|y: int| 0 <= y < rows.len() implies lhs[y] == rhs[y] by {
            assert forall|x: int| 0 <= x < rows[y].len() implies lhs[y][x] == rhs[y][x] by {
                if covers_upto(p, x, y, i) {
                    assert(covers_upto(p, x, y, i + 1));
                } else {
                    if covers_upto(p, x, y, i + 1) {
                        let j = choose|j: int|
                            0 <= j < i + 1 && p.block_x(j) == x && p.block_y(j) == y;
                        if j == i {
                            assert(0 <= by < rows.len() && 0 <= bx < rows[by].len());
                        } else {
                            assert(covers_upto(p, x, y, i));
                        }
                    }
                }
            }
            assert(lhs[y] =~= rhs[y]);
        }
        assert(lhs =~= rhs);
    }
}

/// Any position where a well-formed piece fits is itself confined: the
/// piece origin stays within three columns of the field and above the
/// floor, because every shape offset is non-negative and at most three.
pub proof fn lemma_fits_position_bounds(
    b: Board,
    kind: TetrominoType,
    rotation: int,
    px: int,
    py: int,
)
    requires
        0 <= rotation < 4,
        b.fits_at(kind, rotation, px, py),
    ensures
        -3 <= px <= 9,
        py <= 19,
{
    lemma_shape_bounds(kind, rotation);
    assert(b.block_fits_at(kind, rotation, px, py, 0));
    assert(0 <= shape(kind, rotation)[0].0 <= 3);
    assert(0 <= shape(kind, rotation)[0].1 <= 3);
}

/// A freshly spawned piece always fits an empty board: its blocks lie in
/// columns three to six and rows zero to three, all empty.
pub proof fn lemma_empty_board_fits_spawn(b: Board, p: Piece)
    requires
        b.wf(),
        b.grid() == empty_grid(),
        p == Piece::spec_new(p.kind),
    ensures
        b.spec_fits(p),
{
    lemma_shape_bounds(p.kind, 0);
    assert forall|i: int| 0 <= i < 4 implies b.block_fits_at(p.kind, 0, 3, 0, i) by {
        let x = 3 + shape(p.kind, 0)[i].0;
        let y = 0 + shape(p.kind, 0)[i].1;
        assert(0 <= x < BOARD_WIDTH as int);
        assert(0 <= y < BOARD_HEIGHT as int);
        assert(b.grid()[y][x] == empty_row()[x]);
    }
}

/// The compacted grid never has more rows than it started with.
pub proof fn lemma_kept_rows_len(rows: Seq<Seq<Option<TetrominoType>>>)
    ensures
        kept_rows(rows).len() <= rows.len(),
    decreases rows.len(),
{
    if rows.len() != 0 {
        lemma_kept_rows_len(rows.drop_first());
    }
}

/// Compacting a single row keeps it exactly when it is not full.
proof fn lemma_kept_rows_single(r: Seq<Option<TetrominoType>>)
    ensures
        row_full(r) ==> kept_rows(seq![r]) == Seq::<Seq<Option<TetrominoType>>>::empty(),
        !row_full(r) ==> kept_rows(seq![r]) == seq![r],
{
    reveal_with_fuel(kept_rows, 3);
    assert(seq![r].drop_first() =~= Seq::<Seq<Option<TetrominoType>>>::empty());
    if !row_full(r) {
        assert(kept_rows(seq![r]) =~= seq![r]);
    }
}

/// `kept_rows` distributes over concatenation.
pub proof fn lemma_kept_rows_add(a: Seq<Seq<Option<TetrominoType>>>, b: Seq<Seq<Option<TetrominoType>>>)
    ensures
        kept_rows(a + b) == kept_rows(a) + kept_rows(b),
    decreases a.len(),
{
    if a.len() == 0 {
        assert(a + b =~= b);
        assert(kept_rows(a) + kept_rows(b) =~= kept_rows(b));
    } else {
        lemma_kept_rows_add(a.drop_first(), b);
        assert((a + b).drop_first() =~= a.drop_first() + b);
        assert((a + b)[0] == a[0]);
        if !row_full(a[0]) {
            assert(seq![a[0]] + (kept_rows(a.drop_first()) + kept_rows(b)) =~= (seq![a[0]]
                + kept_rows(a.drop_first())) + kept_rows(b));
        }
    }
}

/// A grid with no full row is left whole by compaction.
pub proof fn lemma_kept_rows_no_full(s: Seq<Seq<Option<TetrominoType>>>)
    requires
        forall|i: int| 0 <= i < s.len() ==> !row_full(#[trigger] s[i]),
    ensures
        kept_rows(s) == s,
    decreases s.len(),
{
    if s.len() == 0 {
        assert(kept_rows(s) =~= s);
    } else {
        assert(!row_full(s[0]));
        assert(forall|i: int|
            0 <= i < s.drop_first().len() ==> !row_full(#[trigger] s.drop_first()[i]));
        lemma_kept_rows_no_full(s.drop_first());
        assert(seq![s[0]] + s.drop_first() =~= s);
    }
}

/// Compaction keeps every surviving row at the grid's width.
proof fn lemma_kept_rows_wf(rows: Seq<Seq<Option<TetrominoType>>>)
    requires
        forall|i: int| 0 <= i < rows.len() ==> (#[trigger] rows[i]).len() == BOARD_WIDTH as int,
    ensures
        forall|j: int|
            0 <= j < kept_rows(rows).len() ==> (#[trigger] kept_rows(rows)[j]).len()
                == BOARD_WIDTH as int,
    decreases rows.len(),
{
    if rows.len() != 0 {
        assert(forall|i: int|
            0 <= i < rows.drop_first().len() ==> (#[trigger] rows.drop_first()[i]).len()
                == BOARD_WIDTH as int);
        lemma_kept_rows_wf(rows.drop_first());
        if row_full(rows[0]) {
            assert(kept_rows(rows) == kept_rows(rows.drop_first()));
        } else {
            assert(rows[0].len() == BOARD_WIDTH as int);
            assert forall|j: int| 0 <= j < kept_rows(rows).len() implies (#[trigger] kept_rows(
                rows,
            )[j]).len() == BOARD_WIDTH as int by {
                if j == 0 {
                    assert(kept_rows(rows)[0] == rows[0]);
                } else {
                    assert(kept_rows(rows)[j] == kept_rows(rows.drop_first())[j - 1]);
                }
            }
        }
    }
}

/// A piece is rejected whenever any of its blocks leaves the columns or
/// reaches the floor; conversely a piece whose blocks all stay inside the
/// columns and above the floor, and whose blocks on visible rows land on
/// empty cells, fits — blocks on rows above the visible top are never
/// rejected for occupancy.
pub proof fn lemma_fits_characterization(b: Board, p: Piece)
    requires
        b.wf(),
        p.wf(),
    ensures
        (exists|i: int|
            0 <= i < 4 && (p.block_x(i) < 0 || p.block_x(i) >= BOARD_WIDTH as int || p.block_y(i)
                >= BOARD_HEIGHT as int)) ==> !b.spec_fits(p),
        (forall|i: int|
            0 <= i < 4 ==> 0 <= #[trigger] p.block_x(i) < BOARD_WIDTH as int && p.block_y(i)
                < BOARD_HEIGHT as int && (0 <= p.block_y(i) ==> b.grid()[p.block_y(i)][p.block_x(
                i,
            )] is None)) ==> b.spec_fits(p),
{
    if exists|i: int|
        0 <= i < 4 && (p.block_x(i) < 0 || p.block_x(i) >= BOARD_WIDTH as int || p.block_y(i)
            >= BOARD_HEIGHT as int) {
        let i = choose|i: int|
            0 <= i < 4 && (p.block_x(i) < 0 || p.block_x(i) >= BOARD_WIDTH as int || p.block_y(i)
                >= BOARD_HEIGHT as int);
        assert(!b.block_fits_at(p.kind, p.rotation as int, p.x as int, p.y as int, i));
    }
    if forall|i: int|
        0 <= i < 4 ==> 0 <= #[trigger] p.block_x(i) < BOARD_WIDTH as int && p.block_y(i)
            < BOARD_HEIGHT as int && (0 <= p.block_y(i) ==> b.grid()[p.block_y(i)][p.block_x(
            i,
        )] is None) {
        assert forall|i: int| 0 <= i < 4 implies b.block_fits_at(
            p.kind,
            p.rotation as int,
            p.x as int,
            p.y as int,
            i,
        ) by {
            assert(0 <= p.block_x(i) < BOARD_WIDTH as int);
        }
    }
}

/// Clearing a grid whose only full row is `r` removes exactly that row:
/// one line is cleared, the rows above `r` slide down one, the rows below
/// stay, and the top row becomes empty.
pub proof fn lemma_clear_single_full_row(g: Seq<Seq<Option<TetrominoType>>>, r: int)
    requires
        g.len() == BOARD_HEIGHT as int,
        0 <= r < BOARD_HEIGHT as int,
        row_full(g[r]),
        forall|y: int| 0 <= y < BOARD_HEIGHT as int && y != r ==> !row_full(#[trigger] g[y]),
    ensures
        num_cleared(g) == 1,
        cleared_rows(g) == seq![empty_row()] + g.remove(r),
{
    let pre = g.take(r);
    let post = g.skip(r + 1);
    assert(g =~= pre + (seq![g[r]] + post));
    lemma_kept_rows_add(pre, seq![g[r]] + post);
    lemma_kept_rows_add(seq![g[r]], post);
    assert(forall|i: int| 0 <= i < pre.len() ==> !row_full(#[trigger] pre[i]));
    assert(forall|i: int| 0 <= i < post.len() ==> !row_full(#[trigger] post[i]));
    lemma_kept_rows_no_full(pre);
    lemma_kept_rows_no_full(post);
    lemma_kept_rows_single(g[r]);
    assert(kept_rows(g) =~= pre + post);
    assert(kept_rows(g) =~= g.remove(r));
    assert(Seq::new(1nat, |y: int| empty_row()) =~= seq![empty_row()]);
    assert(cleared_rows(g) =~= seq![empty_row()] + g.remove(r));
}

/// Whether every cell of the row is occupied.
fn row_is_full(row: &Vec<Option<TetrominoType>>) -> (r: bool)
    requires
        row@.len() == BOARD_WIDTH as int,
    ensures
        r == row_full(row@),
{
    let mut x: usize = 0;
    while x < BOARD_WIDTH
        invariant
            x <= BOARD_WIDTH,
            row@.len() == BOARD_WIDTH as int,
            forall|j: int| 0 <= j < x as int ==> (#[trigger] row@[j]) is Some,
        decreases BOARD_WIDTH - x,
    {
        if row[x].is_none() {
            return false;
        }
        x += 1;
    }
    true
}

/// One freshly allocated empty row.
fn empty_row_vec() -> (r: Vec<Option<TetrominoType>>)
    ensures
        r@ == empty_row(),
{
    let mut r: Vec<Option<TetrominoType>> = Vec::new();
    let mut x: usize = 0;
    while x < BOARD_WIDTH
        invariant
            x <= BOARD_WIDTH,
            r@.len() == x as int,
            forall|j: int| 0 <= j < x as int ==> (#[trigger] r@[j]) is None,
        decreases BOARD_WIDTH - x,
    {
        r.push(None);
        x += 1;
    }
    proof {
        assert(r@ =~= empty_row());
    }
    r
}

} // verus!
