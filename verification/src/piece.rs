//! Tetromino pieces: the seven kinds, their shape table, and the pure
//! geometry of rotation and translation.

use vstd::prelude::*;

verus! {

/// Horizontal spawn origin of a freshly queued piece.
pub const SPAWN_X: i32 = 3;

/// Vertical spawn origin of a freshly queued piece.
pub const SPAWN_Y: i32 = 0;

/// Number of distinct rotation states of a piece.
pub const ROTATIONS: u8 = 4;

/// The seven tetromino kinds; also used as the color tag of a locked cell.
#[derive(Debug, Clone, Copy, PartialEq, Eq, Structural)]
pub enum TetrominoType {
    I,
    O,
    T,
    S,
    Z,
    J,
    L,
}

/// The shape table: the four cell offsets occupied by a piece of the given
/// kind in the given rotation state, relative to the piece origin.
pub open spec fn shape(kind: TetrominoType, rotation: int) -> Seq<(i32, i32)> {
    match kind {
        TetrominoType::I => if rotation == 0 {
            seq![(0i32, 1i32), (1i32, 1i32), (2i32, 1i32), (3i32, 1i32)]
        } else if rotation == 1 {
            seq![(2i32, 0i32), (2i32, 1i32), (2i32, 2i32), (2i32, 3i32)]
        } else if rotation == 2 {
            seq![(0i32, 2i32), (1i32, 2i32), (2i32, 2i32), (3i32, 2i32)]
        } else {
            seq![(1i32, 0i32), (1i32, 1i32), (1i32, 2i32), (1i32, 3i32)]
        },
        TetrominoType::O => seq![(1i32, 0i32), (2i32, 0i32), (1i32, 1i32), (2i32, 1i32)],
        TetrominoType::T => if rotation == 0 {
            seq![(1i32, 0i32), (0i32, 1i32), (1i32, 1i32), (2i32, 1i32)]
        } else if rotation == 1 {
            seq![(1i32, 0i32), (1i32, 1i32), (2i32, 1i32), (1i32, 2i32)]
        } else if rotation == 2 {
            seq![(0i32, 1i32), (1i32, 1i32), (2i32, 1i32), (1i32, 2i32)]
        } else {
            seq![(1i32, 0i32), (0i32, 1i32), (1i32, 1i32), (1i32, 2i32)]
        },
        TetrominoType::S => if rotation == 0 {
            seq![(1i32, 0i32), (2i32, 0i32), (0i32, 1i32), (1i32, 1i32)]
        } else if rotation == 1 {
            seq![(1i32, 0i32), (1i32, 1i32), (2i32, 1i32), (2i32, 2i32)]
        } else if rotation == 2 {
            seq![(1i32, 1i32), (2i32, 1i32), (0i32, 2i32), (1i32, 2i32)]
        } else {
            seq![(0i32, 0i32), (0i32, 1i32), (1i32, 1i32), (1i32, 2i32)]
        },
        TetrominoType::Z => if rotation == 0 {
            seq![(0i32, 0i32), (1i32, 0i32), (1i32, 1i32), (2i32, 1i32)]
        } else if rotation == 1 {
            seq![(2i32, 0i32), (1i32, 1i32), (2i32, 1i32), (1i32, 2i32)]
        } else if rotation == 2 {
            seq![(0i32, 1i32), (1i32, 1i32), (1i32, 2i32), (2i32, 2i32)]
        } else {
            seq![(1i32, 0i32), (0i32, 1i32), (1i32, 1i32), (0i32, 2i32)]
        },
        TetrominoType::J => if rotation == 0 {
            seq![(0i32, 0i32), (0i32, 1i32), (1i32, 1i32), (2i32, 1i32)]
        } else if rotation == 1 {
            seq![(1i32, 0i32), (2i32, 0i32), (1i32, 1i32), (1i32, 2i32)]
        } else if rotation == 2 {
            seq![(0i32, 1i32), (1i32, 1i32), (2i32, 1i32), (2i32, 2i32)]
        } else {
            seq![(1i32, 0i32), (1i32, 1i32), (1i32, 2i32), (0i32, 2i32)]
        },
        TetrominoType::L => if rotation == 0 {
            seq![(2i32, 0i32), (0i32, 1i32), (1i32, 1i32), (2i32, 1i32)]
        } else if rotation == 1 {
            seq![(1i32, 0i32), (1i32, 1i32), (1i32, 2i32), (2i32, 2i32)]
        } else if rotation == 2 {
            seq![(0i32, 1i32), (1i32, 1i32), (2i32, 1i32), (0i32, 2i32)]
        } else {
            seq![(0i32, 0i32), (1i32, 0i32), (1i32, 1i32), (1i32, 2i32)]
        },
    }
}

/// Every shape offset lies in the 4x4 window 0..=3 in both axes.
pub proof fn lemma_shape_bounds(kind: TetrominoType, rotation: int)
    requires
        0 <= rotation < 4,
    ensures
        shape(kind, rotation).len() == 4,
        forall|i: int|
            0 <= i < 4 ==> 0 <= #[trigger] shape(kind, rotation)[i].0 <= 3 && 0 <= shape(
                kind,
                rotation,
            )[i].1 <= 3,
{
}

/// Relies on `rand::random_range`: the result is drawn uniformly from the
/// given range and always lies inside it; the range `0..7` is non-empty,
/// so the call does not panic.
#[verifier::external_body]
fn random_kind_index() -> (r: u8)
    ensures
        r < 7,
{
    rand::random_range(0..7)
}

/// The tetromino kind drawn for each index below seven, in the fixed
/// order of the seven kinds.
pub open spec fn kind_of_index(i: int) -> TetrominoType {
    if i == 0 {
        TetrominoType::I
    } else if i == 1 {
        TetrominoType::O
    } else if i == 2 {
        TetrominoType::T
    } else if i == 3 {
        TetrominoType::S
    } else if i == 4 {
        TetrominoType::Z
    } else if i == 5 {
        TetrominoType::J
    } else {
        TetrominoType::L
    }
}

/// Every kind is drawn for some index below seven, so a uniform index
/// reaches all seven kinds.
pub proof fn lemma_kind_table_covers_all(k: TetrominoType)
    ensures
        exists|i: int| 0 <= i < 7 && #[trigger] kind_of_index(i) == k,
{
    match k {
        TetrominoType::I => assert(kind_of_index(0) == k),
        TetrominoType::O => assert(kind_of_index(1) == k),
        TetrominoType::T => assert(kind_of_index(2) == k),
        TetrominoType::S => assert(kind_of_index(3) == k),
        TetrominoType::Z => assert(kind_of_index(4) == k),
        TetrominoType::J => assert(kind_of_index(5) == k),
        TetrominoType::L => assert(kind_of_index(6) == k),
    }
}

/// The kind drawn for an index below seven, per [`kind_of_index`].
pub fn kind_for(idx: u8) -> (k: TetrominoType)
    requires
        idx < 7,
    ensures
        k == kind_of_index(idx as int),
{
    if idx == 0 {
        TetrominoType::I
    } else if idx == 1 {
        TetrominoType::O
    } else if idx == 2 {
        TetrominoType::T
    } else if idx == 3 {
        TetrominoType::S
    } else if idx == 4 {
        TetrominoType::Z
    } else if idx == 5 {
        TetrominoType::J
    } else {
        TetrominoType::L
    }
}

/// One falling tetromino: its kind, rotation state, and grid position.
#[derive(Debug, Clone, Copy, PartialEq, Eq, Structural)]
pub struct Piece {
    pub kind: TetrominoType,
    pub rotation: u8,
    pub x: i32,
    pub y: i32,
}

impl Piece {
    /// A piece is well formed when its rotation index is a valid entry of
    /// the shape table.
    pub open spec fn wf(self) -> bool {
        self.rotation < 4
    }

    /// The column of the piece's `i`-th block on the board.
    pub open spec fn block_x(self, i: int) -> int {
        self.x + shape(self.kind, self.rotation as int)[i].0
    }

    /// The row of the piece's `i`-th block on the board.
    pub open spec fn block_y(self, i: int) -> int {
        self.y + shape(self.kind, self.rotation as int)[i].1
    }

    /// Whether some block of the piece occupies the cell `(x, y)`.
    pub open spec fn covers(self, x: int, y: int) -> bool {
        exists|i: int| 0 <= i < 4 && self.block_x(i) == x && self.block_y(i) == y
    }

    /// The spawn configuration for the given kind.
    pub open spec fn spec_new(kind: TetrominoType) -> Piece {
        Piece { kind, rotation: 0, x: SPAWN_X, y: SPAWN_Y }
    }

    /// The piece in its next rotation state, position unchanged.
    pub open spec fn spec_rotated(self) -> Piece {
        Piece { rotation: ((self.rotation + 1) % 4) as u8, ..self }
    }

    /// The piece moved `dx` columns, row unchanged.
    pub open spec fn spec_shifted_x(self, dx: int) -> Piece {
        Piece { x: (self.x + dx) as i32, ..self }
    }

    pub fn new(kind: TetrominoType) -> (p: Piece)
        ensures
            p == Piece::spec_new(kind),
            p.wf(),
    {
        Piece { kind, rotation: 0, x: SPAWN_X, y: SPAWN_Y }
    }

    /// A piece of a kind chosen uniformly at random, in the spawn
    /// configuration: the drawn index selects the kind per
    /// [`kind_of_index`], and [`lemma_kind_table_covers_all`] shows that
    /// every kind is reached.
    pub fn random() -> (p: Piece)
        ensures
            p == Piece::spec_new(p.kind),
            p.wf(),
    {
        let idx = random_kind_index();
        Piece::new(kind_for(idx))
    }

    /// The shape-table offsets for this piece's kind and rotation.
    pub fn offsets(&self) -> (r: [(i32, i32); 4])
        requires
            self.wf(),
        ensures
            r@ == shape(self.kind, self.rotation as int),
    {
        let r: [(i32, i32); 4] = match (self.kind, self.rotation) {
            (TetrominoType::I, 0) => [(0, 1), (1, 1), (2, 1), (3, 1)],
            (TetrominoType::I, 1) => [(2, 0), (2, 1), (2, 2), (2, 3)],
            (TetrominoType::I, 2) => [(0, 2), (1, 2), (2, 2), (3, 2)],
            (TetrominoType::I, _) => [(1, 0), (1, 1), (1, 2), (1, 3)],
            (TetrominoType::O, _) => [(1, 0), (2, 0), (1, 1), (2, 1)],
            (TetrominoType::T, 0) => [(1, 0), (0, 1), (1, 1), (2, 1)],
            (TetrominoType::T, 1) => [(1, 0), (1, 1), (2, 1), (1, 2)],
            (TetrominoType::T, 2) => [(0, 1), (1, 1), (2, 1), (1, 2)],
            (TetrominoType::T, _) => [(1, 0), (0, 1), (1, 1), (1, 2)],
            (TetrominoType::S, 0) => [(1, 0), (2, 0), (0, 1), (1, 1)],
            (TetrominoType::S, 1) => [(1, 0), (1, 1), (2, 1), (2, 2)],
            (TetrominoType::S, 2) => [(1, 1), (2, 1), (0, 2), (1, 2)],
            (TetrominoType::S, _) => [(0, 0), (0, 1), (1, 1), (1, 2)],
            (TetrominoType::Z, 0) => [(0, 0), (1, 0), (1, 1), (2, 1)],
            (TetrominoType::Z, 1) => [(2, 0), (1, 1), (2, 1), (1, 2)],
            (TetrominoType::Z, 2) => [(0, 1), (1, 1), (1, 2), (2, 2)],
            (TetrominoType::Z, _) => [(1, 0), (0, 1), (1, 1), (0, 2)],
            (TetrominoType::J, 0) => [(0, 0), (0, 1), (1, 1), (2, 1)],
            (TetrominoType::J, 1) => [(1, 0), (2, 0), (1, 1), (1, 2)],
            (TetrominoType::J, 2) => [(0, 1), (1, 1), (2, 1), (2, 2)],
            (TetrominoType::J, _) => [(1, 0), (1, 1), (1, 2), (0, 2)],
            (TetrominoType::L, 0) => [(2, 0), (0, 1), (1, 1), (2, 1)],
            (TetrominoType::L, 1) => [(1, 0), (1, 1), (1, 2), (2, 2)],
            (TetrominoType::L, 2) => [(0, 1), (1, 1), (2, 1), (0, 2)],
            (TetrominoType::L, _) => [(0, 0), (1, 0), (1, 1), (1, 2)],
        };
        proof {
            assert(r@ =~= shape(self.kind, self.rotation as int));
        }
        r
    }

    /// The four absolute board cells occupied by this piece.
    pub fn blocks(&self) -> (r: [(i32, i32); 4])
        requires
            self.wf(),
            self.x + 3 <= i32::MAX,
            self.y + 3 <= i32::MAX,
        ensures
            r@.len() == 4,
            forall|i: int|
                0 <= i < 4 ==> #[trigger] r@[i].0 == self.block_x(i) && r@[i].1 == self.block_y(i),
    {
        let offs = self.offsets();
        proof {
            lemma_shape_bounds(self.kind, self.rotation as int);
        }
        [
            (self.x + offs[0].0, self.y + offs[0].1),
            (self.x + offs[1].0, self.y + offs[1].1),
            (self.x + offs[2].0, self.y + offs[2].1),
            (self.x + offs[3].0, self.y + offs[3].1),
        ]
    }

    /// Whether some offset of the piece's shape equals `(x, y)`.
    pub open spec fn has_offset(self, x: int, y: int) -> bool {
        exists|i: int|
            0 <= i < 4 && shape(self.kind, self.rotation as int)[i] == ((x as i32, y as i32))
    }

    /// The piece's shape laid out in the 4x4 preview window a renderer
    /// shows for the queued piece: a cell holds the piece's kind exactly
    /// when it is one of the shape's offsets.
    pub fn preview(&self) -> (r: Vec<Vec<Option<TetrominoType>>>)
        requires
            self.wf(),
        ensures
            r@.len() == 4,
            forall|y: int| 0 <= y < 4 ==> (#[trigger] r@[y])@.len() == 4,
            forall|y: int, x: int|
                0 <= y < 4 && 0 <= x < 4 ==> #[trigger] r@[y]@[x] == (if self.has_offset(x, y) {
                    Some(self.kind)
                } else {
                    None
                }),
    {
        let offs = self.offsets();
        let mut r: Vec<Vec<Option<TetrominoType>>> = Vec::new();
        let mut y: usize = 0;
        while y < 4
            invariant
                self.wf(),
                y <= 4,
                offs@ == shape(self.kind, self.rotation as int),
                r@.len() == y as int,
                forall|j: int| 0 <= j < y as int ==> (#[trigger] r@[j])@.len() == 4,
                forall|j: int, x: int|
                    0 <= j < y as int && 0 <= x < 4 ==> #[trigger] r@[j]@[x] == (if self.has_offset(
                        x,
                        j,
                    ) {
                        Some(self.kind)
                    } else {
                        None
                    }),
            decreases 4 - y,
        {
            let mut row: Vec<Option<TetrominoType>> = Vec::new();
            let mut x: usize = 0;
            while x < 4
                invariant
                    self.wf(),
                    y < 4,
                    x <= 4,
                    offs@ == shape(self.kind, self.rotation as int),
                    row@.len() == x as int,
                    forall|i: int|
                        0 <= i < x as int ==> #[trigger] row@[i] == (if self.has_offset(i, y as int) {
                            Some(self.kind)
                        } else {
                            None
                        }),
                decreases 4 - x,
            {
                let hit = (offs[0].0 == x as i32 && offs[0].1 == y as i32) || (offs[1].0 == x as i32
                    && offs[1].1 == y as i32) || (offs[2].0 == x as i32 && offs[2].1 == y as i32)
                    || (offs[3].0 == x as i32 && offs[3].1 == y as i32);
                if hit {
                    row.push(Some(self.kind));
                } else {
                    row.push(None);
                }
                x += 1;
            }
            r.push(row);
            y += 1;
        }
        r
    }

    /// The same piece advanced to its next rotation state.
    pub fn rotated(&self) -> (p: Piece)
        requires
            self.wf(),
        ensures
            p == (Piece { rotation: ((self.rotation + 1) % 4) as u8, ..*self }),
            p.wf(),
    {
        Piece { kind: self.kind, rotation: (self.rotation + 1) % ROTATIONS, x: self.x, y: self.y }
    }

    /// The same piece translated by `(dx, dy)`.
    pub fn shifted(&self, dx: i32, dy: i32) -> (p: Piece)
        requires
            i32::MIN <= self.x + dx <= i32::MAX,
            i32::MIN <= self.y + dy <= i32::MAX,
        ensures
            p == (Piece { x: (self.x + dx) as i32, y: (self.y + dy) as i32, ..*self }),
    {
        Piece { kind: self.kind, rotation: self.rotation, x: self.x + dx, y: self.y + dy }
    }

    /// Move a queued piece back to the spawn configuration before it
    /// becomes the active piece.
    pub fn reset_position(&mut self)
        ensures
            *final(self) == Piece::spec_new(old(self).kind),
    {
        self.x = SPAWN_X;
        self.y = SPAWN_Y;
        self.rotation = 0;
    }
}

} // verus!
