//! The game state machine: board, active and queued pieces, score and
//! line counters, and the player-visible commands that drive them.

use crate::board::{
    cleared_rows, empty_grid, lemma_empty_board_fits_spawn, lemma_fits_position_bounds,
    lemma_kept_rows_len, lock_rows, num_cleared, Board, BOARD_HEIGHT,
};
use crate::piece::{lemma_shape_bounds, Piece};
use vstd::prelude::*;

verus! {

/// Saturating addition as used by the score and line counters: the sum,
/// capped at the counter's maximum.
pub open spec fn sat_add_u32(a: int, b: int) -> int {
    if a + b > u32::MAX {
        u32::MAX as int
    } else {
        a + b
    }
}

/// The score awarded for the number of lines cleared by one lock.
pub open spec fn reward(cleared: int) -> int {
    if cleared <= 0 {
        0
    } else if cleared == 1 {
        100
    } else if cleared == 2 {
        250
    } else if cleared == 3 {
        500
    } else if cleared == 4 {
        800
    } else {
        cleared * 200
    }
}

/// The whole game: the sole mutator of its board and pieces.
pub struct GameState {
    pub board: Board,
    pub current: Piece,
    pub next: Piece,
    pub score: u32,
    pub lines: u32,
    pub game_over: bool,
    pub paused: bool,
}

impl GameState {
    /// The state's invariant: the grid has its fixed dimensions, both
    /// pieces carry valid rotations, the active piece never sits above its
    /// spawn row, and while the game is running it fits the board.
    pub open spec fn wf(self) -> bool {
        &&& self.board.wf()
        &&& self.current.wf()
        &&& self.next.wf()
        &&& self.current.y >= 0
        &&& (!self.game_over ==> self.board.spec_fits(self.current))
    }

    /// A freshly initialised game: empty board, both pieces queued at
    /// spawn, zeroed counters, not paused and not over.
    pub open spec fn is_fresh(s: GameState) -> bool {
        &&& s.board.wf()
        &&& s.board.grid() == empty_grid()
        &&& s.current == Piece::spec_new(s.current.kind)
        &&& s.current.wf()
        &&& s.next == Piece::spec_new(s.next.kind)
        &&& s.score == 0
        &&& s.lines == 0
        &&& !s.game_over
        &&& !s.paused
    }

    /// Relates the state just before the active piece locks to the state
    /// after: the piece is written into the board, full rows are cleared,
    /// counters grow by the cleared count and its reward, the queued piece
    /// spawns as the new active piece, a fresh random piece is queued, and
    /// the game ends exactly when the spawned piece does not fit.
    pub open spec fn locks_to(pre: GameState, post: GameState) -> bool {
        let locked = lock_rows(pre.board.grid(), pre.current);
        let c = num_cleared(locked);
        &&& post.board.wf()
        &&& post.board.grid() == cleared_rows(locked)
        &&& post.lines as int == sat_add_u32(pre.lines as int, c)
        &&& post.score as int == sat_add_u32(pre.score as int, reward(c))
        &&& post.current == Piece::spec_new(pre.next.kind)
        &&& post.next == Piece::spec_new(post.next.kind)
        &&& post.game_over == !post.board.spec_fits(post.current)
        &&& post.paused == pre.paused
    }

    /// Effect of one gravity tick: a no-op when the game is over or
    /// paused; otherwise the piece falls one row if it can and locks if it
    /// cannot.
    pub open spec fn tick_rel(pre: GameState, post: GameState) -> bool {
        if pre.game_over || pre.paused {
            post == pre
        } else if pre.board.fits_at(
            pre.current.kind,
            pre.current.rotation as int,
            pre.current.x as int,
            pre.current.y + 1,
        ) {
            post == (GameState {
                current: (Piece { y: (pre.current.y + 1) as i32, ..pre.current }),
                ..pre
            })
        } else {
            GameState::locks_to(pre, post)
        }
    }

    /// Effect of a horizontal move: the piece shifts by `delta` columns
    /// exactly when the game is running and the shifted piece fits.
    pub open spec fn move_rel(pre: GameState, post: GameState, delta: int) -> bool {
        if pre.game_over || pre.paused {
            post == pre
        } else if pre.board.fits_at(
            pre.current.kind,
            pre.current.rotation as int,
            pre.current.x + delta,
            pre.current.y as int,
        ) {
            post == (GameState {
                current: (Piece { x: (pre.current.x + delta) as i32, ..pre.current }),
                ..pre
            })
        } else {
            post == pre
        }
    }

    /// Effect of a soft drop: one row down for one point when it fits;
    /// unlike a tick, a soft drop that cannot fall never locks.
    pub open spec fn soft_drop_rel(pre: GameState, post: GameState) -> bool {
        if pre.game_over || pre.paused {
            post == pre
        } else if pre.board.fits_at(
            pre.current.kind,
            pre.current.rotation as int,
            pre.current.x as int,
            pre.current.y + 1,
        ) {
            post == (GameState {
                current: (Piece { y: (pre.current.y + 1) as i32, ..pre.current }),
                score: sat_add_u32(pre.score as int, 1) as u32,
                ..pre
            })
        } else {
            post == pre
        }
    }

    /// The active piece can fall exactly `d` rows: every intermediate
    /// position fits, and the row below the resting position does not.
    pub open spec fn falls_by(pre: GameState, d: int) -> bool {
        &&& 0 <= d <= BOARD_HEIGHT as int
        &&& forall|j: int|
            1 <= j <= d ==> #[trigger] pre.board.fits_at(
                pre.current.kind,
                pre.current.rotation as int,
                pre.current.x as int,
                pre.current.y + j,
            )
        &&& !pre.board.fits_at(
            pre.current.kind,
            pre.current.rotation as int,
            pre.current.x as int,
            pre.current.y + d + 1,
        )
    }

    /// Effect of a hard drop: the piece falls as far as it fits, two
    /// points per row, then locks unconditionally.
    pub open spec fn hard_drop_rel(pre: GameState, post: GameState) -> bool {
        if pre.game_over || pre.paused {
            post == pre
        } else {
            exists|d: int|
                #[trigger] GameState::falls_by(pre, d) && GameState::locks_to(
                    (GameState {
                        current: (Piece { y: (pre.current.y + d) as i32, ..pre.current }),
                        score: sat_add_u32(pre.score as int, 2 * d) as u32,
                        ..pre
                    }),
                    post,
                )
        }
    }

    /// The rotated piece after wall-kick resolution: the first candidate
    /// of the kick order `0, -1, +1, -2, +2` that fits; the piece itself
    /// when none fits.
    pub open spec fn kick_result(b: Board, p: Piece) -> Piece {
        let r = p.spec_rotated();
        if b.spec_fits(r) {
            r
        } else if b.spec_fits(r.spec_shifted_x(-1)) {
            r.spec_shifted_x(-1)
        } else if b.spec_fits(r.spec_shifted_x(1)) {
            r.spec_shifted_x(1)
        } else if b.spec_fits(r.spec_shifted_x(-2)) {
            r.spec_shifted_x(-2)
        } else if b.spec_fits(r.spec_shifted_x(2)) {
            r.spec_shifted_x(2)
        } else {
            p
        }
    }

    /// Effect of a rotation attempt: the kick result replaces the active
    /// piece; nothing else changes.
    pub open spec fn rotate_rel(pre: GameState, post: GameState) -> bool {
        if pre.game_over || pre.paused {
            post == pre
        } else {
            post == (GameState { current: GameState::kick_result(pre.board, pre.current), ..pre })
        }
    }

    /// Effect of a pause toggle: flips the pause flag unless the game is
    /// over.
    pub open spec fn toggle_pause_rel(pre: GameState, post: GameState) -> bool {
        if pre.game_over {
            post == pre
        } else {
            post == (GameState { paused: !pre.paused, ..pre })
        }
    }

    /// A fresh game with an empty board and two random queued pieces.
    pub fn new() -> (s: GameState)
        ensures
            s.wf(),
            GameState::is_fresh(s),
    {
        let board = Board::new();
        let current = Piece::random();
        let next = Piece::random();
        let mut state = GameState {
            board,
            current,
            next,
            score: 0,
            lines: 0,
            game_over: false,
            paused: false,
        };
        proof {
            lemma_empty_board_fits_spawn(state.board, state.current);
        }
        if !state.board.fits(&state.current) {
            state.game_over = true;
        }
        state
    }

    /// Replace the whole state with a freshly constructed one, whatever
    /// phase the game is in.
    pub fn reset(&mut self)
        ensures
            final(self).wf(),
            GameState::is_fresh(*final(self)),
    {
        *self = GameState::new();
    }

    /// One gravity step: the piece falls one row, or locks when it cannot.
    pub fn tick(&mut self)
        requires
            old(self).wf(),
        ensures
            final(self).wf(),
            GameState::tick_rel(*old(self), *final(self)),
            old(self).score <= final(self).score,
            old(self).lines <= final(self).lines,
            old(self).game_over ==> *final(self) == *old(self),
            old(self).paused ==> *final(self) == *old(self),
    {
        if self.game_over || self.paused {
            return ;
        }
        if !self.try_shift(0, 1) {
            self.lock_current();
        }
    }

    /// Flip the pause flag; ignored once the game is over.
    pub fn toggle_pause(&mut self)
        requires
            old(self).wf(),
        ensures
            final(self).wf(),
            GameState::toggle_pause_rel(*old(self), *final(self)),
            final(self).score == old(self).score,
            final(self).lines == old(self).lines,
            old(self).game_over ==> *final(self) == *old(self),
    {
        if self.game_over {
            return ;
        }
        self.paused = !self.paused;
    }

    /// Try to move the active piece `delta` columns sideways.
    pub fn move_horizontal(&mut self, delta: i32)
        requires
            old(self).wf(),
        ensures
            final(self).wf(),
            GameState::move_rel(*old(self), *final(self), delta as int),
            final(self).score == old(self).score,
            final(self).lines == old(self).lines,
            old(self).game_over ==> *final(self) == *old(self),
    {
        if self.game_over || self.paused {
            return ;
        }
        let _ = self.try_shift(delta, 0);
    }

    /// Drop the piece one row for one point; fails silently at the floor.
    pub fn soft_drop(&mut self)
        requires
            old(self).wf(),
        ensures
            final(self).wf(),
            GameState::soft_drop_rel(*old(self), *final(self)),
            old(self).score <= final(self).score,
            final(self).lines == old(self).lines,
            old(self).game_over ==> *final(self) == *old(self),
    {
        if self.game_over || self.paused {
            return ;
        }
        if self.try_shift(0, 1) {
            self.score = self.score.saturating_add(1);
        }
    }

    /// Drop the piece to the floor for two points per row, then lock it.
    pub fn hard_drop(&mut self)
        requires
            old(self).wf(),
        ensures
            final(self).wf(),
            GameState::hard_drop_rel(*old(self), *final(self)),
            old(self).score <= final(self).score,
            old(self).lines <= final(self).lines,
            old(self).game_over ==> *final(self) == *old(self),
    {
        if self.game_over || self.paused {
            return ;
        }
        let mut distance: u32 = 0;
        proof {
            lemma_fits_position_bounds(
                self.board,
                self.current.kind,
                self.current.rotation as int,
                self.current.x as int,
                self.current.y as int,
            );
        }
        loop
            invariant
                self.wf(),
                !self.game_over,
                !self.paused,
                old(self).wf(),
                !old(self).game_over,
                old(self).current.y <= 19,
                distance <= 19,
                self.board == old(self).board,
                self.score == old(self).score,
                self.lines == old(self).lines,
                self.next == old(self).next,
                self.current == (Piece {
                    y: (old(self).current.y + distance as int) as i32,
                    ..old(self).current
                }),
                forall|j: int|
                    1 <= j <= distance as int ==> #[trigger] old(self).board.fits_at(
                        old(self).current.kind,
                        old(self).current.rotation as int,
                        old(self).current.x as int,
                        old(self).current.y + j,
                    ),
            ensures
                self.wf(),
                !self.game_over,
                !self.paused,
                distance <= 19,
                self.board == old(self).board,
                self.score == old(self).score,
                self.lines == old(self).lines,
                self.next == old(self).next,
                self.current == (Piece {
                    y: (old(self).current.y + distance as int) as i32,
                    ..old(self).current
                }),
                forall|j: int|
                    1 <= j <= distance as int ==> #[trigger] old(self).board.fits_at(
                        old(self).current.kind,
                        old(self).current.rotation as int,
                        old(self).current.x as int,
                        old(self).current.y + j,
                    ),
                !old(self).board.fits_at(
                    old(self).current.kind,
                    old(self).current.rotation as int,
                    old(self).current.x as int,
                    old(self).current.y + distance as int + 1,
                ),
            decreases 19 - self.current.y,
        {
            proof {
                lemma_fits_position_bounds(
                    self.board,
                    self.current.kind,
                    self.current.rotation as int,
                    self.current.x as int,
                    self.current.y as int,
                );
            }
            if !self.try_shift(0, 1) {
                break ;
            }
            distance += 1;
            proof {
                lemma_fits_position_bounds(
                    self.board,
                    self.current.kind,
                    self.current.rotation as int,
                    self.current.x as int,
                    self.current.y as int,
                );
            }
        }
        if distance > 0 {
            self.score = self.score.saturating_add(distance * 2);
        }
        let ghost mid = *self;
        self.lock_current();
        proof {
            let d = distance as int;
            assert(GameState::falls_by(*old(self), d));
            assert(mid == (GameState {
                current: (Piece { y: (old(self).current.y + d) as i32, ..old(self).current }),
                score: sat_add_u32(old(self).score as int, 2 * d) as u32,
                ..*old(self)
            }));
            assert(GameState::locks_to(mid, *self));
        }
    }

    /// Rotate the active piece, trying the horizontal kick offsets
    /// `0, -1, +1, -2, +2` in order; a rotation that fits nowhere is
    /// discarded.
    pub fn rotate(&mut self)
        requires
            old(self).wf(),
        ensures
            final(self).wf(),
            GameState::rotate_rel(*old(self), *final(self)),
            final(self).score == old(self).score,
            final(self).lines == old(self).lines,
            old(self).game_over ==> *final(self) == *old(self),
    {
        if self.game_over || self.paused {
            return ;
        }
        proof {
            lemma_fits_position_bounds(
                self.board,
                self.current.kind,
                self.current.rotation as int,
                self.current.x as int,
                self.current.y as int,
            );
        }
        let rotated = self.current.rotated();
        if self.board.fits(&rotated) {
            self.current = rotated;
            return ;
        }
        let candidate = rotated.shifted(-1, 0);
        if self.board.fits(&candidate) {
            self.current = candidate;
            return ;
        }
        let candidate = rotated.shifted(1, 0);
        if self.board.fits(&candidate) {
            self.current = candidate;
            return ;
        }
        let candidate = rotated.shifted(-2, 0);
        if self.board.fits(&candidate) {
            self.current = candidate;
            return ;
        }
        let candidate = rotated.shifted(2, 0);
        if self.board.fits(&candidate) {
            self.current = candidate;
            return ;
        }
    }

    /// Move the active piece by `(dx, dy)` when the shifted piece fits;
    /// report whether it moved.
    fn try_shift(&mut self, dx: i32, dy: i32) -> (r: bool)
        requires
            old(self).wf(),
            !old(self).game_over,
            0 <= dy <= 1,
        ensures
            final(self).wf(),
            r == old(self).board.fits_at(
                old(self).current.kind,
                old(self).current.rotation as int,
                old(self).current.x + dx,
                old(self).current.y + dy,
            ),
            r ==> *final(self) == (GameState {
                current: (Piece {
                    x: (old(self).current.x + dx) as i32,
                    y: (old(self).current.y + dy) as i32,
                    ..old(self).current
                }),
                ..*old(self)
            }),
            !r ==> *final(self) == *old(self),
    {
        proof {
            lemma_fits_position_bounds(
                self.board,
                self.current.kind,
                self.current.rotation as int,
                self.current.x as int,
                self.current.y as int,
            );
            lemma_shape_bounds(self.current.kind, self.current.rotation as int);
        }
        let nx: i64 = self.current.x as i64 + dx as i64;
        if nx < i32::MIN as i64 || nx > i32::MAX as i64 {
            proof {
                assert(!self.board.block_fits_at(
                    self.current.kind,
                    self.current.rotation as int,
                    self.current.x + dx,
                    self.current.y + dy,
                    0,
                ));
            }
            return false;
        }
        let candidate = self.current.shifted(dx, dy);
        if self.board.fits(&candidate) {
            self.current = candidate;
            true
        } else {
            false
        }
    }

    /// Lock the active piece into the board, clear and reward full lines,
    /// and spawn the queued piece.
    fn lock_current(&mut self)
        requires
            old(self).wf(),
            !old(self).game_over,
        ensures
            final(self).wf(),
            GameState::locks_to(*old(self), *final(self)),
            old(self).score <= final(self).score,
            old(self).lines <= final(self).lines,
    {
        self.board.lock_piece(&self.current);
        let cleared = self.board.clear_full_lines();
        proof {
            lemma_kept_rows_len(lock_rows(old(self).board.grid(), old(self).current));
        }
        if cleared > 0 {
            self.lines = self.lines.saturating_add(cleared);
            let points: u32 = if cleared == 1 {
                100
            } else if cleared == 2 {
                250
            } else if cleared == 3 {
                500
            } else if cleared == 4 {
                800
            } else {
                cleared * 200
            };
            self.score = self.score.saturating_add(points);
        }
        self.spawn_piece();
    }

    /// Promote the queued piece to the active piece at spawn, queue a new
    /// random piece, and end the game if the spawned piece does not fit.
    fn spawn_piece(&mut self)
        requires
            old(self).board.wf(),
            old(self).next.wf(),
        ensures
            final(self).wf(),
            final(self).board == old(self).board,
            final(self).score == old(self).score,
            final(self).lines == old(self).lines,
            final(self).paused == old(self).paused,
            final(self).current == Piece::spec_new(old(self).next.kind),
            final(self).next == Piece::spec_new(final(self).next.kind),
            final(self).game_over == (old(self).game_over || !old(self).board.spec_fits(
                final(self).current,
            )),
    {
        self.current = self.next;
        self.current.reset_position();
        self.next = Piece::random();
        if !self.board.fits(&self.current) {
            self.game_over = true;
        }
    }
}

} // verus!
