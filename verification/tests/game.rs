use blockfall::board::Board;
use blockfall::input::{handle_command, Command};
use blockfall::piece::{kind_for, Piece, TetrominoType};
use blockfall::state::GameState;

/// A piece whose blocks all sit above the visible top, so that merging it
/// leaves the grid untouched; used to read a board's raw cells.
fn ghost_piece() -> Piece {
    Piece { kind: TetrominoType::I, rotation: 0, x: 0, y: -10 }
}

fn snapshot(b: &Board) -> Vec<Vec<Option<TetrominoType>>> {
    b.merged_with_piece(&ghost_piece())
}

#[test]
fn spawn_piece_shape() {
    let p = Piece::new(TetrominoType::I);
    assert_eq!(p.rotation, 0);
    assert_eq!(p.x, 3);
    assert_eq!(p.y, 0);
    assert_eq!(p.blocks(), [(3, 1), (4, 1), (5, 1), (6, 1)]);
    assert_eq!(p.offsets(), [(0, 1), (1, 1), (2, 1), (3, 1)]);
}

#[test]
fn rotated_and_shifted_are_pure() {
    let p = Piece::new(TetrominoType::T);
    let r = p.rotated();
    assert_eq!(r.rotation, 1);
    assert_eq!((r.x, r.y), (p.x, p.y));
    let s = p.shifted(-2, 3);
    assert_eq!((s.x, s.y), (1, 3));
    assert_eq!(s.rotation, 0);
    let mut q = Piece { kind: TetrominoType::L, rotation: 3, x: 7, y: 12 };
    q.reset_position();
    assert_eq!((q.x, q.y, q.rotation), (3, 0, 0));
    assert_eq!(q.kind, TetrominoType::L);
}

#[test]
fn kind_for_follows_the_fixed_order() {
    assert_eq!(kind_for(0), TetrominoType::I);
    assert_eq!(kind_for(1), TetrominoType::O);
    assert_eq!(kind_for(2), TetrominoType::T);
    assert_eq!(kind_for(3), TetrominoType::S);
    assert_eq!(kind_for(4), TetrominoType::Z);
    assert_eq!(kind_for(5), TetrominoType::J);
    assert_eq!(kind_for(6), TetrominoType::L);
}

#[test]
fn random_pieces_spawn_well_formed() {
    for _ in 0..50 {
        let p = Piece::random();
        assert_eq!((p.x, p.y, p.rotation), (3, 0, 0));
        assert!(p.rotation < 4);
    }
}

#[test]
fn preview_window_shows_exactly_the_shape() {
    let p = Piece::new(TetrominoType::S);
    let window = p.preview();
    assert_eq!(window.len(), 4);
    let mut expected = vec![vec![None; 4]; 4];
    for (dx, dy) in p.offsets() {
        expected[dy as usize][dx as usize] = Some(TetrominoType::S);
    }
    assert_eq!(window, expected);
    // S at rotation 0 occupies (1,0), (2,0), (0,1), (1,1).
    assert_eq!(window[0][1], Some(TetrominoType::S));
    assert_eq!(window[0][2], Some(TetrominoType::S));
    assert_eq!(window[1][0], Some(TetrominoType::S));
    assert_eq!(window[1][1], Some(TetrominoType::S));
    assert_eq!(window[0][0], None);
}

#[test]
fn fits_rejects_out_of_bounds() {
    let b = Board::new();
    // Left wall: column -1.
    assert!(!b.fits(&Piece { kind: TetrominoType::I, rotation: 0, x: -1, y: 0 }));
    // Right wall: column 10.
    assert!(!b.fits(&Piece { kind: TetrominoType::I, rotation: 0, x: 7, y: 0 }));
    // Floor: row 20.
    assert!(!b.fits(&Piece { kind: TetrominoType::I, rotation: 0, x: 3, y: 19 }));
    // In bounds on an empty board.
    assert!(b.fits(&Piece { kind: TetrominoType::I, rotation: 0, x: 3, y: 18 }));
}

#[test]
fn fits_ignores_rows_above_top() {
    let mut b = Board::new();
    // Occupy the whole bottom row region under the spawn area.
    b.lock_piece(&Piece { kind: TetrominoType::O, rotation: 0, x: 1, y: 0 });
    // A vertical I wholly above the visible top fits regardless of cells.
    let above = Piece { kind: TetrominoType::I, rotation: 1, x: 0, y: -4 };
    assert!(b.fits(&above));
    // The same piece reaching a visible occupied cell does not.
    let touching = Piece { kind: TetrominoType::I, rotation: 1, x: 0, y: -2 };
    assert!(!b.fits(&touching));
}

#[test]
fn lock_piece_skips_out_of_bounds_blocks() {
    let mut b = Board::new();
    // Vertical I in column 2, rows -2..=1: only rows 0 and 1 are written.
    b.lock_piece(&Piece { kind: TetrominoType::I, rotation: 1, x: 0, y: -2 });
    let cells = snapshot(&b);
    assert_eq!(cells[0][2], Some(TetrominoType::I));
    assert_eq!(cells[1][2], Some(TetrominoType::I));
    let occupied: usize = cells
        .iter()
        .map(|row| row.iter().filter(|c| c.is_some()).count())
        .sum();
    assert_eq!(occupied, 2);
}

#[test]
fn single_line_clear_shifts_rows_down() {
    let mut b = Board::new();
    // Fill row 19 in columns 0..=3, 5..=9, leaving column 4 empty.
    b.lock_piece(&Piece { kind: TetrominoType::I, rotation: 0, x: 0, y: 18 });
    b.lock_piece(&Piece { kind: TetrominoType::I, rotation: 0, x: 5, y: 18 });
    b.lock_piece(&Piece { kind: TetrominoType::I, rotation: 0, x: 6, y: 18 });
    assert_eq!(b.clear_full_lines(), 0);
    // A vertical I in column 4, rows 16..=19, fills the gap.
    b.lock_piece(&Piece { kind: TetrominoType::I, rotation: 1, x: 2, y: 16 });
    let before = snapshot(&b);
    assert!(before[19].iter().all(|c| c.is_some()));
    assert_eq!(b.clear_full_lines(), 1);
    let after = snapshot(&b);
    // The top row is now empty and the column-4 stack slid down one row.
    assert!(after[0].iter().all(|c| c.is_none()));
    for y in 17..=19 {
        assert_eq!(after[y][4], Some(TetrominoType::I));
        assert_eq!(before[y - 1][4], Some(TetrominoType::I));
    }
    // Nothing else survived.
    let occupied: usize = after
        .iter()
        .map(|row| row.iter().filter(|c| c.is_some()).count())
        .sum();
    assert_eq!(occupied, 3);
}

#[test]
fn merged_with_piece_overlays_without_mutating() {
    let mut b = Board::new();
    b.lock_piece(&Piece { kind: TetrominoType::O, rotation: 0, x: 3, y: 18 });
    let p = Piece { kind: TetrominoType::T, rotation: 0, x: 0, y: 0 };
    let merged = b.merged_with_piece(&p);
    assert_eq!(merged[0][1], Some(TetrominoType::T));
    assert_eq!(merged[1][0], Some(TetrominoType::T));
    assert_eq!(merged[1][1], Some(TetrominoType::T));
    assert_eq!(merged[1][2], Some(TetrominoType::T));
    assert_eq!(merged[19][4], Some(TetrominoType::O));
    // The overlay never reaches the board itself.
    let raw = snapshot(&b);
    assert_eq!(raw[0][1], None);
    assert_eq!(raw[1][1], None);
}

#[test]
fn rotation_kick_prefers_plus_one_over_minus_one() {
    let mut s = GameState::new();
    s.current = Piece { kind: TetrominoType::I, rotation: 0, x: 3, y: 0 };
    // An O piece occupying columns 4 and 5 in rows 2 and 3 blocks the
    // unkicked rotation (column 5) and the -1 kick (column 4); the +1
    // kick (column 6) stays free.
    s.board.lock_piece(&Piece { kind: TetrominoType::O, rotation: 0, x: 3, y: 2 });
    s.rotate();
    assert_eq!(s.current.rotation, 1);
    assert_eq!(s.current.x, 4);
    assert_eq!(s.current.y, 0);
}

#[test]
fn rotation_with_no_fitting_kick_is_discarded() {
    let mut s = GameState::new();
    // A flat I on the bottom row cannot stand up: every kick of the
    // vertical rotation pokes through the floor.
    s.current = Piece { kind: TetrominoType::I, rotation: 0, x: 3, y: 18 };
    s.rotate();
    assert_eq!(s.current.rotation, 0);
    assert_eq!(s.current.x, 3);
    assert_eq!(s.current.y, 18);
}

#[test]
fn hard_drop_scores_twice_the_distance() {
    let mut s = GameState::new();
    let cur = s.current;
    let queued = s.next;
    let max_dy = cur.blocks().iter().map(|&(_, y)| y).max().unwrap();
    let distance = 19 - max_dy;
    s.hard_drop();
    // The dropped piece lies on the floor of the empty board.
    let cells = snapshot(&s.board);
    for &(x, y) in cur.shifted(0, distance).blocks().iter() {
        assert_eq!(cells[y as usize][x as usize], Some(cur.kind));
    }
    // No line can clear from a single piece on an empty board.
    assert_eq!(s.score, 2 * distance as u32);
    assert_eq!(s.lines, 0);
    // The queued piece became the active piece, at spawn.
    assert_eq!(s.current.kind, queued.kind);
    assert_eq!((s.current.x, s.current.y, s.current.rotation), (3, 0, 0));
    assert!(!s.game_over);
}

#[test]
fn hard_drop_reward_for_double_clear() {
    let mut s = GameState::new();
    // Fill rows 18 and 19 except columns 4 and 5.
    s.board.lock_piece(&Piece { kind: TetrominoType::I, rotation: 0, x: 0, y: 17 });
    s.board.lock_piece(&Piece { kind: TetrominoType::I, rotation: 0, x: 6, y: 17 });
    s.board.lock_piece(&Piece { kind: TetrominoType::I, rotation: 0, x: 0, y: 18 });
    s.board.lock_piece(&Piece { kind: TetrominoType::I, rotation: 0, x: 6, y: 18 });
    // An O piece falling from spawn at columns 4 and 5 completes both.
    s.current = Piece { kind: TetrominoType::O, rotation: 0, x: 3, y: 0 };
    s.hard_drop();
    // It falls 18 rows for 36 points, and two lines pay 250 more.
    assert_eq!(s.score, 36 + 250);
    assert_eq!(s.lines, 2);
    let cells = snapshot(&s.board);
    assert!(cells.iter().all(|row| row.iter().all(|c| c.is_none())));
}

#[test]
fn tick_locks_piece_that_cannot_fall() {
    let mut s = GameState::new();
    let queued = s.next;
    s.current = Piece { kind: TetrominoType::I, rotation: 0, x: 3, y: 18 };
    s.tick();
    // The piece locked on the bottom row without scoring.
    let cells = snapshot(&s.board);
    for x in 3..=6 {
        assert_eq!(cells[19][x], Some(TetrominoType::I));
    }
    assert_eq!(s.score, 0);
    assert_eq!(s.lines, 0);
    assert_eq!(s.current.kind, queued.kind);
    assert_eq!((s.current.x, s.current.y, s.current.rotation), (3, 0, 0));
}

#[test]
fn tick_moves_piece_down_one_row() {
    let mut s = GameState::new();
    let before = s.current;
    s.tick();
    assert_eq!(s.current.y, before.y + 1);
    assert_eq!(s.current.x, before.x);
    assert_eq!(s.current.rotation, before.rotation);
    assert_eq!(s.score, 0);
}

#[test]
fn soft_drop_scores_one_and_never_locks() {
    let mut s = GameState::new();
    let before = s.current;
    s.soft_drop();
    assert_eq!(s.current.y, before.y + 1);
    assert_eq!(s.score, 1);
    // At the floor a soft drop fails silently: no lock, no score.
    s.current = Piece { kind: TetrominoType::I, rotation: 0, x: 3, y: 18 };
    s.soft_drop();
    assert_eq!(s.current.y, 18);
    assert_eq!(s.score, 1);
    let cells = snapshot(&s.board);
    assert!(cells.iter().all(|row| row.iter().all(|c| c.is_none())));
}

#[test]
fn move_horizontal_stops_at_walls() {
    let mut s = GameState::new();
    s.current = Piece { kind: TetrominoType::I, rotation: 0, x: 0, y: 0 };
    // Blocks occupy columns 0..=3; another step left must be refused.
    s.move_horizontal(-1);
    assert_eq!(s.current.x, 0);
    s.move_horizontal(1);
    assert_eq!(s.current.x, 1);
    // An extreme delta is simply a move that does not fit.
    s.move_horizontal(i32::MIN);
    assert_eq!(s.current.x, 1);
    s.move_horizontal(i32::MAX);
    assert_eq!(s.current.x, 1);
}

#[test]
fn pause_freezes_ticks_until_resumed() {
    let mut s = GameState::new();
    s.toggle_pause();
    assert!(s.paused);
    let piece_before = s.current;
    let board_before = snapshot(&s.board);
    for _ in 0..5 {
        s.tick();
        assert_eq!(s.current, piece_before);
        assert_eq!(snapshot(&s.board), board_before);
        assert_eq!(s.score, 0);
    }
    s.toggle_pause();
    assert!(!s.paused);
    s.tick();
    assert_eq!(s.current.y, piece_before.y + 1);
}

#[test]
fn game_over_latches_until_reset() {
    let mut s = GameState::new();
    s.game_over = true;
    let piece = s.current;
    let queued = s.next;
    let board = snapshot(&s.board);
    let score = s.score;
    s.tick();
    s.move_horizontal(-1);
    s.move_horizontal(1);
    s.soft_drop();
    s.hard_drop();
    s.rotate();
    s.toggle_pause();
    assert!(s.game_over);
    assert!(!s.paused);
    assert_eq!(s.current, piece);
    assert_eq!(s.next, queued);
    assert_eq!(snapshot(&s.board), board);
    assert_eq!(s.score, score);
    s.reset();
    assert!(!s.game_over);
    assert!(!s.paused);
    assert_eq!(s.score, 0);
    assert_eq!(s.lines, 0);
    assert_eq!((s.current.x, s.current.y, s.current.rotation), (3, 0, 0));
    assert!(snapshot(&s.board).iter().all(|row| row.iter().all(|c| c.is_none())));
}

#[test]
fn score_and_lines_never_decrease() {
    let mut s = GameState::new();
    let mut last_score = s.score;
    let mut last_lines = s.lines;
    for step in 0..200 {
        match step % 7 {
            0 => s.tick(),
            1 => s.move_horizontal(-1),
            2 => s.rotate(),
            3 => s.soft_drop(),
            4 => s.move_horizontal(1),
            5 => s.hard_drop(),
            _ => s.tick(),
        }
        assert!(s.score >= last_score);
        assert!(s.lines >= last_lines);
        last_score = s.score;
        last_lines = s.lines;
    }
}

#[test]
fn spawn_blocked_by_stack_ends_game() {
    let mut s = GameState::new();
    // A solid wall of vertical pieces through the spawn columns.
    for x in 0..4 {
        for seg in 0..5 {
            s.board.lock_piece(&Piece {
                kind: TetrominoType::I,
                rotation: 1,
                x: 1 + x,
                y: seg * 4,
            });
        }
    }
    s.current = Piece { kind: TetrominoType::O, rotation: 0, x: 7, y: 18 };
    s.tick();
    // The lock succeeded but the next piece cannot spawn.
    assert!(s.game_over);
}

#[test]
fn commands_dispatch_like_direct_calls() {
    let mut s = GameState::new();
    let before = s.current;
    handle_command(&mut s, Command::SoftDrop);
    assert_eq!(s.current.y, before.y + 1);
    assert_eq!(s.score, 1);
    handle_command(&mut s, Command::TogglePause);
    assert!(s.paused);
    handle_command(&mut s, Command::MoveLeft);
    assert_eq!(s.current.x, before.x);
    // Reset is ignored while the game is running.
    handle_command(&mut s, Command::Reset);
    assert_eq!(s.score, 1);
    assert!(s.paused);
    s.game_over = true;
    handle_command(&mut s, Command::Reset);
    assert!(!s.game_over);
    assert_eq!(s.score, 0);
}
