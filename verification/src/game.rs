//! The game driver: the active piece, the movement validator, the lock and
//! line-clear engine, and the state machine tying them together.
//!
//! The driver reacts to discrete actions. A lateral move or a rotation that
//! collides is silently dropped; a downward move that collides locks the
//! piece into the board, clears full lines, and spawns a new piece at the
//! fixed spawn pose. A spawn whose pose already overlaps locked cells ends
//! the game: in the game-over state every action is rejected until a reset.

use vstd::prelude::*;
use crate::board::Board;
use crate::board::cell_at;
use crate::board::cell_index;
use crate::board::clear_from;
use crate::board::empty_grid;
use crate::board::in_bounds;
use crate::board::lock_cells;
use crate::board::AREA;
use crate::laws::lemma_occupied_cells_distinct;
use crate::pairs_view;
use crate::rng::draw_kind;
use crate::shape::color_of;
use crate::shape::lemma_offsets_bounds;
use crate::shape::lemma_rotate_bounds;
use crate::shape::occupied_cells;
use crate::shape::occupied_cells_at;
use crate::shape::offsets;
use crate::shape::period;
use crate::shape::rotate;
use crate::shape::Tetromino;
use crate::COLUMNS;
use crate::ROWS;

verus! {

/// A discrete intent: one input action or the synthesized fall tick.
#[derive(Clone, Copy, PartialEq, Eq, Structural, Debug)]
pub enum Action {
    Left,
    Right,
    Down,
    Rotate,
}

/// The driver's control state: the piece is falling, or the last spawn
/// overlapped locked cells and the game is over.
#[derive(Clone, Copy, PartialEq, Eq, Structural, Debug)]
pub enum GameState {
    Falling,
    GameOver,
}

/// Lateral coordinate of the fixed spawn anchor.
pub const SPAWN_ROW: i32 = 5;

/// Gravity coordinate of the fixed spawn anchor.
pub const SPAWN_COL: i32 = 2;

/// The abstract state of a game: the grid of locked cells, the active
/// piece's kind, orientation and anchor, and whether the game is over.
pub ghost struct GameView {
    pub board: Seq<u32>,
    pub kind: Tetromino,
    pub orient: nat,
    pub row: int,
    pub col: int,
    pub over: bool,
}

/// The four cells occupied by the active piece of `v`.
pub open spec fn pose_cells(v: GameView) -> Seq<(int, int)> {
    occupied_cells(v.kind, v.orient, v.row, v.col)
}

/// Whether every cell of the given pose is inside the grid.
pub open spec fn cells_in_bounds(k: Tetromino, orient: nat, row: int, col: int) -> bool {
    forall|i: int|
        0 <= i < 4 ==> {
            let p = #[trigger] occupied_cells(k, orient, row, col)[i];
            in_bounds(p.0, p.1)
        }
}

/// The acceptance test of the movement validator: every cell of the pose is
/// inside the grid and empty on `board`.
pub open spec fn pose_ok(board: Seq<u32>, k: Tetromino, orient: nat, row: int, col: int) -> bool {
    forall|i: int|
        0 <= i < 4 ==> {
            let p = #[trigger] occupied_cells(k, orient, row, col)[i];
            in_bounds(p.0, p.1) && cell_at(board, p.0, p.1) == 0
        }
}

/// An anchor that some in-bounds pose can have: within two cells of the grid
/// on each axis.
pub open spec fn anchor_in_range(row: int, col: int) -> bool {
    -2 <= row <= ROWS as int + 1 && -2 <= col <= COLUMNS as int + 1
}

/// Well-formedness of a game state: the grid has one value per cell, the
/// orientation is reduced, the active pose lies inside the grid, and while
/// the game is running the active pose overlaps no locked cell.
pub open spec fn wf_view(v: GameView) -> bool {
    &&& v.board.len() == AREA as int
    &&& v.orient < 4
    &&& anchor_in_range(v.row, v.col)
    &&& cells_in_bounds(v.kind, v.orient, v.row, v.col)
    &&& (!v.over ==> pose_ok(v.board, v.kind, v.orient, v.row, v.col))
}

/// The pose an action asks for: Left and Right move the anchor along the
/// lateral axis, Down along the gravity axis, Rotate advances the
/// orientation by one step.
pub open spec fn tentative(v: GameView, a: Action) -> (int, int, nat) {
    match a {
        Action::Left => (v.row - 1, v.col, v.orient),
        Action::Right => (v.row + 1, v.col, v.orient),
        Action::Down => (v.row, v.col + 1, v.orient),
        Action::Rotate => (v.row, v.col, ((v.orient + 1) % 4) as nat),
    }
}

/// Whether the pose an action asks for is accepted against the board.
pub open spec fn can_move(v: GameView, a: Action) -> bool {
    let t = tentative(v, a);
    pose_ok(v.board, v.kind, t.2, t.0, t.1)
}

/// The state after an accepted move: only the pose changes.
pub open spec fn moved_view(v: GameView, a: Action) -> GameView {
    let t = tentative(v, a);
    GameView { row: t.0, col: t.1, orient: t.2, ..v }
}

/// The state after a spawn on `board`: kind `k` at the fixed spawn pose.
/// A spawn whose pose overlaps locked cells ends the game.
pub open spec fn spawned_view(board: Seq<u32>, k: Tetromino) -> GameView {
    GameView {
        board,
        kind: k,
        orient: 0,
        row: SPAWN_ROW as int,
        col: SPAWN_COL as int,
        over: !pose_ok(board, k, 0, SPAWN_ROW as int, SPAWN_COL as int),
    }
}

/// The board after committing the active piece of `v` in its kind's color.
pub open spec fn locked_board(v: GameView) -> Seq<u32> {
    lock_cells(v.board, pose_cells(v), color_of(v.kind))
}

/// One transition of the state machine on action `a`, with `next` the kind
/// drawn for the piece spawned if the action locks. In the game-over state
/// every action is rejected. An accepted move commits the new pose. A
/// rejected lateral move or rotation changes nothing. A rejected downward
/// move locks the piece, clears full lines, and spawns `next`.
pub open spec fn step(v: GameView, a: Action, next: Tetromino) -> GameView {
    if v.over {
        v
    } else if can_move(v, a) {
        moved_view(v, a)
    } else if a != Action::Down {
        v
    } else {
        spawned_view(clear_from(locked_board(v), 0), next)
    }
}

/// The render snapshot of `v`: the grid with the active piece's four cells
/// painted in its kind's color, flattened like the board itself.
pub open spec fn snapshot_view(v: GameView) -> Seq<u32> {
    Seq::new(
        v.board.len(),
        |i: int|
            if exists|j: int|
                0 <= j < 4 && cell_index(
                    #[trigger] pose_cells(v)[j].0,
                    pose_cells(v)[j].1,
                ) == i {
                color_of(v.kind)
            } else {
                v.board[i]
            },
    )
}

/// An anchor whose pose lies inside the grid is itself near the grid.
proof fn lemma_pose_anchor_range(k: Tetromino, orient: nat, row: int, col: int)
    requires
        cells_in_bounds(k, orient, row, col),
    ensures
        anchor_in_range(row, col),
{
    lemma_offsets_bounds(k);
    lemma_rotate_bounds(offsets(k)[0], orient % period(k), 2);
    assert(occupied_cells(k, orient, row, col)[0] == {
        let q = rotate(offsets(k)[0], orient % period(k));
        (q.0 + row, q.1 + col)
    });
    assert(in_bounds(
        occupied_cells(k, orient, row, col)[0].0,
        occupied_cells(k, orient, row, col)[0].1,
    ));
}

/// The fixed spawn pose lies inside the grid for every kind.
proof fn lemma_spawn_cells_in_bounds(k: Tetromino)
    ensures
        cells_in_bounds(k, 0, SPAWN_ROW as int, SPAWN_COL as int),
{
    lemma_offsets_bounds(k);
    assert forall|i: int| 0 <= i < 4 implies {
        let p = #[trigger] occupied_cells(k, 0, SPAWN_ROW as int, SPAWN_COL as int)[i];
        in_bounds(p.0, p.1)
    } by {
        assert(rotate(offsets(k)[i], 0) == offsets(k)[i]);
        assert(occupied_cells(k, 0, SPAWN_ROW as int, SPAWN_COL as int)[i] == (
            offsets(k)[i].0 + SPAWN_ROW as int,
            offsets(k)[i].1 + SPAWN_COL as int,
        ));
    }
}

/// The game driver.
pub struct Tetris {
    board: Board,
    tetromino: Tetromino,
    orient: u32,
    row: i32,
    column: i32,
    state: GameState,
}

impl View for Tetris {
    type V = GameView;

    closed spec fn view(&self) -> GameView {
        GameView {
            board: self.board@,
            kind: self.tetromino,
            orient: self.orient as nat,
            row: self.row as int,
            col: self.column as int,
            over: self.state == GameState::GameOver,
        }
    }
}

impl Tetris {
    /// Well-formedness of the driver.
    pub open spec fn wf(&self) -> bool {
        wf_view(self@)
    }

    /// A new game: an empty board and a piece of kind `k` at the fixed spawn
    /// pose. On an empty board the spawn pose never collides.
    pub fn new_with_kind(k: Tetromino) -> (t: Tetris)
        ensures
            t.wf(),
            t@ == spawned_view(empty_grid(), k),
            !t@.over,
    {
        let mut t = Tetris {
            board: Board::new(),
            tetromino: k,
            orient: 0,
            row: SPAWN_ROW,
            column: SPAWN_COL,
            state: GameState::Falling,
        };
        t.spawn_with(k);
        proof {
            assert(!spawned_view(empty_grid(), k).over) by {
                lemma_spawn_cells_in_bounds(k);
                assert forall|i: int| 0 <= i < 4 implies {
                    let p = #[trigger] occupied_cells(
                        k,
                        0,
                        SPAWN_ROW as int,
                        SPAWN_COL as int,
                    )[i];
                    in_bounds(p.0, p.1) && cell_at(empty_grid(), p.0, p.1) == 0
                } by {
                    let p = occupied_cells(k, 0, SPAWN_ROW as int, SPAWN_COL as int)[i];
                    assert(in_bounds(p.0, p.1));
                    assert(empty_grid()[cell_index(p.0, p.1)] == 0u32);
                }
            }
        }
        t
    }

    /// A new game with a randomly drawn kind.
    pub fn new() -> (t: Tetris)
        ensures
            t.wf(),
            !t@.over,
            exists|k: Tetromino| t@ == spawned_view(empty_grid(), k),
    {
        let k = draw_kind();
        let t = Self::new_with_kind(k);
        proof {
            assert(t@ == spawned_view(empty_grid(), k));
        }
        t
    }

    /// The kind of the active piece.
    pub fn kind(&self) -> (k: Tetromino)
        ensures
            k == self@.kind,
    {
        self.tetromino
    }

    /// The orientation of the active piece.
    pub fn orientation(&self) -> (o: u32)
        ensures
            o as nat == self@.orient,
    {
        self.orient
    }

    /// The lateral coordinate of the active piece's anchor.
    pub fn anchor_row(&self) -> (r: i32)
        ensures
            r as int == self@.row,
    {
        self.row
    }

    /// The gravity coordinate of the active piece's anchor.
    pub fn anchor_col(&self) -> (c: i32)
        ensures
            c as int == self@.col,
    {
        self.column
    }

    /// The driver's control state.
    pub fn state(&self) -> (s: GameState)
        ensures
            (s == GameState::GameOver) == self@.over,
    {
        self.state
    }

    /// The value of the board cell at `(row, col)`: zero if empty, else the
    /// color of the piece locked there.
    pub fn board_cell(&self, row: usize, col: usize) -> (v: u32)
        requires
            self.wf(),
            row < ROWS,
            col < COLUMNS,
        ensures
            v == cell_at(self@.board, row as int, col as int),
    {
        self.board.cell(row, col)
    }

    /// The four board cells of a piece of this game's kind at the given
    /// anchor and orientation.
    pub fn blocks(&self, row: usize, column: usize, orient: u32) -> (v: Vec<(i32, i32)>)
        requires
            row <= (i32::MAX - 8) as usize,
            column <= (i32::MAX - 8) as usize,
        ensures
            v@.len() == 4,
            pairs_view(v@) == occupied_cells(self@.kind, orient as nat, row as int, column as int),
    {
        occupied_cells_at(self.tetromino, orient, row as i32, column as i32)
    }

    /// Replace the active piece: kind `k` at the fixed spawn pose with
    /// orientation zero, whatever the piece it replaces was. The game is over
    /// exactly when the spawn pose overlaps a locked cell.
    pub fn spawn_with(&mut self, k: Tetromino)
        requires
            old(self)@.board.len() == AREA as int,
        ensures
            final(self).wf(),
            final(self)@ == spawned_view(old(self)@.board, k),
    {
        self.tetromino = k;
        self.orient = 0;
        self.row = SPAWN_ROW;
        self.column = SPAWN_COL;
        let cells = occupied_cells_at(k, 0, SPAWN_ROW, SPAWN_COL);
        let ok = self.board.fits(&cells);
        self.state = if ok {
            GameState::Falling
        } else {
            GameState::GameOver
        };
        proof {
            lemma_spawn_cells_in_bounds(k);
            assert(ok == pose_ok(self@.board, k, 0, SPAWN_ROW as int, SPAWN_COL as int));
        }
    }

    /// Replace the active piece with a randomly drawn kind at the fixed
    /// spawn pose.
    pub fn spawn(&mut self)
        requires
            old(self)@.board.len() == AREA as int,
        ensures
            final(self).wf(),
            exists|k: Tetromino| final(self)@ == spawned_view(old(self)@.board, k),
    {
        let k = draw_kind();
        self.spawn_with(k);
    }

    /// Start over: an empty board and a piece of kind `k` at the fixed
    /// spawn pose.
    pub fn reset_with(&mut self, k: Tetromino)
        ensures
            final(self).wf(),
            final(self)@ == spawned_view(empty_grid(), k),
            !final(self)@.over,
    {
        let t = Self::new_with_kind(k);
        *self = t;
    }

    /// Start over with a randomly drawn kind.
    pub fn reset(&mut self)
        ensures
            final(self).wf(),
            !final(self)@.over,
            exists|k: Tetromino| final(self)@ == spawned_view(empty_grid(), k),
    {
        let k = draw_kind();
        self.reset_with(k);
    }

    /// Attempt one action: compute the tentative pose, accept it and commit
    /// iff all four of its cells are inside the grid and empty. On rejection
    /// nothing changes.
    fn try_advance(&mut self, action: Action) -> (ok: bool)
        requires
            old(self).wf(),
            !old(self)@.over,
        ensures
            final(self).wf(),
            ok == can_move(old(self)@, action),
            ok ==> final(self)@ == moved_view(old(self)@, action),
            !ok ==> final(self)@ == old(self)@,
    {
        let (trow, tcol, torient): (i32, i32, u32) = match action {
            Action::Left => (self.row - 1, self.column, self.orient),
            Action::Right => (self.row + 1, self.column, self.orient),
            Action::Down => (self.row, self.column + 1, self.orient),
            Action::Rotate => (self.row, self.column, (self.orient + 1) % 4),
        };
        proof {
            assert((trow as int, tcol as int, torient as nat) == tentative(old(self)@, action));
        }
        let cells = occupied_cells_at(self.tetromino, torient, trow, tcol);
        let ok = self.board.fits(&cells);
        proof {
            assert(ok == can_move(old(self)@, action));
        }
        if ok {
            self.row = trow;
            self.column = tcol;
            self.orient = torient;
            proof {
                assert forall|i: int| 0 <= i < 4 implies {
                    let p = #[trigger] occupied_cells(
                        self@.kind,
                        self@.orient,
                        self@.row,
                        self@.col,
                    )[i];
                    in_bounds(p.0, p.1)
                } by {
                    assert(pose_ok(self@.board, self@.kind, self@.orient, self@.row, self@.col));
                }
                lemma_pose_anchor_range(self@.kind, self@.orient, self@.row, self@.col);
            }
        }
        ok
    }

    /// React to one action, with `next` the kind spawned if the action locks.
    /// In the game-over state nothing changes. An accepted move commits its
    /// pose. A rejected lateral move or rotation is dropped. A rejected
    /// downward move locks the piece into the board in its kind's color,
    /// clears every full line, and spawns a piece of kind `next`.
    pub fn advance_with(&mut self, action: Action, next: Tetromino)
        requires
            old(self).wf(),
        ensures
            final(self).wf(),
            final(self)@ == step(old(self)@, action, next),
    {
        if matches!(self.state, GameState::GameOver) {
            return ;
        }
        let moved = self.try_advance(action);
        if !moved && matches!(action, Action::Down) {
            let color = self.tetromino.color();
            let cells = occupied_cells_at(self.tetromino, self.orient, self.row, self.column);
            proof {
                lemma_occupied_cells_distinct(self@.kind, self@.orient, self@.row, self@.col);
                assert forall|i: int, j: int| 0 <= i < j < 4 implies cells@[i] != cells@[j] by {
                    assert(pairs_view(cells@)[i] != pairs_view(cells@)[j]);
                }
                assert(pose_ok(self@.board, self@.kind, self@.orient, self@.row, self@.col));
                assert forall|i: int| 0 <= i < 4 implies in_bounds(
                    cells@[i].0 as int,
                    cells@[i].1 as int,
                ) && cell_at(self@.board, cells@[i].0 as int, cells@[i].1 as int) == 0 by {
                    assert(pairs_view(cells@)[i] == (cells@[i].0 as int, cells@[i].1 as int));
                    let p = occupied_cells(self@.kind, self@.orient, self@.row, self@.col)[i];
                    assert(in_bounds(p.0, p.1) && cell_at(self@.board, p.0, p.1) == 0);
                }
            }
            self.board.lock(&cells, color);
            self.board.clear_full_lines();
            proof {
                assert(self@.board == clear_from(locked_board(old(self)@), 0));
            }
            self.spawn_with(next);
        }
    }

    /// React to one action, drawing the kind of any spawned piece from the
    /// outside generator.
    pub fn advance(&mut self, action: Action)
        requires
            old(self).wf(),
        ensures
            final(self).wf(),
            exists|k: Tetromino| final(self)@ == step(old(self)@, action, k),
    {
        let k = draw_kind();
        self.advance_with(action, k);
    }

    /// React to a key press: the mapped action is processed exactly as by
    /// `advance`; in particular a rejected downward press still locks the
    /// piece. Mapping key codes to actions, and ignoring unmapped keys, is
    /// the front end's job.
    pub fn handle_action(&mut self, action: Action)
        requires
            old(self).wf(),
        ensures
            final(self).wf(),
            exists|k: Tetromino| final(self)@ == step(old(self)@, action, k),
    {
        self.advance(action);
    }

    /// The render snapshot: a flattened copy of the board with the active
    /// piece's four cells painted in its kind's color. The board itself is
    /// not changed.
    pub fn snapshot(&self) -> (out: Vec<u32>)
        requires
            self.wf(),
        ensures
            out@ == snapshot_view(self@),
    {
        let mut out = self.board.to_vec();
        let cells = occupied_cells_at(self.tetromino, self.orient, self.row, self.column);
        let color = self.tetromino.color();
        let ghost pc = pose_cells(self@);
        let mut i: usize = 0;
        while i < 4
            invariant
                self.wf(),
                i <= 4,
                cells@.len() == 4,
                pairs_view(cells@) == pc,
                pc == pose_cells(self@),
                color == color_of(self@.kind),
                out@.len() == AREA as int,
                forall|r: int, c: int|
                    in_bounds(r, c) ==> cell_at(out@, r, c) == if exists|j: int|
                        0 <= j < i as int && #[trigger] pc[j] == (r, c) {
                        color_of(self@.kind)
                    } else {
                        cell_at(self@.board, r, c)
                    },
            decreases 4 - i,
        {
            let p = cells[i];
            proof {
                assert(pc[i as int] == (p.0 as int, p.1 as int));
                assert(in_bounds(p.0 as int, p.1 as int));
            }
            let idx: usize = (p.1 as usize) * ROWS + (p.0 as usize);
            let ghost prev = out@;
            out[idx] = color;
            proof {
                assert(idx as int == cell_index(p.0 as int, p.1 as int));
                assert(out@ == prev.update(cell_index(p.0 as int, p.1 as int), color));
                crate::board::lemma_cell_at_update(prev, p.0 as int, p.1 as int, color);
                assert forall|r: int, c: int| in_bounds(r, c) implies cell_at(out@, r, c) == (
                if exists|j: int| 0 <= j < i as int + 1 && #[trigger] pc[j] == (r, c) {
                    color_of(self@.kind)
                } else {
                    cell_at(self@.board, r, c)
                }) by {
                    if r == p.0 as int && c == p.1 as int {
                        assert(pc[i as int] == (r, c));
                    } else {
                        assert(cell_at(out@, r, c) == cell_at(prev, r, c));
                        assert forall|j: int| 0 <= j < i as int + 1 && #[trigger] pc[j] == (r, c)
                            implies j < i as int by {}
                    }
                }
            }
            i += 1;
        }
        proof {
            let s = snapshot_view(self@);
            assert(s.len() == AREA as int);
            assert forall|r: int, c: int| in_bounds(r, c) implies cell_at(out@, r, c) == cell_at(
                s,
                r,
                c,
            ) by {
                let ii = cell_index(r, c);
                assert(s[ii] == if exists|j: int|
                    0 <= j < 4 && cell_index(#[trigger] pc[j].0, pc[j].1) == ii {
                    color_of(self@.kind)
                } else {
                    self@.board[ii]
                });
                if exists|j: int| 0 <= j < 4 && cell_index(#[trigger] pc[j].0, pc[j].1) == ii {
                    let j = choose|j: int|
                        0 <= j < 4 && cell_index(#[trigger] pc[j].0, pc[j].1) == ii;
                    assert(in_bounds(pc[j].0, pc[j].1));
                    crate::board::lemma_cell_index_injective(pc[j].0, pc[j].1, r, c);
                    assert(pc[j] == (r, c));
                } else {
                    assert forall|j: int| 0 <= j < 4 implies #[trigger] pc[j] != (r, c) by {
                        if pc[j] == (r, c) {
                            assert(cell_index(pc[j].0, pc[j].1) == ii);
                        }
                    }
                }
            }
            crate::board::lemma_grid_ext(out@, s);
        }
        out
    }
}

} // verus!
