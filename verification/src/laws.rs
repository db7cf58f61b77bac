//! Global properties of the simulation, stated and proved once over the
//! specification functions the executable contracts use.

use vstd::prelude::*;
use crate::board::cell_at;
use crate::board::cell_index;
use crate::board::clear_from;
use crate::board::in_bounds;
use crate::board::line_full;
use crate::board::shift_down;
use crate::board::AREA;
use crate::COLUMNS;
use crate::ROWS;
use crate::game::can_move;
use crate::game::pose_cells;
use crate::game::step;
use crate::game::tentative;
use crate::game::wf_view;
use crate::game::Action;
use crate::game::GameView;
use crate::shape::lemma_offsets_distinct;
use crate::shape::lemma_rotate_injective;
use crate::shape::occupied_cells;
use crate::shape::offsets;
use crate::shape::period;
use crate::shape::rotate;
use crate::shape::Tetromino;

verus! {

/// For every kind, orientation and anchor, the occupied cells are exactly
/// four pairwise distinct coordinates.
pub proof fn lemma_occupied_cells_distinct(k: Tetromino, orient: nat, row: int, col: int)
    ensures
        occupied_cells(k, orient, row, col).len() == 4,
        forall|i: int, j: int|
            0 <= i < j < 4 ==> #[trigger] occupied_cells(k, orient, row, col)[i]
                != #[trigger] occupied_cells(k, orient, row, col)[j],
{
    lemma_offsets_distinct(k);
    let s = occupied_cells(k, orient, row, col);
    let m = orient % period(k);
    assert forall|i: int, j: int| 0 <= i < j < 4 implies #[trigger] s[i] != #[trigger] s[j] by {
        let qi = rotate(offsets(k)[i], m);
        let qj = rotate(offsets(k)[j], m);
        assert(s[i] == (qi.0 + row, qi.1 + col));
        assert(s[j] == (qj.0 + row, qj.1 + col));
        if s[i] == s[j] {
            assert(qi == qj);
            lemma_rotate_injective(offsets(k)[i], offsets(k)[j], m);
        }
    }
}

/// The O kind is invariant under rotation: its occupied cells are identical
/// for every pair of orientations.
pub proof fn lemma_o_kind_rotation_invariant(o1: nat, o2: nat, row: int, col: int)
    ensures
        occupied_cells(Tetromino::O, o1, row, col) == occupied_cells(Tetromino::O, o2, row, col),
{
    let s1 = occupied_cells(Tetromino::O, o1, row, col);
    let s2 = occupied_cells(Tetromino::O, o2, row, col);
    assert forall|i: int| 0 <= i < 4 implies s1[i] == s2[i] by {
        assert(o1 % period(Tetromino::O) == 0);
        assert(o2 % period(Tetromino::O) == 0);
        assert(s1[i] == {
            let q = rotate(offsets(Tetromino::O)[i], 0);
            (q.0 + row, q.1 + col)
        });
        assert(s2[i] == {
            let q = rotate(offsets(Tetromino::O)[i], 0);
            (q.0 + row, q.1 + col)
        });
    }
    assert(s1 =~= s2);
}

/// The I kind has rotation period two: the occupied cells at orientation `o`
/// equal those at orientation `(o + 2) mod 4`.
pub proof fn lemma_i_kind_period_two(o: nat, row: int, col: int)
    ensures
        occupied_cells(Tetromino::I, o, row, col) == occupied_cells(
            Tetromino::I,
            ((o + 2) % 4) as nat,
            row,
            col,
        ),
{
    let o2 = ((o + 2) % 4) as nat;
    assert(o2 % 2 == o % 2) by {
        vstd::arithmetic::div_mod::lemma_mod_mod(o as int + 2, 2, 2);
        assert(((o + 2) % 4) % 2 == (o + 2) % 2);
        vstd::arithmetic::div_mod::lemma_mod_add_multiples_vanish(o as int, 2);
        assert((o + 2) % 2 == o % 2);
    }
    let s1 = occupied_cells(Tetromino::I, o, row, col);
    let s2 = occupied_cells(Tetromino::I, o2, row, col);
    assert forall|i: int| 0 <= i < 4 implies s1[i] == s2[i] by {
        assert(o % period(Tetromino::I) == o2 % period(Tetromino::I));
    }
    assert(s1 =~= s2);
}

/// How clearing the line at `c` moves line contents: the line at coordinate
/// zero becomes empty, every line up to `c` takes the contents of the line
/// one closer to the spawn side, and lines beyond `c` keep their own.
proof fn lemma_shift_line_contents(b: Seq<u32>, c: int)
    requires
        b.len() == AREA as int,
        0 <= c < COLUMNS as int,
    ensures
        !line_full(shift_down(b, c), 0),
        forall|lc: int|
            1 <= lc <= c ==> (#[trigger] line_full(shift_down(b, c), lc) == line_full(b, lc - 1)),
        forall|lc: int|
            c < lc < COLUMNS as int ==> (#[trigger] line_full(shift_down(b, c), lc) == line_full(
                b,
                lc,
            )),
{
    let s = shift_down(b, c);
    assert(cell_at(s, 0, 0) == 0) by {
        assert(cell_index(0, 0) == 0);
        assert(s[0] == 0u32);
    }
    assert forall|lc: int| 1 <= lc <= c implies (#[trigger] line_full(s, lc) == line_full(
        b,
        lc - 1,
    )) by {
        assert forall|r: int| 0 <= r < ROWS as int implies cell_at(s, r, lc) == cell_at(
            b,
            r,
            lc - 1,
        ) by {
            let i = cell_index(r, lc);
            assert(s[i] == b[i - ROWS as int]);
            assert(i - ROWS as int == cell_index(r, lc - 1));
        }
        if line_full(b, lc - 1) {
            assert forall|r: int| 0 <= r < ROWS as int implies cell_at(s, r, lc) != 0 by {
                assert(cell_at(b, r, lc - 1) != 0);
            }
            assert(line_full(s, lc));
        } else {
            let r0 = choose|r: int| 0 <= r < ROWS as int && #[trigger] cell_at(b, r, lc - 1) == 0;
            assert(cell_at(s, r0, lc) == 0);
            assert(!line_full(s, lc));
        }
    }
    assert forall|lc: int| c < lc < COLUMNS as int implies (#[trigger] line_full(s, lc)
        == line_full(b, lc)) by {
        assert forall|r: int| 0 <= r < ROWS as int implies cell_at(s, r, lc) == cell_at(
            b,
            r,
            lc,
        ) by {
            let i = cell_index(r, lc);
            assert(s[i] == b[i]);
        }
        if line_full(b, lc) {
            assert forall|r: int| 0 <= r < ROWS as int implies cell_at(s, r, lc) != 0 by {
                assert(cell_at(b, r, lc) != 0);
            }
            assert(line_full(s, lc));
        } else {
            let r0 = choose|r: int| 0 <= r < ROWS as int && #[trigger] cell_at(b, r, lc) == 0;
            assert(cell_at(s, r0, lc) == 0);
            assert(!line_full(s, lc));
        }
    }
}

/// No full line survives a scan that starts at `c` when no full line sits
/// before `c`: a shift moves whole lines without changing their contents, so
/// it can only move an already-scanned, non-full line into an
/// already-scanned position.
proof fn lemma_clear_from_no_full(b: Seq<u32>, c: int)
    requires
        b.len() == AREA as int,
        0 <= c <= COLUMNS as int,
        forall|lc: int| 0 <= lc < c ==> !(#[trigger] line_full(b, lc)),
    ensures
        forall|lc: int| 0 <= lc < COLUMNS as int ==> !(#[trigger] line_full(clear_from(b, c), lc)),
    decreases COLUMNS as int - c,
{
    if c >= COLUMNS as int {
        assert(clear_from(b, c) == b);
        assert forall|lc: int| 0 <= lc < COLUMNS as int implies !(#[trigger] line_full(
            clear_from(b, c),
            lc,
        )) by {
            assert(!line_full(b, lc));
        }
    } else if line_full(b, c) {
        let b2 = shift_down(b, c);
        lemma_shift_line_contents(b, c);
        assert(b2.len() == AREA as int);
        assert forall|lc: int| 0 <= lc < c + 1 implies !(#[trigger] line_full(b2, lc)) by {
            if lc == 0 {
            } else {
                assert(line_full(b2, lc) == line_full(b, lc - 1));
                assert(!line_full(b, lc - 1));
            }
        }
        lemma_clear_from_no_full(b2, c + 1);
        assert(clear_from(b, c) == clear_from(b2, c + 1));
    } else {
        assert forall|lc: int| 0 <= lc < c + 1 implies !(#[trigger] line_full(b, lc)) by {}
        lemma_clear_from_no_full(b, c + 1);
        assert(clear_from(b, c) == clear_from(b, c + 1));
    }
}

/// After the line-clear scan, no full line remains anywhere on the board.
pub proof fn lemma_clear_leaves_no_full_line(b: Seq<u32>)
    requires
        b.len() == AREA as int,
    ensures
        forall|c: int| 0 <= c < COLUMNS as int ==> !(#[trigger] line_full(clear_from(b, 0), c)),
{
    lemma_clear_from_no_full(b, 0);
}

/// A leftward move is rejected, and the state is left unchanged, when some
/// cell of the piece already touches the lateral coordinate zero.
pub proof fn lemma_left_rejected_at_wall(v: GameView, next: Tetromino)
    requires
        wf_view(v),
        exists|i: int| 0 <= i < 4 && #[trigger] pose_cells(v)[i].0 == 0,
    ensures
        !can_move(v, Action::Left),
        step(v, Action::Left, next) == v,
{
    let i = choose|i: int| 0 <= i < 4 && #[trigger] pose_cells(v)[i].0 == 0;
    let q = rotate(offsets(v.kind)[i], v.orient % period(v.kind));
    assert(pose_cells(v)[i] == (q.0 + v.row, q.1 + v.col));
    let t = tentative(v, Action::Left);
    let cell = occupied_cells(v.kind, t.2, t.0, t.1)[i];
    assert(cell == (q.0 + v.row - 1, q.1 + v.col));
    assert(cell.0 == -1);
    assert(!in_bounds(cell.0, cell.1));
}

/// A rightward move is rejected, and the state is left unchanged, when some
/// cell of the piece already touches the lateral maximum.
pub proof fn lemma_right_rejected_at_wall(v: GameView, next: Tetromino)
    requires
        wf_view(v),
        exists|i: int| 0 <= i < 4 && #[trigger] pose_cells(v)[i].0 == ROWS as int - 1,
    ensures
        !can_move(v, Action::Right),
        step(v, Action::Right, next) == v,
{
    let i = choose|i: int| 0 <= i < 4 && #[trigger] pose_cells(v)[i].0 == ROWS as int - 1;
    let q = rotate(offsets(v.kind)[i], v.orient % period(v.kind));
    assert(pose_cells(v)[i] == (q.0 + v.row, q.1 + v.col));
    let t = tentative(v, Action::Right);
    let cell = occupied_cells(v.kind, t.2, t.0, t.1)[i];
    assert(cell == (q.0 + v.row + 1, q.1 + v.col));
    assert(cell.0 == ROWS as int);
    assert(!in_bounds(cell.0, cell.1));
}

} // verus!
