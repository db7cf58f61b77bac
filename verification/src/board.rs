//! The board: a fixed-size grid of `ROWS x COLUMNS` cells. Each cell holds
//! either zero ("empty") or a 24-bit color value identifying a locked block.
//!
//! The grid is stored flattened, one line (a fixed gravity-axis index) after
//! another: the cell at lateral coordinate `row` and gravity coordinate `col`
//! lives at index `col * ROWS + row`. Cells are only ever written by the lock
//! step or moved and zeroed by the line-clear step.

use vstd::prelude::*;
use crate::pairs_view;
use crate::COLUMNS;
use crate::ROWS;

verus! {

/// Total number of cells in the grid.
pub const AREA: usize = ROWS * COLUMNS;

/// Whether `(row, col)` is a coordinate inside the grid.
pub open spec fn in_bounds(row: int, col: int) -> bool {
    0 <= row < ROWS as int && 0 <= col < COLUMNS as int
}

/// The flattened index of the cell at `(row, col)`.
pub open spec fn cell_index(row: int, col: int) -> int {
    col * ROWS as int + row
}

/// The value of the cell at `(row, col)` in a flattened grid.
pub open spec fn cell_at(b: Seq<u32>, row: int, col: int) -> u32 {
    b[cell_index(row, col)]
}

/// The grid with every cell empty.
pub open spec fn empty_grid() -> Seq<u32> {
    Seq::new(AREA as nat, |i: int| 0u32)
}

/// Whether the line at gravity coordinate `col` is full: every cell along the
/// lateral axis at that index is non-empty.
pub open spec fn line_full(b: Seq<u32>, col: int) -> bool {
    forall|r: int| 0 <= r < ROWS as int ==> cell_at(b, r, col) != 0
}

/// The grid after clearing the line at gravity coordinate `c`: every line
/// closer to the spawn side (a smaller gravity coordinate) shifts by one into
/// the cleared line's place, and the line at coordinate zero becomes empty.
/// Lines beyond `c` are unchanged.
pub open spec fn shift_down(b: Seq<u32>, c: int) -> Seq<u32> {
    Seq::new(
        b.len(),
        |i: int|
            if i >= (c + 1) * ROWS as int {
                b[i]
            } else if i < ROWS as int {
                0u32
            } else {
                b[i - ROWS as int]
            },
    )
}

/// The grid after one scan over the lines from gravity coordinate `c` to the
/// far end, clearing each full line as it is met. Scanning from the spawn
/// side is complete: a shift moves whole lines without changing their
/// contents, so it can only move an already-scanned, non-full line into an
/// already-scanned position.
pub open spec fn clear_from(b: Seq<u32>, c: int) -> Seq<u32>
    decreases COLUMNS as int - c,
{
    if c < 0 || c >= COLUMNS as int {
        b
    } else if line_full(b, c) {
        clear_from(shift_down(b, c), c + 1)
    } else {
        clear_from(b, c + 1)
    }
}

/// How many cells of the grid are non-empty.
pub open spec fn count_nonempty(b: Seq<u32>) -> nat
    decreases b.len(),
{
    if b.len() == 0 {
        0
    } else {
        count_nonempty(b.drop_last()) + if b.last() != 0 {
            1nat
        } else {
            0nat
        }
    }
}

/// The grid after writing `color` into each coordinate of `cells`, in order.
pub open spec fn lock_cells(b: Seq<u32>, cells: Seq<(int, int)>, color: u32) -> Seq<u32>
    decreases cells.len(),
{
    if cells.len() == 0 {
        b
    } else {
        lock_cells(b.update(cell_index(cells.first().0, cells.first().1), color), cells.drop_first(), color)
    }
}

/// The persisted grid of locked cells.
pub struct Board {
    cells: Vec<u32>,
}

impl View for Board {
    type V = Seq<u32>;

    closed spec fn view(&self) -> Seq<u32> {
        self.cells@
    }
}

/// Two grids that agree on every in-bounds coordinate are equal.
pub proof fn lemma_grid_ext(a: Seq<u32>, b: Seq<u32>)
    requires
        a.len() == AREA as int,
        b.len() == AREA as int,
        forall|r: int, c: int| in_bounds(r, c) ==> cell_at(a, r, c) == cell_at(b, r, c),
    ensures
        a == b,
{
    assert forall|i: int| 0 <= i < AREA as int implies a[i] == b[i] by {
        vstd::arithmetic::div_mod::lemma_fundamental_div_mod(i, ROWS as int);
        let r = i % ROWS as int;
        let c = i / ROWS as int;
        vstd::arithmetic::div_mod::lemma_mod_bound(i, ROWS as int);
        vstd::arithmetic::div_mod::lemma_div_pos_is_pos(i, ROWS as int);
        vstd::arithmetic::div_mod::lemma_multiply_divide_lt(i, ROWS as int, COLUMNS as int);
        assert(in_bounds(r, c));
        assert(a[i] == cell_at(a, r, c));
    }
    assert(a =~= b);
}

/// Distinct in-bounds coordinates have distinct flattened indices.
pub proof fn lemma_cell_index_injective(r1: int, c1: int, r2: int, c2: int)
    requires
        in_bounds(r1, c1),
        in_bounds(r2, c2),
        cell_index(r1, c1) == cell_index(r2, c2),
    ensures
        r1 == r2 && c1 == c2,
{
}

/// Updating one in-bounds cell changes that cell to the new value and leaves
/// every other cell as it was.
pub proof fn lemma_cell_at_update(b: Seq<u32>, row: int, col: int, v: u32)
    requires
        b.len() == AREA as int,
        in_bounds(row, col),
    ensures
        forall|r: int, c: int|
            in_bounds(r, c) ==> cell_at(b.update(cell_index(row, col), v), r, c) == if r == row
                && c == col {
                v
            } else {
                cell_at(b, r, c)
            },
{
    assert forall|r: int, c: int| in_bounds(r, c) implies cell_at(
        b.update(cell_index(row, col), v),
        r,
        c,
    ) == if r == row && c == col {
        v
    } else {
        cell_at(b, r, c)
    } by {
        if r == row && c == col {
        } else {
            assert(cell_index(r, c) != cell_index(row, col));
        }
    }
}

/// Writing a non-zero value into an empty cell raises the number of
/// non-empty cells by exactly one.
pub proof fn lemma_count_update_nonempty(b: Seq<u32>, j: int, v: u32)
    requires
        0 <= j < b.len(),
        b[j] == 0,
        v != 0,
    ensures
        count_nonempty(b.update(j, v)) == count_nonempty(b) + 1,
    decreases b.len(),
{
    let u = b.update(j, v);
    if j == b.len() - 1 {
        assert(u.drop_last() =~= b.drop_last());
        assert(u.last() == v);
    } else {
        assert(u.drop_last() =~= b.drop_last().update(j, v));
        assert(u.last() == b.last());
        lemma_count_update_nonempty(b.drop_last(), j, v);
    }
}

impl Board {
    /// Whether the board representation is well formed: the flattened grid
    /// has exactly one value per cell.
    pub open spec fn wf(&self) -> bool {
        self@.len() == AREA as int
    }

    /// A board with every cell empty.
    pub fn new() -> (b: Board)
        ensures
            b.wf(),
            b@ == empty_grid(),
    {
        let mut cells: Vec<u32> = Vec::new();
        let mut i: usize = 0;
        while i < AREA
            invariant
                i <= AREA,
                cells@.len() == i as int,
                forall|j: int| 0 <= j < i as int ==> cells@[j] == 0u32,
            decreases AREA - i,
        {
            cells.push(0);
            i += 1;
        }
        let b = Board { cells };
        proof {
            assert(b@ =~= empty_grid());
        }
        b
    }

    /// The value of the cell at `(row, col)`.
    pub fn cell(&self, row: usize, col: usize) -> (v: u32)
        requires
            self.wf(),
            row < ROWS,
            col < COLUMNS,
        ensures
            v == cell_at(self@, row as int, col as int),
    {
        self.cells[col * ROWS + row]
    }

    /// Write `v` into the cell at `(row, col)`.
    pub fn set_cell(&mut self, row: usize, col: usize, v: u32)
        requires
            old(self).wf(),
            row < ROWS,
            col < COLUMNS,
        ensures
            final(self).wf(),
            final(self)@ == old(self)@.update(cell_index(row as int, col as int), v),
    {
        self.cells[col * ROWS + row] = v;
    }

    /// Whether the line at gravity coordinate `col` is full.
    pub fn is_line_full(&self, col: usize) -> (full: bool)
        requires
            self.wf(),
            col < COLUMNS,
        ensures
            full == line_full(self@, col as int),
    {
        let mut r: usize = 0;
        while r < ROWS
            invariant
                self.wf(),
                col < COLUMNS,
                r <= ROWS,
                forall|j: int| 0 <= j < r as int ==> cell_at(self@, j, col as int) != 0,
            decreases ROWS - r,
        {
            if self.cell(r, col) == 0 {
                return false;
            }
            r += 1;
        }
        true
    }

    /// A copy of the flattened grid.
    pub fn to_vec(&self) -> (v: Vec<u32>)
        requires
            self.wf(),
        ensures
            v@ == self@,
    {
        let mut v: Vec<u32> = Vec::new();
        let mut i: usize = 0;
        while i < AREA
            invariant
                self.wf(),
                i <= AREA,
                v@.len() == i as int,
                forall|j: int| 0 <= j < i as int ==> v@[j] == self@[j],
            decreases AREA - i,
        {
            v.push(self.cells[i]);
            i += 1;
        }
        proof {
            assert(v@ =~= self@);
        }
        v
    }

    /// Whether all four given cells are inside the grid and empty: the
    /// acceptance test of the movement validator.
    pub fn fits(&self, cells: &Vec<(i32, i32)>) -> (ok: bool)
        requires
            self.wf(),
            cells@.len() == 4,
        ensures
            ok == (forall|i: int|
                0 <= i < 4 ==> {
                    let p = #[trigger] pairs_view(cells@)[i];
                    in_bounds(p.0, p.1) && cell_at(self@, p.0, p.1) == 0
                }),
    {
        let mut i: usize = 0;
        while i < 4
            invariant
                self.wf(),
                cells@.len() == 4,
                i <= 4,
                forall|j: int|
                    0 <= j < i as int ==> {
                        let p = #[trigger] pairs_view(cells@)[j];
                        in_bounds(p.0, p.1) && cell_at(self@, p.0, p.1) == 0
                    },
            decreases 4 - i,
        {
            let p = cells[i];
            if p.0 < 0 || p.0 >= ROWS as i32 || p.1 < 0 || p.1 >= COLUMNS as i32 {
                proof {
                    assert(pairs_view(cells@)[i as int] == (p.0 as int, p.1 as int));
                    assert(!in_bounds(pairs_view(cells@)[i as int].0, pairs_view(cells@)[i as int].1));
                }
                return false;
            }
            if self.cell(p.0 as usize, p.1 as usize) != 0 {
                proof {
                    assert(pairs_view(cells@)[i as int] == (p.0 as int, p.1 as int));
                }
                return false;
            }
            proof {
                assert(pairs_view(cells@)[i as int] == (p.0 as int, p.1 as int));
            }
            i += 1;
        }
        true
    }

    /// Commit a piece into the board: write `color` into each of the four
    /// given cells. The cells must be distinct, in bounds, and empty, so the
    /// number of non-empty cells rises by exactly four.
    pub fn lock(&mut self, cells: &Vec<(i32, i32)>, color: u32)
        requires
            old(self).wf(),
            color != 0,
            cells@.len() == 4,
            forall|i: int| 0 <= i < 4 ==> in_bounds(cells@[i].0 as int, cells@[i].1 as int),
            forall|i: int|
                0 <= i < 4 ==> cell_at(old(self)@, cells@[i].0 as int, cells@[i].1 as int) == 0,
            forall|i: int, j: int| 0 <= i < j < 4 ==> cells@[i] != cells@[j],
        ensures
            final(self).wf(),
            final(self)@ == lock_cells(old(self)@, pairs_view(cells@), color),
            count_nonempty(final(self)@) == count_nonempty(old(self)@) + 4,
    {
        let ghost pc = pairs_view(cells@);
        proof {
            assert(pc.skip(0) =~= pc);
        }
        let mut i: usize = 0;
        while i < 4
            invariant
                self.wf(),
                i <= 4,
                color != 0,
                cells@.len() == 4,
                pc == pairs_view(cells@),
                forall|k: int| 0 <= k < 4 ==> in_bounds(cells@[k].0 as int, cells@[k].1 as int),
                forall|k: int, j: int| 0 <= k < j < 4 ==> cells@[k] != cells@[j],
                forall|j: int|
                    i as int <= j < 4 ==> cell_at(self@, cells@[j].0 as int, cells@[j].1 as int)
                        == 0,
                lock_cells(self@, pc.skip(i as int), color) == lock_cells(old(self)@, pc, color),
                count_nonempty(self@) == count_nonempty(old(self)@) + i as int,
            decreases 4 - i,
        {
            let p = cells[i];
            let ghost prev = self@;
            let ghost row = p.0 as int;
            let ghost col = p.1 as int;
            self.set_cell(p.0 as usize, p.1 as usize, color);
            proof {
                lemma_cell_at_update(prev, row, col, color);
                assert(0 <= cell_index(row, col) < AREA as int);
                lemma_count_update_nonempty(prev, cell_index(row, col), color);
                // One unfolding of the fold over the remaining cells.
                assert(pc.skip(i as int).first() == pc[i as int]);
                assert(pc.skip(i as int).drop_first() =~= pc.skip(i as int + 1));
                assert(lock_cells(prev, pc.skip(i as int), color) == lock_cells(
                    self@,
                    pc.skip(i as int + 1),
                    color,
                ));
                // The cells still to be written stay empty: they differ from
                // the one just written.
                assert forall|j: int|
                    i as int + 1 <= j < 4 implies cell_at(
                    self@,
                    cells@[j].0 as int,
                    cells@[j].1 as int,
                ) == 0 by {
                    assert(cells@[i as int] != cells@[j]);
                }
            }
            i += 1;
        }
        proof {
            assert(pc.skip(4).len() == 0);
        }
    }

    /// Remove the full line at gravity coordinate `c`: every line closer to
    /// the spawn side shifts by one into its place and the line at coordinate
    /// zero becomes empty.
    pub fn clear_line(&mut self, c: usize)
        requires
            old(self).wf(),
            c < COLUMNS,
        ensures
            final(self).wf(),
            final(self)@ == shift_down(old(self)@, c as int),
    {
        let mut col: usize = c;
        while col >= 1
            invariant
                self.wf(),
                col <= c,
                c < COLUMNS,
                forall|r: int, lc: int|
                    in_bounds(r, lc) ==> cell_at(self@, r, lc) == if (col as int) < lc && lc <= c as int {
                        cell_at(old(self)@, r, lc - 1)
                    } else {
                        cell_at(old(self)@, r, lc)
                    },
            decreases col,
        {
            let mut r: usize = 0;
            while r < ROWS
                invariant
                    self.wf(),
                    1 <= col <= c,
                    c < COLUMNS,
                    r <= ROWS,
                    forall|r2: int, lc: int|
                        in_bounds(r2, lc) ==> cell_at(self@, r2, lc) == if (col as int) < lc && lc <= c as int {
                            cell_at(old(self)@, r2, lc - 1)
                        } else if lc == col as int && r2 < (r as int) {
                            cell_at(old(self)@, r2, lc - 1)
                        } else {
                            cell_at(old(self)@, r2, lc)
                        },
                decreases ROWS - r,
            {
                let v = self.cell(r, col - 1);
                let ghost prev = self@;
                proof {
                    assert(in_bounds(r as int, col as int - 1));
                    assert(v == cell_at(old(self)@, r as int, col as int - 1));
                }
                self.set_cell(r, col, v);
                proof {
                    lemma_cell_at_update(prev, r as int, col as int, v);
                    assert forall|r2: int, lc: int| in_bounds(r2, lc) implies cell_at(
                        self@,
                        r2,
                        lc,
                    ) == (if (col as int) < lc && lc <= c as int {
                        cell_at(old(self)@, r2, lc - 1)
                    } else if lc == col as int && r2 < r as int + 1 {
                        cell_at(old(self)@, r2, lc - 1)
                    } else {
                        cell_at(old(self)@, r2, lc)
                    }) by {
                        if r2 == r as int && lc == col as int {
                            assert(cell_at(self@, r2, lc) == v);
                        } else {
                            assert(cell_at(self@, r2, lc) == cell_at(prev, r2, lc));
                        }
                    }
                }
                r += 1;
            }
            col -= 1;
        }
        let mut r: usize = 0;
        while r < ROWS
            invariant
                self.wf(),
                c < COLUMNS,
                r <= ROWS,
                forall|r2: int, lc: int|
                    in_bounds(r2, lc) ==> cell_at(self@, r2, lc) == if 0 < lc && lc <= c as int {
                        cell_at(old(self)@, r2, lc - 1)
                    } else if lc == 0 && r2 < (r as int) {
                        0u32
                    } else {
                        cell_at(old(self)@, r2, lc)
                    },
            decreases ROWS - r,
        {
            let ghost prev = self@;
            self.set_cell(r, 0, 0);
            proof {
                lemma_cell_at_update(prev, r as int, 0, 0u32);
            }
            r += 1;
        }
        proof {
            let s = shift_down(old(self)@, c as int);
            assert forall|r2: int, lc: int| in_bounds(r2, lc) implies cell_at(s, r2, lc)
                == cell_at(self@, r2, lc) by {
                let i = cell_index(r2, lc);
                assert(s[i] == if i >= (c as int + 1) * ROWS as int {
                    old(self)@[i]
                } else if i < ROWS as int {
                    0u32
                } else {
                    old(self)@[i - ROWS as int]
                });
                if !(i >= (c as int + 1) * ROWS as int) && !(i < ROWS as int) {
                    assert(i - ROWS as int == cell_index(r2, lc - 1));
                }
            }
            lemma_grid_ext(self@, s);
        }
    }

    /// One scan over all lines from the spawn side to the far end, clearing
    /// each full line as it is met.
    pub fn clear_full_lines(&mut self)
        requires
            old(self).wf(),
        ensures
            final(self).wf(),
            final(self)@ == clear_from(old(self)@, 0),
    {
        let mut c: usize = 0;
        while c < COLUMNS
            invariant
                self.wf(),
                c <= COLUMNS,
                clear_from(self@, c as int) == clear_from(old(self)@, 0),
            decreases COLUMNS - c,
        {
            let ghost prev = self@;
            if self.is_line_full(c) {
                self.clear_line(c);
                proof {
                    assert(clear_from(prev, c as int) == clear_from(self@, c as int + 1));
                }
            } else {
                proof {
                    assert(clear_from(prev, c as int) == clear_from(self@, c as int + 1));
                }
            }
            c += 1;
        }
    }
}

} // verus!
