//! The shape table: the seven tetromino kinds, their fixed display colors,
//! their block offsets in a local coordinate frame centered on an anchor, and
//! the orientation arithmetic mapping a pose to the four occupied board cells.
//!
//! A 90-degree rotation step maps an offset `(x, y)` to `(-y, x)`. Each kind
//! has a rotation period: the O kind is invariant under rotation (period 1),
//! the I kind repeats every two steps (period 2), all other kinds have the
//! full period 4. A pose's occupied cells are obtained by rotating each offset
//! `orientation mod period` steps and translating by the anchor.

use vstd::prelude::*;
use crate::pairs_view;

verus! {

/// One of the seven tetromino kinds.
#[derive(Clone, Copy, PartialEq, Eq, Structural, Debug)]
pub enum Tetromino {
    I,
    O,
    T,
    J,
    L,
    S,
    Z,
}

/// The fixed 24-bit display color of a kind. Never zero, so a locked block is
/// always distinguishable from an empty cell.
pub open spec fn color_of(k: Tetromino) -> u32 {
    match k {
        Tetromino::I => 0x2DD4BF,
        Tetromino::O => 0xFACC15,
        Tetromino::T => 0xC084FC,
        Tetromino::J => 0x60A5FA,
        Tetromino::L => 0xFB923C,
        Tetromino::S => 0x4ADE80,
        Tetromino::Z => 0xF87171,
    }
}

/// The four block offsets of a kind, in the local frame centered on the
/// anchor: the first component is along the lateral axis, the second along
/// the gravity axis.
pub open spec fn offsets(k: Tetromino) -> Seq<(int, int)> {
    match k {
        Tetromino::I => seq![(-2, -1), (-1, -1), (0, -1), (1, -1)],
        Tetromino::O => seq![(0, 0), (1, 0), (0, 1), (1, 1)],
        Tetromino::T => seq![(0, 0), (1, 0), (0, 1), (-1, 0)],
        Tetromino::J => seq![(0, 0), (1, 0), (-1, 1), (-1, 0)],
        Tetromino::L => seq![(0, 0), (1, 0), (1, 1), (-1, 0)],
        Tetromino::S => seq![(0, 0), (0, 1), (1, 1), (-1, 0)],
        Tetromino::Z => seq![(0, 0), (1, 0), (0, 1), (-1, 1)],
    }
}

/// The rotation period of a kind: applying this many rotation steps returns
/// an offset of the kind to itself.
pub open spec fn period(k: Tetromino) -> nat {
    match k {
        Tetromino::O => 1,
        Tetromino::I => 2,
        _ => 4,
    }
}

/// One 90-degree rotation step.
pub open spec fn rotate_step(p: (int, int)) -> (int, int) {
    (-p.1, p.0)
}

/// `n` rotation steps applied to `p`.
pub open spec fn rotate(p: (int, int), n: nat) -> (int, int)
    decreases n,
{
    if n == 0 {
        p
    } else {
        rotate_step(rotate(p, (n - 1) as nat))
    }
}

/// The four board cells occupied by a piece of kind `k` at orientation
/// `orient` with its anchor at `(row, col)`: each offset is rotated
/// `orient mod period(k)` steps and translated by the anchor.
pub open spec fn occupied_cells(k: Tetromino, orient: nat, row: int, col: int) -> Seq<(int, int)> {
    offsets(k).map_values(
        |p: (int, int)|
            {
                let q = rotate(p, orient % period(k));
                (q.0 + row, q.1 + col)
            },
    )
}

/// Every block offset of every kind lies within two cells of the anchor.
pub proof fn lemma_offsets_bounds(k: Tetromino)
    ensures
        offsets(k).len() == 4,
        forall|i: int|
            0 <= i < 4 ==> -2 <= #[trigger] offsets(k)[i].0 <= 2 && -2 <= offsets(k)[i].1 <= 2,
{
    match k {
        Tetromino::I => {
            assert(offsets(k)[0] == (-2int, -1int));
            assert(offsets(k)[1] == (-1int, -1int));
            assert(offsets(k)[2] == (0int, -1int));
            assert(offsets(k)[3] == (1int, -1int));
        },
        Tetromino::O => {
            assert(offsets(k)[0] == (0int, 0int));
            assert(offsets(k)[1] == (1int, 0int));
            assert(offsets(k)[2] == (0int, 1int));
            assert(offsets(k)[3] == (1int, 1int));
        },
        Tetromino::T => {
            assert(offsets(k)[0] == (0int, 0int));
            assert(offsets(k)[1] == (1int, 0int));
            assert(offsets(k)[2] == (0int, 1int));
            assert(offsets(k)[3] == (-1int, 0int));
        },
        Tetromino::J => {
            assert(offsets(k)[0] == (0int, 0int));
            assert(offsets(k)[1] == (1int, 0int));
            assert(offsets(k)[2] == (-1int, 1int));
            assert(offsets(k)[3] == (-1int, 0int));
        },
        Tetromino::L => {
            assert(offsets(k)[0] == (0int, 0int));
            assert(offsets(k)[1] == (1int, 0int));
            assert(offsets(k)[2] == (1int, 1int));
            assert(offsets(k)[3] == (-1int, 0int));
        },
        Tetromino::S => {
            assert(offsets(k)[0] == (0int, 0int));
            assert(offsets(k)[1] == (0int, 1int));
            assert(offsets(k)[2] == (1int, 1int));
            assert(offsets(k)[3] == (-1int, 0int));
        },
        Tetromino::Z => {
            assert(offsets(k)[0] == (0int, 0int));
            assert(offsets(k)[1] == (1int, 0int));
            assert(offsets(k)[2] == (0int, 1int));
            assert(offsets(k)[3] == (-1int, 1int));
        },
    }
}

/// The four block offsets of a kind are pairwise distinct.
pub proof fn lemma_offsets_distinct(k: Tetromino)
    ensures
        offsets(k).len() == 4,
        forall|i: int, j: int|
            0 <= i < j < 4 ==> #[trigger] offsets(k)[i] != #[trigger] offsets(k)[j],
{
    lemma_offsets_bounds(k);
    assert forall|i: int, j: int| 0 <= i < j < 4 implies #[trigger] offsets(k)[i]
        != #[trigger] offsets(k)[j] by {
        match k {
            Tetromino::I => {},
            Tetromino::O => {},
            Tetromino::T => {},
            Tetromino::J => {},
            Tetromino::L => {},
            Tetromino::S => {},
            Tetromino::Z => {},
        }
    }
}

/// Rotation keeps an offset within the same distance band of the anchor.
pub proof fn lemma_rotate_bounds(p: (int, int), n: nat, m: int)
    requires
        -m <= p.0 <= m,
        -m <= p.1 <= m,
    ensures
        -m <= rotate(p, n).0 <= m,
        -m <= rotate(p, n).1 <= m,
    decreases n,
{
    if n > 0 {
        lemma_rotate_bounds(p, (n - 1) as nat, m);
    }
}

/// Rotation by any number of steps is injective.
pub proof fn lemma_rotate_injective(p: (int, int), q: (int, int), n: nat)
    requires
        rotate(p, n) == rotate(q, n),
    ensures
        p == q,
    decreases n,
{
    if n > 0 {
        assert(rotate(p, n) == rotate_step(rotate(p, (n - 1) as nat)));
        assert(rotate(q, n) == rotate_step(rotate(q, (n - 1) as nat)));
        assert(rotate(p, (n - 1) as nat) == rotate(q, (n - 1) as nat));
        lemma_rotate_injective(p, q, (n - 1) as nat);
    }
}

/// One 90-degree rotation step, on machine integers.
fn rotate_once(p: (i32, i32)) -> (q: (i32, i32))
    requires
        -2 <= p.0 <= 2,
        -2 <= p.1 <= 2,
    ensures
        (q.0 as int, q.1 as int) == rotate_step((p.0 as int, p.1 as int)),
        -2 <= q.0 <= 2,
        -2 <= q.1 <= 2,
{
    (-p.1, p.0)
}

/// `steps` rotation steps applied to `p`, on machine integers.
fn rotate_exec(p: (i32, i32), steps: u32) -> (q: (i32, i32))
    requires
        -2 <= p.0 <= 2,
        -2 <= p.1 <= 2,
        steps <= 3,
    ensures
        (q.0 as int, q.1 as int) == rotate((p.0 as int, p.1 as int), steps as nat),
        -2 <= q.0 <= 2,
        -2 <= q.1 <= 2,
{
    let mut q = p;
    let mut j: u32 = 0;
    while j < steps
        invariant
            j <= steps,
            steps <= 3,
            -2 <= q.0 <= 2,
            -2 <= q.1 <= 2,
            (q.0 as int, q.1 as int) == rotate((p.0 as int, p.1 as int), j as nat),
        decreases steps - j,
    {
        q = rotate_once(q);
        j += 1;
    }
    q
}

/// The four board cells occupied by a piece of kind `k` at orientation
/// `orient` with its anchor at `(row, col)`.
pub fn occupied_cells_at(k: Tetromino, orient: u32, row: i32, col: i32) -> (v: Vec<(i32, i32)>)
    requires
        i32::MIN + 8 <= row <= i32::MAX - 8,
        i32::MIN + 8 <= col <= i32::MAX - 8,
    ensures
        v@.len() == 4,
        pairs_view(v@) == occupied_cells(k, orient as nat, row as int, col as int),
{
    let offs = k.blocks();
    let steps: u32 = match k {
        Tetromino::O => 0,
        Tetromino::I => orient % 2,
        _ => orient % 4,
    };
    proof {
        assert(steps as nat == orient as nat % period(k));
        lemma_offsets_bounds(k);
    }
    let mut v: Vec<(i32, i32)> = Vec::new();
    let mut i: usize = 0;
    while i < 4
        invariant
            i <= 4,
            offs@.len() == 4,
            pairs_view(offs@) == offsets(k),
            steps as nat == orient as nat % period(k),
            steps <= 3,
            i32::MIN + 8 <= row <= i32::MAX - 8,
            i32::MIN + 8 <= col <= i32::MAX - 8,
            forall|j: int|
                0 <= j < 4 ==> -2 <= #[trigger] offsets(k)[j].0 <= 2 && -2 <= offsets(k)[j].1
                    <= 2,
            v@.len() == i as int,
            forall|j: int|
                0 <= j < i as int ==> (#[trigger] v@[j].0 as int, v@[j].1 as int)
                    == occupied_cells(k, orient as nat, row as int, col as int)[j],
        decreases 4 - i,
    {
        let p = offs[i];
        proof {
            assert((p.0 as int, p.1 as int) == offsets(k)[i as int]);
        }
        let q = rotate_exec(p, steps);
        v.push((q.0 + row, q.1 + col));
        i += 1;
    }
    proof {
        assert(pairs_view(v@) =~= occupied_cells(k, orient as nat, row as int, col as int));
    }
    v
}

impl Tetromino {
    /// The fixed 24-bit display color of this kind.
    pub fn color(&self) -> (c: u32)
        ensures
            c == color_of(*self),
            c != 0,
    {
        match self {
            Tetromino::I => 0x2DD4BF,
            Tetromino::O => 0xFACC15,
            Tetromino::T => 0xC084FC,
            Tetromino::J => 0x60A5FA,
            Tetromino::L => 0xFB923C,
            Tetromino::S => 0x4ADE80,
            Tetromino::Z => 0xF87171,
        }
    }

    /// The four block offsets of this kind, in the local frame centered on
    /// the anchor.
    pub fn blocks(&self) -> (v: Vec<(i32, i32)>)
        ensures
            v@.len() == 4,
            pairs_view(v@) == offsets(*self),
    {
        let (a, b, c, d): ((i32, i32), (i32, i32), (i32, i32), (i32, i32)) = match self {
            Tetromino::I => ((-2, -1), (-1, -1), (0, -1), (1, -1)),
            Tetromino::O => ((0, 0), (1, 0), (0, 1), (1, 1)),
            Tetromino::T => ((0, 0), (1, 0), (0, 1), (-1, 0)),
            Tetromino::J => ((0, 0), (1, 0), (-1, 1), (-1, 0)),
            Tetromino::L => ((0, 0), (1, 0), (1, 1), (-1, 0)),
            Tetromino::S => ((0, 0), (0, 1), (1, 1), (-1, 0)),
            Tetromino::Z => ((0, 0), (1, 0), (0, 1), (-1, 1)),
        };
        let mut v: Vec<(i32, i32)> = Vec::new();
        v.push(a);
        v.push(b);
        v.push(c);
        v.push(d);
        proof {
            assert(pairs_view(v@) =~= offsets(*self));
        }
        v
    }
}

} // verus!
