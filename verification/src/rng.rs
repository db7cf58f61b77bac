//! Randomness source for spawning: one draw, uniform over the seven kinds,
//! per spawn. The draw itself comes from an outside generator; everything
//! done with the drawn value is verified for every value it could take, so
//! the deterministic entry points (`spawn_with`, `advance_with`) stay
//! available for reproducible runs.

use vstd::prelude::*;
use crate::shape::Tetromino;

verus! {

/// Relies on `rand::Rng::gen_range` on the thread-local generator: a value
/// in the given range, drawn through rand's `Uniform` distribution, which
/// its documentation states is uniform over the range. It panics only on an
/// empty range, and the range here is fixed and not empty. Nothing else is
/// assumed of the value drawn.
#[verifier::external_body]
fn draw_below_seven() -> (g: u8)
    ensures
        g < 7,
{
    rand::Rng::gen_range(&mut rand::thread_rng(), 0..7u8)
}

/// The kind at position `n` in the fixed enumeration used when drawing a new
/// piece.
pub open spec fn kind_of_index(n: int) -> Tetromino {
    if n == 0 {
        Tetromino::I
    } else if n == 1 {
        Tetromino::J
    } else if n == 2 {
        Tetromino::L
    } else if n == 3 {
        Tetromino::O
    } else if n == 4 {
        Tetromino::S
    } else if n == 5 {
        Tetromino::T
    } else {
        Tetromino::Z
    }
}

/// Map a drawn byte to a kind: the byte is reduced modulo seven and looked up
/// in the fixed enumeration.
pub fn kind_from_draw(g: u8) -> (k: Tetromino)
    ensures
        k == kind_of_index((g % 7) as int),
{
    match g % 7 {
        0 => Tetromino::I,
        1 => Tetromino::J,
        2 => Tetromino::L,
        3 => Tetromino::O,
        4 => Tetromino::S,
        5 => Tetromino::T,
        _ => Tetromino::Z,
    }
}

/// Draw the kind of the next piece, uniformly over the seven kinds.
pub fn draw_kind() -> Tetromino {
    let g = draw_below_seven();
    kind_from_draw(g)
}

} // verus!
