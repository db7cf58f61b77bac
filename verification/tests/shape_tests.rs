use tetris::shape::occupied_cells_at;
use tetris::shape::Tetromino;

fn all_kinds() -> Vec<Tetromino> {
    vec![
        Tetromino::I,
        Tetromino::O,
        Tetromino::T,
        Tetromino::J,
        Tetromino::L,
        Tetromino::S,
        Tetromino::Z,
    ]
}

#[test]
fn colors_are_fixed() {
    assert_eq!(Tetromino::I.color(), 0x2DD4BF);
    assert_eq!(Tetromino::O.color(), 0xFACC15);
    assert_eq!(Tetromino::T.color(), 0xC084FC);
    assert_eq!(Tetromino::J.color(), 0x60A5FA);
    assert_eq!(Tetromino::L.color(), 0xFB923C);
    assert_eq!(Tetromino::S.color(), 0x4ADE80);
    assert_eq!(Tetromino::Z.color(), 0xF87171);
}

#[test]
fn colors_are_never_zero() {
    for k in all_kinds() {
        assert_ne!(k.color(), 0);
    }
}

#[test]
fn block_offsets_per_kind() {
    assert_eq!(Tetromino::I.blocks(), vec![(-2, -1), (-1, -1), (0, -1), (1, -1)]);
    assert_eq!(Tetromino::O.blocks(), vec![(0, 0), (1, 0), (0, 1), (1, 1)]);
    assert_eq!(Tetromino::T.blocks(), vec![(0, 0), (1, 0), (0, 1), (-1, 0)]);
    assert_eq!(Tetromino::J.blocks(), vec![(0, 0), (1, 0), (-1, 1), (-1, 0)]);
    assert_eq!(Tetromino::L.blocks(), vec![(0, 0), (1, 0), (1, 1), (-1, 0)]);
    assert_eq!(Tetromino::S.blocks(), vec![(0, 0), (0, 1), (1, 1), (-1, 0)]);
    assert_eq!(Tetromino::Z.blocks(), vec![(0, 0), (1, 0), (0, 1), (-1, 1)]);
}

#[test]
fn occupied_cells_without_rotation_translate_offsets() {
    // J at the spawn anchor, orientation zero.
    let cells = occupied_cells_at(Tetromino::J, 0, 5, 2);
    assert_eq!(cells, vec![(5, 2), (6, 2), (4, 3), (4, 2)]);
}

#[test]
fn occupied_cells_apply_one_rotation_step() {
    // One step maps an offset (x, y) to (-y, x); the I offsets all land on
    // the lateral coordinate anchor+1.
    let cells = occupied_cells_at(Tetromino::I, 1, 5, 2);
    assert_eq!(cells, vec![(6, 0), (6, 1), (6, 2), (6, 3)]);
}

#[test]
fn occupied_cells_accept_negative_anchors() {
    let cells = occupied_cells_at(Tetromino::I, 1, -1, 5);
    assert_eq!(cells, vec![(0, 3), (0, 4), (0, 5), (0, 6)]);
}

#[test]
fn four_distinct_cells_for_every_kind_and_orientation() {
    for k in all_kinds() {
        for orient in 0..4u32 {
            let cells = occupied_cells_at(k, orient, 5, 10);
            assert_eq!(cells.len(), 4);
            for i in 0..4 {
                for j in (i + 1)..4 {
                    assert_ne!(cells[i], cells[j], "{:?} orientation {}", k, orient);
                }
            }
        }
    }
}

#[test]
fn o_kind_cells_identical_for_all_orientations() {
    let base = occupied_cells_at(Tetromino::O, 0, 5, 10);
    for orient in 1..4u32 {
        assert_eq!(occupied_cells_at(Tetromino::O, orient, 5, 10), base);
    }
}

#[test]
fn i_kind_cells_have_period_two() {
    for orient in 0..8u32 {
        let a = occupied_cells_at(Tetromino::I, orient, 5, 10);
        let b = occupied_cells_at(Tetromino::I, (orient + 2) % 4, 5, 10);
        assert_eq!(a, b, "orientation {}", orient);
    }
}

#[test]
fn full_period_kinds_return_after_four_steps() {
    for k in all_kinds() {
        let a = occupied_cells_at(k, 0, 5, 10);
        let b = occupied_cells_at(k, 4, 5, 10);
        assert_eq!(a, b, "{:?}", k);
    }
}
