use tetris::board::Board;
use tetris::COLUMNS;
use tetris::ROWS;

fn count_nonempty(b: &Board) -> usize {
    let mut n = 0;
    for col in 0..COLUMNS {
        for row in 0..ROWS {
            if b.cell(row, col) != 0 {
                n += 1;
            }
        }
    }
    n
}

#[test]
fn new_board_is_empty() {
    let b = Board::new();
    assert_eq!(count_nonempty(&b), 0);
}

#[test]
fn set_cell_then_read_it_back() {
    let mut b = Board::new();
    b.set_cell(3, 7, 0xABCDEF);
    assert_eq!(b.cell(3, 7), 0xABCDEF);
    assert_eq!(b.cell(7, 3), 0);
    assert_eq!(count_nonempty(&b), 1);
}

#[test]
fn lock_raises_nonempty_count_by_exactly_four() {
    let mut b = Board::new();
    let first = vec![(0, 19), (1, 19), (2, 19), (3, 19)];
    b.lock(&first, 0x2DD4BF);
    assert_eq!(count_nonempty(&b), 4);
    let second = vec![(0, 18), (1, 18), (2, 18), (3, 18)];
    b.lock(&second, 0xFACC15);
    assert_eq!(count_nonempty(&b), 8);
    assert_eq!(b.cell(0, 19), 0x2DD4BF);
    assert_eq!(b.cell(0, 18), 0xFACC15);
}

#[test]
fn line_full_detection() {
    let mut b = Board::new();
    for row in 0..ROWS {
        if row != 4 {
            b.set_cell(row, 12, 0x111111);
        }
    }
    assert!(!b.is_line_full(12));
    b.set_cell(4, 12, 0x111111);
    assert!(b.is_line_full(12));
    assert!(!b.is_line_full(11));
}

#[test]
fn clear_changes_nothing_when_no_line_is_full() {
    let mut b = Board::new();
    b.set_cell(0, 19, 0x111111);
    b.set_cell(9, 0, 0x222222);
    b.clear_full_lines();
    assert_eq!(b.cell(0, 19), 0x111111);
    assert_eq!(b.cell(9, 0), 0x222222);
    assert_eq!(count_nonempty(&b), 2);
}

#[test]
fn line_clear_fills_gap_and_shifts_spawn_side_down() {
    let mut b = Board::new();
    // A line full except one cell: line 10, gap at lateral 9.
    for row in 0..9 {
        b.set_cell(row, 10, 0x111111);
    }
    // A marker above the line, and support that a falling piece would rest on.
    b.set_cell(4, 5, 0x222222);
    b.set_cell(9, 14, 0x333333);
    // Lock a vertical piece whose lowest cell fills the gap.
    let piece = vec![(9, 10), (9, 11), (9, 12), (9, 13)];
    b.lock(&piece, 0x2DD4BF);
    assert!(b.is_line_full(10));
    b.clear_full_lines();
    // The full line is gone: its index now holds the empty line above.
    for row in 0..ROWS {
        assert_eq!(b.cell(row, 10), 0);
    }
    // Every line on the spawn side shifted down by one: the marker moved.
    assert_eq!(b.cell(4, 5), 0);
    assert_eq!(b.cell(4, 6), 0x222222);
    // The topmost line is empty.
    for row in 0..ROWS {
        assert_eq!(b.cell(row, 0), 0);
    }
    // Lines beyond the cleared one are untouched.
    assert_eq!(b.cell(9, 11), 0x2DD4BF);
    assert_eq!(b.cell(9, 12), 0x2DD4BF);
    assert_eq!(b.cell(9, 13), 0x2DD4BF);
    assert_eq!(b.cell(9, 14), 0x333333);
}

#[test]
fn two_full_lines_clear_in_one_pass() {
    let mut b = Board::new();
    for row in 0..ROWS {
        if row != 9 {
            b.set_cell(row, 18, 0x111111);
            b.set_cell(row, 19, 0x111111);
        }
    }
    b.set_cell(9, 16, 0x444444);
    b.set_cell(9, 17, 0x444444);
    let piece = vec![(9, 18), (9, 19), (8, 16), (8, 17)];
    b.lock(&piece, 0x2DD4BF);
    b.clear_full_lines();
    // Both full lines went; what sat two lines above them dropped by two.
    assert_eq!(b.cell(9, 18), 0x444444);
    assert_eq!(b.cell(9, 19), 0x444444);
    assert_eq!(b.cell(8, 18), 0x2DD4BF);
    assert_eq!(b.cell(8, 19), 0x2DD4BF);
    assert_eq!(count_nonempty(&b), 4);
}

#[test]
fn fits_rejects_out_of_bounds_and_occupied_cells() {
    let mut b = Board::new();
    assert!(b.fits(&vec![(0, 0), (1, 0), (0, 1), (1, 1)]));
    assert!(!b.fits(&vec![(-1, 0), (0, 0), (1, 0), (2, 0)]));
    assert!(!b.fits(&vec![(0, 19), (1, 19), (0, 18), (1, 20)]));
    b.set_cell(1, 1, 0x111111);
    assert!(!b.fits(&vec![(0, 0), (1, 0), (0, 1), (1, 1)]));
}

#[test]
fn to_vec_flattens_line_by_line() {
    let mut b = Board::new();
    b.set_cell(3, 2, 0x555555);
    let v = b.to_vec();
    assert_eq!(v.len(), ROWS * COLUMNS);
    assert_eq!(v[2 * ROWS + 3], 0x555555);
    assert_eq!(v[0], 0);
}
