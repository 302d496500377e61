use matrix_view::{CellDebug, Matrix2d, MatrixBool};

#[test]
fn bool_cell_equality() {
    assert!(true == MatrixBool(true));
    assert!(false == MatrixBool(false));
    assert!(!(true == MatrixBool(false)));
    assert!(!(false == MatrixBool(true)));
}

#[test]
fn u8_cell_equality() {
    assert!(1u8 == MatrixBool(true));
    assert!(0u8 == MatrixBool(false));
    assert!(!(0u8 == MatrixBool(true)));
    assert!(!(1u8 == MatrixBool(false)));
    for n in 2u8..=255 {
        assert!(!(n == MatrixBool(true)));
        assert!(!(n == MatrixBool(false)));
    }
}

#[test]
fn row_len_counts_rows() {
    let grid = vec![vec![true, false, true], vec![false, false, true]];
    assert_eq!(Matrix2d::from(&grid).row_len(), 2);
    let empty: Vec<Vec<bool>> = vec![];
    assert_eq!(Matrix2d::from(&empty).row_len(), 0);
}

#[test]
fn col_len_is_first_row_length() {
    let grid = vec![vec![1u8, 0, 1], vec![0]];
    assert_eq!(Matrix2d::from(&grid).col_len(), 3);
    let ragged = vec![vec![1u8], vec![0, 1, 1, 0]];
    assert_eq!(Matrix2d::from(&ragged).col_len(), 1);
    let empty: Vec<Vec<u8>> = vec![];
    assert_eq!(Matrix2d::from(&empty).col_len(), 0);
}

#[test]
fn rows_come_in_stored_order_every_time() {
    let grid = vec![vec![1u8, 2], vec![3, 4], vec![5, 6]];
    let view = Matrix2d::from(&grid);
    let first: Vec<&Vec<u8>> = view.rows().iter().collect();
    let second: Vec<&Vec<u8>> = view.rows().iter().collect();
    assert_eq!(first, second);
    assert_eq!(first, vec![&grid[0], &grid[1], &grid[2]]);
}

#[test]
fn display_all_false_grid() {
    let grid = vec![vec![false; 4]; 3];
    let text = Matrix2d::from(&grid).to_display_string();
    assert_eq!(text, "\u{2B1C}\u{2B1C}\u{2B1C}\u{2B1C}\n".repeat(3));
    assert_eq!(text.lines().count(), 3);
}

#[test]
fn display_all_true_grid() {
    let grid = vec![vec![true; 2]; 5];
    let text = Matrix2d::from(&grid).to_display_string();
    assert_eq!(text, "\u{2B1B}\u{2B1B}\n".repeat(5));
}

#[test]
fn display_checkerboard_bool() {
    let grid = vec![vec![true, false], vec![false, true]];
    assert_eq!(Matrix2d::from(&grid).to_display_string(), "⬛⬜\n⬜⬛\n");
}

#[test]
fn display_checkerboard_u8() {
    let grid = vec![vec![1u8, 0], vec![0, 1]];
    assert_eq!(Matrix2d::from(&grid).to_display_string(), "⬛⬜\n⬜⬛\n");
}

#[test]
fn display_u8_above_one_is_empty() {
    let grid = vec![vec![2u8, 1, 255]];
    assert_eq!(Matrix2d::from(&grid).to_display_string(), "⬜⬛⬜\n");
}

#[test]
fn display_ragged_rows() {
    let grid = vec![vec![true], vec![false, true, true]];
    assert_eq!(Matrix2d::from(&grid).to_display_string(), "⬛\n⬜⬛⬛\n");
}

#[test]
fn debug_single_row() {
    let grid = vec![vec![true, false]];
    assert_eq!(Matrix2d::from(&grid).to_debug_string(), "[[true, false]]");
    assert_eq!(Matrix2d::from(&grid).to_debug_string(), format!("{:?}", grid));
}

#[test]
fn debug_u8_grid_matches_std() {
    let grid = vec![vec![0u8, 7, 42], vec![100, 255], vec![]];
    assert_eq!(Matrix2d::from(&grid).to_debug_string(), "[[0, 7, 42], [100, 255], []]");
    assert_eq!(Matrix2d::from(&grid).to_debug_string(), format!("{:?}", grid));
}

#[test]
fn cell_debug_text() {
    assert_eq!(true.debug_text(), "true");
    assert_eq!(false.debug_text(), "false");
    for n in 0u8..=255 {
        assert_eq!(n.debug_text(), n.to_string());
    }
}

#[test]
fn empty_matrix_renders_empty() {
    let empty: Vec<Vec<bool>> = vec![];
    let view = Matrix2d::from(&empty);
    assert_eq!(view.to_display_string(), "");
    assert_eq!(view.to_debug_string(), "[]");
}

#[test]
fn source_unchanged_by_reads() {
    let grid = vec![vec![true, false], vec![false, true]];
    let copy = grid.clone();
    let view = Matrix2d::from(&grid);
    let _ = view.rows();
    let _ = view.row_len();
    let _ = view.col_len();
    let _ = view.to_display_string();
    let _ = view.to_debug_string();
    assert_eq!(grid, copy);
}
