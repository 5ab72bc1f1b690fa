use playground::sudoku::{Sudoku, SudokuError};

/// A starting layout with a handful of clues: row 1 fully as given, column
/// 1 holding 3, 9, and 6, the top-left block holding {5, 3, 6, 9, 8}, and a
/// clue 4 at (3, 0).
fn scenario_grid() -> [[u8; 9]; 9] {
    let mut g = [[0u8; 9]; 9];
    g[0][0] = 5;
    g[0][1] = 3;
    g[1] = [6, 0, 0, 1, 9, 5, 0, 0, 0];
    g[2][1] = 9;
    g[2][2] = 8;
    g[3][0] = 4;
    g[6][1] = 6;
    g
}

fn scenario_board() -> Sudoku {
    Sudoku::new(scenario_grid()).expect("the scenario layout is consistent")
}

/// The text the renderer must produce, written out independently.
fn render_reference(grid: &[[u8; 9]; 9]) -> String {
    let mut out = String::new();
    let header = |out: &mut String| {
        out.push_str("    ");
        for col in 1..=9 {
            out.push_str(&format!(" {} ", col));
            if col % 3 == 0 {
                out.push_str("  ");
            } else {
                out.push_str(" ");
            }
        }
        out.push('\n');
    };
    header(&mut out);
    out.push_str("    -----------  -----------  -----------\n");
    for (row_num, row) in (1..=9).zip(grid.iter()) {
        out.push_str(&format!("{:<2}::", row_num));
        for (col_num, cell) in (1..=9).zip(row.iter()) {
            if *cell == 0 {
                out.push_str("   ");
            } else {
                out.push_str(&format!(" {} ", cell));
            }
            if col_num % 3 == 0 {
                out.push_str("::");
            } else {
                out.push_str("|");
            }
        }
        out.push_str(&format!("{:2}\n", row_num));
        if row_num % 3 == 0 {
            out.push_str("    -----------  -----------  -----------\n");
        }
    }
    header(&mut out);
    out
}

fn cells_of(board: &Sudoku) -> [[u8; 9]; 9] {
    let mut g = [[0u8; 9]; 9];
    for r in 0..9 {
        for c in 0..9 {
            g[r][c] = board.cell(r, c);
        }
    }
    g
}

#[test]
fn constructs_from_consistent_layout() {
    let board = scenario_board();
    assert_eq!(cells_of(&board), scenario_grid());
}

#[test]
fn set_rejects_zero_digit() {
    let mut board = scenario_board();
    assert_eq!(board.set_cell(1, 1, 0), Err(SudokuError::InvalidDigit(0)));
}

#[test]
fn set_rejects_large_digit() {
    let mut board = scenario_board();
    assert_eq!(board.set_cell(1, 1, 10), Err(SudokuError::InvalidDigit(10)));
}

#[test]
fn set_rejects_out_of_bounds_cell() {
    let mut board = scenario_board();
    assert_eq!(board.set_cell(1, 10, 2), Err(SudokuError::InvalidCell(1, 10)));
    assert_eq!(board.set_cell(9, 0, 2), Err(SudokuError::InvalidCell(9, 0)));
}

#[test]
fn set_reports_row_conflict() {
    let mut board = scenario_board();
    // Row 1 already has the digit 1 at column 3.
    assert_eq!(
        board.set_cell(1, 1, 1),
        Err(SudokuError::DigitAlreadyExistsInRow(1, 1))
    );
}

#[test]
fn set_reports_column_conflict() {
    let mut board = scenario_board();
    // Column 1 already has the digit 3 at row 0.
    assert_eq!(
        board.set_cell(1, 1, 3),
        Err(SudokuError::DigitAlreadyExistsInColumn(3, 1))
    );
}

#[test]
fn set_reports_block_conflict() {
    let mut board = scenario_board();
    // The top-left block already has an 8, at (2, 2).
    assert_eq!(
        board.set_cell(1, 1, 8),
        Err(SudokuError::DigitAlreadyExistsInSubGrid(8))
    );
}

#[test]
fn clue_cells_are_immutable() {
    let mut board = scenario_board();
    assert_eq!(
        board.set_cell(3, 0, 9),
        Err(SudokuError::InitialValuedCell(3, 0))
    );
    assert_eq!(
        board.clear_cell(3, 0),
        Err(SudokuError::InitialValuedCell(3, 0))
    );
    assert_eq!(board.cell(3, 0), 4);
}

#[test]
fn successful_set_shows_in_render() {
    let mut board = scenario_board();
    assert_eq!(board.set_cell(1, 1, 2), Ok(()));
    assert_eq!(board.cell(1, 1), 2);
    let mut expected = scenario_grid();
    expected[1][1] = 2;
    assert_eq!(board.render(), render_reference(&expected));
}

#[test]
fn render_matches_reference_on_fresh_board() {
    let board = scenario_board();
    assert_eq!(board.render(), render_reference(&scenario_grid()));
}

#[test]
fn failed_calls_leave_the_board_unchanged() {
    let mut board = scenario_board();
    let before = cells_of(&board);
    assert!(board.set_cell(1, 1, 0).is_err());
    assert!(board.set_cell(1, 10, 2).is_err());
    assert!(board.set_cell(1, 1, 1).is_err());
    assert!(board.set_cell(1, 1, 3).is_err());
    assert!(board.set_cell(1, 1, 8).is_err());
    assert!(board.set_cell(3, 0, 9).is_err());
    assert!(board.clear_cell(3, 0).is_err());
    assert!(board.clear_cell(0, 9).is_err());
    assert_eq!(cells_of(&board), before);
}

#[test]
fn clear_is_idempotent_on_empty_cells() {
    let mut board = scenario_board();
    let before = cells_of(&board);
    assert_eq!(board.clear_cell(5, 5), Ok(()));
    assert_eq!(cells_of(&board), before);
    assert_eq!(board.clear_cell(5, 5), Ok(()));
    assert_eq!(cells_of(&board), before);
}

#[test]
fn clear_removes_a_placed_digit() {
    let mut board = scenario_board();
    assert_eq!(board.set_cell(4, 4, 7), Ok(()));
    assert_eq!(board.cell(4, 4), 7);
    assert_eq!(board.clear_cell(4, 4), Ok(()));
    assert_eq!(board.cell(4, 4), 0);
}

#[test]
fn reset_restores_the_initial_layout() {
    let mut board = scenario_board();
    assert_eq!(board.set_cell(1, 1, 2), Ok(()));
    assert_eq!(board.set_cell(8, 8, 9), Ok(()));
    assert_eq!(board.set_cell(4, 4, 7), Ok(()));
    assert_eq!(board.clear_cell(4, 4), Ok(()));
    board.reset_to_initial();
    assert_eq!(cells_of(&board), scenario_grid());
}

#[test]
fn construction_collects_every_violation() {
    let mut g = [[0u8; 9]; 9];
    // A 7 twice in row 0, and a value out of range at (4, 4).
    g[0][0] = 7;
    g[0][5] = 7;
    g[4][4] = 12;
    let err = Sudoku::new(g).expect_err("the layout has three offending clues");
    let triples: Vec<(usize, usize, u8)> = err
        .violations
        .iter()
        .map(|v| (v.row, v.col, v.digit))
        .collect();
    assert_eq!(triples, vec![(0, 0, 7), (0, 5, 7), (4, 4, 12)]);
}

#[test]
fn construction_reports_column_duplicates_on_both_cells() {
    let mut g = [[0u8; 9]; 9];
    g[2][3] = 5;
    g[7][3] = 5;
    let err = Sudoku::new(g).expect_err("the layout has a column conflict");
    let triples: Vec<(usize, usize, u8)> = err
        .violations
        .iter()
        .map(|v| (v.row, v.col, v.digit))
        .collect();
    assert_eq!(triples, vec![(2, 3, 5), (7, 3, 5)]);
}

#[test]
fn construction_tolerates_block_conflicts_between_clues() {
    // Two nines in the top-left block, but in different rows and columns:
    // a starting layout only has its rows and columns validated.
    let mut g = [[0u8; 9]; 9];
    g[0][0] = 9;
    g[1][1] = 9;
    let board = Sudoku::new(g).expect("block conflicts are tolerated among clues");
    assert_eq!(board.cell(0, 0), 9);
    assert_eq!(board.cell(1, 1), 9);
}

#[test]
fn block_check_compares_absolute_positions() {
    let mut board = Sudoku::default();
    assert_eq!(board.set_cell(3, 3, 7), Ok(()));
    // (4, 4) shares the block with (3, 3): rejected.
    assert_eq!(
        board.set_cell(4, 4, 7),
        Err(SudokuError::DigitAlreadyExistsInSubGrid(7))
    );
    // (6, 6) only shares the relative offset within a different block:
    // accepted.
    assert_eq!(board.set_cell(6, 6, 7), Ok(()));
}

#[test]
fn default_board_is_empty_and_playable() {
    let mut board = Sudoku::default();
    for r in 0..9 {
        for c in 0..9 {
            assert_eq!(board.cell(r, c), 0);
        }
    }
    assert_eq!(board.set_cell(0, 0, 1), Ok(()));
    assert_eq!(board.clear_cell(0, 0), Ok(()));
}
