//! A rule-validated 9x9 puzzle grid.
//!
//! A [`Sudoku`] holds two grids: the clue layout fixed at construction and
//! the mutable play surface. Every mutation is validated in a fixed order
//! (bounds, digit range, clue immutability, row, column, block) and either
//! fully applies or leaves the play surface untouched.

use vstd::prelude::*;

verus! {

use crate::text::push_char;
use vstd::string::StringExecFns;

/// A cell value: 0 is empty, 1 through 9 are placed digits.
pub type Digit = u8;

/// A 9x9 grid of cell values, row major.
pub type Grid = [[Digit; 9]; 9];

/// True when (`row`, `col`) lies inside the 9x9 grid.
pub open spec fn in_grid(row: int, col: int) -> bool {
    0 <= row < 9 && 0 <= col < 9
}

/// True when `digit` may be placed in a cell: 1 through 9.
pub open spec fn valid_digit(digit: Digit) -> bool {
    1 <= digit <= 9
}

/// The mathematical shape of a grid: nine rows of nine cells.
pub open spec fn grid_dims(g: Seq<Seq<Digit>>) -> bool {
    g.len() == 9 && forall|r: int| 0 <= r < 9 ==> (#[trigger] g[r]).len() == 9
}

/// `digit` occurs in row `row` at some column other than `col`.
pub open spec fn row_has(g: Seq<Seq<Digit>>, row: int, col: int, digit: Digit) -> bool {
    exists|c: int| 0 <= c < 9 && c != col && g[row][c] == digit
}

/// `digit` occurs in column `col` at some row other than `row`.
pub open spec fn col_has(g: Seq<Seq<Digit>>, row: int, col: int, digit: Digit) -> bool {
    exists|r: int| 0 <= r < 9 && r != row && g[r][col] == digit
}

/// `digit` occurs in the 3x3 block containing (`row`, `col`) at some cell
/// other than (`row`, `col`) itself. Cells are compared by their absolute
/// coordinates, so a different cell that shares a relative offset within
/// its block is still examined.
pub open spec fn block_has(g: Seq<Seq<Digit>>, row: int, col: int, digit: Digit) -> bool {
    exists|r: int, c: int|
        in_grid(r, c) && r / 3 == row / 3 && c / 3 == col / 3 && !(r == row && c == col)
            && g[r][c] == digit
}

/// Every cell value is a digit or empty (at most 9).
pub open spec fn cells_in_range(g: Seq<Seq<Digit>>) -> bool {
    forall|r: int, c: int| in_grid(r, c) ==> #[trigger] g[r][c] <= 9
}

/// No non-empty cell duplicates another cell in its row, column, or block.
pub open spec fn no_duplicates(g: Seq<Seq<Digit>>) -> bool {
    forall|r: int, c: int|
        in_grid(r, c) && #[trigger] g[r][c] != 0 ==> !row_has(g, r, c, g[r][c]) && !col_has(
            g,
            r,
            c,
            g[r][c],
        ) && !block_has(g, r, c, g[r][c])
}

/// What construction certifies about the clue layout: every non-empty cell
/// holds a digit 1 through 9 and duplicates no other clue in its row or its
/// column. Block conflicts among the clues are deliberately not rejected at
/// construction; only `set_cell` enforces the block rule.
pub open spec fn rows_cols_consistent(g: Seq<Seq<Digit>>) -> bool {
    forall|r: int, c: int|
        in_grid(r, c) && #[trigger] g[r][c] != 0 ==> valid_digit(g[r][c]) && !row_has(
            g,
            r,
            c,
            g[r][c],
        ) && !col_has(g, r, c, g[r][c])
}

/// Every clue cell (non-empty in `clues`) holds its clue value in `g`.
pub open spec fn clues_respected(clues: Seq<Seq<Digit>>, g: Seq<Seq<Digit>>) -> bool {
    forall|r: int, c: int|
        in_grid(r, c) && #[trigger] clues[r][c] != 0 ==> g[r][c] == clues[r][c]
}

/// The outcome of a rejected mutation, named after the first check that
/// failed in the fixed validation order.
#[derive(Clone, Copy, Debug, PartialEq, Eq, Structural)]
pub enum SudokuError {
    /// Coordinates outside the 9x9 bounds.
    InvalidCell(usize, usize),
    /// A digit outside 1 through 9 was offered for placement.
    InvalidDigit(Digit),
    /// The digit already stands elsewhere in the target row.
    DigitAlreadyExistsInRow(Digit, usize),
    /// The digit already stands elsewhere in the target column.
    DigitAlreadyExistsInColumn(Digit, usize),
    /// The digit already stands elsewhere in the target 3x3 block.
    DigitAlreadyExistsInSubGrid(Digit),
    /// The target cell is a clue and can never be changed.
    InitialValuedCell(usize, usize),
}

/// One offending clue found while validating a starting layout.
#[derive(Clone, Copy, Debug, PartialEq, Eq, Structural)]
pub struct Violation {
    /// Row of the offending clue.
    pub row: usize,
    /// Column of the offending clue.
    pub col: usize,
    /// The offending value itself.
    pub digit: Digit,
}

/// A rejected starting layout, with every offending clue listed in row-major
/// order: nothing is silently accepted and validation does not stop at the
/// first conflict.
#[derive(Debug)]
pub struct ConstructionError {
    /// Every offending clue, in row-major order of its cell.
    pub violations: Vec<Violation>,
}

/// `g` with the cell at (`row`, `col`) replaced by `digit`.
pub open spec fn grid_update(g: Seq<Seq<Digit>>, row: int, col: int, digit: Digit) -> Seq<
    Seq<Digit>,
> {
    g.update(row, g[row].update(col, digit))
}

/// True when (`row`, `col`) lies inside the 9x9 grid.
pub fn is_in_grid(row: usize, column: usize) -> (r: bool)
    ensures
        r == in_grid(row as int, column as int),
{
    row < 9 && column < 9
}

/// True when `digit` may be placed in a cell: 1 through 9.
pub fn is_valid_digit(digit: Digit) -> (r: bool)
    ensures
        r == valid_digit(digit),
{
    1 <= digit && digit <= 9
}

/// Row check: does `digit` already stand in row `row`, at a column other
/// than `col`?
pub fn has_digit_in_row(grid: &Grid, row: usize, col: usize, digit: Digit) -> (r: bool)
    requires
        row < 9,
    ensures
        r == row_has(grid.deep_view(), row as int, col as int, digit),
{
    let ghost g = grid.deep_view();
    let cells: [Digit; 9] = grid[row];
    assert(cells@ == g[row as int]);
    for c in 0..9
        invariant
            row < 9,
            g == grid.deep_view(),
            cells@ == g[row as int],
            forall|c2: int| 0 <= c2 < c && c2 != col ==> g[row as int][c2] != digit,
    {
        if c != col && cells[c] == digit {
            assert(g[row as int][c as int] == digit);
            return true;
        }
    }
    false
}

/// Column check: does `digit` already stand in column `col`, at a row other
/// than `row`?
pub fn has_digit_in_column(grid: &Grid, row: usize, col: usize, digit: Digit) -> (r: bool)
    requires
        col < 9,
    ensures
        r == col_has(grid.deep_view(), row as int, col as int, digit),
{
    let ghost g = grid.deep_view();
    for r in 0..9
        invariant
            col < 9,
            g == grid.deep_view(),
            forall|r2: int| 0 <= r2 < r && r2 != row ==> g[r2][col as int] != digit,
    {
        let cells: [Digit; 9] = grid[r];
        assert(cells@ == g[r as int]);
        if r != row && cells[col] == digit {
            assert(g[r as int][col as int] == digit);
            return true;
        }
    }
    false
}

/// Block check: does `digit` already stand in the 3x3 block containing
/// (`row`, `col`), at a cell other than (`row`, `col`) itself? Cells are
/// told apart by absolute coordinates.
pub fn has_digit_in_subgrid(grid: &Grid, row: usize, col: usize, digit: Digit) -> (r: bool)
    requires
        row < 9,
        col < 9,
    ensures
        r == block_has(grid.deep_view(), row as int, col as int, digit),
{
    let ghost g = grid.deep_view();
    let row0 = row / 3 * 3;
    let col0 = col / 3 * 3;
    for br in 0..3
        invariant
            g == grid.deep_view(),
            row < 9 && col < 9,
            row0 == row as int / 3 * 3 && col0 == col as int / 3 * 3,
            forall|r2: int, c2: int|
                in_grid(r2, c2) && r2 / 3 == row as int / 3 && c2 / 3 == col as int / 3 && r2 < row0
                    + br && !(r2 == row && c2 == col) ==> #[trigger] g[r2][c2] != digit,
    {
        let r = row0 + br;
        let cells: [Digit; 9] = grid[r];
        assert(cells@ == g[r as int]);
        for bc in 0..3
            invariant
                g == grid.deep_view(),
                cells@ == g[r as int],
                row < 9 && col < 9,
                row0 == row as int / 3 * 3 && col0 == col as int / 3 * 3,
                r == row0 + br && br < 3,
                forall|r2: int, c2: int|
                    in_grid(r2, c2) && r2 / 3 == row as int / 3 && c2 / 3 == col as int / 3 && r2
                        < row0 + br && !(r2 == row && c2 == col) ==> #[trigger] g[r2][c2] != digit,
                forall|c2: int|
                    0 <= c2 < 9 && c2 / 3 == col as int / 3 && c2 < col0 + bc && !(r == row && c2
                        == col) ==> #[trigger] g[r as int][c2] != digit,
        {
            let c = col0 + bc;
            if !(r == row && c == col) && cells[c] == digit {
                assert(in_grid(r as int, c as int));
                assert(r as int / 3 == row as int / 3 && c as int / 3 == col as int / 3);
                assert(g[r as int][c as int] == digit);
                return true;
            }
        }
    }
    false
}

/// What `set_cell` must do: the checks in their fixed order, each one
/// naming its own error, and on success the single-cell update.
pub open spec fn set_cell_spec(
    clues: Seq<Seq<Digit>>,
    g: Seq<Seq<Digit>>,
    row: usize,
    col: usize,
    digit: Digit,
) -> Result<Seq<Seq<Digit>>, SudokuError> {
    if !in_grid(row as int, col as int) {
        Err(SudokuError::InvalidCell(row, col))
    } else if !valid_digit(digit) {
        Err(SudokuError::InvalidDigit(digit))
    } else if clues[row as int][col as int] != 0 {
        Err(SudokuError::InitialValuedCell(row, col))
    } else if row_has(g, row as int, col as int, digit) {
        Err(SudokuError::DigitAlreadyExistsInRow(digit, row))
    } else if col_has(g, row as int, col as int, digit) {
        Err(SudokuError::DigitAlreadyExistsInColumn(digit, col))
    } else if block_has(g, row as int, col as int, digit) {
        Err(SudokuError::DigitAlreadyExistsInSubGrid(digit))
    } else {
        Ok(grid_update(g, row as int, col as int, digit))
    }
}

/// What `clear_cell` must do: bounds and clue checks only, and on success
/// the cell is emptied (idempotently, if it already was).
pub open spec fn clear_cell_spec(
    clues: Seq<Seq<Digit>>,
    g: Seq<Seq<Digit>>,
    row: usize,
    col: usize,
) -> Result<Seq<Seq<Digit>>, SudokuError> {
    if !in_grid(row as int, col as int) {
        Err(SudokuError::InvalidCell(row, col))
    } else if clues[row as int][col as int] != 0 {
        Err(SudokuError::InitialValuedCell(row, col))
    } else {
        Ok(grid_update(g, row as int, col as int, 0))
    }
}

/// A clue at (`row`, `col`) that a starting layout may not contain: a
/// non-empty value outside 1 through 9, or one that duplicates another
/// clue in its row or its column. Block conflicts are deliberately not
/// treated as violations of a starting layout.
pub open spec fn is_violation(g: Seq<Seq<Digit>>, row: int, col: int) -> bool {
    g[row][col] != 0 && (!valid_digit(g[row][col]) || row_has(g, row, col, g[row][col]) || col_has(
        g,
        row,
        col,
        g[row][col],
    ))
}

/// The violations in row `row` among columns before `col`, in column order.
pub open spec fn row_violations_upto(g: Seq<Seq<Digit>>, row: int, col: int) -> Seq<Violation>
    decreases col,
{
    if col <= 0 {
        Seq::empty()
    } else {
        let prefix = row_violations_upto(g, row, col - 1);
        if is_violation(g, row, col - 1) {
            prefix.push(
                Violation { row: row as usize, col: (col - 1) as usize, digit: g[row][col - 1] },
            )
        } else {
            prefix
        }
    }
}

/// The violations in rows before `row`, in row-major order.
pub open spec fn violations_upto(g: Seq<Seq<Digit>>, row: int) -> Seq<Violation>
    decreases row,
{
    if row <= 0 {
        Seq::empty()
    } else {
        violations_upto(g, row - 1) + row_violations_upto(g, row - 1, 9)
    }
}

/// Every violation in the layout, in row-major order of its cell.
pub open spec fn layout_violations(g: Seq<Seq<Digit>>) -> Seq<Violation> {
    violations_upto(g, 9)
}

proof fn lemma_row_violations_empty(g: Seq<Seq<Digit>>, row: int, col: int)
    ensures
        row_violations_upto(g, row, col).len() == 0 <==> (forall|c: int|
            0 <= c < col ==> !is_violation(g, row, c)),
    decreases col,
{
    if col > 0 {
        lemma_row_violations_empty(g, row, col - 1);
    }
}

proof fn lemma_violations_empty(g: Seq<Seq<Digit>>, row: int)
    ensures
        violations_upto(g, row).len() == 0 <==> (forall|r: int, c: int|
            0 <= r < row && 0 <= c < 9 ==> !is_violation(g, r, c)),
    decreases row,
{
    if row > 0 {
        lemma_violations_empty(g, row - 1);
        lemma_row_violations_empty(g, row - 1, 9);
    }
}

/// A starting layout is free of violations exactly when every clue in it
/// is a digit 1 through 9 that conflicts with no other clue in its row or
/// column.
pub proof fn lemma_no_violations_iff_consistent(g: Seq<Seq<Digit>>)
    requires
        grid_dims(g),
    ensures
        layout_violations(g).len() == 0 <==> rows_cols_consistent(g),
{
    lemma_violations_empty(g, 9);
    if layout_violations(g).len() == 0 {
        assert forall|r: int, c: int| in_grid(r, c) && #[trigger] g[r][c] != 0 implies valid_digit(
            g[r][c],
        ) && !row_has(g, r, c, g[r][c]) && !col_has(g, r, c, g[r][c]) by {
            assert(!is_violation(g, r, c));
        }
    }
    if rows_cols_consistent(g) {
        assert forall|r: int, c: int| 0 <= r < 9 && 0 <= c < 9 implies !is_violation(g, r, c) by {
            if g[r][c] != 0 {
                assert(valid_digit(g[r][c]) && !row_has(g, r, c, g[r][c]) && !col_has(
                    g,
                    r,
                    c,
                    g[r][c],
                ));
            }
        }
        assert(layout_violations(g).len() == 0);
    }
}

/// A call aimed at a clue cell always fails, whatever digit is offered:
/// both `set_cell` and `clear_cell` reject a cell that holds a clue, so a
/// clue can never be overwritten or cleared.
pub proof fn lemma_clue_cells_reject_every_call(
    clues: Seq<Seq<Digit>>,
    g: Seq<Seq<Digit>>,
    row: usize,
    col: usize,
    digit: Digit,
)
    requires
        clues[row as int][col as int] != 0,
    ensures
        set_cell_spec(clues, g, row, col, digit) is Err,
        clear_cell_spec(clues, g, row, col) is Err,
{
}

/// A layout that construction accepts and that is also free of block
/// conflicts has no duplicates at all; from such a start, every reachable
/// state keeps the full invariant.
pub proof fn lemma_accepted_block_free_layout_has_no_duplicates(g: Seq<Seq<Digit>>)
    requires
        rows_cols_consistent(g),
        forall|r: int, c: int|
            in_grid(r, c) && #[trigger] g[r][c] != 0 ==> !block_has(g, r, c, g[r][c]),
    ensures
        no_duplicates(g),
{
}

/// Placing a digit that passes the row, column, and block checks never
/// introduces a duplicate: a grid without duplicates stays without them.
pub proof fn lemma_place_preserves_no_duplicates(
    g: Seq<Seq<Digit>>,
    row: int,
    col: int,
    digit: Digit,
)
    requires
        grid_dims(g),
        in_grid(row, col),
        valid_digit(digit),
        !row_has(g, row, col, digit),
        !col_has(g, row, col, digit),
        !block_has(g, row, col, digit),
        no_duplicates(g),
    ensures
        no_duplicates(grid_update(g, row, col, digit)),
{
    let g2 = grid_update(g, row, col, digit);
    assert forall|r: int, c: int| in_grid(r, c) implies #[trigger] g2[r][c] == (if r == row && c
        == col {
        digit
    } else {
        g[r][c]
    }) by {
        if r == row {
            assert(g2[r] == g[row].update(col, digit));
        }
    }
    assert forall|r: int, c: int| in_grid(r, c) && #[trigger] g2[r][c] != 0 implies !row_has(
        g2,
        r,
        c,
        g2[r][c],
    ) && !col_has(g2, r, c, g2[r][c]) && !block_has(g2, r, c, g2[r][c]) by {
        let v = g2[r][c];
        if row_has(g2, r, c, v) {
            let c3 = choose|c3: int| 0 <= c3 < 9 && c3 != c && g2[r][c3] == v;
            if r == row && c == col {
                assert(g[row][c3] == digit);
                assert(row_has(g, row, col, digit));
            } else if r == row && c3 == col {
                assert(g[row][c] == digit);
                assert(row_has(g, row, col, digit));
            } else {
                assert(row_has(g, r, c, g[r][c]));
            }
        }
        if col_has(g2, r, c, v) {
            let r3 = choose|r3: int| 0 <= r3 < 9 && r3 != r && g2[r3][c] == v;
            if r == row && c == col {
                assert(g[r3][col] == digit);
                assert(col_has(g, row, col, digit));
            } else if c == col && r3 == row {
                assert(g[r][col] == digit);
                assert(col_has(g, row, col, digit));
            } else {
                assert(col_has(g, r, c, g[r][c]));
            }
        }
        if block_has(g2, r, c, v) {
            let (r3, c3) = choose|r3: int, c3: int|
                in_grid(r3, c3) && r3 / 3 == r / 3 && c3 / 3 == c / 3 && !(r3 == r && c3 == c)
                    && g2[r3][c3] == v;
            if r == row && c == col {
                assert(g[r3][c3] == digit);
                assert(block_has(g, row, col, digit));
            } else if r3 == row && c3 == col {
                assert(g[r][c] == digit);
                assert(block_has(g, row, col, digit));
            } else {
                assert(block_has(g, r, c, g[r][c]));
            }
        }
    }
}

/// Emptying a cell never introduces a duplicate.
pub proof fn lemma_clear_preserves_no_duplicates(g: Seq<Seq<Digit>>, row: int, col: int)
    requires
        grid_dims(g),
        in_grid(row, col),
        no_duplicates(g),
    ensures
        no_duplicates(grid_update(g, row, col, 0)),
{
    let g2 = grid_update(g, row, col, 0);
    assert forall|r: int, c: int| in_grid(r, c) implies #[trigger] g2[r][c] == (if r == row && c
        == col {
        0u8
    } else {
        g[r][c]
    }) by {
        if r == row {
            assert(g2[r] == g[row].update(col, 0u8));
        }
    }
    assert forall|r: int, c: int| in_grid(r, c) && #[trigger] g2[r][c] != 0 implies !row_has(
        g2,
        r,
        c,
        g2[r][c],
    ) && !col_has(g2, r, c, g2[r][c]) && !block_has(g2, r, c, g2[r][c]) by {
        let v = g2[r][c];
        if row_has(g2, r, c, v) {
            let c3 = choose|c3: int| 0 <= c3 < 9 && c3 != c && g2[r][c3] == v;
            assert(g[r][c3] == v);
            assert(row_has(g, r, c, g[r][c]));
        }
        if col_has(g2, r, c, v) {
            let r3 = choose|r3: int| 0 <= r3 < 9 && r3 != r && g2[r3][c] == v;
            assert(g[r3][c] == v);
            assert(col_has(g, r, c, g[r][c]));
        }
        if block_has(g2, r, c, v) {
            let (r3, c3) = choose|r3: int, c3: int|
                in_grid(r3, c3) && r3 / 3 == r / 3 && c3 / 3 == c / 3 && !(r3 == r && c3 == c)
                    && g2[r3][c3] == v;
            assert(g[r3][c3] == v);
            assert(block_has(g, r, c, g[r][c]));
        }
    }
}

/// Emptying a cell that is already empty changes nothing: clearing is
/// idempotent on empty non-clue cells.
pub proof fn lemma_clear_empty_cell_is_noop(g: Seq<Seq<Digit>>, row: int, col: int)
    requires
        grid_dims(g),
        in_grid(row, col),
        g[row][col] == 0,
    ensures
        grid_update(g, row, col, 0) == g,
{
    assert(g[row].update(col, 0u8) =~= g[row]);
    assert(grid_update(g, row, col, 0) =~= g);
}

/// The grid with every cell empty.
pub open spec fn empty_grid() -> Seq<Seq<Digit>> {
    Seq::new(9, |r: int| Seq::new(9, |c: int| 0u8))
}

/// The engine: a clue layout fixed at construction and a play surface that
/// every mutation validates against first.
#[derive(Debug, Clone, Copy)]
pub struct Sudoku {
    initial: Grid,
    grid: Grid,
}

impl Sudoku {
    /// Builds an engine from a starting layout, 0 marking an empty cell and
    /// any non-zero value a permanent clue.
    ///
    /// The layout is accepted only if every clue is a digit 1 through 9
    /// that duplicates no other clue in its row or its column; otherwise
    /// every offending clue is reported at once, in row-major order. A 3x3
    /// block conflict among the clues is deliberately accepted here; only
    /// `set_cell` enforces the block rule.
    pub fn new(initial: Grid) -> (result: Result<Sudoku, ConstructionError>)
        ensures
            match result {
                Ok(s) => layout_violations(initial.deep_view()).len() == 0 && s.wf() && s.clues()
                    == initial.deep_view() && s.current() == s.clues(),
                Err(e) => e.violations@ == layout_violations(initial.deep_view())
                    && e.violations@.len() > 0,
            },
    {
        let ghost g = initial.deep_view();
        let mut violations: Vec<Violation> = Vec::new();
        for row in 0..9
            invariant
                g == initial.deep_view(),
                violations@ == violations_upto(g, row as int),
        {
            let cells: [Digit; 9] = initial[row];
            assert(cells@ == g[row as int]);
            for col in 0..9
                invariant
                    row < 9,
                    g == initial.deep_view(),
                    cells@ == g[row as int],
                    violations@ == violations_upto(g, row as int) + row_violations_upto(
                        g,
                        row as int,
                        col as int,
                    ),
            {
                let digit = cells[col];
                if digit != 0 && (!is_valid_digit(digit) || has_digit_in_row(
                    &initial,
                    row,
                    col,
                    digit,
                ) || has_digit_in_column(&initial, row, col, digit)) {
                    violations.push(Violation { row, col, digit });
                }
                proof {
                    assert(violations@ =~= violations_upto(g, row as int) + row_violations_upto(
                        g,
                        row as int,
                        col as int + 1,
                    ));
                }
            }
            proof {
                assert(violations@ =~= violations_upto(g, row as int + 1));
            }
        }
        if violations.len() > 0 {
            return Err(ConstructionError { violations });
        }
        proof {
            lemma_no_violations_iff_consistent(g);
        }
        let board = Sudoku { initial, grid: initial };
        proof {
            assert(cells_in_range(g));
            assert(clues_respected(g, g));
        }
        Ok(board)
    }

    /// The clue layout, as fixed at construction.
    pub closed spec fn clues(&self) -> Seq<Seq<Digit>> {
        self.initial.deep_view()
    }

    /// The play surface as it now stands.
    pub closed spec fn current(&self) -> Seq<Seq<Digit>> {
        self.grid.deep_view()
    }

    /// The engine's invariant: both grids are 9x9 with values at most 9,
    /// the clues are free of row and column conflicts (block conflicts are
    /// deliberately tolerated in a starting layout), and every clue keeps
    /// its value on the play surface.
    pub open spec fn wf(&self) -> bool {
        grid_dims(self.clues()) && grid_dims(self.current()) && cells_in_range(self.clues())
            && cells_in_range(self.current()) && rows_cols_consistent(self.clues())
            && clues_respected(self.clues(), self.current())
    }

    /// The value now standing at (`row`, `col`): 0 when empty.
    pub fn cell(&self, row: usize, col: usize) -> (d: Digit)
        requires
            row < 9,
            col < 9,
        ensures
            d == self.current()[row as int][col as int],
    {
        let cells: [Digit; 9] = self.grid[row];
        cells[col]
    }

    /// Overwrites the play surface with the clue layout, dropping every
    /// placed digit. Never fails and performs no validation.
    pub fn reset_to_initial(&mut self)
        requires
            old(self).wf(),
        ensures
            final(self).wf(),
            final(self).clues() == old(self).clues(),
            final(self).current() == final(self).clues(),
    {
        self.grid = self.initial;
    }

    /// Places `digit` at (`row`, `col`) after the fixed checks: bounds,
    /// digit range, clue immutability, row, column, block. The first failed
    /// check is returned as the error and the play surface is then left
    /// completely unchanged.
    pub fn set_cell(&mut self, row: usize, col: usize, digit: Digit) -> (result: Result<
        (),
        SudokuError,
    >)
        requires
            old(self).wf(),
        ensures
            final(self).wf(),
            final(self).clues() == old(self).clues(),
            ({
                let outcome = set_cell_spec(
                    old(self).clues(),
                    old(self).current(),
                    row,
                    col,
                    digit,
                );
                match outcome {
                    Ok(g2) => result == Ok::<(), SudokuError>(()) && final(self).current() == g2,
                    Err(e) => result == Err::<(), SudokuError>(e) && final(self).current() == old(
                        self,
                    ).current(),
                }
            }),
            no_duplicates(old(self).current()) ==> no_duplicates(final(self).current()),
    {
        if !is_in_grid(row, col) {
            return Err(SudokuError::InvalidCell(row, col));
        }
        if !is_valid_digit(digit) {
            return Err(SudokuError::InvalidDigit(digit));
        }
        if self.is_initial_valued_cell(row, col) {
            return Err(SudokuError::InitialValuedCell(row, col));
        }
        if has_digit_in_row(&self.grid, row, col, digit) {
            return Err(SudokuError::DigitAlreadyExistsInRow(digit, row));
        }
        if has_digit_in_column(&self.grid, row, col, digit) {
            return Err(SudokuError::DigitAlreadyExistsInColumn(digit, col));
        }
        if has_digit_in_subgrid(&self.grid, row, col, digit) {
            return Err(SudokuError::DigitAlreadyExistsInSubGrid(digit));
        }
        let ghost old_g = self.current();
        let mut cells: [Digit; 9] = self.grid[row];
        cells[col] = digit;
        self.grid[row] = cells;
        proof {
            assert(cells@ == old(self).grid@[row as int]@.update(col as int, digit));
            assert(self.current() =~~= grid_update(old_g, row as int, col as int, digit));
            if no_duplicates(old_g) {
                lemma_place_preserves_no_duplicates(old_g, row as int, col as int, digit);
            }
            assert forall|r: int, c: int|
                in_grid(r, c) && #[trigger] self.clues()[r][c] != 0 implies self.current()[r][c]
                == self.clues()[r][c] by {
                assert(!(r == row && c == col));
                assert(self.current()[r][c] == old_g[r][c]);
            }
            assert forall|r: int, c: int| in_grid(r, c) implies #[trigger] self.current()[r][c]
                <= 9 by {
                if !(r == row && c == col) {
                    assert(self.current()[r][c] == old_g[r][c]);
                }
            }
        }
        Ok(())
    }

    /// Empties the cell at (`row`, `col`) after the bounds and clue checks
    /// only. Clearing an already-empty non-clue cell succeeds and leaves the
    /// play surface identical.
    pub fn clear_cell(&mut self, row: usize, col: usize) -> (result: Result<(), SudokuError>)
        requires
            old(self).wf(),
        ensures
            final(self).wf(),
            final(self).clues() == old(self).clues(),
            ({
                let outcome = clear_cell_spec(old(self).clues(), old(self).current(), row, col);
                match outcome {
                    Ok(g2) => result == Ok::<(), SudokuError>(()) && final(self).current() == g2,
                    Err(e) => result == Err::<(), SudokuError>(e) && final(self).current() == old(
                        self,
                    ).current(),
                }
            }),
            no_duplicates(old(self).current()) ==> no_duplicates(final(self).current()),
    {
        if !is_in_grid(row, col) {
            return Err(SudokuError::InvalidCell(row, col));
        }
        if self.is_initial_valued_cell(row, col) {
            return Err(SudokuError::InitialValuedCell(row, col));
        }
        let ghost old_g = self.current();
        let mut cells: [Digit; 9] = self.grid[row];
        cells[col] = 0;
        self.grid[row] = cells;
        proof {
            assert(cells@ == old(self).grid@[row as int]@.update(col as int, 0u8));
            assert(self.current() =~~= grid_update(old_g, row as int, col as int, 0));
            if no_duplicates(old_g) {
                lemma_clear_preserves_no_duplicates(old_g, row as int, col as int);
            }
            assert forall|r: int, c: int|
                in_grid(r, c) && #[trigger] self.clues()[r][c] != 0 implies self.current()[r][c]
                == self.clues()[r][c] by {
                assert(!(r == row && c == col));
                assert(self.current()[r][c] == old_g[r][c]);
            }
            assert forall|r: int, c: int| in_grid(r, c) implies #[trigger] self.current()[r][c]
                <= 9 by {
                if !(r == row && c == col) {
                    assert(self.current()[r][c] == old_g[r][c]);
                }
            }
        }
        Ok(())
    }

    /// True when the cell was given a non-zero value at construction.
    fn is_initial_valued_cell(&self, row: usize, col: usize) -> (r: bool)
        requires
            row < 9,
            col < 9,
        ensures
            r == (self.clues()[row as int][col as int] != 0),
    {
        let cells: [Digit; 9] = self.initial[row];
        cells[col] != 0
    }
}

/// The character that prints a digit: `digit_char(3)` is '3'.
pub open spec fn digit_char(d: int) -> char {
    if d == 1 {
        '1'
    } else if d == 2 {
        '2'
    } else if d == 3 {
        '3'
    } else if d == 4 {
        '4'
    } else if d == 5 {
        '5'
    } else if d == 6 {
        '6'
    } else if d == 7 {
        '7'
    } else if d == 8 {
        '8'
    } else if d == 9 {
        '9'
    } else {
        '0'
    }
}

/// The column-number header up to column `n`: each number padded with
/// spaces, with a wider gap after every third column.
pub open spec fn header_cols(n: int) -> Seq<char>
    decreases n,
{
    if n <= 0 {
        Seq::empty()
    } else {
        header_cols(n - 1) + " "@ + seq![digit_char(n)] + " "@ + (if n % 3 == 0 {
            "  "@
        } else {
            " "@
        })
    }
}

/// The full column-number header line.
pub open spec fn header_line() -> Seq<char> {
    "    "@ + header_cols(9) + "\n"@
}

/// The horizontal rule drawn under the header and under every third row.
pub open spec fn rule_line() -> Seq<char> {
    "    -----------  -----------  -----------\n"@
}

/// How one cell prints: three spaces when empty, the digit between spaces
/// otherwise.
pub open spec fn cell_text(d: Digit) -> Seq<char> {
    if d == 0 {
        "   "@
    } else {
        " "@ + seq![digit_char(d as int)] + " "@
    }
}

/// The first `n` cells of a row, each followed by `|` within a block and
/// `::` at a block boundary.
pub open spec fn row_cells(row: Seq<Digit>, n: int) -> Seq<char>
    decreases n,
{
    if n <= 0 {
        Seq::empty()
    } else {
        row_cells(row, n - 1) + cell_text(row[n - 1]) + (if n % 3 == 0 {
            "::"@
        } else {
            "|"@
        })
    }
}

/// One rendered row: the row number on both ends, the cells between.
pub open spec fn row_line(row: Seq<Digit>, num: int) -> Seq<char> {
    seq![digit_char(num)] + " ::"@ + row_cells(row, 9) + " "@ + seq![digit_char(num)] + "\n"@
}

/// The first `n` rendered rows, with a rule after every third one.
pub open spec fn grid_rows(g: Seq<Seq<Digit>>, n: int) -> Seq<char>
    decreases n,
{
    if n <= 0 {
        Seq::empty()
    } else {
        grid_rows(g, n - 1) + row_line(g[n - 1], n) + (if n % 3 == 0 {
            rule_line()
        } else {
            Seq::empty()
        })
    }
}

/// The whole rendered board: header, rule, the nine rows with their rules,
/// and the header repeated at the bottom.
pub open spec fn render_spec(g: Seq<Seq<Digit>>) -> Seq<char> {
    header_line() + rule_line() + grid_rows(g, 9) + header_line()
}

/// The character for a digit 1 through 9.
fn digit_to_char(d: Digit) -> (c: char)
    requires
        1 <= d <= 9,
    ensures
        c == digit_char(d as int),
{
    match d {
        1 => '1',
        2 => '2',
        3 => '3',
        4 => '4',
        5 => '5',
        6 => '6',
        7 => '7',
        8 => '8',
        _ => '9',
    }
}

/// Appends the column-number header line.
fn header_into(out: &mut String)
    ensures
        final(out)@ == old(out)@ + header_line(),
{
    out.append("    ");
    for n in 1..10usize
        invariant
            out@ == old(out)@ + "    "@ + header_cols(n as int - 1),
    {
        out.append(" ");
        push_char(out, digit_to_char(n as u8));
        out.append(" ");
        if n % 3 == 0 {
            out.append("  ");
        } else {
            out.append(" ");
        }
        proof {
            assert(out@ =~= old(out)@ + "    "@ + header_cols(n as int));
        }
    }
    out.append("\n");
    proof {
        assert(out@ =~= old(out)@ + header_line());
    }
}

/// Appends the horizontal rule line.
fn rule_into(out: &mut String)
    ensures
        final(out)@ == old(out)@ + rule_line(),
{
    out.append("    -----------  -----------  -----------\n");
}

/// Appends one rendered row.
fn row_into(out: &mut String, cells: &[Digit; 9], num: usize)
    requires
        1 <= num <= 9,
        forall|c: int| 0 <= c < 9 ==> cells@[c] <= 9,
    ensures
        final(out)@ == old(out)@ + row_line(cells@, num as int),
{
    push_char(out, digit_to_char(num as u8));
    out.append(" ::");
    for n in 1..10usize
        invariant
            1 <= num <= 9,
            forall|c: int| 0 <= c < 9 ==> cells@[c] <= 9,
            out@ == old(out)@ + seq![digit_char(num as int)] + " ::"@ + row_cells(
                cells@,
                n as int - 1,
            ),
    {
        let d = cells[n - 1];
        if d == 0 {
            out.append("   ");
        } else {
            out.append(" ");
            push_char(out, digit_to_char(d));
            out.append(" ");
        }
        if n % 3 == 0 {
            out.append("::");
        } else {
            out.append("|");
        }
        proof {
            assert(out@ =~= old(out)@ + seq![digit_char(num as int)] + " ::"@ + row_cells(
                cells@,
                n as int,
            ));
        }
    }
    out.append(" ");
    push_char(out, digit_to_char(num as u8));
    out.append("\n");
    proof {
        assert(out@ =~= old(out)@ + row_line(cells@, num as int));
    }
}

impl Sudoku {
    /// Renders the play surface as text: a header of column numbers, a
    /// rule, the nine rows with `|` between cells and `::` at block
    /// boundaries, a rule after every third row, and the header repeated.
    pub fn render(&self) -> (out: String)
        requires
            self.wf(),
        ensures
            out@ == render_spec(self.current()),
    {
        let ghost g = self.current();
        let mut out = String::new();
        assert(out@ =~= Seq::<char>::empty());
        header_into(&mut out);
        rule_into(&mut out);
        for n in 1..10usize
            invariant
                self.wf(),
                g == self.current(),
                out@ == header_line() + rule_line() + grid_rows(g, n as int - 1),
        {
            let cells: [Digit; 9] = self.grid[n - 1];
            assert(cells@ == g[n as int - 1]);
            assert(forall|c: int| 0 <= c < 9 ==> cells@[c] <= 9);
            row_into(&mut out, &cells, n);
            if n % 3 == 0 {
                rule_into(&mut out);
            }
            proof {
                assert(out@ =~= header_line() + rule_line() + grid_rows(g, n as int));
            }
        }
        header_into(&mut out);
        proof {
            assert(out@ =~= render_spec(g));
        }
        out
    }
}

impl Default for Sudoku {
    /// An engine with no clues and an empty play surface.
    fn default() -> (s: Self)
        ensures
            s.wf(),
            s.clues() == empty_grid(),
            s.current() == empty_grid(),
    {
        let zero: Grid = [[0; 9]; 9];
        let s = Sudoku { initial: zero, grid: zero };
        proof {
            assert(s.clues() =~~= empty_grid());
        }
        s
    }
}

} // verus!
