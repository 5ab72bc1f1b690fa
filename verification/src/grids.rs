//! Formatting of rectangular character grids: each cell between square
//! brackets, one line per row.

use vstd::prelude::*;

verus! {

use crate::text::push_char;
use vstd::string::StringExecFns;

/// The first `n` cells of one row, each between `[` and `]`.
pub open spec fn row_text(row: Seq<char>, n: int) -> Seq<char>
    decreases n,
{
    if n <= 0 {
        Seq::empty()
    } else {
        row_text(row, n - 1) + "["@ + seq![row[n - 1]] + "]"@
    }
}

/// The first `n` rows, each one's cells followed by a newline.
pub open spec fn grid_text(rows: Seq<Seq<char>>, n: int) -> Seq<char>
    decreases n,
{
    if n <= 0 {
        Seq::empty()
    } else {
        grid_text(rows, n - 1) + row_text(rows[n - 1], rows[n - 1].len() as int) + "\n"@
    }
}

/// Formats a fixed-size grid of characters.
pub fn format_grid_to<const R: usize, const C: usize>(grid: &[[char; C]; R]) -> (out: String)
    ensures
        out@ == grid_text(grid.deep_view(), R as int),
{
    let ghost rows = grid.deep_view();
    let mut out = String::new();
    assert(out@ =~= grid_text(rows, 0));
    for r in 0..R
        invariant
            rows == grid.deep_view(),
            out@ == grid_text(rows, r as int),
    {
        let row: [char; C] = grid[r];
        assert(row@ == rows[r as int]);
        for c in 0..C
            invariant
                rows == grid.deep_view(),
                r < R,
                row@ == rows[r as int],
                out@ == grid_text(rows, r as int) + row_text(row@, c as int),
        {
            out.append("[");
            push_char(&mut out, row[c]);
            out.append("]");
            proof {
                assert(out@ =~= grid_text(rows, r as int) + row_text(row@, c as int + 1));
            }
        }
        out.append("\n");
        proof {
            assert(out@ =~= grid_text(rows, r as int + 1));
        }
    }
    out
}

/// Formats a grid of characters held in nested vectors; the rows need not
/// be of equal length.
pub fn format_vec_grid_to(grid: &Vec<Vec<char>>) -> (out: String)
    ensures
        out@ == grid_text(grid.deep_view(), grid@.len() as int),
{
    let ghost rows = grid.deep_view();
    let mut out = String::new();
    assert(out@ =~= grid_text(rows, 0));
    let n = grid.len();
    for r in 0..n
        invariant
            rows == grid.deep_view(),
            n == grid@.len(),
            out@ == grid_text(rows, r as int),
    {
        let width = grid[r].len();
        assert(grid@[r as int]@ == rows[r as int]);
        for c in 0..width
            invariant
                rows == grid.deep_view(),
                n == grid@.len(),
                r < n,
                width == rows[r as int].len(),
                grid@[r as int]@ == rows[r as int],
                out@ == grid_text(rows, r as int) + row_text(rows[r as int], c as int),
        {
            out.append("[");
            let ch = grid[r][c];
            push_char(&mut out, ch);
            out.append("]");
            proof {
                assert(out@ =~= grid_text(rows, r as int) + row_text(rows[r as int], c as int + 1));
            }
        }
        out.append("\n");
        proof {
            assert(out@ =~= grid_text(rows, r as int + 1));
        }
    }
    out
}

} // verus!
