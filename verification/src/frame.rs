//! Drawing a window of the lattice as text.
//!
//! A frame has one line for each row of the window, from the top, and in
//! each line one glyph for each column, from the left; every line ends with
//! a line feed.

use crate::cell::Cell;
use crate::cell_set::CellSet;
use vstd::prelude::*;

verus! {

/// The glyph that shows the cell at column `x` and row `y`.
pub open spec fn glyph(cells: Set<Cell>, x: int, y: int, alive: char, dead: char) -> char {
    if cells.contains(Cell(x as i64, y as i64)) {
        alive
    } else {
        dead
    }
}

/// The glyphs of the first `count` columns of row `y`, from column `x0`.
pub open spec fn glyphs(cells: Set<Cell>, x0: int, count: nat, y: int, alive: char, dead: char)
    -> Seq<char> {
    Seq::new(count, |i: int| glyph(cells, x0 + i, y, alive, dead))
}

/// How many lattice points lie from `lo` to `hi`, both included; none if
/// `hi` is below `lo`.
pub open spec fn count(lo: int, hi: int) -> nat {
    if hi >= lo {
        (hi - lo + 1) as nat
    } else {
        0
    }
}

/// The line that shows row `y` from column `x0` to column `x1`.
pub open spec fn frame_row(cells: Set<Cell>, x0: int, x1: int, y: int, alive: char, dead: char)
    -> Seq<char> {
    glyphs(cells, x0, count(x0, x1), y, alive, dead).push('\n')
}

/// The lines that show the first `rows` rows from row `y0`.
pub open spec fn frame_rows(
    cells: Set<Cell>,
    x0: int,
    x1: int,
    y0: int,
    rows: nat,
    alive: char,
    dead: char,
) -> Seq<char>
    decreases rows,
{
    if rows == 0 {
        Seq::empty()
    } else {
        frame_rows(cells, x0, x1, y0, (rows - 1) as nat, alive, dead) + frame_row(
            cells,
            x0,
            x1,
            y0 + rows - 1,
            alive,
            dead,
        )
    }
}

/// The frame that shows the window from `near` to `far`.
pub open spec fn frame(cells: Set<Cell>, near: Cell, far: Cell, alive: char, dead: char) -> Seq<
    char,
> {
    frame_rows(
        cells,
        near.0 as int,
        far.0 as int,
        near.1 as int,
        count(near.1 as int, far.1 as int),
        alive,
        dead,
    )
}

/// Draws the window from `near` to `far`.
pub fn draw_frame(cells: &CellSet, near: Cell, far: Cell, alive: char, dead: char) -> (out: String)
    ensures
        out@ == frame(cells@, near, far, alive, dead),
{
    let mut out = String::new();
    let mut y: i128 = near.1 as i128;
    while y <= far.1 as i128
        invariant
            near.1 <= y <= far.1 + 1 || (far.1 < near.1 && y == near.1),
            out@ == frame_rows(
                cells@,
                near.0 as int,
                far.0 as int,
                near.1 as int,
                (y - near.1) as nat,
                alive,
                dead,
            ),
        decreases far.1 - y + 1,
    {
        let ghost above = out@;
        let mut x: i128 = near.0 as i128;
        proof {
            assert(above + glyphs(cells@, near.0 as int, 0, y as int, alive, dead) =~= above);
        }
        while x <= far.0 as i128
            invariant
                near.1 <= y <= far.1,
                near.0 <= x <= far.0 + 1 || (far.0 < near.0 && x == near.0),
                out@ == above + glyphs(
                    cells@,
                    near.0 as int,
                    (x - near.0) as nat,
                    y as int,
                    alive,
                    dead,
                ),
            decreases far.0 - x + 1,
        {
            let cell = Cell(x as i64, y as i64);
            let mark = if cells.contains(&cell) { alive } else { dead };
            out.push(mark);
            proof {
                assert(glyphs(cells@, near.0 as int, (x - near.0) as nat, y as int, alive, dead).push(
                    mark,
                ) =~= glyphs(cells@, near.0 as int, (x + 1 - near.0) as nat, y as int, alive, dead));
            }
            x += 1;
        }
        out.push('\n');
        proof {
            assert(out@ =~= above + frame_row(
                cells@,
                near.0 as int,
                far.0 as int,
                y as int,
                alive,
                dead,
            ));
        }
        y += 1;
    }
    out
}

} // verus!
