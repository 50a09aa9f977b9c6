//! The window of the lattice that is drawn.
//!
//! A window is a pair of corners, both inclusive. The natural window of a
//! population is its bounding box; the centered window widens that box
//! evenly to a minimum size, and the fixed window has a set size and moves
//! by scrolling alone.

use crate::cell::Cell;
use vstd::prelude::*;

verus! {

/// Whether `near` and `far` are the corners of the tightest box around `cells`.
pub open spec fn is_bounding_box(cells: Set<Cell>, near: Cell, far: Cell) -> bool {
    &&& forall|c: Cell| #[trigger]
        cells.contains(c) ==> near.0 <= c.0 <= far.0 && near.1 <= c.1 <= far.1
    &&& exists|c: Cell| #[trigger] cells.contains(c) && c.0 == near.0
    &&& exists|c: Cell| #[trigger] cells.contains(c) && c.0 == far.0
    &&& exists|c: Cell| #[trigger] cells.contains(c) && c.1 == near.1
    &&& exists|c: Cell| #[trigger] cells.contains(c) && c.1 == far.1
}

/// The corners of the tightest box around `cells`; both are the origin when
/// there is no cell.
pub open spec fn bounding_box(cells: Set<Cell>) -> (Cell, Cell) {
    if cells.is_empty() {
        (Cell(0, 0), Cell(0, 0))
    } else {
        choose|b: (Cell, Cell)| is_bounding_box(cells, b.0, b.1)
    }
}

/// A set of cells has one bounding box only.
pub proof fn lemma_bounding_box_unique(cells: Set<Cell>, near: Cell, far: Cell)
    requires
        is_bounding_box(cells, near, far),
    ensures
        !cells.is_empty(),
        bounding_box(cells) == (near, far),
        near.0 <= far.0,
        near.1 <= far.1,
{
    let x0 = choose|c: Cell| #[trigger] cells.contains(c) && c.0 == near.0;
    assert(cells.contains(x0));
    assert(!(cells =~= Set::<Cell>::empty()));
    let given = (near, far);
    assert(is_bounding_box(cells, given.0, given.1));
    let b = bounding_box(cells);
    assert(is_bounding_box(cells, b.0, b.1));
    let x1 = choose|c: Cell| #[trigger] cells.contains(c) && c.0 == far.0;
    let y0 = choose|c: Cell| #[trigger] cells.contains(c) && c.1 == near.1;
    let y1 = choose|c: Cell| #[trigger] cells.contains(c) && c.1 == far.1;
    let bx0 = choose|c: Cell| #[trigger] cells.contains(c) && c.0 == b.0.0;
    let bx1 = choose|c: Cell| #[trigger] cells.contains(c) && c.0 == b.1.0;
    let by0 = choose|c: Cell| #[trigger] cells.contains(c) && c.1 == b.0.1;
    let by1 = choose|c: Cell| #[trigger] cells.contains(c) && c.1 == b.1.1;
    assert(cells.contains(x0) && cells.contains(x1) && cells.contains(y0) && cells.contains(y1));
    assert(cells.contains(bx0) && cells.contains(bx1) && cells.contains(by0) && cells.contains(by1));
}

/// Every finite set of cells that is not empty has a bounding box.
pub proof fn lemma_bounding_box_exists(cells: Set<Cell>)
    requires
        cells.finite(),
        !cells.is_empty(),
    ensures
        is_bounding_box(cells, bounding_box(cells).0, bounding_box(cells).1),
    decreases cells.len(),
{
    let a = cells.choose();
    assert(cells.contains(a)) by {
        if !cells.contains(a) {
            assert(cells =~= Set::<Cell>::empty());
        }
    }
    let rest = cells.remove(a);
    let found: (Cell, Cell) = if rest.is_empty() {
        (a, a)
    } else {
        lemma_bounding_box_exists(rest);
        let (near, far) = bounding_box(rest);
        let x0 = choose|c: Cell| #[trigger] rest.contains(c) && c.0 == near.0;
        let x1 = choose|c: Cell| #[trigger] rest.contains(c) && c.0 == far.0;
        let y0 = choose|c: Cell| #[trigger] rest.contains(c) && c.1 == near.1;
        let y1 = choose|c: Cell| #[trigger] rest.contains(c) && c.1 == far.1;
        assert(cells.contains(x0) && cells.contains(x1) && cells.contains(y0) && cells.contains(y1));
        (
            Cell(
                if a.0 < near.0 { a.0 } else { near.0 },
                if a.1 < near.1 { a.1 } else { near.1 },
            ),
            Cell(if a.0 > far.0 { a.0 } else { far.0 }, if a.1 > far.1 { a.1 } else { far.1 }),
        )
    };
    assert forall|c: Cell| #[trigger] cells.contains(c) implies found.0.0 <= c.0 <= found.1.0
        && found.0.1 <= c.1 <= found.1.1 by {
        if c != a {
            assert(rest.contains(c));
        }
    }
    assert(is_bounding_box(cells, found.0, found.1));
}

/// The centered window of a population holds every cell of it.
pub proof fn lemma_centered_window_holds_all(
    cells: Set<Cell>,
    min_width: u64,
    min_height: u64,
    c: Cell,
)
    requires
        cells.finite(),
        cells.contains(c),
    ensures
        ({
            let (near, far) = centered_corners(
                bounding_box(cells).0,
                bounding_box(cells).1,
                min_width,
                min_height,
            );
            near.0 <= c.0 <= far.0 && near.1 <= c.1 <= far.1
        }),
{
    assert(!(cells =~= Set::<Cell>::empty()));
    lemma_bounding_box_exists(cells);
    let (near, far) = bounding_box(cells);
    lemma_centered_span(near.0 as int, far.0 as int, min_width as int);
    lemma_centered_span(near.1 as int, far.1 as int, min_height as int);
}

/// The number of lattice points from `lo` to `hi`, both included.
pub open spec fn extent(lo: int, hi: int) -> int {
    hi - lo + 1
}

/// The natural width and height of a population.
pub open spec fn natural_size(cells: Set<Cell>) -> (int, int) {
    let (near, far) = bounding_box(cells);
    (extent(near.0 as int, far.0 as int), extent(near.1 as int, far.1 as int))
}

/// Whether no two of the cells lie so far apart that the columns or the rows
/// they span could not be counted in 64 bits.
pub open spec fn spans_fit(cells: Set<Cell>) -> bool {
    forall|a: Cell, b: Cell|
        #![trigger cells.contains(a), cells.contains(b)]
        cells.contains(a) && cells.contains(b) ==> a.0 - b.0 < u64::MAX && a.1 - b.1 < u64::MAX
}

/// The spans of a population fit exactly when its natural size does.
pub proof fn lemma_spans_fit(cells: Set<Cell>, near: Cell, far: Cell)
    requires
        is_bounding_box(cells, near, far),
    ensures
        spans_fit(cells) <==> extent(near.0 as int, far.0 as int) <= u64::MAX && extent(
            near.1 as int,
            far.1 as int,
        ) <= u64::MAX,
{
    let x0 = choose|c: Cell| #[trigger] cells.contains(c) && c.0 == near.0;
    let x1 = choose|c: Cell| #[trigger] cells.contains(c) && c.0 == far.0;
    let y0 = choose|c: Cell| #[trigger] cells.contains(c) && c.1 == near.1;
    let y1 = choose|c: Cell| #[trigger] cells.contains(c) && c.1 == far.1;
    assert(cells.contains(x0) && cells.contains(x1) && cells.contains(y0) && cells.contains(y1));
}

/// The number of lattice points from `lo` to `hi`, both included.
pub fn span(lo: i64, hi: i64) -> (out: u64)
    requires
        lo <= hi,
        extent(lo as int, hi as int) <= u64::MAX,
    ensures
        out == extent(lo as int, hi as int),
{
    (hi as i128 - lo as i128 + 1) as u64
}

/// What `natural` lacks to reach `least`.
pub open spec fn deficit(least: int, natural: int) -> int {
    if least > natural {
        least - natural
    } else {
        0
    }
}

/// The two halves of `n`; the second takes the odd unit.
pub open spec fn split(n: int) -> (int, int) {
    (n / 2, n / 2 + n % 2)
}

/// The interval from `lo` to `hi`, widened evenly until it spans `least` points.
pub open spec fn centered_span(lo: int, hi: int, least: int) -> (int, int) {
    let (before, after) = split(deficit(least, extent(lo, hi)));
    (lo - before, hi + after)
}

/// The corners of the centered window around a box, as unbounded integers.
pub open spec fn centered_corners(near: Cell, far: Cell, min_width: u64, min_height: u64) -> (
    (int, int),
    (int, int),
) {
    let xs = centered_span(near.0 as int, far.0 as int, min_width as int);
    let ys = centered_span(near.1 as int, far.1 as int, min_height as int);
    ((xs.0, ys.0), (xs.1, ys.1))
}

/// The corners of the window that a viewing mode shows of a population, as
/// unbounded integers: the fixed window in the fixed mode, the centered
/// window around the bounding box of the population in the centered mode.
/// The mode `Follow` has no window; nothing is drawn in it.
pub open spec fn window_corners(
    view: crate::config::View,
    window: Viewport,
    cells: Set<Cell>,
    min_width: u64,
    min_height: u64,
) -> ((int, int), (int, int)) {
    match view {
        crate::config::View::Fixed => window.fixed_corners(),
        _ => centered_corners(bounding_box(cells).0, bounding_box(cells).1, min_width, min_height),
    }
}

/// Whether a window given by unbounded corners lies inside the lattice.
pub open spec fn window_fits(corners: ((int, int), (int, int))) -> bool {
    Cell::representable(corners.0) && Cell::representable(corners.1)
}

/// The corners of a window that lies inside the lattice, as cells.
pub open spec fn as_cells(corners: ((int, int), (int, int))) -> (Cell, Cell) {
    (
        Cell(corners.0.0 as i64, corners.0.1 as i64),
        Cell(corners.1.0 as i64, corners.1.1 as i64),
    )
}

/// A centered interval contains the natural one, spans the larger of the
/// natural extent and the minimum, leaves the natural interval alone when it
/// is large enough, and else grows on both sides alike, the high side one
/// more where the deficit is odd.
pub proof fn lemma_centered_span(lo: int, hi: int, least: int)
    requires
        lo <= hi,
    ensures
        ({
            let (a, b) = centered_span(lo, hi, least);
            &&& a <= lo && hi <= b
            &&& extent(a, b) == if least > extent(lo, hi) { least } else { extent(lo, hi) }
            &&& extent(lo, hi) >= least ==> a == lo && b == hi
            &&& extent(lo, hi) < least ==> hi < b
            &&& lo - a <= b - hi <= lo - a + 1
        }),
{
}

/// The window of a grid or a game: where it starts, how far it was
/// scrolled, and the size it has in the fixed mode.
#[derive(Debug, Clone, Copy, PartialEq, Eq, Structural)]
pub struct Viewport {
    /// The corner that the fixed window starts from.
    pub origin: Cell,
    /// By how much the fixed window was scrolled.
    pub scroll: Cell,
    /// The width of the fixed window.
    pub width: u64,
    /// The height of the fixed window.
    pub height: u64,
}

impl Default for Viewport {
    /// A window of no size at the origin.
    fn default() -> (out: Viewport)
        ensures
            out == (Viewport { origin: Cell(0, 0), scroll: Cell(0, 0), width: 0, height: 0 }),
    {
        Viewport { origin: Cell(0, 0), scroll: Cell(0, 0), width: 0, height: 0 }
    }
}

impl Viewport {
    /// A window of the given size at the origin, not scrolled.
    pub fn new(width: u64, height: u64) -> (out: Viewport)
        ensures
            out == (Viewport { origin: Cell(0, 0), scroll: Cell(0, 0), width, height }),
    {
        Viewport { origin: Cell(0, 0), scroll: Cell(0, 0), width, height }
    }

    /// The corners of the fixed window, as unbounded integers: it starts at
    /// the origin moved by the scroll, and its far corner lies the width and
    /// the height further on.
    pub open spec fn fixed_corners(self) -> ((int, int), (int, int)) {
        let x = self.origin.0 + self.scroll.0;
        let y = self.origin.1 + self.scroll.1;
        ((x, y), (x + self.width, y + self.height))
    }

    /// The corners of the fixed window.
    pub fn fixed(&self) -> (out: (Cell, Cell))
        requires
            window_fits(self.fixed_corners()),
        ensures
            out == as_cells(self.fixed_corners()),
    {
        let x0: i128 = self.origin.0 as i128 + self.scroll.0 as i128;
        let y0: i128 = self.origin.1 as i128 + self.scroll.1 as i128;
        let x1: i128 = x0 + self.width as i128;
        let y1: i128 = y0 + self.height as i128;
        (Cell(x0 as i64, y0 as i64), Cell(x1 as i64, y1 as i64))
    }

    /// Whether the fixed window lies inside the lattice.
    pub fn fixed_fits(&self) -> (out: bool)
        ensures
            out == window_fits(self.fixed_corners()),
    {
        let x0: i128 = self.origin.0 as i128 + self.scroll.0 as i128;
        let y0: i128 = self.origin.1 as i128 + self.scroll.1 as i128;
        let x1: i128 = x0 + self.width as i128;
        let y1: i128 = y0 + self.height as i128;
        in_lattice(x0) && in_lattice(y0) && in_lattice(x1) && in_lattice(y1)
    }

    /// Whether the centered window around the box from `near` to `far` lies
    /// inside the lattice.
    pub fn centered_fits(near: Cell, far: Cell, min_width: u64, min_height: u64) -> (out: bool)
        requires
            near.0 <= far.0,
            near.1 <= far.1,
        ensures
            out == window_fits(centered_corners(near, far, min_width, min_height)),
    {
        let (x0, x1) = widen_wide(near.0, far.0, min_width);
        let (y0, y1) = widen_wide(near.1, far.1, min_height);
        in_lattice(x0) && in_lattice(y0) && in_lattice(x1) && in_lattice(y1)
    }

    /// The corners of the centered window around the box from `near` to `far`.
    pub fn centered(near: Cell, far: Cell, min_width: u64, min_height: u64) -> (out: (Cell, Cell))
        requires
            near.0 <= far.0,
            near.1 <= far.1,
            window_fits(centered_corners(near, far, min_width, min_height)),
        ensures
            out == as_cells(centered_corners(near, far, min_width, min_height)),
            out.0.0 <= near.0 && far.0 <= out.1.0,
            out.0.1 <= near.1 && far.1 <= out.1.1,
    {
        proof {
            lemma_centered_span(near.0 as int, far.0 as int, min_width as int);
            lemma_centered_span(near.1 as int, far.1 as int, min_height as int);
        }
        let (x0, x1) = widen(near.0, far.0, min_width);
        let (y0, y1) = widen(near.1, far.1, min_height);
        (Cell(x0, y0), Cell(x1, y1))
    }
}

/// Whether `v` is a coordinate of the lattice.
fn in_lattice(v: i128) -> (out: bool)
    ensures
        out == (i64::MIN <= v <= i64::MAX),
{
    i64::MIN as i128 <= v && v <= i64::MAX as i128
}

/// The interval from `lo` to `hi`, widened evenly until it spans `least`
/// points, in integers wide enough for any outcome.
fn widen_wide(lo: i64, hi: i64, least: u64) -> (out: (i128, i128))
    requires
        lo <= hi,
    ensures
        (out.0 as int, out.1 as int) == centered_span(lo as int, hi as int, least as int),
{
    let natural: i128 = hi as i128 - lo as i128 + 1;
    let lacking: u64 = if least as i128 > natural {
        (least as i128 - natural) as u64
    } else {
        0
    };
    let (before, after) = split_int(lacking);
    (lo as i128 - before as i128, hi as i128 + after as i128)
}

/// The interval from `lo` to `hi`, widened evenly until it spans `least` points.
fn widen(lo: i64, hi: i64, least: u64) -> (out: (i64, i64))
    requires
        lo <= hi,
        i64::MIN <= centered_span(lo as int, hi as int, least as int).0,
        centered_span(lo as int, hi as int, least as int).1 <= i64::MAX,
    ensures
        (out.0 as int, out.1 as int) == centered_span(lo as int, hi as int, least as int),
{
    let (lo, hi) = widen_wide(lo, hi, least);
    (lo as i64, hi as i64)
}

/// The two halves of `n`, the second taking the odd unit.
pub fn split_int(n: u64) -> (out: (u64, u64))
    ensures
        (out.0 as int, out.1 as int) == split(n as int),
        out.0 + out.1 == n,
        out.0 <= out.1 <= out.0 + 1,
{
    let (quotient, remainder) = div_rem(n, 2);
    (quotient, quotient + remainder)
}

/// `num_integer::Integer::div_rem` on `u64`. The contract claims what the
/// crate documents: the quotient rounded towards zero and the remainder that
/// goes with it; a zero divisor, on which the division panics, is left out.
/// This is taken on trust.
#[verifier::external_body]
fn div_rem(n: u64, d: u64) -> (out: (u64, u64))
    requires
        d != 0,
    ensures
        out.0 == n / d,
        out.1 == n % d,
{
    num_integer::Integer::div_rem(&n, &d)
}

} // verus!
