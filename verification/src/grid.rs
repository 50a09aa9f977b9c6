//! The grid: the sparse set of the cells that are alive.

use crate::cell::Cell;
use crate::cell_set::{lemma_prefix_one_more, CellSet};
use crate::config::{GridConfig, CHAR_ALIVE, CHAR_DEAD};
use crate::error::AppError;
use crate::frame::{draw_frame, frame};
use crate::pattern::{has_comments, parse_pattern, read_pattern, COMMENT};
use crate::rules::{
    active, adjacent, count_by_direction, lemma_active_of_empty, lemma_active_one_more,
    lemma_count_by_direction, lemma_count_one_more, lemma_moore_neighborhood,
    live_neighbor_count, neighbors,
};
use crate::viewport::{
    as_cells, bounding_box, centered_corners, is_bounding_box, lemma_bounding_box_unique,
    lemma_spans_fit, natural_size, span, spans_fit, window_corners, window_fits, Viewport,
};
use vstd::prelude::*;

verus! {

/// The world of the game: a cell is alive exactly when the grid holds it.
#[derive(Debug, PartialEq, Eq)]
pub struct Grid {
    cells: CellSet,
    opts: GridConfig,
    viewport: Viewport,
}

impl View for Grid {
    type V = Set<Cell>;

    /// The cells that are alive.
    closed spec fn view(&self) -> Set<Cell> {
        self.cells@
    }
}

impl Clone for Grid {
    /// A grid with the same living cells, configuration and window.
    fn clone(&self) -> (out: Grid)
        ensures
            out@ == self@,
            out.spec_opts() == self.spec_opts(),
            out.spec_window() == self.spec_window(),
    {
        Grid { cells: self.cells.clone(), opts: self.opts.clone(), viewport: self.viewport }
    }
}

impl Default for Grid {
    /// The empty grid with the default configuration and a window of no size.
    fn default() -> (out: Grid)
        ensures
            out@ == Set::<Cell>::empty(),
            out.spec_window() == (Viewport {
                origin: Cell(0, 0),
                scroll: Cell(0, 0),
                width: 0,
                height: 0,
            }),
            out.spec_opts().pattern@ == Seq::<char>::empty(),
            out.spec_opts().char_alive == crate::config::CHAR_ALIVE,
            out.spec_opts().char_dead == crate::config::CHAR_DEAD,
            out.spec_opts().view == crate::config::View::Centered,
            out.spec_opts().width == 10,
            out.spec_opts().height == 10,
            out.spec_opts().min_width == 10,
            out.spec_opts().min_height == 10,
    {
        Grid { cells: CellSet::new(), opts: GridConfig::default(), viewport: Viewport::default() }
    }
}

impl Grid {
    /// The configuration of the grid.
    pub closed spec fn spec_opts(&self) -> GridConfig {
        self.opts
    }

    /// The window of the grid.
    pub closed spec fn spec_window(&self) -> Viewport {
        self.viewport
    }

    /// The configuration of the grid.
    pub fn opts(&self) -> (out: &GridConfig)
        ensures
            *out == self.spec_opts(),
    {
        &self.opts
    }

    /// The window of the grid.
    #[verifier::when_used_as_spec(spec_window)]
    pub fn window(&self) -> (out: Viewport)
        ensures
            out == self.spec_window(),
    {
        self.viewport
    }

    /// What holds of a grid that was just made of `cells` and `opts`: the
    /// cells are alive, the window is new, and the minimum size is raised to
    /// the natural size where it was smaller.
    pub open spec fn is_new(&self, cells: Set<Cell>, opts: GridConfig) -> bool {
        &&& self@ == cells
        &&& self.spec_window() == new_window(cells, opts.width, opts.height)
        &&& self.spec_opts() == (GridConfig {
            min_width: at_least(opts.min_width, natural_size(cells).0),
            min_height: at_least(opts.min_height, natural_size(cells).1),
            ..opts
        })
    }

    /// Read a grid from the pattern of a configuration, which becomes the
    /// configuration of the grid. The lines of the pattern that begin with
    /// `#` are comments and are left out, unless `#` is one of the two
    /// glyphs of the configuration.
    pub fn from_config(config: GridConfig) -> (out: Result<Grid, AppError>)
        ensures
            match read_pattern(
                config.pattern@,
                config.char_alive,
                config.char_dead,
                has_comments(config.char_alive, config.char_dead),
            ) {
                Ok(cells) => out matches Ok(grid) && grid.is_new(cells, config),
                Err(e) => out == Err::<Grid, AppError>(e),
            },
    {
        let skip_comments = config.char_alive != COMMENT && config.char_dead != COMMENT;
        Grid::parse(config, skip_comments)
    }

    /// Read a grid from the pattern of a configuration, which becomes the
    /// configuration of the grid. Where `skip_comments` is set, the lines
    /// of the pattern that begin with `#` are left out.
    pub fn parse(config: GridConfig, skip_comments: bool) -> (out: Result<Grid, AppError>)
        ensures
            match read_pattern(
                config.pattern@,
                config.char_alive,
                config.char_dead,
                skip_comments,
            ) {
                Ok(cells) => out matches Ok(grid) && grid.is_new(cells, config),
                Err(e) => out == Err::<Grid, AppError>(e),
            },
    {
        match parse_pattern(
            config.pattern.as_str(),
            config.char_alive,
            config.char_dead,
            skip_comments,
        ) {
            Ok(cells) => {
                proof {
                    assert forall|a: Cell, b: Cell|
                        #![trigger cells@.to_set().contains(a), cells@.to_set().contains(b)]
                        cells@.to_set().contains(a) && cells@.to_set().contains(b) implies a.0
                        - b.0 < u64::MAX && a.1 - b.1 < u64::MAX by {
                        let i = choose|i: int| 0 <= i < cells@.len() && cells@[i] == a;
                        let j = choose|j: int| 0 <= j < cells@.len() && cells@[j] == b;
                        assert(0 <= cells@[i].0 && 0 <= cells@[j].0);
                    }
                }
                Ok(Grid::new(cells, config))
            },
            Err(e) => Err(e),
        }
    }

    /// Read a grid from a pattern, with the default configuration but for
    /// the pattern itself. As `#` is the glyph of a live cell then, no line
    /// of the pattern is a comment.
    pub fn from_str(s: &str) -> (out: Result<Grid, AppError>)
        ensures
            match read_pattern(s@, CHAR_ALIVE, CHAR_DEAD, false) {
                Ok(cells) => out matches Ok(grid) && {
                    &&& grid@ == cells
                    &&& grid.spec_window() == new_window(cells, 10, 10)
                    &&& grid.spec_opts().pattern@ == s@
                    &&& grid.spec_opts().char_alive == CHAR_ALIVE
                    &&& grid.spec_opts().char_dead == CHAR_DEAD
                    &&& grid.spec_opts().view == crate::config::View::Centered
                    &&& grid.spec_opts().width == 10
                    &&& grid.spec_opts().height == 10
                    &&& grid.spec_opts().min_width == at_least(10, natural_size(cells).0)
                    &&& grid.spec_opts().min_height == at_least(10, natural_size(cells).1)
                },
                Err(e) => out == Err::<Grid, AppError>(e),
            },
    {
        let mut config = GridConfig::default();
        config.pattern = s.to_owned();
        Grid::from_config(config)
    }

    /// Whether a grid can be made of the given cells: whether the columns
    /// and the rows that they span can be counted in 64 bits.
    pub fn accepts(cells: &Vec<Cell>) -> (out: bool)
        ensures
            out == spans_fit(cells@.to_set()),
    {
        if cells.len() == 0 {
            proof {
                assert(cells@.to_set() =~= Set::<Cell>::empty());
            }
            return true;
        }
        let (near, far) = extremes(cells);
        proof {
            lemma_spans_fit(cells@.to_set(), near, far);
        }
        (far.0 as i128 - near.0 as i128) < u64::MAX as i128 && (far.1 as i128 - near.1 as i128)
            < u64::MAX as i128
    }

    /// Create a new grid in which exactly the given cells are alive.
    pub fn new(cells: Vec<Cell>, opts: GridConfig) -> (grid: Grid)
        requires
            spans_fit(cells@.to_set()),
        ensures
            grid.is_new(cells@.to_set(), opts),
    {
        let mut live = CellSet::new();
        let mut i: usize = 0;
        proof {
            assert(cells@.take(0).to_set() =~= Set::<Cell>::empty());
        }
        while i < cells.len()
            invariant
                i <= cells@.len(),
                live@ == cells@.take(i as int).to_set(),
            decreases cells@.len() - i,
        {
            live.insert(cells[i]);
            proof {
                lemma_prefix_one_more(cells@, i as int);
            }
            i += 1;
        }
        proof {
            assert(cells@.take(i as int) =~= cells@);
        }
        let mut grid = Grid { cells: live, viewport: Viewport::new(opts.width, opts.height), opts };
        let (origin, far) = grid.calculate_bounds();
        proof {
            if !grid@.is_empty() {
                lemma_spans_fit(grid@, origin, far);
            }
        }
        let (width, height) = (span(origin.0, far.0), span(origin.1, far.1));
        grid.viewport.origin = origin;
        if grid.viewport.width == 0 {
            grid.viewport.width = width;
        }
        if grid.viewport.height == 0 {
            grid.viewport.height = height;
        }
        if grid.opts.min_width < width {
            grid.opts.min_width = width;
        }
        if grid.opts.min_height < height {
            grid.opts.min_height = height;
        }
        grid
    }

    /// Return whether the grid is empty.
    pub fn is_empty(&self) -> (out: bool)
        ensures
            out == self@.is_empty(),
    {
        self.cells.is_empty()
    }

    /// Return whether the given cell is alive.
    pub fn is_alive(&self, cell: &Cell) -> (out: bool)
        ensures
            out == self@.contains(*cell),
    {
        self.cells.contains(cell)
    }

    /// Bring the given cell to life; returns whether it was dead before.
    pub fn set_alive(&mut self, cell: Cell) -> (out: bool)
        ensures
            final(self)@ == old(self)@.insert(cell),
            out == !old(self)@.contains(cell),
            final(self).spec_opts() == old(self).spec_opts(),
            final(self).spec_window() == old(self).spec_window(),
    {
        self.cells.insert(cell)
    }

    /// Kill the given cell; returns whether it was alive before.
    pub fn set_dead(&mut self, cell: &Cell) -> (out: bool)
        ensures
            final(self)@ == old(self)@.remove(*cell),
            out == old(self)@.contains(*cell),
            final(self).spec_opts() == old(self).spec_opts(),
            final(self).spec_window() == old(self).spec_window(),
    {
        self.cells.remove(cell)
    }

    /// Clear the grid of all living cells.
    pub fn clear(&mut self)
        ensures
            final(self)@ == Set::<Cell>::empty(),
            final(self).spec_opts() == old(self).spec_opts(),
            final(self).spec_window() == old(self).spec_window(),
    {
        self.cells.clear()
    }

    /// The number of living cells.
    pub fn population(&self) -> (out: usize)
        ensures
            out == self@.len(),
    {
        self.cells.len()
    }

    /// The living cells, each once, in no particular order.
    pub fn live_cells(&self) -> (out: Vec<Cell>)
        ensures
            out@.no_duplicates(),
            out@.to_set() == self@,
            out@.len() == self@.len(),
    {
        self.cells.to_vec()
    }

    /// Return the cells of the lattice that are adjacent to the given cell:
    /// all eight of them, unless the cell lies on the rim of the lattice.
    pub fn adjacent_cells(&self, cell: &Cell) -> (out: CellSet)
        ensures
            out@ == neighbors(*cell),
            cell.is_interior() ==> out@.len() == 8,
    {
        let x = cell.0;
        let y = cell.1;
        let mut cells = CellSet::new();
        let mut dx: i8 = -1;
        while dx <= 1
            invariant
                -1 <= dx <= 2,
                x == cell.0,
                y == cell.1,
                forall|n: Cell| #[trigger]
                    cells@.contains(n) <==> adjacent(*cell, n) && n.0 - x < dx,
            decreases 2 - dx,
        {
            let mut dy: i8 = -1;
            while dy <= 1
                invariant
                    -1 <= dx <= 1,
                    -1 <= dy <= 2,
                    x == cell.0,
                    y == cell.1,
                    forall|n: Cell| #[trigger]
                        cells@.contains(n) <==> adjacent(*cell, n) && (n.0 - x < dx || (n.0 - x
                            == dx && n.1 - y < dy)),
                decreases 2 - dy,
            {
                let nx: i128 = x as i128 + dx as i128;
                let ny: i128 = y as i128 + dy as i128;
                let ghost before = cells@;
                if !(dx == 0 && dy == 0) && i64::MIN as i128 <= nx && nx <= i64::MAX as i128
                    && i64::MIN as i128 <= ny && ny <= i64::MAX as i128 {
                    cells.insert(Cell(nx as i64, ny as i64));
                }
                assert forall|n: Cell| #[trigger]
                    cells@.contains(n) <==> adjacent(*cell, n) && (n.0 - x < dx || (n.0 - x == dx
                        && n.1 - y < dy + 1)) by {
                    if n.0 - x == dx && n.1 - y == dy {
                        assert(n == Cell(nx as i64, ny as i64));
                    }
                    assert(before.contains(n) <==> adjacent(*cell, n) && (n.0 - x < dx || (n.0 - x
                        == dx && n.1 - y < dy)));
                }
                dy += 1;
            }
            dx += 1;
        }
        proof {
            assert(cells@ =~= neighbors(*cell));
            lemma_moore_neighborhood(*cell);
        }
        cells
    }

    /// Return the number of living cells that are adjacent to the given cell.
    pub fn live_neighbors(&self, cell: &Cell) -> (out: usize)
        ensures
            out == live_neighbor_count(self@, *cell),
            out == count_by_direction(self@, *cell),
            out <= 8,
    {
        proof {
            lemma_count_by_direction(self@, *cell);
        }
        let around = self.adjacent_cells(cell).to_vec();
        let mut count: usize = 0;
        let mut i: usize = 0;
        proof {
            lemma_moore_neighborhood(*cell);
            crate::rules::lemma_neighbors_finite(*cell);
            assert(around@.take(0).to_set() =~= Set::<Cell>::empty());
            assert(Set::<Cell>::empty().intersect(self@) =~= Set::<Cell>::empty());
        }
        while i < around.len()
            invariant
                i <= around@.len() <= 8,
                around@.no_duplicates(),
                count == around@.take(i as int).to_set().intersect(self@).len(),
                count <= i,
            decreases around@.len() - i,
        {
            proof {
                lemma_prefix_one_more(around@, i as int);
                lemma_count_one_more(around@.take(i as int).to_set(), around@[i as int], self@);
            }
            if self.is_alive(&around[i]) {
                count += 1;
            }
            i += 1;
        }
        proof {
            assert(around@.take(i as int) =~= around@);
        }
        count
    }

    /// Return the set of all cells that have to be evaluated for survival:
    /// every living cell and every neighbour of one.
    pub fn active_cells(&self) -> (out: CellSet)
        ensures
            out@ == active(self@),
    {
        let live = self.cells.to_vec();
        let mut cells = CellSet::new();
        let mut i: usize = 0;
        proof {
            assert(live@.take(0).to_set() =~= Set::<Cell>::empty());
            lemma_active_of_empty();
        }
        while i < live.len()
            invariant
                i <= live@.len(),
                cells@ == active(live@.take(i as int).to_set()),
            decreases live@.len() - i,
        {
            let cell = live[i];
            let around = self.adjacent_cells(&cell).to_vec();
            let ghost before = cells@;
            let mut k: usize = 0;
            proof {
                assert(around@.take(0).to_set() =~= Set::<Cell>::empty());
                assert(before.union(Set::<Cell>::empty()) =~= before);
            }
            while k < around.len()
                invariant
                    k <= around@.len(),
                    cells@ == before.union(around@.take(k as int).to_set()),
                decreases around@.len() - k,
            {
                cells.insert(around[k]);
                proof {
                    lemma_prefix_one_more(around@, k as int);
                    assert(before.union(around@.take(k as int).to_set()).insert(around@[k as int])
                        =~= before.union(around@.take(k + 1).to_set()));
                }
                k += 1;
            }
            cells.insert(cell);
            proof {
                assert(around@.take(k as int) =~= around@);
                lemma_prefix_one_more(live@, i as int);
                lemma_active_one_more(live@.take(i as int).to_set(), cell);
            }
            i += 1;
        }
        proof {
            assert(live@.take(i as int) =~= live@);
        }
        cells
    }

    /// Return the lowest and the highest coordinates of the living cells, as
    /// the two corners of their bounding box; both are the origin when the
    /// grid is empty.
    pub fn calculate_bounds(&self) -> (out: (Cell, Cell))
        ensures
            out == bounding_box(self@),
            out.0.0 <= out.1.0,
            out.0.1 <= out.1.1,
            !self@.is_empty() ==> is_bounding_box(self@, out.0, out.1),
    {
        let live = self.cells.to_vec();
        if live.len() == 0 {
            proof {
                assert(self@ =~= Set::<Cell>::empty());
            }
            return (Cell(0, 0), Cell(0, 0));
        }
        let (near, far) = extremes(&live);
        proof {
            lemma_bounding_box_unique(self@, near, far);
        }
        (near, far)
    }

    /// Return the width and the height of the grid: how many columns and
    /// rows its bounding box spans.
    pub fn natural_size(&self) -> (out: (u64, u64))
        requires
            spans_fit(self@),
        ensures
            (out.0 as int, out.1 as int) == natural_size(self@),
            out.0 >= 1,
            out.1 >= 1,
    {
        let (near, far) = self.calculate_bounds();
        proof {
            if !self@.is_empty() {
                lemma_spans_fit(self@, near, far);
            }
        }
        (span(near.0, far.0), span(near.1, far.1))
    }

    /// The corners of the window that the grid shows, as unbounded integers.
    pub open spec fn spec_viewport(&self) -> ((int, int), (int, int)) {
        window_corners(
            self.spec_opts().view,
            self.spec_window(),
            self@,
            self.spec_opts().min_width,
            self.spec_opts().min_height,
        )
    }

    /// The corners of the centered window of the grid, as unbounded integers.
    pub open spec fn spec_viewport_centered(&self) -> ((int, int), (int, int)) {
        centered_corners(
            bounding_box(self@).0,
            bounding_box(self@).1,
            self.spec_opts().min_width,
            self.spec_opts().min_height,
        )
    }

    /// Return the two corners of the window that the grid shows in its
    /// viewing mode. The mode `Follow` has no window.
    pub fn viewport(&self) -> (out: (Cell, Cell))
        requires
            self.spec_opts().view != crate::config::View::Follow,
            window_fits(self.spec_viewport()),
        ensures
            out == as_cells(self.spec_viewport()),
    {
        match self.opts.view {
            crate::config::View::Fixed => self.viewport_fixed(),
            _ => self.viewport_centered(),
        }
    }

    /// Return the corners of the fixed window: it starts at the origin of
    /// the window moved by the scroll and has the width and height of the window.
    pub fn viewport_fixed(&self) -> (out: (Cell, Cell))
        requires
            window_fits(self.spec_window().fixed_corners()),
        ensures
            out == as_cells(self.spec_window().fixed_corners()),
    {
        self.viewport.fixed()
    }

    /// Return the corners of the centered window: the bounding box of the
    /// living cells, widened evenly to the minimum width and height.
    pub fn viewport_centered(&self) -> (out: (Cell, Cell))
        requires
            window_fits(self.spec_viewport_centered()),
        ensures
            out == as_cells(self.spec_viewport_centered()),
            forall|c: Cell| #[trigger]
                self@.contains(c) ==> out.0.0 <= c.0 <= out.1.0 && out.0.1 <= c.1 <= out.1.1,
    {
        let (near, far) = self.calculate_bounds();
        Viewport::centered(near, far, self.opts.min_width, self.opts.min_height)
    }

    /// Draw the window that the grid shows: a line for each row, a glyph
    /// for each column.
    pub fn draw(&self) -> (out: String)
        requires
            self.spec_opts().view != crate::config::View::Follow,
            window_fits(self.spec_viewport()),
        ensures
            out@ == frame(
                self@,
                as_cells(self.spec_viewport()).0,
                as_cells(self.spec_viewport()).1,
                self.spec_opts().char_alive,
                self.spec_opts().char_dead,
            ),
    {
        let (near, far) = self.viewport();
        draw_frame(&self.cells, near, far, self.opts.char_alive, self.opts.char_dead)
    }

    /// Draw the window between two corners with the given glyphs.
    pub fn draw_window(&self, near: Cell, far: Cell, alive: char, dead: char) -> (out: String)
        ensures
            out@ == frame(self@, near, far, alive, dead),
    {
        draw_frame(&self.cells, near, far, alive, dead)
    }

    /// Move the fixed window by `dx` columns and `dy` rows.
    pub fn scroll(&mut self, dx: i64, dy: i64)
        requires
            Cell::representable(old(self).spec_window().scroll.sum(Cell(dx, dy))),
        ensures
            final(self).spec_window() == (Viewport {
                scroll: Cell(
                    (old(self).spec_window().scroll.0 + dx) as i64,
                    (old(self).spec_window().scroll.1 + dy) as i64,
                ),
                ..old(self).spec_window()
            }),
            final(self)@ == old(self)@,
            final(self).spec_opts() == old(self).spec_opts(),
    {
        self.viewport.scroll = self.viewport.scroll + Cell(dx, dy);
    }

    /// Whether the columns and the rows that the living cells span can be
    /// counted in 64 bits, as a new game and the natural size ask.
    pub fn spans_fit(&self) -> (out: bool)
        ensures
            out == spans_fit(self@),
    {
        let (near, far) = self.calculate_bounds();
        proof {
            if !self@.is_empty() {
                lemma_spans_fit(self@, near, far);
            } else {
                assert forall|a: Cell| !self@.contains(a) by {
                    assert(self@ =~= Set::<Cell>::empty());
                }
            }
        }
        (far.0 as i128 - near.0 as i128) < u64::MAX as i128 && (far.1 as i128 - near.1 as i128)
            < u64::MAX as i128
    }

    /// Whether the window of the grid can be drawn: its viewing mode has a
    /// window, and the window lies inside the lattice.
    pub fn can_draw(&self) -> (out: bool)
        ensures
            out == (self.spec_opts().view != crate::config::View::Follow && window_fits(
                self.spec_viewport(),
            )),
    {
        match self.opts.view {
            crate::config::View::Fixed => self.viewport.fixed_fits(),
            crate::config::View::Centered => {
                let (near, far) = self.calculate_bounds();
                Viewport::centered_fits(near, far, self.opts.min_width, self.opts.min_height)
            },
            crate::config::View::Follow => false,
        }
    }
}

impl std::str::FromStr for Grid {
    type Err = AppError;

    /// Reads a grid from a pattern, with the default configuration but for
    /// the pattern itself, as `Grid::from_str` does.
    fn from_str(s: &str) -> (out: Result<Grid, AppError>)
        ensures
            match read_pattern(s@, CHAR_ALIVE, CHAR_DEAD, false) {
                Ok(cells) => out matches Ok(grid) && {
                    &&& grid@ == cells
                    &&& grid.spec_window() == new_window(cells, 10, 10)
                    &&& grid.spec_opts().pattern@ == s@
                    &&& grid.spec_opts().char_alive == CHAR_ALIVE
                    &&& grid.spec_opts().char_dead == CHAR_DEAD
                    &&& grid.spec_opts().view == crate::config::View::Centered
                    &&& grid.spec_opts().width == 10
                    &&& grid.spec_opts().height == 10
                    &&& grid.spec_opts().min_width == at_least(10, natural_size(cells).0)
                    &&& grid.spec_opts().min_height == at_least(10, natural_size(cells).1)
                },
                Err(e) => out == Err::<Grid, AppError>(e),
            },
    {
        Grid::from_str(s)
    }
}

/// The larger of a minimum size and a natural size.
pub open spec fn at_least(least: u64, natural: int) -> u64 {
    if least < natural {
        natural as u64
    } else {
        least
    }
}

/// The window of a new grid or game around `cells`: it starts at the near
/// corner of the cells, is not scrolled, and has the given width and height
/// or, where one is zero, the natural one.
pub open spec fn new_window(cells: Set<Cell>, width: u64, height: u64) -> Viewport {
    Viewport {
        origin: bounding_box(cells).0,
        scroll: Cell(0, 0),
        width: if width == 0 { natural_size(cells).0 as u64 } else { width },
        height: if height == 0 { natural_size(cells).1 as u64 } else { height },
    }
}

/// The corners of the tightest box around the given cells.
fn extremes(cells: &Vec<Cell>) -> (out: (Cell, Cell))
    requires
        cells@.len() > 0,
    ensures
        is_bounding_box(cells@.to_set(), out.0, out.1),
{
    let mut x0: i64 = cells[0].0;
    let mut y0: i64 = cells[0].1;
    let mut x1: i64 = cells[0].0;
    let mut y1: i64 = cells[0].1;
    let ghost mut at_x0: int = 0;
    let ghost mut at_y0: int = 0;
    let ghost mut at_x1: int = 0;
    let ghost mut at_y1: int = 0;
    let mut i: usize = 1;
    while i < cells.len()
        invariant
            1 <= i <= cells@.len(),
            0 <= at_x0 < i && cells@[at_x0].0 == x0,
            0 <= at_y0 < i && cells@[at_y0].1 == y0,
            0 <= at_x1 < i && cells@[at_x1].0 == x1,
            0 <= at_y1 < i && cells@[at_y1].1 == y1,
            forall|j: int|
                0 <= j < i ==> x0 <= (#[trigger] cells@[j]).0 <= x1 && y0 <= cells@[j].1 <= y1,
        decreases cells@.len() - i,
    {
        let cell = cells[i];
        if cell.0 < x0 {
            x0 = cell.0;
            proof {
                at_x0 = i as int;
            }
        } else if cell.0 > x1 {
            x1 = cell.0;
            proof {
                at_x1 = i as int;
            }
        }
        if cell.1 < y0 {
            y0 = cell.1;
            proof {
                at_y0 = i as int;
            }
        } else if cell.1 > y1 {
            y1 = cell.1;
            proof {
                at_y1 = i as int;
            }
        }
        i += 1;
    }
    proof {
        let all = cells@.to_set();
        let near = Cell(x0, y0);
        let far = Cell(x1, y1);
        assert forall|c: Cell| #[trigger] all.contains(c) implies near.0 <= c.0 <= far.0 && near.1
            <= c.1 <= far.1 by {
            let j = choose|j: int| 0 <= j < cells@.len() && cells@[j] == c;
            assert(x0 <= cells@[j].0 <= x1);
        }
        assert(all.contains(cells@[at_x0]) && cells@[at_x0].0 == near.0);
        assert(all.contains(cells@[at_x1]) && cells@[at_x1].0 == far.0);
        assert(all.contains(cells@[at_y0]) && cells@[at_y0].1 == near.1);
        assert(all.contains(cells@[at_y1]) && cells@[at_y1].1 == far.1);
    }
    (Cell(x0, y0), Cell(x1, y1))
}

} // verus!
