//! The game: a grid that advances generation by generation.
//!
//! A game owns two grids of one configuration. One holds the current
//! generation. The other is a scratch grid that is empty between ticks: a
//! tick writes the next generation into it, clears the current grid and
//! then exchanges the two.

use crate::cell::Cell;
use crate::cell_set::lemma_prefix_one_more;
use crate::config::{ConfigSet, GameConfig};
use crate::error::AppError;
use crate::pattern::{has_comments, read_pattern};
use crate::frame::frame;
use crate::grid::{at_least, new_window, Grid};
use crate::rules::{
    active, alive_next, count_by_direction, lemma_active_suffices, lemma_count_by_direction,
    lemma_empty_stays_empty, next_generation, rule,
};
use crate::viewport::{
    as_cells, bounding_box, centered_corners, lemma_spans_fit, span, spans_fit, window_corners,
    window_fits, Viewport,
};
use vstd::prelude::*;

verus! {

/// Game holds the high-level gameplay logic.
#[derive(Debug)]
pub struct Game {
    grid: Grid,
    swap: Grid,
    opts: GameConfig,
    viewport: Viewport,
}

impl View for Game {
    type V = Set<Cell>;

    /// The cells that are alive in the current generation.
    closed spec fn view(&self) -> Set<Cell> {
        self.grid@
    }
}

/// Writes the generation that follows `grid` into the empty `swap`, clears
/// `grid` and exchanges the two grids, which are configured alike.
fn advance(grid: &mut Grid, swap: &mut Grid)
    requires
        old(swap)@ == Set::<Cell>::empty(),
        old(swap).spec_opts() == old(grid).spec_opts(),
        old(swap).spec_window() == old(grid).spec_window(),
    ensures
        final(grid)@ == next_generation(old(grid)@),
        final(swap)@ == Set::<Cell>::empty(),
        final(grid).spec_opts() == old(grid).spec_opts(),
        final(grid).spec_window() == old(grid).spec_window(),
        final(swap).spec_opts() == old(swap).spec_opts(),
        final(swap).spec_window() == old(swap).spec_window(),
{
    let candidates = grid.active_cells().to_vec();
    let ghost live = grid@;
    let mut i: usize = 0;
    proof {
        assert(candidates@.take(0).to_set() =~= Set::<Cell>::empty());
        assert(swap@ =~= candidates@.take(0).to_set().filter(|c: Cell| alive_next(live, c)));
    }
    while i < candidates.len()
        invariant
            i <= candidates@.len(),
            grid@ == live,
            candidates@.to_set() == active(live),
            swap@ == candidates@.take(i as int).to_set().filter(|c: Cell| alive_next(live, c)),
            grid.spec_opts() == old(grid).spec_opts(),
            grid.spec_window() == old(grid).spec_window(),
            swap.spec_opts() == old(swap).spec_opts(),
            swap.spec_window() == old(swap).spec_window(),
        decreases candidates@.len() - i,
    {
        let cell = candidates[i];
        let ghost seen = candidates@.take(i as int).to_set();
        proof {
            lemma_prefix_one_more(candidates@, i as int);
        }
        if lives_on(grid, &cell) {
            swap.set_alive(cell);
            proof {
                assert(seen.insert(cell).filter(|c: Cell| alive_next(live, c)) =~= seen.filter(
                    |c: Cell| alive_next(live, c),
                ).insert(cell));
            }
        } else {
            proof {
                assert(seen.insert(cell).filter(|c: Cell| alive_next(live, c)) =~= seen.filter(
                    |c: Cell| alive_next(live, c),
                ));
            }
        }
        i += 1;
    }
    proof {
        assert(candidates@.take(i as int) =~= candidates@);
        lemma_active_suffices(live);
    }
    grid.clear();
    std::mem::swap(grid, swap);
}

/// Whether `cell` is alive in the generation that follows `grid`.
fn lives_on(grid: &Grid, cell: &Cell) -> (out: bool)
    ensures
        out == alive_next(grid@, *cell),
        out == rule(grid@.contains(*cell), count_by_direction(grid@, *cell)),
{
    let live_neighbors = grid.live_neighbors(cell);
    if grid.is_alive(cell) {
        live_neighbors == 2 || live_neighbors == 3
    } else {
        live_neighbors == 3
    }
}

impl Game {
    /// The configuration of the game.
    pub closed spec fn spec_opts(&self) -> GameConfig {
        self.opts
    }

    /// The window of the game.
    pub closed spec fn spec_window(&self) -> Viewport {
        self.viewport
    }

    /// The grid of the current generation.
    pub closed spec fn spec_grid(&self) -> Grid {
        self.grid
    }

    /// The scratch grid.
    pub closed spec fn scratch(&self) -> Grid {
        self.swap
    }

    /// What holds of a game between any two ticks: the scratch grid is
    /// empty, and it is configured as the grid of the current generation is.
    pub open spec fn wf(&self) -> bool {
        &&& self.scratch()@ == Set::<Cell>::empty()
        &&& self.scratch().spec_opts() == self.spec_grid().spec_opts()
        &&& self.scratch().spec_window() == self.spec_grid().spec_window()
    }

    /// The configuration of the game.
    #[verifier::when_used_as_spec(spec_opts)]
    pub fn opts(&self) -> (out: GameConfig)
        ensures
            out == self.spec_opts(),
    {
        self.opts
    }

    /// The window of the game.
    #[verifier::when_used_as_spec(spec_window)]
    pub fn window(&self) -> (out: Viewport)
        ensures
            out == self.spec_window(),
    {
        self.viewport
    }

    /// The grid of the current generation.
    pub fn grid(&self) -> (out: &Grid)
        ensures
            *out == self.spec_grid(),
            out@ == self@,
    {
        &self.grid
    }

    /// Load the game that a configuration describes: the grid is read from
    /// the pattern of its configuration, and the game starts from it.
    pub fn load(config: ConfigSet) -> (out: Result<Game, AppError>)
        ensures
            match read_pattern(
                config.grid.pattern@,
                config.grid.char_alive,
                config.grid.char_dead,
                has_comments(config.grid.char_alive, config.grid.char_dead),
            ) {
                Ok(cells) => out matches Ok(game) && {
                    &&& game.wf()
                    &&& game@ == cells
                    &&& game.spec_grid().is_new(cells, config.grid)
                    &&& game.spec_window() == new_window(
                        cells,
                        config.game.width,
                        config.game.height,
                    )
                    &&& game.spec_opts() == (GameConfig {
                        min_width: at_least(
                            config.game.min_width,
                            crate::viewport::natural_size(cells).0,
                        ),
                        min_height: at_least(
                            config.game.min_height,
                            crate::viewport::natural_size(cells).1,
                        ),
                        ..config.game
                    })
                },
                Err(e) => out == Err::<Game, AppError>(e),
            },
    {
        match Grid::from_config(config.grid) {
            Ok(grid) => Ok(Game::new(grid, config.game)),
            Err(e) => Err(e),
        }
    }

    /// A game that starts from `grid`. Its window is new, and the minimum
    /// size of `opts` is raised to the natural size of the grid where it
    /// was smaller.
    pub fn new(grid: Grid, opts: GameConfig) -> (game: Game)
        requires
            spans_fit(grid@),
        ensures
            game.wf(),
            game.spec_grid() == grid,
            game@ == grid@,
            game.spec_window() == new_window(grid@, opts.width, opts.height),
            game.spec_opts() == (GameConfig {
                min_width: at_least(opts.min_width, crate::viewport::natural_size(grid@).0),
                min_height: at_least(opts.min_height, crate::viewport::natural_size(grid@).1),
                ..opts
            }),
    {
        let mut swap = grid.clone();
        swap.clear();
        let (origin, far) = grid.calculate_bounds();
        proof {
            if !grid@.is_empty() {
                lemma_spans_fit(grid@, origin, far);
            }
        }
        let (width, height) = (span(origin.0, far.0), span(origin.1, far.1));
        let mut opts = opts;
        if opts.min_width < width {
            opts.min_width = width;
        }
        if opts.min_height < height {
            opts.min_height = height;
        }
        let viewport = Viewport {
            origin,
            width: if opts.width == 0 { width } else { opts.width },
            height: if opts.height == 0 { height } else { opts.height },
            scroll: Cell(0, 0),
        };
        Game { grid, swap, opts, viewport }
    }

    /// Return whether the game is over. This happens when the grid is empty.
    pub fn is_over(&self) -> (out: bool)
        ensures
            out == self@.is_empty(),
    {
        self.grid.is_empty()
    }

    /// Return whether the given cell survives an application of the rules:
    /// whether it is alive in the next generation.
    pub fn survives(&self, cell: &Cell) -> (out: bool)
        ensures
            out == alive_next(self@, *cell),
            out == rule(self@.contains(*cell), count_by_direction(self@, *cell)),
    {
        lives_on(&self.grid, cell)
    }

    /// Execute the next turn of the game: the rules are applied to every
    /// cell at once, and the generation that results replaces the current
    /// one. A game that is over stays over.
    pub fn tick(&mut self)
        requires
            old(self).wf(),
        ensures
            final(self).wf(),
            final(self)@ == next_generation(old(self)@),
            forall|c: Cell| #[trigger]
                final(self)@.contains(c) <==> rule(
                    old(self)@.contains(c),
                    count_by_direction(old(self)@, c),
                ),
            old(self)@ == Set::<Cell>::empty() ==> final(self)@ == Set::<Cell>::empty(),
            final(self).spec_grid().spec_opts() == old(self).spec_grid().spec_opts(),
            final(self).spec_grid().spec_window() == old(self).spec_grid().spec_window(),
            final(self).spec_opts() == old(self).spec_opts(),
            final(self).spec_window() == old(self).spec_window(),
    {
        proof {
            lemma_empty_stays_empty();
            assert forall|c: Cell| #[trigger]
                next_generation(self@).contains(c) <==> rule(
                    self@.contains(c),
                    count_by_direction(self@, c),
                ) by {
                lemma_count_by_direction(self@, c);
            }
        }
        advance(&mut self.grid, &mut self.swap);
    }

    /// The corners of the window that the game shows, as unbounded integers.
    pub open spec fn spec_viewport(&self) -> ((int, int), (int, int)) {
        window_corners(
            self.spec_opts().view,
            self.spec_window(),
            self@,
            self.spec_opts().min_width,
            self.spec_opts().min_height,
        )
    }

    /// The corners of the centered window of the game, as unbounded integers.
    pub open spec fn spec_viewport_centered(&self) -> ((int, int), (int, int)) {
        centered_corners(
            bounding_box(self@).0,
            bounding_box(self@).1,
            self.spec_opts().min_width,
            self.spec_opts().min_height,
        )
    }

    /// Return the two corners of the window that the game shows in its
    /// viewing mode. The mode `Follow` has no window.
    pub fn viewport(&self) -> (out: (Cell, Cell))
        requires
            self.spec_opts().view != crate::config::View::Follow,
            window_fits(self.spec_viewport()),
        ensures
            out == as_cells(self.spec_viewport()),
    {
        match self.opts.view {
            crate::config::View::Fixed => self.viewport_fixed(),
            _ => self.viewport_centered(),
        }
    }

    /// Return the corners of the fixed window: it starts at the origin of
    /// the window moved by the scroll and has the width and height of the window.
    pub fn viewport_fixed(&self) -> (out: (Cell, Cell))
        requires
            window_fits(self.spec_window().fixed_corners()),
        ensures
            out == as_cells(self.spec_window().fixed_corners()),
    {
        self.viewport.fixed()
    }

    /// Return the corners of the centered window: the bounding box of the
    /// living cells, widened evenly to the minimum width and height.
    pub fn viewport_centered(&self) -> (out: (Cell, Cell))
        requires
            window_fits(self.spec_viewport_centered()),
        ensures
            out == as_cells(self.spec_viewport_centered()),
            forall|c: Cell| #[trigger]
                self@.contains(c) ==> out.0.0 <= c.0 <= out.1.0 && out.0.1 <= c.1 <= out.1.1,
    {
        let (near, far) = self.grid.calculate_bounds();
        Viewport::centered(near, far, self.opts.min_width, self.opts.min_height)
    }

    /// Whether the window of the game can be drawn: its viewing mode has a
    /// window, and the window lies inside the lattice.
    pub fn can_draw(&self) -> (out: bool)
        ensures
            out == (self.spec_opts().view != crate::config::View::Follow && window_fits(
                self.spec_viewport(),
            )),
    {
        match self.opts.view {
            crate::config::View::Fixed => self.viewport.fixed_fits(),
            crate::config::View::Centered => {
                let (near, far) = self.grid.calculate_bounds();
                Viewport::centered_fits(near, far, self.opts.min_width, self.opts.min_height)
            },
            crate::config::View::Follow => false,
        }
    }

    /// Move the fixed window back by `dx` columns and `dy` rows.
    pub fn scroll(&mut self, dx: i64, dy: i64)
        requires
            Cell::representable(old(self).spec_window().scroll.difference(Cell(dx, dy))),
        ensures
            final(self).spec_window() == (Viewport {
                scroll: Cell(
                    (old(self).spec_window().scroll.0 - dx) as i64,
                    (old(self).spec_window().scroll.1 - dy) as i64,
                ),
                ..old(self).spec_window()
            }),
            final(self).spec_grid() == old(self).spec_grid(),
            final(self).scratch() == old(self).scratch(),
            final(self).spec_opts() == old(self).spec_opts(),
    {
        self.viewport.scroll = self.viewport.scroll - Cell(dx, dy);
    }

    /// Draw the window that the game shows.
    pub fn draw(&self) -> (out: String)
        requires
            self.spec_opts().view != crate::config::View::Follow,
            window_fits(self.spec_viewport()),
        ensures
            out@ == frame(
                self@,
                as_cells(self.spec_viewport()).0,
                as_cells(self.spec_viewport()).1,
                self.spec_opts().char_alive,
                self.spec_opts().char_dead,
            ),
    {
        self.draw_viewport(self.viewport())
    }

    /// Draw the window between two corners: a line for each row, a glyph
    /// for each column.
    pub fn draw_viewport(&self, corners: (Cell, Cell)) -> (out: String)
        ensures
            out@ == frame(
                self@,
                corners.0,
                corners.1,
                self.spec_opts().char_alive,
                self.spec_opts().char_dead,
            ),
    {
        self.grid.draw_window(corners.0, corners.1, self.opts.char_alive, self.opts.char_dead)
    }
}

} // verus!
