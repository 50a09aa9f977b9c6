use conway::{Cell, Game, Grid};

fn sorted(mut cells: Vec<Cell>) -> Vec<Cell> {
    cells.sort_by_key(|c| (c.0, c.1));
    cells
}

#[test]
fn every_inner_cell_has_eight_neighbours_at_distance_one() {
    let grid: Grid = Default::default();
    for cell in [
        Cell(0, 0),
        Cell(-1, 1),
        Cell(i64::MAX - 1, i64::MIN + 1),
        Cell(123456789, -987654321),
    ] {
        let around = grid.adjacent_cells(&cell).to_vec();
        assert_eq!(around.len(), 8);
        for n in around {
            assert_ne!(n, cell);
            let dx = (n.0 as i128 - cell.0 as i128).abs();
            let dy = (n.1 as i128 - cell.1 as i128).abs();
            assert_eq!(dx.max(dy), 1);
        }
    }
}

#[test]
fn a_cell_outside_the_active_set_is_dead_and_alone() {
    let grid = Grid::new(
        vec![Cell(0, 0), Cell(1, 0), Cell(2, 0), Cell(10, 10)],
        Default::default(),
    );
    let active = grid.active_cells();
    let game = Game::new(
        Grid::new(grid.live_cells(), Default::default()),
        Default::default(),
    );
    for x in -3..14 {
        for y in -3..14 {
            let cell = Cell(x, y);
            if !active.contains(&cell) {
                assert!(!grid.is_alive(&cell));
                assert_eq!(grid.live_neighbors(&cell), 0);
                assert!(!game.survives(&cell));
            }
        }
    }
}

#[test]
fn the_next_generation_lies_within_the_active_set() {
    let mut game = Game::new(
        Grid::new(
            vec![Cell(1, 0), Cell(2, 1), Cell(0, 2), Cell(1, 2), Cell(2, 2)],
            Default::default(),
        ),
        Default::default(),
    );
    for _ in 0..8 {
        let active = game.grid().active_cells();
        let expected: Vec<Cell> = active
            .to_vec()
            .into_iter()
            .filter(|c| game.survives(c))
            .collect();
        game.tick();
        assert_eq!(sorted(game.grid().live_cells()), sorted(expected));
    }
}
