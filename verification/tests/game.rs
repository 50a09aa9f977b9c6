use conway::{split_int, Cell, Game, GameConfig, Grid, GridConfig, View};

fn sorted(mut cells: Vec<Cell>) -> Vec<Cell> {
    cells.sort_by_key(|c| (c.0, c.1));
    cells
}

fn game_of(cells: Vec<Cell>) -> Game {
    Game::new(Grid::new(cells, Default::default()), Default::default())
}

#[test]
fn test_min_size() {
    let game = Game::new(
        Grid::new(vec![Cell(0, 0), Cell(5, 5)], Default::default()),
        GameConfig {
            min_width: 8,
            min_height: 8,
            ..Default::default()
        },
    );
    assert_eq!((game.opts().min_width, game.opts().min_height), (8, 8),);
}

#[test]
fn test_min_size_override() {
    let game = Game::new(
        Grid::new(vec![Cell(0, 0), Cell(5, 5)], Default::default()),
        GameConfig {
            min_width: 3,
            min_height: 3,
            ..Default::default()
        },
    );
    assert_eq!(
        (game.opts().min_width, game.opts().min_height),
        (6, 6),
        "natural size should override given min size if natural > given"
    );
}

#[test]
fn test_survives_blinker() {
    let game = Game::new(
        Grid::new(vec![Cell(1, 0), Cell(1, 1), Cell(1, 2)], Default::default()),
        Default::default(),
    );
    assert!(
        game.survives(&Cell(1, 1)),
        "a live cell with 2 live neighbors should survive"
    );
    assert!(
        game.survives(&Cell(0, 1)),
        "a dead cell with 3 live neighbors should survive"
    );
    assert!(
        game.survives(&Cell(2, 1)),
        "a dead cell with 3 live neighbors should survive"
    );
    assert!(
        !game.survives(&Cell(1, 0)),
        "a live cell with < 2 live neighbors should die"
    );
    assert!(
        !game.survives(&Cell(1, 2)),
        "a live cell with < 2 live neighbors should die"
    );
}

#[test]
fn game_test_viewport_centered_1() {
    assert_eq!(
        Game::new(
            Grid::new(
                vec![Cell(2, 1), Cell(-3, 0), Cell(-2, 1), Cell(-2, 0)],
                Default::default()
            ),
            GameConfig {
                min_width: 7,
                min_height: 7,
                ..Default::default()
            }
        )
        .viewport_centered(),
        (Cell(-3, -2), Cell(3, 4)),
        "should raise the bounds to match min_width and min_height, if smaller"
    );
}

#[test]
fn game_test_viewport_centered_2() {
    assert_eq!(
        Game::new(
            Grid::new(
                vec![Cell(53, 4), Cell(2, 1), Cell(-12, 33)],
                Default::default()
            ),
            GameConfig {
                min_width: 88,
                ..Default::default()
            }
        )
        .viewport_centered(),
        (Cell(-23, 1), Cell(64, 33)),
        "should not raise the bounds if they are larger than min_width and min_height"
    );
}

#[test]
fn game_test_viewport_centered_3() {
    assert_eq!(
        Game::new(
            Grid::new(
                vec![Cell(2, 3), Cell(3, 3), Cell(5, 4), Cell(4, 2)],
                Default::default()
            ),
            GameConfig {
                min_width: 10,
                ..Default::default()
            }
        )
        .viewport_centered(),
        (Cell(-1, -1), Cell(8, 8)),
    );
}

#[test]
fn game_test_split_int() {
    assert_eq!(split_int(30), (15, 15));
    assert_eq!(split_int(31), (15, 16));
    assert_eq!(split_int(32), (16, 16));
    assert_eq!(split_int(0), (0, 0));
    assert_eq!(split_int(1), (0, 1));
    assert_eq!(split_int(2), (1, 1));
}

#[test]
fn blinker_turns_and_turns_back() {
    let mut game = game_of(vec![Cell(1, 0), Cell(1, 1), Cell(1, 2)]);
    game.tick();
    assert_eq!(
        sorted(game.grid().live_cells()),
        sorted(vec![Cell(0, 1), Cell(1, 1), Cell(2, 1)])
    );
    game.tick();
    assert_eq!(
        sorted(game.grid().live_cells()),
        sorted(vec![Cell(1, 0), Cell(1, 1), Cell(1, 2)])
    );
}

#[test]
fn block_is_still() {
    let block = vec![Cell(0, 0), Cell(1, 0), Cell(0, 1), Cell(1, 1)];
    let mut game = game_of(block.clone());
    for _ in 0..5 {
        game.tick();
        assert_eq!(sorted(game.grid().live_cells()), sorted(block.clone()));
    }
}

#[test]
fn glider_moves_one_step_in_four_ticks() {
    let glider = vec![Cell(1, 0), Cell(2, 1), Cell(0, 2), Cell(1, 2), Cell(2, 2)];
    let mut game = game_of(glider.clone());
    for _ in 0..4 {
        game.tick();
    }
    let moved: Vec<Cell> = glider.iter().map(|c| *c + Cell(1, 1)).collect();
    assert_eq!(sorted(game.grid().live_cells()), sorted(moved));
}

#[test]
fn a_crowded_cell_dies_and_a_lonely_one_too() {
    let game = game_of(vec![
        Cell(0, 0),
        Cell(1, 0),
        Cell(2, 0),
        Cell(0, 1),
        Cell(1, 1),
        Cell(9, 9),
    ]);
    assert!(!game.survives(&Cell(1, 1)), "four neighbours are too many");
    assert!(game.survives(&Cell(0, 0)), "three neighbours");
    assert!(game.survives(&Cell(2, 0)), "two neighbours");
    assert!(!game.survives(&Cell(9, 9)), "no neighbour");
    assert!(!game.survives(&Cell(3, 0)), "a dead cell with one neighbour");
    assert!(game.survives(&Cell(2, 1)), "a dead cell with three neighbours");
    assert!(game.survives(&Cell(1, -1)), "a dead cell with three neighbours");
    assert!(!game.survives(&Cell(-1, 0)), "a dead cell with two neighbours");
    let corners = game_of(vec![Cell(0, 0), Cell(2, 0), Cell(0, 2), Cell(2, 2)]);
    assert!(!corners.survives(&Cell(1, 1)), "a dead cell with four neighbours");
}

#[test]
fn tick_over_active_cells_agrees_with_tick_over_a_large_box() {
    let start = vec![
        Cell(1, 0),
        Cell(2, 1),
        Cell(0, 2),
        Cell(1, 2),
        Cell(2, 2),
        Cell(7, 7),
        Cell(7, 8),
        Cell(8, 7),
    ];
    let mut game = game_of(start.clone());
    let before = game_of(start);
    let mut expected = vec![];
    for x in -5..15 {
        for y in -5..15 {
            if before.survives(&Cell(x, y)) {
                expected.push(Cell(x, y));
            }
        }
    }
    game.tick();
    assert_eq!(sorted(game.grid().live_cells()), sorted(expected));
}

#[test]
fn empty_game_is_over_at_once_and_stays_so() {
    let mut game = game_of(vec![]);
    assert!(game.grid().is_empty());
    assert!(game.is_over());
    game.tick();
    assert!(game.is_over());
    assert_eq!(game.grid().population(), 0);
}

#[test]
fn game_ends_when_the_last_cell_dies() {
    let mut game = game_of(vec![Cell(0, 0), Cell(1, 1)]);
    assert!(!game.is_over());
    game.tick();
    assert!(game.is_over());
}

#[test]
fn tick_keeps_configuration_and_window() {
    let mut game = Game::new(
        Grid::new(vec![Cell(1, 0), Cell(1, 1), Cell(1, 2)], Default::default()),
        GameConfig {
            view: View::Fixed,
            width: 5,
            height: 4,
            ..Default::default()
        },
    );
    let (opts, window) = (game.opts(), game.window());
    game.tick();
    assert_eq!(game.opts(), opts);
    assert_eq!(game.window(), window);
    assert_eq!(game.viewport(), (Cell(1, 0), Cell(6, 4)));
}

#[test]
fn tick_at_the_rim_of_the_lattice() {
    let mut game = game_of(vec![
        Cell(i64::MAX, 0),
        Cell(i64::MAX, 1),
        Cell(i64::MAX, 2),
    ]);
    game.tick();
    assert_eq!(
        sorted(game.grid().live_cells()),
        sorted(vec![Cell(i64::MAX - 1, 1), Cell(i64::MAX, 1)])
    );
}

#[test]
fn new_game_has_a_new_window() {
    let game = Game::new(
        Grid::new(vec![Cell(2, 1), Cell(-3, 0)], Default::default()),
        GameConfig {
            width: 0,
            height: 0,
            ..Default::default()
        },
    );
    let window = game.window();
    assert_eq!(window.origin, Cell(-3, 0));
    assert_eq!(window.scroll, Cell(0, 0));
    assert_eq!((window.width, window.height), (6, 2));
}

#[test]
fn game_scroll_moves_the_fixed_window_back() {
    let mut game = Game::new(
        Grid::new(vec![Cell(0, 0)], Default::default()),
        GameConfig {
            view: View::Fixed,
            width: 4,
            height: 3,
            ..Default::default()
        },
    );
    assert_eq!(game.viewport_fixed(), (Cell(0, 0), Cell(4, 3)));
    game.scroll(2, -1);
    assert_eq!(game.window().scroll, Cell(-2, 1));
    assert_eq!(game.viewport_fixed(), (Cell(-2, 1), Cell(2, 4)));
    assert_eq!(game.viewport(), (Cell(-2, 1), Cell(2, 4)));
}

#[test]
fn game_draw_uses_the_glyphs_of_the_game() {
    let game = Game::new(
        Grid::new(
            vec![Cell(1, 0), Cell(1, 1), Cell(1, 2)],
            GridConfig {
                char_alive: 'x',
                ..Default::default()
            },
        ),
        GameConfig {
            char_alive: 'o',
            char_dead: '.',
            min_width: 3,
            min_height: 0,
            ..Default::default()
        },
    );
    assert!(game.can_draw());
    assert_eq!(game.draw(), ".o.\n.o.\n.o.\n");
    assert_eq!(game.draw_viewport((Cell(0, 1), Cell(1, 1))), ".o\n");
}

#[test]
fn game_cannot_draw_in_follow_mode() {
    let game = Game::new(
        Grid::new(vec![Cell(0, 0)], Default::default()),
        GameConfig {
            view: View::Follow,
            ..Default::default()
        },
    );
    assert!(!game.can_draw());
}

#[test]
fn default_game_config() {
    let config = GameConfig::default();
    assert!(!config.raw_mode);
    assert_eq!(config.tick_delay_ms, 500);
    assert_eq!((config.char_alive, config.char_dead), ('#', '-'));
    assert_eq!((config.min_width, config.min_height), (10, 10));
}

#[test]
fn load_reads_the_grid_and_starts_the_game() {
    let config = conway::ConfigSet {
        grid: GridConfig {
            pattern: "# a blinker\n.o.\n.o.\n.o.\n".to_string(),
            char_alive: 'o',
            char_dead: '.',
            ..Default::default()
        },
        game: GameConfig {
            min_width: 2,
            min_height: 2,
            width: 0,
            height: 5,
            ..Default::default()
        },
    };
    let game = Game::load(config).unwrap();
    assert_eq!(
        sorted(game.grid().live_cells()),
        vec![Cell(1, 0), Cell(1, 1), Cell(1, 2)]
    );
    assert_eq!((game.opts().min_width, game.opts().min_height), (2, 3));
    assert_eq!(game.window().origin, Cell(1, 0));
    assert_eq!((game.window().width, game.window().height), (1, 5));
    assert_eq!(game.grid().opts().min_width, 10);
}

#[test]
fn load_fails_as_reading_the_grid_does() {
    let config = conway::ConfigSet {
        grid: GridConfig {
            pattern: "#-x".to_string(),
            ..Default::default()
        },
        game: GameConfig::default(),
    };
    assert_eq!(Game::load(config).err(), Some(conway::AppError::UnknownChar('x')));
}
