use conway::config::{CHAR_ALIVE, CHAR_DEAD};
use conway::{split_int, AppError, Cell, Grid, GridConfig, View};

fn sorted(mut cells: Vec<Cell>) -> Vec<Cell> {
    cells.sort_by_key(|c| (c.0, c.1));
    cells
}

#[test]
fn test_grid_min_size() {
    let grid = Grid::new(
        vec![Cell(0, 0), Cell(5, 5)],
        GridConfig {
            min_width: 8,
            min_height: 8,
            ..Default::default()
        },
    );
    assert_eq!((grid.opts().min_width, grid.opts().min_height), (8, 8),);
}

#[test]
fn test_grid_min_size_override() {
    let grid = Grid::new(
        vec![Cell(0, 0), Cell(5, 5)],
        GridConfig {
            min_width: 3,
            min_height: 3,
            ..Default::default()
        },
    );
    assert_eq!(
        (grid.opts().min_width, grid.opts().min_height),
        (6, 6),
        "natural size should override given min size if natural > given"
    );
}

#[test]
fn test_from_config() {
    let (char_alive, char_dead) = ('!', '_');
    let pattern = vec![
        format!("{}{}", char_alive, char_alive),
        format!("{}{}{}", char_dead, char_dead, char_alive),
        format!("{}{}{}", char_dead, char_alive, char_dead),
    ]
    .join("\n");
    let config = GridConfig {
        pattern,
        char_alive,
        char_dead,
        view: View::Centered,
        min_width: 5,
        min_height: 5,
        width: 8,
        height: 8,
    };
    let grid = Grid::from_config(config.clone()).unwrap();

    assert_eq!(
        grid,
        Grid::new(vec![Cell(0, 0), Cell(1, 0), Cell(2, 1), Cell(1, 2)], config),
    );
}

#[test]
fn grid_test_from_str() {
    let grid: Grid = vec![
        format!("{}{}", CHAR_ALIVE, CHAR_ALIVE),
        format!("{}{}{}", CHAR_DEAD, CHAR_DEAD, CHAR_ALIVE),
        format!("{}{}{}", CHAR_DEAD, CHAR_ALIVE, CHAR_DEAD),
    ]
    .join("\n")
    .parse()
    .unwrap();

    assert_eq!(
        sorted(grid.live_cells()),
        sorted(vec![Cell(0, 0), Cell(1, 0), Cell(2, 1), Cell(1, 2)]),
    );
    assert!(Grid::from_str("abc\ndef").is_err())
}

#[test]
fn test_active_cells() {
    let grid = Grid::new(vec![Cell(0, 0), Cell(1, 1)], Default::default());
    assert_eq!(
        sorted(grid.active_cells().to_vec()),
        sorted(vec![
            Cell(0, 0),
            Cell(-1, -1),
            Cell(0, -1),
            Cell(1, -1),
            Cell(1, 0),
            Cell(1, 1),
            Cell(0, 1),
            Cell(-1, 1),
            Cell(-1, 0),
            Cell(2, 0),
            Cell(2, 1),
            Cell(2, 2),
            Cell(1, 2),
            Cell(0, 2),
        ])
    )
}

#[test]
fn test_live_neighbors() {
    let grid = Grid::new(
        vec![Cell(-1, -1), Cell(-1, -2), Cell(0, 0), Cell(1, 0)],
        Default::default(),
    );
    assert_eq!(
        grid.live_neighbors(&Cell(0, 0)),
        2,
        "it should work for a live cell"
    );
    assert_eq!(
        grid.live_neighbors(&Cell(-1, -3)),
        1,
        "it should work for a dead cell"
    )
}

#[test]
fn test_is_empty() {
    let grid: Grid = Default::default();
    assert!(grid.is_empty());
    let grid = Grid::new(vec![Cell(0, 0)], Default::default());
    assert!(!grid.is_empty());
}

#[test]
fn test_is_alive() {
    let grid = Grid::new(vec![Cell(-1, 4), Cell(8, 8)], Default::default());
    assert!(&grid.is_alive(&Cell(-1, 4)));
    assert!(&grid.is_alive(&Cell(8, 8)));
    assert!(!&grid.is_alive(&Cell(8, 4)));
}

#[test]
fn test_set_alive_or_dead() {
    let mut grid: Grid = Default::default();
    let cell = Cell(3, -3);
    assert!(!&grid.is_alive(&cell));
    grid.set_alive(cell);
    assert!(&grid.is_alive(&cell));
    grid.set_dead(&cell);
    assert!(!&grid.is_alive(&cell));
}

#[test]
fn grid_test_viewport_centered_1() {
    assert_eq!(
        Grid::new(
            vec![Cell(2, 1), Cell(-3, 0), Cell(-2, 1), Cell(-2, 0)],
            GridConfig {
                min_width: 7,
                min_height: 7,
                ..Default::default()
            }
        )
        .viewport_centered(),
        (Cell(-3, -2), Cell(3, 4)),
        "should raise the bounds to match min_width and min_height, if smaller"
    );
}

#[test]
fn grid_test_viewport_centered_2() {
    assert_eq!(
        Grid::new(
            vec![Cell(53, 4), Cell(2, 1), Cell(-12, 33)],
            GridConfig {
                min_width: 88,
                ..Default::default()
            }
        )
        .viewport_centered(),
        (Cell(-23, 1), Cell(64, 33)),
        "should not raise the bounds if they are larger than min_width and min_height"
    );
}

#[test]
fn grid_test_viewport_centered_3() {
    assert_eq!(
        Grid::new(
            vec![Cell(2, 3), Cell(3, 3), Cell(5, 4), Cell(4, 2)],
            GridConfig {
                min_width: 10,
                ..Default::default()
            }
        )
        .viewport_centered(),
        (Cell(-1, -1), Cell(8, 8)),
    );
}

#[test]
fn test_calculate_bounds_1() {
    assert_eq!(
        Grid::new(
            vec![Cell(2, 1), Cell(-3, 0), Cell(-2, 1), Cell(-2, 0)],
            Default::default()
        )
        .calculate_bounds(),
        (Cell(-3, 0), Cell(2, 1))
    );
}

#[test]
fn test_calculate_bounds_2() {
    assert_eq!(
        Grid::new(
            vec![Cell(53, 4), Cell(2, 1), Cell(-12, 33)],
            Default::default()
        )
        .calculate_bounds(),
        (Cell(-12, 1), Cell(53, 33))
    );
}

#[test]
fn grid_test_split_int() {
    assert_eq!(split_int(30), (15, 15));
    assert_eq!(split_int(31), (15, 16));
    assert_eq!(split_int(32), (16, 16));
    assert_eq!(split_int(0), (0, 0));
    assert_eq!(split_int(1), (0, 1));
    assert_eq!(split_int(2), (1, 1));
}

#[test]
fn split_int_halves_the_largest_number() {
    assert_eq!(split_int(u64::MAX), (u64::MAX / 2, u64::MAX / 2 + 1));
    assert_eq!(split_int(u64::MAX - 1), (u64::MAX / 2, u64::MAX / 2));
}

#[test]
fn calculate_bounds_of_empty_grid_is_the_origin() {
    let grid: Grid = Default::default();
    assert_eq!(grid.calculate_bounds(), (Cell(0, 0), Cell(0, 0)));
}

#[test]
fn calculate_bounds_of_one_cell() {
    let grid = Grid::new(vec![Cell(7, -9)], Default::default());
    assert_eq!(grid.calculate_bounds(), (Cell(7, -9), Cell(7, -9)));
    assert_eq!(grid.natural_size(), (1, 1));
}

#[test]
fn natural_size_counts_both_ends() {
    let grid = Grid::new(
        vec![Cell(2, 1), Cell(-3, 0), Cell(-2, 1), Cell(-2, 0)],
        Default::default(),
    );
    assert_eq!(grid.natural_size(), (6, 2));
    let wide = Grid::new(vec![Cell(i64::MIN, 0), Cell(i64::MAX - 1, 0)], Default::default());
    assert_eq!(wide.natural_size(), (u64::MAX, 1));
}

#[test]
fn new_grid_ignores_repeated_cells() {
    let grid = Grid::new(vec![Cell(1, 1), Cell(1, 1), Cell(2, 2)], Default::default());
    assert_eq!(grid.population(), 2);
    assert_eq!(sorted(grid.live_cells()), vec![Cell(1, 1), Cell(2, 2)]);
}

#[test]
fn new_grid_has_a_new_window() {
    let grid = Grid::new(
        vec![Cell(2, 1), Cell(-3, 0)],
        GridConfig {
            width: 0,
            height: 4,
            ..Default::default()
        },
    );
    let window = grid.window();
    assert_eq!(window.origin, Cell(-3, 0));
    assert_eq!(window.scroll, Cell(0, 0));
    assert_eq!((window.width, window.height), (6, 4));
}

#[test]
fn set_alive_and_set_dead_report_the_change() {
    let mut grid: Grid = Default::default();
    assert!(grid.set_alive(Cell(1, 2)));
    assert!(!grid.set_alive(Cell(1, 2)));
    assert_eq!(grid.population(), 1);
    assert!(grid.set_dead(&Cell(1, 2)));
    assert!(!grid.set_dead(&Cell(1, 2)));
    assert!(grid.is_empty());
}

#[test]
fn set_dead_after_set_alive_leaves_a_fresh_cell_dead() {
    let mut grid = Grid::new(vec![Cell(0, 0), Cell(5, 5)], Default::default());
    let before = sorted(grid.live_cells());
    let cell = Cell(i64::MIN, i64::MAX);
    grid.set_alive(cell);
    grid.set_dead(&cell);
    assert!(!grid.is_alive(&cell));
    assert_eq!(sorted(grid.live_cells()), before);
}

#[test]
fn clear_kills_every_cell() {
    let mut grid = Grid::new(vec![Cell(0, 0), Cell(5, 5)], Default::default());
    grid.clear();
    assert!(grid.is_empty());
    assert_eq!(grid.population(), 0);
    assert_eq!(grid.opts().min_width, 10);
}

#[test]
fn adjacent_cells_are_the_eight_around() {
    let grid: Grid = Default::default();
    let around = grid.adjacent_cells(&Cell(4, -7));
    assert_eq!(around.len(), 8);
    assert!(!around.contains(&Cell(4, -7)));
    assert_eq!(
        sorted(around.to_vec()),
        sorted(vec![
            Cell(3, -8),
            Cell(3, -7),
            Cell(3, -6),
            Cell(4, -8),
            Cell(4, -6),
            Cell(5, -8),
            Cell(5, -7),
            Cell(5, -6),
        ])
    );
    for n in around.to_vec() {
        let distance = (n.0 - 4).abs().max((n.1 + 7).abs());
        assert_eq!(distance, 1);
    }
}

#[test]
fn adjacent_cells_do_not_depend_on_the_grid() {
    let empty: Grid = Default::default();
    let full = Grid::new(vec![Cell(0, 0), Cell(1, 1), Cell(0, 1)], Default::default());
    assert_eq!(
        sorted(empty.adjacent_cells(&Cell(0, 0)).to_vec()),
        sorted(full.adjacent_cells(&Cell(0, 0)).to_vec())
    );
}

#[test]
fn adjacent_cells_on_the_rim_stay_inside_the_lattice() {
    let grid: Grid = Default::default();
    let corner = grid.adjacent_cells(&Cell(i64::MAX, i64::MIN));
    assert_eq!(
        sorted(corner.to_vec()),
        sorted(vec![
            Cell(i64::MAX - 1, i64::MIN),
            Cell(i64::MAX - 1, i64::MIN + 1),
            Cell(i64::MAX, i64::MIN + 1),
        ])
    );
    let edge = grid.adjacent_cells(&Cell(0, i64::MAX));
    assert_eq!(edge.len(), 5);
}

#[test]
fn live_neighbors_counts_the_living_among_the_adjacent() {
    let grid = Grid::new(
        vec![Cell(0, 0), Cell(1, 0), Cell(2, 0), Cell(0, 1), Cell(2, 1), Cell(0, 2), Cell(1, 2), Cell(2, 2), Cell(1, 1), Cell(9, 9)],
        Default::default(),
    );
    for cell in [Cell(1, 1), Cell(0, 0), Cell(3, 1), Cell(9, 9), Cell(5, 5)] {
        let expected = grid
            .adjacent_cells(&cell)
            .to_vec()
            .iter()
            .filter(|c| grid.is_alive(c))
            .count();
        assert_eq!(grid.live_neighbors(&cell), expected);
    }
    assert_eq!(grid.live_neighbors(&Cell(1, 1)), 8);
    assert_eq!(grid.live_neighbors(&Cell(9, 9)), 0);
}

#[test]
fn active_cells_of_empty_grid_are_none() {
    let grid: Grid = Default::default();
    assert!(grid.active_cells().is_empty());
}

#[test]
fn active_cells_are_the_live_cells_and_their_neighbours() {
    let grid = Grid::new(vec![Cell(0, 0), Cell(10, 10), Cell(11, 10)], Default::default());
    let active = grid.active_cells();
    let mut expected = Grid::new(vec![], Default::default());
    for cell in grid.live_cells() {
        expected.set_alive(cell);
        for n in grid.adjacent_cells(&cell).to_vec() {
            expected.set_alive(n);
        }
    }
    assert_eq!(sorted(active.to_vec()), sorted(expected.live_cells()));
    assert_eq!(active.len(), 9 + 12);
    assert!(!active.contains(&Cell(5, 5)));
    assert_eq!(grid.live_neighbors(&Cell(5, 5)), 0);
}

#[test]
fn viewport_fixed_starts_at_the_origin_plus_scroll() {
    let mut grid = Grid::new(
        vec![Cell(2, 1), Cell(-3, 0)],
        GridConfig {
            view: View::Fixed,
            width: 20,
            height: 10,
            ..Default::default()
        },
    );
    assert_eq!(grid.viewport_fixed(), (Cell(-3, 0), Cell(17, 10)));
    assert_eq!(grid.viewport(), (Cell(-3, 0), Cell(17, 10)));
    grid.scroll(4, -2);
    grid.scroll(1, 1);
    assert_eq!(grid.window().scroll, Cell(5, -1));
    assert_eq!(grid.viewport_fixed(), (Cell(2, -1), Cell(22, 9)));
    assert_eq!(grid.viewport(), (Cell(2, -1), Cell(22, 9)));
    assert!(grid.can_draw());
}

#[test]
fn viewport_fixed_does_not_follow_the_cells() {
    let mut grid = Grid::new(
        vec![Cell(0, 0)],
        GridConfig {
            view: View::Fixed,
            width: 3,
            height: 2,
            ..Default::default()
        },
    );
    grid.set_alive(Cell(-50, 70));
    assert_eq!(grid.viewport(), (Cell(0, 0), Cell(3, 2)));
}

#[test]
fn viewport_centered_is_the_mode_of_the_default() {
    let grid = Grid::new(
        vec![Cell(2, 3), Cell(3, 3), Cell(5, 4), Cell(4, 2)],
        GridConfig {
            min_width: 10,
            ..Default::default()
        },
    );
    assert_eq!(grid.viewport(), grid.viewport_centered());
}

#[test]
fn viewport_centered_keeps_a_box_that_is_large_enough() {
    let mut grid = Grid::new(vec![Cell(0, 0)], Default::default());
    for x in 0..40 {
        grid.set_alive(Cell(x, 2 * x));
    }
    assert_eq!(grid.viewport_centered(), grid.calculate_bounds());
    assert_eq!(grid.viewport_centered(), (Cell(0, 0), Cell(39, 78)));
}

#[test]
fn can_draw_tells_when_the_window_leaves_the_lattice() {
    let at_the_rim = Grid::new(
        vec![Cell(i64::MAX, 0)],
        GridConfig {
            min_width: 10,
            ..Default::default()
        },
    );
    assert!(!at_the_rim.can_draw());
    let follow = Grid::new(
        vec![Cell(0, 0)],
        GridConfig {
            view: View::Follow,
            ..Default::default()
        },
    );
    assert!(!follow.can_draw());
    let inside = Grid::new(vec![Cell(i64::MAX - 5, 0)], Default::default());
    assert!(inside.can_draw());
    assert_eq!(
        inside.viewport(),
        (Cell(i64::MAX - 9, -4), Cell(i64::MAX, 5))
    );
}

#[test]
fn from_config_reports_the_first_unknown_character() {
    let config = GridConfig {
        pattern: "#-#\n-x-\n?".to_string(),
        ..Default::default()
    };
    assert_eq!(Grid::from_config(config).err(), Some(AppError::UnknownChar('x')));
    assert_eq!(Grid::from_str("abc\ndef").err(), Some(AppError::UnknownChar('a')));
    assert_eq!(Grid::from_str("#- #").err(), Some(AppError::UnknownChar(' ')));
}

#[test]
fn from_str_trims_the_pattern_and_not_its_lines() {
    let grid = Grid::from_str("\n\n  -#\n#\n\n").unwrap();
    assert_eq!(sorted(grid.live_cells()), sorted(vec![Cell(1, 0), Cell(0, 1)]));
    assert_eq!(Grid::from_str("#\n #").err(), Some(AppError::UnknownChar(' ')));
}

#[test]
fn from_str_keeps_empty_lines_as_rows() {
    let grid = Grid::from_str("#\n\n#").unwrap();
    assert_eq!(sorted(grid.live_cells()), sorted(vec![Cell(0, 0), Cell(0, 2)]));
}

#[test]
fn from_str_accepts_carriage_returns_before_line_feeds() {
    let grid = Grid::from_str("#-\r\n-#\r\n").unwrap();
    assert_eq!(sorted(grid.live_cells()), sorted(vec![Cell(0, 0), Cell(1, 1)]));
    assert_eq!(Grid::from_str("#\r-\n#").err(), Some(AppError::UnknownChar('\r')));
}

#[test]
fn from_str_of_nothing_is_the_empty_grid() {
    for text in ["", "   ", "\n\n", "---\n---"] {
        let grid = Grid::from_str(text).unwrap();
        assert!(grid.is_empty());
        assert_eq!(grid.opts().pattern, text);
    }
}

#[test]
fn from_str_agrees_with_the_trait() {
    for text in ["#-\n-#", "#x", ""] {
        assert_eq!(text.parse::<Grid>(), Grid::from_str(text));
    }
}

#[test]
fn parse_can_skip_comments() {
    let config = GridConfig {
        pattern: "# a glider\n-o-\n--o\n#\nooo".to_string(),
        char_alive: 'o',
        char_dead: '-',
        ..Default::default()
    };
    let grid = Grid::parse(config.clone(), true).unwrap();
    assert_eq!(
        sorted(grid.live_cells()),
        sorted(vec![Cell(1, 0), Cell(2, 1), Cell(0, 2), Cell(1, 2), Cell(2, 2)])
    );
    assert_eq!(Grid::parse(config.clone(), false).err(), Some(AppError::UnknownChar('#')));
    assert_eq!(Grid::from_config(config.clone()), Grid::parse(config, true));
}

#[test]
fn from_config_takes_no_line_for_a_comment_when_the_marker_is_a_glyph() {
    let alive = GridConfig {
        pattern: "#-\n-#".to_string(),
        ..Default::default()
    };
    let grid = Grid::from_config(alive).unwrap();
    assert_eq!(sorted(grid.live_cells()), sorted(vec![Cell(0, 0), Cell(1, 1)]));
    let dead = GridConfig {
        pattern: "#o\no#".to_string(),
        char_alive: 'o',
        char_dead: '#',
        ..Default::default()
    };
    let grid = Grid::from_config(dead).unwrap();
    assert_eq!(sorted(grid.live_cells()), sorted(vec![Cell(1, 0), Cell(0, 1)]));
}

#[test]
fn parse_with_equal_glyphs_takes_every_cell_for_alive() {
    let config = GridConfig {
        pattern: "**\n*".to_string(),
        char_alive: '*',
        char_dead: '*',
        ..Default::default()
    };
    let grid = Grid::from_config(config).unwrap();
    assert_eq!(grid.population(), 3);
}

#[test]
fn draw_shows_the_window_row_by_row() {
    let grid = Grid::new(
        vec![Cell(0, 0), Cell(1, 0), Cell(2, 1), Cell(1, 2)],
        GridConfig {
            min_width: 0,
            min_height: 0,
            ..Default::default()
        },
    );
    assert_eq!(grid.draw(), "##-\n--#\n-#-\n");
    assert_eq!(grid.draw_window(Cell(1, 0), Cell(2, 0), 'o', '.'), "o.\n");
    assert_eq!(grid.draw_window(Cell(1, 1), Cell(0, 2), 'o', '.'), "\n\n");
    assert_eq!(grid.draw_window(Cell(0, 1), Cell(5, 0), 'o', '.'), "");
}

#[test]
fn draw_then_parse_gives_the_cells_back() {
    let cells = vec![Cell(2, 1), Cell(-3, 0), Cell(-2, 1), Cell(-2, 0), Cell(0, 5)];
    let grid = Grid::new(
        cells.clone(),
        GridConfig {
            min_width: 9,
            min_height: 12,
            ..Default::default()
        },
    );
    let (near, _) = grid.viewport();
    let again = Grid::from_str(&grid.draw()).unwrap();
    let moved: Vec<Cell> = cells.iter().map(|c| *c - near).collect();
    assert_eq!(sorted(again.live_cells()), sorted(moved));
}

#[test]
fn view_from_str_reads_the_three_names() {
    assert_eq!(View::from_str("centered"), Ok(View::Centered));
    assert_eq!(View::from_str("fixed"), Ok(View::Fixed));
    assert_eq!(View::from_str("follow"), Ok(View::Follow));
    assert_eq!("fixed".parse::<View>(), Ok(View::Fixed));
    assert_eq!(
        View::from_str("Centered"),
        Err(AppError::InvalidChoice("Centered".to_string()))
    );
    assert_eq!(View::from_str(""), Err(AppError::InvalidChoice(String::new())));
}

#[test]
fn default_grid_config() {
    let config = GridConfig::default();
    assert_eq!(config.pattern, "");
    assert_eq!((config.char_alive, config.char_dead), ('#', '-'));
    assert_eq!(config.view, View::Centered);
    assert_eq!((config.width, config.height), (10, 10));
    assert_eq!((config.min_width, config.min_height), (10, 10));
}

#[test]
fn accepts_tells_which_cells_a_grid_can_be_made_of() {
    assert!(Grid::accepts(&vec![]));
    assert!(Grid::accepts(&vec![Cell(i64::MIN, i64::MAX)]));
    assert!(Grid::accepts(&vec![Cell(i64::MIN, 0), Cell(i64::MAX - 1, 0)]));
    assert!(!Grid::accepts(&vec![Cell(i64::MIN, 0), Cell(0, 0), Cell(i64::MAX, 0)]));
    assert!(!Grid::accepts(&vec![Cell(3, i64::MAX), Cell(4, i64::MIN)]));
    let grid = Grid::new(vec![Cell(i64::MIN, 0), Cell(i64::MAX - 1, 0)], Default::default());
    assert!(grid.spans_fit());
    let mut wide = Grid::new(vec![Cell(i64::MIN, 0)], Default::default());
    wide.set_alive(Cell(i64::MAX, 0));
    assert!(!wide.spans_fit());
}
