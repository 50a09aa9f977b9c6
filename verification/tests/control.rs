use conway::control::{command, press};
use conway::{Action, Cell, Command, Game, Grid, Key};

fn game_of(cells: Vec<Cell>) -> Game {
    Game::new(Grid::new(cells, Default::default()), Default::default())
}

fn sorted(mut cells: Vec<Cell>) -> Vec<Cell> {
    cells.sort_by_key(|c| (c.0, c.1));
    cells
}

#[test]
fn command_of_each_key() {
    assert_eq!(command(Key::Char('q')), Command::Quit);
    assert_eq!(command(Key::Esc), Command::Quit);
    assert_eq!(command(Key::Ctrl('c')), Command::Quit);
    assert_eq!(command(Key::Char(' ')), Command::Next);
    assert_eq!(command(Key::Closed), Command::Next);
    assert_eq!(command(Key::Char('Q')), Command::Nothing);
    assert_eq!(command(Key::Char('c')), Command::Nothing);
    assert_eq!(command(Key::Ctrl('q')), Command::Nothing);
    assert_eq!(command(Key::Ctrl(' ')), Command::Nothing);
    assert_eq!(command(Key::Other), Command::Nothing);
}

#[test]
fn press_space_advances_the_game() {
    let mut game = game_of(vec![Cell(1, 0), Cell(1, 1), Cell(1, 2)]);
    assert_eq!(press(&mut game, Key::Char(' ')), Action::Redraw);
    assert_eq!(
        sorted(game.grid().live_cells()),
        vec![Cell(0, 1), Cell(1, 1), Cell(2, 1)]
    );
    assert_eq!(press(&mut game, Key::Closed), Action::Redraw);
    assert_eq!(
        sorted(game.grid().live_cells()),
        vec![Cell(1, 0), Cell(1, 1), Cell(1, 2)]
    );
}

#[test]
fn press_space_ends_a_game_that_dies_out() {
    let mut game = game_of(vec![Cell(0, 0), Cell(1, 1)]);
    assert_eq!(press(&mut game, Key::Char(' ')), Action::Quit);
    assert!(game.is_over());
}

#[test]
fn press_any_other_key_leaves_the_game_alone() {
    let start = vec![Cell(1, 0), Cell(1, 1), Cell(1, 2)];
    let mut game = game_of(start.clone());
    assert_eq!(press(&mut game, Key::Char('x')), Action::Wait);
    assert_eq!(press(&mut game, Key::Other), Action::Wait);
    assert_eq!(press(&mut game, Key::Char('q')), Action::Quit);
    assert_eq!(press(&mut game, Key::Esc), Action::Quit);
    assert_eq!(press(&mut game, Key::Ctrl('c')), Action::Quit);
    assert_eq!(sorted(game.grid().live_cells()), sorted(start));
}
