use conway::{AppError, Cell, CellSyntax};

#[test]
fn test_add() {
    assert_eq!(Cell(1, 1) + Cell(4, 9), Cell(5, 10));
    assert_eq!(Cell(-3, 5) + Cell(-5, -6), Cell(-8, -1));
}

#[test]
fn test_sub() {
    assert_eq!(Cell(1, 1) - Cell(4, 9), Cell(-3, -8));
    assert_eq!(Cell(-3, 5) - Cell(-5, -6), Cell(2, 11));
}

#[test]
fn cell_test_from_str() {
    assert_eq!("(-4, 9)".parse::<Cell>().unwrap(), Cell(-4, 9));
}

#[test]
fn cell_default_is_origin() {
    let cell: Cell = Default::default();
    assert_eq!(cell, Cell(0, 0));
}

#[test]
fn cell_from_str_accepts_white_space() {
    assert_eq!(Cell::from_str("  (1,2)\n"), Ok(Cell(1, 2)));
    assert_eq!(Cell::from_str("( 7 ,\t-8 )"), Ok(Cell(7, -8)));
    assert_eq!(Cell::from_str("(+3,-0)"), Ok(Cell(3, 0)));
    assert_eq!(Cell::from_str("\u{3000}(10, 20)\u{a0}"), Ok(Cell(10, 20)));
}

#[test]
fn cell_from_str_reads_the_whole_range() {
    assert_eq!(
        Cell::from_str("(-9223372036854775808, 9223372036854775807)"),
        Ok(Cell(i64::MIN, i64::MAX))
    );
    assert_eq!(Cell::from_str("(0000000000000000000000012, 3)"), Ok(Cell(12, 3)));
}

#[test]
fn cell_from_str_ignores_what_follows_a_second_comma() {
    assert_eq!(Cell::from_str("(1, 2, 3)"), Ok(Cell(1, 2)));
    assert_eq!(Cell::from_str("(1, 2, x)"), Ok(Cell(1, 2)));
}

#[test]
fn cell_from_str_missing_opening_paren() {
    let expected = Err(AppError::ParseCell(CellSyntax::NoOpeningParen));
    assert_eq!(Cell::from_str("1, 2)"), expected);
    assert_eq!(Cell::from_str(""), expected);
    assert_eq!(Cell::from_str("   "), expected);
    assert_eq!(Cell::from_str("[1, 2]"), expected);
    assert_eq!(Cell::from_str("é1, 2)"), expected);
}

#[test]
fn cell_from_str_missing_closing_paren() {
    let expected = Err(AppError::ParseCell(CellSyntax::NoClosingParen));
    assert_eq!(Cell::from_str("(1, 2"), expected);
    assert_eq!(Cell::from_str("("), expected);
    assert_eq!(Cell::from_str("(1, 2]"), expected);
}

#[test]
fn cell_from_str_missing_coordinate() {
    let expected = Err(AppError::ParseCell(CellSyntax::MissingCoordinate));
    assert_eq!(Cell::from_str("(5)"), expected);
    assert_eq!(Cell::from_str("( -5 )"), expected);
}

#[test]
fn cell_from_str_not_an_integer() {
    let expected = Err(AppError::ParseCell(CellSyntax::NotAnInteger));
    assert_eq!(Cell::from_str("()"), expected);
    assert_eq!(Cell::from_str("(a, 2)"), expected);
    assert_eq!(Cell::from_str("(1, b)"), expected);
    assert_eq!(Cell::from_str("(1,)"), expected);
    assert_eq!(Cell::from_str("(,1)"), expected);
    assert_eq!(Cell::from_str("(1.5, 2)"), expected);
    assert_eq!(Cell::from_str("(-, 2)"), expected);
    assert_eq!(Cell::from_str("(+, 2)"), expected);
    assert_eq!(Cell::from_str("(1 2, 3)"), expected);
    assert_eq!(Cell::from_str("(abc)"), expected);
    assert_eq!(Cell::from_str("(9223372036854775808, 0)"), expected);
    assert_eq!(Cell::from_str("(0, -9223372036854775809)"), expected);
    assert_eq!(Cell::from_str("(99999999999999999999999999999999999999999999, 0)"), expected);
}

#[test]
fn cell_from_str_agrees_with_the_trait() {
    for text in ["(1, 2)", "(1, 2", "x", "(1)", "(a, b)"] {
        assert_eq!(text.parse::<Cell>(), Cell::from_str(text));
    }
}

#[test]
fn app_error_new_carries_the_message() {
    assert_eq!(AppError::new("no such file"), AppError::Msg("no such file".to_string()));
}

#[test]
fn to_text_writes_the_pair_in_round_brackets() {
    assert_eq!(Cell(-4, 9).to_text(), "(-4, 9)");
    assert_eq!(Cell(0, 0).to_text(), "(0, 0)");
    assert_eq!(Cell(10, -100).to_text(), "(10, -100)");
    assert_eq!(
        Cell(i64::MIN, i64::MAX).to_text(),
        "(-9223372036854775808, 9223372036854775807)"
    );
}

#[test]
fn to_text_writes_numbers_as_the_standard_library_does() {
    for v in [0, 1, 9, 10, 11, 99, 100, 101, 12345678901234, i64::MAX, -1, -10, -909, i64::MIN + 1, i64::MIN] {
        assert_eq!(Cell(v, -v.max(-i64::MAX)).to_text(), format!("({}, {})", v, -v.max(-i64::MAX)));
    }
}

#[test]
fn to_text_reads_back() {
    for cell in [
        Cell(0, 0),
        Cell(-4, 9),
        Cell(1000, -1000),
        Cell(i64::MIN, i64::MAX),
        Cell(i64::MAX, i64::MIN),
    ] {
        assert_eq!(Cell::from_str(&cell.to_text()), Ok(cell));
        assert_eq!(cell.to_text().parse::<Cell>(), Ok(cell));
    }
}
