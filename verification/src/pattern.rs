//! Reading a population from a block of text.
//!
//! The text is trimmed and cut into lines; each line kept is a row, the top
//! line being row zero, and each character a column, the first being column
//! zero. The glyph of a live cell puts a cell at its column and row, the
//! glyph of a dead cell puts none, and any other character is an error.

use crate::cell::Cell;
use crate::error::AppError;
use crate::text::{
    chars_of, lemma_lines_are_short, lines, split_lines, trim, trimmed,
};
use vstd::prelude::*;

verus! {

/// The character that marks a line as a comment.
pub const COMMENT: char = '#';

/// Whether a pattern with these glyphs can hold comments: neither glyph is
/// the comment marker.
pub open spec fn has_comments(alive: char, dead: char) -> bool {
    alive != COMMENT && dead != COMMENT
}

/// Whether a line is left out: a line that begins with the comment marker,
/// where such lines are skipped.
pub open spec fn is_skipped(line: Seq<char>, skip_comments: bool) -> bool {
    skip_comments && line.len() > 0 && line[0] == COMMENT
}

/// The lines that are kept, in their order.
pub open spec fn kept_rows(all: Seq<Seq<char>>, skip_comments: bool) -> Seq<Seq<char>>
    decreases all.len(),
{
    if all.len() == 0 {
        Seq::empty()
    } else if is_skipped(all.last(), skip_comments) {
        kept_rows(all.drop_last(), skip_comments)
    } else {
        kept_rows(all.drop_last(), skip_comments).push(all.last())
    }
}

/// The rows of a pattern.
pub open spec fn pattern_rows(text: Seq<char>, skip_comments: bool) -> Seq<Seq<char>> {
    kept_rows(lines(trim(text)), skip_comments)
}

/// The first character of a row that is neither glyph.
pub open spec fn first_foreign(row: Seq<char>, alive: char, dead: char) -> Option<char>
    decreases row.len(),
{
    if row.len() == 0 {
        None
    } else {
        match first_foreign(row.drop_last(), alive, dead) {
            Some(c) => Some(c),
            None => if row.last() != alive && row.last() != dead {
                Some(row.last())
            } else {
                None
            },
        }
    }
}

/// The first character of the rows, read row by row, that is neither glyph.
pub open spec fn first_foreign_in(rows: Seq<Seq<char>>, alive: char, dead: char) -> Option<char>
    decreases rows.len(),
{
    if rows.len() == 0 {
        None
    } else {
        match first_foreign_in(rows.drop_last(), alive, dead) {
            Some(c) => Some(c),
            None => first_foreign(rows.last(), alive, dead),
        }
    }
}

/// Whether the rows hold the glyph of a live cell at the column and row of `c`.
pub open spec fn marks(rows: Seq<Seq<char>>, alive: char, c: Cell) -> bool {
    0 <= c.1 < rows.len() && 0 <= c.0 < rows[c.1 as int].len() && rows[c.1 as int][c.0 as int]
        == alive
}

/// The cells that the rows mark as alive.
pub open spec fn pattern_cells(rows: Seq<Seq<char>>, alive: char) -> Set<Cell> {
    Set::new(|c: Cell| marks(rows, alive, c))
}

/// The marked cells that lie before column `x` of row `y`, read row by row.
pub open spec fn pattern_cells_before(rows: Seq<Seq<char>>, alive: char, y: int, x: int) -> Set<
    Cell,
> {
    Set::new(|c: Cell| marks(rows, alive, c) && (c.1 < y || (c.1 == y && c.0 < x)))
}

/// What a pattern reads as: the cells it marks, or the first character that
/// is neither glyph, or the finding that the text is too long for its rows
/// and columns to be coordinates.
pub open spec fn read_pattern(text: Seq<char>, alive: char, dead: char, skip_comments: bool)
    -> Result<Set<Cell>, AppError> {
    let rows = pattern_rows(text, skip_comments);
    if text.len() > i64::MAX {
        Err(AppError::PatternTooLarge)
    } else {
        match first_foreign_in(rows, alive, dead) {
            Some(c) => Err(AppError::UnknownChar(c)),
            None => Ok(pattern_cells(rows, alive)),
        }
    }
}

/// A foreign character found in the first part of a row is the first of the row.
pub proof fn lemma_first_foreign_prefix(row: Seq<char>, i: int, alive: char, dead: char)
    requires
        0 <= i <= row.len(),
        first_foreign(row.take(i), alive, dead) is Some,
    ensures
        first_foreign(row, alive, dead) == first_foreign(row.take(i), alive, dead),
    decreases row.len() - i,
{
    if i < row.len() {
        assert(row.take(i + 1).drop_last() =~= row.take(i));
        lemma_first_foreign_prefix(row, i + 1, alive, dead);
    } else {
        assert(row.take(i) =~= row);
    }
}

/// A foreign character found among the first lines is the first of all.
pub proof fn lemma_first_foreign_in_prefix(
    all: Seq<Seq<char>>,
    k: int,
    skip_comments: bool,
    alive: char,
    dead: char,
)
    requires
        0 <= k <= all.len(),
        first_foreign_in(kept_rows(all.take(k), skip_comments), alive, dead) is Some,
    ensures
        first_foreign_in(kept_rows(all, skip_comments), alive, dead) == first_foreign_in(
            kept_rows(all.take(k), skip_comments),
            alive,
            dead,
        ),
    decreases all.len() - k,
{
    if k < all.len() {
        assert(all.take(k + 1).drop_last() =~= all.take(k));
        let more = kept_rows(all.take(k + 1), skip_comments);
        if !is_skipped(all[k], skip_comments) {
            assert(more.drop_last() =~= kept_rows(all.take(k), skip_comments));
        }
        lemma_first_foreign_in_prefix(all, k + 1, skip_comments, alive, dead);
    } else {
        assert(all.take(k) =~= all);
    }
}

/// Reads the cells that a pattern marks as alive.
pub fn parse_pattern(text: &str, alive: char, dead: char, skip_comments: bool) -> (out: Result<
    Vec<Cell>,
    AppError,
>)
    ensures
        match read_pattern(text@, alive, dead, skip_comments) {
            Ok(cells) => out matches Ok(found) && found@.to_set() == cells && forall|i: int|
                0 <= i < found@.len() ==> 0 <= (#[trigger] found@[i]).0 && 0 <= found@[i].1,
            Err(e) => out == Err::<Vec<Cell>, AppError>(e),
        },
{
    let chars = chars_of(text);
    if chars.len() as u128 > i64::MAX as u128 {
        return Err(AppError::PatternTooLarge);
    }
    let body = trimmed(chars.as_slice());
    let all = split_lines(body);
    let ghost all_lines = lines(trim(text@));
    let mut cells: Vec<Cell> = Vec::new();
    let mut k: usize = 0;
    let mut y: i64 = 0;
    proof {
        lemma_lines_are_short(body@);
        assert(all_lines.take(0) =~= Seq::<Seq<char>>::empty());
        assert(cells@.to_set() =~= pattern_cells(Seq::<Seq<char>>::empty(), alive));
    }
    while k < all.len()
        invariant
            text@.len() <= i64::MAX,
            all_lines == lines(trim(text@)),
            all@.len() == all_lines.len(),
            all_lines.len() <= i64::MAX,
            forall|i: int| 0 <= i < all@.len() ==> (#[trigger] all@[i])@ == all_lines[i],
            forall|i: int| 0 <= i < all_lines.len() ==> (#[trigger] all_lines[i]).len() <= i64::MAX,
            k <= all@.len(),
            y == kept_rows(all_lines.take(k as int), skip_comments).len(),
            y <= k,
            first_foreign_in(kept_rows(all_lines.take(k as int), skip_comments), alive, dead)
                is None,
            cells@.to_set() == pattern_cells(
                kept_rows(all_lines.take(k as int), skip_comments),
                alive,
            ),
            forall|i: int| 0 <= i < cells@.len() ==> 0 <= (#[trigger] cells@[i]).0 && 0 <= cells@[i].1,
        decreases all@.len() - k,
    {
        let line = all[k];
        let ghost before = kept_rows(all_lines.take(k as int), skip_comments);
        proof {
            assert(all_lines.take(k + 1).drop_last() =~= all_lines.take(k as int));
            assert(all_lines.take(k + 1).last() == line@);
        }
        if skip_comments && line.len() > 0 && line[0] == COMMENT {
            k += 1;
        } else {
            let ghost rows = before.push(line@);
            let mut x: usize = 0;
            proof {
                assert(kept_rows(all_lines.take(k + 1), skip_comments) == rows);
                assert(rows.drop_last() =~= before);
                assert(line@.take(0) =~= Seq::<char>::empty());
                assert(cells@.to_set() =~= pattern_cells_before(rows, alive, y as int, 0)) by {
                    assert forall|c: Cell| pattern_cells(before, alive).contains(c)
                        <==> pattern_cells_before(rows, alive, y as int, 0).contains(c) by {
                        if 0 <= c.1 < y {
                            assert(rows[c.1 as int] == before[c.1 as int]);
                        }
                    }
                }
            }
            while x < line.len()
                invariant
                    text@.len() <= i64::MAX,
                    all_lines == lines(trim(text@)),
                    k < all_lines.len(),
                    kept_rows(all_lines.take(k + 1), skip_comments) == rows,
                    first_foreign_in(rows.drop_last(), alive, dead) is None,
                    x <= line@.len() <= i64::MAX,
                    0 <= y < i64::MAX,
                    rows.len() == y + 1,
                    rows[y as int] == line@,
                    first_foreign(line@.take(x as int), alive, dead) is None,
                    cells@.to_set() == pattern_cells_before(rows, alive, y as int, x as int),
                    forall|i: int|
                        0 <= i < cells@.len() ==> 0 <= (#[trigger] cells@[i]).0 && 0
                            <= cells@[i].1,
                decreases line@.len() - x,
            {
                let ch = line[x];
                proof {
                    assert(line@.take(x + 1).drop_last() =~= line@.take(x as int));
                    assert(line@.take(x + 1).last() == ch);
                }
                if ch == alive {
                    let ghost seen = cells@;
                    cells.push(Cell(x as i64, y));
                    proof {
                        seen.lemma_push_to_set_commute(Cell(x as i64, y));
                        assert(pattern_cells_before(rows, alive, y as int, x as int).insert(
                            Cell(x as i64, y),
                        ) =~= pattern_cells_before(rows, alive, y as int, x + 1));
                    }
                } else if ch != dead {
                    proof {
                        lemma_first_foreign_prefix(line@, x + 1, alive, dead);
                        lemma_first_foreign_in_prefix(
                            all_lines,
                            k + 1,
                            skip_comments,
                            alive,
                            dead,
                        );
                    }
                    return Err(AppError::UnknownChar(ch));
                } else {
                    proof {
                        assert(pattern_cells_before(rows, alive, y as int, x as int)
                            =~= pattern_cells_before(rows, alive, y as int, x + 1));
                    }
                }
                x += 1;
            }
            proof {
                assert(line@.take(x as int) =~= line@);
                assert(pattern_cells_before(rows, alive, y as int, x as int) =~= pattern_cells(
                    rows,
                    alive,
                ));
            }
            y += 1;
            k += 1;
        }
    }
    proof {
        assert(all_lines.take(k as int) =~= all_lines);
    }
    Ok(cells)
}

} // verus!
