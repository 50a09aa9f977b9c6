//! A frame read back as a pattern gives the cells that it shows.

use crate::cell::Cell;
use crate::frame::{count, frame, frame_row, frame_rows, glyph, glyphs};
use crate::pattern::{
    first_foreign, first_foreign_in, is_skipped, kept_rows, pattern_cells, pattern_rows,
    read_pattern, COMMENT,
};
use crate::text::{
    is_space, leading_spaces, lemma_first_index_is, lines, strip_carriage_return,
    trailing_spaces, trim, trim_end, trim_start,
};
use vstd::prelude::*;

verus! {

/// The cells of `cells`, each moved so that `near` comes to lie at the origin.
pub open spec fn moved_to_origin(cells: Set<Cell>, near: Cell) -> Set<Cell> {
    Set::new(
        |c: Cell|
            Cell::representable(c.sum(near)) && cells.contains(
                Cell((c.0 + near.0) as i64, (c.1 + near.1) as i64),
            ),
    )
}

/// The rows of glyphs that a frame is made of, without the line feeds.
pub open spec fn glyph_rows(
    cells: Set<Cell>,
    x0: int,
    width: nat,
    y0: int,
    rows: nat,
    alive: char,
    dead: char,
) -> Seq<Seq<char>> {
    Seq::new(rows, |j: int| glyphs(cells, x0, width, y0 + j, alive, dead))
}

/// Nothing is left of white space when it is trimmed.
proof fn lemma_all_space_trims_to_nothing(s: Seq<char>)
    requires
        forall|i: int| 0 <= i < s.len() ==> is_space(#[trigger] s[i]),
    ensures
        leading_spaces(s) == s.len(),
        trim(s) == Seq::<char>::empty(),
    decreases s.len(),
{
    if s.len() > 0 {
        let rest = s.drop_first();
        assert forall|i: int| 0 <= i < rest.len() implies is_space(#[trigger] rest[i]) by {
            assert(rest[i] == s[i + 1]);
        }
        lemma_all_space_trims_to_nothing(rest);
    }
    assert(trim_start(s) =~= Seq::<char>::empty());
    assert(trim(s) =~= Seq::<char>::empty());
}

/// A frame is its first line followed by the frame of the rows below.
proof fn lemma_frame_rows_front(
    cells: Set<Cell>,
    x0: int,
    x1: int,
    y0: int,
    rows: nat,
    alive: char,
    dead: char,
)
    requires
        rows >= 1,
    ensures
        frame_rows(cells, x0, x1, y0, rows, alive, dead) == frame_row(
            cells,
            x0,
            x1,
            y0,
            alive,
            dead,
        ) + frame_rows(cells, x0, x1, y0 + 1, (rows - 1) as nat, alive, dead),
    decreases rows,
{
    let whole = frame_rows(cells, x0, x1, y0, rows, alive, dead);
    let first = frame_row(cells, x0, x1, y0, alive, dead);
    let last = frame_row(cells, x0, x1, y0 + rows - 1, alive, dead);
    let after = frame_rows(cells, x0, x1, y0 + 1, (rows - 1) as nat, alive, dead);
    if rows == 1 {
        assert(frame_rows(cells, x0, x1, y0, 0, alive, dead) =~= Seq::<char>::empty());
        assert(whole =~= first + after);
    } else {
        let before = frame_rows(cells, x0, x1, y0, (rows - 1) as nat, alive, dead);
        let middle = frame_rows(cells, x0, x1, y0 + 1, (rows - 2) as nat, alive, dead);
        lemma_frame_rows_front(cells, x0, x1, y0, (rows - 1) as nat, alive, dead);
        assert(before == first + middle);
        assert(after == middle + last);
        assert(whole == before + last);
        assert(whole =~= first + after);
    }
}

/// A frame without columns holds line feeds only.
proof fn lemma_blank_frame(
    cells: Set<Cell>,
    x0: int,
    x1: int,
    y0: int,
    rows: nat,
    alive: char,
    dead: char,
)
    requires
        x1 < x0,
    ensures
        forall|i: int|
            0 <= i < frame_rows(cells, x0, x1, y0, rows, alive, dead).len() ==> is_space(
                #[trigger] frame_rows(cells, x0, x1, y0, rows, alive, dead)[i],
            ),
    decreases rows,
{
    if rows > 0 {
        lemma_blank_frame(cells, x0, x1, y0, (rows - 1) as nat, alive, dead);
        let before = frame_rows(cells, x0, x1, y0, (rows - 1) as nat, alive, dead);
        let last = frame_row(cells, x0, x1, y0 + rows - 1, alive, dead);
        assert(last =~= seq!['\n']);
        assert forall|i: int| 0 <= i < (before + last).len() implies is_space(
            #[trigger] (before + last)[i],
        ) by {
            if i < before.len() {
                assert((before + last)[i] == before[i]);
            } else {
                assert((before + last)[i] == last[i - before.len()]);
            }
        }
    }
}

/// A frame with a column at least begins and ends its glyphs with a glyph,
/// and its lines are its rows of glyphs.
proof fn lemma_lines_of_frame(
    cells: Set<Cell>,
    x0: int,
    x1: int,
    y0: int,
    rows: nat,
    alive: char,
    dead: char,
)
    requires
        rows >= 1,
        x0 <= x1,
        !is_space(alive),
        !is_space(dead),
    ensures
        ({
            let f = frame_rows(cells, x0, x1, y0, rows, alive, dead);
            &&& f.len() >= 2
            &&& f.last() == '\n'
            &&& !is_space(f[0])
            &&& !is_space(f[f.len() - 2])
            &&& lines(f.drop_last()) == glyph_rows(cells, x0, count(x0, x1), y0, rows, alive, dead)
        }),
    decreases rows,
{
    let width = count(x0, x1);
    let f = frame_rows(cells, x0, x1, y0, rows, alive, dead);
    let g = glyphs(cells, x0, width, y0, alive, dead);
    let row = frame_row(cells, x0, x1, y0, alive, dead);
    let rest = frame_rows(cells, x0, x1, y0 + 1, (rows - 1) as nat, alive, dead);
    lemma_frame_rows_front(cells, x0, x1, y0, rows, alive, dead);
    assert(f == row + rest);
    assert(row == g.push('\n'));
    assert(g.len() == width && width >= 1);
    assert forall|j: int| 0 <= j < g.len() implies !is_space(#[trigger] g[j]) by {
        assert(g[j] == glyph(cells, x0 + j, y0, alive, dead));
    }
    assert(is_space('\n') && is_space('\r'));
    assert(f[0] == g[0]);
    let s = f.drop_last();
    let expected = glyph_rows(cells, x0, width, y0, rows, alive, dead);
    if rows == 1 {
        assert(rest =~= Seq::<char>::empty());
        assert(f =~= row);
        assert(s =~= g);
        assert(f[f.len() - 2] == g[g.len() - 1]);
        lemma_first_index_is(s, '\n', s.len() as int);
        assert(lines(s) == seq![s]);
        assert(lines(s) =~= expected);
    } else {
        lemma_lines_of_frame(cells, x0, x1, y0 + 1, (rows - 1) as nat, alive, dead);
        let tail = rest.drop_last();
        assert(s =~= row + tail);
        assert(f[f.len() - 2] == rest[rest.len() - 2]);
        assert forall|j: int| 0 <= j < width implies s[j] != '\n' by {
            assert(s[j] == g[j]);
        }
        assert(s[width as int] == '\n');
        lemma_first_index_is(s, '\n', width as int);
        assert(s.take(width as int) =~= g);
        assert(strip_carriage_return(g) == g) by {
            assert(!is_space(g[g.len() - 1]));
        }
        assert(s.skip(width as int + 1) =~= tail);
        assert(lines(s) == seq![g] + lines(tail));
        let below = glyph_rows(cells, x0, width, y0 + 1, (rows - 1) as nat, alive, dead);
        assert(lines(tail) == below);
        assert(seq![g] + below =~= expected) by {
            assert forall|j: int| 0 <= j < expected.len() implies (seq![g] + below)[j]
                == expected[j] by {
                if j > 0 {
                    assert((seq![g] + below)[j] == below[j - 1]);
                    assert(y0 + 1 + (j - 1) == y0 + j);
                }
            }
        }
    }
}

/// The lines of a trimmed frame are its rows of glyphs.
proof fn lemma_frame_trims_to_its_rows(
    cells: Set<Cell>,
    x0: int,
    x1: int,
    y0: int,
    rows: nat,
    alive: char,
    dead: char,
)
    requires
        !is_space(alive),
        !is_space(dead),
    ensures
        lines(trim(frame_rows(cells, x0, x1, y0, rows, alive, dead))) == if x0 <= x1 {
            glyph_rows(cells, x0, count(x0, x1), y0, rows, alive, dead)
        } else {
            Seq::<Seq<char>>::empty()
        },
{
    let f = frame_rows(cells, x0, x1, y0, rows, alive, dead);
    if rows == 0 {
        assert(f =~= Seq::<char>::empty());
        lemma_all_space_trims_to_nothing(f);
        assert(glyph_rows(cells, x0, count(x0, x1), y0, rows, alive, dead) =~= Seq::<
            Seq<char>,
        >::empty());
    } else if x1 < x0 {
        lemma_blank_frame(cells, x0, x1, y0, rows, alive, dead);
        lemma_all_space_trims_to_nothing(f);
    } else {
        lemma_lines_of_frame(cells, x0, x1, y0, rows, alive, dead);
        assert(leading_spaces(f) == 0);
        assert(trim_start(f) =~= f);
        assert(f.drop_last().last() == f[f.len() - 2]);
        assert(trailing_spaces(f.drop_last()) == 0);
        assert(trailing_spaces(f) == 1);
        assert(trim_end(f) =~= f.drop_last());
    }
}

/// Where no line is a comment, every line is a row.
proof fn lemma_nothing_skipped(all: Seq<Seq<char>>, skip_comments: bool)
    requires
        forall|j: int| 0 <= j < all.len() ==> !is_skipped(#[trigger] all[j], skip_comments),
    ensures
        kept_rows(all, skip_comments) == all,
    decreases all.len(),
{
    if all.len() > 0 {
        let init = all.drop_last();
        assert forall|j: int| 0 <= j < init.len() implies !is_skipped(
            #[trigger] init[j],
            skip_comments,
        ) by {
            assert(init[j] == all[j]);
        }
        lemma_nothing_skipped(init, skip_comments);
        assert(!is_skipped(all[all.len() - 1], skip_comments));
        assert(init.push(all.last()) =~= all);
    } else {
        assert(all =~= Seq::<Seq<char>>::empty());
    }
}

/// A row of glyphs holds no foreign character.
proof fn lemma_no_foreign(row: Seq<char>, alive: char, dead: char)
    requires
        forall|i: int| 0 <= i < row.len() ==> #[trigger] row[i] == alive || row[i] == dead,
    ensures
        first_foreign(row, alive, dead) is None,
    decreases row.len(),
{
    if row.len() > 0 {
        let init = row.drop_last();
        assert forall|i: int| 0 <= i < init.len() implies #[trigger] init[i] == alive || init[i]
            == dead by {
            assert(init[i] == row[i]);
        }
        lemma_no_foreign(init, alive, dead);
        assert(row[row.len() - 1] == alive || row[row.len() - 1] == dead);
    }
}

/// Rows of glyphs hold no foreign character.
proof fn lemma_no_foreign_in(rows: Seq<Seq<char>>, alive: char, dead: char)
    requires
        forall|j: int| 0 <= j < rows.len() ==> first_foreign(#[trigger] rows[j], alive, dead) is None,
    ensures
        first_foreign_in(rows, alive, dead) is None,
    decreases rows.len(),
{
    if rows.len() > 0 {
        let init = rows.drop_last();
        assert forall|j: int| 0 <= j < init.len() implies first_foreign(
            #[trigger] init[j],
            alive,
            dead,
        ) is None by {
            assert(init[j] == rows[j]);
        }
        lemma_no_foreign_in(init, alive, dead);
        assert(first_foreign(rows[rows.len() - 1], alive, dead) is None);
    }
}

/// Drawing a window that holds every live cell and reading the frame back
/// with the same glyphs gives the live cells again, moved so that the near
/// corner of the window lies at the origin. The glyphs must differ and must
/// not be white space; where comments are skipped, neither may be the
/// comment marker; and the frame must not be too long to be read.
pub proof fn lemma_draw_then_read(
    cells: Set<Cell>,
    near: Cell,
    far: Cell,
    alive: char,
    dead: char,
    skip_comments: bool,
)
    requires
        forall|c: Cell| #[trigger]
            cells.contains(c) ==> near.0 <= c.0 <= far.0 && near.1 <= c.1 <= far.1,
        alive != dead,
        !is_space(alive),
        !is_space(dead),
        skip_comments ==> alive != COMMENT && dead != COMMENT,
        frame(cells, near, far, alive, dead).len() <= i64::MAX,
    ensures
        read_pattern(frame(cells, near, far, alive, dead), alive, dead, skip_comments) == Ok::<
            Set<Cell>,
            crate::error::AppError,
        >(moved_to_origin(cells, near)),
{
    let x0 = near.0 as int;
    let x1 = far.0 as int;
    let y0 = near.1 as int;
    let height = count(near.1 as int, far.1 as int);
    let width = count(x0, x1);
    let text = frame(cells, near, far, alive, dead);
    lemma_frame_trims_to_its_rows(cells, x0, x1, y0, height, alive, dead);
    let all = lines(trim(text));
    let shown = glyph_rows(cells, x0, width, y0, height, alive, dead);
    assert(all == if x0 <= x1 { shown } else { Seq::<Seq<char>>::empty() });
    assert forall|j: int| 0 <= j < all.len() implies !is_skipped(#[trigger] all[j], skip_comments)
        && first_foreign(all[j], alive, dead) is None by {
        let row = all[j];
        assert(row == glyphs(cells, x0, width, y0 + j, alive, dead));
        assert forall|i: int| 0 <= i < row.len() implies #[trigger] row[i] == alive || row[i]
            == dead by {
            assert(row[i] == glyph(cells, x0 + i, y0 + j, alive, dead));
        }
        lemma_no_foreign(row, alive, dead);
        if row.len() > 0 {
            assert(row[0] == alive || row[0] == dead);
        }
    }
    lemma_nothing_skipped(all, skip_comments);
    lemma_no_foreign_in(all, alive, dead);
    let rows = pattern_rows(text, skip_comments);
    assert(rows == all);
    assert(pattern_cells(rows, alive) =~= moved_to_origin(cells, near)) by {
        assert forall|c: Cell| pattern_cells(rows, alive).contains(c) implies moved_to_origin(
            cells,
            near,
        ).contains(c) by {
            let row = rows[c.1 as int];
            assert(row == glyphs(cells, x0, width, y0 + c.1, alive, dead));
            assert(row[c.0 as int] == glyph(cells, x0 + c.0, y0 + c.1, alive, dead));
        }
        assert forall|c: Cell| moved_to_origin(cells, near).contains(c) implies pattern_cells(
            rows,
            alive,
        ).contains(c) by {
            let there = Cell((c.0 + near.0) as i64, (c.1 + near.1) as i64);
            assert(cells.contains(there));
            assert(near.0 <= there.0 <= far.0 && near.1 <= there.1 <= far.1);
            let row = rows[c.1 as int];
            assert(row == glyphs(cells, x0, width, y0 + c.1, alive, dead));
            assert(row[c.0 as int] == glyph(cells, x0 + c.0, y0 + c.1, alive, dead));
        }
    }
}

} // verus!
