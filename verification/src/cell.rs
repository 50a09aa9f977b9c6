//! A point of the lattice and its vector arithmetic.

use crate::error::{AppError, CellSyntax};
use crate::text::{
    chars_of, first_index, is_space, leading_spaces, lemma_first_index_is,
    lemma_show_int_reads_back, lemma_trim_keeps, parse_decimal, parse_i64, position, push_int,
    show_int, trim, trim_start, trimmed,
};
use vstd::prelude::*;
use vstd::slice::slice_subrange;

verus! {

/// A point of the lattice: `Cell(x, y)`.
#[derive(Debug, Clone, Copy, PartialEq, Eq, Hash, Structural)]
pub struct Cell(pub i64, pub i64);

impl Cell {
    /// The componentwise sum, as unbounded integers.
    pub open spec fn sum(self, rhs: Cell) -> (int, int) {
        (self.0 + rhs.0, self.1 + rhs.1)
    }

    /// The componentwise difference, as unbounded integers.
    pub open spec fn difference(self, rhs: Cell) -> (int, int) {
        (self.0 - rhs.0, self.1 - rhs.1)
    }

    /// Whether a pair of unbounded integers is a point of the lattice.
    pub open spec fn representable(p: (int, int)) -> bool {
        i64::MIN <= p.0 <= i64::MAX && i64::MIN <= p.1 <= i64::MAX
    }

    /// A cell that has all eight neighbours inside the lattice.
    pub open spec fn is_interior(self) -> bool {
        i64::MIN < self.0 < i64::MAX && i64::MIN < self.1 < i64::MAX
    }
}

/// Cells are added coordinate by coordinate. Both sums must be coordinates
/// of the lattice.
impl std::ops::Add for Cell {
    type Output = Cell;

    fn add(self, rhs: Cell) -> (out: Cell) {
        Cell(self.0 + rhs.0, self.1 + rhs.1)
    }
}

impl vstd::std_specs::ops::AddSpecImpl for Cell {
    open spec fn obeys_add_spec() -> bool {
        true
    }

    /// What `+` asks of its operands.
    open spec fn add_req(self, rhs: Cell) -> bool {
        Cell::representable(self.sum(rhs))
    }

    /// What `+` returns.
    open spec fn add_spec(self, rhs: Cell) -> Cell {
        Cell((self.0 + rhs.0) as i64, (self.1 + rhs.1) as i64)
    }
}

/// Cells are subtracted coordinate by coordinate. Both differences must be
/// coordinates of the lattice.
impl std::ops::Sub for Cell {
    type Output = Cell;

    fn sub(self, rhs: Cell) -> (out: Cell) {
        Cell(self.0 - rhs.0, self.1 - rhs.1)
    }
}

impl vstd::std_specs::ops::SubSpecImpl for Cell {
    open spec fn obeys_sub_spec() -> bool {
        true
    }

    /// What `-` asks of its operands.
    open spec fn sub_req(self, rhs: Cell) -> bool {
        Cell::representable(self.difference(rhs))
    }

    /// What `-` returns.
    open spec fn sub_spec(self, rhs: Cell) -> Cell {
        Cell((self.0 - rhs.0) as i64, (self.1 - rhs.1) as i64)
    }
}

impl Default for Cell {
    /// The origin.
    fn default() -> (out: Cell)
        ensures
            out == Cell(0, 0),
    {
        Cell(0, 0)
    }
}

/// What a text reads as when taken for a cell. A cell is written
/// `(x, y)`: a pair of decimal integers in round brackets, with a comma
/// between them; white space may stand around the pair and around each
/// number. What follows a second comma is not read.
pub open spec fn parse_cell(s: Seq<char>) -> Result<Cell, CellSyntax> {
    let t = trim(s);
    if t.len() == 0 || t[0] != '(' {
        Err(CellSyntax::NoOpeningParen)
    } else if t.len() < 2 || t.last() != ')' {
        Err(CellSyntax::NoClosingParen)
    } else {
        let inner = t.subrange(1, t.len() - 1);
        let comma = first_index(inner, ',') as int;
        match parse_i64(trim(inner.take(comma))) {
            None => Err(CellSyntax::NotAnInteger),
            Some(x) => if comma >= inner.len() {
                Err(CellSyntax::MissingCoordinate)
            } else {
                let rest = inner.skip(comma + 1);
                match parse_i64(trim(rest.take(first_index(rest, ',') as int))) {
                    None => Err(CellSyntax::NotAnInteger),
                    Some(y) => Ok(Cell(x, y)),
                }
            },
        }
    }
}

/// The text that writes a cell: `(x, y)`.
pub open spec fn show_cell(c: Cell) -> Seq<char> {
    seq!['('] + show_int(c.0 as int) + seq![',', ' '] + show_int(c.1 as int) + seq![')']
}

/// The text that writes a cell reads back as that cell.
pub proof fn lemma_cell_reads_back(c: Cell)
    ensures
        parse_cell(show_cell(c)) == Ok::<Cell, CellSyntax>(c),
{
    let x = show_int(c.0 as int);
    let y = show_int(c.1 as int);
    let t = show_cell(c);
    lemma_show_int_reads_back(c.0);
    lemma_show_int_reads_back(c.1);
    assert(is_space(' ') && !is_space('(') && !is_space(')'));
    assert(t[0] == '(' && t.last() == ')');
    lemma_trim_keeps(t);
    assert(trim(t) == t);
    let inner = t.subrange(1, t.len() - 1);
    assert(inner =~= x + seq![',', ' '] + y);
    assert forall|j: int| 0 <= j < x.len() implies inner[j] != ',' by {
        assert(inner[j] == x[j]);
    }
    assert(inner[x.len() as int] == ',');
    lemma_first_index_is(inner, ',', x.len() as int);
    assert(inner.take(x.len() as int) =~= x);
    lemma_trim_keeps(x);
    assert(parse_i64(trim(inner.take(first_index(inner, ',') as int))) == Some(c.0));
    let rest = inner.skip(x.len() as int + 1);
    assert(rest =~= seq![' '] + y);
    assert forall|j: int| 0 <= j < rest.len() implies rest[j] != ',' by {
        if j > 0 {
            assert(rest[j] == y[j - 1]);
        }
    }
    lemma_first_index_is(rest, ',', rest.len() as int);
    assert(rest.take(rest.len() as int) =~= rest);
    assert(rest.drop_first() =~= y);
    assert(leading_spaces(y) == 0);
    assert(leading_spaces(rest) == 1);
    assert(trim_start(rest) =~= y);
    lemma_trim_keeps(y);
    assert(trim(rest) == y);
    assert(parse_i64(trim(rest.take(first_index(rest, ',') as int))) == Some(c.1));
}

impl Cell {
    /// Writes the cell as `(x, y)`.
    pub fn to_text(&self) -> (out: String)
        ensures
            out@ == show_cell(*self),
    {
        let mut out = String::new();
        out.push('(');
        push_int(&mut out, self.0);
        out.push(',');
        out.push(' ');
        push_int(&mut out, self.1);
        out.push(')');
        proof {
            assert(out@ =~= show_cell(*self));
        }
        out
    }

    /// Reads a cell written as `(x, y)`.
    pub fn from_str(s: &str) -> (out: Result<Cell, AppError>)
        ensures
            out == match parse_cell(s@) {
                Ok(cell) => Ok::<Cell, AppError>(cell),
                Err(e) => Err::<Cell, AppError>(AppError::ParseCell(e)),
            },
    {
        let chars = chars_of(s);
        let t = trimmed(chars.as_slice());
        let n = t.len();
        if n == 0 || t[0] != '(' {
            return Err(AppError::ParseCell(CellSyntax::NoOpeningParen));
        }
        if n < 2 || t[n - 1] != ')' {
            return Err(AppError::ParseCell(CellSyntax::NoClosingParen));
        }
        let inner = slice_subrange(t, 1, n - 1);
        let comma = position(inner, ',');
        let x = match parse_decimal(trimmed(slice_subrange(inner, 0, comma))) {
            Some(x) => x,
            None => {
                return Err(AppError::ParseCell(CellSyntax::NotAnInteger));
            },
        };
        if comma == inner.len() {
            return Err(AppError::ParseCell(CellSyntax::MissingCoordinate));
        }
        let rest = slice_subrange(inner, comma + 1, inner.len());
        let end = position(rest, ',');
        match parse_decimal(trimmed(slice_subrange(rest, 0, end))) {
            Some(y) => Ok(Cell(x, y)),
            None => Err(AppError::ParseCell(CellSyntax::NotAnInteger)),
        }
    }
}

impl std::str::FromStr for Cell {
    type Err = AppError;

    /// Reads a cell written as `(x, y)`, as `Cell::from_str` does.
    fn from_str(s: &str) -> (out: Result<Cell, AppError>)
        ensures
            out == match parse_cell(s@) {
                Ok(cell) => Ok::<Cell, AppError>(cell),
                Err(e) => Err::<Cell, AppError>(AppError::ParseCell(e)),
            },
    {
        Cell::from_str(s)
    }
}

} // verus!
