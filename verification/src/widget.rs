//! Rectangles of the screen and what is drawn into them.

use crate::text::{trim, trimmed};
use vstd::prelude::*;

verus! {

/// The quotient of `n` by `d`, rounded towards negative infinity.
pub open spec fn floor_quotient(n: int, d: int) -> int {
    if d > 0 {
        n / d
    } else {
        (-n) / (-d)
    }
}

/// `num_integer::div_floor` on `i16`. The contract claims what the crate
/// documents: the quotient rounded towards negative infinity. A zero divisor
/// and the one quotient that is no `i16`, on which the division panics, are
/// left out. This is taken on trust.
#[verifier::external_body]
fn div_floor(n: i16, d: i16) -> (out: i16)
    requires
        d != 0,
        !(n == i16::MIN && d == -1),
    ensures
        out == floor_quotient(n as int, d as int),
{
    num_integer::div_floor(n, d)
}

/// A rectangle of the screen: its origin, its width and its height.
#[derive(Debug, Clone, Copy, PartialEq, Eq, Structural)]
pub struct Rect {
    x0: u16,
    y0: u16,
    width: u16,
    height: u16,
}

impl Rect {
    /// The origin of the rectangle, its width and its height.
    pub closed spec fn spec_shape(&self) -> (u16, u16, u16, u16) {
        (self.x0, self.y0, self.width, self.height)
    }

    /// The origin of the rectangle and its opposite corner, as unbounded integers.
    pub open spec fn spec_coords(&self) -> (int, int, int, int) {
        let (x0, y0, width, height) = self.spec_shape();
        (x0 as int, y0 as int, x0 + width - 1, y0 + height - 1)
    }

    /// The corners of the rectangle grown by half of `dx` on the left and on
    /// the right and by half of `dy` at the top and at the bottom, the halves
    /// rounded down; negative amounts shrink it.
    pub open spec fn spec_resized(&self, dx: i16, dy: i16) -> (int, int, int, int) {
        let (x0, y0, x1, y1) = self.spec_coords();
        let (hx, hy) = (floor_quotient(dx as int, 2), floor_quotient(dy as int, 2));
        (x0 - hx, y0 - hy, x1 + hx, y1 + hy)
    }

    /// Whether the rectangle can be resized: it has an opposite corner, the
    /// new corners lie on the screen away from its first column and row, and
    /// the new rectangle spans two columns and two rows at least.
    pub open spec fn can_resize(&self, dx: i16, dy: i16) -> bool {
        let (x0, y0, x1, y1) = self.spec_resized(dx, dy);
        &&& 0 <= self.spec_coords().2 <= i16::MAX
        &&& 0 <= self.spec_coords().3 <= i16::MAX
        &&& 0 < x0 < x1 <= i16::MAX
        &&& 0 < y0 < y1 <= i16::MAX
    }

    /// Create a new Rect.
    pub fn new(x0: u16, y0: u16, width: u16, height: u16) -> (out: Rect)
        ensures
            out.spec_shape() == (x0, y0, width, height),
    {
        Rect { x0, y0, width, height }
    }

    /// Retrieve the Rect's origin X, origin Y, width and height.
    #[verifier::when_used_as_spec(spec_shape)]
    pub fn shape(&self) -> (out: (u16, u16, u16, u16))
        ensures
            out == self.spec_shape(),
    {
        (self.x0, self.y0, self.width, self.height)
    }

    /// Retrieve the Rect's origin X and Y and its opposite X and Y.
    pub fn coords(&self) -> (out: (u16, u16, u16, u16))
        requires
            0 <= self.spec_coords().2 <= u16::MAX,
            0 <= self.spec_coords().3 <= u16::MAX,
        ensures
            (out.0 as int, out.1 as int, out.2 as int, out.3 as int) == self.spec_coords(),
    {
        let x1: u32 = self.x0 as u32 + self.width as u32 - 1;
        let y1: u32 = self.y0 as u32 + self.height as u32 - 1;
        (self.x0, self.y0, x1 as u16, y1 as u16)
    }

    /// The rectangle of the given width that stands to the right of this
    /// one, at the same height and as high, and shares its last column.
    pub fn beside(&self, width: u16) -> (out: Rect)
        requires
            0 <= self.spec_coords().2 <= u16::MAX,
        ensures
            out.spec_shape() == (
                self.spec_coords().2 as u16,
                self.spec_shape().1,
                width,
                self.spec_shape().3,
            ),
    {
        let x1: u32 = self.x0 as u32 + self.width as u32 - 1;
        Rect { x0: x1 as u16, y0: self.y0, width, height: self.height }
    }

    /// Whether the Rect can be resized by `dx` and `dy`.
    pub fn resizable(&self, dx: i16, dy: i16) -> (out: bool)
        ensures
            out == self.can_resize(dx, dy),
    {
        let hx: i32 = div_floor(dx, 2) as i32;
        let hy: i32 = div_floor(dy, 2) as i32;
        let x1: i32 = self.x0 as i32 + self.width as i32 - 1;
        let y1: i32 = self.y0 as i32 + self.height as i32 - 1;
        let x0: i32 = self.x0 as i32;
        let y0: i32 = self.y0 as i32;
        0 <= x1 && x1 <= i16::MAX as i32 && 0 <= y1 && y1 <= i16::MAX as i32 && 0 < x0 - hx && x0
            - hx < x1 + hx && x1 + hx <= i16::MAX as i32 && 0 < y0 - hy && y0 - hy < y1 + hy && y1
            + hy <= i16::MAX as i32
    }

    /// Return the Rect grown by half of `dx` on either side and by half of
    /// `dy` at the top and at the bottom.
    pub fn resized(&self, dx: i16, dy: i16) -> (out: Rect)
        requires
            self.can_resize(dx, dy),
        ensures
            out.spec_coords() == self.spec_resized(dx, dy),
            out.spec_shape().0 == self.spec_resized(dx, dy).0,
            out.spec_shape().1 == self.spec_resized(dx, dy).1,
    {
        let (x0, y0, x1, y1) = self.coords();
        let (dx, dy) = (div_floor(dx, 2), div_floor(dy, 2));
        let (x0, y0, x1, y1) = (x0 as i16 - dx, y0 as i16 - dy, x1 as i16 + dx, y1 as i16 + dy);
        Rect { x0: x0 as u16, y0: y0 as u16, width: (x1 - x0 + 1) as u16, height: (y1 - y0 + 1) as u16 }
    }

    /// The text of the box around a rectangle of the given width and
    /// height. Its lines are three columns narrower than the rectangle is
    /// wide, if that leaves any, and there is a line for the top, one for
    /// the bottom and one for each row between the first and the last.
    pub open spec fn box_text(width: u16, height: u16) -> Seq<char> {
        let inner: nat = if width > 3 { (width - 3) as nat } else { 0 };
        let between: nat = if height > 2 { (height - 2) as nat } else { 0 };
        box_line(Sym::BoxTopLeft.glyph(), Sym::BoxHorizontal.glyph(), Sym::BoxTopRight.glyph(), inner)
            + box_lines(between, inner) + box_line(
            Sym::BoxBottomLeft.glyph(),
            Sym::BoxHorizontal.glyph(),
            Sym::BoxBottomRight.glyph(),
            inner,
        )
    }

    /// Draw the box around the Rect.
    pub fn draw_box(&self) -> (out: String)
        ensures
            out@ == Rect::box_text(self.spec_shape().2, self.spec_shape().3),
    {
        let inner: u16 = if self.width > 3 { self.width - 3 } else { 0 };
        let between: u16 = if self.height > 2 { self.height - 2 } else { 0 };
        let mut out = String::new();
        push_line(
            &mut out,
            Sym::BoxTopLeft.to_char(),
            Sym::BoxHorizontal.to_char(),
            Sym::BoxTopRight.to_char(),
            inner,
        );
        let ghost top = out@;
        let mut row: u16 = 0;
        proof {
            assert(top + box_lines(0, inner as nat) =~= top);
        }
        while row < between
            invariant
                row <= between,
                out@ == top + box_lines(row as nat, inner as nat),
            decreases between - row,
        {
            let ghost before = out@;
            push_line(
                &mut out,
                Sym::BoxVertical.to_char(),
                ' ',
                Sym::BoxVertical.to_char(),
                inner,
            );
            proof {
                assert(out@ =~= top + box_lines((row + 1) as nat, inner as nat));
            }
            row += 1;
        }
        push_line(
            &mut out,
            Sym::BoxBottomLeft.to_char(),
            Sym::BoxHorizontal.to_char(),
            Sym::BoxBottomRight.to_char(),
            inner,
        );
        proof {
            assert(out@ =~= Rect::box_text(self.spec_shape().2, self.spec_shape().3));
        }
        out
    }
}

/// One line of a box: a left end, `inner` times the filling, a right end
/// and a line feed.
pub open spec fn box_line(left: char, fill: char, right: char, inner: nat) -> Seq<char> {
    seq![left] + Seq::new(inner, |i: int| fill) + seq![right, '\n']
}

/// The lines between the top and the bottom of a box: `rows` lines of blanks
/// between two vertical bars.
pub open spec fn box_lines(rows: nat, inner: nat) -> Seq<char>
    decreases rows,
{
    if rows == 0 {
        Seq::empty()
    } else {
        box_lines((rows - 1) as nat, inner) + box_line(
            Sym::BoxVertical.glyph(),
            ' ',
            Sym::BoxVertical.glyph(),
            inner,
        )
    }
}

/// Appends one line of a box to `out`.
fn push_line(out: &mut String, left: char, fill: char, right: char, inner: u16)
    ensures
        final(out)@ == old(out)@ + box_line(left, fill, right, inner as nat),
{
    out.push(left);
    let ghost start = out@;
    let mut i: u16 = 0;
    proof {
        assert(start + Seq::new(0nat, |k: int| fill) =~= start);
    }
    while i < inner
        invariant
            i <= inner,
            out@ == start + Seq::new(i as nat, |k: int| fill),
        decreases inner - i,
    {
        out.push(fill);
        proof {
            assert(Seq::new(i as nat, |k: int| fill).push(fill) =~= Seq::new(
                (i + 1) as nat,
                |k: int| fill,
            ));
        }
        i += 1;
    }
    out.push(right);
    out.push('\n');
    proof {
        assert(out@ =~= old(out)@ + box_line(left, fill, right, inner as nat));
    }
}

/// The symbols that boxes are drawn with.
#[derive(Debug, Clone, Copy, PartialEq, Eq, Structural)]
pub enum Sym {
    BoxTopLeft,
    BoxTopRight,
    BoxBottomLeft,
    BoxBottomRight,
    BoxVertical,
    BoxHorizontal,
}

impl Sym {
    /// The character that shows the symbol.
    pub open spec fn glyph(self) -> char {
        match self {
            Sym::BoxTopLeft => '\u{2554}',
            Sym::BoxTopRight => '\u{2557}',
            Sym::BoxBottomLeft => '\u{255A}',
            Sym::BoxBottomRight => '\u{255D}',
            Sym::BoxVertical => '\u{2551}',
            Sym::BoxHorizontal => '\u{2550}',
        }
    }

    /// The character that shows the symbol.
    #[verifier::when_used_as_spec(glyph)]
    pub fn to_char(self) -> (out: char)
        ensures
            out == self.glyph(),
    {
        match self {
            Sym::BoxTopLeft => '\u{2554}',
            Sym::BoxTopRight => '\u{2557}',
            Sym::BoxBottomLeft => '\u{255A}',
            Sym::BoxBottomRight => '\u{255D}',
            Sym::BoxVertical => '\u{2551}',
            Sym::BoxHorizontal => '\u{2550}',
        }
    }
}

/// The commands that the menu lists.
pub const MENU_CMDS: &'static str = "
%     COMMANDS     %
--------------------
next    -->    Space
quit    -->    q/Esc
";

/// The menu: a rectangle with a padding and a margin.
#[derive(Debug, Clone, Copy, PartialEq, Eq, Structural)]
pub struct Menu {
    rect: Rect,
    padding: u16,
    margin: u16,
}

impl Menu {
    /// The rectangle of the menu.
    pub closed spec fn spec_rect(&self) -> Rect {
        self.rect
    }

    /// The padding of the menu.
    pub closed spec fn spec_padding(&self) -> u16 {
        self.padding
    }

    /// The margin of the menu.
    pub closed spec fn spec_margin(&self) -> u16 {
        self.margin
    }

    /// A menu in the given rectangle.
    pub fn new(rect: Rect, padding: u16, margin: u16) -> (out: Menu)
        ensures
            out.spec_rect() == rect,
            out.spec_padding() == padding,
            out.spec_margin() == margin,
    {
        Menu { rect, padding, margin }
    }

    /// The rectangle of the menu.
    pub fn rect(&self) -> (out: &Rect)
        ensures
            *out == self.spec_rect(),
    {
        &self.rect
    }

    /// The margin of the menu.
    #[verifier::when_used_as_spec(spec_margin)]
    pub fn margin(&self) -> (out: u16)
        ensures
            out == self.spec_margin(),
    {
        self.margin
    }

    /// The padding of the menu.
    #[verifier::when_used_as_spec(spec_padding)]
    pub fn padding(&self) -> (out: u16)
        ensures
            out == self.spec_padding(),
    {
        self.padding
    }

    /// The text of the menu: its commands, without the white space around them.
    pub fn draw(&self) -> (out: String)
        ensures
            out@ == trim(MENU_CMDS@),
    {
        let chars = crate::text::chars_of(MENU_CMDS);
        let body = trimmed(chars.as_slice());
        let mut out = String::new();
        let mut i: usize = 0;
        while i < body.len()
            invariant
                i <= body@.len(),
                out@ == body@.take(i as int),
            decreases body@.len() - i,
        {
            out.push(body[i]);
            proof {
                assert(body@.take(i as int).push(body@[i as int]) =~= body@.take(i + 1));
            }
            i += 1;
        }
        proof {
            assert(body@.take(i as int) =~= body@);
        }
        out
    }
}

} // verus!
