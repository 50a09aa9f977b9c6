//! The errors that reading text can give.

use vstd::prelude::*;

verus! {

/// Why a piece of text is not a coordinate pair.
#[derive(Debug, Clone, Copy, PartialEq, Eq, Structural)]
pub enum CellSyntax {
    /// The text does not begin with `(`.
    NoOpeningParen,
    /// The text does not end with `)`.
    NoClosingParen,
    /// There is no comma, and so no second coordinate.
    MissingCoordinate,
    /// A coordinate is not a decimal integer of 64 bits.
    NotAnInteger,
}

/// An error of the library.
#[derive(Debug, Clone, PartialEq, Eq)]
pub enum AppError {
    /// Text that should be a cell is malformed.
    ParseCell(CellSyntax),
    /// A pattern holds a character that is neither of its two glyphs.
    UnknownChar(char),
    /// A pattern is too long for its rows and columns to be coordinates.
    PatternTooLarge,
    /// Text that should be an unsigned integer is none.
    ParseInt(String),
    /// Text that should be a single character is none.
    ParseChar(String),
    /// A name that is no viewing mode.
    InvalidChoice(String),
    /// Any other invalid input, with a message.
    Msg(String),
}

/// An error as a value of mathematics: what an `AppError` carries as text
/// is a sequence of characters here.
pub enum ErrorView {
    ParseCell(CellSyntax),
    UnknownChar(char),
    PatternTooLarge,
    ParseInt(Seq<char>),
    ParseChar(Seq<char>),
    InvalidChoice(Seq<char>),
    Msg(Seq<char>),
}

impl View for AppError {
    type V = ErrorView;

    /// The error with its text as sequences of characters.
    open spec fn view(&self) -> ErrorView {
        match *self {
            AppError::ParseCell(e) => ErrorView::ParseCell(e),
            AppError::UnknownChar(c) => ErrorView::UnknownChar(c),
            AppError::PatternTooLarge => ErrorView::PatternTooLarge,
            AppError::ParseInt(s) => ErrorView::ParseInt(s@),
            AppError::ParseChar(s) => ErrorView::ParseChar(s@),
            AppError::InvalidChoice(s) => ErrorView::InvalidChoice(s@),
            AppError::Msg(s) => ErrorView::Msg(s@),
        }
    }
}

impl AppError {
    /// An error that carries `s` as its message.
    pub fn new(s: &str) -> (out: AppError)
        ensures
            out@ == ErrorView::Msg(s@),
    {
        AppError::Msg(s.to_owned())
    }
}

} // verus!
