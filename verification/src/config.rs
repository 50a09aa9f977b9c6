//! What a grid and a game are configured with.

use crate::error::{AppError, ErrorView};
use crate::text::{
    chars_of, parse_char, parse_single, parse_u64, parse_unsigned, same_text,
};
use vstd::prelude::*;
use vstd::view::View as _;

verus! {

/// The glyph that shows a live cell unless another is chosen.
pub const CHAR_ALIVE: char = '#';

/// The glyph that shows a dead cell unless another is chosen.
pub const CHAR_DEAD: char = '-';

/// How the window that is drawn follows the population.
#[derive(Debug, Clone, Copy, PartialEq, Eq, Structural)]
pub enum View {
    /// The bounding box of the live cells, widened evenly to a minimum size.
    Centered,
    /// A window of fixed size that only scrolling moves.
    Fixed,
    /// A mode that is named but has no behaviour.
    Follow,
}

impl View {
    /// The mode that `name` names, if it names one.
    pub open spec fn named(name: Seq<char>) -> Option<View> {
        if name == "centered"@ {
            Some(View::Centered)
        } else if name == "fixed"@ {
            Some(View::Fixed)
        } else if name == "follow"@ {
            Some(View::Follow)
        } else {
            None
        }
    }

    /// Reads a viewing mode from its lower-case name.
    pub fn from_str(s: &str) -> (out: Result<View, AppError>)
        ensures
            match View::named(s@) {
                Some(view) => out == Ok::<View, AppError>(view),
                None => out matches Err(e) && e@ == ErrorView::InvalidChoice(s@),
            },
    {
        let name = chars_of(s);
        if same_text(name.as_slice(), chars_of("centered").as_slice()) {
            Ok(View::Centered)
        } else if same_text(name.as_slice(), chars_of("fixed").as_slice()) {
            Ok(View::Fixed)
        } else if same_text(name.as_slice(), chars_of("follow").as_slice()) {
            Ok(View::Follow)
        } else {
            Err(AppError::InvalidChoice(s.to_owned()))
        }
    }
}

impl std::str::FromStr for View {
    type Err = AppError;

    /// Reads a viewing mode from its lower-case name, as `View::from_str` does.
    fn from_str(s: &str) -> (out: Result<View, AppError>)
        ensures
            match View::named(s@) {
                Some(view) => out == Ok::<View, AppError>(view),
                None => out matches Err(e) && e@ == ErrorView::InvalidChoice(s@),
            },
    {
        View::from_str(s)
    }
}

/// The configuration of a grid.
#[derive(Debug, PartialEq, Eq)]
pub struct GridConfig {
    /// The text that the grid is read from.
    pub pattern: String,
    /// The glyph of a live cell.
    pub char_alive: char,
    /// The glyph of a dead cell.
    pub char_dead: char,
    /// The viewing mode.
    pub view: View,
    /// The width of the fixed window; zero stands for the natural width.
    pub width: u64,
    /// The height of the fixed window; zero stands for the natural height.
    pub height: u64,
    /// The least width of the centered window.
    pub min_width: u64,
    /// The least height of the centered window.
    pub min_height: u64,
}

impl Clone for GridConfig {
    /// A configuration equal to this one.
    fn clone(&self) -> (out: GridConfig)
        ensures
            out == *self,
    {
        GridConfig {
            pattern: self.pattern.clone(),
            char_alive: self.char_alive,
            char_dead: self.char_dead,
            view: self.view,
            width: self.width,
            height: self.height,
            min_width: self.min_width,
            min_height: self.min_height,
        }
    }
}

impl Default for GridConfig {
    /// No pattern, the usual glyphs, and a centered window of ten by ten.
    fn default() -> (out: GridConfig)
        ensures
            out.pattern@ == Seq::<char>::empty(),
            out.char_alive == CHAR_ALIVE,
            out.char_dead == CHAR_DEAD,
            out.view == View::Centered,
            out.width == 10,
            out.height == 10,
            out.min_width == 10,
            out.min_height == 10,
    {
        GridConfig {
            pattern: String::new(),
            char_alive: CHAR_ALIVE,
            char_dead: CHAR_DEAD,
            view: View::Centered,
            width: 10,
            height: 10,
            min_width: 10,
            min_height: 10,
        }
    }
}

/// The configuration of a game.
#[derive(Debug, Clone, Copy, PartialEq, Eq, Structural)]
pub struct GameConfig {
    /// Whether frames are streamed as plain text.
    pub raw_mode: bool,
    /// The pause between two generations, in milliseconds.
    pub tick_delay_ms: u64,
    /// The glyph of a live cell.
    pub char_alive: char,
    /// The glyph of a dead cell.
    pub char_dead: char,
    /// The viewing mode.
    pub view: View,
    /// The width of the fixed window; zero stands for the natural width.
    pub width: u64,
    /// The height of the fixed window; zero stands for the natural height.
    pub height: u64,
    /// The least width of the centered window.
    pub min_width: u64,
    /// The least height of the centered window.
    pub min_height: u64,
}

impl Default for GameConfig {
    /// Half a second between generations, the usual glyphs, and a centered
    /// window of ten by ten.
    fn default() -> (out: GameConfig)
        ensures
            out == (GameConfig {
                raw_mode: false,
                tick_delay_ms: 500,
                char_alive: CHAR_ALIVE,
                char_dead: CHAR_DEAD,
                view: View::Centered,
                width: 10,
                height: 10,
                min_width: 10,
                min_height: 10,
            }),
    {
        GameConfig {
            raw_mode: false,
            tick_delay_ms: 500,
            char_alive: CHAR_ALIVE,
            char_dead: CHAR_DEAD,
            view: View::Centered,
            width: 10,
            height: 10,
            min_width: 10,
            min_height: 10,
        }
    }
}

/// The configuration of a whole run.
#[derive(Debug, Clone, PartialEq, Eq)]
pub struct ConfigSet {
    /// The configuration of the grid.
    pub grid: GridConfig,
    /// The configuration of the game.
    pub game: GameConfig,
}

/// The arguments of a run, as the text they were given in.
#[derive(Debug, Clone, PartialEq, Eq)]
pub struct Arguments {
    /// Whether frames are streamed as plain text.
    pub raw: bool,
    /// The pause between two generations, in milliseconds.
    pub delay: String,
    /// The glyph of a live cell, if one was chosen.
    pub live_char: Option<String>,
    /// The glyph of a dead cell, if one was chosen.
    pub dead_char: Option<String>,
    /// The name of the viewing mode.
    pub view: String,
    /// The least width of the centered window.
    pub min_width: String,
    /// The least height of the centered window.
    pub min_height: String,
    /// The width of the fixed window.
    pub width: String,
    /// The height of the fixed window.
    pub height: String,
}

/// The glyph that an argument chooses, or `default` where there is none.
pub open spec fn glyph_or(arg: Option<String>, default: char) -> Result<char, ErrorView> {
    match arg {
        None => Ok(default),
        Some(s) => match parse_char(s@) {
            Some(c) => Ok(c),
            None => Err(ErrorView::ParseChar(s@)),
        },
    }
}

/// The number that an argument writes.
pub open spec fn number(arg: String) -> Result<u64, ErrorView> {
    match parse_u64(arg@) {
        Some(n) => Ok(n),
        None => Err(ErrorView::ParseInt(arg@)),
    }
}

/// The viewing mode that an argument names.
pub open spec fn mode(arg: String) -> Result<View, ErrorView> {
    match View::named(arg@) {
        Some(view) => Ok(view),
        None => Err(ErrorView::InvalidChoice(arg@)),
    }
}

/// The first error among the arguments, read in the order delay, glyphs,
/// viewing mode, minimum width and height, width and height.
pub open spec fn first_error(args: Arguments) -> Option<ErrorView> {
    if number(args.delay) is Err {
        Some(number(args.delay)->Err_0)
    } else if glyph_or(args.live_char, CHAR_ALIVE) is Err {
        Some(glyph_or(args.live_char, CHAR_ALIVE)->Err_0)
    } else if glyph_or(args.dead_char, CHAR_DEAD) is Err {
        Some(glyph_or(args.dead_char, CHAR_DEAD)->Err_0)
    } else if mode(args.view) is Err {
        Some(mode(args.view)->Err_0)
    } else if number(args.min_width) is Err {
        Some(number(args.min_width)->Err_0)
    } else if number(args.min_height) is Err {
        Some(number(args.min_height)->Err_0)
    } else if number(args.width) is Err {
        Some(number(args.width)->Err_0)
    } else if number(args.height) is Err {
        Some(number(args.height)->Err_0)
    } else {
        None
    }
}

/// The configuration that arguments without an error describe, for a
/// grid that is read from `pattern`.
pub open spec fn configured(args: Arguments, pattern: String) -> ConfigSet {
    let char_alive = glyph_or(args.live_char, CHAR_ALIVE)->Ok_0;
    let char_dead = glyph_or(args.dead_char, CHAR_DEAD)->Ok_0;
    let view = mode(args.view)->Ok_0;
    let min_width = number(args.min_width)->Ok_0;
    let min_height = number(args.min_height)->Ok_0;
    let width = number(args.width)->Ok_0;
    let height = number(args.height)->Ok_0;
    ConfigSet {
        game: GameConfig {
            raw_mode: args.raw,
            tick_delay_ms: number(args.delay)->Ok_0,
            char_alive,
            char_dead,
            view,
            width,
            height,
            min_width,
            min_height,
        },
        grid: GridConfig {
            pattern,
            char_alive,
            char_dead,
            view,
            width,
            height,
            min_width,
            min_height,
        },
    }
}

/// Reads the number that an argument writes.
fn read_number(arg: &String) -> (out: Result<u64, AppError>)
    ensures
        match number(*arg) {
            Ok(n) => out == Ok::<u64, AppError>(n),
            Err(e) => out matches Err(found) && found@ == e,
        },
{
    match parse_unsigned(chars_of(arg.as_str()).as_slice()) {
        Some(n) => Ok(n),
        None => Err(AppError::ParseInt(arg.clone())),
    }
}

/// Reads the glyph that an argument chooses.
fn read_glyph(arg: &Option<String>, default: char) -> (out: Result<char, AppError>)
    ensures
        match glyph_or(*arg, default) {
            Ok(c) => out == Ok::<char, AppError>(c),
            Err(e) => out matches Err(found) && found@ == e,
        },
{
    match arg {
        None => Ok(default),
        Some(s) => match parse_single(chars_of(s.as_str()).as_slice()) {
            Some(c) => Ok(c),
            None => Err(AppError::ParseChar(s.clone())),
        },
    }
}

impl ConfigSet {
    /// Read the configuration of a run from its arguments and from the
    /// pattern that its grid is read from.
    pub fn from_values(args: &Arguments, pattern: String) -> (out: Result<ConfigSet, AppError>)
        ensures
            match first_error(*args) {
                Some(e) => out matches Err(found) && found@ == e,
                None => out == Ok::<ConfigSet, AppError>(configured(*args, pattern)),
            },
    {
        let tick_delay_ms = match read_number(&args.delay) {
            Ok(n) => n,
            Err(e) => {
                return Err(e);
            },
        };
        let char_alive = match read_glyph(&args.live_char, CHAR_ALIVE) {
            Ok(c) => c,
            Err(e) => {
                return Err(e);
            },
        };
        let char_dead = match read_glyph(&args.dead_char, CHAR_DEAD) {
            Ok(c) => c,
            Err(e) => {
                return Err(e);
            },
        };
        let view = match View::from_str(args.view.as_str()) {
            Ok(view) => view,
            Err(e) => {
                return Err(e);
            },
        };
        let min_width = match read_number(&args.min_width) {
            Ok(n) => n,
            Err(e) => {
                return Err(e);
            },
        };
        let min_height = match read_number(&args.min_height) {
            Ok(n) => n,
            Err(e) => {
                return Err(e);
            },
        };
        let width = match read_number(&args.width) {
            Ok(n) => n,
            Err(e) => {
                return Err(e);
            },
        };
        let height = match read_number(&args.height) {
            Ok(n) => n,
            Err(e) => {
                return Err(e);
            },
        };
        Ok(
            ConfigSet {
                game: GameConfig {
                    raw_mode: args.raw,
                    tick_delay_ms,
                    char_alive,
                    char_dead,
                    view,
                    width,
                    height,
                    min_width,
                    min_height,
                },
                grid: GridConfig {
                    pattern,
                    char_alive,
                    char_dead,
                    view,
                    width,
                    height,
                    min_width,
                    min_height,
                },
            },
        )
    }
}

} // verus!
