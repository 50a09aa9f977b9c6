//! Conway's Game of Life on the lattice of 64-bit integer coordinates.
//!
//! The live population is a sparse set of cells. Every executable function
//! carries a contract over that set, and the rule of the game is a
//! specification function the simulation is proved to follow.

pub mod cell;
pub mod cell_set;
pub mod config;
pub mod control;
pub mod error;
pub mod frame;
pub mod game;
pub mod grid;
pub mod pattern;
pub mod roundtrip;
pub mod rules;
pub mod text;
pub mod viewport;
pub mod widget;

pub use cell::Cell;
pub use cell_set::CellSet;
pub use control::{Action, Command, Key};
pub use config::{Arguments, ConfigSet, GameConfig, GridConfig, View};
pub use error::{AppError, CellSyntax, ErrorView};
pub use game::Game;
pub use grid::Grid;
pub use viewport::{split_int, Viewport};
pub use widget::{Menu, Rect, Sym};
