//! A verified engine for Conway's Game of Life.
//!
//! The crate centres on [`Universe`], a double-buffered automaton state with
//! three boundary policies and incremental change tracking, and on two
//! verified text-format readers that seed it from pattern files.

pub mod cell;
pub mod grid;
pub mod laws;
pub mod parse;
pub mod plaintext;
pub mod rle;
pub mod step;
pub mod text;
pub mod timer;
pub mod universe;

pub use cell::Cell;
pub use cell::EdgeBehavior;
pub use universe::Universe;
pub use universe::DimensionMismatch;
pub use grid::Grid;
pub use grid::ParseError;
pub use grid::ParseErrorKind;
pub use parse::parse_str;
pub use plaintext::parse_plaintext;
pub use plaintext::PlaintextParser;
pub use rle::parse_rle;
pub use rle::RleParser;
pub use timer::Timer;
