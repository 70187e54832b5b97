//! Immutable pattern storage and structured parse failures.

use vstd::prelude::*;
use crate::cell::Cell;

verus! {

/// An immutable rectangular snapshot of cells, row-major, used to seed a
/// universe or to hand a pattern around.
#[derive(Debug, Clone, PartialEq, Eq)]
pub struct Grid {
    pub width: usize,
    pub height: usize,
    pub cells: Vec<Cell>,
}

impl Grid {
    /// A grid is well formed when it holds exactly `width * height` cells.
    pub open spec fn wf(&self) -> bool {
        self.cells@.len() == self.width as int * self.height as int
    }

    /// The text projection of the grid: `'.'` for dead, `'O'` for alive, one
    /// newline-terminated line per row.  A pure read.
    pub fn render(&self) -> (s: String)
        requires
            self.wf(),
        ensures
            s@ == crate::text::text_grid(
                self.cells@,
                self.width as int,
                self.height as int,
                '.',
                'O',
            ),
    {
        proof {
            reveal_strlit(".");
            reveal_strlit("O");
        }
        crate::text::render_cells(&self.cells, self.width, self.height, ".", "O")
    }
}

/// What kind of failure stopped a parse.
#[derive(Clone, Copy, Debug, PartialEq, Eq, Structural)]
pub enum ParseErrorKind {
    /// The text does not follow the grammar of the format being read.
    Syntax,
    /// The text is well formed but describes a grid the engine cannot hold:
    /// its dimensions overflow the machine, or its cells overrun the
    /// dimensions it declares.
    Dimensions,
    /// No known format recognises the text.
    UnrecognizedFormat,
    /// The input bytes are not valid UTF-8 text.
    InvalidUtf8,
}

/// A structured description of a failed parse: where the input stopped
/// making sense, and what kind of failure it was.
#[derive(Clone, Copy, Debug, PartialEq, Eq, Structural)]
pub struct ParseError {
    /// Offset, in characters from the start of the input, at or before which
    /// the failure lies.
    pub at: usize,
    /// What went wrong.
    pub kind: ParseErrorKind,
}

} // verus!
