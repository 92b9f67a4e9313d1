//! The size of the terminal's display area.

use vstd::prelude::*;

verus! {

/// Rows of the terminal at startup.
pub const STARTUP_ROWS: u16 = 24;

/// Columns of the terminal at startup.
pub const STARTUP_COLS: u16 = 80;

/// The size of the visible display area: lines and columns of text, and
/// the size of a cell in pixels where the system knows one.
#[derive(Clone, Copy, Debug, PartialEq, Eq, Structural)]
pub struct TerminalSize {
    pub rows: u16,
    pub cols: u16,
    pub pixel_width: u16,
    pub pixel_height: u16,
}

impl TerminalSize {
    /// A size given in text cells alone: no pixel size is claimed.
    pub open spec fn of_cells(rows: u16, cols: u16) -> TerminalSize {
        TerminalSize { rows, cols, pixel_width: 0, pixel_height: 0 }
    }

    /// A size of `rows` lines and `cols` columns, with pixel sizes zero.
    pub fn cells(rows: u16, cols: u16) -> (size: TerminalSize)
        ensures
            size == TerminalSize::of_cells(rows, cols),
    {
        TerminalSize { rows, cols, pixel_width: 0, pixel_height: 0 }
    }

    /// The size that a terminal has when the application starts.
    pub fn startup() -> (size: TerminalSize)
        ensures
            size == TerminalSize::of_cells(STARTUP_ROWS, STARTUP_COLS),
    {
        TerminalSize::cells(STARTUP_ROWS, STARTUP_COLS)
    }
}

} // verus!
