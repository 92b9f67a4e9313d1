//! The record that the host keeps of its one pseudoterminal.

use crate::size::TerminalSize;
use vstd::prelude::*;

verus! {

/// What the host knows of its pseudoterminal: the size that it last gave
/// it.
#[derive(Clone, Copy, Debug, PartialEq, Eq, Structural)]
pub struct PtySession {
    size: TerminalSize,
}

impl PtySession {
    /// The size that the terminal has.
    pub closed spec fn current_size(self) -> TerminalSize {
        self.size
    }

    /// The record of a pseudoterminal opened with `rows` lines and `cols`
    /// columns.
    pub fn initialize(rows: u16, cols: u16) -> (session: PtySession)
        ensures
            session.current_size() == TerminalSize::of_cells(rows, cols),
    {
        PtySession { size: TerminalSize::cells(rows, cols) }
    }

    /// The size that the terminal has.
    pub fn size(&self) -> (size: TerminalSize)
        ensures
            size == self.current_size(),
    {
        self.size
    }

    /// Records that the terminal now has `rows` lines and `cols` columns,
    /// whatever size it had, and returns the size to report to the system.
    pub fn resize(&mut self, rows: u16, cols: u16) -> (size: TerminalSize)
        ensures
            size == TerminalSize::of_cells(rows, cols),
            final(self).current_size() == size,
    {
        let size = TerminalSize::cells(rows, cols);
        self.size = size;
        size
    }
}

} // verus!
