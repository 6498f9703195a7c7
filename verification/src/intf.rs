//! The interface every real terminal backend implements.

use vstd::prelude::*;

use crate::cellbuf::CellBuf;
use crate::common::{CursorInfo, Point};

verus! {

/// Every virtual-terminal backend must be able to write a buffer to the real
/// terminal, report the terminal size, and get or set the cursor position.
/// Every operation returns `Result`; the error is a message from the device.
/// Nothing is promised of the device's answers: callers state what holds
/// whatever comes back.
pub trait TerminalManager {
    /// Writes the damaged part of `buf` to the real terminal.
    fn write(&self, buf: &CellBuf) -> Result<(), String>
        requires
            buf.wf(),
    ;

    /// Returns the terminal size.
    fn size(&self) -> Result<Point, String>;

    /// Moves the terminal cursor.
    fn set_cursor_pos(&self, x: i16, y: i16) -> Result<(), String>;

    /// Returns the current cursor position.
    fn get_cursor_pos(&self) -> Result<CursorInfo, String>;
}

} // verus!
