//! Shared value types and the constant vocabulary of the terminal core:
//! cells, events, key codes, colors and attribute bits.

use vstd::prelude::*;

verus! {

/// Bit set selecting how raw input is translated (escape / alt / mouse).
pub type InputMode = i32;
/// Selects the color model used for output.
pub type OutputMode = i32;
/// Discriminates classes of raw terminal events.
pub type EventType = u8;
/// Bit set of event modifiers (alt, motion).
pub type Modifier = u8;
/// Abstract key or mouse-button code.
pub type Key = u16;
/// Color plus style bits of one cell, for foreground or background.
pub type Attribute = u16;

/// Terminal cursor information.
#[derive(Debug)]
pub struct CursorInfo {
    pub visible: bool,
    pub x: i16,
    pub y: i16,
}

/// A pair of coordinates.
pub struct Point {
    pub x: i32,
    pub y: i32,
}

/// Events emitted by the terminal core.
#[derive(Debug, Clone, PartialEq, Eq, Structural)]
pub enum Event {
    /// No event.
    NoEvent,
    /// The terminal was resized; the values are the new size.
    Resize(i32, i32),
    /// Mouse event: coordinates, button, and a modifier that marks motion.
    Mouse(i32, i32, Key, Modifier),
    /// Key pressed: abstract code, decoded character if available, modifier.
    Key(Key, char, Modifier),
}

/// One screen position: a character with its foreground and background.
#[derive(Debug, Clone, Copy, PartialEq, Eq, Structural)]
pub struct Cell {
    pub ch: char,
    pub fg: Attribute,
    pub bg: Attribute,
}

pub const KEY_F1: Key = 0xFFFF;
pub const KEY_F2: Key = 0xFFFE;
pub const KEY_F3: Key = 0xFFFD;
pub const KEY_F4: Key = 0xFFFC;
pub const KEY_F5: Key = 0xFFFB;
pub const KEY_F6: Key = 0xFFFA;
pub const KEY_F7: Key = 0xFFF9;
pub const KEY_F8: Key = 0xFFF8;
pub const KEY_F9: Key = 0xFFF7;
pub const KEY_F10: Key = 0xFFF6;
pub const KEY_F11: Key = 0xFFF5;
pub const KEY_F12: Key = 0xFFF4;
pub const KEY_INSERT: Key = 0xFFF3;
pub const KEY_DELETE: Key = 0xFFF2;
pub const KEY_HOME: Key = 0xFFF1;
pub const KEY_END: Key = 0xFFF0;
pub const KEY_PGUP: Key = 0xFFEF;
pub const KEY_PGDN: Key = 0xFFEE;
pub const KEY_ARROW_UP: Key = 0xFFED;
pub const KEY_ARROW_DOWN: Key = 0xFFEC;
pub const KEY_ARROW_LEFT: Key = 0xFFEB;
pub const KEY_ARROW_RIGHT: Key = 0xFFEA;
pub const KEY_MIN: Key = 0xFFE9;
pub const MOUSE_LEFT: Key = 0xFFE8;
pub const MOUSE_MIDDLE: Key = 0xFFE7;
pub const MOUSE_RIGHT: Key = 0xFFE6;
pub const MOUSE_RELEASE: Key = 0xFFE5;
pub const MOUSE_WHEEL_UP: Key = 0xFFE4;
pub const MOUSE_WHEEL_DOWN: Key = 0xFFE3;

pub const KEY_CTRL_TILDE: Key = 0x00;
pub const KEY_CTRL_2: Key = 0x00;
pub const KEY_CTRL_SPACE: Key = 0x00;
pub const KEY_CTRL_A: Key = 0x01;
pub const KEY_CTRL_B: Key = 0x02;
pub const KEY_CTRL_C: Key = 0x03;
pub const KEY_CTRL_D: Key = 0x04;
pub const KEY_CTRL_E: Key = 0x05;
pub const KEY_CTRL_F: Key = 0x06;
pub const KEY_CTRL_G: Key = 0x07;
pub const KEY_BACKSPACE: Key = 0x08;
pub const KEY_CTRL_H: Key = 0x08;
pub const KEY_TAB: Key = 0x09;
pub const KEY_CTRL_I: Key = 0x09;
pub const KEY_CTRL_J: Key = 0x0A;
pub const KEY_CTRL_K: Key = 0x0B;
pub const KEY_CTRL_L: Key = 0x0C;
pub const KEY_ENTER: Key = 0x0D;
pub const KEY_CTRL_M: Key = 0x0D;
pub const KEY_CTRL_N: Key = 0x0E;
pub const KEY_CTRL_O: Key = 0x0F;
pub const KEY_CTRL_P: Key = 0x10;
pub const KEY_CTRL_Q: Key = 0x11;
pub const KEY_CTRL_R: Key = 0x12;
pub const KEY_CTRL_S: Key = 0x13;
pub const KEY_CTRL_T: Key = 0x14;
pub const KEY_CTRL_U: Key = 0x15;
pub const KEY_CTRL_V: Key = 0x16;
pub const KEY_CTRL_W: Key = 0x17;
pub const KEY_CTRL_X: Key = 0x18;
pub const KEY_CTRL_Y: Key = 0x19;
pub const KEY_CTRL_Z: Key = 0x1A;
pub const KEY_ESC: Key = 0x1B;
pub const KEY_CTRL_LSQ_BRACKET: Key = 0x1B;
pub const KEY_CTRL_3: Key = 0x1B;
pub const KEY_CTRL_4: Key = 0x1C;
pub const KEY_CTRL_BACKSLASH: Key = 0x1C;
pub const KEY_CTRL_5: Key = 0x1D;
pub const KEY_CTRL_RSQ_BRACKET: Key = 0x1D;
pub const KEY_CTRL_6: Key = 0x1E;
pub const KEY_CTRL_7: Key = 0x1F;
pub const KEY_CTRL_SLASH: Key = 0x1F;
pub const KEY_CTRL_UNDERSCORE: Key = 0x1F;
pub const KEY_SPACE: Key = 0x20;
pub const KEY_BACKSPACE_2: Key = 0x7F;
pub const KEY_CTRL_8: Key = 0x7F;

pub const MOD_ALT: Modifier = 0x01;
pub const MOD_MOTION: Modifier = 0x02;

pub const COLOR_DEFAULT: Attribute = 0;
pub const COLOR_BLACK: Attribute = 1;
pub const COLOR_RED: Attribute = 2;
pub const COLOR_GREEN: Attribute = 3;
pub const COLOR_YELLOW: Attribute = 4;
pub const COLOR_BLUE: Attribute = 5;
pub const COLOR_MAGENTA: Attribute = 6;
pub const COLOR_CYAN: Attribute = 7;
pub const COLOR_WHITE: Attribute = 8;

pub const INPUT_ESC: InputMode = 0x01;
pub const INPUT_ALT: InputMode = 0x02;
pub const INPUT_MOUSE: InputMode = 0x04;
pub const INPUT_CURRENT: InputMode = 0;

pub const OUTPUT_CURRENT: OutputMode = 0;
pub const OUTPUT_NORMAL: OutputMode = 1;
pub const OUTPUT_256: OutputMode = 2;
pub const OUTPUT_216: OutputMode = 3;
pub const OUTPUT_GRAYSCALE: OutputMode = 4;

pub const EVENT_KEY: EventType = 0;
pub const EVENT_RESIZE: EventType = 1;
pub const EVENT_MOUSE: EventType = 2;
pub const EVENT_ERROR: EventType = 3;
pub const EVENT_INTERRUPT: EventType = 4;
pub const EVENT_RAW: EventType = 5;
pub const EVENT_NONE: EventType = 6;

pub const ATTR_BOLD: Attribute = 0x0200;
pub const ATTR_UNDERLINE: Attribute = 0x0400;
pub const ATTR_REVERSE: Attribute = 0x0800;

pub const CURSOR_HIDDEN: i32 = -1;

} // verus!
