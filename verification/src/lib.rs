//! A verified core for terminal/console applications.
//!
//! The crate keeps an in-memory model of the screen — a grid of cells with a
//! damage rectangle that tracks the minimal area to push to the real device —
//! and translates raw console input records into a small vocabulary of
//! keyboard, mouse and resize events.

pub mod cellbuf;
pub mod common;
pub mod input;
pub mod intf;
pub mod terminal;
pub mod wincon;

pub use input::{
    click_outcome, fkey_code, input_record_to_event, key_spec, mouse_spec, translate_spec,
    InputRecord, ThreadState, LEFT_ALT_PRESSED, MOUSE_LMB, MOUSE_MMB, MOUSE_RMB,
    RIGHT_ALT_PRESSED, VK_BACK, VK_DELETE, VK_DOWN, VK_END, VK_ESCAPE, VK_F1, VK_F10, VK_F11,
    VK_F12, VK_F2, VK_F3, VK_F4, VK_F5, VK_F6, VK_F7, VK_F8, VK_F9, VK_HOME, VK_INSERT, VK_LEFT,
    VK_NEXT, VK_PRIOR, VK_RETURN, VK_RIGHT, VK_SPACE, VK_TAB, VK_UP,
};
pub use intf::TerminalManager;
pub use terminal::{
    advance_width, char_cell_width, clip_hi, clip_lo, col_cell_changed, col_damage_exact, col_of,
    hdrawn_char, hdraws, lemma_hdraws_in_bounds, row_cell_changed, row_damage_exact, width_step,
    Terminal,
};
pub use wincon::{
    bg_table, cell_attr, cell_to_char_info, color_table_bg, color_table_fg, fg_table, get_ct,
    get_ct_spec, utf16_units, BACKGROUND_BLUE, BACKGROUND_GREEN, BACKGROUND_INTENSITY,
    BACKGROUND_RED, FOREGROUND_BLUE, FOREGROUND_GREEN, FOREGROUND_INTENSITY, FOREGROUND_RED,
};
pub use cellbuf::{
    bounds_has, damage_after, default_cell, flat_idx, grow_damage, lemma_damage_exact_bbox, Bounds,
    CellBuf, CellRect,
};
pub use common::{
    Attribute, Cell, CursorInfo, Event, EventType, InputMode, Key, Modifier, OutputMode, Point,
};
pub use common::{
    ATTR_BOLD, ATTR_REVERSE, ATTR_UNDERLINE, COLOR_BLACK, COLOR_BLUE, COLOR_CYAN, COLOR_DEFAULT,
    COLOR_GREEN, COLOR_MAGENTA, COLOR_RED, COLOR_WHITE, COLOR_YELLOW, CURSOR_HIDDEN, EVENT_ERROR,
    EVENT_INTERRUPT, EVENT_KEY, EVENT_MOUSE, EVENT_NONE, EVENT_RAW, EVENT_RESIZE, INPUT_ALT,
    INPUT_CURRENT, INPUT_ESC, INPUT_MOUSE, OUTPUT_216, OUTPUT_256, OUTPUT_CURRENT,
    OUTPUT_GRAYSCALE, OUTPUT_NORMAL,
};
pub use common::{
    KEY_ARROW_DOWN, KEY_ARROW_LEFT, KEY_ARROW_RIGHT, KEY_ARROW_UP, KEY_BACKSPACE, KEY_BACKSPACE_2,
    KEY_CTRL_2, KEY_CTRL_3, KEY_CTRL_4, KEY_CTRL_5, KEY_CTRL_6, KEY_CTRL_7, KEY_CTRL_8, KEY_CTRL_A,
    KEY_CTRL_B, KEY_CTRL_BACKSLASH, KEY_CTRL_C, KEY_CTRL_D, KEY_CTRL_E, KEY_CTRL_F, KEY_CTRL_G,
    KEY_CTRL_H, KEY_CTRL_I, KEY_CTRL_J, KEY_CTRL_K, KEY_CTRL_L, KEY_CTRL_LSQ_BRACKET, KEY_CTRL_M,
    KEY_CTRL_N, KEY_CTRL_O, KEY_CTRL_P, KEY_CTRL_Q, KEY_CTRL_R, KEY_CTRL_RSQ_BRACKET, KEY_CTRL_S,
    KEY_CTRL_SLASH, KEY_CTRL_SPACE, KEY_CTRL_T, KEY_CTRL_TILDE, KEY_CTRL_U, KEY_CTRL_UNDERSCORE,
    KEY_CTRL_V, KEY_CTRL_W, KEY_CTRL_X, KEY_CTRL_Y, KEY_CTRL_Z, KEY_DELETE, KEY_END, KEY_ENTER,
    KEY_ESC, KEY_F1, KEY_F10, KEY_F11, KEY_F12, KEY_F2, KEY_F3, KEY_F4, KEY_F5, KEY_F6, KEY_F7,
    KEY_F8, KEY_F9, KEY_HOME, KEY_INSERT, KEY_MIN, KEY_PGDN, KEY_PGUP, KEY_SPACE, KEY_TAB,
    MOD_ALT, MOD_MOTION, MOUSE_LEFT, MOUSE_MIDDLE, MOUSE_RELEASE, MOUSE_RIGHT, MOUSE_WHEEL_DOWN,
    MOUSE_WHEEL_UP,
};
