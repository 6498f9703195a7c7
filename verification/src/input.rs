//! The input translator: a pure state machine that converts one raw console
//! input record into zero or one abstract [`Event`].
//!
//! The raw record is modeled by [`InputRecord`], which holds as plain values
//! exactly what the translation reads from the console's own record type.
//! All persistent state lives in [`ThreadState`], owned by the listener.

use vstd::prelude::*;

use crate::common::{
    Event, InputMode, Key, Modifier, INPUT_ALT, INPUT_ESC, KEY_ARROW_DOWN, KEY_ARROW_LEFT,
    KEY_ARROW_RIGHT, KEY_ARROW_UP, KEY_BACKSPACE, KEY_BACKSPACE_2, KEY_CTRL_2, KEY_CTRL_3,
    KEY_CTRL_4, KEY_CTRL_5, KEY_CTRL_6, KEY_CTRL_7, KEY_CTRL_8, KEY_CTRL_A, KEY_CTRL_RSQ_BRACKET,
    KEY_CTRL_SPACE, KEY_DELETE, KEY_END, KEY_ENTER, KEY_ESC, KEY_F1, KEY_F10, KEY_F11, KEY_F12,
    KEY_F2, KEY_F3, KEY_F4, KEY_F5, KEY_F6, KEY_F7, KEY_F8, KEY_F9, KEY_HOME, KEY_INSERT,
    KEY_PGDN, KEY_PGUP, KEY_SPACE, KEY_TAB, MOD_ALT, MOD_MOTION, MOUSE_LEFT, MOUSE_MIDDLE,
    MOUSE_RELEASE, MOUSE_RIGHT, MOUSE_WHEEL_DOWN, MOUSE_WHEEL_UP,
};

verus! {

/// Raw bitmask bit for the left mouse button.
pub const MOUSE_LMB: u32 = 0x1;
/// Raw bitmask bit for the right mouse button.
pub const MOUSE_RMB: u32 = 0x2;
/// Raw bitmask bits treated as the middle mouse button.
pub const MOUSE_MMB: u32 = 0x4 | 0x8 | 0x10;

/// Virtual key codes of the console keyboard, as the device reports them.
pub const VK_BACK: u16 = 0x08;
pub const VK_TAB: u16 = 0x09;
pub const VK_RETURN: u16 = 0x0D;
pub const VK_ESCAPE: u16 = 0x1B;
pub const VK_SPACE: u16 = 0x20;
pub const VK_PRIOR: u16 = 0x21;
pub const VK_NEXT: u16 = 0x22;
pub const VK_END: u16 = 0x23;
pub const VK_HOME: u16 = 0x24;
pub const VK_LEFT: u16 = 0x25;
pub const VK_UP: u16 = 0x26;
pub const VK_RIGHT: u16 = 0x27;
pub const VK_DOWN: u16 = 0x28;
pub const VK_INSERT: u16 = 0x2D;
pub const VK_DELETE: u16 = 0x2E;
pub const VK_F1: u16 = 0x70;
pub const VK_F2: u16 = 0x71;
pub const VK_F3: u16 = 0x72;
pub const VK_F4: u16 = 0x73;
pub const VK_F5: u16 = 0x74;
pub const VK_F6: u16 = 0x75;
pub const VK_F7: u16 = 0x76;
pub const VK_F8: u16 = 0x77;
pub const VK_F9: u16 = 0x78;
pub const VK_F10: u16 = 0x79;
pub const VK_F11: u16 = 0x7A;
pub const VK_F12: u16 = 0x7B;

/// Control-key-state bit for the right alt key being held.
pub const RIGHT_ALT_PRESSED: u32 = 0x0001;
/// Control-key-state bit for the left alt key being held.
pub const LEFT_ALT_PRESSED: u32 = 0x0002;

/// One raw input record, holding as plain values what the translator reads
/// from the console's input record.
#[derive(Debug, Clone, Copy)]
pub enum InputRecord {
    /// The console buffer changed size.
    WindowBufferSize { width: i16, height: i16 },
    /// A mouse sample: the event class, the raw pressed-button bitmask with
    /// the wheel delta in its high bits, and the pointer position.
    Mouse { event_flags: u32, button_state: u32, x: i16, y: i16 },
    /// A keyboard sample.
    Key {
        key_down: bool,
        repeat_count: u16,
        virtual_key_code: u16,
        unicode_char: u16,
        control_key_state: u32,
    },
    /// Any record class the translator ignores.
    Other,
}

/// The persistent state of the keyboard and mouse processor.
#[derive(Debug, Clone, PartialEq, Eq, Structural)]
pub struct ThreadState {
    /// The raw button bitmask of the previous mouse sample.
    pub last_state: u32,
    /// Pointer position of the previous motion sample.
    pub last_x: i16,
    /// Pointer position of the previous motion sample.
    pub last_y: i16,
    /// The button reported by the previous mouse event.
    pub last_button: Key,
    /// The button of the most recent press.
    pub last_button_pressed: Key,
    /// Whether an escape key-down is buffered, waiting to become an alt
    /// modifier on the next key.
    pub alt_mode_esc: bool,
    /// The input mode bits the translator was configured with.
    pub input_mode: InputMode,
    /// The repeat count of the last keyboard record.
    pub repeat_count: u16,
}

impl ThreadState {
    /// The state a fresh translator starts from.
    pub fn new(mode: InputMode) -> (r: ThreadState)
        ensures
            r == (ThreadState {
                last_state: 0,
                last_x: 0xFF,
                last_y: 0xFF,
                last_button: MOUSE_RELEASE,
                last_button_pressed: 0,
                alt_mode_esc: false,
                input_mode: mode,
                repeat_count: 0,
            }),
    {
        ThreadState {
            last_state: 0,
            last_x: 0xFF,
            last_y: 0xFF,
            last_button: MOUSE_RELEASE,
            last_button_pressed: 0,
            alt_mode_esc: false,
            input_mode: mode,
            repeat_count: 0,
        }
    }
}

/// The button transition encoded by a click sample: compares the previous
/// and current bitmasks button by button, releases before presses — so a
/// single sample encoding a simultaneous press and release resolves to the
/// release — and left before right before middle within each class; `None`
/// when no button changed. The second component tells whether the
/// transition is a press.
pub open spec fn click_outcome(last: u32, cs: u32) -> Option<(Key, bool)> {
    if last & MOUSE_LMB != 0 && cs & MOUSE_LMB == 0 {
        Option::Some((MOUSE_RELEASE, false))
    } else if last & MOUSE_RMB != 0 && cs & MOUSE_RMB == 0 {
        Option::Some((MOUSE_RELEASE, false))
    } else if last & MOUSE_MMB != 0 && cs & MOUSE_MMB == 0 {
        Option::Some((MOUSE_RELEASE, false))
    } else if last & MOUSE_LMB == 0 && cs & MOUSE_LMB != 0 {
        Option::Some((MOUSE_LEFT, true))
    } else if last & MOUSE_RMB == 0 && cs & MOUSE_RMB != 0 {
        Option::Some((MOUSE_RIGHT, true))
    } else if last & MOUSE_MMB == 0 && cs & MOUSE_MMB != 0 {
        Option::Some((MOUSE_MIDDLE, true))
    } else {
        Option::None
    }
}

/// What a mouse sample translates to: a press or release event on a button
/// transition, a motion event only while a button is held and the pointer
/// moved, a wheel event from the delta bits, and nothing otherwise.
pub open spec fn mouse_spec(s: ThreadState, flags: u32, bstate: u32, mx: i16, my: i16) -> (
    Event,
    ThreadState,
) {
    if flags == 0 || flags == 2 {
        match click_outcome(s.last_state, bstate) {
            Option::None => (Event::NoEvent, ThreadState { last_state: bstate, ..s }),
            Option::Some((b, press)) => (
                Event::Mouse(mx as i32, my as i32, b, 0),
                ThreadState {
                    last_state: bstate,
                    last_button: b,
                    last_button_pressed: if press {
                        b
                    } else {
                        s.last_button_pressed
                    },
                    ..s
                },
            ),
        }
    } else if flags == 1 {
        if s.last_state != 0 && (s.last_x != mx || s.last_y != my) {
            (
                Event::Mouse(mx as i32, my as i32, s.last_button, MOD_MOTION),
                ThreadState { last_x: mx, last_y: my, ..s },
            )
        } else {
            (Event::NoEvent, s)
        }
    } else if flags == 4 {
        let n = (bstate >> 16) as i16;
        let k = if n > 0 {
            MOUSE_WHEEL_UP
        } else {
            MOUSE_WHEEL_DOWN
        };
        (Event::Mouse(mx as i32, my as i32, k, 0), ThreadState { last_x: mx, last_y: my, ..s })
    } else {
        (Event::NoEvent, s)
    }
}

/// The abstract code of a function key.
pub open spec fn fkey_code(vk: u16) -> Key {
    if vk == VK_F1 {
        KEY_F1
    } else if vk == VK_F2 {
        KEY_F2
    } else if vk == VK_F3 {
        KEY_F3
    } else if vk == VK_F4 {
        KEY_F4
    } else if vk == VK_F5 {
        KEY_F5
    } else if vk == VK_F6 {
        KEY_F6
    } else if vk == VK_F7 {
        KEY_F7
    } else if vk == VK_F8 {
        KEY_F8
    } else if vk == VK_F9 {
        KEY_F9
    } else if vk == VK_F10 {
        KEY_F10
    } else if vk == VK_F11 {
        KEY_F11
    } else {
        KEY_F12
    }
}

/// The abstract code of a navigation or editing key, `0` when the virtual
/// key maps to none. The escape key is handled by the caller when alt-escape
/// mode takes it; here it maps to `KEY_ESC` only in raw-escape mode.
///
/// `alt_held` gates the control-style variants (the second backspace code,
/// control-space): the raw stream's handling reads the alt bits of the
/// control-key state for this gate, a quirk of the device handling that is
/// preserved here, not resolved.
pub open spec fn nav_key_code(vk: u16, alt_held: bool, mode: InputMode) -> Key {
    if vk == VK_INSERT {
        KEY_INSERT
    } else if vk == VK_DELETE {
        KEY_DELETE
    } else if vk == VK_HOME {
        KEY_HOME
    } else if vk == VK_END {
        KEY_END
    } else if vk == VK_PRIOR {
        KEY_PGUP
    } else if vk == VK_NEXT {
        KEY_PGDN
    } else if vk == VK_UP {
        KEY_ARROW_UP
    } else if vk == VK_DOWN {
        KEY_ARROW_DOWN
    } else if vk == VK_LEFT {
        KEY_ARROW_LEFT
    } else if vk == VK_RIGHT {
        KEY_ARROW_RIGHT
    } else if vk == VK_BACK {
        if alt_held {
            KEY_BACKSPACE_2
        } else {
            KEY_BACKSPACE
        }
    } else if vk == VK_TAB {
        KEY_TAB
    } else if vk == VK_RETURN {
        KEY_ENTER
    } else if vk == VK_ESCAPE {
        if mode & INPUT_ESC != 0 {
            KEY_ESC
        } else {
            0
        }
    } else if vk == VK_SPACE {
        if alt_held {
            KEY_CTRL_SPACE
        } else {
            KEY_SPACE
        }
    } else {
        0
    }
}

/// The control-range code reached through the secondary virtual-key table,
/// `0` when none applies. The second component is true when the combination
/// buffers an escape instead (alt-escape mode on the digit-three key).
pub open spec fn ctrl_vk_code(vk: u16, mode: InputMode) -> (Key, bool) {
    if vk == 192 || vk == 50 {
        (KEY_CTRL_2, false)
    } else if vk == 51 {
        if mode & INPUT_ALT != 0 {
            (0, true)
        } else {
            (KEY_CTRL_3, false)
        }
    } else if vk == 52 {
        (KEY_CTRL_4, false)
    } else if vk == 53 {
        (KEY_CTRL_5, false)
    } else if vk == 54 {
        (KEY_CTRL_6, false)
    } else if vk == 55 || vk == 189 || vk == 191 {
        (KEY_CTRL_7, false)
    } else if vk == 56 || vk == 8 {
        (KEY_CTRL_8, false)
    } else {
        (0, false)
    }
}

/// The character a single console wide character decodes to: the character
/// with that code, or the replacement character for an unpaired surrogate.
pub open spec fn wide_lossy_char(u: u16) -> char {
    if 0xD800 <= u < 0xE000 {
        '\u{FFFD}'
    } else {
        (u as u32) as char
    }
}

/// What remains of a key sample after the fixed tables: the raw character,
/// passed through when present, with the key code `0`.
pub open spec fn unicode_tail_spec(s: ThreadState, uc: u16, modif: Modifier) -> (
    Event,
    ThreadState,
) {
    if uc != 0 {
        (Event::Key(0, wide_lossy_char(uc), modif), s)
    } else {
        (Event::NoEvent, s)
    }
}

/// What a key sample translates to, given the state after the alt-escape
/// buffering was resolved into `modif`. `alt_held` — the alt bits of the raw
/// control-key state — gates the control-range arms; see [`nav_key_code`].
pub open spec fn key_tables_spec(
    s: ThreadState,
    vk: u16,
    uc: u16,
    modif: Modifier,
    alt_held: bool,
) -> (Event, ThreadState) {
    if VK_F1 <= vk <= VK_F12 {
        (Event::Key(fkey_code(vk), '\0', modif), s)
    } else if vk <= VK_DELETE && vk == VK_ESCAPE && s.input_mode & INPUT_ESC == 0
        && s.input_mode & INPUT_ALT != 0 {
        (Event::NoEvent, ThreadState { alt_mode_esc: true, ..s })
    } else if vk <= VK_DELETE && nav_key_code(vk, alt_held, s.input_mode) != 0 {
        (Event::Key(nav_key_code(vk, alt_held, s.input_mode), '\0', modif), s)
    } else if alt_held {
        if KEY_CTRL_A <= uc <= KEY_CTRL_RSQ_BRACKET {
            if s.input_mode & INPUT_ALT != 0 && uc == KEY_ESC {
                (Event::NoEvent, ThreadState { alt_mode_esc: false, ..s })
            } else {
                (Event::Key(uc, '\0', modif), s)
            }
        } else {
            let (k, esc) = ctrl_vk_code(vk, s.input_mode);
            let s2 = if esc {
                ThreadState { alt_mode_esc: true, ..s }
            } else {
                s
            };
            if k != 0 {
                (Event::Key(k, '\0', modif), s2)
            } else {
                unicode_tail_spec(s2, uc, modif)
            }
        }
    } else {
        unicode_tail_spec(s, uc, modif)
    }
}

/// What a whole key sample translates to: nothing on key release; otherwise
/// a buffered escape or a held alt key becomes the alt modifier, and the
/// fixed tables map the virtual key to an abstract code, with printable
/// input passed through unchanged.
pub open spec fn key_spec(
    s: ThreadState,
    key_down: bool,
    repeat: u16,
    vk: u16,
    uc: u16,
    cks: u32,
) -> (Event, ThreadState) {
    let s1 = ThreadState { repeat_count: repeat, ..s };
    if !key_down {
        (Event::NoEvent, s1)
    } else {
        let alt_on = s.input_mode & INPUT_ALT != 0;
        let alt_held = cks & (LEFT_ALT_PRESSED | RIGHT_ALT_PRESSED) != 0;
        let modif: Modifier = if alt_on && (s.alt_mode_esc || alt_held) {
            MOD_ALT
        } else {
            0
        };
        let s2 = if alt_on && s.alt_mode_esc {
            ThreadState { alt_mode_esc: false, ..s1 }
        } else {
            s1
        };
        key_tables_spec(s2, vk, uc, modif, alt_held)
    }
}

/// What one raw input record translates to: the event, or no event, and the
/// translator state afterwards.
pub open spec fn translate_spec(irec: InputRecord, s: ThreadState) -> (Event, ThreadState) {
    let s0 = ThreadState { repeat_count: 1, ..s };
    match irec {
        InputRecord::WindowBufferSize { width, height } => (
            Event::Resize(width as i32, height as i32),
            s0,
        ),
        InputRecord::Mouse { event_flags, button_state, x, y } => mouse_spec(
            s0,
            event_flags,
            button_state,
            x,
            y,
        ),
        InputRecord::Key {
            key_down,
            repeat_count,
            virtual_key_code,
            unicode_char,
            control_key_state,
        } => key_spec(
            s0,
            key_down,
            repeat_count,
            virtual_key_code,
            unicode_char,
            control_key_state,
        ),
        InputRecord::Other => (Event::NoEvent, s0),
    }
}

/// Relies on std's `char::from_u32`: it returns the character with the given
/// code exactly when the code is a Unicode scalar value, that is, neither a
/// surrogate nor above the last code point.
pub assume_specification[ char::from_u32 ](v: u32) -> (r: Option<char>)
    ensures
        r is Some <==> (v < 0xD800 || (0xE000 <= v && v <= 0x10FFFF)),
        r matches Some(c) ==> c as u32 == v,
;

proof fn lemma_char_roundtrip(c: char)
    ensures
        ((c as u32) as char) == c,
{
}

/// Decodes one console wide character, replacing an unpaired surrogate with
/// the replacement character, as a lossy transcoding of the single unit does.
fn decode_wide_char(u: u16) -> (c: char)
    ensures
        c == wide_lossy_char(u),
{
    if 0xD800 <= u && u < 0xE000 {
        '\u{FFFD}'
    } else {
        match char::from_u32(u as u32) {
            Some(c) => {
                proof {
                    lemma_char_roundtrip(c);
                }
                c
            },
            None => '\u{FFFD}',
        }
    }
}

/// Translates one raw input record into zero or one event, updating the
/// translator state, exactly as [`translate_spec`] describes.
pub fn input_record_to_event(irec: InputRecord, state: &mut ThreadState) -> (ev: Event)
    ensures
        ev == translate_spec(irec, *old(state)).0,
        *final(state) == translate_spec(irec, *old(state)).1,
{
    state.repeat_count = 1;
    match irec {
        InputRecord::WindowBufferSize { width, height } => Event::Resize(
            width as i32,
            height as i32,
        ),
        InputRecord::Mouse { event_flags, button_state, x, y } => {
            if event_flags == 0 || event_flags == 2 {
                let cs = button_state;
                if state.last_state & MOUSE_LMB != 0 && cs & MOUSE_LMB == 0 {
                    state.last_button = MOUSE_RELEASE;
                } else if state.last_state & MOUSE_RMB != 0 && cs & MOUSE_RMB == 0 {
                    state.last_button = MOUSE_RELEASE;
                } else if state.last_state & MOUSE_MMB != 0 && cs & MOUSE_MMB == 0 {
                    state.last_button = MOUSE_RELEASE;
                } else if state.last_state & MOUSE_LMB == 0 && cs & MOUSE_LMB != 0 {
                    state.last_button = MOUSE_LEFT;
                    state.last_button_pressed = MOUSE_LEFT;
                } else if state.last_state & MOUSE_RMB == 0 && cs & MOUSE_RMB != 0 {
                    state.last_button = MOUSE_RIGHT;
                    state.last_button_pressed = MOUSE_RIGHT;
                } else if state.last_state & MOUSE_MMB == 0 && cs & MOUSE_MMB != 0 {
                    state.last_button = MOUSE_MIDDLE;
                    state.last_button_pressed = MOUSE_MIDDLE;
                } else {
                    state.last_state = cs;
                    return Event::NoEvent;
                }
                state.last_state = cs;
                Event::Mouse(x as i32, y as i32, state.last_button, 0)
            } else if event_flags == 1 {
                if state.last_state != 0 && (state.last_x != x || state.last_y != y) {
                    state.last_x = x;
                    state.last_y = y;
                    Event::Mouse(x as i32, y as i32, state.last_button, MOD_MOTION)
                } else {
                    Event::NoEvent
                }
            } else if event_flags == 4 {
                let n = (button_state >> 16) as i16;
                let k = if n > 0 {
                    MOUSE_WHEEL_UP
                } else {
                    MOUSE_WHEEL_DOWN
                };
                state.last_x = x;
                state.last_y = y;
                Event::Mouse(x as i32, y as i32, k, 0)
            } else {
                Event::NoEvent
            }
        },
        InputRecord::Key {
            key_down,
            repeat_count,
            virtual_key_code,
            unicode_char,
            control_key_state,
        } => {
            state.repeat_count = repeat_count;
            if !key_down {
                return Event::NoEvent;
            }
            let mut modif: Modifier = 0;
            if state.input_mode & INPUT_ALT != 0 {
                if state.alt_mode_esc {
                    modif = MOD_ALT;
                    state.alt_mode_esc = false;
                }
                if control_key_state & (LEFT_ALT_PRESSED | RIGHT_ALT_PRESSED) != 0 {
                    modif = MOD_ALT;
                }
            }
            let alt_key_held = control_key_state & (LEFT_ALT_PRESSED | RIGHT_ALT_PRESSED) != 0;

            let mut key: Key = 0;
            if virtual_key_code >= VK_F1 && virtual_key_code <= VK_F12 {
                key = if virtual_key_code == VK_F1 {
                    KEY_F1
                } else if virtual_key_code == VK_F2 {
                    KEY_F2
                } else if virtual_key_code == VK_F3 {
                    KEY_F3
                } else if virtual_key_code == VK_F4 {
                    KEY_F4
                } else if virtual_key_code == VK_F5 {
                    KEY_F5
                } else if virtual_key_code == VK_F6 {
                    KEY_F6
                } else if virtual_key_code == VK_F7 {
                    KEY_F7
                } else if virtual_key_code == VK_F8 {
                    KEY_F8
                } else if virtual_key_code == VK_F9 {
                    KEY_F9
                } else if virtual_key_code == VK_F10 {
                    KEY_F10
                } else if virtual_key_code == VK_F11 {
                    KEY_F11
                } else {
                    KEY_F12
                };
                return Event::Key(key, '\0', modif);
            } else if virtual_key_code <= VK_DELETE {
                if virtual_key_code == VK_INSERT {
                    key = KEY_INSERT;
                } else if virtual_key_code == VK_DELETE {
                    key = KEY_DELETE;
                } else if virtual_key_code == VK_HOME {
                    key = KEY_HOME;
                } else if virtual_key_code == VK_END {
                    key = KEY_END;
                } else if virtual_key_code == VK_PRIOR {
                    key = KEY_PGUP;
                } else if virtual_key_code == VK_NEXT {
                    key = KEY_PGDN;
                } else if virtual_key_code == VK_UP {
                    key = KEY_ARROW_UP;
                } else if virtual_key_code == VK_DOWN {
                    key = KEY_ARROW_DOWN;
                } else if virtual_key_code == VK_LEFT {
                    key = KEY_ARROW_LEFT;
                } else if virtual_key_code == VK_RIGHT {
                    key = KEY_ARROW_RIGHT;
                } else if virtual_key_code == VK_BACK {
                    key = if alt_key_held {
                        KEY_BACKSPACE_2
                    } else {
                        KEY_BACKSPACE
                    };
                } else if virtual_key_code == VK_TAB {
                    key = KEY_TAB;
                } else if virtual_key_code == VK_RETURN {
                    key = KEY_ENTER;
                } else if virtual_key_code == VK_ESCAPE {
                    if state.input_mode & INPUT_ESC != 0 {
                        key = KEY_ESC;
                    } else if state.input_mode & INPUT_ALT != 0 {
                        state.alt_mode_esc = true;
                        return Event::NoEvent;
                    } else {
                        key = 0;
                    }
                } else if virtual_key_code == VK_SPACE {
                    key = if alt_key_held {
                        KEY_CTRL_SPACE
                    } else {
                        KEY_SPACE
                    };
                } else {
                    key = 0;
                }
                if key != 0 {
                    return Event::Key(key, '\0', modif);
                }
            }
            if alt_key_held {
                key = unicode_char;
                if key >= KEY_CTRL_A && key <= KEY_CTRL_RSQ_BRACKET {
                    if state.input_mode & INPUT_ALT != 0 && key == KEY_ESC {
                        state.alt_mode_esc = false;
                        return Event::NoEvent;
                    }
                    return Event::Key(key, '\0', modif);
                }
                key = if virtual_key_code == 192 || virtual_key_code == 50 {
                    KEY_CTRL_2
                } else if virtual_key_code == 51 {
                    if state.input_mode & INPUT_ALT != 0 {
                        state.alt_mode_esc = true;
                        0
                    } else {
                        KEY_CTRL_3
                    }
                } else if virtual_key_code == 52 {
                    KEY_CTRL_4
                } else if virtual_key_code == 53 {
                    KEY_CTRL_5
                } else if virtual_key_code == 54 {
                    KEY_CTRL_6
                } else if virtual_key_code == 55 || virtual_key_code == 189 || virtual_key_code
                    == 191 {
                    KEY_CTRL_7
                } else if virtual_key_code == 56 || virtual_key_code == 8 {
                    KEY_CTRL_8
                } else {
                    0
                };
                if key != 0 {
                    return Event::Key(key, '\0', modif);
                }
            }
            if unicode_char != 0 {
                let c = decode_wide_char(unicode_char);
                return Event::Key(key, c, modif);
            }
            Event::NoEvent
        },
        InputRecord::Other => Event::NoEvent,
    }
}

} // verus!
