use rterm::{Event, InputRecord, ThreadState};

fn fresh_state() -> ThreadState {
    ThreadState::new(rterm::INPUT_MOUSE | rterm::INPUT_ESC)
}

/* A raw press followed by a release, with no motion in between, yields
 * exactly a left-button event then a release event; motion samples with no
 * button held yield nothing at all */
#[test]
fn press_release_and_hover() {
    let mut st = fresh_state();

    let press = InputRecord::Mouse {
        event_flags: 0,
        button_state: 0x1,
        x: 3,
        y: 4,
    };
    let ev = rterm::input_record_to_event(press, &mut st);
    assert_eq!(ev, Event::Mouse(3, 4, rterm::MOUSE_LEFT, 0));

    let release = InputRecord::Mouse {
        event_flags: 0,
        button_state: 0x0,
        x: 3,
        y: 4,
    };
    let ev = rterm::input_record_to_event(release, &mut st);
    assert_eq!(ev, Event::Mouse(3, 4, rterm::MOUSE_RELEASE, 0));

    // motion with the bitmask at zero is hover: suppressed entirely
    let mut st2 = fresh_state();
    for (mx, my) in [(1i16, 1i16), (2, 2), (3, 1)] {
        let motion = InputRecord::Mouse {
            event_flags: 1,
            button_state: 0,
            x: mx,
            y: my,
        };
        let ev = rterm::input_record_to_event(motion, &mut st2);
        assert_eq!(ev, Event::NoEvent);
    }
}

/* A single sample that releases the held button and presses another at the
 * same time resolves to the release */
#[test]
fn simultaneous_press_release_is_release() {
    let mut st = fresh_state();

    let press_right = InputRecord::Mouse {
        event_flags: 0,
        button_state: 0x2,
        x: 1,
        y: 1,
    };
    let ev = rterm::input_record_to_event(press_right, &mut st);
    assert_eq!(ev, Event::Mouse(1, 1, rterm::MOUSE_RIGHT, 0));

    // right goes up and left goes down in the same sample
    let swap = InputRecord::Mouse {
        event_flags: 0,
        button_state: 0x1,
        x: 1,
        y: 1,
    };
    let ev = rterm::input_record_to_event(swap, &mut st);
    assert_eq!(ev, Event::Mouse(1, 1, rterm::MOUSE_RELEASE, 0));
}

/* Motion while a button is held is a drag: reported with the active button
 * and the motion modifier, and only when the pointer actually moved */
#[test]
fn drag_reports_motion() {
    let mut st = fresh_state();
    let press = InputRecord::Mouse {
        event_flags: 0,
        button_state: 0x2,
        x: 5,
        y: 5,
    };
    let ev = rterm::input_record_to_event(press, &mut st);
    assert_eq!(ev, Event::Mouse(5, 5, rterm::MOUSE_RIGHT, 0));

    let motion = InputRecord::Mouse {
        event_flags: 1,
        button_state: 0x2,
        x: 6,
        y: 5,
    };
    let ev = rterm::input_record_to_event(motion, &mut st);
    assert_eq!(ev, Event::Mouse(6, 5, rterm::MOUSE_RIGHT, rterm::MOD_MOTION));

    // the same position again is suppressed
    let ev = rterm::input_record_to_event(motion, &mut st);
    assert_eq!(ev, Event::NoEvent);
}

/* The wheel emits regardless of button transitions: up on a positive delta,
 * down on a negative one */
#[test]
fn wheel_events() {
    let mut st = fresh_state();
    let up = InputRecord::Mouse {
        event_flags: 4,
        button_state: 0x0078_0000,
        x: 2,
        y: 2,
    };
    let ev = rterm::input_record_to_event(up, &mut st);
    assert_eq!(ev, Event::Mouse(2, 2, rterm::MOUSE_WHEEL_UP, 0));

    let down = InputRecord::Mouse {
        event_flags: 4,
        button_state: 0xFF88_0000,
        x: 2,
        y: 2,
    };
    let ev = rterm::input_record_to_event(down, &mut st);
    assert_eq!(ev, Event::Mouse(2, 2, rterm::MOUSE_WHEEL_DOWN, 0));
}

/* A resize record maps one to one onto a resize event */
#[test]
fn resize_record() {
    let mut st = fresh_state();
    let rec = InputRecord::WindowBufferSize {
        width: 120,
        height: 40,
    };
    let ev = rterm::input_record_to_event(rec, &mut st);
    assert_eq!(ev, Event::Resize(120, 40));
}

/* Function and navigation keys map through the fixed tables; key releases
 * yield nothing */
#[test]
fn key_tables() {
    let mut st = fresh_state();

    let f1 = InputRecord::Key {
        key_down: true,
        repeat_count: 1,
        virtual_key_code: rterm::VK_F1,
        unicode_char: 0,
        control_key_state: 0,
    };
    let ev = rterm::input_record_to_event(f1, &mut st);
    assert_eq!(ev, Event::Key(rterm::KEY_F1, '\0', 0));

    let up = InputRecord::Key {
        key_down: true,
        repeat_count: 1,
        virtual_key_code: rterm::VK_UP,
        unicode_char: 0,
        control_key_state: 0,
    };
    let ev = rterm::input_record_to_event(up, &mut st);
    assert_eq!(ev, Event::Key(rterm::KEY_ARROW_UP, '\0', 0));

    // raw-escape mode reports the escape key immediately
    let esc = InputRecord::Key {
        key_down: true,
        repeat_count: 1,
        virtual_key_code: rterm::VK_ESCAPE,
        unicode_char: 0x1B,
        control_key_state: 0,
    };
    let ev = rterm::input_record_to_event(esc, &mut st);
    assert_eq!(ev, Event::Key(rterm::KEY_ESC, '\0', 0));

    let released = InputRecord::Key {
        key_down: false,
        repeat_count: 1,
        virtual_key_code: rterm::VK_F1,
        unicode_char: 0,
        control_key_state: 0,
    };
    let ev = rterm::input_record_to_event(released, &mut st);
    assert_eq!(ev, Event::NoEvent);
}

/* Printable input passes the decoded character through unchanged; a lone
 * surrogate unit decodes to the replacement character */
#[test]
fn printable_keys() {
    let mut st = fresh_state();

    let a = InputRecord::Key {
        key_down: true,
        repeat_count: 1,
        virtual_key_code: 0x41,
        unicode_char: 'A' as u16,
        control_key_state: 0,
    };
    let ev = rterm::input_record_to_event(a, &mut st);
    assert_eq!(ev, Event::Key(0, 'A', 0));

    let bad = InputRecord::Key {
        key_down: true,
        repeat_count: 1,
        virtual_key_code: 0x41,
        unicode_char: 0xD800,
        control_key_state: 0,
    };
    let ev = rterm::input_record_to_event(bad, &mut st);
    assert_eq!(ev, Event::Key(0, '\u{FFFD}', 0));
}

/* In alt-escape mode a lone escape is swallowed and the next key carries
 * the alt modifier */
#[test]
fn alt_escape_buffering() {
    let mut st = ThreadState::new(rterm::INPUT_MOUSE | rterm::INPUT_ALT);

    let esc = InputRecord::Key {
        key_down: true,
        repeat_count: 1,
        virtual_key_code: rterm::VK_ESCAPE,
        unicode_char: 0x1B,
        control_key_state: 0,
    };
    let ev = rterm::input_record_to_event(esc, &mut st);
    assert_eq!(ev, Event::NoEvent);
    assert!(st.alt_mode_esc);

    let x = InputRecord::Key {
        key_down: true,
        repeat_count: 1,
        virtual_key_code: 0x58,
        unicode_char: 'x' as u16,
        control_key_state: 0,
    };
    let ev = rterm::input_record_to_event(x, &mut st);
    assert_eq!(ev, Event::Key(0, 'x', rterm::MOD_ALT));
    assert!(!st.alt_mode_esc);
}

/* The control-letter range comes through as its abstract codes */
#[test]
fn ctrl_letters() {
    let mut st = fresh_state();
    let ctrl_c = InputRecord::Key {
        key_down: true,
        repeat_count: 1,
        virtual_key_code: 0x43,
        unicode_char: 0x03,
        control_key_state: rterm::LEFT_ALT_PRESSED,
    };
    let ev = rterm::input_record_to_event(ctrl_c, &mut st);
    assert_eq!(ev, Event::Key(rterm::KEY_CTRL_C, '\0', 0));
}

/* A record class the translator does not know yields nothing */
#[test]
fn other_records_ignored() {
    let mut st = fresh_state();
    let ev = rterm::input_record_to_event(InputRecord::Other, &mut st);
    assert_eq!(ev, Event::NoEvent);
}
