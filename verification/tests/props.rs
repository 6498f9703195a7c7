use rterm::{CellBuf, CursorInfo, Point, TerminalManager};

/// A backend that succeeds and swallows the output.
struct OkBackend;

impl TerminalManager for OkBackend {
    fn write(&self, _buf: &CellBuf) -> Result<(), String> {
        Ok(())
    }

    fn size(&self) -> Result<Point, String> {
        Ok(Point { x: 5, y: 5 })
    }

    fn set_cursor_pos(&self, _x: i16, _y: i16) -> Result<(), String> {
        Ok(())
    }

    fn get_cursor_pos(&self) -> Result<CursorInfo, String> {
        Ok(CursorInfo {
            visible: false,
            x: 0,
            y: 0,
        })
    }
}

/// A backend whose device always fails.
struct BrokenBackend;

impl TerminalManager for BrokenBackend {
    fn write(&self, _buf: &CellBuf) -> Result<(), String> {
        Err(String::from("device gone"))
    }

    fn size(&self) -> Result<Point, String> {
        Err(String::from("device gone"))
    }

    fn set_cursor_pos(&self, _x: i16, _y: i16) -> Result<(), String> {
        Err(String::from("device gone"))
    }

    fn get_cursor_pos(&self) -> Result<CursorInfo, String> {
        Err(String::from("device gone"))
    }
}

/* A horizontal line clipped at the left edge writes exactly the surviving
 * columns: on a width-5 grid, a run of 7 cells from x = -4 covers 0..=2 */
#[test]
fn hline_clipped_left() {
    let mut t = rterm::Terminal::new(5, 5, OkBackend);
    let r = t.put_horizontal_line(-4, 0, 7, '*');
    assert!(r);
    for x in 0..5 {
        let c = t.get_cell(x, 0).unwrap();
        if x <= 2 {
            assert_eq!(c.ch, '*');
        } else {
            assert_eq!(c.ch, ' ');
        }
    }
    // no other row was touched
    for y in 1..5 {
        for x in 0..5 {
            assert_eq!(t.get_cell(x, y).unwrap().ch, ' ');
        }
    }
}

/* A single cell write yields a one-point damage rectangle; a successful
 * flush resets damage and dirty; rewriting the identical cell afterwards
 * leaves the buffer clean */
#[test]
fn set_flush_set_identical() {
    let mut t = rterm::Terminal::new(3, 3, OkBackend);
    let c = rterm::Cell {
        ch: 'z',
        fg: rterm::COLOR_BLUE,
        bg: rterm::COLOR_MAGENTA,
    };
    assert!(t.set_cell(1, 2, c.clone()));
    assert_eq!(t.buffer.dirty_rect.left, 1);
    assert_eq!(t.buffer.dirty_rect.top, 2);
    assert_eq!(t.buffer.dirty_rect.right, 1);
    assert_eq!(t.buffer.dirty_rect.bottom, 2);
    assert_eq!(t.get_cell(1, 2).unwrap(), c);

    assert!(t.flush().is_ok());
    assert!(!t.dirty());
    assert_eq!(t.buffer.dirty_rect.left, -1);
    assert_eq!(t.buffer.dirty_rect.top, -1);
    assert_eq!(t.buffer.dirty_rect.right, -1);
    assert_eq!(t.buffer.dirty_rect.bottom, -1);

    assert!(t.set_cell(1, 2, c));
    assert!(!t.dirty());
}

/* A failed device write surfaces the error and leaves the buffer state,
 * including dirty and damage, untouched */
#[test]
fn flush_failure_keeps_state() {
    let mut t = rterm::Terminal::new(3, 3, BrokenBackend);
    assert!(t.put_char(0, 0, '!'));
    assert!(t.dirty());
    let res = t.flush();
    assert!(res.is_err());
    assert_eq!(res.unwrap_err(), "device gone");
    assert!(t.dirty());
    assert_eq!(t.buffer.dirty_rect.left, 0);
}

/* clear always damages the whole grid and sets dirty, whatever came before */
#[test]
fn clear_damages_everything() {
    let mut t = rterm::Terminal::new(4, 3, OkBackend);
    assert!(t.flush().is_ok());
    t.clear();
    assert!(t.dirty());
    assert_eq!(t.buffer.dirty_rect.left, 0);
    assert_eq!(t.buffer.dirty_rect.top, 0);
    assert_eq!(t.buffer.dirty_rect.right, 3);
    assert_eq!(t.buffer.dirty_rect.bottom, 2);
}

/* A double-width character occupies its starting column; one that would
 * cross the right edge becomes a single blank cell; zero-width characters
 * are skipped without advancing */
#[test]
fn put_string_widths() {
    let mut t = rterm::Terminal::new(5, 2, OkBackend);
    t.set_foreground(rterm::COLOR_GREEN);

    // fits: the wide character is stored at its starting column
    assert!(t.put_string(0, 0, "\u{4F60}a"));
    let c0 = t.get_cell(0, 0).unwrap();
    assert_eq!(c0.ch, '\u{4F60}');
    assert_eq!(c0.fg, rterm::COLOR_GREEN);
    // the next character starts two columns later
    assert_eq!(t.get_cell(1, 0).unwrap().ch, ' ');
    assert_eq!(t.get_cell(2, 0).unwrap().ch, 'a');

    // a wide character landing on the last column becomes a blank
    assert!(t.put_string(4, 1, "\u{4F60}"));
    let last = t.get_cell(4, 1).unwrap();
    assert_eq!(last.ch, ' ');
    assert_eq!(last.fg, rterm::COLOR_GREEN);

    // a combining mark has zero width: it neither lands nor advances
    let mut t2 = rterm::Terminal::new(5, 1, OkBackend);
    assert!(t2.put_string(0, 0, "a\u{0301}b"));
    assert_eq!(t2.get_cell(0, 0).unwrap().ch, 'a');
    assert_eq!(t2.get_cell(1, 0).unwrap().ch, 'b');
}

/* String placement returns false exactly when nothing lands on the grid:
 * a span entirely outside, a string of zero-width characters, and the empty
 * string all fail, even on a valid row or column */
#[test]
fn put_string_false_when_nothing_lands() {
    let mut t = rterm::Terminal::new(5, 5, OkBackend);

    // the one character starts at a negative column and is skipped
    assert!(!t.put_string(-1, 0, "a"));
    // zero-width characters neither land nor advance
    assert!(!t.put_string(0, 0, "\u{0301}"));
    // nothing to place at all
    assert!(!t.put_string(0, 0, ""));
    // the whole vertical span lies above the grid
    assert!(!t.put_string_vertical(0, -1, "a"));
    assert!(!t.put_string_vertical(0, 0, ""));
    // none of these touched the buffer
    assert!(!t.dirty());
    assert_eq!(t.buffer.dirty_rect.left, -1);
    for c in t.cells() {
        assert_eq!(c.ch, ' ');
    }

    // the attribute variants fail the same way
    assert!(!t.put_string_with_attrs(-1, 0, "a", rterm::COLOR_RED, rterm::COLOR_BLUE));
    assert!(!t.put_string_vertical_with_attrs(0, -1, "a", rterm::COLOR_RED, rterm::COLOR_BLUE));
    assert!(!t.dirty());
}

/* The _with_attrs variants restore the ambient attributes on every path */
#[test]
fn with_attrs_restores_context() {
    let mut t = rterm::Terminal::new(5, 5, OkBackend);
    t.set_foreground(rterm::COLOR_RED);
    t.set_background(rterm::COLOR_BLUE);

    assert!(t.put_char_with_attrs(1, 1, 'x', rterm::COLOR_CYAN, rterm::COLOR_WHITE));
    assert_eq!(t.get_foreground(), rterm::COLOR_RED);
    assert_eq!(t.get_background(), rterm::COLOR_BLUE);
    let c = t.get_cell(1, 1).unwrap();
    assert_eq!(c.fg, rterm::COLOR_CYAN);
    assert_eq!(c.bg, rterm::COLOR_WHITE);

    assert!(t.put_string_with_attrs(0, 0, "hi", rterm::COLOR_GREEN, rterm::COLOR_BLACK));
    assert_eq!(t.get_foreground(), rterm::COLOR_RED);
    assert_eq!(t.get_background(), rterm::COLOR_BLUE);
    assert_eq!(t.get_cell(0, 0).unwrap().fg, rterm::COLOR_GREEN);

    // early failure also restores
    assert!(!t.put_string_with_attrs(0, 9, "hi", rterm::COLOR_GREEN, rterm::COLOR_BLACK));
    assert_eq!(t.get_foreground(), rterm::COLOR_RED);
    assert_eq!(t.get_background(), rterm::COLOR_BLUE);

    assert!(t.put_horizontal_line_with_attrs(0, 2, 3, '-', rterm::COLOR_YELLOW, rterm::COLOR_BLACK));
    assert_eq!(t.get_foreground(), rterm::COLOR_RED);
    assert!(t.put_vertical_line_with_attrs(2, 0, 3, '|', rterm::COLOR_YELLOW, rterm::COLOR_BLACK));
    assert_eq!(t.get_foreground(), rterm::COLOR_RED);
    assert!(t.put_string_vertical_with_attrs(3, 0, "vv", rterm::COLOR_YELLOW, rterm::COLOR_BLACK));
    assert_eq!(t.get_foreground(), rterm::COLOR_RED);
}

/* A fresh grid is all default cells with no damage and dirty off */
#[test]
fn fresh_grid_is_clean() {
    let t = rterm::Terminal::new(7, 3, OkBackend);
    assert!(!t.dirty());
    assert_eq!(t.cells().len(), 21);
    for c in t.cells() {
        assert_eq!(c.ch, ' ');
        assert_eq!(c.fg, rterm::COLOR_DEFAULT);
        assert_eq!(c.bg, rterm::COLOR_DEFAULT);
    }
    assert_eq!(t.buffer.dirty_rect.left, -1);
}

/* Cursor calls are forwarded to the backend and its errors surface */
#[test]
fn cursor_calls_forward() {
    let t = rterm::Terminal::new(3, 3, OkBackend);
    assert!(t.set_cursor_pos(1, 1).is_ok());
    assert!(!t.get_cursor_pos().unwrap().visible);

    let b = rterm::Terminal::new(3, 3, BrokenBackend);
    assert!(b.set_cursor_pos(1, 1).is_err());
    assert!(b.get_cursor_pos().is_err());
}
