use rterm::Cell;

/* Table lookups mask to the low four bits and clamp to the last entry */
#[test]
fn color_table_lookup() {
    let fg = rterm::color_table_fg();
    let bg = rterm::color_table_bg();
    assert_eq!(fg.len(), 9);
    assert_eq!(bg.len(), 9);

    // the default foreground is white, the default background black
    assert_eq!(
        rterm::get_ct(&fg, rterm::COLOR_DEFAULT),
        (rterm::FOREGROUND_RED | rterm::FOREGROUND_GREEN | rterm::FOREGROUND_BLUE) as u16
    );
    assert_eq!(rterm::get_ct(&bg, rterm::COLOR_DEFAULT), 0);
    assert_eq!(rterm::get_ct(&fg, rterm::COLOR_RED), rterm::FOREGROUND_RED as u16);
    assert_eq!(rterm::get_ct(&bg, rterm::COLOR_BLUE), rterm::BACKGROUND_BLUE as u16);

    // an index past the table clamps to its last entry
    assert_eq!(rterm::get_ct(&bg, 0x09), rterm::get_ct(&bg, rterm::COLOR_WHITE));
    // only the low four bits select
    assert_eq!(rterm::get_ct(&fg, 0x12), rterm::get_ct(&fg, rterm::COLOR_RED));
}

/* A plain colored cell packs into the device attribute word and one UTF-16
 * unit */
#[test]
fn char_info_plain() {
    let c = Cell {
        ch: 'A',
        fg: rterm::COLOR_RED,
        bg: rterm::COLOR_BLUE,
    };
    let (attr, units) = rterm::cell_to_char_info(&c);
    assert_eq!(
        attr,
        (rterm::FOREGROUND_RED | rterm::BACKGROUND_BLUE) as u16
    );
    assert_eq!(units, vec![0x0041u16]);
}

/* The reverse bit swaps the color nibbles; the bold bits add intensity */
#[test]
fn char_info_styles() {
    let rev = Cell {
        ch: 'r',
        fg: rterm::COLOR_RED | rterm::ATTR_REVERSE,
        bg: rterm::COLOR_BLUE,
    };
    let (attr, _) = rterm::cell_to_char_info(&rev);
    // foreground red (0x04) and background blue (0x10) swap nibbles
    assert_eq!(attr, 0x0041);

    let bold = Cell {
        ch: 'b',
        fg: rterm::COLOR_GREEN | rterm::ATTR_BOLD,
        bg: rterm::COLOR_BLACK | rterm::ATTR_BOLD,
    };
    let (attr, _) = rterm::cell_to_char_info(&bold);
    assert_eq!(
        attr,
        (rterm::FOREGROUND_GREEN | rterm::FOREGROUND_INTENSITY | rterm::BACKGROUND_INTENSITY)
            as u16
    );
}

/* A character outside the basic plane encodes as a surrogate pair */
#[test]
fn char_info_surrogate_pair() {
    let c = Cell {
        ch: '\u{1D11E}',
        fg: rterm::COLOR_DEFAULT,
        bg: rterm::COLOR_DEFAULT,
    };
    let (_, units) = rterm::cell_to_char_info(&c);
    assert_eq!(units, vec![0xD834u16, 0xDD1Eu16]);
}
