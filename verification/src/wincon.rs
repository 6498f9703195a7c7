//! Conversion of cells to console output attributes: the fixed color tables
//! of the console device, and the packing of one cell into an attribute word
//! plus the UTF-16 units of its character.

use vstd::prelude::*;

use crate::common::{Cell, ATTR_BOLD, ATTR_REVERSE};

verus! {

/// Console attribute bits of the output device.
pub const FOREGROUND_BLUE: u32 = 0x0001;
pub const FOREGROUND_GREEN: u32 = 0x0002;
pub const FOREGROUND_RED: u32 = 0x0004;
pub const FOREGROUND_INTENSITY: u32 = 0x0008;
pub const BACKGROUND_BLUE: u32 = 0x0010;
pub const BACKGROUND_GREEN: u32 = 0x0020;
pub const BACKGROUND_RED: u32 = 0x0040;
pub const BACKGROUND_INTENSITY: u32 = 0x0080;

/// The console attribute bits of each abstract background color, the default
/// (black) first.
pub open spec fn bg_table() -> Seq<u32> {
    seq![
        0u32,
        0u32,
        BACKGROUND_RED,
        BACKGROUND_GREEN,
        BACKGROUND_RED | BACKGROUND_GREEN,
        BACKGROUND_BLUE,
        BACKGROUND_RED | BACKGROUND_BLUE,
        BACKGROUND_BLUE | BACKGROUND_GREEN,
        BACKGROUND_BLUE | BACKGROUND_GREEN | BACKGROUND_RED,
    ]
}

/// The console attribute bits of each abstract foreground color, the default
/// (white) first.
pub open spec fn fg_table() -> Seq<u32> {
    seq![
        FOREGROUND_BLUE | FOREGROUND_GREEN | FOREGROUND_RED,
        0u32,
        FOREGROUND_RED,
        FOREGROUND_GREEN,
        FOREGROUND_RED | FOREGROUND_GREEN,
        FOREGROUND_BLUE,
        FOREGROUND_RED | FOREGROUND_BLUE,
        FOREGROUND_BLUE | FOREGROUND_GREEN,
        FOREGROUND_BLUE | FOREGROUND_GREEN | FOREGROUND_RED,
    ]
}

/// The background color table as a vector, for table lookups.
pub fn color_table_bg() -> (t: Vec<u32>)
    ensures
        t@ == bg_table(),
{
    let t: Vec<u32> = vec![
        0u32,
        0u32,
        BACKGROUND_RED,
        BACKGROUND_GREEN,
        BACKGROUND_RED | BACKGROUND_GREEN,
        BACKGROUND_BLUE,
        BACKGROUND_RED | BACKGROUND_BLUE,
        BACKGROUND_BLUE | BACKGROUND_GREEN,
        BACKGROUND_BLUE | BACKGROUND_GREEN | BACKGROUND_RED,
    ];
    proof {
        assert(t@ =~= bg_table());
    }
    t
}

/// The foreground color table as a vector, for table lookups.
pub fn color_table_fg() -> (t: Vec<u32>)
    ensures
        t@ == fg_table(),
{
    let t: Vec<u32> = vec![
        FOREGROUND_BLUE | FOREGROUND_GREEN | FOREGROUND_RED,
        0u32,
        FOREGROUND_RED,
        FOREGROUND_GREEN,
        FOREGROUND_RED | FOREGROUND_GREEN,
        FOREGROUND_BLUE,
        FOREGROUND_RED | FOREGROUND_BLUE,
        FOREGROUND_BLUE | FOREGROUND_GREEN,
        FOREGROUND_BLUE | FOREGROUND_GREEN | FOREGROUND_RED,
    ];
    proof {
        assert(t@ =~= fg_table());
    }
    t
}

/// The table entry selected by a color attribute: its low four bits, clamped
/// to the table's last entry.
pub open spec fn get_ct_spec(table: Seq<u32>, idx: u16) -> u16 {
    let i = (idx as usize) & 0x0F;
    let j: int = if i >= table.len() {
        table.len() - 1
    } else {
        i as int
    };
    table[j] as u16
}

/// Looks a color attribute up in a console color table.
pub fn get_ct(table: &Vec<u32>, idx: u16) -> (r: u16)
    requires
        table@.len() > 0,
    ensures
        r == get_ct_spec(table@, idx),
{
    let mut i: usize = (idx as usize) & 0x0F;
    if i >= table.len() {
        i = table.len() - 1;
    }
    table[i] as u16
}

/// The UTF-16 encoding of one character: a single unit below the surrogate
/// range limit, a surrogate pair above it.
pub open spec fn utf16_units(c: char) -> Seq<u16> {
    let u = c as u32;
    if u < 0x10000 {
        seq![u as u16]
    } else {
        seq![
            (0xD800 + ((u - 0x10000) / 0x400)) as u16,
            (0xDC00 + ((u - 0x10000) % 0x400)) as u16,
        ]
    }
}

/// The console attribute word of a cell: the color table entries of its
/// foreground and background, swapped when either carries the reverse bit,
/// with the intensity bits added for the bold bits.
pub open spec fn cell_attr(c: Cell) -> u16 {
    let base = get_ct_spec(fg_table(), c.fg) | get_ct_spec(bg_table(), c.bg);
    let rev = if ((c.fg & ATTR_REVERSE) | (c.bg & ATTR_REVERSE)) != 0 {
        ((base & 0xF0) >> 4) | ((base & 0x0F) << 4)
    } else {
        base
    };
    let b1 = if c.fg & ATTR_BOLD != 0 {
        rev | (FOREGROUND_INTENSITY as u16)
    } else {
        rev
    };
    if c.bg & ATTR_BOLD != 0 {
        b1 | (BACKGROUND_INTENSITY as u16)
    } else {
        b1
    }
}

/// Packs one cell into the console's attribute word and the UTF-16 units of
/// its character.
pub fn cell_to_char_info(c: &Cell) -> (r: (u16, Vec<u16>))
    ensures
        r.0 == cell_attr(*c),
        r.1@ == utf16_units(c.ch),
{
    let mut attr = get_ct(&color_table_fg(), c.fg) | get_ct(&color_table_bg(), c.bg);

    if ((c.fg & ATTR_REVERSE) | (c.bg & ATTR_REVERSE)) != 0 {
        attr = ((attr & 0xF0) >> 4) | ((attr & 0x0F) << 4);
    }
    if c.fg & ATTR_BOLD != 0 {
        attr = attr | (FOREGROUND_INTENSITY as u16);
    }
    if c.bg & ATTR_BOLD != 0 {
        attr = attr | (BACKGROUND_INTENSITY as u16);
    }

    let mut v: Vec<u16> = Vec::new();
    let u = c.ch as u32;
    if u < 0x10000 {
        v.push(u as u16);
    } else {
        let w = u - 0x10000;
        v.push((0xD800 + (w / 0x400)) as u16);
        v.push((0xDC00 + (w % 0x400)) as u16);
    }
    proof {
        assert(v@ =~= utf16_units(c.ch));
    }
    (attr, v)
}

} // verus!
