//! The virtual terminal: drawing primitives with an ambient attribute pair,
//! built on the cell grid buffer, and a flush that hands the damage to a
//! backend.

use vstd::prelude::*;

use crate::cellbuf::{flat_idx, grow_damage, lemma_cell_update, lemma_flat_idx_bounds, lemma_flat_idx_inj, Bounds, CellBuf, CellRect};
use crate::common::{Attribute, Cell, CursorInfo, COLOR_DEFAULT};
use crate::intf::TerminalManager;

verus! {

/// Left end (inclusive) of a run starting at `a`, clipped at the grid edge.
pub open spec fn clip_lo(a: int) -> int {
    if a < 0 {
        0
    } else {
        a
    }
}

/// Right end (exclusive) of a run of `len` cells starting at `a`, clipped at
/// the grid extent `limit`.
pub open spec fn clip_hi(a: int, len: int, limit: int) -> int {
    if a + len > limit {
        limit
    } else {
        a + len
    }
}

/// Whether the cell of row `y` at column `cx` differs between the buffer
/// states `a` and `b`.
pub open spec fn row_cell_changed(a: CellBuf, b: CellBuf, y: int, cx: int) -> bool {
    0 <= cx < a.width && a.cell_at(cx, y) != b.cell_at(cx, y)
}

/// Whether the cell of column `x` at row `cy` differs between the buffer
/// states `a` and `b`.
pub open spec fn col_cell_changed(a: CellBuf, b: CellBuf, x: int, cy: int) -> bool {
    0 <= cy < a.height && a.cell_at(x, cy) != b.cell_at(x, cy)
}

/// The dirty flag and damage of `post` are exactly those of `pre` grown by
/// the cells of row `y` that changed: untouched when no cell of the row
/// changed, else grown by precisely the leftmost and rightmost changed
/// columns.
pub open spec fn row_damage_exact(pre: CellBuf, post: CellBuf, y: int) -> bool {
    if forall|cx: int| !row_cell_changed(pre, post, y, cx) {
        post.dirty == pre.dirty && post.damage() == pre.damage()
    } else {
        &&& post.dirty
        &&& exists|lo: int, hi: int|
            #![trigger row_cell_changed(pre, post, y, lo), row_cell_changed(pre, post, y, hi)]
            {
                &&& row_cell_changed(pre, post, y, lo)
                &&& row_cell_changed(pre, post, y, hi)
                &&& (forall|cx: int| row_cell_changed(pre, post, y, cx) ==> lo <= cx <= hi)
                &&& post.damage() == Option::Some(
                    grow_damage(Option::Some(grow_damage(pre.damage(), lo, y)), hi, y),
                )
            }
    }
}

/// As `row_damage_exact`, with the roles of rows and columns exchanged: the
/// damage of `post` is that of `pre` grown by precisely the topmost and
/// bottommost changed rows of column `x`.
pub open spec fn col_damage_exact(pre: CellBuf, post: CellBuf, x: int) -> bool {
    if forall|cy: int| !col_cell_changed(pre, post, x, cy) {
        post.dirty == pre.dirty && post.damage() == pre.damage()
    } else {
        &&& post.dirty
        &&& exists|lo: int, hi: int|
            #![trigger col_cell_changed(pre, post, x, lo), col_cell_changed(pre, post, x, hi)]
            {
                &&& col_cell_changed(pre, post, x, lo)
                &&& col_cell_changed(pre, post, x, hi)
                &&& (forall|cy: int| col_cell_changed(pre, post, x, cy) ==> lo <= cy <= hi)
                &&& post.damage() == Option::Some(
                    grow_damage(Option::Some(grow_damage(pre.damage(), x, lo)), x, hi),
                )
            }
    }
}

/// The display width, in terminal columns, that the unicode-width tables
/// assign to a character: `None` when the tables assign the character no
/// width at all, otherwise the number of columns.
pub uninterp spec fn char_cell_width(c: char) -> Option<usize>;

/// Relies on unicode_width's `UnicodeWidthChar::width`: the result is a pure
/// table lookup, a function of the character alone, and every table entry is
/// a single byte, so a width never exceeds 255 columns.
#[verifier::external_body]
fn char_width(c: char) -> (r: Option<usize>)
    ensures
        r == char_cell_width(c),
        r matches Some(w) ==> w <= 255,
{
    unicode_width::UnicodeWidthChar::width(c)
}

/// The number of columns by which a character advances the cursor: its
/// display width, counting control characters as zero.
pub open spec fn width_step(c: char) -> int {
    match char_cell_width(c) {
        Option::Some(w) => w as int,
        Option::None => 0,
    }
}

/// Total column advance of the first `i` characters of `chars`.
pub open spec fn advance_width(chars: Seq<char>, i: int) -> int
    decreases i,
{
    if i <= 0 {
        0
    } else {
        advance_width(chars, i - 1) + width_step(chars[i - 1])
    }
}

/// The column at which character `i` of a string drawn at `x` begins.
pub open spec fn col_of(chars: Seq<char>, x: int, i: int) -> int {
    x + advance_width(chars, i)
}

/// Whether character `i` of a string drawn at `x` writes a cell in a grid of
/// width `gw`: it has a nonzero display width and either fits entirely
/// inside the grid, or is two columns wide and starts exactly on the last
/// column (then a single blank is written in its place).
pub open spec fn hdraws(chars: Seq<char>, x: int, gw: int, i: int) -> bool {
    &&& 0 <= i < chars.len()
    &&& width_step(chars[i]) >= 1
    &&& ({
        let col = col_of(chars, x, i);
        (0 <= col && col + width_step(chars[i]) <= gw) || (width_step(chars[i]) == 2 && col == gw
            - 1 && 0 <= col)
    })
}

/// The character that lands on the grid for character `i`: the character
/// itself when it fits, a blank when a double-width character starts on the
/// last column.
pub open spec fn hdrawn_char(chars: Seq<char>, x: int, gw: int, i: int) -> char {
    if col_of(chars, x, i) + width_step(chars[i]) <= gw {
        chars[i]
    } else {
        ' '
    }
}

/// A drawn character always lands inside the grid: string placement never
/// writes a cell outside the horizontal bounds.
pub proof fn lemma_hdraws_in_bounds(chars: Seq<char>, x: int, gw: int, i: int)
    requires
        hdraws(chars, x, gw, i),
    ensures
        0 <= col_of(chars, x, i) < gw,
{
}

proof fn lemma_advance_mono(chars: Seq<char>, i: int, j: int)
    requires
        0 <= i <= j,
    ensures
        advance_width(chars, i) <= advance_width(chars, j),
    decreases j - i,
{
    if i < j {
        lemma_advance_mono(chars, i, j - 1);
    }
}

proof fn lemma_draw_cols_increase(chars: Seq<char>, x: int, gw: int, i: int, j: int)
    requires
        hdraws(chars, x, gw, i),
        0 <= i < j,
    ensures
        col_of(chars, x, i) + width_step(chars[i]) <= col_of(chars, x, j),
        col_of(chars, x, i) < col_of(chars, x, j),
{
    lemma_advance_mono(chars, i + 1, j);
    assert(advance_width(chars, i + 1) == advance_width(chars, i) + width_step(chars[i]));
}

/// The characters of `s`, in order.
fn str_chars(s: &str) -> (v: Vec<char>)
    ensures
        v@ == s@,
{
    let mut v: Vec<char> = Vec::new();
    for c in it: s.chars()
        invariant
            it.seq() == s@,
            v@ == it.seq().take(it.index()),
    {
        v.push(c);
    }
    proof {
        assert(v@ =~= s@);
    }
    v
}

/// A virtual terminal over a backend `M`: an in-memory picture of the screen,
/// the ambient foreground/background used by drawing calls, and the device
/// handle behind the backend interface.
pub struct Terminal<M: TerminalManager> {
    /// The in-memory picture with its damage tracking.
    pub buffer: CellBuf,
    /// Ambient foreground for drawing calls that use the current attributes.
    pub fg: Attribute,
    /// Ambient background for drawing calls that use the current attributes.
    pub bg: Attribute,
    /// The real-terminal backend.
    pub terminal: M,
}

impl<M: TerminalManager> Terminal<M> {
    /// Well-formedness of the whole terminal: the buffer's invariant.
    pub open spec fn wf(self) -> bool {
        self.buffer.wf()
    }

    /// A cell of character `c` with the ambient attributes.
    pub open spec fn styled(self, c: char) -> Cell {
        Cell { ch: c, fg: self.fg, bg: self.bg }
    }

    /// `post` is `pre` after one write of `c` at `(x, y)`: out of bounds or
    /// equal to the stored cell, nothing happens; otherwise the one cell is
    /// overwritten, the buffer is dirty and the damage grows by `(x, y)`.
    pub open spec fn wrote_cell(pre: Self, post: Self, x: int, y: int, c: Cell) -> bool {
        if !pre.buffer.in_bounds(x, y) {
            post == pre
        } else if pre.buffer.cell_at(x, y) == c {
            post == pre
        } else {
            &&& post.fg == pre.fg
            &&& post.bg == pre.bg
            &&& post.terminal == pre.terminal
            &&& post.buffer.width == pre.buffer.width
            &&& post.buffer.height == pre.buffer.height
            &&& post.buffer.cells@ == pre.buffer.cells@.update(
                flat_idx(pre.buffer.width as int, x, y),
                c,
            )
            &&& post.buffer.dirty
            &&& post.buffer.damage() == Option::Some(grow_damage(pre.buffer.damage(), x, y))
        }
    }

    /// Creates a virtual terminal of the given size over the given backend,
    /// with a fresh default picture and default attributes.
    pub fn new(width: i32, height: i32, terminal: M) -> (r: Terminal<M>)
        requires
            1 <= width,
            1 <= height,
            width * height <= i32::MAX,
        ensures
            r.wf(),
            r.buffer.width == width,
            r.buffer.height == height,
            forall|i: int|
                0 <= i < r.buffer.cells@.len() ==> r.buffer.cells@[i]
                    == crate::cellbuf::default_cell(),
            !r.buffer.dirty,
            r.buffer.damage() is None,
            r.fg == COLOR_DEFAULT,
            r.bg == COLOR_DEFAULT,
    {
        Terminal {
            buffer: CellBuf::new(width, height),
            fg: COLOR_DEFAULT,
            bg: COLOR_DEFAULT,
            terminal,
        }
    }

    /// Writes all detected changes from the internal buffer to the real
    /// terminal. On success the buffer is clean again; a device error is
    /// returned to the caller with the terminal state untouched, so that the
    /// caller decides how to recover.
    pub fn flush(&mut self) -> (r: Result<(), String>)
        requires
            old(self).wf(),
        ensures
            final(self).wf(),
            final(self).fg == old(self).fg,
            final(self).bg == old(self).bg,
            final(self).terminal == old(self).terminal,
            final(self).buffer.width == old(self).buffer.width,
            final(self).buffer.height == old(self).buffer.height,
            final(self).buffer.cells@ == old(self).buffer.cells@,
            r matches Ok(_) ==> !final(self).buffer.dirty && final(self).buffer.damage() is None,
            r matches Err(_) ==> *final(self) == *old(self),
    {
        let res = self.terminal.write(&self.buffer);
        match res {
            Err(e) => Err(e),
            Ok(_) => {
                self.buffer.dirty = false;
                self.buffer.dirty_rect = CellRect::new();
                Ok(())
            },
        }
    }

    /// Clears the buffer with the space character and default attributes.
    pub fn clear(&mut self)
        requires
            old(self).wf(),
        ensures
            final(self).wf(),
            final(self).fg == old(self).fg,
            final(self).bg == old(self).bg,
            final(self).terminal == old(self).terminal,
            final(self).buffer.width == old(self).buffer.width,
            final(self).buffer.height == old(self).buffer.height,
            final(self).buffer.cells@.len() == old(self).buffer.cells@.len(),
            forall|i: int|
                0 <= i < final(self).buffer.cells@.len() ==> final(self).buffer.cells@[i]
                    == crate::cellbuf::default_cell(),
            final(self).buffer.dirty,
            final(self).buffer.damage() == Option::Some(
                Bounds {
                    left: 0,
                    top: 0,
                    right: old(self).buffer.width - 1,
                    bottom: old(self).buffer.height - 1,
                },
            ),
    {
        self.buffer.clear()
    }

    /// Whether the internal buffer holds changes not yet on the real screen.
    pub fn dirty(&self) -> (r: bool)
        ensures
            r == self.buffer.dirty,
    {
        self.buffer.dirty
    }

    /// The internal buffer's cells. Public for debugging purposes.
    pub fn cells(&self) -> (r: &[Cell])
        ensures
            r@ == self.buffer.cells@,
    {
        self.buffer.cells.as_slice()
    }

    /// Resizes the internal buffer; used when the real terminal is resized.
    pub fn resize(&mut self, width: i32, height: i32)
        requires
            old(self).wf(),
            1 <= width,
            1 <= height,
            width * height <= i32::MAX,
        ensures
            final(self).wf(),
            final(self).fg == old(self).fg,
            final(self).bg == old(self).bg,
            final(self).terminal == old(self).terminal,
            old(self).buffer.width == width && old(self).buffer.height == height ==> *final(self)
                == *old(self),
            !(old(self).buffer.width == width && old(self).buffer.height == height) ==> {
                &&& final(self).buffer.width == width
                &&& final(self).buffer.height == height
                &&& final(self).buffer.cells@.len() == width * height
                &&& forall|x: int, y: int|
                    0 <= x < width && 0 <= y < height ==> #[trigger] final(self).buffer.cell_at(
                        x,
                        y,
                    ) == (if x < old(self).buffer.width && y < old(self).buffer.height {
                        old(self).buffer.cell_at(x, y)
                    } else {
                        crate::cellbuf::default_cell()
                    })
                &&& final(self).buffer.dirty
                &&& final(self).buffer.damage() == Option::Some(
                    Bounds { left: 0, top: 0, right: width - 1, bottom: height - 1 },
                )
            },
    {
        self.buffer.resize(width, height)
    }

    /// The current terminal size.
    pub fn get_size(&self) -> (r: (i32, i32))
        ensures
            r.0 == self.buffer.width,
            r.1 == self.buffer.height,
    {
        (self.buffer.width, self.buffer.height)
    }

    /// Sets the foreground (text) color for all following drawing calls.
    pub fn set_foreground(&mut self, c: Attribute)
        ensures
            *final(self) == (Terminal { fg: c, ..*old(self) }),
    {
        self.fg = c;
    }

    /// Sets the background color for all following drawing calls.
    pub fn set_background(&mut self, c: Attribute)
        ensures
            *final(self) == (Terminal { bg: c, ..*old(self) }),
    {
        self.bg = c;
    }

    /// The current foreground (text) color.
    pub fn get_foreground(&self) -> (r: Attribute)
        ensures
            r == self.fg,
    {
        self.fg
    }

    /// The current background color.
    pub fn get_background(&self) -> (r: Attribute)
        ensures
            r == self.bg,
    {
        self.bg
    }

    /// Sets the value of a single cell. Fails without mutation when the
    /// coordinates are outside the grid.
    pub fn set_cell(&mut self, x: i32, y: i32, c: Cell) -> (r: bool)
        requires
            old(self).wf(),
        ensures
            final(self).wf(),
            r == old(self).buffer.in_bounds(x as int, y as int),
            Self::wrote_cell(*old(self), *final(self), x as int, y as int, c),
    {
        self.buffer.set_cell(x, y, c)
    }

    /// The current value of a single cell, or `None` outside the grid. While
    /// the buffer is dirty the value may differ from what the user sees.
    pub fn get_cell(&self, x: i32, y: i32) -> (r: Option<Cell>)
        requires
            self.wf(),
        ensures
            r == if self.buffer.in_bounds(x as int, y as int) {
                Option::Some(self.buffer.cell_at(x as int, y as int))
            } else {
                Option::None::<Cell>
            },
    {
        self.buffer.get_cell(x, y)
    }

    /// Puts a character at the given coordinates with the current attributes.
    /// Fails without mutation when the coordinates are outside the grid.
    pub fn put_char(&mut self, x: i32, y: i32, c: char) -> (r: bool)
        requires
            old(self).wf(),
        ensures
            final(self).wf(),
            r == old(self).buffer.in_bounds(x as int, y as int),
            Self::wrote_cell(*old(self), *final(self), x as int, y as int, old(self).styled(c)),
    {
        let f = self.fg;
        let b = self.bg;
        self.set_cell(x, y, Cell { ch: c, fg: f, bg: b })
    }

    /// Puts a character at the given coordinates with the given attributes,
    /// leaving the ambient attributes untouched.
    pub fn put_char_with_attrs(&mut self, x: i32, y: i32, c: char, fg: Attribute, bg: Attribute) -> (r:
        bool)
        requires
            old(self).wf(),
        ensures
            final(self).wf(),
            r == old(self).buffer.in_bounds(x as int, y as int),
            Self::wrote_cell(*old(self), *final(self), x as int, y as int, Cell { ch: c, fg, bg }),
    {
        self.set_cell(x, y, Cell { ch: c, fg, bg })
    }

    /// Puts a string left to right starting at the given coordinates, with
    /// the current attributes, honoring each character's display width.
    /// Zero-width characters are skipped without advancing; characters
    /// starting at negative columns are skipped but still advance; a
    /// double-width character landing exactly on the last column becomes a
    /// single blank; placement stops at the right edge. The call succeeds
    /// exactly when a cell is written: it fails without mutation when the
    /// row is invalid or the string's entire span lies outside the grid.
    pub fn put_string(&mut self, x: i32, y: i32, s: &str) -> (r: bool)
        requires
            old(self).wf(),
        ensures
            final(self).wf(),
            final(self).fg == old(self).fg,
            final(self).bg == old(self).bg,
            final(self).terminal == old(self).terminal,
            final(self).buffer.width == old(self).buffer.width,
            final(self).buffer.height == old(self).buffer.height,
            r == (0 <= y < old(self).buffer.height && (exists|i: int|
                #[trigger] hdraws(s@, x as int, old(self).buffer.width as int, i))),
            !r ==> *final(self) == *old(self),
            r ==> forall|i: int|
                #[trigger] hdraws(s@, x as int, old(self).buffer.width as int, i) ==> final(self).buffer.cell_at(col_of(s@, x as int, i), y as int) == (Cell {
                    ch: hdrawn_char(s@, x as int, old(self).buffer.width as int, i),
                    fg: old(self).fg,
                    bg: old(self).bg,
                }),
            r ==> forall|cx: int, cy: int|
                old(self).buffer.in_bounds(cx, cy) && !(cy == y && (exists|i: int|
                    #[trigger] hdraws(s@, x as int, old(self).buffer.width as int, i) && col_of(
                        s@,
                        x as int,
                        i,
                    ) == cx)) ==> #[trigger] final(self).buffer.cell_at(cx, cy) == old(
                    self,
                ).buffer.cell_at(cx, cy),
            row_damage_exact(old(self).buffer, final(self).buffer, y as int),
    {
        let chars = str_chars(s);
        if y < 0 || y >= self.buffer.height {
            return false;
        }
        if x >= self.buffer.width {
            proof {
                assert forall|i: int| !hdraws(s@, x as int, self.buffer.width as int, i) by {
                    if 0 <= i < s@.len() {
                        lemma_advance_mono(s@, 0, i);
                    }
                }
            }
            return false;
        }
        let count = chars.len();
        let w = self.buffer.width;
        let h = self.buffer.height;
        let mut wrote: bool = false;
        let ghost mut any: bool = false;
        let ghost mut chlo: int = 0;
        let ghost mut chhi: int = 0;
        let mut i: usize = 0;
        let mut pos: i64 = x as i64;
        while i < count && pos < (w as i64)
            invariant
                old(self).wf(),
                self.buffer.wf(),
                self.fg == old(self).fg,
                self.bg == old(self).bg,
                self.terminal == old(self).terminal,
                self.buffer.width == old(self).buffer.width,
                self.buffer.height == old(self).buffer.height,
                w == old(self).buffer.width,
                h == old(self).buffer.height,
                0 <= y < h,
                x < w,
                chars@ == s@,
                count == s@.len(),
                0 <= i <= count,
                pos == x + advance_width(s@, i as int),
                pos <= (w as int) + 255,
                wrote == (exists|j: int|
                    0 <= j < i && #[trigger] hdraws(s@, x as int, w as int, j)),
                !wrote ==> *self == *old(self),
                forall|j: int|
                    0 <= j < i && #[trigger] hdraws(s@, x as int, w as int, j)
                        ==> self.buffer.cell_at(col_of(s@, x as int, j), y as int) == (Cell {
                        ch: hdrawn_char(s@, x as int, w as int, j),
                        fg: old(self).fg,
                        bg: old(self).bg,
                    }),
                forall|cx2: int, cy2: int|
                    old(self).buffer.in_bounds(cx2, cy2) && !(cy2 == y && (exists|j: int|
                        0 <= j < i && #[trigger] hdraws(s@, x as int, w as int, j) && col_of(
                            s@,
                            x as int,
                            j,
                        ) == cx2)) ==> #[trigger] self.buffer.cell_at(cx2, cy2) == old(
                        self,
                    ).buffer.cell_at(cx2, cy2),
                !any ==> self.buffer.dirty == old(self).buffer.dirty && self.buffer.damage() == old(
                    self,
                ).buffer.damage(),
                !any ==> forall|j: int|
                    0 <= j < i && #[trigger] hdraws(s@, x as int, w as int, j) ==> old(
                        self,
                    ).buffer.cell_at(col_of(s@, x as int, j), y as int) == (Cell {
                        ch: hdrawn_char(s@, x as int, w as int, j),
                        fg: old(self).fg,
                        bg: old(self).bg,
                    }),
                any ==> {
                    &&& 0 <= chlo <= chhi < pos
                    &&& chhi < w
                    &&& (exists|j: int|
                        0 <= j < i && #[trigger] hdraws(s@, x as int, w as int, j) && col_of(
                            s@,
                            x as int,
                            j,
                        ) == chlo && old(self).buffer.cell_at(chlo, y as int) != (Cell {
                            ch: hdrawn_char(s@, x as int, w as int, j),
                            fg: old(self).fg,
                            bg: old(self).bg,
                        }))
                    &&& (exists|j: int|
                        0 <= j < i && #[trigger] hdraws(s@, x as int, w as int, j) && col_of(
                            s@,
                            x as int,
                            j,
                        ) == chhi && old(self).buffer.cell_at(chhi, y as int) != (Cell {
                            ch: hdrawn_char(s@, x as int, w as int, j),
                            fg: old(self).fg,
                            bg: old(self).bg,
                        }))
                    &&& (forall|j: int|
                        0 <= j < i && #[trigger] hdraws(s@, x as int, w as int, j) && old(
                            self,
                        ).buffer.cell_at(col_of(s@, x as int, j), y as int) != (Cell {
                            ch: hdrawn_char(s@, x as int, w as int, j),
                            fg: old(self).fg,
                            bg: old(self).bg,
                        }) ==> chlo <= col_of(s@, x as int, j) <= chhi)
                    &&& self.buffer.dirty
                    &&& self.buffer.damage() == Option::Some(
                        grow_damage(
                            Option::Some(grow_damage(old(self).buffer.damage(), chlo, y as int)),
                            chhi,
                            y as int,
                        ),
                    )
                },
            decreases count - i,
        {
            let c = chars[i];
            let cw = char_width(c);
            let wi64: i64 = match cw {
                Some(w0) => w0 as i64,
                None => 0,
            };
            let ghost prev = *self;
            proof {
                assert(wi64 == width_step(s@[i as int]));
                assert(col_of(s@, x as int, i as int) == pos);
                assert(advance_width(s@, i as int + 1) == advance_width(s@, i as int) + width_step(
                    s@[i as int],
                ));
            }
            if wi64 >= 1 && pos >= 0 {
                if pos + wi64 <= (w as i64) {
                    let cell = Cell { ch: c, fg: self.fg, bg: self.bg };
                    let ghost was = self.buffer.cell_at(pos as int, y as int);
                    self.buffer.set_cell(pos as i32, y, cell);
                    wrote = true;
                    proof {
                        assert(hdraws(s@, x as int, w as int, i as int));
                        assert(hdrawn_char(s@, x as int, w as int, i as int) == s@[i as int]);
                        if was != cell {
                            lemma_cell_update(prev.buffer, self.buffer, pos as int, y as int, cell);
                            if !any {
                                any = true;
                                chlo = pos as int;
                                chhi = pos as int;
                            } else {
                                chhi = pos as int;
                            }
                        }
                    }
                } else if wi64 == 2 && pos == (w as i64) - 1 {
                    let cell = Cell { ch: ' ', fg: self.fg, bg: self.bg };
                    let ghost was = self.buffer.cell_at(pos as int, y as int);
                    self.buffer.set_cell(pos as i32, y, cell);
                    wrote = true;
                    proof {
                        assert(hdraws(s@, x as int, w as int, i as int));
                        assert(hdrawn_char(s@, x as int, w as int, i as int) == ' ');
                        if was != cell {
                            lemma_cell_update(prev.buffer, self.buffer, pos as int, y as int, cell);
                            if !any {
                                any = true;
                                chlo = pos as int;
                                chhi = pos as int;
                            } else {
                                chhi = pos as int;
                            }
                        }
                    }
                } else {
                    proof {
                        assert(!hdraws(s@, x as int, w as int, i as int));
                    }
                }
            } else {
                proof {
                    assert(!hdraws(s@, x as int, w as int, i as int));
                }
            }
            proof {
                assert forall|j: int|
                    0 <= j < i + 1 && #[trigger] hdraws(s@, x as int, w as int, j)
                        implies self.buffer.cell_at(col_of(s@, x as int, j), y as int) == (Cell {
                        ch: hdrawn_char(s@, x as int, w as int, j),
                        fg: old(self).fg,
                        bg: old(self).bg,
                    }) by {
                    if j < i {
                        lemma_draw_cols_increase(s@, x as int, w as int, j, i as int);
                        assert(prev.buffer.cell_at(col_of(s@, x as int, j), y as int) == (Cell {
                            ch: hdrawn_char(s@, x as int, w as int, j),
                            fg: old(self).fg,
                            bg: old(self).bg,
                        }));
                    }
                }
                assert forall|cx2: int, cy2: int|
                    old(self).buffer.in_bounds(cx2, cy2) && !(cy2 == y && (exists|j: int|
                        0 <= j < i + 1 && #[trigger] hdraws(s@, x as int, w as int, j) && col_of(
                            s@,
                            x as int,
                            j,
                        ) == cx2)) implies self.buffer.cell_at(cx2, cy2) == old(
                    self,
                ).buffer.cell_at(cx2, cy2) by {
                    assert(prev.buffer.cell_at(cx2, cy2) == old(self).buffer.cell_at(cx2, cy2));
                    if hdraws(s@, x as int, w as int, i as int) {
                        assert(!(cy2 == y && cx2 == col_of(s@, x as int, i as int)));
                        assert(self.buffer.cell_at(cx2, cy2) == prev.buffer.cell_at(cx2, cy2));
                    }
                }
            }
            pos = pos + wi64;
            i += 1;
        }
        proof {
            assert forall|j: int| i <= j < count implies !hdraws(s@, x as int, w as int, j) by {
                lemma_advance_mono(s@, i as int, j);
            }
            if wrote {
                let j0 = choose|j: int| 0 <= j < i && hdraws(s@, x as int, w as int, j);
                assert(hdraws(s@, x as int, w as int, j0));
            } else {
                assert forall|j: int| !hdraws(s@, x as int, w as int, j) by {
                    if 0 <= j < i {
                        assert(!(exists|j2: int|
                            0 <= j2 < i && #[trigger] hdraws(s@, x as int, w as int, j2)));
                    }
                }
            }
            assert forall|cx2: int|
                row_cell_changed(old(self).buffer, self.buffer, y as int, cx2) == ((exists|j: int|
                    #[trigger] hdraws(s@, x as int, w as int, j) && col_of(s@, x as int, j) == cx2
                        && old(self).buffer.cell_at(cx2, y as int) != (Cell {
                        ch: hdrawn_char(s@, x as int, w as int, j),
                        fg: old(self).fg,
                        bg: old(self).bg,
                    }))) by {
                if exists|j: int|
                    0 <= j < count && #[trigger] hdraws(s@, x as int, w as int, j) && col_of(
                        s@,
                        x as int,
                        j,
                    ) == cx2 {
                    let j0 = choose|j: int|
                        0 <= j < count && #[trigger] hdraws(s@, x as int, w as int, j) && col_of(
                            s@,
                            x as int,
                            j,
                        ) == cx2;
                    assert(j0 < i);
                    assert(self.buffer.cell_at(cx2, y as int) == (Cell {
                        ch: hdrawn_char(s@, x as int, w as int, j0),
                        fg: old(self).fg,
                        bg: old(self).bg,
                    }));
                    assert(0 <= cx2 < w);
                    assert forall|j1: int|
                        #[trigger] hdraws(s@, x as int, w as int, j1) && col_of(s@, x as int, j1)
                            == cx2 implies j1 == j0 by {
                        if j1 < j0 {
                            lemma_draw_cols_increase(s@, x as int, w as int, j1, j0);
                        } else if j0 < j1 {
                            lemma_draw_cols_increase(s@, x as int, w as int, j0, j1);
                        }
                    }
                } else {
                    if 0 <= cx2 < w {
                        assert(self.buffer.cell_at(cx2, y as int) == old(self).buffer.cell_at(
                            cx2,
                            y as int,
                        ));
                    }
                }
            }
            if any {
                assert(row_cell_changed(old(self).buffer, self.buffer, y as int, chlo));
                assert(row_cell_changed(old(self).buffer, self.buffer, y as int, chhi));
                assert forall|cx2: int|
                    row_cell_changed(old(self).buffer, self.buffer, y as int, cx2) implies chlo
                    <= cx2 <= chhi by {
                    assert(row_cell_changed(old(self).buffer, self.buffer, y as int, cx2) == ((
                    exists|j: int|
                        #[trigger] hdraws(s@, x as int, w as int, j) && col_of(s@, x as int, j)
                            == cx2 && old(self).buffer.cell_at(cx2, y as int) != (Cell {
                            ch: hdrawn_char(s@, x as int, w as int, j),
                            fg: old(self).fg,
                            bg: old(self).bg,
                        }))));
                    if row_cell_changed(old(self).buffer, self.buffer, y as int, cx2) {
                        let j0 = choose|j: int|
                            #[trigger] hdraws(s@, x as int, w as int, j) && col_of(s@, x as int, j)
                                == cx2 && old(self).buffer.cell_at(cx2, y as int) != (Cell {
                                ch: hdrawn_char(s@, x as int, w as int, j),
                                fg: old(self).fg,
                                bg: old(self).bg,
                            });
                        assert(0 <= j0 < i);
                        assert(chlo <= col_of(s@, x as int, j0) <= chhi);
                    }
                }
                assert(row_damage_exact(old(self).buffer, self.buffer, y as int));
            } else {
                assert forall|cx2: int|
                    !row_cell_changed(old(self).buffer, self.buffer, y as int, cx2) by {
                    assert(row_cell_changed(old(self).buffer, self.buffer, y as int, cx2) == ((
                    exists|j: int|
                        #[trigger] hdraws(s@, x as int, w as int, j) && col_of(s@, x as int, j)
                            == cx2 && old(self).buffer.cell_at(cx2, y as int) != (Cell {
                            ch: hdrawn_char(s@, x as int, w as int, j),
                            fg: old(self).fg,
                            bg: old(self).bg,
                        }))));
                }
                assert(row_damage_exact(old(self).buffer, self.buffer, y as int));
            }
        }
        wrote
    }

    /// Temporarily changes the attributes and puts a string left to right,
    /// restoring the ambient attributes on every exit path.
    pub fn put_string_with_attrs(
        &mut self,
        x: i32,
        y: i32,
        s: &str,
        fg: Attribute,
        bg: Attribute,
    ) -> (r: bool)
        requires
            old(self).wf(),
        ensures
            final(self).wf(),
            final(self).fg == old(self).fg,
            final(self).bg == old(self).bg,
            final(self).terminal == old(self).terminal,
            final(self).buffer.width == old(self).buffer.width,
            final(self).buffer.height == old(self).buffer.height,
            r == (0 <= y < old(self).buffer.height && (exists|i: int|
                #[trigger] hdraws(s@, x as int, old(self).buffer.width as int, i))),
            !r ==> final(self).buffer == old(self).buffer,
            r ==> forall|i: int|
                #[trigger] hdraws(s@, x as int, old(self).buffer.width as int, i) ==> final(self).buffer.cell_at(col_of(s@, x as int, i), y as int) == (Cell {
                    ch: hdrawn_char(s@, x as int, old(self).buffer.width as int, i),
                    fg,
                    bg,
                }),
            r ==> forall|cx: int, cy: int|
                old(self).buffer.in_bounds(cx, cy) && !(cy == y && (exists|i: int|
                    #[trigger] hdraws(s@, x as int, old(self).buffer.width as int, i) && col_of(
                        s@,
                        x as int,
                        i,
                    ) == cx)) ==> #[trigger] final(self).buffer.cell_at(cx, cy) == old(
                    self,
                ).buffer.cell_at(cx, cy),
            row_damage_exact(old(self).buffer, final(self).buffer, y as int),
    {
        let f_save = self.fg;
        let b_save = self.bg;
        self.fg = fg;
        self.bg = bg;
        let res = self.put_string(x, y, s);
        self.bg = b_save;
        self.fg = f_save;
        res
    }

    /// Puts a string from top to bottom starting at the given coordinates,
    /// one character per row, with the current attributes. Characters landing
    /// above the grid are skipped; placement stops at the bottom edge. The
    /// call succeeds exactly when a cell is written: it fails without
    /// mutation when the column is invalid or the string's entire vertical
    /// span misses the grid.
    pub fn put_string_vertical(&mut self, x: i32, y: i32, s: &str) -> (r: bool)
        requires
            old(self).wf(),
            s@.len() <= 0x7fff_ffff,
        ensures
            final(self).wf(),
            final(self).fg == old(self).fg,
            final(self).bg == old(self).bg,
            final(self).terminal == old(self).terminal,
            final(self).buffer.width == old(self).buffer.width,
            final(self).buffer.height == old(self).buffer.height,
            r == (0 <= x < old(self).buffer.width && clip_lo(y as int) < clip_hi(
                y as int,
                s@.len() as int,
                old(self).buffer.height as int,
            )),
            !r ==> *final(self) == *old(self),
            r ==> forall|cy: int|
                clip_lo(y as int) <= cy < clip_hi(
                    y as int,
                    s@.len() as int,
                    old(self).buffer.height as int,
                ) ==> #[trigger] final(self).buffer.cell_at(x as int, cy) == (Cell {
                    ch: s@[cy - y],
                    fg: old(self).fg,
                    bg: old(self).bg,
                }),
            r ==> forall|cx: int, cy: int|
                old(self).buffer.in_bounds(cx, cy) && !(cx == x && clip_lo(y as int) <= cy
                    < clip_hi(y as int, s@.len() as int, old(self).buffer.height as int))
                    ==> #[trigger] final(self).buffer.cell_at(cx, cy) == old(self).buffer.cell_at(
                    cx,
                    cy,
                ),
            col_damage_exact(old(self).buffer, final(self).buffer, x as int),
    {
        let chars = str_chars(s);
        if x < 0 || x >= self.buffer.width || y >= self.buffer.height {
            return false;
        }
        let count = chars.len();
        let lo: i32 = if y < 0 {
            0
        } else {
            y
        };
        let hi64: i64 = if (y as i64) + (count as i64) > (self.buffer.height as i64) {
            self.buffer.height as i64
        } else {
            (y as i64) + (count as i64)
        };
        if (lo as i64) >= hi64 {
            return false;
        }
        let w = self.buffer.width;
        let h = self.buffer.height;
        let ghost mut any: bool = false;
        let ghost mut chlo: int = 0;
        let ghost mut chhi: int = 0;
        let mut i: usize = 0;
        let mut pos: i32 = y;
        while i < count && pos < h
            invariant
                old(self).wf(),
                self.buffer.wf(),
                self.fg == old(self).fg,
                self.bg == old(self).bg,
                self.terminal == old(self).terminal,
                self.buffer.width == old(self).buffer.width,
                self.buffer.height == old(self).buffer.height,
                w == old(self).buffer.width,
                h == old(self).buffer.height,
                0 <= x < w,
                y < h,
                chars@ == s@,
                count == s@.len(),
                count <= 0x7fff_ffff,
                0 <= i <= count,
                pos == y + i,
                pos <= h,
                forall|cy2: int|
                    clip_lo(y as int) <= cy2 < y + i ==> #[trigger] self.buffer.cell_at(
                        x as int,
                        cy2,
                    ) == (Cell { ch: s@[cy2 - y], fg: old(self).fg, bg: old(self).bg }),
                forall|cx2: int, cy2: int|
                    old(self).buffer.in_bounds(cx2, cy2) && !(cx2 == x && clip_lo(y as int) <= cy2
                        < y + i) ==> #[trigger] self.buffer.cell_at(cx2, cy2) == old(
                        self,
                    ).buffer.cell_at(cx2, cy2),
                !any ==> self.buffer.dirty == old(self).buffer.dirty && self.buffer.damage() == old(
                    self,
                ).buffer.damage(),
                !any ==> forall|cy2: int|
                    clip_lo(y as int) <= cy2 < y + i ==> #[trigger] old(self).buffer.cell_at(
                        x as int,
                        cy2,
                    ) == (Cell { ch: s@[cy2 - y], fg: old(self).fg, bg: old(self).bg }),
                any ==> {
                    &&& clip_lo(y as int) <= chlo <= chhi < y + i
                    &&& old(self).buffer.cell_at(x as int, chlo) != (Cell {
                        ch: s@[chlo - y],
                        fg: old(self).fg,
                        bg: old(self).bg,
                    })
                    &&& old(self).buffer.cell_at(x as int, chhi) != (Cell {
                        ch: s@[chhi - y],
                        fg: old(self).fg,
                        bg: old(self).bg,
                    })
                    &&& (forall|cy2: int|
                        clip_lo(y as int) <= cy2 < y + i && #[trigger] old(self).buffer.cell_at(
                            x as int,
                            cy2,
                        ) != (Cell { ch: s@[cy2 - y], fg: old(self).fg, bg: old(self).bg })
                            ==> chlo <= cy2 <= chhi)
                    &&& self.buffer.dirty
                    &&& self.buffer.damage() == Option::Some(
                        grow_damage(
                            Option::Some(grow_damage(old(self).buffer.damage(), x as int, chlo)),
                            x as int,
                            chhi,
                        ),
                    )
                },
            decreases count - i,
        {
            let c = chars[i];
            let cell = Cell { ch: c, fg: self.fg, bg: self.bg };
            let ghost prev = *self;
            let ghost was = self.buffer.cell_at(x as int, pos as int);
            if pos >= 0 {
                self.buffer.set_cell(x, pos, cell);
                proof {
                    assert(was == old(self).buffer.cell_at(x as int, pos as int));
                    if was != cell {
                        lemma_cell_update(
                            prev.buffer,
                            self.buffer,
                            x as int,
                            pos as int,
                            cell,
                        );
                    }
                    assert forall|cx2: int, cy2: int|
                        old(self).buffer.in_bounds(cx2, cy2) implies self.buffer.cell_at(cx2, cy2)
                        == if cx2 == x && clip_lo(y as int) <= cy2 < y + i + 1 {
                        (Cell { ch: s@[cy2 - y], fg: old(self).fg, bg: old(self).bg })
                    } else {
                        old(self).buffer.cell_at(cx2, cy2)
                    } by {
                        if cx2 == x as int {
                            assert(prev.buffer.cell_at(x as int, cy2) == if clip_lo(y as int)
                                <= cy2 < y + i {
                                (Cell { ch: s@[cy2 - y], fg: old(self).fg, bg: old(self).bg })
                            } else {
                                old(self).buffer.cell_at(x as int, cy2)
                            });
                        } else {
                            assert(prev.buffer.cell_at(cx2, cy2) == old(self).buffer.cell_at(
                                cx2,
                                cy2,
                            ));
                        }
                        if !(cx2 == x as int && cy2 == pos as int) {
                            assert(self.buffer.cell_at(cx2, cy2) == prev.buffer.cell_at(
                                cx2,
                                cy2,
                            ));
                        }
                    }
                    if was != cell {
                        if !any {
                            any = true;
                            chlo = pos as int;
                            chhi = pos as int;
                        } else {
                            chhi = pos as int;
                        }
                    }
                }
            }
            pos += 1;
            i += 1;
        }
        proof {
            assert(y + i == clip_hi(y as int, s@.len() as int, h as int));
            assert forall|cy2: int|
                col_cell_changed(old(self).buffer, self.buffer, x as int, cy2) == (clip_lo(
                    y as int,
                ) <= cy2 < y + i && old(self).buffer.cell_at(x as int, cy2) != (Cell {
                    ch: s@[cy2 - y],
                    fg: old(self).fg,
                    bg: old(self).bg,
                })) by {
                if 0 <= cy2 < h {
                    assert(self.buffer.cell_at(x as int, cy2) == if clip_lo(y as int) <= cy2 < y
                        + i {
                        (Cell { ch: s@[cy2 - y], fg: old(self).fg, bg: old(self).bg })
                    } else {
                        old(self).buffer.cell_at(x as int, cy2)
                    });
                }
            }
            if any {
                assert(col_cell_changed(old(self).buffer, self.buffer, x as int, chlo));
                assert(col_cell_changed(old(self).buffer, self.buffer, x as int, chhi));
                assert forall|cy2: int|
                    col_cell_changed(old(self).buffer, self.buffer, x as int, cy2) implies chlo
                    <= cy2 <= chhi by {
                    assert(col_cell_changed(old(self).buffer, self.buffer, x as int, cy2) == (
                    clip_lo(y as int) <= cy2 < y + i && old(self).buffer.cell_at(x as int, cy2)
                        != (Cell { ch: s@[cy2 - y], fg: old(self).fg, bg: old(self).bg })));
                }
                assert(col_damage_exact(old(self).buffer, self.buffer, x as int));
            } else {
                assert forall|cy2: int|
                    !col_cell_changed(old(self).buffer, self.buffer, x as int, cy2) by {
                    assert(col_cell_changed(old(self).buffer, self.buffer, x as int, cy2) == (
                    clip_lo(y as int) <= cy2 < y + i && old(self).buffer.cell_at(x as int, cy2)
                        != (Cell { ch: s@[cy2 - y], fg: old(self).fg, bg: old(self).bg })));
                }
                assert(col_damage_exact(old(self).buffer, self.buffer, x as int));
            }
        }
        true
    }

    /// Temporarily changes the attributes and puts a string from top to
    /// bottom, restoring the ambient attributes on every exit path; it
    /// succeeds exactly when the base call writes a cell.
    pub fn put_string_vertical_with_attrs(
        &mut self,
        x: i32,
        y: i32,
        s: &str,
        fg: Attribute,
        bg: Attribute,
    ) -> (r: bool)
        requires
            old(self).wf(),
            s@.len() <= 0x7fff_ffff,
        ensures
            final(self).wf(),
            final(self).fg == old(self).fg,
            final(self).bg == old(self).bg,
            final(self).terminal == old(self).terminal,
            final(self).buffer.width == old(self).buffer.width,
            final(self).buffer.height == old(self).buffer.height,
            r == (0 <= x < old(self).buffer.width && clip_lo(y as int) < clip_hi(
                y as int,
                s@.len() as int,
                old(self).buffer.height as int,
            )),
            !r ==> final(self).buffer == old(self).buffer,
            r ==> forall|cy: int|
                clip_lo(y as int) <= cy < clip_hi(
                    y as int,
                    s@.len() as int,
                    old(self).buffer.height as int,
                ) ==> #[trigger] final(self).buffer.cell_at(x as int, cy) == (Cell {
                    ch: s@[cy - y],
                    fg,
                    bg,
                }),
            r ==> forall|cx: int, cy: int|
                old(self).buffer.in_bounds(cx, cy) && !(cx == x && clip_lo(y as int) <= cy
                    < clip_hi(y as int, s@.len() as int, old(self).buffer.height as int))
                    ==> #[trigger] final(self).buffer.cell_at(cx, cy) == old(self).buffer.cell_at(
                    cx,
                    cy,
                ),
            col_damage_exact(old(self).buffer, final(self).buffer, x as int),
    {
        let f_save = self.fg;
        let b_save = self.bg;
        self.fg = fg;
        self.bg = bg;
        let res = self.put_string_vertical(x, y, s);
        self.bg = b_save;
        self.fg = f_save;
        res
    }

    /// Puts a horizontal line of `length` copies of `c` starting at the given
    /// coordinates, with the current attributes. The run is clipped at both
    /// grid edges; the call fails without mutation when the row is invalid or
    /// the whole run lies outside the grid.
    pub fn put_horizontal_line(&mut self, x: i32, y: i32, length: i32, c: char) -> (r: bool)
        requires
            old(self).wf(),
        ensures
            final(self).wf(),
            final(self).fg == old(self).fg,
            final(self).bg == old(self).bg,
            final(self).terminal == old(self).terminal,
            final(self).buffer.width == old(self).buffer.width,
            final(self).buffer.height == old(self).buffer.height,
            r == (0 <= y < old(self).buffer.height && clip_lo(x as int) < clip_hi(
                x as int,
                length as int,
                old(self).buffer.width as int,
            )),
            !r ==> *final(self) == *old(self),
            r ==> forall|cx: int|
                clip_lo(x as int) <= cx < clip_hi(
                    x as int,
                    length as int,
                    old(self).buffer.width as int,
                ) ==> #[trigger] final(self).buffer.cell_at(cx, y as int) == old(self).styled(c),
            r ==> forall|cx: int, cy: int|
                old(self).buffer.in_bounds(cx, cy) && !(cy == y && clip_lo(x as int) <= cx
                    < clip_hi(x as int, length as int, old(self).buffer.width as int))
                    ==> #[trigger] final(self).buffer.cell_at(cx, cy) == old(self).buffer.cell_at(
                    cx,
                    cy,
                ),
            row_damage_exact(old(self).buffer, final(self).buffer, y as int),
    {
        if y < 0 || y >= self.buffer.height || x >= self.buffer.width {
            return false;
        }
        let w = self.buffer.width;
        let lo: i32 = if x < 0 {
            0
        } else {
            x
        };
        let hi64: i64 = if (x as i64) + (length as i64) > (w as i64) {
            w as i64
        } else {
            (x as i64) + (length as i64)
        };
        if (lo as i64) >= hi64 {
            return false;
        }
        let hi: i32 = hi64 as i32;
        let cell = Cell { ch: c, fg: self.fg, bg: self.bg };
        let ghost mut any: bool = false;
        let ghost mut chlo: int = 0;
        let ghost mut chhi: int = 0;
        let mut cx: i32 = lo;
        while cx < hi
            invariant
                old(self).wf(),
                self.buffer.wf(),
                self.fg == old(self).fg,
                self.bg == old(self).bg,
                self.terminal == old(self).terminal,
                self.buffer.width == old(self).buffer.width,
                self.buffer.height == old(self).buffer.height,
                w == old(self).buffer.width,
                0 <= y < old(self).buffer.height,
                0 <= lo <= cx <= hi <= w,
                lo == clip_lo(x as int),
                hi == clip_hi(x as int, length as int, w as int),
                cell == old(self).styled(c),
                forall|cx2: int|
                    lo <= cx2 < cx ==> #[trigger] self.buffer.cell_at(cx2, y as int) == cell,
                forall|cx2: int, cy2: int|
                    old(self).buffer.in_bounds(cx2, cy2) && !(cy2 == y && lo <= cx2 < cx)
                        ==> #[trigger] self.buffer.cell_at(cx2, cy2) == old(self).buffer.cell_at(
                        cx2,
                        cy2,
                    ),
                !any ==> self.buffer.dirty == old(self).buffer.dirty && self.buffer.damage() == old(
                    self,
                ).buffer.damage(),
                !any ==> forall|cx2: int|
                    lo <= cx2 < cx ==> #[trigger] old(self).buffer.cell_at(cx2, y as int) == cell,
                any ==> {
                    &&& lo <= chlo <= chhi < cx
                    &&& old(self).buffer.cell_at(chlo, y as int) != cell
                    &&& old(self).buffer.cell_at(chhi, y as int) != cell
                    &&& (forall|cx2: int|
                        lo <= cx2 < cx && #[trigger] old(self).buffer.cell_at(cx2, y as int)
                            != cell ==> chlo <= cx2 <= chhi)
                    &&& self.buffer.dirty
                    &&& self.buffer.damage() == Option::Some(
                        grow_damage(
                            Option::Some(grow_damage(old(self).buffer.damage(), chlo, y as int)),
                            chhi,
                            y as int,
                        ),
                    )
                },
            decreases hi - cx,
        {
            let ghost prev = *self;
            let ghost was = self.buffer.cell_at(cx as int, y as int);
            self.buffer.set_cell(cx, y, cell);
            proof {
                lemma_flat_idx_inj(w as int);
                lemma_flat_idx_bounds(w as int, old(self).buffer.height as int, cx as int, y as int);
                assert(flat_idx(w as int, cx as int, y as int) == y * w + cx);
                assert(was == old(self).buffer.cell_at(cx as int, y as int));
                assert forall|cx2: int, cy2: int|
                    old(self).buffer.in_bounds(cx2, cy2) implies self.buffer.cell_at(cx2, cy2)
                    == if cy2 == y && lo <= cx2 < cx + 1 {
                    cell
                } else {
                    old(self).buffer.cell_at(cx2, cy2)
                } by {
                    lemma_flat_idx_bounds(w as int, old(self).buffer.height as int, cx2, cy2);
                    if cy2 == y as int {
                        assert(prev.buffer.cell_at(cx2, y as int) == if lo <= cx2 < cx {
                            cell
                        } else {
                            old(self).buffer.cell_at(cx2, y as int)
                        });
                    } else {
                        assert(prev.buffer.cell_at(cx2, cy2) == old(self).buffer.cell_at(
                            cx2,
                            cy2,
                        ));
                    }
                    if flat_idx(w as int, cx2, cy2) == flat_idx(w as int, cx as int, y as int) {
                        assert(cx2 == cx && cy2 == y);
                    }
                }
                if was != cell {
                    if !any {
                        any = true;
                        chlo = cx as int;
                        chhi = cx as int;
                    } else {
                        chhi = cx as int;
                    }
                }
            }
            cx += 1;
        }
        proof {
            assert forall|cx2: int|
                row_cell_changed(old(self).buffer, self.buffer, y as int, cx2) == (lo <= cx2 < hi
                    && old(self).buffer.cell_at(cx2, y as int) != cell) by {
                if 0 <= cx2 < w {
                    assert(self.buffer.cell_at(cx2, y as int) == if lo <= cx2 < hi {
                        cell
                    } else {
                        old(self).buffer.cell_at(cx2, y as int)
                    });
                }
            }
            if any {
                assert(row_cell_changed(old(self).buffer, self.buffer, y as int, chlo));
                assert(row_cell_changed(old(self).buffer, self.buffer, y as int, chhi));
                assert forall|cx2: int|
                    row_cell_changed(old(self).buffer, self.buffer, y as int, cx2) implies chlo
                    <= cx2 <= chhi by {
                    assert(row_cell_changed(old(self).buffer, self.buffer, y as int, cx2) == (lo
                        <= cx2 < hi && old(self).buffer.cell_at(cx2, y as int) != cell));
                }
                assert(row_damage_exact(old(self).buffer, self.buffer, y as int));
            } else {
                assert forall|cx2: int|
                    !row_cell_changed(old(self).buffer, self.buffer, y as int, cx2) by {
                    assert(row_cell_changed(old(self).buffer, self.buffer, y as int, cx2) == (lo
                        <= cx2 < hi && old(self).buffer.cell_at(cx2, y as int) != cell));
                    if lo <= cx2 < hi {
                        assert(old(self).buffer.cell_at(cx2, y as int) == cell);
                    }
                }
                assert(row_damage_exact(old(self).buffer, self.buffer, y as int));
            }
        }
        true
    }

    /// Puts a horizontal line with the given attributes, restoring the
    /// ambient attributes on every exit path.
    pub fn put_horizontal_line_with_attrs(
        &mut self,
        x: i32,
        y: i32,
        length: i32,
        c: char,
        fg: Attribute,
        bg: Attribute,
    ) -> (r: bool)
        requires
            old(self).wf(),
        ensures
            final(self).wf(),
            final(self).fg == old(self).fg,
            final(self).bg == old(self).bg,
            final(self).terminal == old(self).terminal,
            final(self).buffer.width == old(self).buffer.width,
            final(self).buffer.height == old(self).buffer.height,
            r == (0 <= y < old(self).buffer.height && clip_lo(x as int) < clip_hi(
                x as int,
                length as int,
                old(self).buffer.width as int,
            )),
            !r ==> final(self).buffer == old(self).buffer,
            r ==> forall|cx: int|
                clip_lo(x as int) <= cx < clip_hi(
                    x as int,
                    length as int,
                    old(self).buffer.width as int,
                ) ==> #[trigger] final(self).buffer.cell_at(cx, y as int) == (Cell {
                    ch: c,
                    fg,
                    bg,
                }),
            r ==> forall|cx: int, cy: int|
                old(self).buffer.in_bounds(cx, cy) && !(cy == y && clip_lo(x as int) <= cx
                    < clip_hi(x as int, length as int, old(self).buffer.width as int))
                    ==> #[trigger] final(self).buffer.cell_at(cx, cy) == old(self).buffer.cell_at(
                    cx,
                    cy,
                ),
            row_damage_exact(old(self).buffer, final(self).buffer, y as int),
    {
        let f_save = self.fg;
        let b_save = self.bg;
        self.fg = fg;
        self.bg = bg;
        let res = self.put_horizontal_line(x, y, length, c);
        self.bg = b_save;
        self.fg = f_save;
        res
    }

    /// Puts a vertical line of `length` copies of `c` starting at the given
    /// coordinates, with the current attributes. The run is clipped at both
    /// grid edges; the call fails without mutation when the column is invalid
    /// or the whole run lies outside the grid.
    pub fn put_vertical_line(&mut self, x: i32, y: i32, length: i32, c: char) -> (r: bool)
        requires
            old(self).wf(),
        ensures
            final(self).wf(),
            final(self).fg == old(self).fg,
            final(self).bg == old(self).bg,
            final(self).terminal == old(self).terminal,
            final(self).buffer.width == old(self).buffer.width,
            final(self).buffer.height == old(self).buffer.height,
            r == (0 <= x < old(self).buffer.width && clip_lo(y as int) < clip_hi(
                y as int,
                length as int,
                old(self).buffer.height as int,
            )),
            !r ==> *final(self) == *old(self),
            r ==> forall|cy: int|
                clip_lo(y as int) <= cy < clip_hi(
                    y as int,
                    length as int,
                    old(self).buffer.height as int,
                ) ==> #[trigger] final(self).buffer.cell_at(x as int, cy) == old(self).styled(c),
            r ==> forall|cx: int, cy: int|
                old(self).buffer.in_bounds(cx, cy) && !(cx == x && clip_lo(y as int) <= cy
                    < clip_hi(y as int, length as int, old(self).buffer.height as int))
                    ==> #[trigger] final(self).buffer.cell_at(cx, cy) == old(self).buffer.cell_at(
                    cx,
                    cy,
                ),
            col_damage_exact(old(self).buffer, final(self).buffer, x as int),
    {
        if x < 0 || x >= self.buffer.width || y >= self.buffer.height {
            return false;
        }
        let w = self.buffer.width;
        let h = self.buffer.height;
        let lo: i32 = if y < 0 {
            0
        } else {
            y
        };
        let hi64: i64 = if (y as i64) + (length as i64) > (h as i64) {
            h as i64
        } else {
            (y as i64) + (length as i64)
        };
        if (lo as i64) >= hi64 {
            return false;
        }
        let hi: i32 = hi64 as i32;
        let cell = Cell { ch: c, fg: self.fg, bg: self.bg };
        let ghost mut any: bool = false;
        let ghost mut chlo: int = 0;
        let ghost mut chhi: int = 0;
        let mut cy: i32 = lo;
        while cy < hi
            invariant
                old(self).wf(),
                self.buffer.wf(),
                self.fg == old(self).fg,
                self.bg == old(self).bg,
                self.terminal == old(self).terminal,
                self.buffer.width == old(self).buffer.width,
                self.buffer.height == old(self).buffer.height,
                w == old(self).buffer.width,
                h == old(self).buffer.height,
                0 <= x < w,
                0 <= lo <= cy <= hi <= h,
                lo == clip_lo(y as int),
                hi == clip_hi(y as int, length as int, h as int),
                cell == old(self).styled(c),
                forall|cy2: int|
                    lo <= cy2 < cy ==> #[trigger] self.buffer.cell_at(x as int, cy2) == cell,
                forall|cx2: int, cy2: int|
                    old(self).buffer.in_bounds(cx2, cy2) && !(cx2 == x && lo <= cy2 < cy)
                        ==> #[trigger] self.buffer.cell_at(cx2, cy2) == old(self).buffer.cell_at(
                        cx2,
                        cy2,
                    ),
                !any ==> self.buffer.dirty == old(self).buffer.dirty && self.buffer.damage() == old(
                    self,
                ).buffer.damage(),
                !any ==> forall|cy2: int|
                    lo <= cy2 < cy ==> #[trigger] old(self).buffer.cell_at(x as int, cy2) == cell,
                any ==> {
                    &&& lo <= chlo <= chhi < cy
                    &&& old(self).buffer.cell_at(x as int, chlo) != cell
                    &&& old(self).buffer.cell_at(x as int, chhi) != cell
                    &&& (forall|cy2: int|
                        lo <= cy2 < cy && #[trigger] old(self).buffer.cell_at(x as int, cy2)
                            != cell ==> chlo <= cy2 <= chhi)
                    &&& self.buffer.dirty
                    &&& self.buffer.damage() == Option::Some(
                        grow_damage(
                            Option::Some(grow_damage(old(self).buffer.damage(), x as int, chlo)),
                            x as int,
                            chhi,
                        ),
                    )
                },
            decreases hi - cy,
        {
            let ghost prev = *self;
            let ghost was = self.buffer.cell_at(x as int, cy as int);
            self.buffer.set_cell(x, cy, cell);
            proof {
                lemma_flat_idx_inj(w as int);
                lemma_flat_idx_bounds(w as int, h as int, x as int, cy as int);
                assert(flat_idx(w as int, x as int, cy as int) == cy * w + x);
                assert(was == old(self).buffer.cell_at(x as int, cy as int));
                assert forall|cx2: int, cy2: int|
                    old(self).buffer.in_bounds(cx2, cy2) implies self.buffer.cell_at(cx2, cy2)
                    == if cx2 == x && lo <= cy2 < cy + 1 {
                    cell
                } else {
                    old(self).buffer.cell_at(cx2, cy2)
                } by {
                    lemma_flat_idx_bounds(w as int, h as int, cx2, cy2);
                    if cx2 == x as int {
                        assert(prev.buffer.cell_at(x as int, cy2) == if lo <= cy2 < cy {
                            cell
                        } else {
                            old(self).buffer.cell_at(x as int, cy2)
                        });
                    } else {
                        assert(prev.buffer.cell_at(cx2, cy2) == old(self).buffer.cell_at(
                            cx2,
                            cy2,
                        ));
                    }
                    if flat_idx(w as int, cx2, cy2) == flat_idx(w as int, x as int, cy as int) {
                        assert(cx2 == x && cy2 == cy);
                    }
                }
                if was != cell {
                    if !any {
                        any = true;
                        chlo = cy as int;
                        chhi = cy as int;
                    } else {
                        chhi = cy as int;
                    }
                }
            }
            cy += 1;
        }
        proof {
            assert forall|cy2: int|
                col_cell_changed(old(self).buffer, self.buffer, x as int, cy2) == (lo <= cy2 < hi
                    && old(self).buffer.cell_at(x as int, cy2) != cell) by {
                if 0 <= cy2 < h {
                    assert(self.buffer.cell_at(x as int, cy2) == if lo <= cy2 < hi {
                        cell
                    } else {
                        old(self).buffer.cell_at(x as int, cy2)
                    });
                }
            }
            if any {
                assert(col_cell_changed(old(self).buffer, self.buffer, x as int, chlo));
                assert(col_cell_changed(old(self).buffer, self.buffer, x as int, chhi));
                assert forall|cy2: int|
                    col_cell_changed(old(self).buffer, self.buffer, x as int, cy2) implies chlo
                    <= cy2 <= chhi by {
                    assert(col_cell_changed(old(self).buffer, self.buffer, x as int, cy2) == (lo
                        <= cy2 < hi && old(self).buffer.cell_at(x as int, cy2) != cell));
                }
                assert(col_damage_exact(old(self).buffer, self.buffer, x as int));
            } else {
                assert forall|cy2: int|
                    !col_cell_changed(old(self).buffer, self.buffer, x as int, cy2) by {
                    assert(col_cell_changed(old(self).buffer, self.buffer, x as int, cy2) == (lo
                        <= cy2 < hi && old(self).buffer.cell_at(x as int, cy2) != cell));
                    if lo <= cy2 < hi {
                        assert(old(self).buffer.cell_at(x as int, cy2) == cell);
                    }
                }
                assert(col_damage_exact(old(self).buffer, self.buffer, x as int));
            }
        }
        true
    }

    /// Puts a vertical line with the given attributes, restoring the ambient
    /// attributes on every exit path.
    pub fn put_vertical_line_with_attrs(
        &mut self,
        x: i32,
        y: i32,
        length: i32,
        c: char,
        fg: Attribute,
        bg: Attribute,
    ) -> (r: bool)
        requires
            old(self).wf(),
        ensures
            final(self).wf(),
            final(self).fg == old(self).fg,
            final(self).bg == old(self).bg,
            final(self).terminal == old(self).terminal,
            final(self).buffer.width == old(self).buffer.width,
            final(self).buffer.height == old(self).buffer.height,
            r == (0 <= x < old(self).buffer.width && clip_lo(y as int) < clip_hi(
                y as int,
                length as int,
                old(self).buffer.height as int,
            )),
            !r ==> final(self).buffer == old(self).buffer,
            r ==> forall|cy: int|
                clip_lo(y as int) <= cy < clip_hi(
                    y as int,
                    length as int,
                    old(self).buffer.height as int,
                ) ==> #[trigger] final(self).buffer.cell_at(x as int, cy) == (Cell {
                    ch: c,
                    fg,
                    bg,
                }),
            r ==> forall|cx: int, cy: int|
                old(self).buffer.in_bounds(cx, cy) && !(cx == x && clip_lo(y as int) <= cy
                    < clip_hi(y as int, length as int, old(self).buffer.height as int))
                    ==> #[trigger] final(self).buffer.cell_at(cx, cy) == old(self).buffer.cell_at(
                    cx,
                    cy,
                ),
            col_damage_exact(old(self).buffer, final(self).buffer, x as int),
    {
        let f_save = self.fg;
        let b_save = self.bg;
        self.fg = fg;
        self.bg = bg;
        let res = self.put_vertical_line(x, y, length, c);
        self.bg = b_save;
        self.fg = f_save;
        res
    }

    /// Moves the terminal cursor through the backend.
    pub fn set_cursor_pos(&self, x: i16, y: i16) -> Result<(), String> {
        self.terminal.set_cursor_pos(x, y)
    }

    /// Returns the current cursor position from the backend.
    pub fn get_cursor_pos(&self) -> Result<CursorInfo, String> {
        self.terminal.get_cursor_pos()
    }
}

} // verus!
