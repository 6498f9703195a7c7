//! The cell grid buffer with damage (dirty-rectangle) tracking.
//!
//! `CellBuf` holds a row-major grid of cells together with a damage rectangle:
//! the minimal bounding box of every coordinate changed since the last reset.
//! Flushing can therefore send only the damaged area to the real terminal.

use vstd::prelude::*;

use crate::common::{Attribute, Cell, COLOR_DEFAULT};

verus! {

const DEFAULT_FG: Attribute = COLOR_DEFAULT;
const DEFAULT_BG: Attribute = COLOR_DEFAULT;

/// The cell every grid position holds before anything is drawn:
/// a space with default foreground and background.
pub open spec fn default_cell() -> Cell {
    Cell { ch: ' ', fg: COLOR_DEFAULT, bg: COLOR_DEFAULT }
}

/// Row-major index of grid coordinates in a grid of width `w`.
pub open spec fn flat_idx(w: int, x: int, y: int) -> int {
    y * w + x
}

pub(crate) proof fn lemma_flat_idx_bounds(w: int, h: int, x: int, y: int)
    requires
        1 <= w,
        1 <= h,
        0 <= x < w,
        0 <= y < h,
    ensures
        0 <= y * w,
        0 <= flat_idx(w, x, y) < w * h,
{
    assert(0 <= y * w && 0 <= y * w + x < w * h) by (nonlinear_arith)
        requires
            1 <= w,
            1 <= h,
            0 <= x < w,
            0 <= y < h,
    ;
}

pub(crate) proof fn lemma_flat_idx_inj(w: int)
    requires
        1 <= w,
    ensures
        forall|x1: int, y1: int, x2: int, y2: int|
            #![trigger flat_idx(w, x1, y1), flat_idx(w, x2, y2)]
            0 <= x1 < w && 0 <= x2 < w && flat_idx(w, x1, y1) == flat_idx(w, x2, y2) ==> x1 == x2
                && y1 == y2,
{
    assert forall|x1: int, y1: int, x2: int, y2: int|
        #![trigger flat_idx(w, x1, y1), flat_idx(w, x2, y2)]
        0 <= x1 < w && 0 <= x2 < w && flat_idx(w, x1, y1) == flat_idx(w, x2, y2) implies x1 == x2
        && y1 == y2 by {
        assert(x1 == x2 && y1 == y2) by (nonlinear_arith)
            requires
                1 <= w,
                0 <= x1 < w,
                0 <= x2 < w,
                y1 * w + x1 == y2 * w + x2,
        ;
    }
}

/// Cell-level view of one write: after updating the flat index of `(x, y)`
/// with `c`, that cell holds `c` and every other cell is unchanged.
pub(crate) proof fn lemma_cell_update(pre: CellBuf, post: CellBuf, x: int, y: int, c: Cell)
    requires
        pre.wf(),
        pre.in_bounds(x, y),
        post.width == pre.width,
        post.height == pre.height,
        post.cells@ == pre.cells@.update(flat_idx(pre.width as int, x, y), c),
    ensures
        post.cell_at(x, y) == c,
        forall|x2: int, y2: int|
            pre.in_bounds(x2, y2) && !(x2 == x && y2 == y) ==> #[trigger] post.cell_at(x2, y2)
                == pre.cell_at(x2, y2),
{
    lemma_flat_idx_inj(pre.width as int);
    lemma_flat_idx_bounds(pre.width as int, pre.height as int, x, y);
    assert forall|x2: int, y2: int|
        pre.in_bounds(x2, y2) && !(x2 == x && y2 == y) implies #[trigger] post.cell_at(x2, y2)
        == pre.cell_at(x2, y2) by {
        lemma_flat_idx_bounds(pre.width as int, pre.height as int, x2, y2);
        assert(flat_idx(pre.width as int, x2, y2) != flat_idx(pre.width as int, x, y));
    }
}

/// Spec-level damage rectangle: a bounding box of changed coordinates.
pub ghost struct Bounds {
    pub left: int,
    pub top: int,
    pub right: int,
    pub bottom: int,
}

/// Bounding box of a damage area together with one more changed coordinate.
pub open spec fn grow_damage(d: Option<Bounds>, x: int, y: int) -> Bounds {
    match d {
        Option::None => Bounds { left: x, top: y, right: x, bottom: y },
        Option::Some(b) => Bounds {
            left: if x < b.left { x } else { b.left },
            top: if y < b.top { y } else { b.top },
            right: if x > b.right { x } else { b.right },
            bottom: if y > b.bottom { y } else { b.bottom },
        },
    }
}

/// Whether the damage area `d` covers the coordinate `(x, y)`.
pub open spec fn bounds_has(d: Option<Bounds>, x: int, y: int) -> bool {
    match d {
        Option::None => false,
        Option::Some(b) => b.left <= x <= b.right && b.top <= y <= b.bottom,
    }
}

/// The damage area reached from `d0` after cell changes at each coordinate of
/// `pts`, in order.
pub open spec fn damage_after(d0: Option<Bounds>, pts: Seq<(int, int)>) -> Option<Bounds>
    decreases pts.len(),
{
    if pts.len() == 0 {
        d0
    } else {
        Option::Some(grow_damage(damage_after(d0, pts.drop_last()), pts.last().0, pts.last().1))
    }
}

/// The damage rectangle accumulated over any run of cell changes is the exact
/// bounding box of the changed coordinates: it covers every one of them, and
/// each of its four edges is attained by one of them.
pub proof fn lemma_damage_exact_bbox(pts: Seq<(int, int)>)
    requires
        pts.len() > 0,
    ensures
        ({
            let d = damage_after(Option::None, pts);
            d matches Option::Some(b) && (forall|i: int|
                0 <= i < pts.len() ==> bounds_has(d, pts[i].0, pts[i].1)) && (exists|i: int|
                0 <= i < pts.len() && pts[i].0 == b.left) && (exists|i: int|
                0 <= i < pts.len() && pts[i].0 == b.right) && (exists|i: int|
                0 <= i < pts.len() && pts[i].1 == b.top) && (exists|i: int|
                0 <= i < pts.len() && pts[i].1 == b.bottom)
        }),
    decreases pts.len(),
{
    let d = damage_after(Option::None, pts);
    let b = d->Some_0;
    if pts.len() == 1 {
        assert(pts.drop_last().len() == 0);
        assert(b == grow_damage(Option::None, pts[0].0, pts[0].1));
        assert(0 <= 0 < pts.len() && pts[0].0 == b.left);
        assert(0 <= 0 < pts.len() && pts[0].1 == b.top);
    } else {
        let prefix = pts.drop_last();
        lemma_damage_exact_bbox(prefix);
        let d1 = damage_after(Option::None, prefix);
        let b1 = d1->Some_0;
        let last = pts.last();
        assert(b == grow_damage(d1, last.0, last.1));
        assert(forall|i: int| 0 <= i < prefix.len() ==> prefix[i] == pts[i]);
        assert forall|i: int| 0 <= i < pts.len() implies bounds_has(d, pts[i].0, pts[i].1) by {
            if i < prefix.len() {
                assert(bounds_has(d1, prefix[i].0, prefix[i].1));
            }
        }
        if last.0 < b1.left {
            assert(pts[pts.len() - 1].0 == b.left);
        } else {
            let i0 = choose|i: int| 0 <= i < prefix.len() && prefix[i].0 == b1.left;
            assert(pts[i0].0 == b.left);
        }
        if last.0 > b1.right {
            assert(pts[pts.len() - 1].0 == b.right);
        } else {
            let i0 = choose|i: int| 0 <= i < prefix.len() && prefix[i].0 == b1.right;
            assert(pts[i0].0 == b.right);
        }
        if last.1 < b1.top {
            assert(pts[pts.len() - 1].1 == b.top);
        } else {
            let i0 = choose|i: int| 0 <= i < prefix.len() && prefix[i].1 == b1.top;
            assert(pts[i0].1 == b.top);
        }
        if last.1 > b1.bottom {
            assert(pts[pts.len() - 1].1 == b.bottom);
        } else {
            let i0 = choose|i: int| 0 <= i < prefix.len() && prefix[i].1 == b1.bottom;
            assert(pts[i0].1 == b.bottom);
        }
    }
}

/// An axis-aligned rectangle of cell coordinates. The all-`-1` value is the
/// sentinel for "nothing damaged yet".
#[derive(Debug, Clone)]
pub struct CellRect {
    pub left: i32,
    pub top: i32,
    pub right: i32,
    pub bottom: i32,
}

impl CellRect {
    /// The sentinel rectangle: no pending damage.
    pub fn new() -> (r: Self)
        ensures
            r.left == -1 && r.top == -1 && r.right == -1 && r.bottom == -1,
    {
        CellRect { left: -1, right: -1, top: -1, bottom: -1 }
    }
}

/// A buffer holding the picture to show on the terminal. Between two flushes
/// it tracks the damaged area so that only a minimal rectangle has to be sent
/// to the real terminal.
#[derive(Debug)]
pub struct CellBuf {
    /// Buffer width in characters.
    pub width: i32,
    /// Buffer height in characters.
    pub height: i32,
    /// The cells, row-major.
    pub cells: Vec<Cell>,
    /// Whether the buffer holds changes not yet sent to the terminal.
    /// `clear` sets it regardless of how many cells actually changed.
    pub dirty: bool,
    /// The damaged rectangle to send on the next flush.
    pub dirty_rect: CellRect,
}

impl CellBuf {
    /// Whether `(x, y)` lies inside the grid.
    pub open spec fn in_bounds(self, x: int, y: int) -> bool {
        0 <= x < self.width && 0 <= y < self.height
    }

    /// The cell stored at `(x, y)`.
    pub open spec fn cell_at(self, x: int, y: int) -> Cell {
        self.cells@[flat_idx(self.width as int, x, y)]
    }

    /// The damage area, `None` when the rectangle holds the sentinel.
    pub open spec fn damage(self) -> Option<Bounds> {
        if self.dirty_rect.left == -1 {
            Option::None
        } else {
            Option::Some(
                Bounds {
                    left: self.dirty_rect.left as int,
                    top: self.dirty_rect.top as int,
                    right: self.dirty_rect.right as int,
                    bottom: self.dirty_rect.bottom as int,
                },
            )
        }
    }

    /// The damage rectangle is either the sentinel or a non-empty rectangle
    /// inside the grid.
    pub open spec fn rect_wf(self) -> bool {
        match self.damage() {
            Option::None => self.dirty_rect.top == -1 && self.dirty_rect.right == -1
                && self.dirty_rect.bottom == -1,
            Option::Some(b) => 0 <= b.left <= b.right < self.width && 0 <= b.top <= b.bottom
                < self.height,
        }
    }

    /// Well-formedness: positive dimensions, storage of exactly
    /// `width * height` cells, and a valid damage rectangle.
    pub open spec fn wf(self) -> bool {
        &&& 1 <= self.width
        &&& 1 <= self.height
        &&& self.width * self.height <= i32::MAX
        &&& self.cells@.len() == self.width * self.height
        &&& self.rect_wf()
    }

    /// Creates a buffer of the given dimensions, every cell default, with no
    /// damage and the dirty flag off.
    pub fn new(width: i32, height: i32) -> (r: CellBuf)
        requires
            1 <= width,
            1 <= height,
            width * height <= i32::MAX,
        ensures
            r.wf(),
            r.width == width,
            r.height == height,
            forall|i: int| 0 <= i < r.cells@.len() ==> r.cells@[i] == default_cell(),
            !r.dirty,
            r.damage() is None,
    {
        let n = (height * width) as usize;
        let mut cells: Vec<Cell> = Vec::with_capacity(n);
        let mut i: usize = 0;
        while i < n
            invariant
                i <= n,
                cells@.len() == i,
                forall|j: int| 0 <= j < i ==> cells@[j] == default_cell(),
            decreases n - i,
        {
            cells.push(Cell { ch: ' ', bg: DEFAULT_BG, fg: DEFAULT_FG });
            i += 1;
        }
        CellBuf { width, height, cells, dirty: false, dirty_rect: CellRect::new() }
    }

    /// Resets every cell to the default and marks the whole grid damaged and
    /// dirty, regardless of how many cells actually changed.
    pub fn clear(&mut self)
        requires
            old(self).wf(),
        ensures
            final(self).wf(),
            final(self).width == old(self).width,
            final(self).height == old(self).height,
            final(self).cells@.len() == old(self).cells@.len(),
            forall|i: int|
                0 <= i < final(self).cells@.len() ==> final(self).cells@[i] == default_cell(),
            final(self).dirty,
            final(self).damage() == Option::Some(
                Bounds {
                    left: 0,
                    top: 0,
                    right: old(self).width - 1,
                    bottom: old(self).height - 1,
                },
            ),
    {
        let n = self.cells.len();
        let mut i: usize = 0;
        while i < n
            invariant
                i <= n,
                self.width == old(self).width,
                self.height == old(self).height,
                self.dirty == old(self).dirty,
                self.dirty_rect == old(self).dirty_rect,
                self.cells@.len() == n,
                n == old(self).cells@.len(),
                forall|j: int| 0 <= j < i ==> self.cells@[j] == default_cell(),
            decreases n - i,
        {
            self.cells[i] = Cell { ch: ' ', bg: COLOR_DEFAULT, fg: COLOR_DEFAULT };
            i += 1;
        }
        self.dirty_rect = CellRect {
            left: 0,
            top: 0,
            right: self.width - 1,
            bottom: self.height - 1,
        };
        self.dirty = true;
    }

    /// Changes the buffer dimensions, keeping the content of the overlapping
    /// area and filling the rest with default cells. The whole new grid is
    /// marked damaged. Unchanged dimensions are a complete no-op.
    pub fn resize(&mut self, width: i32, height: i32)
        requires
            old(self).wf(),
            1 <= width,
            1 <= height,
            width * height <= i32::MAX,
        ensures
            final(self).wf(),
            old(self).width == width && old(self).height == height ==> *final(self) == *old(self),
            !(old(self).width == width && old(self).height == height) ==> {
                &&& final(self).width == width
                &&& final(self).height == height
                &&& final(self).cells@.len() == width * height
                &&& forall|x: int, y: int|
                    0 <= x < width && 0 <= y < height ==> #[trigger] final(self).cell_at(x, y) == (
                    if x < old(self).width && y < old(self).height {
                        old(self).cell_at(x, y)
                    } else {
                        default_cell()
                    })
                &&& final(self).dirty
                &&& final(self).damage() == Option::Some(
                    Bounds { left: 0, top: 0, right: width - 1, bottom: height - 1 },
                )
            },
    {
        if self.width == width && self.height == height {
            return ;
        }
        let n = (height * width) as usize;
        let mut newvec: Vec<Cell> = Vec::with_capacity(n);
        let mut i: usize = 0;
        while i < n
            invariant
                i <= n,
                newvec@.len() == i,
                forall|j: int| 0 <= j < i ==> newvec@[j] == default_cell(),
            decreases n - i,
        {
            newvec.push(Cell { ch: ' ', bg: COLOR_DEFAULT, fg: COLOR_DEFAULT });
            i += 1;
        }

        let minw = if self.width < width {
            self.width
        } else {
            width
        };
        let minh = if self.height < height {
            self.height
        } else {
            height
        };

        proof {
            lemma_flat_idx_inj(width as int);
            assert forall|x2: int, y2: int| 0 <= x2 < width && 0 <= y2 < height implies #[trigger]
            newvec@[flat_idx(width as int, x2, y2)] == default_cell() by {
                lemma_flat_idx_bounds(width as int, height as int, x2, y2);
            }
        }

        let mut y: i32 = 0;
        while y < minh
            invariant
                0 <= y <= minh,
                minw == if old(self).width < width { old(self).width } else { width },
                minh == if old(self).height < height { old(self).height } else { height },
                *self == *old(self),
                old(self).wf(),
                1 <= width,
                1 <= height,
                width * height <= i32::MAX,
                newvec@.len() == width * height,
                forall|x2: int, y2: int|
                    0 <= x2 < width && 0 <= y2 < height ==> #[trigger] newvec@[flat_idx(
                        width as int,
                        x2,
                        y2,
                    )] == if x2 < minw && y2 < y {
                        old(self).cell_at(x2, y2)
                    } else {
                        default_cell()
                    },
            decreases minh - y,
        {
            let mut x: i32 = 0;
            while x < minw
                invariant
                    0 <= y < minh,
                    0 <= x <= minw,
                    minw == if old(self).width < width { old(self).width } else { width },
                    minh == if old(self).height < height { old(self).height } else { height },
                    *self == *old(self),
                    old(self).wf(),
                    1 <= width,
                    1 <= height,
                    width * height <= i32::MAX,
                    newvec@.len() == width * height,
                    forall|x2: int, y2: int|
                        0 <= x2 < width && 0 <= y2 < height ==> #[trigger] newvec@[flat_idx(
                            width as int,
                            x2,
                            y2,
                        )] == if x2 < minw && (y2 < y || (y2 == y && x2 < x)) {
                            old(self).cell_at(x2, y2)
                        } else {
                            default_cell()
                        },
                decreases minw - x,
            {
                proof {
                    lemma_flat_idx_bounds(width as int, height as int, x as int, y as int);
                    lemma_flat_idx_bounds(
                        self.width as int,
                        self.height as int,
                        x as int,
                        y as int,
                    );
                    lemma_flat_idx_inj(width as int);
                    assert(flat_idx(width as int, x as int, y as int) == y * width + x);
                    assert(flat_idx(self.width as int, x as int, y as int) == y * self.width + x);
                }
                let new_idx = (y * width + x) as usize;
                let old_idx = (y * self.width + x) as usize;
                newvec[new_idx] = self.cells[old_idx];
                proof {
                    assert forall|x2: int, y2: int|
                        0 <= x2 < width && 0 <= y2 < height implies #[trigger] newvec@[flat_idx(
                        width as int,
                        x2,
                        y2,
                    )] == if x2 < minw && (y2 < y || (y2 == y && x2 < x + 1)) {
                        old(self).cell_at(x2, y2)
                    } else {
                        default_cell()
                    } by {
                        lemma_flat_idx_bounds(width as int, height as int, x2, y2);
                        if flat_idx(width as int, x2, y2) == new_idx {
                            assert(x2 == x && y2 == y);
                        }
                    }
                }
                x += 1;
            }
            proof {
                assert forall|x2: int, y2: int|
                    0 <= x2 < width && 0 <= y2 < height implies #[trigger] newvec@[flat_idx(
                    width as int,
                    x2,
                    y2,
                )] == if x2 < minw && y2 < y + 1 {
                    old(self).cell_at(x2, y2)
                } else {
                    default_cell()
                } by {
                    assert(newvec@[flat_idx(width as int, x2, y2)] == if x2 < minw && (y2 < y || (
                    y2 == y && x2 < minw)) {
                        old(self).cell_at(x2, y2)
                    } else {
                        default_cell()
                    });
                }
            }
            y += 1;
        }

        self.cells = newvec;
        self.width = width;
        self.height = height;
        self.dirty = true;
        self.dirty_rect = CellRect { left: 0, top: 0, right: width - 1, bottom: height - 1 };
    }

    /// Returns the cell at `(x, y)`, or `None` outside the grid. Never
    /// mutates.
    pub fn get_cell(&self, x: i32, y: i32) -> (r: Option<Cell>)
        requires
            self.wf(),
        ensures
            r == if self.in_bounds(x as int, y as int) {
                Option::Some(self.cell_at(x as int, y as int))
            } else {
                Option::None::<Cell>
            },
    {
        if x < 0 || x >= self.width || y < 0 || y >= self.height {
            return None;
        }
        proof {
            lemma_flat_idx_bounds(self.width as int, self.height as int, x as int, y as int);
        }
        let idx = (x + y * self.width) as usize;
        Some(self.cells[idx].clone())
    }

    /// Writes `c` at `(x, y)`. Outside the grid this fails without mutation.
    /// Writing the value the cell already holds is a complete no-op; otherwise
    /// the cell is overwritten, the buffer becomes dirty, and the damage
    /// rectangle grows to the bounding box of its old area and `(x, y)`.
    pub fn set_cell(&mut self, x: i32, y: i32, c: Cell) -> (r: bool)
        requires
            old(self).wf(),
        ensures
            final(self).wf(),
            r == old(self).in_bounds(x as int, y as int),
            !r ==> *final(self) == *old(self),
            r && old(self).cell_at(x as int, y as int) == c ==> *final(self) == *old(self),
            r && old(self).cell_at(x as int, y as int) != c ==> {
                &&& final(self).width == old(self).width
                &&& final(self).height == old(self).height
                &&& final(self).cells@ == old(self).cells@.update(
                    flat_idx(old(self).width as int, x as int, y as int),
                    c,
                )
                &&& final(self).dirty
                &&& final(self).damage() == Option::Some(
                    grow_damage(old(self).damage(), x as int, y as int),
                )
            },
    {
        if let Some(old_cell) = self.get_cell(x, y) {
            if old_cell != c {
                proof {
                    lemma_flat_idx_bounds(
                        self.width as int,
                        self.height as int,
                        x as int,
                        y as int,
                    );
                }
                let idx = (x + y * self.width) as usize;
                self.cells[idx] = c;
                self.dirty = true;

                if self.dirty_rect.left == -1 {
                    self.dirty_rect = CellRect { left: x, right: x, top: y, bottom: y };
                } else {
                    if x < self.dirty_rect.left {
                        self.dirty_rect.left = x;
                    } else if x > self.dirty_rect.right {
                        self.dirty_rect.right = x;
                    }
                    if y < self.dirty_rect.top {
                        self.dirty_rect.top = y;
                    } else if y > self.dirty_rect.bottom {
                        self.dirty_rect.bottom = y;
                    }
                }
            }
            true
        } else {
            false
        }
    }
}

} // verus!
