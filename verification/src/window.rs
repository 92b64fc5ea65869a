//! Windows: rectangles of cells in a tree, and their compositing.
use vstd::prelude::*;
use vstd::string::*;
use vstd::utf8::encode_utf8;

use crate::border::{framed, OmmaBorder};
use crate::cell::{glyph, OmmaCell, EMPTY};
use crate::draw::{
    begin, clamp_add, clamp_count, concat, grid_has_size, grid_of, grid_set, grid_wf, in_grid,
    lemma_concat_only_puts, new_grid, only_puts, put, put_as, put_uncounted, run, self_owned,
    step, uniform_grid, DrawOp, Grid, Outcome,
};
use crate::error::OmmaErr;
use crate::object::{object_ops, Object, ObjectView};
use crate::pad::{margins, OmmaPad};
use crate::session::{invalid_window_id, submitted_window, Session};
use crate::term::{
    count_add, drawing, lemma_drawing_begins, lemma_drawing_then, lemma_failed_extends,
    lemma_failed_in_concat, lemma_put_done, lemma_put_failed, lemma_self_owned_failed, painted,
    OmmaTerm, TermView,
};
use crate::text::{decimal, push_decimal};
use crate::{current_window_id, next_window_id, IdCounters};

verus! {

/// A window as a value.
pub struct WindowView {
    /// The place of the window in the arena of its session.
    pub id: u32,
    pub parent_id: u32,
    /// The ids of the windows below this one, in the order they are drawn.
    pub children: Seq<u32>,
    /// The ids of the objects of this window, in the order they are drawn.
    pub objects: Seq<u32>,
    pub name: Seq<char>,
    /// Where the window stands, counted from the content of its parent.
    pub offset_x: usize,
    pub offset_y: usize,
    /// The size of the buffer.
    pub width: usize,
    pub height: usize,
    /// The size of what is drawn.
    pub view_width: usize,
    pub view_height: usize,
    /// Kept, and not used by the compositing.
    pub scroll_x: usize,
    pub scroll_y: usize,
    pub border: Option<OmmaBorder>,
    pub pad: OmmaPad,
    pub hidden: bool,
    /// A virtual window draws nothing of its own, only what is below it.
    pub virt: bool,
    pub buffer: Grid,
}

impl WindowView {
    /// The buffer has the window's size, and the view lies within it.
    pub open spec fn wf(self) -> bool {
        &&& grid_wf(self.buffer, self.width as int, self.height as int)
        &&& self.view_width <= self.width
        &&& self.view_height <= self.height
    }

    /// The width of the ring that a border takes: 1 with a border, hidden or
    /// not, and 0 without.
    pub open spec fn ring(self) -> int {
        if self.border is Some {
            1
        } else {
            0
        }
    }

    /// The padding above the content, border included.
    pub open spec fn pad_top(self) -> usize {
        clamp_add(self.pad.pad_top as int, self.ring())
    }

    /// The padding below the content, border included.
    pub open spec fn pad_bottom(self) -> usize {
        clamp_add(self.pad.pad_bottom as int, self.ring())
    }

    /// The padding left of the content, border included.
    pub open spec fn pad_left(self) -> usize {
        clamp_add(self.pad.pad_left as int, self.ring())
    }

    /// The padding right of the content, border included.
    pub open spec fn pad_right(self) -> usize {
        clamp_add(self.pad.pad_right as int, self.ring())
    }

    /// The number of columns of the content: what the padding leaves of the
    /// view, and none where the padding is wider than the view.
    pub open spec fn content_width(self) -> int {
        if self.view_width >= self.pad_left() + self.pad_right() {
            self.view_width - (self.pad_left() + self.pad_right())
        } else {
            0
        }
    }

    /// The number of rows of the content.
    pub open spec fn content_height(self) -> int {
        if self.view_height >= self.pad_top() + self.pad_bottom() {
            self.view_height - (self.pad_top() + self.pad_bottom())
        } else {
            0
        }
    }

    /// Whether column `x`, row `y` of the view belongs to the content.
    pub open spec fn in_content(self, x: int, y: int) -> bool {
        &&& self.pad_left() <= x < self.pad_left() + self.content_width()
        &&& self.pad_top() <= y < self.pad_top() + self.content_height()
    }

    /// Whether column `x`, row `y` of the view lies on its outermost ring.
    pub open spec fn on_ring(self, x: int, y: int) -> bool {
        x == 0 || y == 0 || x == self.view_width - 1 || y == self.view_height - 1
    }

    /// What the padding puts at column `x`, row `y` of the view: a blank,
    /// but on the outermost ring of a window without a border the
    /// transparent cell, so that the window does not paint over its parent
    /// at its own edge.
    pub open spec fn pad_cell(self, x: int, y: int) -> OmmaCell {
        if self.border is None && self.on_ring(x, y) {
            glyph(EMPTY)
        } else {
            glyph(' ')
        }
    }

    /// Whether the window can stand at the place `place` of an arena of
    /// `windows` windows and `objects` objects: it is well formed, its id is
    /// its place, its children stand at or behind it, and the arena holds
    /// its objects.
    pub open spec fn fits(self, place: int, windows: int, objects: int) -> bool {
        &&& self.wf()
        &&& self.id == place
        &&& forall|k: int|
            0 <= k < self.children.len() ==> place <= (#[trigger] self.children[k]) < windows
        &&& forall|k: int| 0 <= k < self.objects.len() ==> (#[trigger] self.objects[k]) < objects
    }

    /// Whether the window has the place in the tree that `other` has: the
    /// same id, parent, children and objects.
    pub open spec fn same_links(self, other: WindowView) -> bool {
        &&& self.id == other.id
        &&& self.parent_id == other.parent_id
        &&& self.children == other.children
        &&& self.objects == other.objects
    }

    /// The cell of the buffer at column `x` and row `y`.
    pub open spec fn cell_at(self, x: int, y: int) -> OmmaCell {
        self.buffer[x][y]
    }

    /// The window as text: `V` or `H` for visible or hidden, the id and the
    /// name, with colons between them.
    pub open spec fn label(self) -> Seq<char> {
        (if self.hidden {
            "H"@
        } else {
            "V"@
        }) + ":"@ + decimal(self.id as nat) + ":"@ + self.name
    }
}

/// The put of the cell at column `x` and row `y` of the buffer, for a window
/// whose content starts at column `cx` and row `cy` of the terminal.
pub open spec fn content_put(w: WindowView, cx: usize, cy: usize, x: int) -> spec_fn(int) -> Seq<
    DrawOp,
> {
    |y: int| seq![put(clamp_add(x, cx as int), clamp_add(y, cy as int), w.buffer[x][y])]
}

/// The puts of column `x` of the content, from the top.
pub open spec fn content_column(w: WindowView, cx: usize, cy: usize) -> spec_fn(int) -> Seq<
    DrawOp,
> {
    |x: int| concat(w.content_height(), content_put(w, cx, cy, x))
}

/// The puts of the content: the cells of the buffer that fit into the
/// content, column by column from the left.
pub open spec fn content_ops(w: WindowView, cx: usize, cy: usize) -> Seq<DrawOp> {
    concat(w.content_width(), content_column(w, cx, cy))
}

/// The put of the padding at column `x` and row `y` of the view, for a
/// window that starts at column `wx` and row `wy` of the terminal. There is
/// none where the content is.
pub open spec fn pad_put(w: WindowView, wx: usize, wy: usize, x: int) -> spec_fn(int) -> Seq<
    DrawOp,
> {
    |y: int|
        if w.in_content(x, y) {
            Seq::empty()
        } else {
            seq![put(clamp_add(x, wx as int), clamp_add(y, wy as int), w.pad_cell(x, y))]
        }
}

/// The puts of the padding in column `x` of the view, from the top.
pub open spec fn pad_column(w: WindowView, wx: usize, wy: usize) -> spec_fn(int) -> Seq<DrawOp> {
    |x: int| concat(w.view_height as int, pad_put(w, wx, wy, x))
}

/// The puts of the padding: every cell of the view outside the content,
/// column by column from the left.
pub open spec fn pad_ops(w: WindowView, wx: usize, wy: usize) -> Seq<DrawOp> {
    concat(w.view_width as int, pad_column(w, wx, wy))
}

/// The row of the terminal that the last row of the view falls on.
pub open spec fn bottom_row(w: WindowView, wy: usize) -> usize {
    clamp_add(w.view_height - 1, wy as int)
}

/// The column of the terminal that the last column of the view falls on.
pub open spec fn right_column(w: WindowView, wx: usize) -> usize {
    clamp_add(w.view_width - 1, wx as int)
}

/// The two puts of the border in column `x` of the view: the top row, then
/// the bottom row.
pub open spec fn border_rows(w: WindowView, b: OmmaBorder, wx: usize, wy: usize) -> spec_fn(
    int,
) -> Seq<DrawOp> {
    |x: int|
        seq![
            put_uncounted(clamp_add(x, wx as int), wy, b.border_top),
            put_uncounted(clamp_add(x, wx as int), bottom_row(w, wy), b.border_bottom),
        ]
}

/// The two puts of the border in row `y` of the view: the left column, then
/// the right column.
pub open spec fn border_columns(w: WindowView, b: OmmaBorder, wx: usize, wy: usize) -> spec_fn(
    int,
) -> Seq<DrawOp> {
    |y: int|
        seq![
            put_uncounted(wx, clamp_add(y, wy as int), b.border_left),
            put_uncounted(right_column(w, wx), clamp_add(y, wy as int), b.border_right),
        ]
}

/// The puts of the four corners: top left, bottom left, top right, bottom
/// right.
pub open spec fn border_corners(w: WindowView, b: OmmaBorder, wx: usize, wy: usize) -> Seq<
    DrawOp,
> {
    seq![
        put_uncounted(wx, wy, b.border_corner_tl),
        put_uncounted(wx, bottom_row(w, wy), b.border_corner_bl),
        put_uncounted(right_column(w, wx), wy, b.border_corner_tr),
        put_uncounted(right_column(w, wx), bottom_row(w, wy), b.border_corner_br),
    ]
}

/// Whether the window has a border that is drawn: one that is there and not
/// hidden, around a view that has cells.
pub open spec fn border_shown(w: WindowView) -> bool {
    w.border matches Some(b) && !b.hidden && w.view_width > 0 && w.view_height > 0
}

/// The puts of the border, none of which counts: the top and bottom rows
/// from the left, the left and right columns from the top, and last the
/// corners, which so replace what the rows and columns put there.
pub open spec fn border_ops(w: WindowView, wx: usize, wy: usize) -> Seq<DrawOp> {
    if border_shown(w) {
        let b = w.border->0;
        concat(w.view_width as int, border_rows(w, b, wx, wy)) + concat(
            w.view_height as int,
            border_columns(w, b, wx, wy),
        ) + border_corners(w, b, wx, wy)
    } else {
        Seq::empty()
    }
}

/// Where a window starts on the terminal, from where the content of its
/// parent starts.
pub open spec fn window_origin(w: WindowView, px: usize, py: usize) -> (usize, usize) {
    (clamp_add(w.offset_x as int, px as int), clamp_add(w.offset_y as int, py as int))
}

/// Where the content of a window starts on the terminal.
pub open spec fn content_origin(w: WindowView, px: usize, py: usize) -> (usize, usize) {
    (
        clamp_add(window_origin(w, px, py).0 as int, w.pad_left() as int),
        clamp_add(window_origin(w, px, py).1 as int, w.pad_top() as int),
    )
}

/// What a window draws of its own: its content, then its padding, then its
/// border. A virtual window draws nothing of its own.
pub open spec fn own_ops(w: WindowView, px: usize, py: usize) -> Seq<DrawOp> {
    if w.virt {
        Seq::empty()
    } else {
        let (wx, wy) = window_origin(w, px, py);
        let (cx, cy) = content_origin(w, px, py);
        content_ops(w, cx, cy) + pad_ops(w, wx, wy) + border_ops(w, wx, wy)
    }
}

/// Whether the windows and objects of an arena can be composited: every
/// window is well formed and stands at the place of its id, its children
/// stand at or behind it in the arena, and its objects are in the arena.
pub open spec fn arena_wf(ws: Seq<WindowView>, os: Seq<ObjectView>) -> bool {
    forall|i: int| 0 <= i < ws.len() ==> #[trigger] links_wf(ws, os, i)
}

/// What [`arena_wf`] asks of the window at place `i`.
pub open spec fn links_wf(ws: Seq<WindowView>, os: Seq<ObjectView>, i: int) -> bool {
    ws[i].fits(i, ws.len() as int, os.len() as int)
}

/// What the `k`-th child of window `id` draws, for a content that starts at
/// column `cx` and row `cy`. A window that lists itself cannot be drawn;
/// only for the root, whose id is 0, the entry is passed over.
pub open spec fn child_ops(
    ws: Seq<WindowView>,
    os: Seq<ObjectView>,
    id: int,
    cx: usize,
    cy: usize,
) -> spec_fn(int) -> Seq<DrawOp>
    decreases ws.len() - id, 0int,
{
    |k: int|
        {
            let c = ws[id].children[k] as int;
            if c == id {
                if c == 0 {
                    Seq::empty()
                } else {
                    seq![self_owned(c as u32)]
                }
            } else if id < c < ws.len() {
                window_ops(ws, os, c, cx, cy)
            } else {
                Seq::empty()
            }
        }
}

/// What the `k`-th object of window `id` draws.
pub open spec fn owned_object_ops(
    ws: Seq<WindowView>,
    os: Seq<ObjectView>,
    id: int,
    cx: usize,
    cy: usize,
) -> spec_fn(int) -> Seq<DrawOp> {
    |k: int| object_ops(os[ws[id].objects[k] as int], cx, cy)
}

/// Everything that compositing the window `id` of an arena draws, in order,
/// where the content of its parent starts at column `px` and row `py`: the
/// window's own cells, then its children in their order, each with all that
/// is below it, then its objects in their order. A hidden window draws
/// nothing, whatever is below it.
pub open spec fn window_ops(
    ws: Seq<WindowView>,
    os: Seq<ObjectView>,
    id: int,
    px: usize,
    py: usize,
) -> Seq<DrawOp>
    decreases ws.len() - id, 1int,
{
    if !(0 <= id < ws.len()) || ws[id].hidden {
        Seq::empty()
    } else {
        let w = ws[id];
        let (cx, cy) = content_origin(w, px, py);
        own_ops(w, px, py) + concat(w.children.len() as int, child_ops(ws, os, id, cx, cy))
            + concat(w.objects.len() as int, owned_object_ops(ws, os, id, cx, cy))
    }
}

/// The views of the windows of an arena.
pub open spec fn window_views(windows: Seq<Window>) -> Seq<WindowView> {
    Seq::new(windows.len(), |i: int| windows[i]@)
}

/// The views of the objects of an arena.
pub open spec fn object_views(objects: Seq<Object>) -> Seq<ObjectView> {
    Seq::new(objects.len(), |i: int| objects[i]@)
}

/// A rectangle of cells with a place in the tree of windows.
pub struct Window {
    id: u32,
    parent_id: u32,
    children: Vec<u32>,
    objects: Vec<u32>,
    name: String,
    offset_x: usize,
    offset_y: usize,
    width: usize,
    height: usize,
    view_width: usize,
    view_height: usize,
    scroll_x: usize,
    scroll_y: usize,
    border: Option<OmmaBorder>,
    pad: OmmaPad,
    hidden: bool,
    virt: bool,
    buffer: Vec<Vec<OmmaCell>>,
}

impl View for Window {
    type V = WindowView;

    closed spec fn view(&self) -> WindowView {
        WindowView {
            id: self.id,
            parent_id: self.parent_id,
            children: self.children@,
            objects: self.objects@,
            name: self.name@,
            offset_x: self.offset_x,
            offset_y: self.offset_y,
            width: self.width,
            height: self.height,
            view_width: self.view_width,
            view_height: self.view_height,
            scroll_x: self.scroll_x,
            scroll_y: self.scroll_y,
            border: self.border,
            pad: self.pad,
            hidden: self.hidden,
            virt: self.virt,
            buffer: grid_of(self.buffer),
        }
    }
}

impl Window {
    /// The width of the ring that a border takes.
    fn ring(&self) -> (n: usize)
        ensures
            n == self@.ring(),
    {
        if self.border.is_some() {
            1
        } else {
            0
        }
    }

    /// The padding above the content: the window's own and 1 more where it
    /// has a border. The sum stops at `usize::MAX`.
    pub fn pad_top(&self) -> (n: usize)
        ensures
            n == self@.pad_top(),
    {
        self.pad.pad_top().saturating_add(self.ring())
    }

    /// The padding below the content: the window's own and 1 more where it
    /// has a border. The sum stops at `usize::MAX`.
    pub fn pad_bottom(&self) -> (n: usize)
        ensures
            n == self@.pad_bottom(),
    {
        self.pad.pad_bottom().saturating_add(self.ring())
    }

    /// The padding left of the content: the window's own and 1 more where
    /// it has a border. The sum stops at `usize::MAX`.
    pub fn pad_left(&self) -> (n: usize)
        ensures
            n == self@.pad_left(),
    {
        self.pad.pad_left().saturating_add(self.ring())
    }

    /// The padding right of the content: the window's own and 1 more where
    /// it has a border. The sum stops at `usize::MAX`.
    pub fn pad_right(&self) -> (n: usize)
        ensures
            n == self@.pad_right(),
    {
        self.pad.pad_right().saturating_add(self.ring())
    }

    /// The number of columns of the content.
    fn content_width(&self) -> (n: usize)
        ensures
            n == self@.content_width(),
    {
        self.view_width.saturating_sub(self.pad_left().saturating_add(self.pad_right()))
    }

    /// The number of rows of the content.
    fn content_height(&self) -> (n: usize)
        ensures
            n == self@.content_height(),
    {
        self.view_height.saturating_sub(self.pad_top().saturating_add(self.pad_bottom()))
    }

    /// Draws the content.
    fn blit_content(&self, term: &mut OmmaTerm, cx: usize, cy: usize) -> (res: Result<
        u32,
        OmmaErr,
    >)
        requires
            self@.wf(),
            old(term)@.wf(),
        ensures
            painted(old(term)@, final(term)@, res, content_ops(self@, cx, cy)),
    {
        let width = self.content_width();
        let height = self.content_height();
        let ghost w = self@;
        let ghost before = term@;
        let ghost columns = content_column(w, cx, cy);
        let mut written: u32 = 0;
        let mut x: usize = 0;
        proof {
            lemma_drawing_begins(before);
        }
        while x < width
            invariant
                before == old(term)@,
                w == self@,
                w.wf(),
                width == w.content_width(),
                height == w.content_height(),
                columns == content_column(w, cx, cy),
                x <= width,
                drawing(before, term@, concat(x as int, columns), written),
            decreases width - x,
        {
            let ghost pre = concat(x as int, columns);
            let ghost cells = content_put(w, cx, cy, x as int);
            let mut y: usize = 0;
            assert(pre + concat(0, cells) =~= pre);
            while y < height
                invariant
                    before == old(term)@,
                    w == self@,
                    w.wf(),
                    width == w.content_width(),
                    height == w.content_height(),
                    columns == content_column(w, cx, cy),
                    cells == content_put(w, cx, cy, x as int),
                    pre == concat(x as int, columns),
                    x < width,
                    y <= height,
                    drawing(before, term@, pre + concat(y as int, cells), written),
                decreases height - y,
            {
                assert(w.buffer[x as int].len() == w.height);
                let cell = self.buffer[x][y];
                let tx = x.saturating_add(cx);
                let ty = y.saturating_add(cy);
                let ghost done = pre + concat(y as int, cells);
                proof {
                    assert(concat(y + 1, cells) == concat(y as int, cells) + cells(y as int));
                    assert(pre + concat(y + 1, cells) =~= done.push(put(tx, ty, cell)));
                }
                match draw_put(term, tx, ty, &cell, true, written, Ghost(before), Ghost(done)) {
                    Ok(n) => {
                        written = n;
                    },
                    Err(e) => {
                        proof {
                            lemma_failed_in_concat(
                                before,
                                term@,
                                e,
                                pre,
                                y + 1,
                                height as int,
                                cells,
                            );
                            lemma_failed_in_columns(
                                before,
                                term@,
                                e,
                                x as int,
                                width as int,
                                columns,
                            );
                        }
                        return Err(e);
                    },
                }
                y += 1;
            }
            proof {
                assert(concat(x + 1, columns) == pre + columns(x as int));
            }
            x += 1;
        }
        Ok(written)
    }

    /// Draws the padding.
    fn blit_pad(&self, term: &mut OmmaTerm, wx: usize, wy: usize) -> (res: Result<u32, OmmaErr>)
        requires
            old(term)@.wf(),
        ensures
            painted(old(term)@, final(term)@, res, pad_ops(self@, wx, wy)),
    {
        let width = self.view_width;
        let height = self.view_height;
        let left = self.pad_left();
        let top = self.pad_top();
        let inner_width = self.content_width();
        let inner_height = self.content_height();
        let bare = self.border.is_none();
        let ghost w = self@;
        let ghost before = term@;
        let ghost columns = pad_column(w, wx, wy);
        let mut written: u32 = 0;
        let mut x: usize = 0;
        proof {
            lemma_drawing_begins(before);
        }
        while x < width
            invariant
                before == old(term)@,
                w == self@,
                width == w.view_width,
                height == w.view_height,
                left == w.pad_left(),
                top == w.pad_top(),
                inner_width == w.content_width(),
                inner_height == w.content_height(),
                bare == (w.border is None),
                columns == pad_column(w, wx, wy),
                x <= width,
                drawing(before, term@, concat(x as int, columns), written),
            decreases width - x,
        {
            let ghost pre = concat(x as int, columns);
            let ghost cells = pad_put(w, wx, wy, x as int);
            let mut y: usize = 0;
            assert(pre + concat(0, cells) =~= pre);
            while y < height
                invariant
                    before == old(term)@,
                    w == self@,
                    width == w.view_width,
                    height == w.view_height,
                    left == w.pad_left(),
                    top == w.pad_top(),
                    inner_width == w.content_width(),
                    inner_height == w.content_height(),
                    bare == (w.border is None),
                    columns == pad_column(w, wx, wy),
                    cells == pad_put(w, wx, wy, x as int),
                    pre == concat(x as int, columns),
                    x < width,
                    y <= height,
                    drawing(before, term@, pre + concat(y as int, cells), written),
                decreases height - y,
            {
                let inside = x >= left && x - left < inner_width && y >= top && y - top
                    < inner_height;
                assert(inside == w.in_content(x as int, y as int));
                assert(concat(y + 1, cells) == concat(y as int, cells) + cells(y as int));
                if inside {
                    assert(pre + concat(y + 1, cells) =~= pre + concat(y as int, cells));
                } else {
                    let on_ring = x == 0 || y == 0 || x == width - 1 || y == height - 1;
                    let cell = if bare && on_ring {
                        OmmaCell::transparent()
                    } else {
                        OmmaCell::new(' ', None, None, 0)
                    };
                    let tx = x.saturating_add(wx);
                    let ty = y.saturating_add(wy);
                    let ghost done = pre + concat(y as int, cells);
                    proof {
                        assert(pre + concat(y + 1, cells) =~= done.push(put(tx, ty, cell)));
                    }
                    match draw_put(term, tx, ty, &cell, true, written, Ghost(before), Ghost(done)) {
                        Ok(n) => {
                            written = n;
                        },
                        Err(e) => {
                            proof {
                                lemma_failed_in_concat(
                                    before,
                                    term@,
                                    e,
                                    pre,
                                    y + 1,
                                    height as int,
                                    cells,
                                );
                                lemma_failed_in_columns(
                                    before,
                                    term@,
                                    e,
                                    x as int,
                                    width as int,
                                    columns,
                                );
                            }
                            return Err(e);
                        },
                    }
                }
                y += 1;
            }
            proof {
                assert(concat(x + 1, columns) == pre + columns(x as int));
            }
            x += 1;
        }
        Ok(written)
    }

    /// Draws the top and bottom rows of the border.
    fn blit_border_rows(
        &self,
        term: &mut OmmaTerm,
        border: &OmmaBorder,
        wx: usize,
        wy: usize,
    ) -> (res: Result<u32, OmmaErr>)
        requires
            self@.view_height > 0,
            old(term)@.wf(),
        ensures
            painted(
                old(term)@,
                final(term)@,
                res,
                concat(self@.view_width as int, border_rows(self@, *border, wx, wy)),
            ),
            res is Ok ==> res == Ok::<u32, OmmaErr>(0),
    {
        let ghost w = self@;
        let ghost before = term@;
        let ghost rows = border_rows(w, *border, wx, wy);
        let width = self.view_width;
        let bottom = (self.view_height - 1).saturating_add(wy);
        let written: u32 = 0;
        let mut x: usize = 0;
        proof {
            lemma_drawing_begins(before);
        }
        while x < width
            invariant
                before == old(term)@,
                w == self@,
                width == w.view_width,
                bottom == bottom_row(w, wy),
                rows == border_rows(w, *border, wx, wy),
                written == 0,
                x <= width,
                drawing(before, term@, concat(x as int, rows), written),
            decreases width - x,
        {
            let ghost done = concat(x as int, rows);
            let tx = x.saturating_add(wx);
            let ghost top = put_uncounted(tx, wy, border.border_top);
            let ghost low = put_uncounted(tx, bottom, border.border_bottom);
            proof {
                assert(concat(x + 1, rows) == done + rows(x as int));
                assert(done + rows(x as int) =~= done.push(top).push(low));
            }
            match draw_put(
                term,
                tx,
                wy,
                border.border_top(),
                false,
                written,
                Ghost(before),
                Ghost(done),
            ) {
                Ok(_) => {},
                Err(e) => {
                    proof {
                        lemma_failed_extends(before, term@, e, done.push(top), seq![low]);
                        assert(done.push(top) + seq![low] =~= concat(x + 1, rows));
                        lemma_failed_in_columns(before, term@, e, x as int, width as int, rows);
                    }
                    return Err(e);
                },
            }
            match draw_put(
                term,
                tx,
                bottom,
                border.border_bottom(),
                false,
                written,
                Ghost(before),
                Ghost(done.push(top)),
            ) {
                Ok(_) => {},
                Err(e) => {
                    proof {
                        lemma_failed_in_columns(before, term@, e, x as int, width as int, rows);
                    }
                    return Err(e);
                },
            }
            x += 1;
        }
        Ok(written)
    }

    /// Draws the left and right columns of the border.
    fn blit_border_columns(
        &self,
        term: &mut OmmaTerm,
        border: &OmmaBorder,
        wx: usize,
        wy: usize,
    ) -> (res: Result<u32, OmmaErr>)
        requires
            self@.view_width > 0,
            old(term)@.wf(),
        ensures
            painted(
                old(term)@,
                final(term)@,
                res,
                concat(self@.view_height as int, border_columns(self@, *border, wx, wy)),
            ),
            res is Ok ==> res == Ok::<u32, OmmaErr>(0),
    {
        let ghost w = self@;
        let ghost before = term@;
        let ghost columns = border_columns(w, *border, wx, wy);
        let height = self.view_height;
        let right = (self.view_width - 1).saturating_add(wx);
        let written: u32 = 0;
        let mut y: usize = 0;
        proof {
            lemma_drawing_begins(before);
        }
        while y < height
            invariant
                before == old(term)@,
                w == self@,
                height == w.view_height,
                right == right_column(w, wx),
                columns == border_columns(w, *border, wx, wy),
                written == 0,
                y <= height,
                drawing(before, term@, concat(y as int, columns), written),
            decreases height - y,
        {
            let ghost done = concat(y as int, columns);
            let ty = y.saturating_add(wy);
            let ghost left = put_uncounted(wx, ty, border.border_left);
            let ghost far = put_uncounted(right, ty, border.border_right);
            proof {
                assert(concat(y + 1, columns) == done + columns(y as int));
                assert(done + columns(y as int) =~= done.push(left).push(far));
            }
            match draw_put(
                term,
                wx,
                ty,
                border.border_left(),
                false,
                written,
                Ghost(before),
                Ghost(done),
            ) {
                Ok(_) => {},
                Err(e) => {
                    proof {
                        lemma_failed_extends(before, term@, e, done.push(left), seq![far]);
                        assert(done.push(left) + seq![far] =~= concat(y + 1, columns));
                        lemma_failed_in_columns(before, term@, e, y as int, height as int, columns);
                    }
                    return Err(e);
                },
            }
            match draw_put(
                term,
                right,
                ty,
                border.border_right(),
                false,
                written,
                Ghost(before),
                Ghost(done.push(left)),
            ) {
                Ok(_) => {},
                Err(e) => {
                    proof {
                        lemma_failed_in_columns(before, term@, e, y as int, height as int, columns);
                    }
                    return Err(e);
                },
            }
            y += 1;
        }
        Ok(written)
    }

    /// Draws the corners of the border.
    fn blit_border_corners(
        &self,
        term: &mut OmmaTerm,
        border: &OmmaBorder,
        wx: usize,
        wy: usize,
    ) -> (res: Result<u32, OmmaErr>)
        requires
            self@.view_width > 0,
            self@.view_height > 0,
            old(term)@.wf(),
        ensures
            painted(old(term)@, final(term)@, res, border_corners(self@, *border, wx, wy)),
            res is Ok ==> res == Ok::<u32, OmmaErr>(0),
    {
        let ghost before = term@;
        let bottom = (self.view_height - 1).saturating_add(wy);
        let right = (self.view_width - 1).saturating_add(wx);
        let ghost tl = put_uncounted(wx, wy, border.border_corner_tl);
        let ghost bl = put_uncounted(wx, bottom, border.border_corner_bl);
        let ghost tr = put_uncounted(right, wy, border.border_corner_tr);
        let ghost br = put_uncounted(right, bottom, border.border_corner_br);
        let ghost none = Seq::<DrawOp>::empty();
        let ghost all = none.push(tl).push(bl).push(tr).push(br);
        let written: u32 = 0;
        proof {
            lemma_drawing_begins(before);
            assert(border_corners(self@, *border, wx, wy) =~= all);
        }
        match draw_put(
            term,
            wx,
            wy,
            border.border_corner_tl(),
            false,
            written,
            Ghost(before),
            Ghost(none),
        ) {
            Ok(_) => {},
            Err(e) => {
                proof {
                    lemma_failed_extends(before, term@, e, none.push(tl), seq![bl, tr, br]);
                    assert(none.push(tl) + seq![bl, tr, br] =~= all);
                }
                return Err(e);
            },
        }
        match draw_put(
            term,
            wx,
            bottom,
            border.border_corner_bl(),
            false,
            written,
            Ghost(before),
            Ghost(none.push(tl)),
        ) {
            Ok(_) => {},
            Err(e) => {
                proof {
                    lemma_failed_extends(before, term@, e, none.push(tl).push(bl), seq![tr, br]);
                    assert(none.push(tl).push(bl) + seq![tr, br] =~= all);
                }
                return Err(e);
            },
        }
        match draw_put(
            term,
            right,
            wy,
            border.border_corner_tr(),
            false,
            written,
            Ghost(before),
            Ghost(none.push(tl).push(bl)),
        ) {
            Ok(_) => {},
            Err(e) => {
                proof {
                    let corners = none.push(tl).push(bl).push(tr);
                    lemma_failed_extends(before, term@, e, corners, seq![br]);
                    assert(corners + seq![br] =~= all);
                }
                return Err(e);
            },
        }
        match draw_put(
            term,
            right,
            bottom,
            border.border_corner_br(),
            false,
            written,
            Ghost(before),
            Ghost(none.push(tl).push(bl).push(tr)),
        ) {
            Ok(_) => {},
            Err(e) => {
                return Err(e);
            },
        }
        Ok(written)
    }

    /// Draws the border.
    fn blit_border(&self, term: &mut OmmaTerm, wx: usize, wy: usize) -> (res: Result<
        u32,
        OmmaErr,
    >)
        requires
            old(term)@.wf(),
        ensures
            painted(old(term)@, final(term)@, res, border_ops(self@, wx, wy)),
    {
        let ghost w = self@;
        let ghost before = term@;
        proof {
            lemma_drawing_begins(before);
        }
        let border = match &self.border {
            Some(border) => *border,
            None => {
                return Ok(0);
            },
        };
        if border.hidden() || self.view_width == 0 || self.view_height == 0 {
            return Ok(0);
        }
        let ghost rows = concat(w.view_width as int, border_rows(w, border, wx, wy));
        let ghost columns = concat(w.view_height as int, border_columns(w, border, wx, wy));
        let ghost corners = border_corners(w, border, wx, wy);
        let rows_res = self.blit_border_rows(term, &border, wx, wy);
        proof {
            lemma_drawing_then(before, before, term@, Seq::empty(), 0, rows_res, rows);
            assert(Seq::<DrawOp>::empty() + rows =~= rows);
        }
        match rows_res {
            Ok(_) => {},
            Err(e) => {
                proof {
                    lemma_failed_extends(before, term@, e, rows, columns);
                    lemma_failed_extends(before, term@, e, rows + columns, corners);
                }
                return Err(e);
            },
        }
        let ghost after_rows = term@;
        let columns_res = self.blit_border_columns(term, &border, wx, wy);
        proof {
            lemma_drawing_then(before, after_rows, term@, rows, 0, columns_res, columns);
        }
        match columns_res {
            Ok(_) => {},
            Err(e) => {
                proof {
                    lemma_failed_extends(before, term@, e, rows + columns, corners);
                }
                return Err(e);
            },
        }
        let ghost after_columns = term@;
        let corners_res = self.blit_border_corners(term, &border, wx, wy);
        proof {
            lemma_drawing_then(
                before,
                after_columns,
                term@,
                rows + columns,
                0,
                corners_res,
                corners,
            );
        }
        match corners_res {
            Ok(_) => {},
            Err(e) => {
                return Err(e);
            },
        }
        Ok(0)
    }

    /// Draws what the window draws of its own.
    fn blit_own(&self, term: &mut OmmaTerm, px: usize, py: usize) -> (res: Result<u32, OmmaErr>)
        requires
            self@.wf(),
            old(term)@.wf(),
        ensures
            painted(old(term)@, final(term)@, res, own_ops(self@, px, py)),
    {
        let ghost w = self@;
        let ghost before = term@;
        proof {
            lemma_drawing_begins(before);
        }
        if self.virt {
            return Ok(0);
        }
        let wx = self.offset_x.saturating_add(px);
        let wy = self.offset_y.saturating_add(py);
        let cx = wx.saturating_add(self.pad_left());
        let cy = wy.saturating_add(self.pad_top());
        let ghost content = content_ops(w, cx, cy);
        let ghost pad = pad_ops(w, wx, wy);
        let ghost border = border_ops(w, wx, wy);
        let mut written: u32 = 0;
        let content_res = self.blit_content(term, cx, cy);
        proof {
            lemma_drawing_then(before, before, term@, Seq::empty(), 0, content_res, content);
            assert(Seq::<DrawOp>::empty() + content =~= content);
        }
        match content_res {
            Ok(n) => {
                written = written.saturating_add(n);
            },
            Err(e) => {
                proof {
                    lemma_failed_extends(before, term@, e, content, pad);
                    lemma_failed_extends(before, term@, e, content + pad, border);
                }
                return Err(e);
            },
        }
        let ghost after_content = term@;
        let pad_res = self.blit_pad(term, wx, wy);
        proof {
            lemma_drawing_then(before, after_content, term@, content, written, pad_res, pad);
        }
        match pad_res {
            Ok(n) => {
                written = written.saturating_add(n);
            },
            Err(e) => {
                proof {
                    lemma_failed_extends(before, term@, e, content + pad, border);
                }
                return Err(e);
            },
        }
        let ghost after_pad = term@;
        let border_res = self.blit_border(term, wx, wy);
        proof {
            lemma_drawing_then(
                before,
                after_pad,
                term@,
                content + pad,
                written,
                border_res,
                border,
            );
        }
        match border_res {
            Ok(n) => {
                written = written.saturating_add(n);
            },
            Err(e) => {
                return Err(e);
            },
        }
        Ok(written)
    }

    /// Draws the children of the window, each with all that is below it.
    fn blit_children(
        &self,
        windows: &Vec<Window>,
        objects: &Vec<Object>,
        term: &mut OmmaTerm,
        cx: usize,
        cy: usize,
    ) -> (res: Result<u32, OmmaErr>)
        requires
            arena_wf(window_views(windows@), object_views(objects@)),
            self@.id < windows@.len(),
            self@ == windows@[self@.id as int]@,
            old(term)@.wf(),
        ensures
            painted(
                old(term)@,
                final(term)@,
                res,
                concat(
                    self@.children.len() as int,
                    child_ops(
                        window_views(windows@),
                        object_views(objects@),
                        self@.id as int,
                        cx,
                        cy,
                    ),
                ),
            ),
        decreases windows@.len() - self@.id, 0int,
    {
        let ghost ws = window_views(windows@);
        let ghost os = object_views(objects@);
        let ghost w = self@;
        let ghost id = self@.id as int;
        let ghost before = term@;
        let ghost kids = child_ops(ws, os, id, cx, cy);
        let count = self.children.len();
        let mut written: u32 = 0;
        let mut k: usize = 0;
        proof {
            lemma_drawing_begins(before);
            assert(links_wf(ws, os, id));
            assert(ws[id] == w);
        }
        while k < count
            invariant
                before == old(term)@,
                arena_wf(ws, os),
                ws == window_views(windows@),
                os == object_views(objects@),
                w == self@,
                id == w.id,
                0 <= id < ws.len(),
                ws[id] == w,
                links_wf(ws, os, id),
                kids == child_ops(ws, os, id, cx, cy),
                count == w.children.len(),
                count == self.children.len(),
                k <= count,
                drawing(before, term@, concat(k as int, kids), written),
            decreases count - k,
        {
            let child = self.children[k];
            let ghost done = concat(k as int, kids);
            let ghost now = term@;
            proof {
                assert(concat(k + 1, kids) == done + kids(k as int));
                assert(child == w.children[k as int]);
                assert(id <= child < ws.len());
            }
            if child == self.id {
                if child != 0 {
                    let mut body = String::from_str("failed to blit window ");
                    push_decimal(&mut body, self.id as u64);
                    body.append(" due to self own");
                    let e = OmmaErr::from_string(body);
                    proof {
                        lemma_self_owned_failed(before, now, done, written, child, e);
                        assert(done.push(self_owned(child)) =~= concat(k + 1, kids));
                        lemma_failed_in_columns(before, now, e, k as int, count as int, kids);
                    }
                    return Err(e);
                }
                proof {
                    assert(concat(k + 1, kids) =~= done);
                }
            } else {
                let below = &windows[child as usize];
                proof {
                    assert(links_wf(ws, os, child as int));
                    assert(ws[child as int] == below@);
                    assert(kids(k as int) == window_ops(ws, os, child as int, cx, cy));
                }
                let below_res = below.blit(windows, objects, term, cx, cy);
                proof {
                    lemma_drawing_then(
                        before,
                        now,
                        term@,
                        done,
                        written,
                        below_res,
                        kids(k as int),
                    );
                }
                match below_res {
                    Ok(n) => {
                        written = written.saturating_add(n);
                    },
                    Err(e) => {
                        proof {
                            lemma_failed_in_columns(
                                before,
                                term@,
                                e,
                                k as int,
                                count as int,
                                kids,
                            );
                        }
                        return Err(e);
                    },
                }
            }
            k += 1;
        }
        Ok(written)
    }

    /// Draws the objects of the window.
    fn blit_objects(
        &self,
        windows: &Vec<Window>,
        objects: &Vec<Object>,
        term: &mut OmmaTerm,
        cx: usize,
        cy: usize,
    ) -> (res: Result<u32, OmmaErr>)
        requires
            arena_wf(window_views(windows@), object_views(objects@)),
            self@.id < windows@.len(),
            self@ == windows@[self@.id as int]@,
            old(term)@.wf(),
        ensures
            painted(
                old(term)@,
                final(term)@,
                res,
                concat(
                    self@.objects.len() as int,
                    owned_object_ops(
                        window_views(windows@),
                        object_views(objects@),
                        self@.id as int,
                        cx,
                        cy,
                    ),
                ),
            ),
    {
        let ghost ws = window_views(windows@);
        let ghost os = object_views(objects@);
        let ghost w = self@;
        let ghost id = self@.id as int;
        let ghost before = term@;
        let ghost things = owned_object_ops(ws, os, id, cx, cy);
        let count = self.objects.len();
        let mut written: u32 = 0;
        let mut j: usize = 0;
        proof {
            lemma_drawing_begins(before);
            assert(links_wf(ws, os, id));
            assert(ws[id] == w);
        }
        while j < count
            invariant
                before == old(term)@,
                ws == window_views(windows@),
                os == object_views(objects@),
                w == self@,
                id == w.id,
                0 <= id < ws.len(),
                ws[id] == w,
                links_wf(ws, os, id),
                things == owned_object_ops(ws, os, id, cx, cy),
                count == w.objects.len(),
                count == self.objects.len(),
                j <= count,
                drawing(before, term@, concat(j as int, things), written),
            decreases count - j,
        {
            let object_id = self.objects[j];
            let ghost done = concat(j as int, things);
            let ghost now = term@;
            proof {
                assert(concat(j + 1, things) == done + things(j as int));
                assert(object_id == w.objects[j as int]);
                assert(object_id < os.len());
            }
            let object = &objects[object_id as usize];
            let object_res = object.blit(term, cx, cy);
            proof {
                assert(os[object_id as int] == object@);
                lemma_drawing_then(before, now, term@, done, written, object_res, things(j as int));
            }
            match object_res {
                Ok(n) => {
                    written = written.saturating_add(n);
                },
                Err(e) => {
                    proof {
                        lemma_failed_in_columns(before, term@, e, j as int, count as int, things);
                    }
                    return Err(e);
                },
            }
            j += 1;
        }
        Ok(written)
    }

    /// Composites the window, with all that is below it, into the back
    /// buffer of the terminal. `windows` and `objects` are the arenas that
    /// the window stands in, and `parent_offset_x` and `parent_offset_y` say
    /// where the content of its parent starts on the terminal.
    ///
    /// What is drawn, and in which order, is [`window_ops`]. The drawing
    /// stops at the first cell that falls outside the terminal and at a
    /// window that lists itself as a child, and the error says which it was;
    /// what was drawn before stays drawn. Otherwise the result is the
    /// number of cells of content, padding and objects that were written.
    /// The cells of borders are not counted, and neither are transparent
    /// cells, which write nothing. The count stops at `u32::MAX`.
    ///
    /// A hidden window returns 0 and leaves the terminal as it is, whatever
    /// is below it.
    pub fn blit(
        &self,
        windows: &Vec<Window>,
        objects: &Vec<Object>,
        term: &mut OmmaTerm,
        parent_offset_x: usize,
        parent_offset_y: usize,
    ) -> (res: Result<u32, OmmaErr>)
        requires
            arena_wf(window_views(windows@), object_views(objects@)),
            self@.id < windows@.len(),
            self@ == windows@[self@.id as int]@,
            old(term)@.wf(),
        ensures
            painted(
                old(term)@,
                final(term)@,
                res,
                window_ops(
                    window_views(windows@),
                    object_views(objects@),
                    self@.id as int,
                    parent_offset_x,
                    parent_offset_y,
                ),
            ),
            self@.hidden ==> res == Ok::<u32, OmmaErr>(0) && final(term)@ == old(term)@,
        decreases windows@.len() - self@.id, 1int,
    {
        let ghost ws = window_views(windows@);
        let ghost os = object_views(objects@);
        let ghost w = self@;
        let ghost id = self@.id as int;
        let ghost before = term@;
        proof {
            lemma_drawing_begins(before);
            assert(links_wf(ws, os, id));
            assert(ws[id] == w);
        }
        if self.hidden {
            return Ok(0);
        }
        let wx = self.offset_x.saturating_add(parent_offset_x);
        let wy = self.offset_y.saturating_add(parent_offset_y);
        let cx = wx.saturating_add(self.pad_left());
        let cy = wy.saturating_add(self.pad_top());
        let ghost own = own_ops(w, parent_offset_x, parent_offset_y);
        let ghost below = concat(w.children.len() as int, child_ops(ws, os, id, cx, cy));
        let ghost things = concat(w.objects.len() as int, owned_object_ops(ws, os, id, cx, cy));
        proof {
            assert(window_ops(ws, os, id, parent_offset_x, parent_offset_y) == own + below
                + things);
        }
        let mut written: u32 = 0;
        let own_res = self.blit_own(term, parent_offset_x, parent_offset_y);
        proof {
            lemma_drawing_then(before, before, term@, Seq::empty(), 0, own_res, own);
            assert(Seq::<DrawOp>::empty() + own =~= own);
        }
        match own_res {
            Ok(n) => {
                written = written.saturating_add(n);
            },
            Err(e) => {
                proof {
                    lemma_failed_extends(before, term@, e, own, below);
                    lemma_failed_extends(before, term@, e, own + below, things);
                }
                return Err(e);
            },
        }
        let ghost after_own = term@;
        let below_res = self.blit_children(windows, objects, term, cx, cy);
        proof {
            lemma_drawing_then(before, after_own, term@, own, written, below_res, below);
        }
        match below_res {
            Ok(n) => {
                written = written.saturating_add(n);
            },
            Err(e) => {
                proof {
                    lemma_failed_extends(before, term@, e, own + below, things);
                }
                return Err(e);
            },
        }
        let ghost after_below = term@;
        let things_res = self.blit_objects(windows, objects, term, cx, cy);
        proof {
            lemma_drawing_then(
                before,
                after_below,
                term@,
                own + below,
                written,
                things_res,
                things,
            );
        }
        match things_res {
            Ok(n) => {
                written = written.saturating_add(n);
            },
            Err(e) => {
                return Err(e);
            },
        }
        Ok(written)
    }
}

/// The message for a cell written outside the buffer of a window.
pub open spec fn cell_write_error(w: WindowView, x: usize, y: usize) -> Seq<char> {
    "window_id "@ + decimal(w.id as nat) + " invalid ommacell write to "@ + decimal(x as nat)
        + ":"@ + decimal(y as nat) + " (max "@ + decimal(w.view_width as nat) + ":"@ + decimal(
        w.view_height as nat,
    ) + ")"@
}

/// The message for a cell read outside the buffer of a window.
pub open spec fn cell_read_error(w: WindowView, x: usize, y: usize) -> Seq<char> {
    "window_id "@ + decimal(w.id as nat) + " invalid ommacell read from "@ + decimal(x as nat)
        + ":"@ + decimal(y as nat) + " (max "@ + decimal(w.view_width as nat) + ":"@ + decimal(
        w.view_height as nat,
    ) + ")"@
}

/// The message for a child that a window does not have.
pub open spec fn not_owned_error(child_id: u32, id: u32) -> Seq<char> {
    "error removing window "@ + decimal(child_id as nat) + " from parent "@ + decimal(id as nat)
        + ", not owned"@
}

/// The message for a text that does not fit into a window.
pub open spec fn text_error(w: WindowView, x: usize, y: usize, text: Seq<char>) -> Seq<char> {
    "window_id "@ + decimal(w.id as nat) + " invalid write_window_string "@ + decimal(x as nat)
        + ":"@ + decimal(y as nat) + " (max "@ + decimal(largest(w.width) as nat) + ":"@
        + decimal(largest(w.height) as nat) + ") = "@ + text
}

/// The largest index below `n`, and zero where there is none.
pub open spec fn largest(n: usize) -> usize {
    if n == 0 {
        0
    } else {
        (n - 1) as usize
    }
}

/// Whether a text can be written into a window from column `x` of row `y`:
/// the row exists, and the text, one column for each of its characters, does
/// not reach beyond the last column. A text that ends in the last column
/// fits.
pub open spec fn text_fits(w: WindowView, x: usize, y: usize, text: Seq<char>) -> bool {
    x + text.len() <= w.width && y < w.height
}

/// The cell that shows `ch` with the colours and attributes of `cell`.
pub open spec fn with_char(cell: OmmaCell, ch: char) -> OmmaCell {
    OmmaCell { ch, ..cell }
}

/// The grid after the first `n` characters of a text were written into row
/// `y`, from column `x` to the right, one cell each.
pub open spec fn text_grid(g: Grid, x: int, y: int, cell: OmmaCell, text: Seq<char>, n: int) -> Grid
    decreases n,
{
    if n <= 0 {
        g
    } else {
        grid_set(text_grid(g, x, y, cell, text, n - 1), x + n - 1, y, with_char(cell, text[n - 1]))
    }
}

/// Whether `i` is the first place at which `v` stands in `s`.
pub open spec fn first_at(s: Seq<u32>, v: u32, i: int) -> bool {
    &&& 0 <= i < s.len()
    &&& s[i] == v
    &&& forall|j: int| 0 <= j < i ==> s[j] != v
}

impl Window {
    /// Whether the buffer has the window's size and the view lies within it.
    /// Every window that this library has made and changed is so.
    pub fn is_wf(&self) -> (b: bool)
        ensures
            b == self@.wf(),
    {
        grid_has_size(&self.buffer, self.width, self.height) && self.view_width <= self.width
            && self.view_height <= self.height
    }

    /// Whether the window can stand at the place `place` of an arena of
    /// `windows` windows and `objects` objects.
    pub fn fits(&self, place: usize, windows: usize, objects: usize) -> (b: bool)
        ensures
            b == self@.fits(place as int, windows as int, objects as int),
    {
        if !self.is_wf() || self.id as usize != place {
            return false;
        }
        let mut k: usize = 0;
        while k < self.children.len()
            invariant
                k <= self.children.len(),
                forall|i: int| 0 <= i < k ==> place <= (#[trigger] self@.children[i]) < windows,
            decreases self.children.len() - k,
        {
            let child = self.children[k] as usize;
            if child < place || child >= windows {
                assert(!(place <= self@.children[k as int] < windows));
                return false;
            }
            k += 1;
        }
        let mut j: usize = 0;
        while j < self.objects.len()
            invariant
                j <= self.objects.len(),
                forall|i: int| 0 <= i < j ==> (#[trigger] self@.objects[i]) < objects,
            decreases self.objects.len() - j,
        {
            if self.objects[j] as usize >= objects {
                assert(!(self@.objects[j as int] < objects));
                return false;
            }
            j += 1;
        }
        true
    }

    pub fn id(&self) -> (id: u32)
        ensures
            id == self@.id,
    {
        self.id
    }

    pub fn parent_id(&self) -> (id: u32)
        ensures
            id == self@.parent_id,
    {
        self.parent_id
    }

    pub fn offset_x(&self) -> (n: usize)
        ensures
            n == self@.offset_x,
    {
        self.offset_x
    }

    pub fn offset_y(&self) -> (n: usize)
        ensures
            n == self@.offset_y,
    {
        self.offset_y
    }

    pub fn width(&self) -> (n: usize)
        ensures
            n == self@.width,
    {
        self.width
    }

    pub fn height(&self) -> (n: usize)
        ensures
            n == self@.height,
    {
        self.height
    }

    pub fn view_width(&self) -> (n: usize)
        ensures
            n == self@.view_width,
    {
        self.view_width
    }

    pub fn view_height(&self) -> (n: usize)
        ensures
            n == self@.view_height,
    {
        self.view_height
    }

    /// Takes the border away, and with it the ring that it took.
    pub fn remove_border(&mut self)
        ensures
            final(self)@ == (WindowView { border: None, ..old(self)@ }),
    {
        self.border = None;
    }

    /// Gives the window this border.
    pub fn set_border(&mut self, border: &OmmaBorder)
        ensures
            final(self)@ == (WindowView { border: Some(*border), ..old(self)@ }),
    {
        self.border = Some(*border);
    }

    /// Whether no border is drawn: the window has none, or it is hidden.
    pub fn is_border_hidden(&self) -> (h: bool)
        ensures
            h == match self@.border {
                Some(b) => b.hidden,
                None => true,
            },
    {
        match &self.border {
            Some(border) => border.hidden(),
            None => true,
        }
    }

    /// Hides a visible border and shows a hidden one. Without a border
    /// nothing changes.
    pub fn toggle_border_hidden(&mut self)
        ensures
            final(self)@ == (WindowView {
                border: match old(self)@.border {
                    Some(b) => Some(OmmaBorder { hidden: !b.hidden, ..b }),
                    None => None,
                },
                ..old(self)@
            }),
    {
        match self.border {
            Some(border) => {
                let mut border = border;
                border.toggle_hidden();
                self.border = Some(border);
            },
            None => {},
        }
    }

    /// Hides the border. Without a border nothing changes.
    pub fn set_border_hidden(&mut self)
        ensures
            final(self)@ == (WindowView {
                border: match old(self)@.border {
                    Some(b) => Some(OmmaBorder { hidden: true, ..b }),
                    None => None,
                },
                ..old(self)@
            }),
    {
        match self.border {
            Some(border) => {
                let mut border = border;
                border.set_hidden();
                self.border = Some(border);
            },
            None => {},
        }
    }

    /// Shows the border. Without a border nothing changes.
    pub fn clear_border_hidden(&mut self)
        ensures
            final(self)@ == (WindowView {
                border: match old(self)@.border {
                    Some(b) => Some(OmmaBorder { hidden: false, ..b }),
                    None => None,
                },
                ..old(self)@
            }),
    {
        match self.border {
            Some(border) => {
                let mut border = border;
                border.clear_hidden();
                self.border = Some(border);
            },
            None => {},
        }
    }

    pub fn is_hidden(&self) -> (h: bool)
        ensures
            h == self@.hidden,
    {
        self.hidden
    }

    /// Hides a visible window and shows a hidden one.
    pub fn toggle_hidden(&mut self)
        ensures
            final(self)@ == (WindowView { hidden: !old(self)@.hidden, ..old(self)@ }),
    {
        self.hidden = !self.hidden;
    }

    /// Hides the window, and with it all that is below it.
    pub fn set_hidden(&mut self)
        ensures
            final(self)@ == (WindowView { hidden: true, ..old(self)@ }),
    {
        self.hidden = true
    }

    /// Shows the window.
    pub fn clear_hidden(&mut self)
        ensures
            final(self)@ == (WindowView { hidden: false, ..old(self)@ }),
    {
        self.hidden = false
    }

    /// Appends a window to the children. The session does this when it
    /// registers a window. Whoever else does it has to see that the arena
    /// stays one that can be composited.
    pub fn add_child(&mut self, child_id: u32)
        ensures
            final(self)@ == (WindowView {
                children: old(self)@.children.push(child_id),
                ..old(self)@
            }),
    {
        self.children.push(child_id);
    }

    /// Appends an object to the objects. The session does this when it
    /// registers an object.
    pub fn add_object(&mut self, object_id: u32)
        ensures
            final(self)@ == (WindowView {
                objects: old(self)@.objects.push(object_id),
                ..old(self)@
            }),
    {
        self.objects.push(object_id);
    }

    /// Takes a window out of the children: its first entry, where it stands
    /// there more than once. Fails, changing nothing, where it is no child.
    pub fn remove_child(&mut self, child_id: u32) -> (res: Result<(), OmmaErr>)
        ensures
            match res {
                Ok(_) => exists|i: int|
                    first_at(old(self)@.children, child_id, i) && final(self)@ == (WindowView {
                        children: old(self)@.children.remove(i),
                        ..old(self)@
                    }),
                Err(e) => !old(self)@.children.contains(child_id) && final(self)@ == old(self)@
                    && e@ == not_owned_error(child_id, old(self)@.id),
            },
    {
        let mut i: usize = 0;
        while i < self.children.len()
            invariant
                *self == *old(self),
                i <= self.children.len(),
                forall|j: int| 0 <= j < i ==> self.children@[j] != child_id,
            decreases self.children.len() - i,
        {
            if self.children[i] == child_id {
                proof {
                    assert(first_at(old(self)@.children, child_id, i as int));
                }
                self.children.remove(i);
                return Ok(());
            }
            i += 1;
        }
        let mut body = String::from_str("error removing window ");
        push_decimal(&mut body, child_id as u64);
        body.append(" from parent ");
        push_decimal(&mut body, self.id as u64);
        body.append(", not owned");
        Err(OmmaErr::from_string(body))
    }

    /// Replaces one cell of the buffer.
    fn store(&mut self, x: usize, y: usize, cell: OmmaCell)
        requires
            old(self)@.wf(),
            x < old(self)@.width,
            y < old(self)@.height,
        ensures
            final(self)@ == (WindowView {
                buffer: grid_set(old(self)@.buffer, x as int, y as int, cell),
                ..old(self)@
            }),
            final(self)@.wf(),
    {
        assert(self@.buffer[x as int].len() == self.height);
        self.buffer[x][y] = cell;
        proof {
            assert(grid_of(self.buffer) =~= grid_set(old(self)@.buffer, x as int, y as int, cell));
        }
    }

    /// Writes a cell into the buffer at column `x` and row `y`. Fails,
    /// changing nothing, where that lies outside the buffer.
    pub fn set_ommacell(&mut self, x: usize, y: usize, ommacell: &OmmaCell) -> (res: Result<
        (),
        OmmaErr,
    >)
        requires
            old(self)@.wf(),
        ensures
            final(self)@.wf(),
            match res {
                Ok(_) => x < old(self)@.width && y < old(self)@.height && final(self)@
                    == with_cell(old(self)@, x as int, y as int, *ommacell),
                Err(e) => (x >= old(self)@.width || y >= old(self)@.height) && final(self)@
                    == old(self)@ && e@ == cell_write_error(old(self)@, x, y),
            },
    {
        if x >= self.width || y >= self.height {
            let mut body = String::from_str("window_id ");
            push_decimal(&mut body, self.id as u64);
            body.append(" invalid ommacell write to ");
            push_decimal(&mut body, x as u64);
            body.append(":");
            push_decimal(&mut body, y as u64);
            body.append(" (max ");
            push_decimal(&mut body, self.view_width as u64);
            body.append(":");
            push_decimal(&mut body, self.view_height as u64);
            body.append(")");
            return Err(OmmaErr::from_string(body));
        }
        self.store(x, y, *ommacell);
        Ok(())
    }

    /// The cell of the buffer at column `x` and row `y`. Fails where that
    /// lies outside the buffer.
    pub fn get_ommacell(&self, x: usize, y: usize) -> (res: Result<OmmaCell, OmmaErr>)
        requires
            self@.wf(),
        ensures
            match res {
                Ok(cell) => x < self@.width && y < self@.height && cell == self@.cell_at(
                    x as int,
                    y as int,
                ),
                Err(e) => (x >= self@.width || y >= self@.height) && e@ == cell_read_error(
                    self@,
                    x,
                    y,
                ),
            },
    {
        if x >= self.width || y >= self.height {
            let mut body = String::from_str("window_id ");
            push_decimal(&mut body, self.id as u64);
            body.append(" invalid ommacell read from ");
            push_decimal(&mut body, x as u64);
            body.append(":");
            push_decimal(&mut body, y as u64);
            body.append(" (max ");
            push_decimal(&mut body, self.view_width as u64);
            body.append(":");
            push_decimal(&mut body, self.view_height as u64);
            body.append(")");
            return Err(OmmaErr::from_string(body));
        }
        assert(self@.buffer[x as int].len() == self.height);
        Ok(self.buffer[x][y])
    }

    /// Writes the same cell into every place of the buffer. Returns the
    /// number of cells of the view, which stops at `u32::MAX`. It never
    /// fails.
    pub fn fill(&mut self, cell: &OmmaCell) -> (res: Result<u32, OmmaErr>)
        requires
            old(self)@.wf(),
        ensures
            final(self)@ == filled(old(self)@, *cell),
            final(self)@.wf(),
            res matches Ok(n) && n == clamp_count(old(self)@.view_width * old(self)@.view_height),
    {
        let mut x: usize = 0;
        while x < self.width
            invariant
                self@.wf(),
                self@ == (WindowView { buffer: self@.buffer, ..old(self)@ }),
                x <= self.width,
                self.width == self@.width,
                self.height == self@.height,
                forall|i: int, j: int|
                    0 <= i < x && 0 <= j < self@.height ==> #[trigger] self@.buffer[i][j] == *cell,
            decreases self.width - x,
        {
            let mut y: usize = 0;
            while y < self.height
                invariant
                    self@.wf(),
                    self@ == (WindowView { buffer: self@.buffer, ..old(self)@ }),
                    x < self.width,
                    y <= self.height,
                    self.width == self@.width,
                    self.height == self@.height,
                    forall|i: int, j: int|
                        0 <= i < x && 0 <= j < self@.height ==> #[trigger] self@.buffer[i][j]
                            == *cell,
                    forall|j: int| 0 <= j < y ==> #[trigger] self@.buffer[x as int][j] == *cell,
                decreases self.height - y,
            {
                self.store(x, y, *cell);
                y += 1;
            }
            x += 1;
        }
        proof {
            let filled = uniform_grid(old(self)@.width as int, old(self)@.height as int, *cell);
            assert forall|i: int| 0 <= i < self@.width implies #[trigger] self@.buffer[i]
                =~= filled[i] by {
                assert forall|j: int| 0 <= j < self@.height implies self@.buffer[i][j]
                    == filled[i][j] by {
                    assert(self@.buffer[i][j] == *cell);
                }
            }
            assert(self@.buffer =~= uniform_grid(
                old(self)@.width as int,
                old(self)@.height as int,
                *cell,
            ));
        }
        let count = match self.view_width.checked_mul(self.view_height) {
            Some(n) => if n > u32::MAX as usize {
                u32::MAX
            } else {
                n as u32
            },
            None => u32::MAX,
        };
        Ok(count)
    }

    /// Writes a text into row `y` from column `x` to the right, one cell for
    /// each character, with the colours and attributes of `cell`. Returns
    /// the number of bytes of the text in UTF-8, which stops at `u32::MAX`.
    /// Fails, changing nothing, where the row does not exist or the text
    /// reaches beyond the last column.
    pub fn string_raw(&mut self, x: usize, y: usize, cell: &OmmaCell, string: String) -> (res:
        Result<u32, OmmaErr>)
        requires
            old(self)@.wf(),
        ensures
            final(self)@.wf(),
            match res {
                Ok(n) => text_fits(old(self)@, x, y, string@) && final(self)@ == (WindowView {
                    buffer: text_grid(
                        old(self)@.buffer,
                        x as int,
                        y as int,
                        *cell,
                        string@,
                        string@.len() as int,
                    ),
                    ..old(self)@
                }) && n == clamp_count(encode_utf8(string@).len() as int),
                Err(e) => !text_fits(old(self)@, x, y, string@) && final(self)@ == old(self)@
                    && e@ == text_error(old(self)@, x, y, string@),
            },
    {
        let text = string.as_str();
        let bytes = text.as_bytes().len();
        assert(bytes == encode_utf8(string@).len());
        let fits = match x.checked_add(text.unicode_len()) {
            Some(end) => end <= self.width && y < self.height,
            None => false,
        };
        if !fits {
            let mut body = String::from_str("window_id ");
            push_decimal(&mut body, self.id as u64);
            body.append(" invalid write_window_string ");
            push_decimal(&mut body, x as u64);
            body.append(":");
            push_decimal(&mut body, y as u64);
            body.append(" (max ");
            push_decimal(&mut body, self.width.saturating_sub(1) as u64);
            body.append(":");
            push_decimal(&mut body, self.height.saturating_sub(1) as u64);
            body.append(") = ");
            body.append(text);
            return Err(OmmaErr::from_string(body));
        }
        let mut column: usize = x;
        for ch in it: text.chars()
            invariant
                it.seq() == string@,
                self@.wf(),
                column == x + it.index(),
                x + string@.len() <= old(self)@.width,
                y < old(self)@.height,
                self@ == (WindowView {
                    buffer: text_grid(
                        old(self)@.buffer,
                        x as int,
                        y as int,
                        *cell,
                        string@,
                        it.index() as int,
                    ),
                    ..old(self)@
                }),
        {
            let glyph = OmmaCell::new(ch, cell.fg, cell.bg, cell.attrs);
            self.store(column, y, glyph);
            column += 1;
        }
        let count = if bytes > u32::MAX as usize {
            u32::MAX
        } else {
            bytes as u32
        };
        Ok(count)
    }

    /// The window as text.
    pub fn to_string(&self) -> (s: String)
        ensures
            s@ == self@.label(),
    {
        let mut s = if self.hidden {
            String::from_str("H")
        } else {
            String::from_str("V")
        };
        s.append(":");
        push_decimal(&mut s, self.id as u64);
        s.append(":");
        s.append(self.name.as_str());
        s
    }
}

/// The settings that a builder starts with: a visible window of the given
/// size at the origin of the root window, without name, border, padding or
/// fill.
pub open spec fn new_settings(width: usize, height: usize) -> WindowBuilderView {
    WindowBuilderView {
        parent_id: 0,
        name: None,
        offset_x: 0,
        offset_y: 0,
        width,
        height,
        scroll_x: 0,
        scroll_y: 0,
        border: None,
        pad: margins(0, 0, 0, 0),
        hidden: false,
        virt: false,
        fill: None,
    }
}

/// The name of a window that was given none.
pub open spec fn unnamed_window(id: u32) -> Seq<char> {
    "Unnamed Window #"@ + decimal(id as nat)
}

/// What a window is made from.
pub struct WindowBuilder {
    parent_id: u32,
    name: Option<String>,
    offset_x: usize,
    offset_y: usize,
    width: usize,
    height: usize,
    scroll_x: usize,
    scroll_y: usize,
    border: Option<OmmaBorder>,
    pad: OmmaPad,
    hidden: bool,
    virt: bool,
    fill: Option<OmmaCell>,
}

/// The settings of a [`WindowBuilder`].
pub struct WindowBuilderView {
    pub parent_id: u32,
    pub name: Option<Seq<char>>,
    pub offset_x: usize,
    pub offset_y: usize,
    pub width: usize,
    pub height: usize,
    pub scroll_x: usize,
    pub scroll_y: usize,
    pub border: Option<OmmaBorder>,
    pub pad: OmmaPad,
    pub hidden: bool,
    pub virt: bool,
    pub fill: Option<OmmaCell>,
}

impl WindowBuilderView {
    /// The window that these settings give under the id `id`: without
    /// children and objects, its view the whole buffer, and the buffer full
    /// of the fill cell, or of the transparent cell where there is none.
    pub open spec fn built(self, id: u32) -> WindowView {
        WindowView {
            id,
            parent_id: self.parent_id,
            children: Seq::empty(),
            objects: Seq::empty(),
            name: match self.name {
                Some(name) => name,
                None => unnamed_window(id),
            },
            offset_x: self.offset_x,
            offset_y: self.offset_y,
            width: self.width,
            height: self.height,
            view_width: self.width,
            view_height: self.height,
            scroll_x: self.scroll_x,
            scroll_y: self.scroll_y,
            border: self.border,
            pad: self.pad,
            hidden: self.hidden,
            virt: self.virt,
            buffer: uniform_grid(
                self.width as int,
                self.height as int,
                match self.fill {
                    Some(cell) => cell,
                    None => glyph(EMPTY),
                },
            ),
        }
    }
}

impl View for WindowBuilder {
    type V = WindowBuilderView;

    closed spec fn view(&self) -> WindowBuilderView {
        WindowBuilderView {
            parent_id: self.parent_id,
            name: match self.name {
                Some(name) => Some(name@),
                None => None,
            },
            offset_x: self.offset_x,
            offset_y: self.offset_y,
            width: self.width,
            height: self.height,
            scroll_x: self.scroll_x,
            scroll_y: self.scroll_y,
            border: self.border,
            pad: self.pad,
            hidden: self.hidden,
            virt: self.virt,
            fill: self.fill,
        }
    }
}

impl WindowBuilder {
    /// A visible window of the given size at the origin of the root window,
    /// without name, border, padding or fill.
    pub fn new(width: usize, height: usize) -> (b: WindowBuilder)
        ensures
            b@ == new_settings(width, height),
    {
        WindowBuilder {
            parent_id: 0,
            name: None,
            offset_x: 0,
            offset_y: 0,
            width,
            height,
            scroll_x: 0,
            scroll_y: 0,
            border: None,
            pad: OmmaPad::new(0, 0, 0, 0),
            hidden: false,
            virt: false,
            fill: None,
        }
    }

    /// Sets the scroll offsets, which are kept and not used.
    pub fn scroll(self, scroll_x: usize, scroll_y: usize) -> (b: WindowBuilder)
        ensures
            b@ == (WindowBuilderView { scroll_x, scroll_y, ..self@ }),
    {
        let mut b = self;
        b.scroll_x = scroll_x;
        b.scroll_y = scroll_y;
        b
    }

    /// Sets the window that this one stands in. Without it that is the root
    /// window.
    pub fn parent(self, parent_id: u32) -> (b: WindowBuilder)
        ensures
            b@ == (WindowBuilderView { parent_id, ..self@ }),
    {
        let mut b = self;
        b.parent_id = parent_id;
        b
    }

    /// Sets where the window stands in the content of its parent.
    pub fn offset(self, offset_x: usize, offset_y: usize) -> (b: WindowBuilder)
        ensures
            b@ == (WindowBuilderView { offset_x, offset_y, ..self@ }),
    {
        let mut b = self;
        b.offset_x = offset_x;
        b.offset_y = offset_y;
        b
    }

    /// Sets the cell that the buffer is filled with.
    pub fn fill(self, fill: &OmmaCell) -> (b: WindowBuilder)
        ensures
            b@ == (WindowBuilderView { fill: Some(*fill), ..self@ }),
    {
        let mut b = self;
        b.fill = Some(*fill);
        b
    }

    /// Sets the name.
    pub fn name(self, name: String) -> (b: WindowBuilder)
        ensures
            b@ == (WindowBuilderView { name: Some(name@), ..self@ }),
    {
        let mut b = self;
        b.name = Some(name);
        b
    }

    /// Sets the border.
    pub fn border(self, border: &OmmaBorder) -> (b: WindowBuilder)
        ensures
            b@ == (WindowBuilderView { border: Some(*border), ..self@ }),
    {
        let mut b = self;
        b.border = Some(*border);
        b
    }

    /// Sets a visible border from the cells of its rows, its columns and its
    /// corners.
    pub fn border_raw(self, horiz: &OmmaCell, vert: &OmmaCell, corner: &OmmaCell) -> (b:
        WindowBuilder)
        ensures
            b@ == (WindowBuilderView { border: Some(framed(*horiz, *vert, *corner)), ..self@ }),
    {
        let mut b = self;
        b.border = Some(OmmaBorder::new(horiz, vert, corner));
        b
    }

    /// Sets a visible border that is the same cell all around.
    pub fn border_mono(self, mono: &OmmaCell) -> (b: WindowBuilder)
        ensures
            b@ == (WindowBuilderView { border: Some(framed(*mono, *mono, *mono)), ..self@ }),
    {
        let mut b = self;
        b.border = Some(OmmaBorder::new_mono(mono));
        b
    }

    /// Hides the border that was set. Without a border nothing changes.
    pub fn border_hidden(self) -> (b: WindowBuilder)
        ensures
            b@ == (WindowBuilderView {
                border: match self@.border {
                    Some(border) => Some(OmmaBorder { hidden: true, ..border }),
                    None => None,
                },
                ..self@
            }),
    {
        let mut b = self;
        match b.border {
            Some(border) => {
                let mut border = border;
                border.set_hidden();
                b.border = Some(border);
            },
            None => {},
        }
        b
    }

    /// Sets the padding.
    pub fn pad(self, pad: &OmmaPad) -> (b: WindowBuilder)
        ensures
            b@ == (WindowBuilderView { pad: *pad, ..self@ }),
    {
        let mut b = self;
        b.pad = *pad;
        b
    }

    /// Sets the padding from its four margins.
    pub fn pad_raw(self, top: usize, bottom: usize, left: usize, right: usize) -> (b:
        WindowBuilder)
        ensures
            b@ == (WindowBuilderView { pad: margins(top, bottom, left, right), ..self@ }),
    {
        let mut b = self;
        b.pad = OmmaPad::new(top, bottom, left, right);
        b
    }

    /// Sets the same padding on all four sides.
    pub fn pad_mono(self, mono: usize) -> (b: WindowBuilder)
        ensures
            b@ == (WindowBuilderView { pad: margins(mono, mono, mono, mono), ..self@ }),
    {
        let mut b = self;
        b.pad = OmmaPad::new(mono, mono, mono, mono);
        b
    }

    /// Makes the window hidden.
    pub fn hidden(self) -> (b: WindowBuilder)
        ensures
            b@ == (WindowBuilderView { hidden: true, ..self@ }),
    {
        let mut b = self;
        b.hidden = true;
        b
    }

    /// Makes the window virtual.
    pub fn virt(self) -> (b: WindowBuilder)
        ensures
            b@ == (WindowBuilderView { virt: true, ..self@ }),
    {
        let mut b = self;
        b.virt = true;
        b
    }

    /// Makes the window and registers it with the session, under the next
    /// window id. Returns the id. Fails, changing neither the counters nor
    /// the session, where no id is left or the session does not hold the
    /// parent.
    pub fn submit(&self, ids: &mut IdCounters, session: &mut Session) -> (res: Result<
        u32,
        OmmaErr,
    >)
        requires
            old(session)@.wf(),
            old(session)@.in_step(*old(ids)),
        ensures
            submitted_window(
                *old(ids),
                old(session)@,
                self@,
                *final(ids),
                final(session)@,
                res,
            ),
            final(session)@.wf(),
            final(session)@.in_step(*final(ids)),
    {
        let count = session.window_count();
        if current_window_id(ids) < u32::MAX && self.parent_id as usize >= count {
            return Err(invalid_window_id(self.parent_id, count));
        }
        let id = match next_window_id(ids) {
            Ok(id) => id,
            Err(e) => {
                return Err(e);
            },
        };
        let window = self.build(id);
        session.register_window(window)
    }

    /// Makes the window with the given id.
    pub fn build(&self, id: u32) -> (window: Window)
        ensures
            window@ == self@.built(id),
            window@.wf(),
    {
        let name = match &self.name {
            Some(name) => name.clone(),
            None => {
                let mut name = String::from_str("Unnamed Window #");
                push_decimal(&mut name, id as u64);
                name
            },
        };
        let cell = match self.fill {
            Some(cell) => cell,
            None => OmmaCell::transparent(),
        };
        Window {
            id,
            parent_id: self.parent_id,
            children: Vec::new(),
            objects: Vec::new(),
            name,
            offset_x: self.offset_x,
            offset_y: self.offset_y,
            width: self.width,
            height: self.height,
            view_width: self.width,
            view_height: self.height,
            scroll_x: self.scroll_x,
            scroll_y: self.scroll_y,
            border: self.border,
            pad: self.pad,
            hidden: self.hidden,
            virt: self.virt,
            buffer: new_grid(self.width, self.height, cell),
        }
    }
}

/// The window after a cell was written into its buffer.
pub open spec fn with_cell(w: WindowView, x: int, y: int, cell: OmmaCell) -> WindowView {
    WindowView { buffer: grid_set(w.buffer, x, y, cell), ..w }
}

/// The window after its buffer was filled.
pub open spec fn filled(w: WindowView, cell: OmmaCell) -> WindowView {
    WindowView { buffer: uniform_grid(w.width as int, w.height as int, cell), ..w }
}

/// A cell that was written inside the buffer is the cell that is read
/// there, and every other cell reads as before.
pub proof fn lemma_set_then_get(w: WindowView, x: int, y: int, cell: OmmaCell)
    requires
        w.wf(),
        0 <= x < w.width,
        0 <= y < w.height,
    ensures
        with_cell(w, x, y, cell).wf(),
        with_cell(w, x, y, cell).cell_at(x, y) == cell,
        forall|i: int, j: int|
            0 <= i < w.width && 0 <= j < w.height && (i != x || j != y) ==> with_cell(
                w,
                x,
                y,
                cell,
            ).cell_at(i, j) == w.cell_at(i, j),
{
}

/// After a fill every place of the buffer reads as the fill cell.
pub proof fn lemma_fill_then_get(w: WindowView, cell: OmmaCell)
    requires
        w.wf(),
    ensures
        filled(w, cell).wf(),
        forall|x: int, y: int|
            0 <= x < w.width && 0 <= y < w.height ==> filled(w, cell).cell_at(x, y) == cell,
{
}

/// A hidden window draws nothing, whatever stands below it: the drawing
/// ends where it began, with no cell written.
pub proof fn lemma_hidden_draws_nothing(
    ws: Seq<WindowView>,
    os: Seq<ObjectView>,
    id: int,
    px: usize,
    py: usize,
    back: Grid,
)
    requires
        0 <= id < ws.len(),
        ws[id].hidden,
    ensures
        window_ops(ws, os, id, px, py) == Seq::<DrawOp>::empty(),
        run(window_ops(ws, os, id, px, py), begin(back)) == begin(back),
{
}

/// A visible virtual window draws nothing of its own and all of what
/// stands below it: its children in their order, then its objects.
pub proof fn lemma_virtual_draws_children(
    ws: Seq<WindowView>,
    os: Seq<ObjectView>,
    id: int,
    px: usize,
    py: usize,
)
    requires
        0 <= id < ws.len(),
        ws[id].virt,
        !ws[id].hidden,
    ensures
        own_ops(ws[id], px, py) == Seq::<DrawOp>::empty(),
        window_ops(ws, os, id, px, py) == concat(
            ws[id].children.len() as int,
            child_ops(
                ws,
                os,
                id,
                content_origin(ws[id], px, py).0,
                content_origin(ws[id], px, py).1,
            ),
        ) + concat(
            ws[id].objects.len() as int,
            owned_object_ops(
                ws,
                os,
                id,
                content_origin(ws[id], px, py).0,
                content_origin(ws[id], px, py).1,
            ),
        ),
{
    let w = ws[id];
    let (cx, cy) = content_origin(w, px, py);
    let below = concat(w.children.len() as int, child_ops(ws, os, id, cx, cy));
    let things = concat(w.objects.len() as int, owned_object_ops(ws, os, id, cx, cy));
    assert(Seq::<DrawOp>::empty() + below + things =~= below + things);
}

/// A transparent cell never changes what is drawn on: its put, where it
/// does not fail, leaves the grid and the count as they are.
pub proof fn lemma_transparent_put_keeps(
    o: Outcome,
    x: usize,
    y: usize,
    cell: OmmaCell,
    counted: bool,
)
    requires
        cell.ch == EMPTY,
        in_grid(o.back, x, y),
    ensures
        step(o, put_as(x, y, cell, counted)) == o,
{
}

/// Whether every child in the arena stands behind its parent, so that no
/// window lists itself. Registering windows keeps an arena so.
pub open spec fn tree_wf(ws: Seq<WindowView>) -> bool {
    forall|i: int, k: int|
        0 <= i < ws.len() && 0 <= k < ws[i].children.len() ==> i < #[trigger] ws[i].children[k]
}

/// What a window draws of its own are puts.
pub proof fn lemma_own_ops_only_puts(w: WindowView, px: usize, py: usize)
    ensures
        only_puts(own_ops(w, px, py)),
{
    let (wx, wy) = window_origin(w, px, py);
    let (cx, cy) = content_origin(w, px, py);
    let columns = content_column(w, cx, cy);
    assert forall|x: int| 0 <= x < w.content_width() implies only_puts(#[trigger] columns(x)) by {
        let cells = content_put(w, cx, cy, x);
        assert forall|y: int| 0 <= y < w.content_height() implies only_puts(
            #[trigger] cells(y),
        ) by {}
        lemma_concat_only_puts(w.content_height(), cells);
    }
    lemma_concat_only_puts(w.content_width(), columns);
    let pads = pad_column(w, wx, wy);
    assert forall|x: int| 0 <= x < w.view_width implies only_puts(#[trigger] pads(x)) by {
        let cells = pad_put(w, wx, wy, x);
        assert forall|y: int| 0 <= y < w.view_height implies only_puts(#[trigger] cells(y)) by {}
        lemma_concat_only_puts(w.view_height as int, cells);
    }
    lemma_concat_only_puts(w.view_width as int, pads);
    if border_shown(w) {
        let b = w.border->0;
        let rows = border_rows(w, b, wx, wy);
        let sides = border_columns(w, b, wx, wy);
        assert forall|x: int| 0 <= x < w.view_width implies only_puts(#[trigger] rows(x)) by {}
        assert forall|y: int| 0 <= y < w.view_height implies only_puts(#[trigger] sides(y)) by {}
        lemma_concat_only_puts(w.view_width as int, rows);
        lemma_concat_only_puts(w.view_height as int, sides);
    }
}

/// In an arena in which no window lists itself, everything that compositing
/// a window draws is a put.
pub proof fn lemma_window_ops_only_puts(
    ws: Seq<WindowView>,
    os: Seq<ObjectView>,
    id: int,
    px: usize,
    py: usize,
)
    requires
        tree_wf(ws),
    ensures
        only_puts(window_ops(ws, os, id, px, py)),
    decreases ws.len() - id,
{
    if 0 <= id < ws.len() && !ws[id].hidden {
        let w = ws[id];
        let (cx, cy) = content_origin(w, px, py);
        let kids = child_ops(ws, os, id, cx, cy);
        let things = owned_object_ops(ws, os, id, cx, cy);
        lemma_own_ops_only_puts(w, px, py);
        assert forall|k: int| 0 <= k < w.children.len() implies only_puts(#[trigger] kids(k)) by {
            let c = w.children[k] as int;
            assert(id < c);
            if c < ws.len() {
                lemma_window_ops_only_puts(ws, os, c, cx, cy);
            }
        }
        lemma_concat_only_puts(w.children.len() as int, kids);
        assert forall|k: int| 0 <= k < w.objects.len() implies only_puts(#[trigger] things(k)) by {}
        lemma_concat_only_puts(w.objects.len() as int, things);
    }
}

/// One put of a drawing in progress. Returns the count after it.
fn draw_put(
    term: &mut OmmaTerm,
    x: usize,
    y: usize,
    cell: &OmmaCell,
    counted: bool,
    written: u32,
    Ghost(before): Ghost<TermView>,
    Ghost(done): Ghost<Seq<DrawOp>>,
) -> (res: Result<u32, OmmaErr>)
    requires
        drawing(before, old(term)@, done, written),
    ensures
        match res {
            Ok(n) => drawing(
                before,
                final(term)@,
                done.push(put_as(x, y, *cell, counted)),
                n,
            ) && n == (if counted && cell.ch != EMPTY {
                count_add(written, 1)
            } else {
                written
            }),
            Err(e) => painted(
                before,
                final(term)@,
                Err(e),
                done.push(put_as(x, y, *cell, counted)),
            ),
        },
{
    let ghost now = term@;
    match term.put_cell_at(x, y, cell) {
        Ok(n) => {
            proof {
                lemma_put_done(before, now, term@, done, written, x, y, *cell, counted);
            }
            if counted {
                Ok(written.saturating_add(n))
            } else {
                Ok(written)
            }
        },
        Err(e) => {
            proof {
                lemma_put_failed(before, now, done, written, x, y, *cell, counted, e);
            }
            Err(e)
        },
    }
}

/// Once a drawing has ended with an error within the first `n + 1` parts of
/// a `concat`, the parts up to `m` change nothing.
proof fn lemma_failed_in_columns(
    before: TermView,
    now: TermView,
    e: OmmaErr,
    n: int,
    m: int,
    f: spec_fn(int) -> Seq<DrawOp>,
)
    requires
        0 <= n < m,
        painted(before, now, Err(e), concat(n + 1, f)),
    ensures
        painted(before, now, Err(e), concat(m, f)),
{
    assert(Seq::<DrawOp>::empty() + concat(n + 1, f) =~= concat(n + 1, f));
    lemma_failed_in_concat(before, now, e, Seq::empty(), n + 1, m, f);
    assert(Seq::<DrawOp>::empty() + concat(m, f) =~= concat(m, f));
}

} // verus!
