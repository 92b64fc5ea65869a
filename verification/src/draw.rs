//! Drawing as a list of operations. Compositing a window produces a list of
//! operations in a fixed order. The operations are applied to a grid of cells
//! one after the other, and the first one that cannot be applied stops the
//! drawing and leaves the grid as the operations before it made it.
use vstd::prelude::*;

use crate::cell::{OmmaCell, EMPTY};
use crate::text::decimal;

verus! {

/// A grid of cells, column by column: `g[x][y]` is the cell in column `x`
/// and row `y`.
pub type Grid = Seq<Seq<OmmaCell>>;

/// Whether a grid has `cols` columns of `rows` cells each.
pub open spec fn grid_wf(g: Grid, cols: int, rows: int) -> bool {
    &&& g.len() == cols
    &&& forall|x: int| 0 <= x < cols ==> (#[trigger] g[x]).len() == rows
}

/// The grid of the given size with the same cell everywhere.
pub open spec fn uniform_grid(cols: int, rows: int, cell: OmmaCell) -> Grid {
    Seq::new(cols as nat, |x: int| Seq::new(rows as nat, |y: int| cell))
}

/// The grid that a vector of columns holds.
pub open spec fn grid_of(v: Vec<Vec<OmmaCell>>) -> Grid {
    Seq::new(v@.len(), |x: int| v@[x]@)
}

/// Whether no cell of the grid is transparent.
pub open spec fn grid_opaque(g: Grid) -> bool {
    forall|x: int, y: int|
        0 <= x < g.len() && 0 <= y < g[x].len() ==> (#[trigger] g[x][y]).ch != EMPTY
}

/// The grid with the cell at column `x` and row `y` replaced.
pub open spec fn grid_set(g: Grid, x: int, y: int, cell: OmmaCell) -> Grid {
    g.update(x, g[x].update(y, cell))
}

/// One operation of a drawing.
pub enum DrawOp {
    /// Write `cell` at column `x` and row `y`. A transparent cell writes
    /// nothing. `counted` says whether a written cell adds to the count of
    /// the drawing.
    Put { x: usize, y: usize, cell: OmmaCell, counted: bool },
    /// The window `id` lists itself as its child, which cannot be drawn.
    SelfOwned { id: u32 },
}

/// How far a drawing has come: the grid, the number of counted cells written
/// into it, and the operation that stopped the drawing, if one did.
pub struct Outcome {
    pub back: Grid,
    pub written: nat,
    pub failed: Option<DrawOp>,
}

/// A put that counts or not, as `counted` says.
pub open spec fn put_as(x: usize, y: usize, cell: OmmaCell, counted: bool) -> DrawOp {
    DrawOp::Put { x, y, cell, counted }
}

/// A put that counts.
pub open spec fn put(x: usize, y: usize, cell: OmmaCell) -> DrawOp {
    put_as(x, y, cell, true)
}

/// A put that does not count.
pub open spec fn put_uncounted(x: usize, y: usize, cell: OmmaCell) -> DrawOp {
    put_as(x, y, cell, false)
}

/// The operation that stands for a window that lists itself.
pub open spec fn self_owned(id: u32) -> DrawOp {
    DrawOp::SelfOwned { id }
}

/// The same state of a drawing with `k` more cells counted.
pub open spec fn counting(o: Outcome, k: nat) -> Outcome {
    Outcome { written: o.written + k, ..o }
}

/// The start of a drawing on the given grid.
pub open spec fn begin(back: Grid) -> Outcome {
    Outcome { back, written: 0, failed: None }
}

/// Whether column `x`, row `y` lies in the grid.
pub open spec fn in_grid(g: Grid, x: usize, y: usize) -> bool {
    x < g.len() && y < g[x as int].len()
}

/// Applies one operation. After a failure nothing is applied any more. A put
/// outside the grid fails, transparent or not. A put of a transparent cell
/// inside the grid changes nothing. Any other put replaces the cell.
pub open spec fn step(o: Outcome, op: DrawOp) -> Outcome {
    if o.failed is Some {
        o
    } else {
        match op {
            DrawOp::Put { x, y, cell, counted } => {
                if !in_grid(o.back, x, y) {
                    Outcome { failed: Some(op), ..o }
                } else if cell.ch == EMPTY {
                    o
                } else {
                    Outcome {
                        back: grid_set(o.back, x as int, y as int, cell),
                        written: if counted {
                            o.written + 1
                        } else {
                            o.written
                        },
                        failed: None,
                    }
                }
            },
            DrawOp::SelfOwned { id } => Outcome { failed: Some(op), ..o },
        }
    }
}

/// Applies the operations in order.
pub open spec fn run(ops: Seq<DrawOp>, o: Outcome) -> Outcome
    decreases ops.len(),
{
    if ops.len() == 0 {
        o
    } else {
        step(run(ops.drop_last(), o), ops.last())
    }
}

/// The operations `f(0)`, `f(1)`, up to `f(n - 1)`, one list after the other.
pub open spec fn concat(n: int, f: spec_fn(int) -> Seq<DrawOp>) -> Seq<DrawOp>
    decreases n,
{
    if n <= 0 {
        Seq::empty()
    } else {
        concat(n - 1, f) + f(n - 1)
    }
}

/// The message of the error that a failed operation is reported with, on a
/// grid of `cols` columns and `rows` rows.
pub open spec fn op_error(op: DrawOp, cols: int, rows: int) -> Seq<char> {
    match op {
        DrawOp::Put { x, y, cell, counted } => put_error(x, y, cols, rows),
        DrawOp::SelfOwned { id } => self_owned_error(id),
    }
}

/// The message for a put outside the grid.
pub open spec fn put_error(x: usize, y: usize, cols: int, rows: int) -> Seq<char> {
    "invalid put cell at "@ + decimal(x as nat) + ":"@ + decimal(y as nat) + " (max "@ + decimal(
        cols as nat,
    ) + ":"@ + decimal(rows as nat) + ")"@
}

/// The message for a window that lists itself as its child.
pub open spec fn self_owned_error(id: u32) -> Seq<char> {
    "failed to blit window "@ + decimal(id as nat) + " due to self own"@
}

/// A count as it is returned: it stops at `u32::MAX`.
pub open spec fn clamp_count(n: int) -> u32 {
    if n > u32::MAX {
        u32::MAX
    } else if n < 0 {
        0
    } else {
        n as u32
    }
}

/// A sum of two coordinates as it is computed: it stops at `usize::MAX`,
/// which lies outside every grid of a terminal.
pub open spec fn clamp_add(a: int, b: int) -> usize {
    if a + b > usize::MAX {
        usize::MAX
    } else if a + b < 0 {
        0
    } else {
        (a + b) as usize
    }
}

/// Allocates a grid of `cols` columns and `rows` rows, the same cell everywhere.
pub fn new_grid(cols: usize, rows: usize, cell: OmmaCell) -> (v: Vec<Vec<OmmaCell>>)
    ensures
        grid_of(v) == uniform_grid(cols as int, rows as int, cell),
        grid_wf(grid_of(v), cols as int, rows as int),
{
    let mut v: Vec<Vec<OmmaCell>> = Vec::new();
    let mut x: usize = 0;
    while x < cols
        invariant
            x <= cols,
            v@.len() == x,
            forall|i: int|
                0 <= i < x ==> (#[trigger] v@[i])@ == Seq::new(rows as nat, |y: int| cell),
        decreases cols - x,
    {
        let mut column: Vec<OmmaCell> = Vec::new();
        let mut y: usize = 0;
        while y < rows
            invariant
                y <= rows,
                column@.len() == y,
                forall|j: int| 0 <= j < y ==> column@[j] == cell,
            decreases rows - y,
        {
            column.push(cell);
            y += 1;
        }
        assert(column@ =~= Seq::new(rows as nat, |y: int| cell));
        v.push(column);
        x += 1;
    }
    assert(grid_of(v) =~= uniform_grid(cols as int, rows as int, cell));
    v
}

/// Whether a vector of columns holds a grid of `cols` columns and `rows` rows.
pub fn grid_has_size(v: &Vec<Vec<OmmaCell>>, cols: usize, rows: usize) -> (b: bool)
    ensures
        b == grid_wf(grid_of(*v), cols as int, rows as int),
{
    if v.len() != cols {
        return false;
    }
    let mut x: usize = 0;
    while x < cols
        invariant
            v@.len() == cols,
            x <= cols,
            forall|i: int| 0 <= i < x ==> (#[trigger] grid_of(*v)[i]).len() == rows,
        decreases cols - x,
    {
        if v[x].len() != rows {
            assert(grid_of(*v)[x as int].len() != rows);
            return false;
        }
        x += 1;
    }
    true
}

/// Whether no cell of a vector of columns is transparent.
pub fn grid_is_opaque(v: &Vec<Vec<OmmaCell>>) -> (b: bool)
    ensures
        b == grid_opaque(grid_of(*v)),
{
    let mut x: usize = 0;
    while x < v.len()
        invariant
            x <= v@.len(),
            forall|i: int, j: int|
                0 <= i < x && 0 <= j < grid_of(*v)[i].len() ==> (#[trigger] grid_of(
                    *v,
                )[i][j]).ch != EMPTY,
        decreases v.len() - x,
    {
        let mut y: usize = 0;
        while y < v[x as usize].len()
            invariant
                x < v@.len(),
                y <= v@[x as int]@.len(),
                forall|i: int, j: int|
                    0 <= i < x && 0 <= j < grid_of(*v)[i].len() ==> (#[trigger] grid_of(
                        *v,
                    )[i][j]).ch != EMPTY,
                forall|j: int| 0 <= j < y ==> (#[trigger] grid_of(*v)[x as int][j]).ch != EMPTY,
            decreases v[x as int].len() - y,
        {
            if v[x][y].ch == EMPTY {
                assert(grid_of(*v)[x as int][y as int].ch == EMPTY);
                return false;
            }
            y += 1;
        }
        x += 1;
    }
    true
}

/// One more operation at the end is one more step.
pub proof fn lemma_run_push(ops: Seq<DrawOp>, op: DrawOp, o: Outcome)
    ensures
        run(ops.push(op), o) == step(run(ops, o), op),
{
    assert(ops.push(op).drop_last() =~= ops);
}

/// A list of one operation is one step.
pub proof fn lemma_run_one(op: DrawOp, o: Outcome)
    ensures
        run(seq![op], o) == step(o, op),
{
    assert(seq![op].drop_last() =~= Seq::<DrawOp>::empty());
    assert(run(seq![op].drop_last(), o) == o);
}

/// A drawing that has failed stays as it is.
pub proof fn lemma_run_failed(ops: Seq<DrawOp>, o: Outcome)
    requires
        o.failed is Some,
    ensures
        run(ops, o) == o,
    decreases ops.len(),
{
    if ops.len() > 0 {
        lemma_run_failed(ops.drop_last(), o);
    }
}

/// Two lists one after the other are drawn one after the other.
pub proof fn lemma_run_concat(a: Seq<DrawOp>, b: Seq<DrawOp>, o: Outcome)
    ensures
        run(a + b, o) == run(b, run(a, o)),
    decreases b.len(),
{
    if b.len() == 0 {
        assert(a + b =~= a);
    } else {
        assert((a + b).drop_last() =~= a + b.drop_last());
        lemma_run_concat(a, b.drop_last(), o);
    }
}

/// The count that a drawing starts with is carried through it.
pub proof fn lemma_run_written(ops: Seq<DrawOp>, o: Outcome, k: nat)
    ensures
        run(ops, counting(o, k)) == counting(run(ops, o), k),
    decreases ops.len(),
{
    if ops.len() > 0 {
        lemma_run_written(ops.drop_last(), o, k);
    }
}

/// A drawing keeps the size of the grid, and puts no transparent cell into it.
pub proof fn lemma_run_keeps_grid(ops: Seq<DrawOp>, o: Outcome, cols: int, rows: int)
    requires
        grid_wf(o.back, cols, rows),
    ensures
        grid_wf(run(ops, o).back, cols, rows),
        grid_opaque(o.back) ==> grid_opaque(run(ops, o).back),
        o.failed is None ==> run(ops, o).written >= o.written,
        o.failed is Some ==> run(ops, o) == o,
    decreases ops.len(),
{
    if ops.len() > 0 {
        lemma_run_keeps_grid(ops.drop_last(), o, cols, rows);
        let before = run(ops.drop_last(), o);
        let after = step(before, ops.last());
        assert(grid_wf(after.back, cols, rows));
        if grid_opaque(o.back) {
            assert forall|x: int, y: int|
                0 <= x < after.back.len() && 0 <= y < after.back[x].len() implies (
            #[trigger] after.back[x][y]).ch != EMPTY by {
                assert(before.back[x][y].ch != EMPTY);
            }
        }
    }
}

/// The cell that the operations leave at column `x` and row `y`, where
/// `under` was there before and none of them fails: that of the last put
/// there which is not transparent, and `under` where there is none.
pub open spec fn top_cell(ops: Seq<DrawOp>, x: int, y: int, under: OmmaCell) -> OmmaCell
    decreases ops.len(),
{
    if ops.len() == 0 {
        under
    } else {
        match ops.last() {
            DrawOp::Put { x: px, y: py, cell, counted } => if px == x && py == y && cell.ch
                != EMPTY {
                cell
            } else {
                top_cell(ops.drop_last(), x, y, under)
            },
            DrawOp::SelfOwned { id } => top_cell(ops.drop_last(), x, y, under),
        }
    }
}

/// What is drawn later covers what was drawn before: after a drawing that
/// did not fail, every cell of the grid is that of the last put there which
/// is not transparent, and as it was where there is none.
pub proof fn lemma_last_put_shows(ops: Seq<DrawOp>, o: Outcome, x: int, y: int)
    requires
        o.failed is None,
        run(ops, o).failed is None,
        0 <= x < o.back.len(),
        0 <= y < o.back[x].len(),
    ensures
        run(ops, o).back.len() == o.back.len(),
        run(ops, o).back[x].len() == o.back[x].len(),
        run(ops, o).back[x][y] == top_cell(ops, x, y, o.back[x][y]),
    decreases ops.len(),
{
    if ops.len() > 0 {
        let before = run(ops.drop_last(), o);
        if before.failed is Some {
            lemma_run_failed(seq![ops.last()], before);
            lemma_run_one(ops.last(), before);
        }
        lemma_last_put_shows(ops.drop_last(), o, x, y);
    }
}

/// Whether every operation of the list is a put.
pub open spec fn only_puts(ops: Seq<DrawOp>) -> bool {
    forall|n: int| 0 <= n < ops.len() ==> (#[trigger] ops[n]) is Put
}

/// Lists of puts, one after the other, are a list of puts.
pub proof fn lemma_concat_only_puts(n: int, f: spec_fn(int) -> Seq<DrawOp>)
    requires
        forall|k: int| 0 <= k < n ==> only_puts(#[trigger] f(k)),
    ensures
        only_puts(concat(n, f)),
    decreases n,
{
    if n > 0 {
        lemma_concat_only_puts(n - 1, f);
        assert(only_puts(f(n - 1)));
    }
}

/// A drawing of puts fails only at a put.
pub proof fn lemma_only_puts_fail(ops: Seq<DrawOp>, o: Outcome)
    requires
        only_puts(ops),
        o.failed is None,
    ensures
        run(ops, o).failed matches Some(op) ==> op is Put,
    decreases ops.len(),
{
    if ops.len() > 0 {
        assert(ops.last() is Put);
        assert(only_puts(ops.drop_last()));
        lemma_only_puts_fail(ops.drop_last(), o);
    }
}

/// Once a drawing has failed within the first `n` parts of `concat`, the
/// parts that follow change nothing.
pub proof fn lemma_concat_failed(
    pre: Seq<DrawOp>,
    n: int,
    m: int,
    f: spec_fn(int) -> Seq<DrawOp>,
    o: Outcome,
)
    requires
        0 <= n <= m,
        run(pre + concat(n, f), o).failed is Some,
    ensures
        run(pre + concat(m, f), o) == run(pre + concat(n, f), o),
    decreases m - n,
{
    if n < m {
        lemma_concat_failed(pre, n, m - 1, f, o);
        assert(concat(m, f) == concat(m - 1, f) + f(m - 1));
        assert(pre + concat(m, f) =~= (pre + concat(m - 1, f)) + f(m - 1));
        lemma_run_concat(pre + concat(m - 1, f), f(m - 1), o);
        lemma_run_failed(f(m - 1), run(pre + concat(n, f), o));
    }
}

} // verus!
