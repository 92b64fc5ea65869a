//! The terminal: a back buffer that windows are composited into, the escape
//! sequences that show it, and the keys that were typed.
//!
//! The terminal touches no device. What it wants written is queued and taken
//! with [`OmmaTerm::take_output`]; what was read from the keyboard is handed
//! in with [`OmmaTerm::push_key`].
use vstd::prelude::*;
use vstd::string::*;

use crate::cell::{bg_code, fg_code, glyph, OmmaCell, EMPTY};
use crate::draw::{
    begin, clamp_count, concat, grid_has_size, grid_is_opaque, grid_of, grid_opaque, grid_set,
    grid_wf, in_grid,
    lemma_concat_failed, lemma_run_concat, lemma_run_failed, lemma_run_push, lemma_run_written,
    new_grid, op_error, put, put_as, put_error, run, self_owned, self_owned_error, step,
    counting, uniform_grid, DrawOp, Grid,
};
use crate::error::OmmaErr;
use crate::text::{decimal, push_decimal, push_signed_decimal, signed_decimal};

verus! {

/// What asking the operating system for the size of the terminal gave.
#[derive(Clone, Copy, PartialEq, Eq, Structural, Debug)]
pub enum Probe {
    /// The platform has no such question.
    Unsupported,
    /// Standard output is no terminal.
    NotATerminal,
    /// The question failed with the given code.
    Failed { ret: i32 },
    /// The answer.
    Size { rows: u16, cols: u16 },
}

/// Whether a probe gave a size that a terminal can have.
pub open spec fn probe_ok(probe: Probe) -> bool {
    probe matches Probe::Size { rows, cols } && rows != 0 && cols != 0
}

/// The message for a probe that gave no usable size.
pub open spec fn probe_error(probe: Probe) -> Seq<char> {
    match probe {
        Probe::Unsupported => "terminfo is only compatible with *nix currently"@,
        Probe::NotATerminal => "failed to open stdio, invalid terminal"@,
        Probe::Failed { ret } => "ioctl(TIOCGWINSZ) failed with "@ + signed_decimal(ret as int),
        Probe::Size { rows, cols } => "zero dimension in terminal "@ + decimal(rows as nat)
            + " by "@ + decimal(cols as nat),
    }
}

/// The rows and columns of the terminal, from what the probe gave. A size
/// with a zero in it is refused like a probe that failed.
pub fn terminfo(probe: Probe) -> (res: Result<(u16, u16), OmmaErr>)
    ensures
        match res {
            Ok(size) => probe_ok(probe) && probe == (Probe::Size { rows: size.0, cols: size.1 }),
            Err(e) => !probe_ok(probe) && e@ == probe_error(probe),
        },
{
    match probe {
        Probe::Unsupported => Err(
            OmmaErr::new("terminfo is only compatible with *nix currently"),
        ),
        Probe::NotATerminal => Err(OmmaErr::new("failed to open stdio, invalid terminal")),
        Probe::Failed { ret } => {
            let mut body = String::from_str("ioctl(TIOCGWINSZ) failed with ");
            push_signed_decimal(&mut body, ret);
            Err(OmmaErr::from_string(body))
        },
        Probe::Size { rows, cols } => {
            if rows == 0 || cols == 0 {
                let mut body = String::from_str("zero dimension in terminal ");
                push_decimal(&mut body, rows as u64);
                body.append(" by ");
                push_decimal(&mut body, cols as u64);
                Err(OmmaErr::from_string(body))
            } else {
                Ok((rows, cols))
            }
        },
    }
}

/// The sequence that switches to the alternate screen.
pub open spec fn enter_alt_screen() -> Seq<char> {
    "\x1b[?1049h"@
}

/// The sequence that leaves the alternate screen.
pub open spec fn leave_alt_screen() -> Seq<char> {
    "\x1b[?1049l"@
}

/// The sequence that hides the cursor.
pub open spec fn hide_cursor() -> Seq<char> {
    "\x1b[?25l"@
}

/// The sequence that shows the cursor.
pub open spec fn show_cursor() -> Seq<char> {
    "\x1b[?25h"@
}

/// The sequence that moves the cursor. The terminal counts from one.
pub open spec fn cursor_code(col: u16, row: u16) -> Seq<char> {
    "\x1b["@ + decimal((row + 1) as nat) + ";"@ + decimal((col + 1) as nat) + "H"@
}

/// What shows one cell at its place: the cursor move, the two colours, the
/// character.
pub open spec fn cell_text(col: u16, row: u16, cell: OmmaCell) -> Seq<char> {
    (cursor_code(col, row) + fg_code(cell.fg) + bg_code(cell.bg)).push(cell.ch)
}

/// What shows the first `rows` cells of column `x`, from the top.
pub open spec fn column_text(back: Grid, x: int, rows: int) -> Seq<char>
    decreases rows,
{
    if rows <= 0 {
        Seq::empty()
    } else {
        column_text(back, x, rows - 1) + cell_text(x as u16, (rows - 1) as u16, back[x][rows - 1])
    }
}

/// What shows the first `cols` columns of a grid of `rows` rows, from the left.
pub open spec fn frame_text(back: Grid, cols: int, rows: int) -> Seq<char>
    decreases cols,
{
    if cols <= 0 {
        Seq::empty()
    } else {
        frame_text(back, cols - 1, rows) + column_text(back, cols - 1, rows)
    }
}

/// The message for a cursor move outside the terminal.
pub open spec fn cursor_error(col: u16, row: u16, max_col: u16, max_row: u16) -> Seq<char> {
    "invalid cursor move "@ + decimal(row as nat) + ":"@ + decimal(col as nat) + " (max "@
        + decimal(last_index(max_row) as nat) + ":"@ + decimal(last_index(max_col) as nat) + ")"@
}

/// The largest index below `n`, and zero where there is none.
pub open spec fn last_index(n: u16) -> u16 {
    if n == 0 {
        0
    } else {
        (n - 1) as u16
    }
}

/// A terminal as a value.
pub struct TermView {
    /// Where the cursor was moved to last.
    pub row: u16,
    pub col: u16,
    /// The number of rows and of columns.
    pub max_row: u16,
    pub max_col: u16,
    /// Whether the terminal stands for a real one, which was switched to the
    /// alternate screen and has to be switched back.
    pub raw: bool,
    /// A second buffer, kept and never read.
    pub front: Grid,
    /// The buffer that is drawn into and shown.
    pub back: Grid,
    /// What is to be written to the terminal and was not taken yet.
    pub out: Seq<char>,
    /// The keys that were typed and not read yet, oldest first.
    pub keys: Seq<u8>,
}

impl TermView {
    /// Both buffers have the terminal's size, and no cell of the back buffer
    /// is transparent.
    pub open spec fn wf(self) -> bool {
        &&& grid_wf(self.front, self.max_col as int, self.max_row as int)
        &&& grid_wf(self.back, self.max_col as int, self.max_row as int)
        &&& grid_opaque(self.back)
    }

    /// The terminal after every cell of the back buffer was shown.
    pub open spec fn rendered(self) -> TermView {
        TermView {
            row: if self.max_col > 0 && self.max_row > 0 {
                (self.max_row - 1) as u16
            } else {
                self.row
            },
            col: if self.max_col > 0 && self.max_row > 0 {
                (self.max_col - 1) as u16
            } else {
                self.col
            },
            out: self.out + frame_text(self.back, self.max_col as int, self.max_row as int),
            ..self
        }
    }
}

/// Whether going from `before` to `after` with the result `res` is the drawing
/// of `ops`: the back buffer is what the operations made of it, up to the
/// first that failed, and nothing else of the terminal has changed. Without
/// a failure the result is the count of the cells written, which stops at
/// `u32::MAX`. With one it is the error of the operation that failed.
pub open spec fn painted(
    before: TermView,
    after: TermView,
    res: Result<u32, OmmaErr>,
    ops: Seq<DrawOp>,
) -> bool {
    let o = run(ops, begin(before.back));
    &&& after == (TermView { back: o.back, ..before })
    &&& after.wf()
    &&& match res {
        Ok(n) => o.failed is None && n == clamp_count(o.written as int),
        Err(e) => o.failed matches Some(op) && e@ == op_error(
            op,
            before.max_col as int,
            before.max_row as int,
        ),
    }
}

/// A terminal of the given size on which nothing was drawn.
pub open spec fn blank_term(max_row: u16, max_col: u16, raw: bool, out: Seq<char>) -> TermView {
    TermView {
        row: 0,
        col: 0,
        max_row,
        max_col,
        raw,
        front: uniform_grid(max_col as int, max_row as int, glyph(' ')),
        back: uniform_grid(max_col as int, max_row as int, glyph(' ')),
        out,
        keys: Seq::empty(),
    }
}

/// The terminal.
pub struct OmmaTerm {
    row: u16,
    col: u16,
    max_row: u16,
    max_col: u16,
    raw: bool,
    front: Vec<Vec<OmmaCell>>,
    back: Vec<Vec<OmmaCell>>,
    out: String,
    keys: Vec<u8>,
}

impl View for OmmaTerm {
    type V = TermView;

    closed spec fn view(&self) -> TermView {
        TermView {
            row: self.row,
            col: self.col,
            max_row: self.max_row,
            max_col: self.max_col,
            raw: self.raw,
            front: grid_of(self.front),
            back: grid_of(self.back),
            out: self.out@,
            keys: self.keys@,
        }
    }
}

impl OmmaTerm {
    /// The terminal for a real screen of the probed size. It starts by
    /// queueing the switch to the alternate screen and the hiding of the
    /// cursor. Fails where the probe gave no usable size.
    pub fn new(probe: Probe) -> (res: Result<OmmaTerm, OmmaErr>)
        ensures
            match res {
                Ok(term) => probe matches Probe::Size { rows, cols } && rows != 0 && cols != 0
                    && term@ == blank_term(rows, cols, true, enter_alt_screen() + hide_cursor())
                    && term@.wf(),
                Err(e) => !probe_ok(probe) && e@ == probe_error(probe),
            },
    {
        let (max_row, max_col) = match terminfo(probe) {
            Ok(size) => size,
            Err(e) => {
                return Err(e);
            },
        };
        let front = new_grid(max_col as usize, max_row as usize, OmmaCell::default());
        let back = new_grid(max_col as usize, max_row as usize, OmmaCell::default());
        let mut out = String::from_str("\x1b[?1049h");
        out.append("\x1b[?25l");
        let term = OmmaTerm {
            row: 0,
            col: 0,
            max_row,
            max_col,
            raw: true,
            front,
            back,
            out,
            keys: Vec::new(),
        };
        proof {
            lemma_blank_term_wf(max_row, max_col, true, enter_alt_screen() + hide_cursor());
        }
        Ok(term)
    }

    /// A terminal of the given size that stands for no real screen. Nothing
    /// is queued. It never fails.
    pub fn new_mock(max_row: u16, max_col: u16) -> (res: Result<OmmaTerm, OmmaErr>)
        ensures
            res matches Ok(term) && term@ == blank_term(max_row, max_col, false, Seq::empty())
                && term@.wf(),
    {
        let front = new_grid(max_col as usize, max_row as usize, OmmaCell::default());
        let back = new_grid(max_col as usize, max_row as usize, OmmaCell::default());
        let term = OmmaTerm {
            row: 0,
            col: 0,
            max_row,
            max_col,
            raw: false,
            front,
            back,
            out: String::new(),
            keys: Vec::new(),
        };
        proof {
            lemma_blank_term_wf(max_row, max_col, false, Seq::empty());
        }
        Ok(term)
    }

    /// Whether the terminal is well formed. Every terminal that this
    /// library has made and changed is.
    pub fn is_wf(&self) -> (b: bool)
        ensures
            b == self@.wf(),
    {
        grid_has_size(&self.front, self.max_col as usize, self.max_row as usize) && grid_has_size(
            &self.back,
            self.max_col as usize,
            self.max_row as usize,
        ) && grid_is_opaque(&self.back)
    }

    /// The number of rows.
    pub fn max_row(&self) -> (n: u16)
        ensures
            n == self@.max_row,
    {
        self.max_row
    }

    /// The number of columns.
    pub fn max_col(&self) -> (n: u16)
        ensures
            n == self@.max_col,
    {
        self.max_col
    }

    /// The cell of the back buffer at column `x` and row `y`, if there is one.
    pub fn cell_at(&self, x: usize, y: usize) -> (c: Option<OmmaCell>)
        requires
            self@.wf(),
        ensures
            c == (if x < self@.max_col && y < self@.max_row {
                Some(self@.back[x as int][y as int])
            } else {
                None
            }),
    {
        if x < self.max_col as usize && y < self.max_row as usize {
            assert(self@.back[x as int].len() == self.max_row);
            Some(self.back[x][y])
        } else {
            None
        }
    }

    /// The size as text: rows, the word `by`, columns.
    pub fn to_string(&self) -> (s: String)
        ensures
            s@ == decimal(self@.max_row as nat) + " by "@ + decimal(self@.max_col as nat),
    {
        let mut s = String::new();
        push_decimal(&mut s, self.max_row as u64);
        s.append(" by ");
        push_decimal(&mut s, self.max_col as u64);
        assert(Seq::<char>::empty() + decimal(self@.max_row as nat) =~= decimal(
            self@.max_row as nat,
        ));
        s
    }

    /// Moves the cursor to column `col` and row `row` and queues the sequence
    /// that does so. Fails, changing nothing, where that lies outside the
    /// terminal.
    pub fn move_cursor(&mut self, col: u16, row: u16) -> (res: Result<(), OmmaErr>)
        ensures
            match res {
                Ok(_) => row < old(self)@.max_row && col < old(self)@.max_col && final(self)@ == (
                TermView { row, col, out: old(self)@.out + cursor_code(col, row), ..old(self)@ }),
                Err(e) => (row >= old(self)@.max_row || col >= old(self)@.max_col) && final(self)@
                    == old(self)@ && e@ == cursor_error(
                    col,
                    row,
                    old(self)@.max_col,
                    old(self)@.max_row,
                ),
            },
    {
        if row >= self.max_row || col >= self.max_col {
            let mut body = String::from_str("invalid cursor move ");
            push_decimal(&mut body, row as u64);
            body.append(":");
            push_decimal(&mut body, col as u64);
            body.append(" (max ");
            push_decimal(&mut body, self.max_row.saturating_sub(1) as u64);
            body.append(":");
            push_decimal(&mut body, self.max_col.saturating_sub(1) as u64);
            body.append(")");
            return Err(OmmaErr::from_string(body));
        }
        self.row = row;
        self.col = col;
        self.out.append("\x1b[");
        push_decimal(&mut self.out, (row + 1) as u64);
        self.out.append(";");
        push_decimal(&mut self.out, (col + 1) as u64);
        self.out.append("H");
        proof {
            let code = cursor_code(col, row);
            assert(self@.out =~= old(self)@.out + code);
        }
        Ok(())
    }

    /// Replaces one cell of the back buffer.
    fn store(&mut self, x: usize, y: usize, cell: OmmaCell)
        requires
            old(self)@.wf(),
            x < old(self)@.max_col,
            y < old(self)@.max_row,
            cell.ch != EMPTY,
        ensures
            final(self)@ == (TermView {
                back: grid_set(old(self)@.back, x as int, y as int, cell),
                ..old(self)@
            }),
            final(self)@.wf(),
    {
        assert(self@.back[x as int].len() == self.max_row);
        self.back[x][y] = cell;
        proof {
            let before = old(self)@.back;
            let after = grid_set(before, x as int, y as int, cell);
            assert(grid_of(self.back) =~= after);
            assert forall|i: int, j: int| 0 <= i < after.len() && 0 <= j < after[i].len() implies (
            #[trigger] after[i][j]).ch != EMPTY by {
                assert(before[i][j].ch != EMPTY);
            }
        }
    }

    /// Writes a cell into the back buffer at column `x` and row `y`, as one
    /// step of a drawing does. Outside the terminal it fails and changes
    /// nothing; a transparent cell inside it changes nothing and counts 0;
    /// any other cell replaces the one that was there and counts 1.
    pub fn put_cell_at(&mut self, x: usize, y: usize, cell: &OmmaCell) -> (res: Result<
        u32,
        OmmaErr,
    >)
        requires
            old(self)@.wf(),
        ensures
            final(self)@.wf(),
            final(self)@ == (TermView {
                back: step(begin(old(self)@.back), put(x, y, *cell)).back,
                ..old(self)@
            }),
            match res {
                Ok(n) => in_grid(old(self)@.back, x, y) && n == (if cell.ch == EMPTY {
                    0u32
                } else {
                    1u32
                }),
                Err(e) => !in_grid(old(self)@.back, x, y) && e@ == put_error(
                    x,
                    y,
                    old(self)@.max_col as int,
                    old(self)@.max_row as int,
                ),
            },
    {
        if x >= self.max_col as usize || y >= self.max_row as usize {
            let mut body = String::from_str("invalid put cell at ");
            push_decimal(&mut body, x as u64);
            body.append(":");
            push_decimal(&mut body, y as u64);
            body.append(" (max ");
            push_decimal(&mut body, self.max_col as u64);
            body.append(":");
            push_decimal(&mut body, self.max_row as u64);
            body.append(")");
            return Err(OmmaErr::from_string(body));
        }
        assert(self@.back[x as int].len() == self.max_row);
        if cell.ch == EMPTY {
            Ok(0)
        } else {
            self.store(x, y, *cell);
            Ok(1)
        }
    }

    /// Queues what shows `cell` at column `x` and row `y`. The back buffer
    /// stays as it is. Fails, changing nothing, outside the terminal.
    pub fn render_cell_at(&mut self, x: u16, y: u16, cell: &OmmaCell) -> (res: Result<
        (),
        OmmaErr,
    >)
        ensures
            match res {
                Ok(_) => y < old(self)@.max_row && x < old(self)@.max_col && final(self)@ == (
                TermView { row: y, col: x, out: old(self)@.out + cell_text(x, y, *cell), ..old(
                    self,
                )@ }),
                Err(e) => (y >= old(self)@.max_row || x >= old(self)@.max_col) && final(self)@
                    == old(self)@ && e@ == cursor_error(
                    x,
                    y,
                    old(self)@.max_col,
                    old(self)@.max_row,
                ),
            },
    {
        match self.move_cursor(x, y) {
            Ok(_) => {},
            Err(e) => {
                return Err(e);
            },
        }
        let fg = cell.fgcode();
        let bg = cell.bgcode();
        self.out.append(fg.as_str());
        self.out.append(bg.as_str());
        self.out.push(cell.ch);
        proof {
            assert(self@.out =~= old(self)@.out + cell_text(x, y, *cell));
        }
        Ok(())
    }

    /// Queues what shows the whole back buffer, column by column and each
    /// column from the top: every cell, whether it changed or not. Returns
    /// the number of cells. It never fails.
    pub fn render(&mut self) -> (res: Result<u32, OmmaErr>)
        requires
            old(self)@.wf(),
        ensures
            final(self)@ == old(self)@.rendered(),
            res matches Ok(n) && n == old(self)@.max_col * old(self)@.max_row,
    {
        let mut written: u32 = 0;
        let mut x: u16 = 0;
        let ghost start = self@;
        while x < self.max_col
            invariant
                start == old(self)@,
                start.wf(),
                x <= start.max_col,
                written == x * start.max_row,
                self@ == (TermView {
                    row: if x > 0 && start.max_row > 0 {
                        (start.max_row - 1) as u16
                    } else {
                        start.row
                    },
                    col: if x > 0 && start.max_row > 0 {
                        (x - 1) as u16
                    } else {
                        start.col
                    },
                    out: start.out + frame_text(start.back, x as int, start.max_row as int),
                    ..start
                }),
            decreases start.max_col - x,
        {
            let mut y: u16 = 0;
            let ghost column_start = self@;
            while y < self.max_row
                invariant
                    start.wf(),
                    x < start.max_col,
                    y <= start.max_row,
                    written == x * start.max_row + y,
                    self@ == (TermView {
                        row: if y > 0 {
                            (y - 1) as u16
                        } else {
                            column_start.row
                        },
                        col: if y > 0 {
                            x
                        } else {
                            column_start.col
                        },
                        out: column_start.out + column_text(start.back, x as int, y as int),
                        ..start
                    }),
                decreases start.max_row - y,
            {
                assert(self@.back[x as int].len() == self.max_row);
                let cell = self.back[x as usize][y as usize];
                assert(x * start.max_row + y < 65535 * 65535 + 65535) by (nonlinear_arith)
                    requires
                        x < 65535,
                        y < start.max_row,
                        start.max_row <= 65535,
                ;
                written = written + 1;
                let ghost before = self@;
                match self.render_cell_at(x, y, &cell) {
                    Ok(_) => {},
                    Err(e) => {
                        return Err(e);
                    },
                }
                proof {
                    assert(self@.out =~= column_start.out + column_text(
                        start.back,
                        x as int,
                        y + 1,
                    ));
                }
                y += 1;
            }
            proof {
                assert((x + 1) * start.max_row == x * start.max_row + start.max_row)
                    by (nonlinear_arith);
                assert(self@.out =~= start.out + frame_text(
                    start.back,
                    x + 1,
                    start.max_row as int,
                ));
            }
            x += 1;
        }
        Ok(written)
    }

    /// Hands in a key that was typed.
    pub fn push_key(&mut self, key: u8)
        ensures
            final(self)@ == (TermView { keys: old(self)@.keys.push(key), ..old(self)@ }),
    {
        self.keys.push(key);
    }

    /// The oldest key that was typed and not read yet, as a character, or
    /// nothing where no key waits. It never fails.
    pub fn read_key(&mut self) -> (res: Result<Option<char>, OmmaErr>)
        ensures
            res matches Ok(key) && (if old(self)@.keys.len() == 0 {
                key == None::<char> && final(self)@ == old(self)@
            } else {
                key == Some(old(self)@.keys[0] as char) && final(self)@ == (TermView {
                    keys: old(self)@.keys.drop_first(),
                    ..old(self)@
                })
            }),
    {
        if self.keys.len() == 0 {
            Ok(None)
        } else {
            let key = self.keys.remove(0);
            proof {
                assert(self@.keys =~= old(self)@.keys.drop_first());
            }
            Ok(Some(key as char))
        }
    }

    /// Takes what was queued for the terminal, in the order it was queued.
    pub fn take_output(&mut self) -> (text: String)
        ensures
            text@ == old(self)@.out,
            final(self)@ == (TermView { out: Seq::empty(), ..old(self)@ }),
    {
        let mut text = String::new();
        core::mem::swap(&mut self.out, &mut text);
        text
    }

    /// Ends the terminal. Returns what is still to be written: what was
    /// queued, then the showing of the cursor, then, for a real screen, the
    /// switch back from the alternate screen.
    pub fn close(self) -> (text: String)
        ensures
            text@ == self@.out + show_cursor() + (if self@.raw {
                leave_alt_screen()
            } else {
                Seq::empty()
            }),
    {
        let mut text = self.out;
        text.append("\x1b[?25h");
        if self.raw {
            text.append("\x1b[?1049l");
        } else {
            assert(text@ + Seq::<char>::empty() =~= text@);
        }
        text
    }
}

/// A terminal on which nothing was drawn is well formed.
pub proof fn lemma_blank_term_wf(max_row: u16, max_col: u16, raw: bool, out: Seq<char>)
    ensures
        blank_term(max_row, max_col, raw, out).wf(),
{
}

/// Whether a drawing that started on `before` stands, after the operations
/// `done`, none of which failed, on `now` with the count `written`.
pub open spec fn drawing(before: TermView, now: TermView, done: Seq<DrawOp>, written: u32) -> bool {
    painted(before, now, Ok(written), done)
}

/// A count and a further count, as they are added: the sum stops at `u32::MAX`.
pub open spec fn count_add(a: u32, b: u32) -> u32 {
    clamp_count(a + b)
}

/// A drawing starts with no operation and no cell written.
pub proof fn lemma_drawing_begins(before: TermView)
    requires
        before.wf(),
    ensures
        drawing(before, before, Seq::empty(), 0),
{
}

/// A put inside the terminal carries a drawing on.
pub proof fn lemma_put_done(
    before: TermView,
    now: TermView,
    next: TermView,
    done: Seq<DrawOp>,
    written: u32,
    x: usize,
    y: usize,
    cell: OmmaCell,
    counted: bool,
)
    requires
        drawing(before, now, done, written),
        in_grid(now.back, x, y),
        next == (TermView {
            back: step(begin(now.back), put(x, y, cell)).back,
            ..now
        }),
        next.wf(),
    ensures
        drawing(
            before,
            next,
            done.push(put_as(x, y, cell, counted)),
            if counted && cell.ch != EMPTY {
                count_add(written, 1)
            } else {
                written
            },
        ),
{
    lemma_run_push(done, put_as(x, y, cell, counted), begin(before.back));
}

/// A put outside the terminal ends a drawing with its error.
pub proof fn lemma_put_failed(
    before: TermView,
    now: TermView,
    done: Seq<DrawOp>,
    written: u32,
    x: usize,
    y: usize,
    cell: OmmaCell,
    counted: bool,
    e: OmmaErr,
)
    requires
        drawing(before, now, done, written),
        !in_grid(now.back, x, y),
        e@ == put_error(x, y, before.max_col as int, before.max_row as int),
    ensures
        painted(before, now, Err(e), done.push(put_as(x, y, cell, counted))),
{
    lemma_run_push(done, put_as(x, y, cell, counted), begin(before.back));
}

/// A window that lists itself ends a drawing with its error.
pub proof fn lemma_self_owned_failed(
    before: TermView,
    now: TermView,
    done: Seq<DrawOp>,
    written: u32,
    id: u32,
    e: OmmaErr,
)
    requires
        drawing(before, now, done, written),
        e@ == self_owned_error(id),
    ensures
        painted(before, now, Err(e), done.push(self_owned(id))),
{
    lemma_run_push(done, self_owned(id), begin(before.back));
}

/// A drawing followed by the drawing of further operations is the drawing
/// of both lists, with the counts added, or ends with the error of the
/// second.
pub proof fn lemma_drawing_then(
    before: TermView,
    now: TermView,
    next: TermView,
    done: Seq<DrawOp>,
    written: u32,
    res: Result<u32, OmmaErr>,
    ops: Seq<DrawOp>,
)
    requires
        drawing(before, now, done, written),
        painted(now, next, res, ops),
    ensures
        match res {
            Ok(n) => drawing(before, next, done + ops, count_add(written, n)),
            Err(e) => painted(before, next, Err(e), done + ops),
        },
{
    let o = run(done, begin(before.back));
    lemma_run_concat(done, ops, begin(before.back));
    lemma_run_written(ops, begin(now.back), o.written);
    assert(o == counting(begin(now.back), o.written));
}

/// Once a drawing has ended with an error, operations behind it change
/// nothing.
pub proof fn lemma_failed_extends(
    before: TermView,
    now: TermView,
    e: OmmaErr,
    ops: Seq<DrawOp>,
    rest: Seq<DrawOp>,
)
    requires
        painted(before, now, Err(e), ops),
    ensures
        painted(before, now, Err(e), ops + rest),
{
    lemma_run_concat(ops, rest, begin(before.back));
    lemma_run_failed(rest, run(ops, begin(before.back)));
}

/// Once a drawing has ended with an error within the first `n` parts of a
/// `concat`, the parts up to `m` change nothing.
pub proof fn lemma_failed_in_concat(
    before: TermView,
    now: TermView,
    e: OmmaErr,
    pre: Seq<DrawOp>,
    n: int,
    m: int,
    f: spec_fn(int) -> Seq<DrawOp>,
)
    requires
        0 <= n <= m,
        painted(before, now, Err(e), pre + concat(n, f)),
    ensures
        painted(before, now, Err(e), pre + concat(m, f)),
{
    lemma_concat_failed(pre, n, m, f, begin(before.back));
}

} // verus!
