//! The window: one buffer, a viewport, and a grapheme-aware cursor.
//!
//! The cursor column is measured in display-width units.  The window's
//! invariant keeps the cursor on a valid line and, after every operation, on
//! a column a mode may use: a cluster's starting column, the end of the line,
//! or at least strictly inside the line (the viewport clamp of a rightward
//! move may leave it mid-cluster; the next movement snaps it back).

use crate::buffer::{
    buf_wf, join_lines_spec, lemma_total_parts, total_len, BufView, Buffer,
};
use crate::error::Error;
use crate::movement::Movement;
use crate::unicode::{
    at_cluster_start, cover_idx, covers, goff, gstart, grapheme_split, gs_fact, lemma_cover_exists,
    lemma_gs_totals, lemma_gstart_mono, lemma_start_cover, lemma_width_concat, valid_insert_col,
    valid_normal_col, width, width_char, width_of,
};
use crate::{MAX_LINES, MAX_TEXT};
use vstd::prelude::*;

verus! {

/// The mathematical value of a [`Window`].
pub ghost struct WinView {
    pub buf: BufView,
    pub scroll_pos: nat,
    pub cur_y: nat,
    pub cur_x: nat,
    pub height: nat,
    pub width: nat,
}

/// The line the cursor stands on.
pub open spec fn cur_line(w: WinView) -> Seq<char> {
    w.buf.lines[w.scroll_pos + w.cur_y as int]
}

/// A cursor column the window tolerates on a line: one Insert mode permits,
/// or at least strictly inside the line (a rightward move clamped at the
/// viewport edge can land mid-cluster).
pub open spec fn cursor_ok(l: Seq<char>, x: int) -> bool {
    valid_insert_col(l, x) || x < width_of(l)
}

/// Snapping a column to the start of the cluster it falls in; columns at or
/// past the line's width are left alone.
pub open spec fn snap_col(l: Seq<char>, x: nat) -> nat {
    if x < width_of(l) {
        gstart(grapheme_split(l), cover_idx(l, x as int))
    } else {
        x
    }
}

/// The column after pulling a cursor that sits at or past the line's width
/// back onto the line: the start of the cluster painting the last column,
/// or 0 on a line without columns.
pub open spec fn over_line_col(l: Seq<char>, x: nat) -> nat {
    if x >= width_of(l) {
        if width_of(l) > 0 {
            gstart(grapheme_split(l), cover_idx(l, width_of(l) - 1))
        } else {
            0
        }
    } else {
        x
    }
}

/// Both cursor corrections, as applied after a vertical move.
pub open spec fn fixed_col(l: Seq<char>, x: nat) -> nat {
    snap_col(l, over_line_col(l, x))
}

/// The character offset at which an edit at display column `x` splices the
/// line: the covered cluster's start offset, or the line's end when the
/// column is at or past the line's width.
pub open spec fn col_offset(l: Seq<char>, x: nat) -> nat {
    if x < width_of(l) {
        goff(grapheme_split(l), cover_idx(l, x as int))
    } else {
        l.len()
    }
}

/// The column after a leftward move: one column left, snapped to the
/// enclosing cluster's start.
pub open spec fn spec_left(l: Seq<char>, x: nat) -> nat {
    snap_col(l, if x > 0 { (x - 1) as nat } else { 0 })
}

/// The column after a rightward move: advance by the covered cluster's
/// width, but only while staying strictly inside the line; then clamp to the
/// viewport's last column.
pub open spec fn spec_right(l: Seq<char>, x: nat, vw: nat) -> nat {
    if x < width_of(l) {
        let w = width_of(grapheme_split(l)[cover_idx(l, x as int)]);
        if x + w < width_of(l) {
            if x + w >= vw {
                (vw - 1) as nat
            } else {
                (x + w) as nat
            }
        } else {
            x
        }
    } else {
        x
    }
}

/// The viewport position after an upward step: the cursor row moves up, or
/// the viewport scrolls when the cursor is already at the top.
pub open spec fn up_step(w: WinView) -> WinView {
    if w.cur_y > 0 {
        WinView { cur_y: (w.cur_y - 1) as nat, ..w }
    } else if w.scroll_pos > 0 {
        WinView { scroll_pos: (w.scroll_pos - 1) as nat, ..w }
    } else {
        w
    }
}

/// The viewport position after a downward step: the cursor row moves down;
/// at the viewport's bottom it stays there and the viewport scrolls while
/// lines remain below; the cursor never leaves the last buffer line.
pub open spec fn down_step(w: WinView) -> WinView {
    let len = w.buf.lines.len();
    let cy1 = w.cur_y + 1;
    let w2 = if cy1 >= w.height {
        let cy2 = (w.height - 1) as nat;
        if cy2 + w.scroll_pos < len - 1 {
            WinView { cur_y: cy2, scroll_pos: w.scroll_pos + 1, ..w }
        } else {
            WinView { cur_y: cy2, ..w }
        }
    } else {
        WinView { cur_y: cy1, ..w }
    };
    if w2.cur_y + w2.scroll_pos >= len {
        WinView { cur_y: (len - 1 - w2.scroll_pos) as nat, ..w2 }
    } else {
        w2
    }
}

/// The whole window after one cursor movement.
pub open spec fn spec_move(w: WinView, m: Movement) -> WinView {
    match m {
        Movement::Left => WinView { cur_x: spec_left(cur_line(w), w.cur_x), ..w },
        Movement::Right => WinView { cur_x: spec_right(cur_line(w), w.cur_x, w.width), ..w },
        Movement::Up => {
            let w2 = up_step(w);
            WinView { cur_x: fixed_col(cur_line(w2), w2.cur_x), ..w2 }
        },
        Movement::Down => {
            let w2 = down_step(w);
            WinView { cur_x: fixed_col(cur_line(w2), w2.cur_x), ..w2 }
        },
    }
}

/// The window after `advance_cursor`.
pub open spec fn spec_advance(w: WinView) -> WinView {
    if width_of(cur_line(w)) > 0 && w.cur_x < width_of(cur_line(w)) {
        WinView { cur_x: (w.cur_x + 1) as nat, ..w }
    } else {
        w
    }
}

/// The window after `add_line_below`.
pub open spec fn spec_add_line_below(w: WinView) -> WinView {
    WinView {
        buf: BufView {
            filename: w.buf.filename,
            lines: w.buf.lines.insert(w.scroll_pos + w.cur_y + 1int, Seq::<char>::empty()),
        },
        ..w
    }
}

/// The window after `add_line_above`.
pub open spec fn spec_add_line_above(w: WinView) -> WinView {
    WinView {
        buf: BufView {
            filename: w.buf.filename,
            lines: w.buf.lines.insert(w.scroll_pos + w.cur_y as int, Seq::<char>::empty()),
        },
        ..w
    }
}

/// The window after `break_line`.
pub open spec fn spec_break_line(w: WinView) -> WinView {
    let abs = w.scroll_pos + w.cur_y as int;
    let l = cur_line(w);
    let off = col_offset(l, w.cur_x);
    WinView {
        buf: BufView {
            filename: w.buf.filename,
            lines: w.buf.lines.update(abs, l.take(off as int)).insert(abs + 1, l.skip(off as int)),
        },
        cur_y: w.cur_y + 1,
        cur_x: 0,
        ..w
    }
}

/// The window after `add_char`.
pub open spec fn spec_add_char(w: WinView, c: char) -> WinView {
    let abs = w.scroll_pos + w.cur_y as int;
    let l = cur_line(w);
    let off = col_offset(l, w.cur_x);
    WinView {
        buf: BufView {
            filename: w.buf.filename,
            lines: w.buf.lines.update(abs, l.take(off as int) + seq![c] + l.skip(off as int)),
        },
        cur_x: (w.cur_x + crate::unicode::char_width(c)) as nat,
        ..w
    }
}

/// The window after `delete_char`.
pub open spec fn spec_delete_char(w: WinView) -> WinView {
    let abs = w.scroll_pos + w.cur_y as int;
    let l = cur_line(w);
    if w.cur_x == 0 {
        if abs == 0 {
            w
        } else {
            let prev = w.buf.lines[abs - 1];
            WinView {
                buf: BufView {
                    filename: w.buf.filename,
                    lines: w.buf.lines.update(abs - 1, prev + l).remove(abs),
                },
                cur_y: if w.cur_y > 0 { (w.cur_y - 1) as nat } else { w.cur_y },
                scroll_pos: if w.cur_y > 0 { w.scroll_pos } else { (w.scroll_pos - 1) as nat },
                cur_x: width_of(prev),
                ..w
            }
        }
    } else {
        if w.cur_x - 1 < width_of(l) {
            let gs = grapheme_split(l);
            let k = cover_idx(l, w.cur_x - 1);
            let gw = width_of(gs[k]);
            WinView {
                buf: BufView {
                    filename: w.buf.filename,
                    lines: w.buf.lines.update(
                        abs,
                        l.take(goff(gs, k) as int) + l.skip(goff(gs, k) + gs[k].len() as int),
                    ),
                },
                cur_x: if gw <= w.cur_x { (w.cur_x - gw) as nat } else { 0 },
                ..w
            }
        } else {
            w
        }
    }
}

/// Column 0 is always a tolerable cursor column.
pub proof fn lemma_zero_ok(l: Seq<char>)
    ensures
        cursor_ok(l, 0),
{
    if width_of(l) == 0 {
        assert(valid_insert_col(l, 0));
    }
}

/// Under the segmentation facts, a tolerated cursor column never exceeds the
/// line's width.
pub proof fn lemma_ok_le_width(l: Seq<char>, x: int)
    requires
        gs_fact(l),
        cursor_ok(l, x),
        0 <= x,
    ensures
        x <= width_of(l),
{
    let gs = grapheme_split(l);
    lemma_gs_totals(gs);
    if at_cluster_start(l, x) {
        let k = choose|k: int| 0 <= k < gs.len() && x == gstart(gs, k);
        lemma_gstart_mono(gs, k, gs.len() as int);
    }
}

/// Snapping a column strictly inside the line lands on a cluster start that
/// is still strictly inside; column 0 stays put.
pub proof fn lemma_snap_valid(l: Seq<char>, x: nat)
    requires
        gs_fact(l),
        x < width_of(l),
    ensures
        at_cluster_start(l, snap_col(l, x) as int),
        snap_col(l, x) <= x,
        snap_col(l, x) < width_of(l),
{
    let gs = grapheme_split(l);
    lemma_gs_totals(gs);
    lemma_cover_exists(gs, x as int, gs.len() as int);
    let k = cover_idx(l, x as int);
    assert(covers(gs, k, x as int));
    assert(at_cluster_start(l, gstart(gs, k) as int));
}

/// A leftward move always lands on a column Normal mode permits.
pub proof fn lemma_left_valid(l: Seq<char>, x: nat)
    requires
        gs_fact(l),
        cursor_ok(l, x as int),
    ensures
        valid_normal_col(l, spec_left(l, x) as int),
{
    lemma_ok_le_width(l, x as int);
    let x1: nat = if x > 0 {
        (x - 1) as nat
    } else {
        0
    };
    if x1 < width_of(l) {
        lemma_snap_valid(l, x1);
    }
}

/// The combined cursor corrections always land on a column Normal mode
/// permits, from any starting column.
pub proof fn lemma_fixed_valid(l: Seq<char>, x: nat)
    requires
        gs_fact(l),
    ensures
        valid_normal_col(l, fixed_col(l, x) as int),
{
    let w = width_of(l);
    let gs = grapheme_split(l);
    lemma_gs_totals(gs);
    let x1 = over_line_col(l, x);
    if x >= w {
        if w > 0 {
            lemma_cover_exists(gs, w - 1, gs.len() as int);
            let k = cover_idx(l, w - 1);
            assert(covers(gs, k, w - 1));
            lemma_snap_valid(l, x1);
        }
    } else {
        lemma_snap_valid(l, x1);
    }
}

/// On a line no wider than the viewport, a rightward move from a column
/// Normal mode permits lands on a column Normal mode permits.
pub proof fn lemma_right_valid(l: Seq<char>, x: nat, vw: nat)
    requires
        gs_fact(l),
        valid_normal_col(l, x as int),
        width_of(l) <= vw,
    ensures
        valid_normal_col(l, spec_right(l, x, vw) as int),
{
    let w_l = width_of(l);
    let gs = grapheme_split(l);
    lemma_gs_totals(gs);
    if x < w_l {
        lemma_cover_exists(gs, x as int, gs.len() as int);
        let k = cover_idx(l, x as int);
        assert(covers(gs, k, x as int));
        if x == 0 {
            assert(gstart(gs, k) == x);
        } else {
            let j = choose|j: int| 0 <= j < gs.len() && x == gstart(gs, j);
            lemma_start_cover(gs, k, j, x as int);
        }
        let w = width_of(gs[k]);
        if x + w < w_l {
            assert(gstart(gs, k + 1) == x + w);
            lemma_gstart_mono(gs, k + 1, gs.len() as int);
            assert(k + 1 < gs.len());
            assert(at_cluster_start(l, (x + w) as int));
        }
    }
}

/// After any one movement from a column Normal mode permits, the cursor
/// column is again one Normal mode permits: a cluster's starting column
/// strictly inside the line, or column 0 — never inside a cluster.  So, by
/// induction, it is after any sequence of movements from the origin.  The
/// one proviso is that the lines fit the viewport: a rightward move on a
/// wider line is clamped to the viewport's last column, which can fall
/// inside a cluster.
pub proof fn lemma_movement_keeps_normal_columns(w: WinView, m: Movement)
    requires
        gs_fact(cur_line(w)),
        gs_fact(cur_line(up_step(w))),
        gs_fact(cur_line(down_step(w))),
        valid_normal_col(cur_line(w), w.cur_x as int),
        width_of(cur_line(w)) <= w.width,
    ensures
        valid_normal_col(cur_line(spec_move(w, m)), spec_move(w, m).cur_x as int),
{
    lemma_zero_ok(cur_line(w));
    match m {
        Movement::Left => {
            lemma_left_valid(cur_line(w), w.cur_x);
        },
        Movement::Right => {
            lemma_right_valid(cur_line(w), w.cur_x, w.width);
        },
        Movement::Up => {
            lemma_fixed_valid(cur_line(up_step(w)), up_step(w).cur_x);
        },
        Movement::Down => {
            lemma_fixed_valid(cur_line(down_step(w)), down_step(w).cur_x);
        },
    }
}

/// A window shows one buffer through a viewport.
pub struct Window {
    buffer: Buffer,
    scroll_pos: usize,
    cur_y: usize,
    cur_x: usize,
    height: usize,
    width: usize,
}

impl View for Window {
    type V = WinView;

    closed spec fn view(&self) -> WinView {
        WinView {
            buf: self.buffer@,
            scroll_pos: self.scroll_pos as nat,
            cur_y: self.cur_y as nat,
            cur_x: self.cur_x as nat,
            height: self.height as nat,
            width: self.width as nat,
        }
    }
}

/// A read-only projection of the buffer lines a window shows.
pub struct ContentView<'a> {
    buffer: &'a Buffer,
    height: usize,
    vertical_offset: usize,
}

/// The mathematical value of a [`ContentView`].
pub ghost struct ContentViewV {
    pub lines: Seq<Seq<char>>,
    pub height: nat,
    pub offset: nat,
}

impl<'a> View for ContentView<'a> {
    type V = ContentViewV;

    closed spec fn view(&self) -> ContentViewV {
        ContentViewV {
            lines: self.buffer@.lines,
            height: self.height as nat,
            offset: self.vertical_offset as nat,
        }
    }
}

impl<'a> ContentView<'a> {
    /// How many rows of content there are to paint.
    pub fn height(&self) -> (h: usize)
        ensures
            h == self@.height,
    {
        self.height
    }

    /// The buffer line shown on the first content row.
    pub fn offset(&self) -> (o: usize)
        ensures
            o == self@.offset,
    {
        self.vertical_offset
    }

    /// Content row `i`: the buffer line the viewport shows there.
    pub fn line(&self, i: usize) -> (l: &Vec<char>)
        requires
            i + self@.offset < self@.lines.len(),
        ensures
            l@ == self@.lines[i + self@.offset],
    {
        let _n = self.buffer.len();
        self.buffer.line(i + self.vertical_offset)
    }
}

impl Window {
    /// The window's structural invariant: a well-formed buffer, the cursor
    /// on a valid line, a real viewport, and a cursor column far below the
    /// machine limits.
    pub open spec fn wf_frame(self) -> bool {
        &&& buf_wf(self@.buf)
        &&& self@.scroll_pos + self@.cur_y < self@.buf.lines.len()
        &&& self@.height >= 1
        &&& self@.width >= 1
        &&& self@.cur_x <= 3 * MAX_TEXT
    }

    /// The full window invariant: additionally, the cursor column is one the
    /// current line tolerates.
    pub open spec fn wf(self) -> bool {
        &&& self.wf_frame()
        &&& cursor_ok(cur_line(self@), self@.cur_x as int)
    }

    /// A window showing `buffer` from its first line, cursor at the origin.
    pub fn new(height: usize, width: usize, buffer: Buffer) -> (w: Window)
        requires
            height >= 1,
            width >= 1,
            buffer.wf(),
        ensures
            w.wf(),
            w@ == (WinView {
                buf: buffer@,
                scroll_pos: 0,
                cur_y: 0,
                cur_x: 0,
                height: height as nat,
                width: width as nat,
            }),
    {
        let w = Window { buffer, scroll_pos: 0, cur_y: 0, cur_x: 0, height, width };
        proof {
            lemma_zero_ok(cur_line(w@));
        }
        w
    }

    /// The viewport's dimensions.
    pub fn size(&self) -> (r: (usize, usize))
        ensures
            r.0 == self@.height,
            r.1 == self@.width,
    {
        (self.height, self.width)
    }

    /// The buffer's file name, if any.
    pub fn filename(&self) -> (r: Option<&Vec<char>>)
        ensures
            match r {
                Some(f) => self@.buf.filename == Some(f@),
                None => self@.buf.filename is None,
            },
    {
        self.buffer.filename()
    }

    /// The cursor in viewport coordinates: `(row, column)`.
    pub fn cursor(&self) -> (r: (usize, usize))
        ensures
            r.0 == self@.cur_y,
            r.1 == self@.cur_x,
    {
        (self.cur_y, self.cur_x)
    }

    /// How many lines the buffer holds.
    pub fn line_count(&self) -> (n: usize)
        ensures
            n == self@.buf.lines.len(),
    {
        self.buffer.len()
    }

    /// How many characters the buffer holds in all.
    pub fn total_chars(&self) -> (n: usize)
        requires
            self.wf(),
        ensures
            n == total_len(self@.buf.lines),
    {
        self.buffer.total_chars()
    }

    /// Places the cursor at display column `x` of the current line.
    pub fn set_cur_x(&mut self, x: usize)
        requires
            old(self).wf_frame(),
            cursor_ok(cur_line(old(self)@), x as int),
            x <= 3 * MAX_TEXT,
        ensures
            final(self).wf(),
            final(self)@ == (WinView { cur_x: x as nat, ..old(self)@ }),
    {
        self.cur_x = x;
    }

    /// The read-only projection the renderer paints from.
    pub fn content_view(&self) -> (r: ContentView<'_>)
        ensures
            r@.lines == self@.buf.lines,
            r@.offset == self@.scroll_pos,
            r@.height == if self@.height <= self@.buf.lines.len() {
                self@.height
            } else {
                self@.buf.lines.len()
            },
    {
        let blen = self.buffer.len();
        let h = if self.height < blen {
            self.height
        } else {
            blen
        };
        ContentView { buffer: &self.buffer, height: h, vertical_offset: self.scroll_pos }
    }

    /// Moves the cursor one column right when the line paints any columns
    /// and the cursor is not yet at its end — used when entering
    /// insert-after, since Insert mode permits the end-of-line column.
    pub fn advance_cursor(&mut self)
        requires
            old(self).wf(),
        ensures
            final(self).wf(),
            final(self)@ == spec_advance(old(self)@),
    {
        let abs = self.scroll_pos + self.cur_y;
        proof {
            self.buffer.lemma_line_len(abs as int);
        }
        let lw = width(self.buffer.line(abs));
        if lw > 0 && self.cur_x < lw {
            self.cur_x = self.cur_x + 1;
        }
    }

    /// Inserts an empty line below the cursor's line.
    pub fn add_line_below(&mut self)
        requires
            old(self).wf(),
            old(self)@.buf.lines.len() < MAX_LINES,
        ensures
            final(self).wf(),
            final(self)@ == spec_add_line_below(old(self)@),
    {
        let abs = self.scroll_pos + self.cur_y;
        self.buffer.add_line(abs + 1);
        proof {
            assert(cur_line(self@) == cur_line(old(self)@));
        }
    }

    /// Inserts an empty line above the cursor's line; the cursor row then
    /// shows the new empty line.
    pub fn add_line_above(&mut self)
        requires
            old(self).wf(),
            old(self)@.buf.lines.len() < MAX_LINES,
        ensures
            final(self).wf_frame(),
            final(self)@ == spec_add_line_above(old(self)@),
    {
        let abs = self.scroll_pos + self.cur_y;
        self.buffer.add_line(abs);
    }

    /// The data a save needs, or `NoFileName`; the caller performs the
    /// write.
    pub fn write(&self) -> (r: Result<(Vec<char>, Vec<char>), Error>)
        requires
            self.wf(),
        ensures
            match r {
                Ok(p) => self@.buf.filename == Some(p.0@) && p.1@ == join_lines_spec(
                    self@.buf.lines,
                ),
                Err(e) => e@ == crate::error::ErrView::NoFileName && self@.buf.filename is None,
            },
    {
        self.buffer.write()
    }

    /// Replaces the buffer wholesale; cursor and scroll return to the
    /// origin.
    pub fn set_buffer(&mut self, buffer: Buffer)
        requires
            old(self).wf_frame(),
            buffer.wf(),
        ensures
            final(self).wf(),
            final(self)@ == (WinView {
                buf: buffer@,
                scroll_pos: 0,
                cur_y: 0,
                cur_x: 0,
                ..old(self)@
            }),
    {
        self.buffer = buffer;
        self.cur_y = 0;
        self.cur_x = 0;
        self.scroll_pos = 0;
        proof {
            lemma_zero_ok(cur_line(self@));
        }
    }

    /// Splits the current line at the cursor; the cursor moves to the start
    /// of the freshly split-off line below.
    pub fn break_line(&mut self)
        requires
            old(self).wf(),
            old(self)@.buf.lines.len() < MAX_LINES,
        ensures
            final(self).wf(),
            final(self)@ == spec_break_line(old(self)@),
    {
        let abs = self.scroll_pos + self.cur_y;
        proof {
            self.buffer.lemma_line_len(abs as int);
        }
        let off = match self.buffer.grapheme_at(abs, self.cur_x) {
            Some(g) => g.offset,
            None => self.buffer.line(abs).len(),
        };
        self.buffer.break_line(abs, off);
        self.cur_y = self.cur_y + 1;
        self.cur_x = 0;
        proof {
            lemma_zero_ok(cur_line(self@));
        }
    }

    /// Inserts a character at the cursor: appended when the cursor is at or
    /// past the line's end, spliced in before the covered cluster otherwise.
    /// The cursor advances by the character's display width.
    pub fn add_char(&mut self, c: char)
        requires
            old(self).wf(),
            total_len(old(self)@.buf.lines) < MAX_TEXT,
        ensures
            final(self).wf(),
            final(self)@ == spec_add_char(old(self)@, c),
    {
        let abs = self.scroll_pos + self.cur_y;
        proof {
            self.buffer.lemma_line_len(abs as int);
        }
        let ghost l = cur_line(self@);
        let lw = width(self.buffer.line(abs));
        match self.buffer.grapheme_at(abs, self.cur_x) {
            None => {
                proof {
                    lemma_ok_le_width(l, self@.cur_x as int);
                }
                let lm = self.buffer.line_mut(abs);
                lm.push(c);
                proof {
                    assert(l.push(c) =~= l.take(l.len() as int) + seq![c] + l.skip(
                        l.len() as int,
                    ));
                }
            },
            Some(g) => {
                let lm = self.buffer.line_mut(abs);
                lm.insert(g.offset, c);
                proof {
                    assert(l.insert(g.offset as int, c) =~= l.take(g.offset as int) + seq![c]
                        + l.skip(g.offset as int));
                }
            },
        }
        proof {
            crate::buffer::lemma_total_update(
                old(self)@.buf.lines,
                abs as int,
                cur_line(old(self)@).take(col_offset(cur_line(old(self)@), old(self)@.cur_x) as int)
                    + seq![c] + cur_line(old(self)@).skip(
                    col_offset(cur_line(old(self)@), old(self)@.cur_x) as int,
                ),
            );
            lemma_total_parts(old(self)@.buf.lines, abs as int);
        }
        let w = width_char(c);
        self.cur_x = self.cur_x + w;
        proof {
            let l0 = cur_line(old(self)@);
            let off = col_offset(l0, old(self)@.cur_x);
            let l1 = l0.take(off as int) + seq![c] + l0.skip(off as int);
            lemma_width_concat(l0.take(off as int) + seq![c], l0.skip(off as int));
            lemma_width_concat(l0.take(off as int), seq![c]);
            lemma_width_concat(l0.take(off as int), l0.skip(off as int));
            assert(l0.take(off as int) + l0.skip(off as int) =~= l0);
            assert(width_of(seq![c]) == crate::unicode::char_width(c)) by {
                reveal_with_fuel(width_of, 2);
                assert(seq![c].drop_last() =~= Seq::<char>::empty());
                assert(seq![c].last() == c);
                assert(seq![c].len() == 1);
            }
            assert(width_of(l1) == width_of(l0) + crate::unicode::char_width(c));
        }
    }

    /// Backspace: at column 0 the current line merges into the previous one
    /// (a no-op on the first buffer line) and the cursor lands at the
    /// previous line's pre-merge end column; elsewhere the cluster left of
    /// the cursor is removed and the cursor moves back by its width.
    pub fn delete_char(&mut self)
        requires
            old(self).wf(),
        ensures
            final(self).wf(),
            final(self)@ == spec_delete_char(old(self)@),
    {
        if self.cur_x == 0 {
            if self.cur_y == 0 && self.scroll_pos == 0 {
                return;
            }
            let abs = self.scroll_pos + self.cur_y;
            proof {
                self.buffer.lemma_line_len(abs as int - 1);
            }
            let pos_x = width(self.buffer.line(abs - 1));
            self.buffer.join_lines(abs - 1);
            if self.cur_y > 0 {
                self.cur_y = self.cur_y - 1;
            } else {
                self.scroll_pos = self.scroll_pos - 1;
            }
            self.cur_x = pos_x;
            proof {
                let w0 = old(self)@;
                let abs0 = w0.scroll_pos + w0.cur_y as int;
                lemma_width_concat(w0.buf.lines[abs0 - 1], cur_line(w0));
                assert(cur_line(self@) == w0.buf.lines[abs0 - 1] + cur_line(w0));
            }
            return;
        }
        let abs = self.scroll_pos + self.cur_y;
        let ghost l = cur_line(self@);
        match self.buffer.delete_char_at(abs, self.cur_x - 1) {
            Some(g) => {
                proof {
                    let gs = grapheme_split(l);
                    crate::unicode::lemma_part_le_total(gs, cover_idx(l, old(self)@.cur_x - 1));
                    lemma_total_parts(old(self)@.buf.lines, abs as int);
                }
                let gw = width(&g);
                if gw <= self.cur_x {
                    self.cur_x = self.cur_x - gw;
                } else {
                    self.cur_x = 0;
                }
                proof {
                    let w0 = old(self)@;
                    let gs = grapheme_split(l);
                    let k = cover_idx(l, w0.cur_x - 1);
                    let off = goff(gs, k);
                    crate::unicode::lemma_cluster_slice(gs, k);
                    let l1 = l.take(off as int) + l.skip(off + gs[k].len() as int);
                    lemma_width_concat(l.take(off as int), l.skip(off + gs[k].len() as int));
                    assert(l =~= l.take(off as int) + l.subrange(off as int, off + gs[k].len() as int)
                        + l.skip(off + gs[k].len() as int));
                    lemma_width_concat(
                        l.take(off as int) + l.subrange(off as int, off + gs[k].len() as int),
                        l.skip(off + gs[k].len() as int),
                    );
                    lemma_width_concat(
                        l.take(off as int),
                        l.subrange(off as int, off + gs[k].len() as int),
                    );
                    assert(width_of(l1) == width_of(l) - width_of(gs[k]));
                    lemma_ok_le_width(l, w0.cur_x as int);
                    lemma_zero_ok(l1);
                }
            },
            None => {},
        }
    }
    fn scroll_up(&mut self)
        requires
            old(self).wf_frame(),
        ensures
            final(self).wf_frame(),
            final(self)@ == if old(self)@.cur_y + old(self)@.scroll_pos < old(
                self,
            )@.buf.lines.len() - 1 {
                WinView { scroll_pos: old(self)@.scroll_pos + 1, ..old(self)@ }
            } else {
                old(self)@
            },
    {
        let contents_len = self.buffer.len();
        if self.cur_y + self.scroll_pos < contents_len - 1 {
            self.scroll_pos = self.scroll_pos + 1;
        }
    }

    /// If the cursor sits at or past the current line's display width, pulls
    /// it onto the line: to the start of the cluster painting the last
    /// column, or to column 0 on a line without columns.
    pub fn ensure_cursor_over_line(&mut self)
        requires
            old(self).wf_frame(),
        ensures
            final(self).wf_frame(),
            final(self)@ == (WinView {
                cur_x: over_line_col(cur_line(old(self)@), old(self)@.cur_x),
                ..old(self)@
            }),
            cursor_ok(
                cur_line(old(self)@),
                over_line_col(cur_line(old(self)@), old(self)@.cur_x) as int,
            ),
    {
        let abs = self.cur_y + self.scroll_pos;
        proof {
            self.buffer.lemma_line_len(abs as int);
        }
        let lw = width(self.buffer.line(abs));
        proof {
            lemma_zero_ok(cur_line(self@));
        }
        if self.cur_x >= lw {
            if lw > 0 {
                match self.buffer.grapheme_at(abs, lw - 1) {
                    Some(g) => {
                        proof {
                            self.buffer.lemma_line_len(abs as int);
                        }
                        self.cur_x = g.start;
                    },
                    None => {
                        proof {
                            assert(false);
                        }
                    },
                }
            } else {
                self.cur_x = 0;
            }
        }
    }

    /// If the cursor column falls inside a cluster's span, pulls it back to
    /// that cluster's starting column.
    pub fn ensure_cursor_not_in_middle_of_widechar(&mut self)
        requires
            old(self).wf_frame(),
        ensures
            final(self).wf_frame(),
            final(self)@ == (WinView {
                cur_x: snap_col(cur_line(old(self)@), old(self)@.cur_x),
                ..old(self)@
            }),
            gs_fact(cur_line(old(self)@)),
    {
        let abs = self.cur_y + self.scroll_pos;
        match self.buffer.grapheme_at(abs, self.cur_x) {
            Some(g) => {
                proof {
                    self.buffer.lemma_line_len(abs as int);
                }
                if g.width > 1 {
                    self.cur_x = g.start;
                } else {
                    proof {
                        let l = cur_line(self@);
                        assert(width_of(grapheme_split(l)[g.index as int]) >= 1);
                        assert(g.start == self@.cur_x);
                    }
                }
            },
            None => {},
        }
    }

    /// Moves the cursor one grapheme step; see [`spec_move`].  A leftward or
    /// vertical move always lands the cursor on a cluster start, column 0,
    /// or nothing at all; a rightward move never reaches the line's display
    /// width, and stays put where the viewport clamp does not interfere.
    pub fn move_cursor(&mut self, movement: Movement)
        requires
            old(self).wf(),
        ensures
            final(self).wf(),
            final(self)@ == spec_move(old(self)@, movement),
            (movement == Movement::Up || movement == Movement::Down) ==> valid_normal_col(
                cur_line(final(self)@),
                final(self)@.cur_x as int,
            ),
            movement == Movement::Left ==> valid_normal_col(
                cur_line(old(self)@),
                final(self)@.cur_x as int,
            ),
            (movement == Movement::Right && valid_normal_col(
                cur_line(old(self)@),
                old(self)@.cur_x as int,
            ) && width_of(cur_line(old(self)@)) <= old(self)@.width) ==> valid_normal_col(
                cur_line(old(self)@),
                final(self)@.cur_x as int,
            ),
            movement == Movement::Right ==> (final(self)@.cur_x < width_of(cur_line(old(self)@))
                || final(self)@.cur_x == old(self)@.cur_x),
    {
        match movement {
            Movement::Left => {
                if self.cur_x > 0 {
                    self.cur_x = self.cur_x - 1;
                }
                let ghost mid = self@;
                self.ensure_cursor_not_in_middle_of_widechar();
                proof {
                    let l = cur_line(old(self)@);
                    lemma_left_valid(l, old(self)@.cur_x);
                    lemma_zero_ok(l);
                }
            },
            Movement::Right => {
                let abs = self.scroll_pos + self.cur_y;
                proof {
                    self.buffer.lemma_line_len(abs as int);
                }
                match self.buffer.grapheme_at(abs, self.cur_x) {
                    Some(g) => {
                        let lw = width(self.buffer.line(abs));
                        if self.cur_x + g.width < lw {
                            self.cur_x = self.cur_x + g.width;
                            if self.cur_x >= self.width {
                                self.cur_x = self.width - 1;
                            }
                        }
                        proof {
                            let l = cur_line(old(self)@);
                            if valid_normal_col(l, old(self)@.cur_x as int) && width_of(l)
                                <= old(self)@.width {
                                lemma_right_valid(l, old(self)@.cur_x, old(self)@.width);
                            }
                        }
                    },
                    None => {},
                }
            },
            Movement::Up => {
                if self.cur_y > 0 {
                    self.cur_y = self.cur_y - 1;
                } else {
                    self.scroll_down();
                }
                self.ensure_cursor_over_line();
                let ghost mid = self@;
                self.ensure_cursor_not_in_middle_of_widechar();
                proof {
                    lemma_fixed_valid(cur_line(mid), up_step(old(self)@).cur_x);
                    lemma_zero_ok(cur_line(self@));
                }
            },
            Movement::Down => {
                self.cur_y = self.cur_y + 1;
                if self.cur_y >= self.height {
                    self.cur_y = self.height - 1;
                    self.scroll_up();
                }
                let contents_len = self.buffer.len();
                if self.cur_y + self.scroll_pos >= contents_len {
                    self.cur_y = contents_len - 1 - self.scroll_pos;
                }
                proof {
                    assert(self@.buf == old(self)@.buf);
                    assert(WinView { cur_x: self@.cur_x, ..self@ } == down_step(old(self)@));
                }
                self.ensure_cursor_over_line();
                let ghost mid = self@;
                self.ensure_cursor_not_in_middle_of_widechar();
                proof {
                    lemma_fixed_valid(cur_line(mid), down_step(old(self)@).cur_x);
                    lemma_zero_ok(cur_line(self@));
                }
            },
        }
    }

    /// Scrolls the viewport one line up the buffer, if it is scrolled at
    /// all.
    fn scroll_down(&mut self)
        requires
            old(self).wf_frame(),
        ensures
            final(self).wf_frame(),
            final(self)@ == if old(self)@.scroll_pos > 0 {
                WinView { scroll_pos: (old(self)@.scroll_pos - 1) as nat, ..old(self)@ }
            } else {
                old(self)@
            },
    {
        if self.scroll_pos > 0 {
            self.scroll_pos = self.scroll_pos - 1;
        }
    }
}

} // verus!
