//! The text buffer: an ordered, never-empty sequence of lines, with an
//! optional backing file name.
//!
//! File contents come in and go out as plain character vectors; the caller
//! performs the actual reading and writing.  Loading splits contents into
//! lines the way a buffered line reader does (a line ends at `'\n'`, with one
//! preceding `'\r'` stripped); saving appends `'\n'` after every line.

use crate::error::{Error, ErrView};
use crate::unicode::{
    append_chars, clone_chars, cover_idx, covers, goff, grapheme_scan, grapheme_split, gs_fact,
    lemma_cluster_slice, lemma_gs_totals, lemma_gstart_mono, width_of, GraphemeAt,
};
use crate::{MAX_LINES, MAX_TEXT};
use vstd::prelude::*;

verus! {

/// Total number of characters over a sequence of lines.
pub open spec fn total_len(ls: Seq<Seq<char>>) -> nat
    decreases ls.len(),
{
    if ls.len() == 0 {
        0
    } else {
        total_len(ls.drop_last()) + ls.last().len()
    }
}

/// Appending one line adds its length to the total.
pub proof fn lemma_total_push(ls: Seq<Seq<char>>, l: Seq<char>)
    ensures
        total_len(ls.push(l)) == total_len(ls) + l.len(),
{
    assert(ls.push(l).drop_last() =~= ls);
    assert(ls.push(l).last() == l);
    assert(ls.push(l).len() == ls.len() + 1);
}

pub proof fn lemma_total_concat(a: Seq<Seq<char>>, b: Seq<Seq<char>>)
    ensures
        total_len(a + b) == total_len(a) + total_len(b),
    decreases b.len(),
{
    if b.len() == 0 {
        assert(a + b =~= a);
    } else {
        lemma_total_concat(a, b.drop_last());
        assert((a + b).drop_last() =~= a + b.drop_last());
    }
}

/// Splits the total around position `i`.
pub proof fn lemma_total_parts(ls: Seq<Seq<char>>, i: int)
    requires
        0 <= i < ls.len(),
    ensures
        total_len(ls) == total_len(ls.take(i)) + ls[i].len() + total_len(ls.skip(i + 1)),
        ls[i].len() <= total_len(ls),
{
    let mid = seq![ls[i]];
    assert(total_len(mid) == ls[i].len()) by {
        assert(mid =~= Seq::<Seq<char>>::empty().push(ls[i]));
        lemma_total_push(Seq::<Seq<char>>::empty(), ls[i]);
    }
    lemma_total_concat(ls.take(i), mid);
    lemma_total_concat(ls.take(i) + mid, ls.skip(i + 1));
    assert(ls.take(i) + mid + ls.skip(i + 1) =~= ls);
}

/// Inserting a line grows the total by that line's length.
pub proof fn lemma_total_insert(ls: Seq<Seq<char>>, i: int, l: Seq<char>)
    requires
        0 <= i <= ls.len(),
    ensures
        total_len(ls.insert(i, l)) == total_len(ls) + l.len(),
{
    let new = ls.insert(i, l);
    lemma_total_parts(new, i);
    assert(new.take(i) =~= ls.take(i));
    assert(new.skip(i + 1) =~= ls.skip(i));
    lemma_total_concat(ls.take(i), ls.skip(i));
    assert(ls.take(i) + ls.skip(i) =~= ls);
}

/// Removing a line shrinks the total by that line's length.
pub proof fn lemma_total_remove(ls: Seq<Seq<char>>, i: int)
    requires
        0 <= i < ls.len(),
    ensures
        total_len(ls.remove(i)) == total_len(ls) - ls[i].len(),
{
    lemma_total_parts(ls, i);
    lemma_total_concat(ls.take(i), ls.skip(i + 1));
    assert(ls.remove(i) =~= ls.take(i) + ls.skip(i + 1));
}

/// Replacing a line adjusts the total by the difference in length.
pub proof fn lemma_total_update(ls: Seq<Seq<char>>, i: int, l: Seq<char>)
    requires
        0 <= i < ls.len(),
    ensures
        total_len(ls.update(i, l)) == total_len(ls) - ls[i].len() + l.len(),
{
    let new = ls.update(i, l);
    lemma_total_parts(ls, i);
    lemma_total_parts(new, i);
    assert(new.take(i) =~= ls.take(i));
    assert(new.skip(i + 1) =~= ls.skip(i + 1));
}

/// A prefix of the lines holds no more characters than all of them.
pub proof fn lemma_total_take_le(ls: Seq<Seq<char>>, i: int)
    requires
        0 <= i <= ls.len(),
    ensures
        total_len(ls.take(i)) <= total_len(ls),
{
    lemma_total_concat(ls.take(i), ls.skip(i));
    assert(ls.take(i) + ls.skip(i) =~= ls);
}

/// Drops one carriage return from the end of a line, if it ends in one.
pub open spec fn strip_cr(l: Seq<char>) -> Seq<char> {
    if l.len() > 0 && l.last() == '\r' {
        l.drop_last()
    } else {
        l
    }
}

/// Line splitting as a left fold: `cur` is the line being accumulated, `acc`
/// the lines already complete.
pub open spec fn split_fold(s: Seq<char>, cur: Seq<char>, acc: Seq<Seq<char>>) -> Seq<Seq<char>>
    decreases s.len(),
{
    if s.len() == 0 {
        if cur.len() == 0 {
            acc
        } else {
            acc.push(cur)
        }
    } else if s[0] == '\n' {
        split_fold(s.drop_first(), Seq::empty(), acc.push(strip_cr(cur)))
    } else {
        split_fold(s.drop_first(), cur.push(s[0]), acc)
    }
}

/// The lines of a text, as a buffered line reader yields them: each `'\n'`
/// ends a line (a directly preceding `'\r'` is stripped); text after the last
/// `'\n'` is a final line if it is nonempty.
pub open spec fn split_lines_spec(s: Seq<char>) -> Seq<Seq<char>> {
    split_fold(s, Seq::empty(), Seq::empty())
}

/// Splitting never yields more lines, nor more characters in total, than the
/// text had characters.
pub proof fn lemma_split_bounds(s: Seq<char>, cur: Seq<char>, acc: Seq<Seq<char>>)
    ensures
        split_fold(s, cur, acc).len() <= acc.len() + s.len() + (if cur.len() > 0 {
            1int
        } else {
            0int
        }),
        total_len(split_fold(s, cur, acc)) <= total_len(acc) + cur.len() + s.len(),
    decreases s.len(),
{
    if s.len() == 0 {
        if cur.len() > 0 {
            assert(acc.push(cur).drop_last() =~= acc);
        }
    } else if s[0] == '\n' {
        lemma_split_bounds(s.drop_first(), Seq::empty(), acc.push(strip_cr(cur)));
        assert(acc.push(strip_cr(cur)).drop_last() =~= acc);
    } else {
        lemma_split_bounds(s.drop_first(), cur.push(s[0]), acc);
    }
}

/// The serialized form of a sequence of lines: each line followed by `'\n'`.
pub open spec fn join_lines_spec(ls: Seq<Seq<char>>) -> Seq<char>
    decreases ls.len(),
{
    if ls.len() == 0 {
        Seq::empty()
    } else {
        join_lines_spec(ls.drop_last()) + ls.last() + seq!['\n']
    }
}

/// The lines a buffer gets from what the file reader found: a missing file
/// or empty contents give one empty line.
pub open spec fn loaded_lines(read: Option<Seq<char>>) -> Seq<Seq<char>> {
    match read {
        None => seq![Seq::<char>::empty()],
        Some(s) => {
            let ls = split_lines_spec(s);
            if ls.len() == 0 {
                seq![Seq::<char>::empty()]
            } else {
                ls
            }
        },
    }
}

/// What the caller's file reader found at a path.
pub enum FileRead {
    /// No file exists at the path.
    Missing,
    /// The file's characters.
    Contents(Vec<char>),
}

impl View for FileRead {
    type V = Option<Seq<char>>;

    open spec fn view(&self) -> Option<Seq<char>> {
        match self {
            FileRead::Missing => None,
            FileRead::Contents(s) => Some(s@),
        }
    }
}

/// The mathematical value of a [`Buffer`].
pub ghost struct BufView {
    pub filename: Option<Seq<char>>,
    pub lines: Seq<Seq<char>>,
}

pub struct Buffer {
    filename: Option<Vec<char>>,
    contents: Vec<Vec<char>>,
}

impl View for Buffer {
    type V = BufView;

    closed spec fn view(&self) -> BufView {
        BufView {
            filename: match self.filename {
                Some(f) => Some(f@),
                None => None,
            },
            lines: self.contents@.map_values(|l: Vec<char>| l@),
        }
    }
}

/// A buffer is well formed when it has at least one line and stays far below
/// the machine's size limits.
pub open spec fn buf_wf(b: BufView) -> bool {
    &&& 1 <= b.lines.len() <= MAX_LINES
    &&& total_len(b.lines) <= MAX_TEXT
}

impl Buffer {
    /// See [`buf_wf`].
    pub open spec fn wf(self) -> bool {
        buf_wf(self@)
    }

    /// The total number of characters over all lines.
    pub fn total_chars(&self) -> (n: usize)
        requires
            self.wf(),
        ensures
            n == total_len(self@.lines),
    {
        let ghost ls = self@.lines;
        let mut acc: usize = 0;
        let mut i: usize = 0;
        proof {
            assert(ls.take(0) =~= Seq::<Seq<char>>::empty());
        }
        while i < self.contents.len()
            invariant
                self.wf(),
                ls == self@.lines,
                i <= ls.len(),
                acc == total_len(ls.take(i as int)),
                acc <= total_len(ls),
            decreases ls.len() - i,
        {
            proof {
                assert(ls.take(i + 1).drop_last() =~= ls.take(i as int));
                assert(ls.take(i + 1).last() == ls[i as int]);
                lemma_total_take_le(ls, i + 1);
            }
            acc = acc + self.contents[i].len();
            i = i + 1;
        }
        proof {
            assert(ls.take(ls.len() as int) =~= ls);
        }
        acc
    }

    /// Every line of a well-formed buffer is itself small.
    pub proof fn lemma_line_len(self, i: int)
        requires
            self.wf(),
            0 <= i < self@.lines.len(),
        ensures
            self@.lines[i].len() <= MAX_TEXT,
    {
        lemma_total_parts(self@.lines, i);
    }

    /// A fresh buffer: no file name, one empty line.
    pub fn new() -> (b: Buffer)
        ensures
            b.wf(),
            b@.filename is None,
            b@.lines == seq![Seq::<char>::empty()],
    {
        let contents: Vec<Vec<char>> = vec![Vec::new()];
        let b = Buffer { filename: None, contents };
        proof {
            assert(b@.lines =~= Seq::<Seq<char>>::empty().push(Seq::<char>::empty()));
            lemma_total_push(Seq::<Seq<char>>::empty(), Seq::<char>::empty());
            assert(b@.lines =~= seq![Seq::<char>::empty()]);
        }
        b
    }

    /// The buffer for a file the caller has looked up: missing files load as
    /// a fresh single-empty-line buffer, not as an error.
    pub fn for_file(filename: Vec<char>, read: FileRead) -> (b: Buffer)
        requires
            match read@ {
                Some(s) => s.len() <= MAX_TEXT,
                None => true,
            },
        ensures
            b.wf(),
            b@.filename == Some(filename@),
            b@.lines == loaded_lines(read@),
    {
        let contents: Vec<Vec<char>> = match read {
            FileRead::Missing => {
                let c: Vec<Vec<char>> = vec![Vec::new()];
                proof {
                    assert(c@.map_values(|l: Vec<char>| l@) =~= loaded_lines(None));
                }
                c
            },
            FileRead::Contents(s) => {
                let mut c = split_lines(&s);
                proof {
                    lemma_split_bounds(s@, Seq::<char>::empty(), Seq::<Seq<char>>::empty());
                }
                if c.len() == 0 {
                    c.push(Vec::new());
                    proof {
                        assert(c@.map_values(|l: Vec<char>| l@) =~= seq![Seq::<char>::empty()]);
                    }
                }
                proof {
                    assert(c@.map_values(|l: Vec<char>| l@) =~= loaded_lines(Some(s@)));
                }
                c
            },
        };
        let b = Buffer { filename: Some(filename), contents };
        proof {
            if b@.lines.len() == 1 {
                assert(total_len(b@.lines) == b@.lines[0].len()) by {
                    assert(b@.lines =~= Seq::<Seq<char>>::empty().push(b@.lines[0]));
                    lemma_total_push(Seq::<Seq<char>>::empty(), b@.lines[0]);
                }
            }
        }
        b
    }

    /// The associated file name, if one is set.
    pub fn filename(&self) -> (r: Option<&Vec<char>>)
        ensures
            match r {
                Some(f) => self@.filename == Some(f@),
                None => self@.filename is None,
            },
    {
        self.filename.as_ref()
    }

    /// Line `n`.
    pub fn line(&self, n: usize) -> (l: &Vec<char>)
        requires
            n < self@.lines.len(),
        ensures
            l@ == self@.lines[n as int],
    {
        &self.contents[n]
    }

    /// Mutable access to line `n`.  The caller answers for keeping the
    /// buffer within its size limits.
    pub fn line_mut(&mut self, n: usize) -> (l: &mut Vec<char>)
        requires
            n < old(self)@.lines.len(),
        ensures
            l@ == old(self)@.lines[n as int],
            final(self)@.filename == old(self)@.filename,
            final(self)@.lines =~= old(self)@.lines.update(n as int, final(l)@),
    {
        &mut self.contents[n]
    }

    /// The number of lines; never zero for a well-formed buffer.
    pub fn len(&self) -> (n: usize)
        ensures
            n == self@.lines.len(),
    {
        self.contents.len()
    }

    /// Inserts an empty line at position `pos`.
    pub fn add_line(&mut self, pos: usize)
        requires
            old(self).wf(),
            pos <= old(self)@.lines.len(),
            old(self)@.lines.len() < MAX_LINES,
        ensures
            final(self).wf(),
            final(self)@.filename == old(self)@.filename,
            final(self)@.lines == old(self)@.lines.insert(pos as int, Seq::<char>::empty()),
    {
        self.contents.insert(pos, Vec::new());
        proof {
            assert(final(self)@.lines =~= old(self)@.lines.insert(
                pos as int,
                Seq::<char>::empty(),
            ));
            lemma_total_insert(old(self)@.lines, pos as int, Seq::<char>::empty());
        }
    }

    /// Splits line `y` at character offset `x` into two adjacent lines.
    pub fn break_line(&mut self, y: usize, x: usize)
        requires
            old(self).wf(),
            y < old(self)@.lines.len(),
            x <= old(self)@.lines[y as int].len(),
            old(self)@.lines.len() < MAX_LINES,
        ensures
            final(self).wf(),
            final(self)@.filename == old(self)@.filename,
            final(self)@.lines == old(self)@.lines.update(
                y as int,
                old(self)@.lines[y as int].take(x as int),
            ).insert(y as int + 1, old(self)@.lines[y as int].skip(x as int)),
    {
        let ghost lines0 = self@.lines;
        let rest = self.contents[y].split_off(x);
        self.contents.insert(y + 1, rest);
        proof {
            let l0 = lines0[y as int];
            assert(final(self)@.lines =~= lines0.update(y as int, l0.take(x as int)).insert(
                y as int + 1,
                l0.skip(x as int),
            ));
            lemma_total_update(lines0, y as int, l0.take(x as int));
            lemma_total_insert(
                lines0.update(y as int, l0.take(x as int)),
                y as int + 1,
                l0.skip(x as int),
            );
        }
    }

    /// The grapheme cluster of line `y` whose column span contains display
    /// column `x`: the single primitive that turns a display column into a
    /// splice point.  `None` when `x` is at or past the line's width.
    pub fn grapheme_at(&self, y: usize, x: usize) -> (r: Option<GraphemeAt>)
        requires
            self.wf(),
            y < self@.lines.len(),
        ensures
            gs_fact(self@.lines[y as int]),
            match r {
                Some(g) => {
                    &&& g.describes(self@.lines[y as int], x as int)
                    &&& x < width_of(self@.lines[y as int])
                    &&& g.start <= 3 * g.offset
                    &&& g.width <= 3 * g.len
                    &&& g.offset + g.len <= self@.lines[y as int].len()
                },
                None => x >= width_of(self@.lines[y as int]),
            },
    {
        proof {
            self.lemma_line_len(y as int);
        }
        grapheme_scan(&self.contents[y], x)
    }

    /// Removes the grapheme cluster at display column `x` of line `y` and
    /// returns its characters, or returns `None` when `x` is at or past the
    /// line's width.
    pub fn delete_char_at(&mut self, y: usize, x: usize) -> (r: Option<Vec<char>>)
        requires
            old(self).wf(),
            y < old(self)@.lines.len(),
        ensures
            final(self).wf(),
            final(self)@.filename == old(self)@.filename,
            gs_fact(old(self)@.lines[y as int]),
            ({
                let l = old(self)@.lines[y as int];
                let gs = grapheme_split(l);
                let k = cover_idx(l, x as int);
                if x < width_of(l) {
                    &&& covers(gs, k, x as int)
                    &&& r matches Some(g) && g@ == gs[k]
                    &&& final(self)@.lines == old(self)@.lines.update(
                        y as int,
                        l.take(goff(gs, k) as int) + l.skip(goff(gs, k) + gs[k].len() as int),
                    )
                } else {
                    r is None && final(self)@ == old(self)@
                }
            }),
    {
        let ghost l = self@.lines[y as int];
        let ghost lines0 = self@.lines;
        match self.grapheme_at(y, x) {
            None => None,
            Some(g) => {
                proof {
                    let gs = grapheme_split(l);
                    lemma_gs_totals(gs);
                    lemma_cluster_slice(gs, g.index as int);
                }
                let n = self.contents[y].len();
                let mut newline: Vec<char> = Vec::new();
                let mut removed: Vec<char> = Vec::new();
                let mut i: usize = 0;
                while i < g.offset
                    invariant
                        y < self@.lines.len(),
                        l == self@.lines[y as int],
                        n == l.len(),
                        g.offset + g.len <= n,
                        i <= g.offset,
                        newline@ == l.subrange(0, i as int),
                    decreases g.offset - i,
                {
                    newline.push(self.contents[y][i]);
                    proof {
                        assert(newline@ =~= l.subrange(0, i + 1));
                    }
                    i = i + 1;
                }
                proof {
                    assert(removed@ =~= l.subrange(g.offset as int, g.offset as int));
                }
                while i < g.offset + g.len
                    invariant
                        y < self@.lines.len(),
                        l == self@.lines[y as int],
                        n == l.len(),
                        g.offset + g.len <= n,
                        g.offset <= i <= g.offset + g.len,
                        newline@ == l.subrange(0, g.offset as int),
                        removed@ == l.subrange(g.offset as int, i as int),
                    decreases g.offset + g.len - i,
                {
                    removed.push(self.contents[y][i]);
                    proof {
                        assert(removed@ =~= l.subrange(g.offset as int, i + 1));
                    }
                    i = i + 1;
                }
                proof {
                    assert(l.subrange(0, g.offset as int) =~= l.take(g.offset as int) + l.subrange(
                        g.offset + g.len as int,
                        g.offset + g.len as int,
                    ));
                }
                while i < n
                    invariant
                        y < self@.lines.len(),
                        l == self@.lines[y as int],
                        n == l.len(),
                        g.offset + g.len <= i <= n,
                        newline@ == l.take(g.offset as int) + l.subrange(
                            g.offset + g.len as int,
                            i as int,
                        ),
                        removed@ == l.subrange(g.offset as int, g.offset + g.len as int),
                    decreases n - i,
                {
                    newline.push(self.contents[y][i]);
                    proof {
                        assert(newline@ =~= l.take(g.offset as int) + l.subrange(
                            g.offset + g.len,
                            i + 1,
                        ));
                    }
                    i = i + 1;
                }
                proof {
                    assert(newline@ =~= l.take(g.offset as int) + l.skip(
                        g.offset + g.len as int,
                    ));
                }
                let slot = &mut self.contents[y];
                *slot = newline;
                proof {
                    assert(self@.lines =~= lines0.update(
                        y as int,
                        l.take(g.offset as int) + l.skip(g.offset + g.len as int),
                    ));
                    lemma_total_update(
                        lines0,
                        y as int,
                        l.take(g.offset as int) + l.skip(g.offset + g.len as int),
                    );
                    lemma_total_parts(lines0, y as int);
                    assert(removed@ == grapheme_split(l)[g.index as int]);
                }
                Some(removed)
            },
        }
    }

    /// Appends line `n + 1` onto line `n` and removes line `n + 1`.
    pub fn join_lines(&mut self, n: usize)
        requires
            old(self).wf(),
            n + 1 < old(self)@.lines.len(),
        ensures
            final(self).wf(),
            final(self)@.filename == old(self)@.filename,
            final(self)@.lines == old(self)@.lines.update(
                n as int,
                old(self)@.lines[n as int] + old(self)@.lines[n as int + 1],
            ).remove(n as int + 1),
    {
        let ghost lines0 = self@.lines;
        let mut rest = self.contents.remove(n + 1);
        self.contents[n].append(&mut rest);
        proof {
            assert(final(self)@.lines =~= lines0.update(
                n as int,
                lines0[n as int] + lines0[n as int + 1],
            ).remove(n as int + 1));
            lemma_total_update(lines0, n as int, lines0[n as int] + lines0[n as int + 1]);
            lemma_total_remove(
                lines0.update(n as int, lines0[n as int] + lines0[n as int + 1]),
                n as int + 1,
            );
        }
    }
}

impl Buffer {
    /// The data a save needs: the buffer's file name and its serialized
    /// contents (every line followed by `'\n'`), or `NoFileName` when the
    /// buffer has no associated file.  The caller performs the actual write.
    pub fn write(&self) -> (r: Result<(Vec<char>, Vec<char>), Error>)
        requires
            self.wf(),
        ensures
            match r {
                Ok(p) => self@.filename == Some(p.0@) && p.1@ == join_lines_spec(self@.lines),
                Err(e) => e@ == ErrView::NoFileName && self@.filename is None,
            },
    {
        match &self.filename {
            None => Err(Error::NoFileName),
            Some(f) => Ok((clone_chars(f), serialize_lines(&self.contents))),
        }
    }
}

/// Joining distributes over concatenation of line sequences.
pub proof fn lemma_join_concat(a: Seq<Seq<char>>, b: Seq<Seq<char>>)
    ensures
        join_lines_spec(a + b) == join_lines_spec(a) + join_lines_spec(b),
    decreases b.len(),
{
    if b.len() == 0 {
        assert(a + b =~= a);
        assert(join_lines_spec(a) + join_lines_spec(b) =~= join_lines_spec(a));
    } else {
        lemma_join_concat(a, b.drop_last());
        assert((a + b).drop_last() =~= a + b.drop_last());
        assert(join_lines_spec(a) + (join_lines_spec(b.drop_last()) + b.last() + seq!['\n']) =~= (
        join_lines_spec(a) + join_lines_spec(b.drop_last())) + b.last() + seq!['\n']);
    }
}

/// Folding over text that holds no newline just accumulates it onto the
/// current line.
pub proof fn lemma_split_fold_clean(
    line: Seq<char>,
    rest: Seq<char>,
    cur: Seq<char>,
    acc: Seq<Seq<char>>,
)
    requires
        forall|i: int| 0 <= i < line.len() ==> line[i] != '\n',
    ensures
        split_fold(line + rest, cur, acc) == split_fold(rest, cur + line, acc),
    decreases line.len(),
{
    if line.len() == 0 {
        assert(line + rest =~= rest);
        assert(cur + line =~= cur);
    } else {
        assert((line + rest)[0] == line[0]);
        assert((line + rest).drop_first() =~= line.drop_first() + rest);
        lemma_split_fold_clean(line.drop_first(), rest, cur.push(line[0]), acc);
        assert(cur.push(line[0]) + line.drop_first() =~= cur + line);
    }
}

/// A line neither containing a newline nor ending in a carriage return.
pub open spec fn clean_line(l: Seq<char>) -> bool {
    &&& forall|i: int| 0 <= i < l.len() ==> l[i] != '\n'
    &&& (l.len() > 0 ==> l.last() != '\r')
}

/// Splitting the serialized form of clean lines appends exactly those lines.
pub proof fn lemma_round_trip_fold(ls: Seq<Seq<char>>, acc: Seq<Seq<char>>)
    requires
        forall|i: int| 0 <= i < ls.len() ==> clean_line(#[trigger] ls[i]),
    ensures
        split_fold(join_lines_spec(ls), Seq::empty(), acc) == acc + ls,
    decreases ls.len(),
{
    if ls.len() == 0 {
        assert(acc + ls =~= acc);
    } else {
        let l0 = ls[0];
        let rest = ls.drop_first();
        assert(ls =~= seq![l0] + rest);
        lemma_join_concat(seq![l0], rest);
        assert(join_lines_spec(seq![l0]) =~= l0 + seq!['\n']) by {
            assert(seq![l0].drop_last() =~= Seq::<Seq<char>>::empty());
            assert(seq![l0].last() == l0);
            assert(join_lines_spec(Seq::<Seq<char>>::empty()) + l0 + seq!['\n'] =~= l0
                + seq!['\n']);
        }
        let tail = seq!['\n'] + join_lines_spec(rest);
        assert(join_lines_spec(ls) =~= l0 + tail);
        assert(clean_line(l0));
        lemma_split_fold_clean(l0, tail, Seq::empty(), acc);
        assert(Seq::<char>::empty() + l0 =~= l0);
        assert(tail[0] == '\n');
        assert(tail.drop_first() =~= join_lines_spec(rest));
        assert(strip_cr(l0) == l0);
        assert(forall|i: int| 0 <= i < rest.len() ==> clean_line(#[trigger] rest[i]));
        lemma_round_trip_fold(rest, acc.push(l0));
        assert(acc.push(l0) + rest =~= acc + ls);
    }
}

/// Round trip: serializing a buffer's lines and loading the result again
/// yields exactly the same lines.  It holds of every line sequence a load can
/// produce and every one the editor builds from key input (the editor never
/// stores a newline inside a line); a line that did contain `'\n'`, or ended
/// in `'\r'`, would be cut apart or stripped by the load.
pub proof fn lemma_write_load_round_trip(ls: Seq<Seq<char>>)
    requires
        ls.len() >= 1,
        forall|i: int| 0 <= i < ls.len() ==> clean_line(#[trigger] ls[i]),
    ensures
        loaded_lines(Some(join_lines_spec(ls))) == ls,
{
    lemma_round_trip_fold(ls, Seq::<Seq<char>>::empty());
    assert(Seq::<Seq<char>>::empty() + ls =~= ls);
}

/// Splits file contents into lines; see [`split_lines_spec`].
pub fn split_lines(content: &Vec<char>) -> (r: Vec<Vec<char>>)
    ensures
        r@.map_values(|l: Vec<char>| l@) == split_lines_spec(content@),
{
    let mut acc: Vec<Vec<char>> = Vec::new();
    let mut cur: Vec<char> = Vec::new();
    let mut i: usize = 0;
    proof {
        assert(content@.skip(0) =~= content@);
        assert(acc@.map_values(|l: Vec<char>| l@) =~= Seq::<Seq<char>>::empty());
    }
    while i < content.len()
        invariant
            i <= content@.len(),
            split_fold(content@.skip(i as int), cur@, acc@.map_values(|l: Vec<char>| l@))
                == split_lines_spec(content@),
        decreases content@.len() - i,
    {
        let ghost rem = content@.skip(i as int);
        let ghost cur0 = cur@;
        let ghost acc0 = acc@.map_values(|l: Vec<char>| l@);
        proof {
            assert(rem[0] == content@[i as int]);
            assert(rem.drop_first() =~= content@.skip(i as int + 1));
        }
        let c = content[i];
        if c == '\n' {
            if cur.len() > 0 && cur[cur.len() - 1] == '\r' {
                let _ = cur.pop();
            }
            proof {
                assert(cur@ =~= strip_cr(cur0));
            }
            acc.push(cur);
            cur = Vec::new();
            proof {
                assert(acc@.map_values(|l: Vec<char>| l@) =~= acc0.push(strip_cr(cur0)));
            }
        } else {
            cur.push(c);
        }
        i = i + 1;
    }
    proof {
        assert(content@.skip(content@.len() as int) =~= Seq::<char>::empty());
    }
    if cur.len() > 0 {
        let ghost acc0 = acc@.map_values(|l: Vec<char>| l@);
        let ghost cur0 = cur@;
        acc.push(cur);
        proof {
            assert(acc@.map_values(|l: Vec<char>| l@) =~= acc0.push(cur0));
        }
    }
    acc
}

/// Serializes lines: every line followed by `'\n'`.
pub fn serialize_lines(lines: &Vec<Vec<char>>) -> (r: Vec<char>)
    ensures
        r@ == join_lines_spec(lines@.map_values(|l: Vec<char>| l@)),
{
    let ghost lsv = lines@.map_values(|l: Vec<char>| l@);
    let mut out: Vec<char> = Vec::new();
    let mut i: usize = 0;
    proof {
        assert(out@ =~= join_lines_spec(lsv.take(0)));
    }
    while i < lines.len()
        invariant
            lsv == lines@.map_values(|l: Vec<char>| l@),
            i <= lines@.len(),
            out@ == join_lines_spec(lsv.take(i as int)),
        decreases lines@.len() - i,
    {
        append_chars(&mut out, &lines[i]);
        out.push('\n');
        proof {
            assert(lsv.take(i + 1).drop_last() =~= lsv.take(i as int));
            assert(out@ =~= join_lines_spec(lsv.take(i as int)) + lsv[i as int] + seq!['\n']);
        }
        i = i + 1;
    }
    proof {
        assert(lsv.take(lsv.len() as int) =~= lsv);
    }
    out
}

} // verus!
