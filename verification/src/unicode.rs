//! Grapheme segmentation and display widths.
//!
//! The two Unicode questions the editor asks — how wide a character paints,
//! and where the grapheme-cluster boundaries of a line are — are answered by
//! outside crates.  Their results are named by the uninterpreted functions
//! [`char_width`] and [`grapheme_split`]; everything else in this module is
//! ordinary verified code over those names.

use crate::MAX_TEXT;
use unicode_segmentation::UnicodeSegmentation;
use vstd::prelude::*;

verus! {

/// The display width, in terminal columns, of one character: what
/// `unicode_width::UnicodeWidthChar::width` returns, with control characters
/// (`None`) counted as zero columns.
pub uninterp spec fn char_width(c: char) -> nat;

/// The extended grapheme clusters of a text, in order: what
/// `unicode_segmentation::UnicodeSegmentation::graphemes` yields.
pub uninterp spec fn grapheme_split(s: Seq<char>) -> Seq<Seq<char>>;

/// Display width of a text: the sum of its characters' display widths.
pub open spec fn width_of(s: Seq<char>) -> nat
    decreases s.len(),
{
    if s.len() == 0 {
        0
    } else {
        width_of(s.drop_last()) + char_width(s.last())
    }
}

/// Starting display column of cluster `k`: the summed width of the clusters
/// before it.
pub open spec fn gstart(gs: Seq<Seq<char>>, k: int) -> nat
    decreases k,
{
    if k <= 0 {
        0
    } else {
        gstart(gs, k - 1) + width_of(gs[k - 1])
    }
}

/// Starting character offset of cluster `k`: the summed length of the
/// clusters before it.
pub open spec fn goff(gs: Seq<Seq<char>>, k: int) -> nat
    decreases k,
{
    if k <= 0 {
        0
    } else {
        goff(gs, k - 1) + gs[k - 1].len()
    }
}

/// Cluster `k`'s column span contains column `x`.
pub open spec fn covers(gs: Seq<Seq<char>>, k: int, x: int) -> bool {
    &&& 0 <= k < gs.len()
    &&& gstart(gs, k) <= x
    &&& x < gstart(gs, k) + width_of(gs[k])
}

/// Column `x` is the starting column of some grapheme cluster of `s`.
pub open spec fn at_cluster_start(s: Seq<char>, x: int) -> bool {
    exists|k: int| 0 <= k < grapheme_split(s).len() && x == gstart(grapheme_split(s), k)
}

/// A cursor column Insert mode permits on a line: a cluster's starting
/// column, or one past the last column (end of line; also 0 on an empty
/// line).
pub open spec fn valid_insert_col(s: Seq<char>, x: int) -> bool {
    x == width_of(s) || at_cluster_start(s, x)
}

/// A cursor column Normal mode permits: as above, but strictly inside the
/// line unless the line paints no columns at all.
pub open spec fn valid_normal_col(s: Seq<char>, x: int) -> bool {
    x == 0 || (at_cluster_start(s, x) && x < width_of(s))
}

/// Relies on `unicode_width::UnicodeWidthChar::width`: the width is a pure
/// table lookup on the character (`None` for control characters, otherwise
/// 0 to 3 columns — 3 only for U+17D8), so the result is a function of the
/// character alone and never exceeds 3.
#[verifier::external_body]
pub fn width_char(c: char) -> (w: usize)
    ensures
        w == char_width(c),
        w <= 3,
{
    unicode_width::UnicodeWidthChar::width(c).unwrap_or(0)
}

/// Relies on `unicode_segmentation::UnicodeSegmentation::graphemes` (extended
/// grapheme clusters, UAX #29): the clusters are a function of the text
/// alone, each cluster is nonempty, and concatenated in order they give back
/// exactly the text.
#[verifier::external_body]
pub fn graphemes(line: &Vec<char>) -> (r: Vec<Vec<char>>)
    ensures
        r@.map_values(|g: Vec<char>| g@) == grapheme_split(line@),
        r@.map_values(|g: Vec<char>| g@).flatten() == line@,
        forall|i: int| 0 <= i < r@.len() ==> r@[i]@.len() > 0,
{
    let s: String = line.iter().collect();
    s.graphemes(true).map(|g| g.chars().collect()).collect()
}

/// Display width of a whole text, computed character by character.
pub fn width(text: &Vec<char>) -> (w: usize)
    requires
        text@.len() <= MAX_TEXT,
    ensures
        w == width_of(text@),
        w <= 3 * text@.len(),
{
    let mut acc: usize = 0;
    let mut i: usize = 0;
    while i < text.len()
        invariant
            i <= text@.len(),
            text@.len() <= MAX_TEXT,
            acc == width_of(text@.take(i as int)),
            acc <= 3 * i,
        decreases text@.len() - i,
    {
        let cw = width_char(text[i]);
        proof {
            lemma_width_take_step(text@, i as int);
        }
        acc = acc + cw;
        i = i + 1;
    }
    proof {
        assert(text@.take(text@.len() as int) =~= text@);
    }
    acc
}

/// One step of a prefix width: taking one more character adds its width.
pub proof fn lemma_width_take_step(s: Seq<char>, i: int)
    requires
        0 <= i < s.len(),
    ensures
        width_of(s.take(i + 1)) == width_of(s.take(i)) + char_width(s[i]),
{
    assert(s.take(i + 1).drop_last() =~= s.take(i));
    assert(s.take(i + 1).last() == s[i]);
}

/// Width distributes over concatenation.
pub proof fn lemma_width_concat(a: Seq<char>, b: Seq<char>)
    ensures
        width_of(a + b) == width_of(a) + width_of(b),
    decreases b.len(),
{
    if b.len() == 0 {
        assert(a + b =~= a);
    } else {
        lemma_width_concat(a, b.drop_last());
        assert((a + b).drop_last() =~= a + b.drop_last());
        assert((a + b).last() == b.last());
    }
}

/// Cluster starts and offsets only read the clusters before `k`.
pub proof fn lemma_same_prefix(a: Seq<Seq<char>>, b: Seq<Seq<char>>, k: int)
    requires
        forall|j: int| 0 <= j < k ==> a[j] == b[j],
    ensures
        gstart(a, k) == gstart(b, k),
        goff(a, k) == goff(b, k),
    decreases k,
{
    if k > 0 {
        lemma_same_prefix(a, b, k - 1);
    }
}

/// Cluster start columns and offsets grow with the index; moreover a whole
/// cluster's span lies before any later cluster's start.
pub proof fn lemma_gstart_mono(gs: Seq<Seq<char>>, k1: int, k2: int)
    requires
        0 <= k1 <= k2,
    ensures
        gstart(gs, k1) <= gstart(gs, k2),
        goff(gs, k1) <= goff(gs, k2),
        k1 < k2 ==> gstart(gs, k1) + width_of(gs[k1]) <= gstart(gs, k2),
        k1 < k2 ==> goff(gs, k1) + gs[k1].len() <= goff(gs, k2),
    decreases k2,
{
    if k1 < k2 {
        lemma_gstart_mono(gs, k1, k2 - 1);
    }
}

/// The start column and offset past the last cluster are the flattened
/// text's total width and length.
pub proof fn lemma_gs_totals(gs: Seq<Seq<char>>)
    ensures
        width_of(gs.flatten()) == gstart(gs, gs.len() as int),
        gs.flatten().len() == goff(gs, gs.len() as int),
    decreases gs.len(),
{
    gs.lemma_flatten_and_flatten_alt_are_equivalent();
    if gs.len() > 0 {
        let dl = gs.drop_last();
        lemma_gs_totals(dl);
        dl.lemma_flatten_and_flatten_alt_are_equivalent();
        assert(gs.flatten_alt() == dl.flatten_alt() + gs.last());
        lemma_width_concat(dl.flatten(), gs.last());
        lemma_same_prefix(dl, gs, gs.len() - 1);
    }
}

/// Any one cluster is no longer and no wider than the whole text.
pub proof fn lemma_part_le_total(gs: Seq<Seq<char>>, i: int)
    requires
        0 <= i < gs.len(),
    ensures
        gs[i].len() <= gs.flatten().len(),
        width_of(gs[i]) <= width_of(gs.flatten()),
{
    lemma_gs_totals(gs);
    lemma_gstart_mono(gs, i, i + 1);
    lemma_gstart_mono(gs, i + 1, gs.len() as int);
}

/// Every column left of the total width lies in some cluster's span.
pub proof fn lemma_cover_exists(gs: Seq<Seq<char>>, x: int, n: int)
    requires
        0 <= n <= gs.len(),
        0 <= x < gstart(gs, n),
    ensures
        exists|k: int| covers(gs, k, x),
    decreases n,
{
    if x >= gstart(gs, n - 1) {
        assert(covers(gs, n - 1, x));
    } else {
        lemma_cover_exists(gs, x, n - 1);
    }
}

/// Cluster spans are disjoint: a column lies in at most one.
pub proof fn lemma_cover_unique(gs: Seq<Seq<char>>, k1: int, k2: int, x: int)
    requires
        covers(gs, k1, x),
        covers(gs, k2, x),
    ensures
        k1 == k2,
{
    if k1 < k2 {
        lemma_gstart_mono(gs, k1, k2);
    }
    if k2 < k1 {
        lemma_gstart_mono(gs, k2, k1);
    }
}

/// If a cluster-start column lies in some cluster's span, it is that very
/// cluster's start column (clusters of width zero share their start with the
/// cluster the column falls in).
pub proof fn lemma_start_cover(gs: Seq<Seq<char>>, k: int, j: int, x: int)
    requires
        covers(gs, k, x),
        0 <= j < gs.len(),
        x == gstart(gs, j),
    ensures
        gstart(gs, k) == x,
{
    if j < k {
        lemma_gstart_mono(gs, j, k);
    }
    if k < j {
        lemma_gstart_mono(gs, k, j);
    }
}

/// A cluster is the slice of the flattened text between its start offset and
/// the next cluster's start offset.
pub proof fn lemma_cluster_slice(gs: Seq<Seq<char>>, k: int)
    requires
        0 <= k < gs.len(),
    ensures
        gs.flatten().subrange(
            goff(gs, k) as int,
            goff(gs, k) + gs[k].len() as int,
        ) == gs[k],
        goff(gs, k) + gs[k].len() <= gs.flatten().len(),
{
    let a = gs.take(k);
    let mid = seq![gs[k]];
    let c = gs.skip(k + 1);
    assert(gs =~= a + mid + c);
    vstd::seq_lib::lemma_flatten_concat(a + mid, c);
    vstd::seq_lib::lemma_flatten_concat(a, mid);
    mid.lemma_flatten_one_element();
    assert((a + mid + c).flatten() == a.flatten() + gs[k] + c.flatten());
    lemma_gs_totals(a);
    lemma_same_prefix(a, gs, k);
    assert(a.flatten().len() == goff(gs, k));
    assert(gs.flatten().subrange(goff(gs, k) as int, goff(gs, k) + gs[k].len() as int) =~= gs[k]);
}

/// The segmentation facts every caller of [`graphemes`] may rely on: the
/// clusters concatenate back to the text and each is nonempty.
pub open spec fn gs_fact(s: Seq<char>) -> bool {
    &&& grapheme_split(s).flatten() == s
    &&& forall|j: int| 0 <= j < grapheme_split(s).len() ==> grapheme_split(s)[j].len() > 0
}

/// The index of the cluster whose span contains column `x` (meaningful only
/// when some cluster covers `x`, which holds exactly for
/// `0 <= x < width_of(s)`).
pub open spec fn cover_idx(s: Seq<char>, x: int) -> int {
    choose|k: int| covers(grapheme_split(s), k, x)
}

/// Any covering cluster is the one `cover_idx` picks.
pub proof fn lemma_cover_idx(s: Seq<char>, k: int, x: int)
    requires
        covers(grapheme_split(s), k, x),
    ensures
        cover_idx(s, x) == k,
{
    assert(exists|j: int| covers(grapheme_split(s), j, x));
    lemma_cover_unique(grapheme_split(s), k, cover_idx(s, x), x);
}

/// The cluster found at a display column: its index, start column, start
/// character offset, display width and character length.
#[derive(Clone, Copy)]
pub struct GraphemeAt {
    pub index: usize,
    pub start: usize,
    pub offset: usize,
    pub width: usize,
    pub len: usize,
}

impl GraphemeAt {
    /// The fields describe cluster `index` of `s`, whose span contains
    /// column `x`.
    pub open spec fn describes(self, s: Seq<char>, x: int) -> bool {
        let gs = grapheme_split(s);
        &&& self.index == cover_idx(s, x)
        &&& covers(gs, self.index as int, x)
        &&& self.start == gstart(gs, self.index as int)
        &&& self.offset == goff(gs, self.index as int)
        &&& self.width == width_of(gs[self.index as int])
        &&& self.len == gs[self.index as int].len()
        &&& self.len > 0
    }
}

/// Finds the grapheme cluster whose column span contains display column `x`,
/// or `None` when `x` is at or past the text's total width.
pub fn grapheme_scan(line: &Vec<char>, x: usize) -> (r: Option<GraphemeAt>)
    requires
        line@.len() <= MAX_TEXT,
    ensures
        gs_fact(line@),
        match r {
            Some(g) => {
                &&& g.describes(line@, x as int)
                &&& x < width_of(line@)
                &&& g.start <= 3 * g.offset
                &&& g.width <= 3 * g.len
                &&& g.offset + g.len <= line@.len()
            },
            None => x >= width_of(line@),
        },
{
    let gs = graphemes(line);
    let ghost gsv = gs@.map_values(|g: Vec<char>| g@);
    proof {
        assert forall|j: int| 0 <= j < gsv.len() implies gsv[j].len() > 0 by {
            assert(gsv[j] == gs@[j]@);
        }
        lemma_gs_totals(gsv);
    }
    let mut i: usize = 0;
    let mut col: usize = 0;
    let mut off: usize = 0;
    while i < gs.len()
        invariant
            gsv == grapheme_split(line@),
            gsv.flatten() == line@,
            forall|j: int| 0 <= j < gsv.len() ==> gsv[j].len() > 0,
            gsv == gs@.map_values(|g: Vec<char>| g@),
            line@.len() <= MAX_TEXT,
            i <= gs@.len(),
            col == gstart(gsv, i as int),
            off == goff(gsv, i as int),
            col <= 3 * off,
            off <= line@.len(),
            forall|j: int| 0 <= j < i ==> gstart(gsv, j) + width_of(gsv[j]) <= x,
        decreases gs@.len() - i,
    {
        proof {
            lemma_part_le_total(gsv, i as int);
            lemma_gs_totals(gsv);
            lemma_gstart_mono(gsv, i as int + 1, gsv.len() as int);
        }
        let w = width(&gs[i]);
        let l = gs[i].len();
        if col + w > x {
            proof {
                if i > 0 {
                    assert(gstart(gsv, i - 1) + width_of(gsv[i - 1]) <= x);
                }
                assert(covers(gsv, i as int, x as int));
                lemma_cover_idx(line@, i as int, x as int);
                assert(off + l == goff(gsv, i as int + 1));
            }
            return Some(GraphemeAt { index: i, start: col, offset: off, width: w, len: l });
        }
        col = col + w;
        off = off + l;
        i = i + 1;
    }
    proof {
        lemma_gs_totals(gsv);
        if gsv.len() > 0 {
            assert(gstart(gsv, gsv.len() - 1) + width_of(gsv[gsv.len() - 1]) <= x);
        }
    }
    None
}

/// Appends all characters of `src` to `dst`.
pub fn append_chars(dst: &mut Vec<char>, src: &Vec<char>)
    ensures
        final(dst)@ == old(dst)@ + src@,
{
    let mut i: usize = 0;
    while i < src.len()
        invariant
            i <= src@.len(),
            dst@ == old(dst)@ + src@.take(i as int),
        decreases src@.len() - i,
    {
        dst.push(src[i]);
        proof {
            assert(old(dst)@ + src@.take(i + 1) =~= (old(dst)@ + src@.take(i as int)).push(
                src@[i as int],
            ));
        }
        i = i + 1;
    }
    proof {
        assert(src@.take(src@.len() as int) =~= src@);
    }
}

/// A copy of a character vector.
pub fn clone_chars(src: &Vec<char>) -> (r: Vec<char>)
    ensures
        r@ == src@,
{
    let mut r: Vec<char> = Vec::new();
    append_chars(&mut r, src);
    proof {
        assert(Seq::<char>::empty() + src@ =~= src@);
    }
    r
}

/// Whether two texts hold the same characters.
pub fn text_eq(a: &Vec<char>, b: &Vec<char>) -> (r: bool)
    ensures
        r == (a@ == b@),
{
    if a.len() != b.len() {
        proof {
            assert(a@.len() != b@.len());
        }
        return false;
    }
    let mut i: usize = 0;
    while i < a.len()
        invariant
            a@.len() == b@.len(),
            i <= a@.len(),
            forall|j: int| 0 <= j < i ==> a@[j] == b@[j],
        decreases a@.len() - i,
    {
        if a[i] != b[i] {
            return false;
        }
        i = i + 1;
    }
    proof {
        assert(a@ =~= b@);
    }
    true
}

/// The starting character offset of cluster number `index`, or 0 when there
/// is no such cluster.
pub fn byte_index_for_grapheme_index(text: &Vec<char>, index: usize) -> (r: usize)
    ensures
        r == if index < grapheme_split(text@).len() {
            goff(grapheme_split(text@), index as int)
        } else {
            0
        },
{
    let gs = graphemes(text);
    let ghost gsv = gs@.map_values(|g: Vec<char>| g@);
    proof {
        lemma_gs_totals(gsv);
    }
    if index >= gs.len() {
        return 0;
    }
    let n = text.len();
    let mut i: usize = 0;
    let mut off: usize = 0;
    while i < index
        invariant
            gsv == grapheme_split(text@),
            gsv.flatten() == text@,
            gsv == gs@.map_values(|g: Vec<char>| g@),
            index < gs@.len(),
            n == text@.len(),
            i <= index,
            off == goff(gsv, i as int),
            off <= n,
        decreases index - i,
    {
        proof {
            lemma_gs_totals(gsv);
            lemma_gstart_mono(gsv, i as int + 1, gsv.len() as int);
            assert(off + gsv[i as int].len() == goff(gsv, i as int + 1));
        }
        off = off + gs[i].len();
        i = i + 1;
    }
    off
}

} // verus!
