//! Putting the shaped runs of a row into visual order.
//!
//! Text is shaped in logical order, one font run per bidi level, and each
//! run in its own direction; the runs still sit left to right in logical
//! order. What moves them is decided here, on what the reordering reads of
//! each glyph: which character it starts, whether it is a zero-width
//! stand-in, and where its quad sits in the row's mesh. The positions, in
//! points, are moved by the caller.

use vstd::prelude::*;

use vstd::string::StringSliceAdditionalSpecFns;

use crate::bidi::{
    bidi_category, char_width, lemma_utf8_length_adds, lemma_utf8_length_is_encoded_length,
    strong_rtl, utf8_length, width_of, BidiCategory,
};
use crate::text::{chars_of, string_from_chars};

verus! {

/// What the reordering reads of one shaped glyph.
#[derive(Clone, Copy, Debug, PartialEq, Eq, Structural)]
pub struct ShapedGlyph {
    /// The byte offset, in the laid-out text, of the character the glyph
    /// starts.
    pub cluster: u32,
    /// That character.
    pub chr: char,
    /// Whether the glyph advances the pen by nothing.
    pub zero_width: bool,
    /// Whether the glyph draws a quad: four vertices in the row's mesh.
    pub has_quad: bool,
    /// Whether an earlier pass flagged the glyph right to left.
    pub rtl: bool,
    /// Where the glyph's quad starts in the row's mesh.
    pub first_vertex: u32,
}

/// A zero-width stand-in for a character that the shaped cluster before it
/// covers, as a ligature such as لا leaves behind.
pub open spec fn continues(g: ShapedGlyph) -> bool {
    g.zero_width && !g.has_quad
}

/// Whether the glyph at `k` belongs to the shaped cluster that starts at
/// `start`.
pub open spec fn joins(gs: Seq<ShapedGlyph>, start: int, k: int) -> bool {
    gs[k].cluster == gs[start].cluster || continues(gs[k])
}

/// The end of the cluster that starts at `start`, looking from `end` on.
pub open spec fn cluster_end_from(gs: Seq<ShapedGlyph>, start: int, end: int) -> int
    decreases gs.len() - end,
{
    if end < gs.len() && joins(gs, start, end) {
        cluster_end_from(gs, start, end + 1)
    } else {
        end
    }
}

/// The end of the shaped cluster that starts at `start`: the glyphs after
/// it that share its character, or stand in for one it covers.
pub open spec fn cluster_end(gs: Seq<ShapedGlyph>, start: int) -> int {
    cluster_end_from(gs, start, start + 1)
}

proof fn lemma_cluster_end_from(gs: Seq<ShapedGlyph>, start: int, end: int)
    ensures
        cluster_end_from(gs, start, end) >= end,
        end <= gs.len() ==> cluster_end_from(gs, start, end) <= gs.len(),
        forall|k: int| end <= k < cluster_end_from(gs, start, end) ==> joins(gs, start, k),
        cluster_end_from(gs, start, end) < gs.len() ==> !joins(
            gs,
            start,
            cluster_end_from(gs, start, end),
        ),
    decreases gs.len() - end,
{
    if end < gs.len() && joins(gs, start, end) {
        lemma_cluster_end_from(gs, start, end + 1);
    }
}

/// A cluster holds at least the glyph it starts with, and ends within the
/// row.
pub proof fn lemma_cluster_end(gs: Seq<ShapedGlyph>, start: int)
    requires
        0 <= start < gs.len(),
    ensures
        start < cluster_end(gs, start) <= gs.len(),
{
    lemma_cluster_end_from(gs, start, start + 1);
}

/// Where a right-to-left run that shaping already put in order ends,
/// starting from the cluster `previous`, whose next cluster starts at `end`:
/// the run goes on while each cluster starts at a smaller offset than the
/// one before it.
pub open spec fn descent_end(gs: Seq<ShapedGlyph>, previous: int, end: int) -> int
    decreases gs.len() - end,
{
    if 0 <= previous < end < gs.len() && gs[end].cluster < gs[previous].cluster {
        proof {
            lemma_cluster_end(gs, end);
        }
        descent_end(gs, end, cluster_end(gs, end))
    } else {
        end
    }
}

/// The end of the run that starts at `start` when shaping placed it right
/// to left: its clusters descend. A single cluster is no such run.
pub open spec fn rtl_run(gs: Seq<ShapedGlyph>, start: int) -> Option<int> {
    let end = cluster_end(gs, start);
    if end >= gs.len() || gs[end].cluster >= gs[start].cluster {
        None
    } else {
        Some(descent_end(gs, start, end))
    }
}

proof fn lemma_descent_end(gs: Seq<ShapedGlyph>, previous: int, end: int)
    requires
        0 <= previous < end <= gs.len(),
    ensures
        end <= descent_end(gs, previous, end) <= gs.len(),
    decreases gs.len() - end,
{
    if end < gs.len() && gs[end].cluster < gs[previous].cluster {
        lemma_cluster_end(gs, end);
        lemma_descent_end(gs, end, cluster_end(gs, end));
    }
}

proof fn lemma_rtl_run(gs: Seq<ShapedGlyph>, start: int)
    requires
        0 <= start < gs.len(),
    ensures
        rtl_run(gs, start) matches Some(end) ==> start < end <= gs.len(),
{
    lemma_cluster_end(gs, start);
    if let Some(end) = rtl_run(gs, start) {
        lemma_descent_end(gs, start, cluster_end(gs, start));
    }
}

fn same_cluster_end(gs: &[ShapedGlyph], start: usize) -> (end: usize)
    requires
        start < gs@.len(),
    ensures
        end == cluster_end(gs@, start as int),
{
    let n = gs.len();
    let mut end = start + 1;
    while end < n && (gs[end].cluster == gs[start].cluster || (gs[end].zero_width
        && !gs[end].has_quad))
        invariant
            start < end <= gs@.len(),
            n == gs@.len(),
            cluster_end_from(gs@, start as int, end as int) == cluster_end(gs@, start as int),
        decreases gs@.len() - end,
    {
        end += 1;
    }
    end
}

fn rtl_run_end(gs: &[ShapedGlyph], start: usize) -> (r: Option<usize>)
    requires
        start < gs@.len(),
    ensures
        match r {
            Some(end) => rtl_run(gs@, start as int) == Some(end as int),
            None => rtl_run(gs@, start as int) is None,
        },
{
    let mut previous = start;
    let mut end = same_cluster_end(gs, start);
    proof {
        lemma_cluster_end(gs@, start as int);
    }
    if end >= gs.len() || gs[end].cluster >= gs[previous].cluster {
        return None;
    }
    while end < gs.len() && gs[end].cluster < gs[previous].cluster
        invariant
            previous < end <= gs@.len(),
            descent_end(gs@, previous as int, end as int) == descent_end(
                gs@,
                start as int,
                cluster_end(gs@, start as int),
            ),
        decreases gs@.len() - end,
    {
        previous = end;
        end = same_cluster_end(gs, end);
        proof {
            lemma_cluster_end(gs@, previous as int);
        }
    }
    Some(end)
}

/// The visual position of glyph `i`, where the caller gave one; glyphs
/// without one sort last.
pub open spec fn key_at(keys: Seq<usize>, i: int) -> int {
    if 0 <= i < keys.len() {
        keys[i] as int
    } else {
        usize::MAX as int
    }
}

/// Where a left-to-right run that reached `i`, with `previous` the visual
/// position of its last glyph, ends: before a right-to-left run or letter,
/// or before the first glyph that sits further left on screen than the one
/// before it.
pub open spec fn ltr_end(gs: Seq<ShapedGlyph>, keys: Seq<usize>, i: int, previous: int) -> int
    decreases gs.len() - i,
{
    if 0 <= i < gs.len() && rtl_run(gs, i) is None && !strong_rtl(gs[i].chr) && key_at(keys, i)
        >= previous {
        ltr_end(gs, keys, i + 1, key_at(keys, i))
    } else {
        i
    }
}

/// Where the block of glyphs that moves together, starting at `start`,
/// ends: a right-to-left run that shaping ordered, else one cluster of a
/// right-to-left letter, else a left-to-right run whose visual order
/// matches the buffer.
pub open spec fn atom_end(gs: Seq<ShapedGlyph>, keys: Seq<usize>, start: int) -> int {
    match rtl_run(gs, start) {
        Some(end) => end,
        None => if strong_rtl(gs[start].chr) {
            cluster_end(gs, start)
        } else {
            ltr_end(gs, keys, start + 1, key_at(keys, start))
        },
    }
}

proof fn lemma_ltr_end(gs: Seq<ShapedGlyph>, keys: Seq<usize>, i: int, previous: int)
    requires
        0 <= i <= gs.len(),
    ensures
        i <= ltr_end(gs, keys, i, previous) <= gs.len(),
    decreases gs.len() - i,
{
    if 0 <= i < gs.len() && rtl_run(gs, i) is None && !strong_rtl(gs[i].chr) && key_at(keys, i)
        >= previous {
        lemma_ltr_end(gs, keys, i + 1, key_at(keys, i));
    }
}

/// A block holds at least the glyph it starts with, and ends within the row.
pub proof fn lemma_atom_end(gs: Seq<ShapedGlyph>, keys: Seq<usize>, start: int)
    requires
        0 <= start < gs.len(),
    ensures
        start < atom_end(gs, keys, start) <= gs.len(),
{
    lemma_rtl_run(gs, start);
    lemma_cluster_end(gs, start);
    lemma_ltr_end(gs, keys, start + 1, key_at(keys, start));
}

/// The blocks of glyphs that move together, from `start` on, as ranges of
/// glyph positions.
pub open spec fn atoms_from(gs: Seq<ShapedGlyph>, keys: Seq<usize>, start: int) -> Seq<(int, int)>
    decreases gs.len() - start,
{
    if 0 <= start < gs.len() {
        proof {
            lemma_atom_end(gs, keys, start);
        }
        seq![(start, atom_end(gs, keys, start))] + atoms_from(gs, keys, atom_end(gs, keys, start))
    } else {
        Seq::empty()
    }
}

/// The blocks of glyphs that move together.
pub open spec fn atoms(gs: Seq<ShapedGlyph>, keys: Seq<usize>) -> Seq<(int, int)> {
    atoms_from(gs, keys, 0)
}

fn is_strong_rtl(c: char) -> (r: bool)
    ensures
        r == strong_rtl(c),
{
    let k = bidi_category(c);
    k == BidiCategory::R || k == BidiCategory::AL
}

fn key_of(keys: &[usize], i: usize) -> (k: usize)
    ensures
        k as int == key_at(keys@, i as int),
{
    if i < keys.len() {
        keys[i]
    } else {
        usize::MAX
    }
}

/// Splits a row's glyphs into the blocks that move together, as ranges of
/// glyph positions, given each glyph's visual position in `keys`.
///
/// A descending cluster sequence is one font run that shaping already put
/// right to left, and splitting it would reverse its letters a second time.
/// A single right-to-left letter has no descent, so it stays a block of its
/// own and can still move past the space beside it. A left-to-right run
/// stays together only while its visual order matches the buffer.
pub fn split_atoms(gs: &[ShapedGlyph], keys: &[usize]) -> (r: Vec<(usize, usize)>)
    ensures
        r@.len() == atoms(gs@, keys@).len(),
        forall|i: int|
            0 <= i < r@.len() ==> r@[i].0 as int == atoms(gs@, keys@)[i].0 && r@[i].1 as int
                == atoms(gs@, keys@)[i].1,
{
    let mut out: Vec<(usize, usize)> = Vec::new();
    let ghost taken: Seq<(int, int)> = Seq::empty();
    let mut index: usize = 0;
    while index < gs.len()
        invariant
            index <= gs@.len(),
            out@.len() == taken.len(),
            forall|i: int|
                0 <= i < out@.len() ==> out@[i].0 as int == taken[i].0 && out@[i].1 as int
                    == taken[i].1,
            taken + atoms_from(gs@, keys@, index as int) == atoms(gs@, keys@),
        decreases gs@.len() - index,
    {
        proof {
            lemma_atom_end(gs@, keys@, index as int);
            lemma_rtl_run(gs@, index as int);
            lemma_cluster_end(gs@, index as int);
        }
        let start = index;
        let end = match rtl_run_end(gs, index) {
            Some(end) => end,
            None => if is_strong_rtl(gs[index].chr) {
                same_cluster_end(gs, index)
            } else {
                let mut previous = key_of(keys, index);
                let mut i = index + 1;
                while i < gs.len() && rtl_run_end(gs, i).is_none() && !is_strong_rtl(gs[i].chr)
                    && key_of(keys, i) >= previous
                    invariant
                        start < i <= gs@.len(),
                        ltr_end(gs@, keys@, i as int, previous as int) == atom_end(
                            gs@,
                            keys@,
                            start as int,
                        ),
                    decreases gs@.len() - i,
                {
                    previous = key_of(keys, i);
                    i += 1;
                }
                i
            },
        };
        assert(end as int == atom_end(gs@, keys@, start as int));
        proof {
            let next = atoms_from(gs@, keys@, end as int);
            assert(atoms_from(gs@, keys@, start as int) == seq![(start as int, end as int)] + next);
            assert(taken + atoms_from(gs@, keys@, start as int) =~= taken.push(
                (start as int, end as int),
            ) + next);
            taken = taken.push((start as int, end as int));
        }
        out.push((start, end));
        index = end;
    }
    proof {
        assert(atoms_from(gs@, keys@, index as int) =~= Seq::<(int, int)>::empty());
        assert(taken + Seq::<(int, int)>::empty() =~= taken);
    }
    out
}

/// The blocks cover the row's glyphs in order, each block at least one
/// glyph, each starting where the one before it ends.
pub proof fn atoms_cover_the_row(gs: Seq<ShapedGlyph>, keys: Seq<usize>)
    ensures
        gs.len() == 0 ==> atoms(gs, keys).len() == 0,
        gs.len() > 0 ==> {
            &&& atoms(gs, keys).len() > 0
            &&& atoms(gs, keys)[0].0 == 0
            &&& atoms(gs, keys).last().1 == gs.len()
        },
        forall|i: int|
            0 <= i < atoms(gs, keys).len() ==> 0 <= #[trigger] atoms(gs, keys)[i].0 < atoms(
                gs,
                keys,
            )[i].1 <= gs.len(),
        forall|i: int|
            0 <= i < atoms(gs, keys).len() - 1 ==> #[trigger] atoms(gs, keys)[i].1 == atoms(
                gs,
                keys,
            )[i + 1].0,
{
    lemma_atoms_from_cover(gs, keys, 0);
}

proof fn lemma_atoms_from_cover(gs: Seq<ShapedGlyph>, keys: Seq<usize>, start: int)
    requires
        0 <= start <= gs.len(),
    ensures
        start == gs.len() ==> atoms_from(gs, keys, start).len() == 0,
        start < gs.len() ==> {
            &&& atoms_from(gs, keys, start).len() > 0
            &&& atoms_from(gs, keys, start)[0].0 == start
            &&& atoms_from(gs, keys, start).last().1 == gs.len()
        },
        forall|i: int|
            0 <= i < atoms_from(gs, keys, start).len() ==> start <= #[trigger] atoms_from(
                gs,
                keys,
                start,
            )[i].0 < atoms_from(gs, keys, start)[i].1 <= gs.len(),
        forall|i: int|
            0 <= i < atoms_from(gs, keys, start).len() - 1 ==> #[trigger] atoms_from(
                gs,
                keys,
                start,
            )[i].1 == atoms_from(gs, keys, start)[i + 1].0,
    decreases gs.len() - start,
{
    if start < gs.len() {
        lemma_atom_end(gs, keys, start);
        let end = atom_end(gs, keys, start);
        lemma_atoms_from_cover(gs, keys, end);
        let rest = atoms_from(gs, keys, end);
        let all = atoms_from(gs, keys, start);
        assert(all == seq![(start, end)] + rest);
        assert forall|i: int| 0 <= i < all.len() implies start <= #[trigger] all[i].0 < all[i].1
            <= gs.len() by {
            if i > 0 {
                assert(all[i] == rest[i - 1]);
            }
        }
        assert forall|i: int| 0 <= i < all.len() - 1 implies #[trigger] all[i].1 == all[i + 1].0 by {
            assert(all[i + 1] == rest[i]);
            if i > 0 {
                assert(all[i] == rest[i - 1]);
            } else if end < gs.len() {
                assert(rest[0].0 == end);
            }
        }
        if end == gs.len() {
            assert(rest.len() == 0);
            assert(all.last() == (start, end));
        } else {
            assert(all.last() == rest.last());
        }
    }
}

/// Whether an earlier pass already stored the row in logical order with its
/// directions: some glyph is flagged right to left, and the clusters never
/// go back.
pub fn already_visual(gs: &[ShapedGlyph]) -> (r: bool)
    ensures
        r == ((exists|i: int| 0 <= i < gs@.len() && #[trigger] gs@[i].rtl) && forall|i: int|
            0 <= i < gs@.len() - 1 ==> #[trigger] gs@[i].cluster <= gs@[i + 1].cluster),
{
    let n = gs.len();
    let mut any_rtl = false;
    let mut i: usize = 0;
    while i < n
        invariant
            n == gs@.len(),
            i <= n,
            any_rtl == exists|j: int| 0 <= j < i && #[trigger] gs@[j].rtl,
        decreases n - i,
    {
        if gs[i].rtl {
            any_rtl = true;
        }
        i += 1;
    }
    if !any_rtl {
        return false;
    }
    let mut k: usize = 1;
    while k < n
        invariant
            n == gs@.len(),
            1 <= k,
            k <= n || n == 0,
            forall|j: int| 0 <= j < k - 1 && j < n - 1 ==> #[trigger] gs@[j].cluster <= gs@[j + 1].cluster,
        decreases n - k,
    {
        if gs[k - 1].cluster > gs[k].cluster {
            return false;
        }
        k += 1;
    }
    true
}

/// Where the character at `i` of `s` starts, in bytes of UTF-8.
pub open spec fn byte_offset(s: Seq<char>, i: int) -> nat {
    utf8_length(s.take(i))
}

proof fn lemma_offsets_rise(s: Seq<char>, j: int, i: int)
    requires
        0 <= j < i <= s.len(),
    ensures
        byte_offset(s, j) + char_width(s[j]) <= byte_offset(s, i),
{
    lemma_utf8_length_adds(s.take(j), s.subrange(j, i));
    assert(s.take(j) + s.subrange(j, i) =~= s.take(i));
    let rest = s.subrange(j, i);
    assert(rest.drop_first() =~= s.subrange(j + 1, i));
    assert(rest[0] == s[j]);
}

proof fn lemma_offset_step(s: Seq<char>, i: int)
    requires
        0 <= i < s.len(),
    ensures
        byte_offset(s, i + 1) == byte_offset(s, i) + char_width(s[i]),
{
    lemma_utf8_length_adds(s.take(i), seq![s[i]]);
    assert(s.take(i) + seq![s[i]] =~= s.take(i + 1));
    assert(seq![s[i]].drop_first() =~= Seq::<char>::empty());
    assert(utf8_length(Seq::<char>::empty()) == 0);
    assert(utf8_length(seq![s[i]]) == char_width(s[i]));
}

/// The index of the character that starts at each byte offset of `text`,
/// up to and including its end; 0 at offsets where no character starts.
pub fn char_starts(text: &str) -> (r: Vec<usize>)
    requires
        text.spec_bytes().len() < usize::MAX,
    ensures
        r@.len() == utf8_length(text@) + 1,
        forall|i: int| 0 <= i < text@.len() ==> r@[byte_offset(text@, i) as int] == i,
        forall|b: int|
            0 <= b <= utf8_length(text@) && (forall|i: int|
                0 <= i < text@.len() ==> byte_offset(text@, i) != b) ==> r@[b] == 0,
{
    let chars = chars_of(text);
    let n = chars.len();
    proof {
        lemma_utf8_length_is_encoded_length(text@);
        assert(chars@.take(n as int) =~= chars@);
        assert(chars@.take(0) =~= Seq::<char>::empty());
    }
    let mut starts: Vec<usize> = Vec::new();
    let mut total: usize = 0;
    let mut i: usize = 0;
    while i < n
        invariant
            n == chars@.len(),
            chars@ == text@,
            i <= n,
            utf8_length(text@) < usize::MAX,
            byte_offset(chars@, n as int) == utf8_length(text@),
            total == byte_offset(chars@, i as int),
            starts@.len() == total,
            forall|b: int| 0 <= b < starts@.len() ==> starts@[b] == 0,
        decreases n - i,
    {
        proof {
            lemma_offset_step(chars@, i as int);
            lemma_offsets_rise(chars@, i as int, n as int);
        }
        let w = width_of(chars[i]);
        let mut k: usize = 0;
        while k < w
            invariant
                starts@.len() == total + k,
                k <= w,
                forall|b: int| 0 <= b < starts@.len() ==> starts@[b] == 0,
            decreases w - k,
        {
            starts.push(0);
            k += 1;
        }
        total = total + w;
        i += 1;
    }
    starts.push(0);
    let mut at: usize = 0;
    let mut i: usize = 0;
    while i < n
        invariant
            n == chars@.len(),
            chars@ == text@,
            i <= n,
            starts@.len() == utf8_length(text@) + 1,
            utf8_length(text@) < usize::MAX,
            byte_offset(chars@, n as int) == utf8_length(text@),
            at == byte_offset(chars@, i as int),
            forall|j: int| 0 <= j < i ==> starts@[byte_offset(chars@, j) as int] == j,
            forall|b: int|
                0 <= b <= utf8_length(text@) && (forall|j: int|
                    0 <= j < i ==> byte_offset(chars@, j) != b) ==> starts@[b] == 0,
        decreases n - i,
    {
        proof {
            lemma_offset_step(chars@, i as int);
            lemma_offsets_rise(chars@, i as int, n as int);
            assert forall|j: int| 0 <= j < i implies byte_offset(chars@, j) < at by {
                lemma_offsets_rise(chars@, j, i as int);
            }
        }
        starts.set(at, i);
        at = at + width_of(chars[i]);
        i += 1;
    }
    starts
}

/// The order `unicode_bidi` gives characters with these levels:
/// `BidiInfo::reorder_visual`, which lists, for each place on screen, the
/// character shown there.
pub uninterp spec fn visual_map(levels: Seq<u8>) -> Seq<usize>;

/// Calls `BidiInfo::reorder_visual` on levels held as numbers. The
/// contract claims what its source shows of the result: one entry per
/// level, a rearrangement of the positions, and no rearrangement at all
/// where every level is even (left to right): each run it reverses at an
/// even level it reverses again at the odd level below. Which
/// rearrangement otherwise, the bidi algorithm's rule L2, is left to the
/// crate.
#[verifier::external_body]
fn reorder_visual(levels: &[u8]) -> (map: Vec<usize>)
    requires
        forall|i: int| 0 <= i < levels@.len() ==> levels@[i] <= 126,
    ensures
        map@ == visual_map(levels@),
        map@.len() == levels@.len(),
        forall|v: int| 0 <= v < map@.len() ==> map@[v] < map@.len(),
        forall|v: int, w: int| 0 <= v < w < map@.len() ==> map@[v] != map@[w],
        (forall|i: int| 0 <= i < levels@.len() ==> levels@[i] % 2 == 0) ==> forall|v: int|
            0 <= v < map@.len() ==> map@[v] == v,
{
    unicode_bidi::BidiInfo::reorder_visual(&unicode_bidi::Level::vec(levels))
}

/// The visual position of each logical character, for characters at
/// these bidi levels.
pub fn visual_indices(levels: &[u8]) -> (r: Vec<usize>)
    requires
        forall|i: int| 0 <= i < levels@.len() ==> levels@[i] <= 126,
    ensures
        r@.len() == levels@.len(),
        forall|v: int|
            0 <= v < levels@.len() ==> r@[visual_map(levels@)[v] as int] == v,
        (forall|i: int| 0 <= i < levels@.len() ==> levels@[i] % 2 == 0) ==> forall|l: int|
            0 <= l < levels@.len() ==> r@[l] == l,
{
    let map = reorder_visual(levels);
    let n = map.len();
    let mut out: Vec<usize> = Vec::new();
    let mut k: usize = 0;
    while k < n
        invariant
            out@.len() == k,
            k <= n,
        decreases n - k,
    {
        out.push(0);
        k += 1;
    }
    let mut v: usize = 0;
    while v < n
        invariant
            n == map@.len(),
            map@ == visual_map(levels@),
            out@.len() == n,
            v <= n,
            forall|x: int| 0 <= x < map@.len() ==> map@[x] < map@.len(),
            forall|x: int, y: int| 0 <= x < y < map@.len() ==> map@[x] != map@[y],
            forall|x: int| 0 <= x < v ==> out@[map@[x] as int] == x,
        decreases n - v,
    {
        let logical = map[v];
        if logical < n {
            out.set(logical, v);
        }
        v += 1;
    }
    proof {
        if forall|i: int| 0 <= i < levels@.len() ==> levels@[i] % 2 == 0 {
            assert forall|l: int| 0 <= l < levels@.len() implies out@[l] == l by {
                assert(map@[l] == l);
                assert(out@[map@[l] as int] == l);
            }
        }
    }
    out
}

/// Whether a character of `s` starts at byte offset `b`.
pub open spec fn starts_char(s: Seq<char>, b: int) -> bool {
    exists|i: int| 0 <= i < s.len() && byte_offset(s, i) == b
}

/// How many bytes the character of `s` that starts at `b` takes.
pub open spec fn width_at(s: Seq<char>, b: int) -> nat {
    char_width(s[choose|i: int| 0 <= i < s.len() && byte_offset(s, i) == b])
}

proof fn lemma_width_at(s: Seq<char>, i: int)
    requires
        0 <= i < s.len(),
    ensures
        starts_char(s, byte_offset(s, i) as int),
        width_at(s, byte_offset(s, i) as int) == char_width(s[i]),
{
    let b = byte_offset(s, i) as int;
    let j = choose|j: int| 0 <= j < s.len() && byte_offset(s, j) == b;
    if j < i {
        lemma_offsets_rise(s, j, i);
    } else if i < j {
        lemma_offsets_rise(s, i, j);
    }
}

/// The width of the character that starts at each byte offset of `chars`,
/// and 0 where none starts.
fn widths_by_byte(chars: &Vec<char>) -> (t: Vec<usize>)
    requires
        utf8_length(chars@) < usize::MAX,
    ensures
        t@.len() == utf8_length(chars@),
        forall|i: int| 0 <= i < chars@.len() ==> t@[byte_offset(chars@, i) as int] == char_width(chars@[i]),
        forall|b: int| 0 <= b < t@.len() && !starts_char(chars@, b) ==> t@[b] == 0,
{
    let n = chars.len();
    assert(chars@.take(n as int) =~= chars@);
    assert(chars@.take(0) =~= Seq::<char>::empty());
    let mut t: Vec<usize> = Vec::new();
    let mut i: usize = 0;
    while i < n
        invariant
            n == chars@.len(),
            i <= n,
            utf8_length(chars@) < usize::MAX,
            byte_offset(chars@, n as int) == utf8_length(chars@),
            t@.len() == byte_offset(chars@, i as int),
            forall|j: int| 0 <= j < i ==> t@[byte_offset(chars@, j) as int] == char_width(chars@[j]),
            forall|b: int|
                0 <= b < t@.len() && (forall|j: int| 0 <= j < i ==> byte_offset(chars@, j) != b) ==> t@[b]
                    == 0,
        decreases n - i,
    {
        proof {
            lemma_offset_step(chars@, i as int);
            lemma_offsets_rise(chars@, i as int, n as int);
            assert forall|j: int| 0 <= j < i implies byte_offset(chars@, j) < t@.len() by {
                lemma_offsets_rise(chars@, j, i as int);
            }
        }
        let w = width_of(chars[i]);
        let ghost before = t@;
        assert(forall|b: int|
            0 <= b < before.len() && (forall|j: int| 0 <= j < i ==> byte_offset(chars@, j) != b)
                ==> before[b] == 0);
        t.push(w);
        let mut k: usize = 1;
        while k < w
            invariant
                t@.len() == before.len() + k,
                1 <= k <= w,
                w == char_width(chars@[i as int]),
                t@[before.len() as int] == w,
                forall|b: int| 0 <= b < before.len() ==> t@[b] == before[b],
                forall|b: int| before.len() < b < t@.len() ==> t@[b] == 0,
            decreases w - k,
        {
            t.push(0);
            k += 1;
        }
        proof {
            assert forall|b: int|
                0 <= b < t@.len() && (forall|j: int| 0 <= j < i + 1 ==> byte_offset(chars@, j) != b)
                    implies t@[b] == 0 by {
                if b < before.len() {
                    assert forall|j: int| 0 <= j < i implies byte_offset(chars@, j) != b by {
                        assert(0 <= j < i + 1);
                    }
                    assert(before[b] == 0);
                } else if b == before.len() {
                    assert(0 <= i < i + 1);
                    assert(byte_offset(chars@, i as int) != b);
                }
            }
        }
        i += 1;
    }
    proof {
        assert forall|b: int| 0 <= b < t@.len() && !starts_char(chars@, b) implies t@[b] == 0 by {
            assert(forall|j: int| 0 <= j < n ==> byte_offset(chars@, j) != b);
        }
    }
    t
}

/// The byte range of `text` that a row's glyphs cover, from the first
/// character any of them starts to the end of the last; `None` for a row
/// without glyphs, or with a glyph that starts no character of `text`.
pub fn line_span(gs: &[ShapedGlyph], text: &str) -> (r: Option<(usize, usize)>)
    requires
        text.spec_bytes().len() < usize::MAX,
    ensures
        r is None <== gs@.len() == 0,
        r is None <== exists|k: int| 0 <= k < gs@.len() && !starts_char(text@, #[trigger] gs@[k].cluster as int),
        gs@.len() > 0 && (forall|k: int| 0 <= k < gs@.len() ==> starts_char(text@, #[trigger] gs@[k].cluster as int)) ==> (
        r matches Some((start, end)) && {
            &&& forall|k: int| 0 <= k < gs@.len() ==> start <= #[trigger] gs@[k].cluster
            &&& exists|k: int| 0 <= k < gs@.len() && start == #[trigger] gs@[k].cluster
            &&& forall|k: int| 0 <= k < gs@.len() ==> #[trigger] gs@[k].cluster + width_at(text@, gs@[k].cluster as int) <= end
            &&& exists|k: int| 0 <= k < gs@.len() && end == #[trigger] gs@[k].cluster + width_at(text@, gs@[k].cluster as int)
        }),
{
    let n = gs.len();
    if n == 0 {
        return None;
    }
    let chars = chars_of(text);
    proof {
        lemma_utf8_length_is_encoded_length(text@);
    }
    let widths = widths_by_byte(&chars);
    let mut start = gs[0].cluster as usize;
    let mut end: usize = 0;
    let mut k: usize = 0;
    while k < n
        invariant
            n == gs@.len(),
            n > 0,
            k <= n,
            chars@ == text@,
            widths@.len() == utf8_length(chars@),
            utf8_length(chars@) < usize::MAX,
            forall|i: int| 0 <= i < chars@.len() ==> widths@[byte_offset(chars@, i) as int] == char_width(chars@[i]),
            forall|b: int| 0 <= b < widths@.len() && !starts_char(chars@, b) ==> widths@[b] == 0,
            forall|j: int| 0 <= j < k ==> starts_char(text@, #[trigger] gs@[j].cluster as int),
            forall|j: int| 0 <= j < k ==> start <= #[trigger] gs@[j].cluster,
            exists|j: int| 0 <= j < n && start == #[trigger] gs@[j].cluster,
            k > 0 ==> forall|j: int| 0 <= j < k ==> #[trigger] gs@[j].cluster + width_at(text@, gs@[j].cluster as int) <= end,
            k > 0 ==> exists|j: int| 0 <= j < k && end == #[trigger] gs@[j].cluster + width_at(text@, gs@[j].cluster as int),
            end <= widths@.len(),
        decreases n - k,
    {
        let byte = gs[k].cluster as usize;
        if byte >= widths.len() || widths[byte] == 0 {
            proof {
                if starts_char(text@, byte as int) {
                    let i = choose|i: int| 0 <= i < text@.len() && byte_offset(text@, i) == byte;
                    lemma_offsets_rise(chars@, i, chars@.len() as int);
                    assert(chars@.take(chars@.len() as int) =~= chars@);
                    assert(widths@[byte as int] == char_width(chars@[i]));
                }
            }
            return None;
        }
        let w = widths[byte];
        proof {
            assert(starts_char(chars@, byte as int));
            let i = choose|i: int| 0 <= i < chars@.len() && byte_offset(chars@, i) == byte;
            lemma_width_at(chars@, i);
            lemma_offsets_rise(chars@, i, chars@.len() as int);
            assert(chars@.take(chars@.len() as int) =~= chars@);
            assert(w == width_at(text@, byte as int));
        }
        if byte < start {
            start = byte;
        }
        if k == 0 || byte + w > end {
            end = byte + w;
        }
        k += 1;
    }
    Some((start, end))
}

/// The logical index of the character a glyph at byte offset `cluster`
/// starts, in a line that starts at byte `start`, from the line's table of
/// character indices by byte offset.
pub open spec fn logical_at(cluster: u32, start: usize, char_at_byte: Seq<usize>) -> Option<int> {
    if start <= cluster && cluster - start < char_at_byte.len() {
        Some(char_at_byte[cluster - start] as int)
    } else {
        None
    }
}

/// Where the glyph at byte offset `cluster` belongs on screen: the visual
/// position of its character, or the character's own index where the map
/// has none.
pub fn visual_key(cluster: u32, start: usize, char_at_byte: &[usize], visual_of_logical: &[usize]) -> (r:
    Option<usize>)
    ensures
        r == match logical_at(cluster, start, char_at_byte@) {
            Some(l) => Some(
                if l < visual_of_logical@.len() {
                    visual_of_logical@[l]
                } else {
                    l as usize
                },
            ),
            None => None,
        },
{
    let byte = cluster as usize;
    if byte < start || byte - start >= char_at_byte.len() {
        return None;
    }
    let logical = char_at_byte[byte - start];
    if logical < visual_of_logical.len() {
        Some(visual_of_logical[logical])
    } else {
        Some(logical)
    }
}

/// Whether the glyph at byte offset `cluster` is flagged right to left: its
/// character's bidi level is odd.
pub fn reads_rtl_at(cluster: u32, start: usize, char_at_byte: &[usize], levels: &[u8]) -> (r: bool)
    ensures
        r == match logical_at(cluster, start, char_at_byte@) {
            Some(l) => l < levels@.len() && levels@[l] % 2 == 1,
            None => false,
        },
{
    let byte = cluster as usize;
    if byte < start || byte - start >= char_at_byte.len() {
        return false;
    }
    let logical = char_at_byte[byte - start];
    logical < levels.len() && levels[logical] % 2 == 1
}

/// The key a block of glyphs sorts by: the smallest visual position among
/// its glyphs `from..to`, where any has one.
pub fn atom_key(keys: &[Option<usize>], from: usize, to: usize) -> (r: Option<usize>)
    requires
        from <= to <= keys@.len(),
    ensures
        r is None <==> forall|k: int| from <= k < to ==> keys@[k] is None,
        r matches Some(m) ==> (exists|k: int| from <= k < to && keys@[k] == Some(m)) && forall|k: int|
            from <= k < to && #[trigger] keys@[k] is Some ==> m <= keys@[k]->0,
{
    let mut best: Option<usize> = None;
    let mut k = from;
    while k < to
        invariant
            from <= k <= to <= keys@.len(),
            best is None <==> forall|j: int| from <= j < k ==> keys@[j] is None,
            best matches Some(m) ==> (exists|j: int| from <= j < k && keys@[j] == Some(m)) && forall|j: int|
                from <= j < k && #[trigger] keys@[j] is Some ==> m <= keys@[j]->0,
        decreases to - k,
    {
        match keys[k] {
            Some(x) => {
                match best {
                    Some(m) => {
                        if x < m {
                            best = Some(x);
                        }
                    },
                    None => {
                        best = Some(x);
                    },
                }
            },
            None => {},
        }
        k += 1;
    }
    best
}

/// Whether item `i` sorts before item `j`: by the first number of its pair,
/// then the second, then by position, so that equal pairs keep their order.
pub open spec fn sorts_before(pairs: Seq<(usize, usize)>, i: int, j: int) -> bool {
    pairs[i].0 < pairs[j].0 || (pairs[i].0 == pairs[j].0 && (pairs[i].1 < pairs[j].1 || (pairs[i].1
        == pairs[j].1 && i < j)))
}

fn ahead_of(pairs: &[(usize, usize)], e: usize, i: usize) -> (r: bool)
    requires
        e < i < pairs@.len(),
    ensures
        r == sorts_before(pairs@, e as int, i as int),
{
    pairs[e].0 < pairs[i].0 || (pairs[e].0 == pairs[i].0 && pairs[e].1 <= pairs[i].1)
}

/// Whether `order` lists position `j`.
pub open spec fn lists(order: Seq<usize>, j: int) -> bool {
    exists|p: int| 0 <= p < order.len() && order[p] == j
}

/// The positions of `pairs` in sorted order: by the first number, then the
/// second, and equal pairs in the order they come.
pub fn sorted_order(pairs: &[(usize, usize)]) -> (r: Vec<usize>)
    ensures
        r@.len() == pairs@.len(),
        forall|p: int| 0 <= p < r@.len() ==> r@[p] < pairs@.len(),
        forall|p: int, q: int| 0 <= p < q < r@.len() ==> sorts_before(pairs@, r@[p] as int, r@[q] as int),
        forall|j: int| 0 <= j < pairs@.len() ==> #[trigger] lists(r@, j),
{
    let n = pairs.len();
    let mut out: Vec<usize> = Vec::new();
    let mut i: usize = 0;
    while i < n
        invariant
            n == pairs@.len(),
            i <= n,
            out@.len() == i,
            forall|p: int| 0 <= p < out@.len() ==> out@[p] < i,
            forall|p: int, q: int| 0 <= p < q < out@.len() ==> sorts_before(pairs@, out@[p] as int, out@[q] as int),
            forall|j: int| 0 <= j < i ==> #[trigger] lists(out@, j),
        decreases n - i,
    {
        let mut at: usize = 0;
        while at < out.len() && ahead_of(pairs, out[at], i)
            invariant
                n == pairs@.len(),
                i < n,
                at <= out@.len(),
                out@.len() == i,
                forall|p: int| 0 <= p < out@.len() ==> out@[p] < i,
                forall|p: int| 0 <= p < at ==> sorts_before(pairs@, out@[p] as int, i as int),
            decreases out@.len() - at,
        {
            at += 1;
        }
        proof {
            if at < out@.len() {
                let e = out@[at as int];
                assert(sorts_before(pairs@, i as int, e as int));
                assert forall|q: int| at <= q < out@.len() implies sorts_before(pairs@, i as int, out@[q] as int) by {
                    if q > at {
                        assert(sorts_before(pairs@, out@[at as int] as int, out@[q] as int));
                    }
                }
            }
        }
        let ghost old_out = out@;
        out.insert(at, i);
        proof {
            assert(out@[at as int] == i);
            assert forall|j: int| 0 <= j < i + 1 implies #[trigger] lists(out@, j) by {
                if j < i {
                    assert(lists(old_out, j));
                    let p = choose|p: int| 0 <= p < old_out.len() && old_out[p] == j;
                    if p < at {
                        assert(out@[p] == j);
                    } else {
                        assert(out@[p + 1] == j);
                    }
                }
            }
            assert forall|p: int, q: int| 0 <= p < q < out@.len() implies sorts_before(pairs@, out@[p] as int, out@[q] as int) by {
                if q < at {
                    assert(out@[p] == old_out[p] && out@[q] == old_out[q]);
                } else if q == at {
                    assert(out@[p] == old_out[p]);
                } else if p < at {
                    assert(out@[p] == old_out[p] && out@[q] == old_out[q - 1]);
                    assert(sorts_before(pairs@, out@[p] as int, i as int));
                } else if p == at {
                    assert(out@[q] == old_out[q - 1]);
                } else {
                    assert(out@[p] == old_out[p - 1] && out@[q] == old_out[q - 1]);
                }
            }
        }
        i += 1;
    }
    out
}

/// Whether repacking moves glyph `g`'s quad: it draws one, and all four
/// of its vertices lie in a mesh of `vertex_count` vertices.
pub open spec fn moves_quad(g: ShapedGlyph, vertex_count: int) -> bool {
    g.has_quad && g.first_vertex + 4 <= vertex_count
}

/// The vertices of the quads that the first `k` glyphs move, in glyph
/// order.
pub open spec fn packed_sources(gs: Seq<ShapedGlyph>, vertex_count: int, k: int) -> Seq<int>
    decreases k,
{
    if k <= 0 {
        Seq::empty()
    } else {
        let g = gs[k - 1];
        packed_sources(gs, vertex_count, k - 1) + if moves_quad(g, vertex_count) {
            seq![
                g.first_vertex as int,
                g.first_vertex + 1,
                g.first_vertex + 2,
                g.first_vertex + 3,
            ]
        } else {
            Seq::empty()
        }
    }
}

/// How many vertices the quads of the first `k` glyphs take.
pub open spec fn quad_vertices(gs: Seq<ShapedGlyph>, k: int) -> int
    decreases k,
{
    if k <= 0 {
        0
    } else {
        quad_vertices(gs, k - 1) + if gs[k - 1].has_quad {
            4int
        } else {
            0
        }
    }
}

/// Where the quads of the first `k` glyphs move old vertex `i`, packed from
/// `start` on: the place the last of them that covers it gives it.
pub open spec fn packed_place(gs: Seq<ShapedGlyph>, vertex_count: int, start: int, k: int, i: int) -> Option<int>
    decreases k,
{
    if k <= 0 {
        None
    } else {
        let g = gs[k - 1];
        if moves_quad(g, vertex_count) && g.first_vertex <= i < g.first_vertex + 4 {
            Some(start + packed_sources(gs, vertex_count, k - 1).len() + (i - g.first_vertex))
        } else {
            packed_place(gs, vertex_count, start, k - 1, i)
        }
    }
}

/// Where old vertex `i` of a mesh of `vertex_count` vertices, whose glyph
/// quads sat at `start..end`, goes when the quads are packed there in glyph
/// order: vertices after the glyphs shift by the change in length, moved
/// quads go to their packed place, vertices before the glyphs stay, and
/// the rest go nowhere (`u32::MAX`).
pub open spec fn repacked_index(gs: Seq<ShapedGlyph>, vertex_count: int, start: int, end: int, i: int) -> int {
    let packed = packed_sources(gs, vertex_count, gs.len() as int).len();
    if i >= end {
        i + packed - (end - start)
    } else {
        match packed_place(gs, vertex_count, start, gs.len() as int, i) {
            Some(v) => v,
            None => if i < start {
                i
            } else {
                u32::MAX as int
            },
        }
    }
}

proof fn lemma_packed_sources(gs: Seq<ShapedGlyph>, vertex_count: int, k: int)
    requires
        0 <= k <= gs.len(),
    ensures
        packed_sources(gs, vertex_count, k).len() <= 4 * k,
        forall|j: int| 0 <= j < packed_sources(gs, vertex_count, k).len() ==> 0 <= #[trigger] packed_sources(gs, vertex_count, k)[j] < vertex_count,
        0 <= quad_vertices(gs, k) <= 4 * k,
    decreases k,
{
    if k > 0 {
        lemma_packed_sources(gs, vertex_count, k - 1);
    }
}

/// A row's mesh with its glyph quads packed in glyph order.
pub struct Repacked {
    /// For each vertex of the new mesh, the old vertex it copies.
    pub sources: Vec<usize>,
    /// For each old vertex, where it went: `u32::MAX` where nowhere.
    pub remap: Vec<u32>,
    /// Where each glyph's quad starts in the new mesh.
    pub first_vertices: Vec<u32>,
    /// Where the glyph vertices lie in the new mesh.
    pub glyph_range: (usize, usize),
}

/// Packs the glyph quads of a row whose glyphs are back in logical order,
/// so that the vertices of a selection stay one contiguous range. The mesh
/// has `vertex_count` vertices, with the glyph quads at `range`; `None`
/// where that range does not lie in the mesh, which is then left alone.
pub fn repack_glyph_vertices(vertex_count: usize, range: (usize, usize), gs: &[ShapedGlyph]) -> (r:
    Option<Repacked>)
    requires
        vertex_count + 4 * gs@.len() <= u32::MAX,
    ensures
        r is None <==> range.0 > range.1 || range.1 > vertex_count,
        r matches Some(p) ==> {
            let packed = packed_sources(gs@, vertex_count as int, gs@.len() as int);
            &&& p.sources@.len() == range.0 + packed.len() + (vertex_count - range.1)
            &&& forall|i: int| 0 <= i < range.0 ==> p.sources@[i] == i
            &&& forall|j: int| 0 <= j < packed.len() ==> p.sources@[range.0 + j] == packed[j]
            &&& forall|x: int|
                range.0 + packed.len() <= x < p.sources@.len() ==> p.sources@[x] == range.1 + (x
                    - range.0 - packed.len())
            &&& p.remap@.len() == vertex_count
            &&& forall|i: int|
                0 <= i < vertex_count ==> p.remap@[i] == repacked_index(
                    gs@,
                    vertex_count as int,
                    range.0 as int,
                    range.1 as int,
                    i,
                )
            &&& p.first_vertices@.len() == gs@.len()
            &&& forall|k: int|
                0 <= k < gs@.len() ==> p.first_vertices@[k] == range.0 + packed_sources(
                    gs@,
                    vertex_count as int,
                    k,
                ).len()
            &&& p.glyph_range == (range.0, (range.0 + quad_vertices(gs@, gs@.len() as int)) as usize)
        },
{
    let (start, end) = range;
    if start > end || end > vertex_count {
        return None;
    }
    let n = gs.len();
    let vc = vertex_count;
    let ghost g = gs@;
    let mut remap: Vec<u32> = Vec::new();
    let mut i: usize = 0;
    while i < vc
        invariant
            i <= vc,
            vc <= u32::MAX,
            remap@.len() == i,
            forall|j: int| 0 <= j < i ==> remap@[j] == if j < start { j } else { u32::MAX as int },
        decreases vc - i,
    {
        if i < start {
            remap.push(i as u32);
        } else {
            remap.push(u32::MAX);
        }
        i += 1;
    }
    let mut packed: Vec<usize> = Vec::new();
    let mut firsts: Vec<u32> = Vec::new();
    let mut quads: usize = 0;
    let mut k: usize = 0;
    while k < n
        invariant
            n == g.len(),
            g == gs@,
            k <= n,
            start <= end <= vc,
            vc + 4 * n <= u32::MAX,
            remap@.len() == vc,
            packed@.len() == packed_sources(g, vc as int, k as int).len(),
            forall|j: int| 0 <= j < packed@.len() ==> packed@[j] == packed_sources(g, vc as int, k as int)[j],
            packed@.len() <= 4 * k,
            quads == quad_vertices(g, k as int),
            firsts@.len() == k,
            forall|j: int| 0 <= j < k ==> firsts@[j] == start + packed_sources(g, vc as int, j).len(),
            forall|j: int|
                0 <= j < vc ==> remap@[j] == match packed_place(g, vc as int, start as int, k as int, j) {
                    Some(v) => v,
                    None => if j < start { j } else { u32::MAX as int },
                },
        decreases n - k,
    {
        proof {
            lemma_packed_sources(g, vc as int, k as int);
            lemma_packed_sources(g, vc as int, k + 1);
        }
        let glyph = gs[k];
        let base = start + packed.len();
        firsts.push(base as u32);
        if glyph.has_quad {
            quads = quads + 4;
        }
        let fv = glyph.first_vertex as usize;
        if glyph.has_quad && fv <= vc && 4 <= vc - fv {
            remap.set(fv, base as u32);
            remap.set(fv + 1, (base + 1) as u32);
            remap.set(fv + 2, (base + 2) as u32);
            remap.set(fv + 3, (base + 3) as u32);
            packed.push(fv);
            packed.push(fv + 1);
            packed.push(fv + 2);
            packed.push(fv + 3);
        }
        proof {
            let ps = packed_sources(g, vc as int, k + 1);
            assert(ps.len() == packed@.len());
            assert forall|j: int| 0 <= j < packed@.len() implies packed@[j] == ps[j] by {}
        }
        k += 1;
    }
    proof {
        lemma_packed_sources(g, vc as int, n as int);
    }
    let moved = packed.len();
    let mut i: usize = end;
    while i < vc
        invariant
            end <= i <= vc,
            start <= end,
            vc + 4 * n <= u32::MAX,
            moved <= 4 * n,
            moved == packed_sources(g, vc as int, n as int).len(),
            n == g.len(),
            g == gs@,
            remap@.len() == vc,
            forall|j: int|
                0 <= j < vc ==> remap@[j] == if end <= j < i {
                    j + moved - (end - start)
                } else {
                    match packed_place(g, vc as int, start as int, n as int, j) {
                        Some(v) => v,
                        None => if j < start { j } else { u32::MAX as int },
                    }
                },
        decreases vc - i,
    {
        remap.set(i, (i + moved - (end - start)) as u32);
        i += 1;
    }
    let mut sources: Vec<usize> = Vec::new();
    let mut i: usize = 0;
    while i < start
        invariant
            i <= start,
            sources@.len() == i,
            forall|j: int| 0 <= j < i ==> sources@[j] == j,
        decreases start - i,
    {
        sources.push(i);
        i += 1;
    }
    let mut j: usize = 0;
    while j < moved
        invariant
            j <= moved,
            moved == packed@.len(),
            sources@.len() == start + j,
            forall|x: int| 0 <= x < start ==> sources@[x] == x,
            forall|x: int| 0 <= x < j ==> sources@[start + x] == packed@[x],
        decreases moved - j,
    {
        sources.push(packed[j]);
        j += 1;
    }
    let mut i: usize = end;
    while i < vc
        invariant
            end <= i <= vc,
            sources@.len() == start + moved + (i - end),
            forall|x: int| 0 <= x < start ==> sources@[x] == x,
            forall|x: int| 0 <= x < moved ==> sources@[start + x] == packed@[x],
            forall|x: int| start + moved <= x < sources@.len() ==> sources@[x] == end + (x - start - moved),
        decreases vc - i,
    {
        sources.push(i);
        i += 1;
    }
    let ghost packed_all = packed_sources(g, vc as int, n as int);
    assert forall|j: int| 0 <= j < packed_all.len() implies sources@[start + j] == packed_all[j] by {
        assert(sources@[start + j] == packed@[j]);
        assert(packed@[j] == packed_all[j]);
    }
    Some(Repacked { sources, remap, first_vertices: firsts, glyph_range: (start, start + quads) })
}

/// Where a mesh index points once the mesh is repacked: where its vertex
/// went, or where it pointed before for a vertex that went nowhere or that
/// the remap does not know.
pub fn remapped(remap: &[u32], index: u32) -> (r: u32)
    ensures
        r == if (index as int) < remap@.len() && remap@[index as int] != u32::MAX {
            remap@[index as int]
        } else {
            index
        },
{
    let at = index as usize;
    if at < remap.len() && remap[at] != u32::MAX {
        remap[at]
    } else {
        index
    }
}

proof fn lemma_packed_prefix(gs: Seq<ShapedGlyph>, vertex_count: int, k: int, m: int)
    requires
        0 <= k <= m <= gs.len(),
    ensures
        packed_sources(gs, vertex_count, k).len() <= packed_sources(gs, vertex_count, m).len(),
        forall|x: int|
            0 <= x < packed_sources(gs, vertex_count, k).len() ==> packed_sources(gs, vertex_count, m)[x]
                == packed_sources(gs, vertex_count, k)[x],
    decreases m - k,
{
    if k < m {
        lemma_packed_prefix(gs, vertex_count, k, m - 1);
    }
}

/// Packing keeps each moved quad whole and in place: the four vertices of
/// glyph `k`'s quad come one after another, from where the quads of the
/// glyphs before it end.
pub proof fn packed_quads_stay_whole(gs: Seq<ShapedGlyph>, vertex_count: int, k: int, o: int)
    requires
        0 <= k < gs.len(),
        moves_quad(gs[k], vertex_count),
        0 <= o < 4,
    ensures
        packed_sources(gs, vertex_count, k).len() + 4 <= packed_sources(
            gs,
            vertex_count,
            gs.len() as int,
        ).len(),
        packed_sources(gs, vertex_count, gs.len() as int)[packed_sources(gs, vertex_count, k).len()
            + o] == gs[k].first_vertex + o,
{
    lemma_packed_prefix(gs, vertex_count, k + 1, gs.len() as int);
    let before = packed_sources(gs, vertex_count, k);
    assert(packed_sources(gs, vertex_count, k + 1)[before.len() + o] == gs[k].first_vertex + o);
}

/// The index of the character of `s` that starts at byte `b`, or the
/// number of characters where `b` is the end of `s`.
pub open spec fn char_index_at(s: Seq<char>, b: int) -> int {
    if b == utf8_length(s) {
        s.len() as int
    } else {
        choose|i: int| 0 <= i < s.len() && byte_offset(s, i) == b
    }
}

/// Whether byte `b` of `s` lies where a character starts, or at the end.
pub open spec fn boundary(s: Seq<char>, b: int) -> bool {
    starts_char(s, b) || b == utf8_length(s)
}

/// Where the paragraph holding character `i` of `s` starts: just after the
/// last line break before it.
pub open spec fn paragraph_start(s: Seq<char>, i: int) -> int
    decreases i,
{
    if i <= 0 {
        0
    } else if s[i - 1] == '\n' {
        i
    } else {
        paragraph_start(s, i - 1)
    }
}

/// Where the paragraph holding character `i` of `s` ends: at the first line
/// break from it on, or the end of `s`.
pub open spec fn paragraph_end(s: Seq<char>, i: int) -> int
    decreases s.len() - i,
{
    if i >= s.len() {
        s.len() as int
    } else if s[i] == '\n' {
        i
    } else {
        paragraph_end(s, i + 1)
    }
}

/// The paragraphs `unicode_bidi` splits a text into: the byte ranges of
/// `BidiInfo::new(text, None).paragraphs`.
pub uninterp spec fn bidi_paragraph_ranges(text: Seq<char>) -> Seq<(usize, usize)>;

/// Calls `BidiInfo::new` on `text` and reads its paragraphs' byte ranges.
/// The contract claims what the crate's source shows of them: they are not
/// empty, each starts where the one before ends, they cover the text from
/// its first byte to its last, and each ends where a character does.
#[verifier::external_body]
fn bidi_paragraphs(text: &str) -> (r: Vec<(usize, usize)>)
    ensures
        r@ == bidi_paragraph_ranges(text@),
        forall|p: int| 0 <= p < r@.len() ==> #[trigger] r@[p].0 < r@[p].1 <= utf8_length(text@),
        forall|p: int| 0 <= p < r@.len() ==> boundary(text@, #[trigger] r@[p].0 as int) && boundary(
            text@,
            r@[p].1 as int,
        ),
        forall|p: int| 0 <= p < r@.len() - 1 ==> #[trigger] r@[p].1 == r@[p + 1].0,
        r@.len() > 0 ==> r@[0].0 == 0 && r@.last().1 == utf8_length(text@),
        r@.len() == 0 <==> utf8_length(text@) == 0,
{
    unicode_bidi::BidiInfo::new(text, None).paragraphs.iter().map(|p| (p.range.start, p.range.end)).collect()
}

/// The levels `BidiInfo::reordered_levels` gives each byte of `text` once
/// rule L1 has run on the bytes `start..end`, as a line of its paragraph
/// `paragraph`.
pub uninterp spec fn reordered_levels_of(text: Seq<char>, paragraph: int, start: int, end: int) -> Seq<u8>;

/// Builds `BidiInfo::new(text, None)` and calls its `reordered_levels` for
/// paragraph `paragraph` and the line `line`, giving each level as its
/// number. The contract claims what the crate's source shows: one level per
/// byte of the text, each a valid level (at most 126); which levels is left
/// to the crate. `requires` keeps the line within the text and on character
/// boundaries, where the crate would panic otherwise.
#[verifier::external_body]
fn reordered_levels(text: &str, paragraph: usize, line: (usize, usize)) -> (r: Vec<u8>)
    requires
        paragraph < bidi_paragraph_ranges(text@).len(),
        line.0 <= line.1 <= utf8_length(text@),
        boundary(text@, line.0 as int),
        boundary(text@, line.1 as int),
    ensures
        r@ == reordered_levels_of(text@, paragraph as int, line.0 as int, line.1 as int),
        r@.len() == utf8_length(text@),
        forall|i: int| 0 <= i < r@.len() ==> r@[i] <= 126,
{
    let info = unicode_bidi::BidiInfo::new(text, None);
    info.reordered_levels(&info.paragraphs[paragraph], line.0..line.1).iter().map(|l| l.number()).collect()
}

/// The levels of the bytes `l0..l1` of a paragraph text, once the levels of
/// the first `k` of its bidi paragraphs are laid over ground level 0: each
/// paragraph gives the bytes where it meets the line the levels it
/// reorders for that stretch.
pub open spec fn overlaid(ptext: Seq<char>, l0: int, l1: int, k: int) -> Seq<u8>
    decreases k,
{
    if k <= 0 {
        Seq::new((l1 - l0) as nat, |i: int| 0u8)
    } else {
        let prev = overlaid(ptext, l0, l1, k - 1);
        let range = bidi_paragraph_ranges(ptext)[k - 1];
        let a = if range.0 > l0 { range.0 as int } else { l0 };
        let b = if range.1 < l1 { range.1 as int } else { l1 };
        if a < b {
            Seq::new(
                prev.len(),
                |i: int|
                    if a <= i + l0 < b {
                        reordered_levels_of(ptext, k - 1, a, b)[i + l0]
                    } else {
                        prev[i]
                    },
            )
        } else {
            prev
        }
    }
}

proof fn lemma_offset_order(s: Seq<char>, j: int, i: int)
    requires
        0 <= j <= s.len(),
        0 <= i <= s.len(),
        byte_offset(s, j) < byte_offset(s, i),
    ensures
        j < i,
{
    if i < j {
        lemma_offsets_rise(s, i, j);
    }
}

proof fn lemma_offset_unique(s: Seq<char>, j: int, i: int)
    requires
        0 <= j <= s.len(),
        0 <= i <= s.len(),
        byte_offset(s, j) == byte_offset(s, i),
    ensures
        j == i,
{
    if i < j {
        lemma_offsets_rise(s, i, j);
    } else if j < i {
        lemma_offsets_rise(s, j, i);
    }
}

proof fn lemma_index_at(s: Seq<char>, b: int)
    requires
        boundary(s, b),
    ensures
        0 <= char_index_at(s, b) <= s.len(),
        byte_offset(s, char_index_at(s, b)) == b,
{
    assert(s.take(s.len() as int) =~= s);
    if b != utf8_length(s) {
        let i = choose|i: int| 0 <= i < s.len() && byte_offset(s, i) == b;
    }
}

proof fn lemma_sub_offset(s: Seq<char>, a: int, e: int, k: int)
    requires
        0 <= a <= e <= s.len(),
        0 <= k <= e - a,
    ensures
        byte_offset(s.subrange(a, e), k) == byte_offset(s, a + k) - byte_offset(s, a),
{
    lemma_utf8_length_adds(s.take(a), s.subrange(a, a + k));
    assert(s.take(a) + s.subrange(a, a + k) =~= s.take(a + k));
    assert(s.subrange(a, e).take(k) =~= s.subrange(a, a + k));
}

fn offsets_of(chars: &Vec<char>) -> (offs: Vec<usize>)
    requires
        utf8_length(chars@) < usize::MAX,
    ensures
        offs@.len() == chars@.len() + 1,
        forall|i: int| 0 <= i <= chars@.len() ==> offs@[i] == byte_offset(chars@, i),
{
    let n = chars.len();
    assert(chars@.take(n as int) =~= chars@);
    assert(chars@.take(0) =~= Seq::<char>::empty());
    let mut offs: Vec<usize> = Vec::new();
    offs.push(0);
    let mut i: usize = 0;
    while i < n
        invariant
            n == chars@.len(),
            i <= n,
            utf8_length(chars@) < usize::MAX,
            byte_offset(chars@, n as int) == utf8_length(chars@),
            offs@.len() == i + 1,
            forall|j: int| 0 <= j <= i ==> offs@[j] == byte_offset(chars@, j),
        decreases n - i,
    {
        proof {
            lemma_offset_step(chars@, i as int);
            lemma_offsets_rise(chars@, i as int, n as int);
        }
        let next = offs[i] + width_of(chars[i]);
        offs.push(next);
        i += 1;
    }
    offs
}

fn index_of_offset(offs: &Vec<usize>, chars: &Vec<char>, b: usize) -> (i: usize)
    requires
        offs@.len() == chars@.len() + 1,
        forall|j: int| 0 <= j <= chars@.len() ==> offs@[j] == byte_offset(chars@, j),
        boundary(chars@, b as int),
    ensures
        i == char_index_at(chars@, b as int),
        i <= chars@.len(),
        byte_offset(chars@, i as int) == b,
{
    proof {
        lemma_index_at(chars@, b as int);
    }
    let ghost target = char_index_at(chars@, b as int);
    let m = offs.len();
    let mut i: usize = 0;
    while offs[i] < b
        invariant
            m == offs@.len(),
            offs@.len() == chars@.len() + 1,
            forall|j: int| 0 <= j <= chars@.len() ==> offs@[j] == byte_offset(chars@, j),
            0 <= target <= chars@.len(),
            byte_offset(chars@, target) == b,
            i <= target,
        decreases target - i,
    {
        proof {
            if i == target {
                assert(false);
            }
        }
        i += 1;
    }
    proof {
        if offs@[i as int] > b {
            lemma_offset_order(chars@, target, i as int);
        }
        lemma_offset_unique(chars@, i as int, target);
    }
    i
}

fn overlay_levels(ptext: &String, l0: usize, l1: usize) -> (by: Vec<u8>)
    requires
        l0 <= l1 <= utf8_length(ptext@),
        boundary(ptext@, l0 as int),
        boundary(ptext@, l1 as int),
    ensures
        by@ == overlaid(ptext@, l0 as int, l1 as int, bidi_paragraph_ranges(ptext@).len() as int),
{
    let ghost pt = ptext@;
    let paras = bidi_paragraphs(ptext.as_str());
    let mut by: Vec<u8> = Vec::new();
    let mut z: usize = 0;
    while z < l1 - l0
        invariant
            z <= l1 - l0,
            by@.len() == z,
            forall|x: int| 0 <= x < z ==> by@[x] == 0u8,
        decreases l1 - l0 - z,
    {
        by.push(0);
        z += 1;
    }
    assert(by@ =~= overlaid(pt, l0 as int, l1 as int, 0));
    let mut k: usize = 0;
    while k < paras.len()
        invariant
            k <= paras@.len(),
            paras@ == bidi_paragraph_ranges(pt),
            ptext@ == pt,
            forall|p: int| 0 <= p < paras@.len() ==> #[trigger] paras@[p].0 < paras@[p].1 <= utf8_length(pt),
            forall|p: int| 0 <= p < paras@.len() ==> boundary(pt, #[trigger] paras@[p].0 as int) && boundary(
                pt,
                paras@[p].1 as int,
            ),
            l0 <= l1 <= utf8_length(pt),
            boundary(pt, l0 as int),
            boundary(pt, l1 as int),
            by@ == overlaid(pt, l0 as int, l1 as int, k as int),
        decreases paras@.len() - k,
    {
        let (pa, pb) = paras[k];
        let a = if pa > l0 {
            pa
        } else {
            l0
        };
        let b = if pb < l1 {
            pb
        } else {
            l1
        };
        let ghost prev = by@;
        proof {
            lemma_overlaid_len(pt, l0 as int, l1 as int, k as int);
        }
        if a < b {
            let levels = reordered_levels(ptext.as_str(), k, (a, b));
            let mut x = a;
            while x < b
                invariant
                    l0 <= a <= x <= b <= l1,
                    b <= levels@.len(),
                    by@.len() == prev.len(),
                    prev.len() == l1 - l0,
                    forall|i: int|
                        0 <= i < prev.len() ==> by@[i] == if a <= i + l0 < x {
                            levels@[i + l0]
                        } else {
                            prev[i]
                        },
                decreases b - x,
            {
                by.set(x - l0, levels[x]);
                x += 1;
            }
            assert(by@ =~= overlaid(pt, l0 as int, l1 as int, k + 1));
        } else {
            assert(by@ =~= overlaid(pt, l0 as int, l1 as int, k + 1));
        }
        k += 1;
    }
    by
}

proof fn lemma_overlaid_len(ptext: Seq<char>, l0: int, l1: int, k: int)
    requires
        l0 <= l1,
    ensures
        overlaid(ptext, l0, l1, k).len() == l1 - l0,
    decreases k,
{
    if k > 0 {
        lemma_overlaid_len(ptext, l0, l1, k - 1);
    }
}

/// The bidi levels of the characters of `text` from byte `start` to byte
/// `end`, the end clipped to the paragraph `start` lies in, with the clipped
/// end. Levels come from the whole paragraph (from just after the last line
/// break before `start` to the first one after it), so a row keeps its
/// paragraph's base direction instead of guessing one from its first word.
pub fn line_levels(text: &str, start: usize, end: usize) -> (r: (Vec<u8>, usize))
    requires
        text.spec_bytes().len() < usize::MAX,
        start <= end <= utf8_length(text@),
        boundary(text@, start as int),
        boundary(text@, end as int),
    ensures
        ({
            let s = text@;
            let is = char_index_at(s, start as int);
            let ps = paragraph_start(s, is);
            let pe = paragraph_end(s, is);
            let clipped = if end < byte_offset(s, pe) { end as int } else { byte_offset(s, pe) as int };
            let ie = char_index_at(s, clipped);
            let base = byte_offset(s, ps) as int;
            let ptext = s.subrange(ps, pe);
            let by = overlaid(
                ptext,
                start - base,
                clipped - base,
                bidi_paragraph_ranges(ptext).len() as int,
            );
            &&& r.1 == clipped
            &&& r.0@.len() == ie - is
            &&& forall|c: int|
                0 <= c < r.0@.len() ==> r.0@[c] == by[byte_offset(s, is + c) - start]
        }),
{
    let chars = chars_of(text);
    proof {
        lemma_utf8_length_is_encoded_length(text@);
    }
    let ghost s = text@;
    let n = chars.len();
    let offs = offsets_of(&chars);
    let is = index_of_offset(&offs, &chars, start);
    let mut ps = is;
    while ps > 0 && chars[ps - 1] != '\n'
        invariant
            ps <= is <= n,
            n == chars@.len(),
            chars@ == s,
            paragraph_start(s, ps as int) == paragraph_start(s, is as int),
        decreases ps,
    {
        ps -= 1;
    }
    let mut pe = is;
    while pe < n && chars[pe] != '\n'
        invariant
            is <= pe <= n,
            n == chars@.len(),
            chars@ == s,
            paragraph_end(s, pe as int) == paragraph_end(s, is as int),
        decreases n - pe,
    {
        pe += 1;
    }
    proof {
        if is < pe {
            lemma_offsets_rise(s, is as int, pe as int);
        }
        if ps < is {
            lemma_offsets_rise(s, ps as int, is as int);
        }
    }
    let clipped = if end < offs[pe] {
        end
    } else {
        offs[pe]
    };
    proof {
        if clipped == offs@[pe as int] {
            assert(boundary(s, clipped as int)) by {
                if pe < n {
                    assert(starts_char(s, clipped as int));
                } else {
                    assert(s.take(n as int) =~= s);
                }
            }
        }
    }
    let ie = index_of_offset(&offs, &chars, clipped);
    proof {
        if ie < is {
            lemma_offsets_rise(s, ie as int, is as int);
        }
        if ie > pe {
            lemma_offsets_rise(s, pe as int, ie as int);
        }
    }
    let base = offs[ps];
    let mut part: Vec<char> = Vec::new();
    let mut j = ps;
    while j < pe
        invariant
            ps <= j <= pe <= n,
            n == chars@.len(),
            part@ =~= chars@.subrange(ps as int, j as int),
        decreases pe - j,
    {
        part.push(chars[j]);
        j += 1;
    }
    let ptext = string_from_chars(&part);
    let ghost pt = ptext@;
    assert(pt == s.subrange(ps as int, pe as int));
    proof {
        lemma_sub_offset(s, ps as int, pe as int, (is - ps) as int);
        lemma_sub_offset(s, ps as int, pe as int, (ie - ps) as int);
        lemma_sub_offset(s, ps as int, pe as int, (pe - ps) as int);
        assert(pt.take(pt.len() as int) =~= pt);
    }
    let l0 = start - base;
    let l1 = clipped - base;
    assert(boundary(pt, l0 as int)) by {
        if is < pe {
            assert(byte_offset(pt, (is - ps) as int) == l0);
        }
    }
    assert(boundary(pt, l1 as int)) by {
        if ie < pe {
            assert(byte_offset(pt, (ie - ps) as int) == l1);
        }
    }
    let by = overlay_levels(&ptext, l0, l1);
    proof {
        lemma_overlaid_len(pt, l0 as int, l1 as int, bidi_paragraph_ranges(pt).len() as int);
    }
    let out = levels_by_char(&offs, &chars, is, ie, &by, start, clipped);
    (out, clipped)
}

fn levels_by_char(
    offs: &Vec<usize>,
    chars: &Vec<char>,
    is: usize,
    ie: usize,
    by: &Vec<u8>,
    start: usize,
    clipped: usize,
) -> (out: Vec<u8>)
    requires
        is <= ie <= chars@.len(),
        offs@.len() == chars@.len() + 1,
        forall|j: int| 0 <= j <= chars@.len() ==> offs@[j] == byte_offset(chars@, j),
        byte_offset(chars@, is as int) == start,
        byte_offset(chars@, ie as int) == clipped,
        by@.len() == clipped - start,
    ensures
        out@.len() == ie - is,
        forall|x: int| 0 <= x < out@.len() ==> out@[x] == by@[byte_offset(chars@, is + x) - start],
{
    let ghost s = chars@;
    let n = chars.len();
    let mut out: Vec<u8> = Vec::new();
    let mut c = is;
    while c < ie
        invariant
            is <= c <= ie <= n,
            n == chars@.len(),
            chars@ == s,
            offs@.len() == n + 1,
            forall|j: int| 0 <= j <= n ==> offs@[j] == byte_offset(s, j),
            byte_offset(s, is as int) == start,
            byte_offset(s, ie as int) == clipped,
            by@.len() == clipped - start,
            out@.len() == c - is,
            forall|x: int| 0 <= x < out@.len() ==> out@[x] == by@[byte_offset(s, is + x) - start],
        decreases ie - c,
    {
        proof {
            lemma_offsets_rise(s, c as int, ie as int);
            if is < c {
                lemma_offsets_rise(s, is as int, c as int);
            }
        }
        out.push(by[offs[c] - start]);
        c += 1;
    }
    out
}

} // verus!