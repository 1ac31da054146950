//! Which way text reads: the bidirectional class of each character, the
//! direction of a paragraph, and where a word may be cut.

use vstd::prelude::*;

use vstd::string::StringSliceAdditionalSpecFns;
use vstd::utf8::{
    char_is_scalar, encode_scalar, encode_utf8, has_width_1_encoding, has_width_2_encoding,
    has_width_3_encoding, has_width_4_encoding, is_ascii_chars, is_scalar,
};

use crate::text::chars_of;

verus! {

/// The bidirectional class of a character, as the Unicode Character
/// Database assigns it.
#[derive(Clone, Copy, Debug, PartialEq, Eq, Structural)]
pub enum BidiCategory {
    AL,
    AN,
    B,
    BN,
    CS,
    EN,
    ES,
    ET,
    FSI,
    L,
    LRE,
    LRI,
    LRO,
    NSM,
    ON,
    PDF,
    PDI,
    R,
    RLE,
    RLI,
    RLO,
    S,
    WS,
}

/// The position of a character's bidirectional class among
/// `unicode_bidi::BidiClass`'s variants, as `unicode_bidi::bidi_class`
/// gives it.
pub uninterp spec fn bidi_class_code(c: char) -> u8;

/// The class of an ASCII character, by its position among
/// `unicode_bidi::BidiClass`'s variants: the first rows of the crate's
/// Unicode table, in full.
pub open spec fn ascii_class_code(v: u32) -> u8 {
    if v <= 0x08 {
        3  // BN
    } else if v == 0x09 || v == 0x0b || v == 0x1f {
        21  // S
    } else if v == 0x0a || v == 0x0d || (0x1c <= v <= 0x1e) {
        2  // B
    } else if v == 0x0c || v == 0x20 {
        22  // WS
    } else if 0x0e <= v <= 0x1b || v == 0x7f {
        3  // BN
    } else if 0x23 <= v <= 0x25 {
        7  // ET
    } else if v == 0x2b || v == 0x2d {
        6  // ES
    } else if v == 0x2c || v == 0x2e || v == 0x2f || v == 0x3a {
        4  // CS
    } else if 0x30 <= v <= 0x39 {
        5  // EN
    } else if (0x41 <= v <= 0x5a) || (0x61 <= v <= 0x7a) {
        9  // L
    } else {
        14  // ON
    }
}

/// `unicode_bidi::bidi_class`: the class of `c` from the crate's copy of
/// the Unicode tables, by its position among the crate's `BidiClass`
/// variants (`AL` first, `WS` last). For ASCII the contract gives the
/// table's first rows in full; for the rest of Unicode it names the result.
#[verifier::external_body]
fn bidi_class(c: char) -> (code: u8)
    ensures
        code == bidi_class_code(c),
        code < 23,
        (c as u32) < 128 ==> code == ascii_class_code(c as u32),
{
    unicode_bidi::bidi_class(c) as u8
}

/// The class a variant position stands for.
pub open spec fn category_of_code(code: u8) -> BidiCategory {
    if code == 0 {
        BidiCategory::AL
    } else if code == 1 {
        BidiCategory::AN
    } else if code == 2 {
        BidiCategory::B
    } else if code == 3 {
        BidiCategory::BN
    } else if code == 4 {
        BidiCategory::CS
    } else if code == 5 {
        BidiCategory::EN
    } else if code == 6 {
        BidiCategory::ES
    } else if code == 7 {
        BidiCategory::ET
    } else if code == 8 {
        BidiCategory::FSI
    } else if code == 9 {
        BidiCategory::L
    } else if code == 10 {
        BidiCategory::LRE
    } else if code == 11 {
        BidiCategory::LRI
    } else if code == 12 {
        BidiCategory::LRO
    } else if code == 13 {
        BidiCategory::NSM
    } else if code == 14 {
        BidiCategory::ON
    } else if code == 15 {
        BidiCategory::PDF
    } else if code == 16 {
        BidiCategory::PDI
    } else if code == 17 {
        BidiCategory::R
    } else if code == 18 {
        BidiCategory::RLE
    } else if code == 19 {
        BidiCategory::RLI
    } else if code == 20 {
        BidiCategory::RLO
    } else if code == 21 {
        BidiCategory::S
    } else {
        BidiCategory::WS
    }
}

/// The bidirectional class of `c`: from the ASCII rows of the table for an
/// ASCII character, and as `unicode_bidi` gives it for any other.
pub open spec fn category(c: char) -> BidiCategory {
    if (c as u32) < 128 {
        category_of_code(ascii_class_code(c as u32))
    } else {
        category_of_code(bidi_class_code(c))
    }
}

/// The bidirectional class of a character.
pub fn bidi_category(c: char) -> (k: BidiCategory)
    ensures
        k == category(c),
{
    let code = bidi_class(c);
    if code == 0 {
        BidiCategory::AL
    } else if code == 1 {
        BidiCategory::AN
    } else if code == 2 {
        BidiCategory::B
    } else if code == 3 {
        BidiCategory::BN
    } else if code == 4 {
        BidiCategory::CS
    } else if code == 5 {
        BidiCategory::EN
    } else if code == 6 {
        BidiCategory::ES
    } else if code == 7 {
        BidiCategory::ET
    } else if code == 8 {
        BidiCategory::FSI
    } else if code == 9 {
        BidiCategory::L
    } else if code == 10 {
        BidiCategory::LRE
    } else if code == 11 {
        BidiCategory::LRI
    } else if code == 12 {
        BidiCategory::LRO
    } else if code == 13 {
        BidiCategory::NSM
    } else if code == 14 {
        BidiCategory::ON
    } else if code == 15 {
        BidiCategory::PDF
    } else if code == 16 {
        BidiCategory::PDI
    } else if code == 17 {
        BidiCategory::R
    } else if code == 18 {
        BidiCategory::RLE
    } else if code == 19 {
        BidiCategory::RLI
    } else if code == 20 {
        BidiCategory::RLO
    } else if code == 21 {
        BidiCategory::S
    } else {
        BidiCategory::WS
    }
}

/// Whether a character is a strong right-to-left letter: of class `R` or
/// `AL`.
pub open spec fn strong_rtl(c: char) -> bool {
    category(c) == BidiCategory::R || category(c) == BidiCategory::AL
}

/// The direction of the first strong character of `s`: `Some(true)` for
/// right to left, `Some(false)` for left to right, `None` without one.
pub open spec fn first_strong(s: Seq<char>) -> Option<bool>
    decreases s.len(),
{
    if s.len() == 0 {
        None
    } else if category(s[0]) == BidiCategory::L {
        Some(false)
    } else if strong_rtl(s[0]) {
        Some(true)
    } else {
        first_strong(s.drop_first())
    }
}

/// Whether text reads right to left: its first strong character is right
/// to left, as the bidi algorithm decides a paragraph's direction.
pub open spec fn reads_rtl(s: Seq<char>) -> bool {
    first_strong(s) == Some(true)
}

/// Whether text holds a right-to-left letter anywhere.
pub open spec fn holds_rtl(s: Seq<char>) -> bool {
    exists|i: int| 0 <= i < s.len() && strong_rtl(#[trigger] s[i])
}

/// Whether the text reads right to left, by its first strong character.
pub fn is_rtl(text: &str) -> (r: bool)
    ensures
        r == reads_rtl(text@),
{
    if text.is_ascii() {
        proof {
            ascii_text_reads_left_to_right(text@);
        }
        return false;
    }
    let chars = chars_of(text);
    let mut i: usize = 0;
    assert(chars@.subrange(0, chars.len() as int) =~= chars@);
    while i < chars.len()
        invariant
            i <= chars.len(),
            chars@ == text@,
            !is_ascii_chars(text@),
            first_strong(chars@) == first_strong(chars@.subrange(i as int, chars.len() as int)),
        decreases chars.len() - i,
    {
        let ghost rest = chars@.subrange(i as int, chars.len() as int);
        assert(rest[0] == chars@[i as int]);
        assert(rest.drop_first() =~= chars@.subrange(i + 1, chars.len() as int));
        let k = bidi_category(chars[i]);
        if k == BidiCategory::L {
            return false;
        }
        if k == BidiCategory::R || k == BidiCategory::AL {
            return true;
        }
        i += 1;
    }
    false
}

/// Whether the text holds a right-to-left letter anywhere, so its runs
/// need reordering even when the paragraph reads left to right.
pub fn has_rtl(text: &str) -> (r: bool)
    ensures
        r == holds_rtl(text@),
{
    if text.is_ascii() {
        proof {
            ascii_text_reads_left_to_right(text@);
        }
        return false;
    }
    let chars = chars_of(text);
    let mut i: usize = 0;
    while i < chars.len()
        invariant
            i <= chars.len(),
            chars@ == text@,
            forall|j: int| 0 <= j < i ==> !strong_rtl(#[trigger] chars@[j]),
        decreases chars.len() - i,
    {
        let k = bidi_category(chars[i]);
        if k == BidiCategory::R || k == BidiCategory::AL {
            assert(strong_rtl(chars@[i as int]));
            return true;
        }
        i += 1;
    }
    false
}

/// The edge text hugs.
#[derive(Clone, Copy, Debug, PartialEq, Eq, Structural)]
pub enum TextAlign {
    Left,
    Right,
}

/// The edge the text should hug: the right one for text that reads right
/// to left.
pub fn halign_for(text: &str) -> (a: TextAlign)
    ensures
        a == if reads_rtl(text@) {
            TextAlign::Right
        } else {
            TextAlign::Left
        },
{
    if is_rtl(text) {
        TextAlign::Right
    } else {
        TextAlign::Left
    }
}

/// Whether no character of `s` before `i` is strong: neither left to right
/// (`L`) nor right to left.
pub open spec fn none_strong_before(s: Seq<char>, i: int) -> bool {
    forall|j: int| 0 <= j < i ==> category(#[trigger] s[j]) != BidiCategory::L && !strong_rtl(s[j])
}

/// Text reads right to left exactly when some right-to-left letter comes
/// before any strong character: the first strong character decides, and a
/// left-to-right letter first makes it read left to right.
pub proof fn the_first_strong_letter_decides(s: Seq<char>)
    ensures
        reads_rtl(s) <==> exists|i: int| 0 <= i < s.len() && strong_rtl(#[trigger] s[i]) && none_strong_before(s, i),
        (exists|i: int| 0 <= i < s.len() && category(#[trigger] s[i]) == BidiCategory::L && none_strong_before(s, i))
            ==> !reads_rtl(s),
    decreases s.len(),
{
    if s.len() > 0 {
        let t = s.drop_first();
        the_first_strong_letter_decides(t);
        if category(s[0]) == BidiCategory::L {
            if exists|i: int| 0 <= i < s.len() && strong_rtl(#[trigger] s[i]) && none_strong_before(s, i) {
                let i = choose|i: int| 0 <= i < s.len() && strong_rtl(#[trigger] s[i]) && none_strong_before(s, i);
                if i > 0 {
                    assert(category(s[0]) != BidiCategory::L);
                } else {
                    assert(category(s[0]) == BidiCategory::L);
                }
            }
        } else if strong_rtl(s[0]) {
            assert(none_strong_before(s, 0));
            if exists|i: int| 0 <= i < s.len() && category(#[trigger] s[i]) == BidiCategory::L && none_strong_before(s, i) {
                let i = choose|i: int| 0 <= i < s.len() && category(#[trigger] s[i]) == BidiCategory::L && none_strong_before(s, i);
                if i > 0 {
                    assert(!strong_rtl(s[0]));
                }
            }
        } else {
            assert forall|i: int| 1 <= i < s.len() implies (none_strong_before(s, i) <==> none_strong_before(t, i - 1)) by {
                if none_strong_before(s, i) {
                    assert forall|j: int| 0 <= j < i - 1 implies category(#[trigger] t[j]) != BidiCategory::L && !strong_rtl(t[j]) by {
                        assert(t[j] == s[j + 1]);
                    }
                }
                if none_strong_before(t, i - 1) {
                    assert forall|j: int| 0 <= j < i implies category(#[trigger] s[j]) != BidiCategory::L && !strong_rtl(s[j]) by {
                        if j > 0 {
                            assert(s[j] == t[j - 1]);
                        }
                    }
                }
            }
            if exists|i: int| 0 <= i < s.len() && strong_rtl(#[trigger] s[i]) && none_strong_before(s, i) {
                let i = choose|i: int| 0 <= i < s.len() && strong_rtl(#[trigger] s[i]) && none_strong_before(s, i);
                assert(i > 0);
                assert(t[i - 1] == s[i]);
            }
            if exists|i: int| 0 <= i < t.len() && strong_rtl(#[trigger] t[i]) && none_strong_before(t, i) {
                let i = choose|i: int| 0 <= i < t.len() && strong_rtl(#[trigger] t[i]) && none_strong_before(t, i);
                assert(s[i + 1] == t[i]);
            }
            if exists|i: int| 0 <= i < s.len() && category(#[trigger] s[i]) == BidiCategory::L && none_strong_before(s, i) {
                let i = choose|i: int| 0 <= i < s.len() && category(#[trigger] s[i]) == BidiCategory::L && none_strong_before(s, i);
                assert(i > 0);
                assert(t[i - 1] == s[i]);
            }
        }
    }
}

/// No ASCII character is a right-to-left letter.
pub proof fn no_ascii_letter_reads_right_to_left(c: char)
    ensures
        (c as u32) < 128 ==> !strong_rtl(c),
{
}

/// ASCII text holds no right-to-left letter, and so never reads right to
/// left.
pub proof fn ascii_text_reads_left_to_right(s: Seq<char>)
    ensures
        is_ascii_chars(s) ==> !holds_rtl(s) && !reads_rtl(s),
{
    if is_ascii_chars(s) {
        assert forall|i: int| 0 <= i < s.len() implies !strong_rtl(#[trigger] s[i]) by {
            no_ascii_letter_reads_right_to_left(s[i]);
        }
        if reads_rtl(s) {
            lemma_first_strong_rtl(s);
        }
    }
}

/// Text that reads right to left holds a right-to-left letter.
pub proof fn rtl_text_holds_an_rtl_letter(s: Seq<char>)
    ensures
        reads_rtl(s) ==> holds_rtl(s),
    decreases s.len(),
{
    if reads_rtl(s) {
        lemma_first_strong_rtl(s);
    }
}

proof fn lemma_first_strong_rtl(s: Seq<char>)
    requires
        first_strong(s) == Some(true),
    ensures
        exists|i: int| 0 <= i < s.len() && strong_rtl(#[trigger] s[i]),
    decreases s.len(),
{
    if strong_rtl(s[0]) {
        assert(strong_rtl(s[0]));
    } else {
        lemma_first_strong_rtl(s.drop_first());
        let i = choose|i: int| 0 <= i < s.drop_first().len() && strong_rtl(#[trigger] s.drop_first()[i]);
        assert(s[i + 1] == s.drop_first()[i]);
    }
}

/// How many bytes UTF-8 takes for `c`.
pub open spec fn char_width(c: char) -> nat {
    if (c as u32) <= 0x7f {
        1
    } else if (c as u32) <= 0x7ff {
        2
    } else if (c as u32) <= 0xffff {
        3
    } else {
        4
    }
}

/// How many bytes UTF-8 takes for `s`.
pub open spec fn utf8_length(s: Seq<char>) -> nat
    decreases s.len(),
{
    if s.len() == 0 {
        0
    } else {
        char_width(s[0]) + utf8_length(s.drop_first())
    }
}

pub(crate) proof fn lemma_utf8_length_is_encoded_length(s: Seq<char>)
    ensures
        utf8_length(s) == encode_utf8(s).len(),
    decreases s.len(),
{
    if s.len() > 0 {
        broadcast use char_is_scalar;

        let c = s[0];
        let v = c as u32;
        char_is_scalar(c);
        assert(is_scalar(v));
        if v <= 0x7f {
            assert(has_width_1_encoding(v));
        } else if v <= 0x7ff {
            assert(has_width_2_encoding(v));
        } else if v <= 0xffff {
            assert(has_width_3_encoding(v));
        } else {
            assert(has_width_4_encoding(v));
        }
        assert(encode_scalar(c as u32).len() == char_width(c));
        lemma_utf8_length_is_encoded_length(s.drop_first());
    }
}

pub(crate) proof fn lemma_utf8_length_adds(a: Seq<char>, b: Seq<char>)
    ensures
        utf8_length(a + b) == utf8_length(a) + utf8_length(b),
    decreases a.len(),
{
    if a.len() > 0 {
        assert((a + b).drop_first() =~= a.drop_first() + b);
        lemma_utf8_length_adds(a.drop_first(), b);
    } else {
        assert(a + b =~= b);
    }
}

/// The zero-width joiner, after which a word is never cut.
pub open spec fn zero_width_joiner() -> char {
    '\u{200d}'
}

/// Whether `s` may be cut just before its character at `i`: at the start,
/// and elsewhere neither before a mark that rides on the letter ahead of it
/// (`NSM` or `BN`) nor after a joiner.
pub open spec fn may_cut_before(s: Seq<char>, i: int) -> bool {
    i == 0 || !(category(s[i]) == BidiCategory::NSM || category(s[i]) == BidiCategory::BN || s[i - 1]
        == zero_width_joiner())
}

/// The byte offsets where `s` may be cut, from its start up to but not
/// including its end, in order.
pub open spec fn cut_points(s: Seq<char>) -> Seq<nat>
    decreases s.len(),
{
    if s.len() == 0 {
        Seq::empty()
    } else if may_cut_before(s, s.len() - 1) {
        cut_points(s.drop_last()).push(utf8_length(s.drop_last()))
    } else {
        cut_points(s.drop_last())
    }
}

pub(crate) fn width_of(c: char) -> (w: usize)
    ensures
        w == char_width(c),
{
    let v = c as u32;
    if v <= 0x7f {
        1
    } else if v <= 0x7ff {
        2
    } else if v <= 0xffff {
        3
    } else {
        4
    }
}

proof fn lemma_cut_points_prefix(s: Seq<char>, i: int)
    requires
        0 <= i < s.len(),
    ensures
        cut_points(s.take(i + 1)) == if may_cut_before(s, i) {
            cut_points(s.take(i)).push(utf8_length(s.take(i)))
        } else {
            cut_points(s.take(i))
        },
{
    let t = s.take(i + 1);
    assert(t.drop_last() =~= s.take(i));
    assert(t[i] == s[i]);
    if i > 0 {
        assert(t[i - 1] == s[i - 1]);
    }
    assert(may_cut_before(t, i) == may_cut_before(s, i));
}

/// Where a word can be cut, as byte offsets from its start up to but not
/// including its end: never before a mark that rides on the letter ahead
/// of it, and never after a joiner.
pub fn cuts(word: &str) -> (r: Vec<usize>)
    requires
        word.spec_bytes().len() <= usize::MAX,
    ensures
        r@.len() == cut_points(word@).len(),
        forall|i: int| 0 <= i < r@.len() ==> r@[i] as nat == cut_points(word@)[i],
{
    let chars = chars_of(word);
    let ghost total = word.spec_bytes().len();
    proof {
        lemma_utf8_length_is_encoded_length(word@);
    }
    let mut out: Vec<usize> = Vec::new();
    let mut at: usize = 0;
    let mut i: usize = 0;
    while i < chars.len()
        invariant
            i <= chars.len(),
            chars@ == word@,
            utf8_length(word@) == total,
            total <= usize::MAX,
            at == utf8_length(chars@.take(i as int)),
            out@.len() == cut_points(chars@.take(i as int)).len(),
            forall|j: int| 0 <= j < out@.len() ==> out@[j] as nat == cut_points(chars@.take(i as int))[j],
        decreases chars.len() - i,
    {
        let c = chars[i];
        let rides = {
            let k = bidi_category(c);
            k == BidiCategory::NSM || k == BidiCategory::BN
        };
        let joined = i > 0 && chars[i - 1] == '\u{200d}';
        proof {
            lemma_cut_points_prefix(chars@, i as int);
            lemma_utf8_length_adds(chars@.take(i as int), seq![c]);
            assert(chars@.take(i + 1) =~= chars@.take(i as int) + seq![c]);
            assert(utf8_length(seq![c]) == char_width(c)) by {
                assert(seq![c].drop_first() =~= Seq::<char>::empty());
                assert(utf8_length(Seq::<char>::empty()) == 0);
            }
            lemma_utf8_length_adds(chars@.take(i + 1), chars@.skip(i + 1));
            assert(chars@.take(i + 1) + chars@.skip(i + 1) =~= chars@);
        }
        if i == 0 || !(rides || joined) {
            out.push(at);
        }
        at = at + width_of(c);
        i += 1;
    }
    assert(chars@.take(chars.len() as int) =~= chars@);
    out
}

/// The cut points of a word rise strictly, each lies inside the word, and
/// a word that is not empty may always be cut at its start.
pub proof fn cut_points_rise_inside_the_word(s: Seq<char>)
    ensures
        forall|i: int, j: int|
            0 <= i < j < cut_points(s).len() ==> cut_points(s)[i] < cut_points(s)[j],
        forall|i: int| 0 <= i < cut_points(s).len() ==> #[trigger] cut_points(s)[i] < utf8_length(s),
        s.len() > 0 ==> cut_points(s).len() > 0 && cut_points(s)[0] == 0,
    decreases s.len(),
{
    if s.len() > 0 {
        let init = s.drop_last();
        cut_points_rise_inside_the_word(init);
        lemma_utf8_length_adds(init, seq![s.last()]);
        assert(init + seq![s.last()] =~= s);
        assert(utf8_length(seq![s.last()]) == char_width(s.last())) by {
            assert(seq![s.last()].drop_first() =~= Seq::<char>::empty());
            assert(utf8_length(Seq::<char>::empty()) == 0);
        }
        if s.len() == 1 {
            assert(init.len() == 0);
            assert(cut_points(init).len() == 0);
            assert(may_cut_before(s, 0));
            assert(utf8_length(init) == 0);
        }
    }
}

} // verus!
