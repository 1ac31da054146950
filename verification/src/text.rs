//! Text building blocks shared by the other modules: characters of a
//! string, decimal numerals, placeholder replacement and prefix tests.

use vstd::prelude::*;

verus! {

/// The characters of `s`, in order.
pub fn chars_of(s: &str) -> (v: Vec<char>)
    ensures
        v@ == s@,
{
    let mut v: Vec<char> = Vec::new();
    for c in it: s.chars()
        invariant
            v@ == it.seq().take(it.index() as int),
            it.seq() == s@,
    {
        v.push(c);
    }
    v
}

/// `std`'s `FromIterator<char> for String`: the characters, in order.
#[verifier::external_body]
pub(crate) fn string_from_chars(v: &Vec<char>) -> (s: String)
    ensures
        s@ == v@,
{
    v.iter().collect()
}

/// Whether two strings hold the same characters.
pub fn same_text(a: &str, b: &str) -> (r: bool)
    ensures
        r == (a@ == b@),
{
    let x = chars_of(a);
    let y = chars_of(b);
    if x.len() != y.len() {
        return false;
    }
    let mut i: usize = 0;
    while i < x.len()
        invariant
            x@ == a@,
            y@ == b@,
            x.len() == y.len(),
            i <= x.len(),
            forall|j: int| 0 <= j < i ==> x@[j] == y@[j],
        decreases x.len() - i,
    {
        if x[i] != y[i] {
            return false;
        }
        i += 1;
    }
    assert(x@ =~= y@);
    true
}

/// The ASCII digit for a value below ten.
pub open spec fn digit_char(d: nat) -> char {
    if d == 0 {
        '0'
    } else if d == 1 {
        '1'
    } else if d == 2 {
        '2'
    } else if d == 3 {
        '3'
    } else if d == 4 {
        '4'
    } else if d == 5 {
        '5'
    } else if d == 6 {
        '6'
    } else if d == 7 {
        '7'
    } else if d == 8 {
        '8'
    } else {
        '9'
    }
}

/// The decimal numeral of `n`, without sign or leading zeros.
pub open spec fn decimal(n: nat) -> Seq<char>
    decreases n,
{
    if n < 10 {
        seq![digit_char(n)]
    } else {
        decimal(n / 10).push(digit_char(n % 10))
    }
}

fn digit(d: u64) -> (c: char)
    requires
        d < 10,
    ensures
        c == digit_char(d as nat),
{
    if d == 0 {
        '0'
    } else if d == 1 {
        '1'
    } else if d == 2 {
        '2'
    } else if d == 3 {
        '3'
    } else if d == 4 {
        '4'
    } else if d == 5 {
        '5'
    } else if d == 6 {
        '6'
    } else if d == 7 {
        '7'
    } else if d == 8 {
        '8'
    } else {
        '9'
    }
}

/// Appends the decimal numeral of `n` to `out`.
pub fn push_decimal(n: u64, out: &mut Vec<char>)
    ensures
        final(out)@ == old(out)@ + decimal(n as nat),
    decreases n,
{
    if n < 10 {
        out.push(digit(n));
    } else {
        push_decimal(n / 10, out);
        out.push(digit(n % 10));
    }
}

/// The decimal numeral of `n`, as `n.to_string()` writes it.
pub fn decimal_string(n: u64) -> (s: Vec<char>)
    ensures
        s@ == decimal(n as nat),
{
    let mut out: Vec<char> = Vec::new();
    push_decimal(n, &mut out);
    assert(out@ =~= decimal(n as nat));
    out
}

/// `s` with every occurrence of `pat` replaced by `rep`, scanning left to
/// right without overlaps, as `str::replace` does.
pub open spec fn replace_all(s: Seq<char>, pat: Seq<char>, rep: Seq<char>) -> Seq<char>
    recommends
        pat.len() > 0,
    decreases s.len(),
{
    if pat.len() == 0 || s.len() < pat.len() {
        s
    } else if s.subrange(0, pat.len() as int) == pat {
        rep + replace_all(s.subrange(pat.len() as int, s.len() as int), pat, rep)
    } else {
        seq![s[0]] + replace_all(s.drop_first(), pat, rep)
    }
}

/// Whether `pat` occurs somewhere in `s`.
pub open spec fn occurs_in(pat: Seq<char>, s: Seq<char>) -> bool {
    exists|k: int| 0 <= k && k + pat.len() <= s.len() && #[trigger] s.subrange(k, k + pat.len()) == pat
}

/// Whether no character of `rep` is a character of `pat`.
pub open spec fn apart(rep: Seq<char>, pat: Seq<char>) -> bool {
    forall|i: int, j: int| 0 <= i < rep.len() && 0 <= j < pat.len() ==> rep[i] != pat[j]
}

/// Every character of a decimal numeral is a digit, and there is one at
/// least.
pub proof fn decimal_digits(n: nat)
    ensures
        decimal(n).len() > 0,
        forall|i: int| 0 <= i < decimal(n).len() ==> '0' <= #[trigger] decimal(n)[i] <= '9',
    decreases n,
{
    if n >= 10 {
        decimal_digits(n / 10);
    }
}

proof fn lemma_replaced_prefix(t: Seq<char>, pat: Seq<char>, rep: Seq<char>, w: Seq<char>)
    requires
        pat.len() > 0,
        rep.len() > 0,
        apart(rep, pat),
        forall|i: int| 0 <= i < w.len() ==> pat.contains(#[trigger] w[i]),
        w.len() <= replace_all(t, pat, rep).len(),
        replace_all(t, pat, rep).subrange(0, w.len() as int) == w,
    ensures
        w.len() <= t.len(),
        t.subrange(0, w.len() as int) == w,
    decreases t.len(),
{
    let r = replace_all(t, pat, rep);
    if w.len() == 0 {
        assert(t.subrange(0, 0) =~= w);
    } else if t.len() < pat.len() {
    } else if t.subrange(0, pat.len() as int) == pat {
        let rest = replace_all(t.subrange(pat.len() as int, t.len() as int), pat, rep);
        assert(r == rep + rest);
        assert(r[0] == w[0]);
        assert(pat.contains(w[0]));
        let j = choose|j: int| 0 <= j < pat.len() && pat[j] == w[0];
        assert(rep[0] != pat[j]);
    } else {
        let tail = t.drop_first();
        let rest = replace_all(tail, pat, rep);
        assert(r == seq![t[0]] + rest);
        assert(r[0] == w[0]);
        let w1 = w.drop_first();
        assert(rest.subrange(0, w1.len() as int) =~= r.subrange(1, w.len() as int));
        assert(r.subrange(1, w.len() as int) =~= w1);
        assert forall|i: int| 0 <= i < w1.len() implies pat.contains(#[trigger] w1[i]) by {
            assert(w1[i] == w[i + 1]);
        }
        lemma_replaced_prefix(tail, pat, rep, w1);
        assert(t.subrange(0, w.len() as int) =~= seq![t[0]] + tail.subrange(0, w1.len() as int));
        assert(w =~= seq![w[0]] + w1);
    }
}

/// Where `pat` occurs in `s`, `rep` occurs in `s` with `pat` replaced by
/// `rep`.
pub proof fn replacing_leaves_the_replacement(s: Seq<char>, pat: Seq<char>, rep: Seq<char>)
    requires
        pat.len() > 0,
        occurs_in(pat, s),
    ensures
        occurs_in(rep, replace_all(s, pat, rep)),
    decreases s.len(),
{
    let r = replace_all(s, pat, rep);
    let k = choose|k: int| 0 <= k && k + pat.len() <= s.len() && #[trigger] s.subrange(k, k + pat.len()) == pat;
    if s.subrange(0, pat.len() as int) == pat {
        let rest = replace_all(s.subrange(pat.len() as int, s.len() as int), pat, rep);
        assert(r == rep + rest);
        assert(r.subrange(0int, 0int + rep.len()) =~= rep);
        assert(occurs_in(rep, r));
    } else {
        assert(k != 0);
        let tail = s.drop_first();
        assert(tail.subrange(k - 1, k - 1 + pat.len()) =~= s.subrange(k, k + pat.len()));
        replacing_leaves_the_replacement(tail, pat, rep);
        let rest = replace_all(tail, pat, rep);
        assert(r == seq![s[0]] + rest);
        let m = choose|m: int| 0 <= m && m + rep.len() <= rest.len() && #[trigger] rest.subrange(m, m + rep.len()) == rep;
        assert(r.subrange(m + 1, m + 1 + rep.len()) =~= rest.subrange(m, m + rep.len()));
        assert(occurs_in(rep, r));
    }
}

/// Replacing `pat` by a text that shares no character with it leaves no
/// `pat` behind.
pub proof fn replacing_leaves_no_pattern(s: Seq<char>, pat: Seq<char>, rep: Seq<char>)
    requires
        pat.len() > 0,
        rep.len() > 0,
        apart(rep, pat),
    ensures
        !occurs_in(pat, replace_all(s, pat, rep)),
    decreases s.len(),
{
    let r = replace_all(s, pat, rep);
    let l = pat.len() as int;
    if s.len() < pat.len() {
    } else if s.subrange(0, l) == pat {
        let tail = s.subrange(l, s.len() as int);
        let rest = replace_all(tail, pat, rep);
        assert(r == rep + rest);
        replacing_leaves_no_pattern(tail, pat, rep);
        if occurs_in(pat, r) {
            let k = choose|k: int| 0 <= k && k + l <= r.len() && #[trigger] r.subrange(k, k + l) == pat;
            if k < rep.len() {
                assert(r.subrange(k, k + l)[0] == r[k]);
                assert(rep[k] != pat[0]);
            } else {
                let m = k - rep.len();
                assert(rest.subrange(m, m + l) =~= r.subrange(k, k + l));
            }
        }
    } else {
        let tail = s.drop_first();
        let rest = replace_all(tail, pat, rep);
        assert(r == seq![s[0]] + rest);
        replacing_leaves_no_pattern(tail, pat, rep);
        if occurs_in(pat, r) {
            let k = choose|k: int| 0 <= k && k + l <= r.len() && #[trigger] r.subrange(k, k + l) == pat;
            if k >= 1 {
                assert(rest.subrange(k - 1, k - 1 + l) =~= r.subrange(k, k + l));
            } else {
                let w = pat.drop_first();
                assert(r.subrange(0, l)[0] == s[0]);
                assert(rest.subrange(0, w.len() as int) =~= r.subrange(1, l));
                assert(r.subrange(1, l) =~= w);
                assert forall|i: int| 0 <= i < w.len() implies pat.contains(#[trigger] w[i]) by {
                    assert(pat[i + 1] == w[i]);
                }
                lemma_replaced_prefix(tail, pat, rep, w);
                assert(s.subrange(0, l) =~= seq![s[0]] + tail.subrange(0, w.len() as int));
                assert(pat =~= seq![pat[0]] + w);
            }
        }
    }
}

fn occurs_here(s: &Vec<char>, pat: &Vec<char>, at: usize) -> (r: bool)
    requires
        at <= s.len(),
    ensures
        r == (at + pat.len() <= s.len() && s@.subrange(at as int, at + pat.len()) == pat@),
{
    if pat.len() > s.len() - at {
        return false;
    }
    let mut k: usize = 0;
    while k < pat.len()
        invariant
            at + pat.len() <= s.len(),
            k <= pat.len(),
            forall|j: int| 0 <= j < k ==> s@[at + j] == pat@[j],
        decreases pat.len() - k,
    {
        if s[at + k] != pat[k] {
            assert(s@.subrange(at as int, at + pat.len())[k as int] != pat@[k as int]);
            return false;
        }
        k += 1;
    }
    assert(s@.subrange(at as int, at + pat.len()) =~= pat@);
    true
}

/// `s` with every occurrence of `pat` replaced by `rep`.
pub fn replace_text(s: &Vec<char>, pat: &Vec<char>, rep: &Vec<char>) -> (r: Vec<char>)
    requires
        pat.len() > 0,
    ensures
        r@ == replace_all(s@, pat@, rep@),
{
    let mut out: Vec<char> = Vec::new();
    let mut i: usize = 0;
    assert(s@.subrange(0, s.len() as int) =~= s@);
    assert(out@ + replace_all(s@, pat@, rep@) =~= replace_all(s@, pat@, rep@));
    while i < s.len()
        invariant
            pat.len() > 0,
            i <= s.len(),
            out@ + replace_all(s@.subrange(i as int, s.len() as int), pat@, rep@) == replace_all(
                s@,
                pat@,
                rep@,
            ),
        decreases s.len() - i,
    {
        let ghost rest = s@.subrange(i as int, s.len() as int);
        if occurs_here(s, pat, i) {
            assert(rest.subrange(0, pat.len() as int) =~= pat@);
            assert(rest.subrange(pat.len() as int, rest.len() as int) =~= s@.subrange(
                i + pat.len(),
                s.len() as int,
            ));
            let mut k: usize = 0;
            let ghost before = out@;
            while k < rep.len()
                invariant
                    k <= rep.len(),
                    out@ == before + rep@.take(k as int),
                decreases rep.len() - k,
            {
                out.push(rep[k]);
                k += 1;
                assert(rep@.take(k as int) =~= rep@.take(k - 1).push(rep@[k - 1]));
            }
            assert(rep@.take(rep.len() as int) =~= rep@);
            assert((before + rep@) + replace_all(s@.subrange(i + pat.len(), s.len() as int), pat@, rep@)
                =~= before + (rep@ + replace_all(s@.subrange(i + pat.len(), s.len() as int), pat@, rep@)));
            i = i + pat.len();
        } else {
            proof {
                if rest.len() >= pat@.len() {
                    assert(rest.subrange(0, pat.len() as int) =~= s@.subrange(i as int, i + pat.len()));
                    assert(rest.subrange(0, pat.len() as int) != pat@);
                }
            }
            assert(rest.drop_first() =~= s@.subrange(i + 1, s.len() as int));
            let ghost before = out@;
            out.push(s[i]);
            assert(before.push(s@[i as int]) + replace_all(s@.subrange(i + 1, s.len() as int), pat@, rep@)
                =~= before + (seq![s@[i as int]] + replace_all(s@.subrange(i + 1, s.len() as int), pat@, rep@)));
            i = i + 1;
        }
    }
    assert(s@.subrange(s.len() as int, s.len() as int) =~= Seq::<char>::empty());
    assert(out@ + Seq::<char>::empty() =~= out@);
    out
}

/// Whether `s` starts with `prefix`.
pub open spec fn starts_with(s: Seq<char>, prefix: Seq<char>) -> bool {
    prefix.len() <= s.len() && s.subrange(0, prefix.len() as int) == prefix
}

/// Appends the characters of `more` to `out`.
pub fn append(out: &mut Vec<char>, more: &Vec<char>)
    ensures
        final(out)@ == old(out)@ + more@,
{
    let ghost start = out@;
    let mut i: usize = 0;
    while i < more.len()
        invariant
            i <= more.len(),
            out@ == start + more@.take(i as int),
        decreases more.len() - i,
    {
        out.push(more[i]);
        i += 1;
        assert(more@.take(i as int) =~= more@.take(i - 1).push(more@[i - 1]));
    }
    assert(more@.take(more.len() as int) =~= more@);
}

/// Whether `char::is_whitespace` holds of `c`: the Unicode `White_Space`
/// characters.
pub open spec fn is_white_space(c: char) -> bool {
    ('\u{9}' <= c <= '\u{d}') || c == ' ' || c == '\u{85}' || c == '\u{a0}' || c == '\u{1680}' || (
    '\u{2000}' <= c <= '\u{200a}') || c == '\u{2028}' || c == '\u{2029}' || c == '\u{202f}' || c
        == '\u{205f}' || c == '\u{3000}'
}

pub fn white_space(c: char) -> (r: bool)
    ensures
        r == is_white_space(c),
{
    ('\u{9}' <= c && c <= '\u{d}') || c == ' ' || c == '\u{85}' || c == '\u{a0}' || c == '\u{1680}'
        || ('\u{2000}' <= c && c <= '\u{200a}') || c == '\u{2028}' || c == '\u{2029}' || c
        == '\u{202f}' || c == '\u{205f}' || c == '\u{3000}'
}

/// How many white-space characters `s` starts with.
pub open spec fn leading_space(s: Seq<char>) -> nat
    decreases s.len(),
{
    if s.len() > 0 && is_white_space(s[0]) {
        1 + leading_space(s.drop_first())
    } else {
        0
    }
}

/// How many white-space characters `s` ends with.
pub open spec fn trailing_space(s: Seq<char>) -> nat
    decreases s.len(),
{
    if s.len() > 0 && is_white_space(s.last()) {
        1 + trailing_space(s.drop_last())
    } else {
        0
    }
}

/// `s` without leading and trailing white space, as `str::trim` gives it.
pub open spec fn trimmed(s: Seq<char>) -> Seq<char> {
    let front = s.subrange(leading_space(s) as int, s.len() as int);
    front.subrange(0, front.len() - trailing_space(front))
}

pub fn trim_chars(s: &Vec<char>) -> (r: Vec<char>)
    ensures
        r@ == trimmed(s@),
{
    let mut start: usize = 0;
    assert(s@.subrange(0, s.len() as int) =~= s@);
    while start < s.len() && white_space(s[start])
        invariant
            start <= s.len(),
            leading_space(s@) == start + leading_space(s@.subrange(start as int, s.len() as int)),
        decreases s.len() - start,
    {
        assert(s@.subrange(start as int, s.len() as int).drop_first() =~= s@.subrange(
            start + 1,
            s.len() as int,
        ));
        start += 1;
    }
    proof {
        assert(leading_space(s@.subrange(start as int, s.len() as int)) == 0);
        assert(s@.subrange(0, s.len() as int) =~= s@);
    }
    let ghost front = s@.subrange(start as int, s.len() as int);
    let mut end: usize = s.len();
    while end > start && white_space(s[end - 1])
        invariant
            start <= end <= s.len(),
            front == s@.subrange(start as int, s.len() as int),
            trailing_space(front) == (s.len() - end) + trailing_space(s@.subrange(start as int, end as int)),
        decreases end - start,
    {
        assert(s@.subrange(start as int, end as int).drop_last() =~= s@.subrange(start as int, end - 1));
        end -= 1;
    }
    proof {
        assert(s@.subrange(start as int, end as int).len() == 0 || !is_white_space(
            s@.subrange(start as int, end as int).last(),
        ));
        assert(trailing_space(s@.subrange(start as int, end as int)) == 0);
        assert(s@.subrange(start as int, s.len() as int) =~= front);
    }
    let mut out: Vec<char> = Vec::new();
    let mut i = start;
    while i < end
        invariant
            start <= i <= end <= s.len(),
            out@ == s@.subrange(start as int, i as int),
        decreases end - i,
    {
        out.push(s[i]);
        i += 1;
        assert(out@ =~= s@.subrange(start as int, i as int));
    }
    assert(out@ =~= trimmed(s@));
    out
}

} // verus!
