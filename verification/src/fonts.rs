//! The playlist font search: which files it opens, how deep it looks, and
//! which installed face it keeps.

use vstd::prelude::*;

use crate::paths::{path_before, precedes};
use crate::text::{chars_of, same_text};

verus! {

/// How deep the search walks each font directory. Distributions nest a level
/// or two; nothing legitimate goes deeper, and the bound also ends any
/// symlink loop.
pub const FONT_SCAN_DEPTH: usize = 4;

/// The most faces read from one collection. A corrupt or hostile file can
/// claim billions; no real one holds more than a few dozen.
pub const MAX_FACES: u32 = 64;

/// A face from an installed font file.
pub struct PlaylistFace {
    pub bytes: Vec<u8>,
    pub index: u32,
}

/// The last part of a `/`-separated path.
pub open spec fn last_part(path: Seq<char>) -> Seq<char>
    decreases path.len(),
{
    if path.len() == 0 {
        path
    } else if path.last() == '/' {
        Seq::empty()
    } else {
        last_part(path.drop_last()).push(path.last())
    }
}

/// Where the extension of a file name starts: just after its last dot,
/// where that dot is not the name's first character.
pub open spec fn extension_of(name: Seq<char>) -> Option<Seq<char>>
    decreases name.len(),
{
    if name.len() <= 1 {
        None
    } else if name.last() == '.' {
        Some(Seq::empty())
    } else {
        match extension_of(name.drop_last()) {
            Some(e) => Some(e.push(name.last())),
            None => None,
        }
    }
}

/// `c` in lower case, for ASCII letters.
pub open spec fn ascii_lower(c: char) -> char {
    if 'A' <= c <= 'Z' {
        ((c as u32) + 32) as char
    } else {
        c
    }
}

/// Whether `e` is, ignoring ASCII case, one of the font extensions this
/// can open: `ttf`, `otf`, `ttc` and `otc`.
pub open spec fn is_font_extension(e: Seq<char>) -> bool {
    e.len() == 3 && {
        let a = ascii_lower(e[0]);
        let b = ascii_lower(e[1]);
        let c = ascii_lower(e[2]);
        (a == 't' && b == 't' && (c == 'f' || c == 'c')) || (a == 'o' && b == 't' && (c == 'f' || c
            == 'c'))
    }
}

fn lower(c: char) -> (r: char)
    ensures
        r == ascii_lower(c),
{
    if 'A' <= c && c <= 'Z' {
        let b = c as u8;
        assert(b == c as u32);
        (b + 32) as char
    } else {
        c
    }
}

/// `path` without what ends it but names no further part: trailing
/// separators, and a `.` that follows one.
pub open spec fn without_trailing_separators(path: Seq<char>) -> Seq<char>
    decreases path.len(),
{
    if path.len() > 0 && path.last() == '/' {
        without_trailing_separators(path.drop_last())
    } else if path.len() >= 2 && path.last() == '.' && path[path.len() - 2] == '/' {
        without_trailing_separators(path.drop_last())
    } else {
        path
    }
}

/// The name of the file a path leads to.
pub open spec fn file_name(path: Seq<char>) -> Seq<char> {
    last_part(without_trailing_separators(path))
}

/// Whether a path names a font file this can open, by its extension.
pub fn is_font_file(path: &str) -> (r: bool)
    ensures
        r == match extension_of(file_name(path@)) {
            Some(e) => is_font_extension(e),
            None => false,
        },
{
    let chars = chars_of(path);
    // Trailing separators, and `.` parts among them, name nothing.
    let mut end: usize = chars.len();
    assert(chars@.subrange(0, chars.len() as int) =~= chars@);
    while end > 0 && (chars[end - 1] == '/' || (end >= 2 && chars[end - 1] == '.' && chars[end - 2]
        == '/'))
        invariant
            end <= chars.len(),
            without_trailing_separators(chars@) == without_trailing_separators(
                chars@.subrange(0, end as int),
            ),
        decreases end,
    {
        assert(chars@.subrange(0, end as int).drop_last() =~= chars@.subrange(0, end - 1));
        end -= 1;
    }
    let ghost whole = chars@.subrange(0, end as int);
    assert(without_trailing_separators(chars@) == whole);
    // The last part starts after the last separator.
    let mut start: usize = end;
    assert(whole.subrange(0, end as int) =~= whole);
    assert(last_part(whole) + chars@.subrange(end as int, end as int) =~= last_part(whole));
    while start > 0 && chars[start - 1] != '/'
        invariant
            start <= end <= chars.len(),
            whole == chars@.subrange(0, end as int),
            last_part(whole) == last_part(chars@.subrange(0, start as int)) + chars@.subrange(
                start as int,
                end as int,
            ),
        decreases start,
    {
        let ghost prefix = chars@.subrange(0, start as int);
        assert(prefix.drop_last() =~= chars@.subrange(0, start - 1));
        assert(last_part(chars@.subrange(0, start - 1)).push(prefix.last()) + chars@.subrange(
            start as int,
            end as int,
        ) =~= last_part(chars@.subrange(0, start - 1)) + chars@.subrange(start - 1, end as int));
        start -= 1;
    }
    proof {
        assert(last_part(chars@.subrange(0, start as int)) =~= Seq::<char>::empty());
    }
    let ghost name = chars@.subrange(start as int, end as int);
    assert(last_part(whole) =~= name);
    assert(file_name(path@) == name);
    // The extension starts after the name's last dot.
    let mut dot: usize = end;
    proof {
        match extension_of(name) {
            Some(e) => {
                assert(e + chars@.subrange(end as int, end as int) =~= e);
            },
            None => {},
        }
        assert(chars@.subrange(start as int, end as int) =~= name);
    }
    while dot > start && dot - start > 1 && chars[dot - 1] != '.'
        invariant
            start <= dot <= end <= chars.len(),
            name == chars@.subrange(start as int, end as int),
            extension_of(name) == match extension_of(chars@.subrange(start as int, dot as int)) {
                Some(e) => Some(e + chars@.subrange(dot as int, end as int)),
                None => None,
            },
        decreases dot,
    {
        let ghost part = chars@.subrange(start as int, dot as int);
        assert(part.drop_last() =~= chars@.subrange(start as int, dot - 1));
        proof {
            match extension_of(chars@.subrange(start as int, dot - 1)) {
                Some(e) => {
                    assert(e.push(part.last()) + chars@.subrange(dot as int, end as int) =~= e
                        + chars@.subrange(dot - 1, end as int));
                },
                None => {},
            }
        }
        dot -= 1;
    }
    if dot - start <= 1 {
        proof {
            assert(extension_of(chars@.subrange(start as int, dot as int)) is None);
        }
        return false;
    }
    let ghost part = chars@.subrange(start as int, dot as int);
    proof {
        assert(part.last() == '.');
        assert(extension_of(part) == Some(Seq::<char>::empty()));
        assert(Seq::<char>::empty() + chars@.subrange(dot as int, end as int) =~= chars@.subrange(
            dot as int,
            end as int,
        ));
    }
    if end - dot != 3 {
        return false;
    }
    let a = lower(chars[dot]);
    let b = lower(chars[dot + 1]);
    let c = lower(chars[dot + 2]);
    (a == 't' && b == 't' && (c == 'f' || c == 'c')) || (a == 'o' && b == 't' && (c == 'f' || c == 'c'))
}

/// Whether the search reads a directory found `depth` levels below a font
/// directory (the font directory itself is level 0).
pub fn reads_directory_at(depth: usize) -> (r: bool)
    ensures
        r == (depth < FONT_SCAN_DEPTH),
{
    depth < FONT_SCAN_DEPTH
}

/// How many faces of a collection that claims `count` of them are read.
pub fn faces_to_read(count: u32) -> (r: u32)
    ensures
        r == if count < MAX_FACES { count } else { MAX_FACES },
{
    if count < MAX_FACES {
        count
    } else {
        MAX_FACES
    }
}

/// What `str::to_lowercase` gives for a text: its Unicode lower case.
pub uninterp spec fn lowercase(s: Seq<char>) -> Seq<char>;

/// Calls `str::to_lowercase`. The contract claims only that the result is
/// the same for the same text; what the Unicode case mapping gives is left
/// to std.
#[verifier::external_body]
fn to_lowercase(s: &str) -> (r: String)
    ensures
        r@ == lowercase(s@),
{
    s.to_lowercase()
}

/// Where a family stands among the `wanted` ones: the position of its
/// lower-case name, where it is wanted at all.
pub fn family_rank(family: &str, wanted: &[&str]) -> (r: Option<usize>)
    ensures
        match r {
            Some(i) => {
                &&& i < wanted@.len()
                &&& wanted@[i as int]@ == lowercase(family@)
                &&& forall|j: int| 0 <= j < i ==> wanted@[j]@ != lowercase(family@)
            },
            None => forall|j: int| 0 <= j < wanted@.len() ==> wanted@[j]@ != lowercase(family@),
        },
{
    let name = to_lowercase(family);
    let mut i: usize = 0;
    while i < wanted.len()
        invariant
            i <= wanted@.len(),
            name@ == lowercase(family@),
            forall|j: int| 0 <= j < i ==> wanted@[j]@ != lowercase(family@),
        decreases wanted@.len() - i,
    {
        if same_text(wanted[i], name.as_str()) {
            return Some(i);
        }
        i += 1;
    }
    None
}

/// Whether a face whose family stands at `rank` beats the one held at
/// `held_rank`, given whether its file comes first: a better family wins,
/// and between faces of one family the file that comes first.
pub fn beats(rank: usize, held_rank: usize, comes_first: bool) -> (r: bool)
    ensures
        r == (rank < held_rank || (rank == held_rank && comes_first)),
{
    rank < held_rank || (rank == held_rank && comes_first)
}

/// Whether a face of the family at `rank`, in the file at `path`, ranks above
/// the one held so far (any face ranks above none).
pub fn ranks_above(rank: usize, path: &str, best: &Option<(usize, String, u32)>) -> (r: bool)
    ensures
        r == match best {
            None => true,
            Some(held) => rank < held.0 || (rank == held.0 && path_before(path@, held.1@)),
        },
{
    match best {
        None => true,
        Some(held) => {
            let comes_first = precedes(path, held.1.as_str());
            beats(rank, held.0, comes_first)
        },
    }
}

/// Takes a face into the search: where it is a regular face of a wanted
/// family and ranks above the one held, it is held instead.
pub fn consider_face(
    family: &str,
    regular: bool,
    wanted: &[&str],
    path: &str,
    index: u32,
    best: &mut Option<(usize, String, u32)>,
)
    ensures
        ({
            let taken = regular && exists|i: int|
                0 <= i < wanted@.len() && #[trigger] wanted@[i]@ == lowercase(family@) && match *old(best) {
                    None => true,
                    Some(held) => i < held.0 || (i == held.0 && path_before(path@, held.1@)),
                } && forall|j: int| 0 <= j < i ==> wanted@[j]@ != lowercase(family@);
            if taken {
                &&& final(best).is_some()
                &&& wanted@[final(best).unwrap().0 as int]@ == lowercase(family@)
                &&& forall|j: int| 0 <= j < final(best).unwrap().0 ==> wanted@[j]@ != lowercase(family@)
                &&& final(best).unwrap().1@ == path@
                &&& final(best).unwrap().2 == index
            } else {
                *final(best) == *old(best)
            }
        }),
        old(best).is_some() ==> final(best).is_some() && final(best).unwrap().0 <= old(best).unwrap().0,
{
    if !regular {
        return;
    }
    let rank = match family_rank(family, wanted) {
        Some(rank) => rank,
        None => {
            return;
        },
    };
    proof {
        assert(wanted@[rank as int]@ == lowercase(family@));
    }
    if ranks_above(rank, path, best) {
        *best = Some((rank, path.to_owned(), index));
    } else {
        proof {
            assert forall|i: int|
                0 <= i < wanted@.len() && #[trigger] wanted@[i]@ == lowercase(family@) && forall|j: int|
                    0 <= j < i ==> wanted@[j]@ != lowercase(family@) implies i == rank by {
                if i < rank {
                } else if i > rank {
                    assert(wanted@[rank as int]@ == lowercase(family@));
                }
            }
        }
    }
}

} // verus!
