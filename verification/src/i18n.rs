//! Interface text in the listener's language: gettext-style lookup in the
//! bundled catalogs, plural choice by each language's rule, and the counted
//! labels built on them.

use vstd::prelude::*;

use crate::catalogs::{catalog, catalog_messages, counted_forms_keep_the_count};
use crate::text::{
    apart, chars_of, decimal, decimal_digits, decimal_string, occurs_in, replace_all,
    replace_text, replacing_leaves_no_pattern, replacing_leaves_the_replacement, same_text,
    string_from_chars,
};

verus! {

/// A language the interface can be shown in.
#[derive(Clone, Copy, Debug, PartialEq, Eq, Structural)]
pub enum Locale {
    English,
    German,
    Spanish,
    Dutch,
    PortugueseBrazil,
    PortuguesePortugal,
    French,
    Swedish,
    Polish,
    Russian,
    Italian,
    Japanese,
    ChineseSimplified,
    ChineseTraditional,
}

impl Default for Locale {
    fn default() -> (l: Self)
        ensures
            l == Locale::English,
    {
        Locale::English
    }
}

/// One translated message of a catalog: its context, its English source
/// (singular and, for a counted phrase, plural), and its translated forms,
/// one per plural form of the language.
#[derive(Clone, Copy)]
pub struct Message {
    pub context: Option<&'static str>,
    pub msgid: &'static str,
    pub msgid_plural: Option<&'static str>,
    pub forms: (&'static str, &'static str, &'static str),
}

/// How many plural forms the language's catalog gives a counted phrase.
pub open spec fn plural_count(locale: Locale) -> nat {
    match locale {
        Locale::Polish | Locale::Russian => 3,
        Locale::Japanese | Locale::ChineseSimplified | Locale::ChineseTraditional => 1,
        _ => 2,
    }
}

/// Which plural form the language uses for `n`: its gettext `plural=`
/// expression.
pub open spec fn plural_index(locale: Locale, n: nat) -> nat {
    match locale {
        Locale::French | Locale::PortugueseBrazil => if n > 1 { 1 } else { 0 },
        Locale::Polish => if n == 1 {
            0
        } else if 2 <= n % 10 <= 4 && (n % 100 < 10 || n % 100 >= 20) {
            1
        } else {
            2
        },
        Locale::Russian => if n % 10 == 1 && n % 100 != 11 {
            0
        } else if 2 <= n % 10 <= 4 && (n % 100 < 10 || n % 100 >= 20) {
            1
        } else {
            2
        },
        Locale::Japanese | Locale::ChineseSimplified | Locale::ChineseTraditional => 0,
        _ => if n != 1 { 1 } else { 0 },
    }
}

/// The view of an optional context.
pub open spec fn context_view(context: Option<&'static str>) -> Option<Seq<char>> {
    match context {
        Some(c) => Some(c@),
        None => None,
    }
}

/// The first message of `messages` with this context and English source.
pub open spec fn find_message(
    messages: Seq<Message>,
    context: Option<Seq<char>>,
    msgid: Seq<char>,
) -> Option<Message>
    decreases messages.len(),
{
    if messages.len() == 0 {
        None
    } else if context_view(messages[0].context) == context && messages[0].msgid@ == msgid {
        Some(messages[0])
    } else {
        find_message(messages.drop_first(), context, msgid)
    }
}

/// The translated form at `index` of a message.
pub open spec fn form_at(message: Message, index: nat) -> Seq<char> {
    if index == 0 {
        message.forms.0@
    } else if index == 1 {
        message.forms.1@
    } else {
        message.forms.2@
    }
}

/// What `gettext` and `pgettext` show: the catalog's translation of
/// `source` in `context`, or the English source where there is none.
pub open spec fn translation(locale: Locale, context: Option<Seq<char>>, source: Seq<char>) -> Seq<
    char,
> {
    match find_message(catalog_messages(locale), context, source) {
        Some(m) => if m.forms.0@.len() > 0 {
            m.forms.0@
        } else {
            source
        },
        None => source,
    }
}

/// The English phrase for `n`: the singular for one, the plural otherwise.
pub open spec fn english_counted(singular: Seq<char>, plural: Seq<char>, n: nat) -> Seq<char> {
    if n == 1 {
        singular
    } else {
        plural
    }
}

/// Whether a message gives all `count` plural forms of its language: a
/// catalog entry missing any of them is incomplete.
pub open spec fn forms_complete(m: Message, count: nat) -> bool {
    &&& m.forms.0@.len() > 0
    &&& count >= 2 ==> m.forms.1@.len() > 0
    &&& count >= 3 ==> m.forms.2@.len() > 0
}

/// Whether a phrase keeps the `{count}` placeholder.
pub open spec fn holds_count(s: Seq<char>) -> bool {
    occurs_in("{count}"@, s)
}

/// Whether each of the first `count` plural forms of a message keeps the
/// `{count}` placeholder.
pub open spec fn forms_hold_count(m: Message, count: nat) -> bool {
    &&& holds_count(m.forms.0@)
    &&& count >= 2 ==> holds_count(m.forms.1@)
    &&& count >= 3 ==> holds_count(m.forms.2@)
}

/// What `ngettext` shows: the catalog's form for `n` by the language's
/// plural rule, or the full English phrase where the catalog has no
/// complete entry for the phrase (one that gives every plural form).
pub open spec fn counted_translation(
    locale: Locale,
    singular: Seq<char>,
    plural: Seq<char>,
    n: nat,
) -> Seq<char> {
    match find_message(catalog_messages(locale), None, singular) {
        Some(m) => if context_view(m.msgid_plural) == Some(plural) && forms_complete(
            m,
            plural_count(locale),
        ) {
            form_at(m, plural_index(locale, n))
        } else {
            english_counted(singular, plural, n)
        },
        None => english_counted(singular, plural, n),
    }
}

fn same_context(a: Option<&'static str>, b: Option<&str>) -> (r: bool)
    ensures
        r == (context_view(a) == match b {
            Some(c) => Some(c@),
            None => None::<Seq<char>>,
        }),
{
    match (a, b) {
        (Some(x), Some(y)) => same_text(x, y),
        (None, None) => true,
        _ => false,
    }
}

/// Finds the message for `source` in `context` in a catalog.
fn lookup(messages: &Vec<Message>, context: Option<&str>, source: &str) -> (r: Option<Message>)
    ensures
        r == find_message(
            messages@,
            match context {
                Some(c) => Some(c@),
                None => None,
            },
            source@,
        ),
{
    let ghost ctx = match context {
        Some(c) => Some(c@),
        None => None::<Seq<char>>,
    };
    let mut i: usize = 0;
    assert(messages@.subrange(0, messages.len() as int) =~= messages@);
    while i < messages.len()
        invariant
            i <= messages.len(),
            ctx == match context {
                Some(c) => Some(c@),
                None => None::<Seq<char>>,
            },
            find_message(messages@.subrange(i as int, messages.len() as int), ctx, source@)
                == find_message(messages@, ctx, source@),
        decreases messages.len() - i,
    {
        let ghost rest = messages@.subrange(i as int, messages.len() as int);
        assert(rest[0] == messages@[i as int]);
        assert(rest.drop_first() =~= messages@.subrange(i + 1, messages.len() as int));
        let m = messages[i];
        if same_context(m.context, context) && same_text(m.msgid, source) {
            return Some(m);
        }
        i += 1;
    }
    assert(messages@.subrange(i as int, messages.len() as int).len() == 0);
    None
}

/// The plural form a language uses for `n`.
pub fn plural_form(locale: Locale, n: u32) -> (i: usize)
    ensures
        i == plural_index(locale, n as nat),
        i < plural_count(locale),
{
    match locale {
        Locale::French | Locale::PortugueseBrazil => if n > 1 {
            1
        } else {
            0
        },
        Locale::Polish => if n == 1 {
            0
        } else if 2 <= n % 10 && n % 10 <= 4 && (n % 100 < 10 || n % 100 >= 20) {
            1
        } else {
            2
        },
        Locale::Russian => if n % 10 == 1 && n % 100 != 11 {
            0
        } else if 2 <= n % 10 && n % 10 <= 4 && (n % 100 < 10 || n % 100 >= 20) {
            1
        } else {
            2
        },
        Locale::Japanese | Locale::ChineseSimplified | Locale::ChineseTraditional => 0,
        _ => if n != 1 {
            1
        } else {
            0
        },
    }
}

fn pick_form(m: Message, index: usize) -> (f: &'static str)
    ensures
        f@ == form_at(m, index as nat),
{
    if index == 0 {
        m.forms.0
    } else if index == 1 {
        m.forms.1
    } else {
        m.forms.2
    }
}

fn complete_entry(m: Message, locale: Locale) -> (r: bool)
    ensures
        r == forms_complete(m, plural_count(locale)),
{
    let count: usize = match locale {
        Locale::Polish | Locale::Russian => 3,
        Locale::Japanese | Locale::ChineseSimplified | Locale::ChineseTraditional => 1,
        _ => 2,
    };
    chars_of(m.forms.0).len() > 0 && (count < 2 || chars_of(m.forms.1).len() > 0) && (count < 3
        || chars_of(m.forms.2).len() > 0)
}

fn translate_chars(locale: Locale, context: Option<&str>, source: &str) -> (r: Vec<char>)
    ensures
        r@ == translation(
            locale,
            match context {
                Some(c) => Some(c@),
                None => None,
            },
            source@,
        ),
{
    let messages = catalog(locale);
    match lookup(&messages, context, source) {
        Some(m) => {
            let form = chars_of(m.forms.0);
            if form.len() > 0 {
                form
            } else {
                chars_of(source)
            }
        },
        None => chars_of(source),
    }
}

fn counted_chars(locale: Locale, singular: &str, plural: &str, count: u32) -> (r: Vec<char>)
    ensures
        r@ == counted_translation(locale, singular@, plural@, count as nat),
{
    let english = if count == 1 {
        chars_of(singular)
    } else {
        chars_of(plural)
    };
    let messages = catalog(locale);
    match lookup(&messages, None, singular) {
        Some(m) => {
            let matches_plural = match m.msgid_plural {
                Some(p) => same_text(p, plural),
                None => false,
            };
            if matches_plural && complete_entry(m, locale) {
                chars_of(pick_form(m, plural_form(locale, count)))
            } else {
                english
            }
        },
        None => english,
    }
}

/// The translation of `source`; the English source is also the fallback
/// for untranslated messages.
pub fn gettext(locale: Locale, source: &str) -> (r: String)
    ensures
        r@ == translation(locale, None, source@),
{
    string_from_chars(&translate_chars(locale, None, source))
}

/// The translation of a phrase whose meaning depends on its interface
/// context.
pub fn pgettext(locale: Locale, context: &str, source: &str) -> (r: String)
    ensures
        r@ == translation(locale, Some(context@), source@),
{
    string_from_chars(&translate_chars(locale, Some(context), source))
}

/// The whole translated phrase for `count`, chosen by the catalog's plural
/// rule.
pub fn ngettext(locale: Locale, singular: &str, plural: &str, count: u32) -> (r: String)
    ensures
        r@ == counted_translation(locale, singular@, plural@, count as nat),
{
    string_from_chars(&counted_chars(locale, singular, plural, count))
}

/// `phrase` with its `{count}` placeholder filled with the decimal `count`.
pub open spec fn with_count(phrase: Seq<char>, count: nat) -> Seq<char> {
    replace_all(phrase, "{count}"@, decimal(count))
}

fn fill_count(phrase: &Vec<char>, count: u32) -> (r: String)
    ensures
        r@ == with_count(phrase@, count as nat),
{
    proof {
        reveal_strlit("{count}");
    }
    let pattern = chars_of("{count}");
    let numeral = decimal_string(count as u64);
    string_from_chars(&replace_text(phrase, &pattern, &numeral))
}

impl Locale {
    /// The Liked Songs subtitle: the playlist and its number of songs.
    pub fn liked_song_count(self, count: u32) -> (r: String)
        ensures
            r@ == with_count(
                counted_translation(
                    self,
                    "Playlist • {count} song"@,
                    "Playlist • {count} songs"@,
                    count as nat,
                ),
                count as nat,
            ),
    {
        fill_count(
            &counted_chars(self, "Playlist • {count} song", "Playlist • {count} songs", count),
            count,
        )
    }

    /// A number of songs.
    pub fn song_count(self, count: u32) -> (r: String)
        ensures
            r@ == with_count(
                counted_translation(self, "{count} song"@, "{count} songs"@, count as nat),
                count as nat,
            ),
    {
        fill_count(&counted_chars(self, "{count} song", "{count} songs", count), count)
    }

    /// A number of playlists.
    pub fn playlist_count(self, count: u32) -> (r: String)
        ensures
            r@ == with_count(
                counted_translation(self, "{count} playlist"@, "{count} playlists"@, count as nat),
                count as nat,
            ),
    {
        fill_count(&counted_chars(self, "{count} playlist", "{count} playlists", count), count)
    }

    /// The number of playlists a folder holds.
    pub fn folder_playlist_count(self, count: u32) -> (r: String)
        ensures
            r@ == with_count(
                counted_translation(
                    self,
                    "Folder • {count} playlist"@,
                    "Folder • {count} playlists"@,
                    count as nat,
                ),
                count as nat,
            ),
    {
        fill_count(
            &counted_chars(self, "Folder • {count} playlist", "Folder • {count} playlists", count),
            count,
        )
    }

    /// A folder's name with whether it is collapsed, as one phrase for
    /// screen readers.
    pub fn folder_state_label(self, name: &str, collapsed: bool) -> (r: String)
        ensures
            r@ == replace_all(
                translation(
                    self,
                    None,
                    if collapsed {
                        "{name}, folder, collapsed"@
                    } else {
                        "{name}, folder, expanded"@
                    },
                ),
                "{name}"@,
                name@,
            ),
    {
        proof {
            reveal_strlit("{name}");
        }
        let label = if collapsed {
            translate_chars(self, None, "{name}, folder, collapsed")
        } else {
            translate_chars(self, None, "{name}, folder, expanded")
        };
        string_from_chars(&replace_text(&label, &chars_of("{name}"), &chars_of(name)))
    }
}

/// English is the interface's source language: every message shows its
/// source, and a counted phrase its singular for one and plural otherwise.
pub proof fn english_shows_the_source(context: Option<Seq<char>>, source: Seq<char>, plural: Seq<char>, n: nat)
    ensures
        translation(Locale::English, context, source) == source,
        counted_translation(Locale::English, source, plural, n) == english_counted(source, plural, n),
{
}

/// A message a catalog does not translate, in the given context, shows
/// its English source; a counted phrase it does not translate shows the
/// whole English phrase for the count.
pub proof fn untranslated_messages_show_the_english_source(
    locale: Locale,
    context: Option<Seq<char>>,
    source: Seq<char>,
    plural: Seq<char>,
    n: nat,
)
    requires
        find_message(catalog_messages(locale), context, source) is None,
    ensures
        translation(locale, context, source) == source,
        context is None ==> counted_translation(locale, source, plural, n) == english_counted(
            source,
            plural,
            n,
        ),
{
}

/// A lookup finds only a message with exactly the context and source it
/// asked for: a translation made for one context never answers for
/// another, nor for a phrase without context.
pub proof fn contexts_do_not_leak(messages: Seq<Message>, context: Option<Seq<char>>, msgid: Seq<char>)
    ensures
        find_message(messages, context, msgid) matches Some(m) ==> context_view(m.context) == context
            && m.msgid@ == msgid,
    decreases messages.len(),
{
    if messages.len() > 0 {
        contexts_do_not_leak(messages.drop_first(), context, msgid);
    }
}

/// Every count falls on one of the language's plural forms.
pub proof fn plural_forms_cover_every_count(locale: Locale, n: nat)
    ensures
        plural_index(locale, n) < plural_count(locale),
{
}

/// Which counts each language puts in which form, as its catalog's
/// Plural-Forms header decides:
/// - English, German, Spanish, Dutch, Portuguese (Portugal), Swedish and
///   Italian use the singular for one and only one;
/// - French and Portuguese (Brazil) use it for zero and one;
/// - Polish uses it for one only, the second form for 2-4, 22-24, 32-34 and
///   so on (but not 12-14), and the third for every other count, zero
///   included;
/// - Russian uses the first form for 1, 21, 31 and so on (but not 11), the
///   second as Polish does, and the third for the rest;
/// - Japanese and both Chinese scripts have one form for every count.
pub proof fn each_language_picks_its_plural_form(n: nat)
    ensures
        forall|l: Locale|
            (l == Locale::English || l == Locale::German || l == Locale::Spanish || l == Locale::Dutch
                || l == Locale::PortuguesePortugal || l == Locale::Swedish || l == Locale::Italian)
                ==> (#[trigger] plural_index(l, n) == 0 <==> n == 1) && (plural_index(l, n) == 1
                <==> n != 1),
        plural_index(Locale::French, n) == 0 <==> n <= 1,
        plural_index(Locale::French, n) == 1 <==> n >= 2,
        plural_index(Locale::PortugueseBrazil, n) == 0 <==> n <= 1,
        plural_index(Locale::PortugueseBrazil, n) == 1 <==> n >= 2,
        plural_index(Locale::Polish, n) == 0 <==> n == 1,
        plural_index(Locale::Polish, n) == 1 <==> (2 <= n % 10 <= 4 && !(12 <= n % 100 <= 14)),
        plural_index(Locale::Polish, 0) == 2,
        n != 1 && !(2 <= n % 10 <= 4 && !(12 <= n % 100 <= 14)) ==> plural_index(Locale::Polish, n)
            == 2,
        plural_index(Locale::Russian, n) == 0 <==> (n % 10 == 1 && n % 100 != 11),
        plural_index(Locale::Russian, n) == 1 <==> (2 <= n % 10 <= 4 && !(12 <= n % 100 <= 14)),
        plural_index(Locale::Japanese, n) == 0,
        plural_index(Locale::ChineseSimplified, n) == 0,
        plural_index(Locale::ChineseTraditional, n) == 0,
{
}

/// A counted phrase shows its count: the numeral is there, and no
/// `{count}` placeholder is left.
pub open spec fn shows_count(phrase: Seq<char>, n: nat) -> bool {
    occurs_in(decimal(n), phrase) && !occurs_in("{count}"@, phrase)
}

proof fn lemma_found_is_listed(messages: Seq<Message>, context: Option<Seq<char>>, msgid: Seq<char>)
    ensures
        find_message(messages, context, msgid) matches Some(m) ==> exists|i: int|
            0 <= i < messages.len() && #[trigger] messages[i] == m,
    decreases messages.len(),
{
    if messages.len() > 0 && !(context_view(messages[0].context) == context && messages[0].msgid@
        == msgid) {
        lemma_found_is_listed(messages.drop_first(), context, msgid);
        if let Some(m) = find_message(messages, context, msgid) {
            let i = choose|i: int| 0 <= i < messages.drop_first().len() && #[trigger] messages.drop_first()[i] == m;
            assert(messages[i + 1] == m);
        }
    } else if messages.len() > 0 {
        assert(messages[0] == messages[0]);
    }
}

proof fn lemma_filling_shows_count(phrase: Seq<char>, n: nat)
    requires
        holds_count(phrase),
    ensures
        shows_count(with_count(phrase, n), n),
{
    reveal_strlit("{count}");
    decimal_digits(n);
    let pat = "{count}"@;
    assert(apart(decimal(n), pat)) by {
        assert forall|i: int, j: int| 0 <= i < decimal(n).len() && 0 <= j < pat.len() implies decimal(n)[i] != pat[j] by {
            assert('0' <= decimal(n)[i] <= '9');
        }
    }
    replacing_leaves_the_replacement(phrase, pat, decimal(n));
    replacing_leaves_no_pattern(phrase, pat, decimal(n));
}

proof fn lemma_counted_holds_count(locale: Locale, singular: Seq<char>, plural: Seq<char>, n: nat)
    requires
        holds_count(singular),
        holds_count(plural),
    ensures
        holds_count(counted_translation(locale, singular, plural, n)),
{
    let messages = catalog_messages(locale);
    lemma_found_is_listed(messages, None, singular);
    if let Some(m) = find_message(messages, None, singular) {
        if context_view(m.msgid_plural) == Some(plural) && forms_complete(m, plural_count(locale)) {
            let i = choose|i: int| 0 <= i < messages.len() && #[trigger] messages[i] == m;
            counted_forms_keep_the_count(locale);
            assert(messages[i].msgid_plural is Some);
            assert(forms_hold_count(m, plural_count(locale)));
            assert(plural_index(locale, n) < plural_count(locale));
        }
    }
}

/// Every count the interface writes out shows its number, in every
/// language: the numeral is in the phrase and no `{count}` placeholder is
/// left, for the Liked Songs subtitle, a number of songs, a number of
/// playlists and a folder's number of playlists alike.
pub proof fn counted_phrases_show_the_number(locale: Locale, n: nat)
    ensures
        shows_count(
            with_count(
                counted_translation(locale, "Playlist • {count} song"@, "Playlist • {count} songs"@, n),
                n,
            ),
            n,
        ),
        shows_count(with_count(counted_translation(locale, "{count} song"@, "{count} songs"@, n), n), n),
        shows_count(
            with_count(counted_translation(locale, "{count} playlist"@, "{count} playlists"@, n), n),
            n,
        ),
        shows_count(
            with_count(
                counted_translation(locale, "Folder • {count} playlist"@, "Folder • {count} playlists"@, n),
                n,
            ),
            n,
        ),
{
    reveal_strlit("{count}");
    reveal_strlit("Playlist • {count} song");
    reveal_strlit("Playlist • {count} songs");
    reveal_strlit("{count} song");
    reveal_strlit("{count} songs");
    reveal_strlit("{count} playlist");
    reveal_strlit("{count} playlists");
    reveal_strlit("Folder • {count} playlist");
    reveal_strlit("Folder • {count} playlists");
    let pat = "{count}"@;
    assert("Playlist • {count} song"@.subrange(11int, 11int + pat.len()) =~= pat);
    assert("Playlist • {count} songs"@.subrange(11int, 11int + pat.len()) =~= pat);
    assert("{count} song"@.subrange(0int, 0int + pat.len()) =~= pat);
    assert("{count} songs"@.subrange(0int, 0int + pat.len()) =~= pat);
    assert("{count} playlist"@.subrange(0int, 0int + pat.len()) =~= pat);
    assert("{count} playlists"@.subrange(0int, 0int + pat.len()) =~= pat);
    assert("Folder • {count} playlist"@.subrange(9int, 9int + pat.len()) =~= pat);
    assert("Folder • {count} playlists"@.subrange(9int, 9int + pat.len()) =~= pat);
    lemma_counted_holds_count(locale, "Playlist • {count} song"@, "Playlist • {count} songs"@, n);
    lemma_counted_holds_count(locale, "{count} song"@, "{count} songs"@, n);
    lemma_counted_holds_count(locale, "{count} playlist"@, "{count} playlists"@, n);
    lemma_counted_holds_count(locale, "Folder • {count} playlist"@, "Folder • {count} playlists"@, n);
    lemma_filling_shows_count(counted_translation(locale, "Playlist • {count} song"@, "Playlist • {count} songs"@, n), n);
    lemma_filling_shows_count(counted_translation(locale, "{count} song"@, "{count} songs"@, n), n);
    lemma_filling_shows_count(counted_translation(locale, "{count} playlist"@, "{count} playlists"@, n), n);
    lemma_filling_shows_count(counted_translation(locale, "Folder • {count} playlist"@, "Folder • {count} playlists"@, n), n);
}

} // verus!
