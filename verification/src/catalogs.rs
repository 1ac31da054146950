//! The bundled translation catalogs: for each language the messages it
//! translates, as the catalog files hold them.

use vstd::prelude::*;

use crate::i18n::{forms_hold_count, plural_count, Locale, Message};

verus! {
/// The German catalog.
pub open spec fn german_messages() -> Seq<Message> {
    seq![
        Message {
            context: None,
            msgid: "Home",
            msgid_plural: None,
            forms: ("Start", "", ""),
        },
        Message {
            context: Some("lyrics"),
            msgid: "Follow",
            msgid_plural: None,
            forms: ("Folgen", "", ""),
        },
        Message {
            context: None,
            msgid: "Playlist • {count} song",
            msgid_plural: Some("Playlist • {count} songs"),
            forms: ("Playlist • {count} Titel", "Playlist • {count} Titel", ""),
        },
        Message {
            context: None,
            msgid: "{count} song",
            msgid_plural: Some("{count} songs"),
            forms: ("{count} Titel", "{count} Titel", ""),
        },
        Message {
            context: None,
            msgid: "{count} playlist",
            msgid_plural: Some("{count} playlists"),
            forms: ("{count} Playlist", "{count} Playlists", ""),
        },
        Message {
            context: None,
            msgid: "Folder • {count} playlist",
            msgid_plural: Some("Folder • {count} playlists"),
            forms: ("Ordner • {count} Playlist", "Ordner • {count} Playlists", ""),
        },
        Message {
            context: None,
            msgid: "{name}, folder, collapsed",
            msgid_plural: None,
            forms: ("{name}, Ordner, eingeklappt", "", ""),
        },
        Message {
            context: None,
            msgid: "{name}, folder, expanded",
            msgid_plural: None,
            forms: ("{name}, Ordner, ausgeklappt", "", ""),
        },
    ]
}

fn german_catalog() -> (v: Vec<Message>)
    ensures
        v@ == german_messages(),
{
    let v = vec![
        Message {
            context: None,
            msgid: "Home",
            msgid_plural: None,
            forms: ("Start", "", ""),
        },
        Message {
            context: Some("lyrics"),
            msgid: "Follow",
            msgid_plural: None,
            forms: ("Folgen", "", ""),
        },
        Message {
            context: None,
            msgid: "Playlist • {count} song",
            msgid_plural: Some("Playlist • {count} songs"),
            forms: ("Playlist • {count} Titel", "Playlist • {count} Titel", ""),
        },
        Message {
            context: None,
            msgid: "{count} song",
            msgid_plural: Some("{count} songs"),
            forms: ("{count} Titel", "{count} Titel", ""),
        },
        Message {
            context: None,
            msgid: "{count} playlist",
            msgid_plural: Some("{count} playlists"),
            forms: ("{count} Playlist", "{count} Playlists", ""),
        },
        Message {
            context: None,
            msgid: "Folder • {count} playlist",
            msgid_plural: Some("Folder • {count} playlists"),
            forms: ("Ordner • {count} Playlist", "Ordner • {count} Playlists", ""),
        },
        Message {
            context: None,
            msgid: "{name}, folder, collapsed",
            msgid_plural: None,
            forms: ("{name}, Ordner, eingeklappt", "", ""),
        },
        Message {
            context: None,
            msgid: "{name}, folder, expanded",
            msgid_plural: None,
            forms: ("{name}, Ordner, ausgeklappt", "", ""),
        },
    ];
    assert(v@ =~= german_messages());
    v
}

/// The Spanish catalog.
pub open spec fn spanish_messages() -> Seq<Message> {
    seq![
        Message {
            context: None,
            msgid: "Playlist • {count} song",
            msgid_plural: Some("Playlist • {count} songs"),
            forms: ("Playlist • {count} canción", "Playlist • {count} canciones", ""),
        },
    ]
}

fn spanish_catalog() -> (v: Vec<Message>)
    ensures
        v@ == spanish_messages(),
{
    let v = vec![
        Message {
            context: None,
            msgid: "Playlist • {count} song",
            msgid_plural: Some("Playlist • {count} songs"),
            forms: ("Playlist • {count} canción", "Playlist • {count} canciones", ""),
        },
    ];
    assert(v@ =~= spanish_messages());
    v
}

/// The Dutch catalog.
pub open spec fn dutch_messages() -> Seq<Message> {
    seq![
        Message {
            context: None,
            msgid: "Playlist • {count} song",
            msgid_plural: Some("Playlist • {count} songs"),
            forms: ("Playlist • {count} nummer", "Playlist • {count} nummers", ""),
        },
    ]
}

fn dutch_catalog() -> (v: Vec<Message>)
    ensures
        v@ == dutch_messages(),
{
    let v = vec![
        Message {
            context: None,
            msgid: "Playlist • {count} song",
            msgid_plural: Some("Playlist • {count} songs"),
            forms: ("Playlist • {count} nummer", "Playlist • {count} nummers", ""),
        },
    ];
    assert(v@ =~= dutch_messages());
    v
}

/// The PortugueseBrazil catalog.
pub open spec fn portuguese_brazil_messages() -> Seq<Message> {
    seq![
        Message {
            context: None,
            msgid: "Playlist • {count} song",
            msgid_plural: Some("Playlist • {count} songs"),
            forms: ("Playlist • {count} música", "Playlist • {count} músicas", ""),
        },
    ]
}

fn portuguese_brazil_catalog() -> (v: Vec<Message>)
    ensures
        v@ == portuguese_brazil_messages(),
{
    let v = vec![
        Message {
            context: None,
            msgid: "Playlist • {count} song",
            msgid_plural: Some("Playlist • {count} songs"),
            forms: ("Playlist • {count} música", "Playlist • {count} músicas", ""),
        },
    ];
    assert(v@ =~= portuguese_brazil_messages());
    v
}

/// The PortuguesePortugal catalog.
pub open spec fn portuguese_portugal_messages() -> Seq<Message> {
    seq![
        Message {
            context: None,
            msgid: "Playlist • {count} song",
            msgid_plural: Some("Playlist • {count} songs"),
            forms: ("Playlist • {count} música", "Playlist • {count} músicas", ""),
        },
    ]
}

fn portuguese_portugal_catalog() -> (v: Vec<Message>)
    ensures
        v@ == portuguese_portugal_messages(),
{
    let v = vec![
        Message {
            context: None,
            msgid: "Playlist • {count} song",
            msgid_plural: Some("Playlist • {count} songs"),
            forms: ("Playlist • {count} música", "Playlist • {count} músicas", ""),
        },
    ];
    assert(v@ =~= portuguese_portugal_messages());
    v
}

/// The French catalog.
pub open spec fn french_messages() -> Seq<Message> {
    seq![
        Message {
            context: None,
            msgid: "Playlist • {count} song",
            msgid_plural: Some("Playlist • {count} songs"),
            forms: ("Playlist • {count} titre", "Playlist • {count} titres", ""),
        },
    ]
}

fn french_catalog() -> (v: Vec<Message>)
    ensures
        v@ == french_messages(),
{
    let v = vec![
        Message {
            context: None,
            msgid: "Playlist • {count} song",
            msgid_plural: Some("Playlist • {count} songs"),
            forms: ("Playlist • {count} titre", "Playlist • {count} titres", ""),
        },
    ];
    assert(v@ =~= french_messages());
    v
}

/// The Swedish catalog.
pub open spec fn swedish_messages() -> Seq<Message> {
    seq![
        Message {
            context: None,
            msgid: "Playlist • {count} song",
            msgid_plural: Some("Playlist • {count} songs"),
            forms: ("Spellista • {count} låt", "Spellista • {count} låtar", ""),
        },
    ]
}

fn swedish_catalog() -> (v: Vec<Message>)
    ensures
        v@ == swedish_messages(),
{
    let v = vec![
        Message {
            context: None,
            msgid: "Playlist • {count} song",
            msgid_plural: Some("Playlist • {count} songs"),
            forms: ("Spellista • {count} låt", "Spellista • {count} låtar", ""),
        },
    ];
    assert(v@ =~= swedish_messages());
    v
}

/// The Polish catalog.
pub open spec fn polish_messages() -> Seq<Message> {
    seq![
        Message {
            context: None,
            msgid: "Playlist • {count} song",
            msgid_plural: Some("Playlist • {count} songs"),
            forms: ("Playlista • {count} utwór", "Playlista • {count} utwory", "Playlista • {count} utworów"),
        },
        Message {
            context: None,
            msgid: "{count} playlist",
            msgid_plural: Some("{count} playlists"),
            forms: ("{count} playlista", "{count} playlisty", "{count} playlist"),
        },
        Message {
            context: None,
            msgid: "Folder • {count} playlist",
            msgid_plural: Some("Folder • {count} playlists"),
            forms: ("Folder • {count} playlista", "Folder • {count} playlisty", "Folder • {count} playlist"),
        },
    ]
}

fn polish_catalog() -> (v: Vec<Message>)
    ensures
        v@ == polish_messages(),
{
    let v = vec![
        Message {
            context: None,
            msgid: "Playlist • {count} song",
            msgid_plural: Some("Playlist • {count} songs"),
            forms: ("Playlista • {count} utwór", "Playlista • {count} utwory", "Playlista • {count} utworów"),
        },
        Message {
            context: None,
            msgid: "{count} playlist",
            msgid_plural: Some("{count} playlists"),
            forms: ("{count} playlista", "{count} playlisty", "{count} playlist"),
        },
        Message {
            context: None,
            msgid: "Folder • {count} playlist",
            msgid_plural: Some("Folder • {count} playlists"),
            forms: ("Folder • {count} playlista", "Folder • {count} playlisty", "Folder • {count} playlist"),
        },
    ];
    assert(v@ =~= polish_messages());
    v
}

/// The Russian catalog.
pub open spec fn russian_messages() -> Seq<Message> {
    seq![
        Message {
            context: None,
            msgid: "Playlist • {count} song",
            msgid_plural: Some("Playlist • {count} songs"),
            forms: ("Плейлист • {count} трек", "Плейлист • {count} трека", "Плейлист • {count} треков"),
        },
        Message {
            context: None,
            msgid: "{count} playlist",
            msgid_plural: Some("{count} playlists"),
            forms: ("{count} плейлист", "{count} плейлиста", "{count} плейлистов"),
        },
        Message {
            context: None,
            msgid: "Folder • {count} playlist",
            msgid_plural: Some("Folder • {count} playlists"),
            forms: ("Папка • {count} плейлист", "Папка • {count} плейлиста", "Папка • {count} плейлистов"),
        },
    ]
}

fn russian_catalog() -> (v: Vec<Message>)
    ensures
        v@ == russian_messages(),
{
    let v = vec![
        Message {
            context: None,
            msgid: "Playlist • {count} song",
            msgid_plural: Some("Playlist • {count} songs"),
            forms: ("Плейлист • {count} трек", "Плейлист • {count} трека", "Плейлист • {count} треков"),
        },
        Message {
            context: None,
            msgid: "{count} playlist",
            msgid_plural: Some("{count} playlists"),
            forms: ("{count} плейлист", "{count} плейлиста", "{count} плейлистов"),
        },
        Message {
            context: None,
            msgid: "Folder • {count} playlist",
            msgid_plural: Some("Folder • {count} playlists"),
            forms: ("Папка • {count} плейлист", "Папка • {count} плейлиста", "Папка • {count} плейлистов"),
        },
    ];
    assert(v@ =~= russian_messages());
    v
}

/// The Italian catalog.
pub open spec fn italian_messages() -> Seq<Message> {
    seq![
        Message {
            context: None,
            msgid: "Playlist • {count} song",
            msgid_plural: Some("Playlist • {count} songs"),
            forms: ("Playlist • {count} brano", "Playlist • {count} brani", ""),
        },
    ]
}

fn italian_catalog() -> (v: Vec<Message>)
    ensures
        v@ == italian_messages(),
{
    let v = vec![
        Message {
            context: None,
            msgid: "Playlist • {count} song",
            msgid_plural: Some("Playlist • {count} songs"),
            forms: ("Playlist • {count} brano", "Playlist • {count} brani", ""),
        },
    ];
    assert(v@ =~= italian_messages());
    v
}

/// The Japanese catalog.
pub open spec fn japanese_messages() -> Seq<Message> {
    seq![
        Message {
            context: Some("lyrics"),
            msgid: "Follow",
            msgid_plural: None,
            forms: ("追従", "", ""),
        },
        Message {
            context: None,
            msgid: "Playlist • {count} song",
            msgid_plural: Some("Playlist • {count} songs"),
            forms: ("プレイリスト • {count}曲", "", ""),
        },
        Message {
            context: None,
            msgid: "{count} song",
            msgid_plural: Some("{count} songs"),
            forms: ("{count}曲", "", ""),
        },
        Message {
            context: None,
            msgid: "Folder • {count} playlist",
            msgid_plural: Some("Folder • {count} playlists"),
            forms: ("フォルダー • {count}件のプレイリスト", "", ""),
        },
    ]
}

fn japanese_catalog() -> (v: Vec<Message>)
    ensures
        v@ == japanese_messages(),
{
    let v = vec![
        Message {
            context: Some("lyrics"),
            msgid: "Follow",
            msgid_plural: None,
            forms: ("追従", "", ""),
        },
        Message {
            context: None,
            msgid: "Playlist • {count} song",
            msgid_plural: Some("Playlist • {count} songs"),
            forms: ("プレイリスト • {count}曲", "", ""),
        },
        Message {
            context: None,
            msgid: "{count} song",
            msgid_plural: Some("{count} songs"),
            forms: ("{count}曲", "", ""),
        },
        Message {
            context: None,
            msgid: "Folder • {count} playlist",
            msgid_plural: Some("Folder • {count} playlists"),
            forms: ("フォルダー • {count}件のプレイリスト", "", ""),
        },
    ];
    assert(v@ =~= japanese_messages());
    v
}

/// The ChineseSimplified catalog.
pub open spec fn chinese_simplified_messages() -> Seq<Message> {
    seq![
        Message {
            context: None,
            msgid: "Playlist • {count} song",
            msgid_plural: Some("Playlist • {count} songs"),
            forms: ("歌单 • {count} 首歌曲", "", ""),
        },
    ]
}

fn chinese_simplified_catalog() -> (v: Vec<Message>)
    ensures
        v@ == chinese_simplified_messages(),
{
    let v = vec![
        Message {
            context: None,
            msgid: "Playlist • {count} song",
            msgid_plural: Some("Playlist • {count} songs"),
            forms: ("歌单 • {count} 首歌曲", "", ""),
        },
    ];
    assert(v@ =~= chinese_simplified_messages());
    v
}

/// The ChineseTraditional catalog.
pub open spec fn chinese_traditional_messages() -> Seq<Message> {
    seq![
        Message {
            context: None,
            msgid: "Playlist • {count} song",
            msgid_plural: Some("Playlist • {count} songs"),
            forms: ("播放清單 • {count} 首歌曲", "", ""),
        },
    ]
}

fn chinese_traditional_catalog() -> (v: Vec<Message>)
    ensures
        v@ == chinese_traditional_messages(),
{
    let v = vec![
        Message {
            context: None,
            msgid: "Playlist • {count} song",
            msgid_plural: Some("Playlist • {count} songs"),
            forms: ("播放清單 • {count} 首歌曲", "", ""),
        },
    ];
    assert(v@ =~= chinese_traditional_messages());
    v
}

/// The messages a language's catalog translates; English has none, its
/// source text being the interface's own.
pub open spec fn catalog_messages(locale: Locale) -> Seq<Message> {
    match locale {
        Locale::English => Seq::empty(),
        Locale::German => german_messages(),
        Locale::Spanish => spanish_messages(),
        Locale::Dutch => dutch_messages(),
        Locale::PortugueseBrazil => portuguese_brazil_messages(),
        Locale::PortuguesePortugal => portuguese_portugal_messages(),
        Locale::French => french_messages(),
        Locale::Swedish => swedish_messages(),
        Locale::Polish => polish_messages(),
        Locale::Russian => russian_messages(),
        Locale::Italian => italian_messages(),
        Locale::Japanese => japanese_messages(),
        Locale::ChineseSimplified => chinese_simplified_messages(),
        Locale::ChineseTraditional => chinese_traditional_messages(),
    }
}

/// The catalog of `locale`.
pub fn catalog(locale: Locale) -> (v: Vec<Message>)
    ensures
        v@ == catalog_messages(locale),
{
    match locale {
        Locale::English => Vec::new(),
        Locale::German => german_catalog(),
        Locale::Spanish => spanish_catalog(),
        Locale::Dutch => dutch_catalog(),
        Locale::PortugueseBrazil => portuguese_brazil_catalog(),
        Locale::PortuguesePortugal => portuguese_portugal_catalog(),
        Locale::French => french_catalog(),
        Locale::Swedish => swedish_catalog(),
        Locale::Polish => polish_catalog(),
        Locale::Russian => russian_catalog(),
        Locale::Italian => italian_catalog(),
        Locale::Japanese => japanese_catalog(),
        Locale::ChineseSimplified => chinese_simplified_catalog(),
        Locale::ChineseTraditional => chinese_traditional_catalog(),
    }
}

/// Every counted phrase of every catalog keeps its `{count}` placeholder in
/// each plural form its language has.
pub proof fn counted_forms_keep_the_count(locale: Locale)
    ensures
        forall|i: int|
            0 <= i < catalog_messages(locale).len() && (#[trigger] catalog_messages(locale)[i]).msgid_plural
                is Some ==> forms_hold_count(catalog_messages(locale)[i], plural_count(locale)),
{
    reveal_strlit("{count}");
    match locale {
        Locale::English => {},
        Locale::German => {
            let ms = german_messages();
            assert forall|i: int| 0 <= i < ms.len() && (#[trigger] ms[i]).msgid_plural is Some implies forms_hold_count(ms[i], 2) by {
                if i == 0 {
                } else if i == 1 {
                } else if i == 2 {
                    reveal_strlit("Playlist • {count} Titel");
                    assert(ms[2].forms.0@.subrange(11int, 11int + "{count}"@.len()) =~= "{count}"@);
                    reveal_strlit("Playlist • {count} Titel");
                    assert(ms[2].forms.1@.subrange(11int, 11int + "{count}"@.len()) =~= "{count}"@);
                } else if i == 3 {
                    reveal_strlit("{count} Titel");
                    assert(ms[3].forms.0@.subrange(0int, 0int + "{count}"@.len()) =~= "{count}"@);
                    reveal_strlit("{count} Titel");
                    assert(ms[3].forms.1@.subrange(0int, 0int + "{count}"@.len()) =~= "{count}"@);
                } else if i == 4 {
                    reveal_strlit("{count} Playlist");
                    assert(ms[4].forms.0@.subrange(0int, 0int + "{count}"@.len()) =~= "{count}"@);
                    reveal_strlit("{count} Playlists");
                    assert(ms[4].forms.1@.subrange(0int, 0int + "{count}"@.len()) =~= "{count}"@);
                } else if i == 5 {
                    reveal_strlit("Ordner • {count} Playlist");
                    assert(ms[5].forms.0@.subrange(9int, 9int + "{count}"@.len()) =~= "{count}"@);
                    reveal_strlit("Ordner • {count} Playlists");
                    assert(ms[5].forms.1@.subrange(9int, 9int + "{count}"@.len()) =~= "{count}"@);
                } else if i == 6 {
                } else if i == 7 {
                }
            }
        },
        Locale::Spanish => {
            let ms = spanish_messages();
            assert forall|i: int| 0 <= i < ms.len() && (#[trigger] ms[i]).msgid_plural is Some implies forms_hold_count(ms[i], 2) by {
                if i == 0 {
                    reveal_strlit("Playlist • {count} canción");
                    assert(ms[0].forms.0@.subrange(11int, 11int + "{count}"@.len()) =~= "{count}"@);
                    reveal_strlit("Playlist • {count} canciones");
                    assert(ms[0].forms.1@.subrange(11int, 11int + "{count}"@.len()) =~= "{count}"@);
                }
            }
        },
        Locale::Dutch => {
            let ms = dutch_messages();
            assert forall|i: int| 0 <= i < ms.len() && (#[trigger] ms[i]).msgid_plural is Some implies forms_hold_count(ms[i], 2) by {
                if i == 0 {
                    reveal_strlit("Playlist • {count} nummer");
                    assert(ms[0].forms.0@.subrange(11int, 11int + "{count}"@.len()) =~= "{count}"@);
                    reveal_strlit("Playlist • {count} nummers");
                    assert(ms[0].forms.1@.subrange(11int, 11int + "{count}"@.len()) =~= "{count}"@);
                }
            }
        },
        Locale::PortugueseBrazil => {
            let ms = portuguese_brazil_messages();
            assert forall|i: int| 0 <= i < ms.len() && (#[trigger] ms[i]).msgid_plural is Some implies forms_hold_count(ms[i], 2) by {
                if i == 0 {
                    reveal_strlit("Playlist • {count} música");
                    assert(ms[0].forms.0@.subrange(11int, 11int + "{count}"@.len()) =~= "{count}"@);
                    reveal_strlit("Playlist • {count} músicas");
                    assert(ms[0].forms.1@.subrange(11int, 11int + "{count}"@.len()) =~= "{count}"@);
                }
            }
        },
        Locale::PortuguesePortugal => {
            let ms = portuguese_portugal_messages();
            assert forall|i: int| 0 <= i < ms.len() && (#[trigger] ms[i]).msgid_plural is Some implies forms_hold_count(ms[i], 2) by {
                if i == 0 {
                    reveal_strlit("Playlist • {count} música");
                    assert(ms[0].forms.0@.subrange(11int, 11int + "{count}"@.len()) =~= "{count}"@);
                    reveal_strlit("Playlist • {count} músicas");
                    assert(ms[0].forms.1@.subrange(11int, 11int + "{count}"@.len()) =~= "{count}"@);
                }
            }
        },
        Locale::French => {
            let ms = french_messages();
            assert forall|i: int| 0 <= i < ms.len() && (#[trigger] ms[i]).msgid_plural is Some implies forms_hold_count(ms[i], 2) by {
                if i == 0 {
                    reveal_strlit("Playlist • {count} titre");
                    assert(ms[0].forms.0@.subrange(11int, 11int + "{count}"@.len()) =~= "{count}"@);
                    reveal_strlit("Playlist • {count} titres");
                    assert(ms[0].forms.1@.subrange(11int, 11int + "{count}"@.len()) =~= "{count}"@);
                }
            }
        },
        Locale::Swedish => {
            let ms = swedish_messages();
            assert forall|i: int| 0 <= i < ms.len() && (#[trigger] ms[i]).msgid_plural is Some implies forms_hold_count(ms[i], 2) by {
                if i == 0 {
                    reveal_strlit("Spellista • {count} låt");
                    assert(ms[0].forms.0@.subrange(12int, 12int + "{count}"@.len()) =~= "{count}"@);
                    reveal_strlit("Spellista • {count} låtar");
                    assert(ms[0].forms.1@.subrange(12int, 12int + "{count}"@.len()) =~= "{count}"@);
                }
            }
        },
        Locale::Polish => {
            let ms = polish_messages();
            assert forall|i: int| 0 <= i < ms.len() && (#[trigger] ms[i]).msgid_plural is Some implies forms_hold_count(ms[i], 3) by {
                if i == 0 {
                    reveal_strlit("Playlista • {count} utwór");
                    assert(ms[0].forms.0@.subrange(12int, 12int + "{count}"@.len()) =~= "{count}"@);
                    reveal_strlit("Playlista • {count} utwory");
                    assert(ms[0].forms.1@.subrange(12int, 12int + "{count}"@.len()) =~= "{count}"@);
                    reveal_strlit("Playlista • {count} utworów");
                    assert(ms[0].forms.2@.subrange(12int, 12int + "{count}"@.len()) =~= "{count}"@);
                } else if i == 1 {
                    reveal_strlit("{count} playlista");
                    assert(ms[1].forms.0@.subrange(0int, 0int + "{count}"@.len()) =~= "{count}"@);
                    reveal_strlit("{count} playlisty");
                    assert(ms[1].forms.1@.subrange(0int, 0int + "{count}"@.len()) =~= "{count}"@);
                    reveal_strlit("{count} playlist");
                    assert(ms[1].forms.2@.subrange(0int, 0int + "{count}"@.len()) =~= "{count}"@);
                } else if i == 2 {
                    reveal_strlit("Folder • {count} playlista");
                    assert(ms[2].forms.0@.subrange(9int, 9int + "{count}"@.len()) =~= "{count}"@);
                    reveal_strlit("Folder • {count} playlisty");
                    assert(ms[2].forms.1@.subrange(9int, 9int + "{count}"@.len()) =~= "{count}"@);
                    reveal_strlit("Folder • {count} playlist");
                    assert(ms[2].forms.2@.subrange(9int, 9int + "{count}"@.len()) =~= "{count}"@);
                }
            }
        },
        Locale::Russian => {
            let ms = russian_messages();
            assert forall|i: int| 0 <= i < ms.len() && (#[trigger] ms[i]).msgid_plural is Some implies forms_hold_count(ms[i], 3) by {
                if i == 0 {
                    reveal_strlit("Плейлист • {count} трек");
                    assert(ms[0].forms.0@.subrange(11int, 11int + "{count}"@.len()) =~= "{count}"@);
                    reveal_strlit("Плейлист • {count} трека");
                    assert(ms[0].forms.1@.subrange(11int, 11int + "{count}"@.len()) =~= "{count}"@);
                    reveal_strlit("Плейлист • {count} треков");
                    assert(ms[0].forms.2@.subrange(11int, 11int + "{count}"@.len()) =~= "{count}"@);
                } else if i == 1 {
                    reveal_strlit("{count} плейлист");
                    assert(ms[1].forms.0@.subrange(0int, 0int + "{count}"@.len()) =~= "{count}"@);
                    reveal_strlit("{count} плейлиста");
                    assert(ms[1].forms.1@.subrange(0int, 0int + "{count}"@.len()) =~= "{count}"@);
                    reveal_strlit("{count} плейлистов");
                    assert(ms[1].forms.2@.subrange(0int, 0int + "{count}"@.len()) =~= "{count}"@);
                } else if i == 2 {
                    reveal_strlit("Папка • {count} плейлист");
                    assert(ms[2].forms.0@.subrange(8int, 8int + "{count}"@.len()) =~= "{count}"@);
                    reveal_strlit("Папка • {count} плейлиста");
                    assert(ms[2].forms.1@.subrange(8int, 8int + "{count}"@.len()) =~= "{count}"@);
                    reveal_strlit("Папка • {count} плейлистов");
                    assert(ms[2].forms.2@.subrange(8int, 8int + "{count}"@.len()) =~= "{count}"@);
                }
            }
        },
        Locale::Italian => {
            let ms = italian_messages();
            assert forall|i: int| 0 <= i < ms.len() && (#[trigger] ms[i]).msgid_plural is Some implies forms_hold_count(ms[i], 2) by {
                if i == 0 {
                    reveal_strlit("Playlist • {count} brano");
                    assert(ms[0].forms.0@.subrange(11int, 11int + "{count}"@.len()) =~= "{count}"@);
                    reveal_strlit("Playlist • {count} brani");
                    assert(ms[0].forms.1@.subrange(11int, 11int + "{count}"@.len()) =~= "{count}"@);
                }
            }
        },
        Locale::Japanese => {
            let ms = japanese_messages();
            assert forall|i: int| 0 <= i < ms.len() && (#[trigger] ms[i]).msgid_plural is Some implies forms_hold_count(ms[i], 1) by {
                if i == 0 {
                } else if i == 1 {
                    reveal_strlit("プレイリスト • {count}曲");
                    assert(ms[1].forms.0@.subrange(9int, 9int + "{count}"@.len()) =~= "{count}"@);
                } else if i == 2 {
                    reveal_strlit("{count}曲");
                    assert(ms[2].forms.0@.subrange(0int, 0int + "{count}"@.len()) =~= "{count}"@);
                } else if i == 3 {
                    reveal_strlit("フォルダー • {count}件のプレイリスト");
                    assert(ms[3].forms.0@.subrange(8int, 8int + "{count}"@.len()) =~= "{count}"@);
                }
            }
        },
        Locale::ChineseSimplified => {
            let ms = chinese_simplified_messages();
            assert forall|i: int| 0 <= i < ms.len() && (#[trigger] ms[i]).msgid_plural is Some implies forms_hold_count(ms[i], 1) by {
                if i == 0 {
                    reveal_strlit("歌单 • {count} 首歌曲");
                    assert(ms[0].forms.0@.subrange(5int, 5int + "{count}"@.len()) =~= "{count}"@);
                }
            }
        },
        Locale::ChineseTraditional => {
            let ms = chinese_traditional_messages();
            assert forall|i: int| 0 <= i < ms.len() && (#[trigger] ms[i]).msgid_plural is Some implies forms_hold_count(ms[i], 1) by {
                if i == 0 {
                    reveal_strlit("播放清單 • {count} 首歌曲");
                    assert(ms[0].forms.0@.subrange(7int, 7int + "{count}"@.len()) =~= "{count}"@);
                }
            }
        },
    }
}

} // verus!
