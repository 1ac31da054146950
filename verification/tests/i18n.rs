use spotifast::i18n::{gettext, ngettext, pgettext, plural_form, Locale};

#[test]
fn missing_messages_use_the_english_source() {
    assert_eq!(gettext(Locale::German, "Home"), "Start");
    let missing = "Not translated yet";
    assert_eq!(gettext(Locale::German, missing), missing);
    assert_eq!(gettext(Locale::English, "Home"), "Home");
    assert_eq!(Locale::default(), Locale::English);
}

#[test]
fn contextual_messages_do_not_leak_into_other_meanings() {
    let source = "Follow";
    let context = "lyrics";
    assert_eq!(pgettext(Locale::German, context, source), "Folgen");
    assert_eq!(pgettext(Locale::Japanese, context, source), "追従");
    assert_eq!(pgettext(Locale::English, context, source), source);
    assert_eq!(pgettext(Locale::German, "artist", source), source);
    assert_eq!(gettext(Locale::German, source), source);
}

#[test]
fn zero_one_and_many_songs_have_complete_localized_labels() {
    for (count, english, german) in [
        (0, "Playlist • 0 songs", "Playlist • 0 Titel"),
        (1, "Playlist • 1 song", "Playlist • 1 Titel"),
        (2, "Playlist • 2 songs", "Playlist • 2 Titel"),
        (100_000, "Playlist • 100000 songs", "Playlist • 100000 Titel"),
    ] {
        assert_eq!(Locale::English.liked_song_count(count), english);
        assert_eq!(Locale::German.liked_song_count(count), german);
    }
}

#[test]
fn short_counts_are_localized_without_parsing_complete_phrases() {
    assert_eq!(Locale::German.song_count(2), "2 Titel");
    assert_eq!(Locale::Japanese.song_count(2), "2曲");
    assert_eq!(Locale::German.playlist_count(1), "1 Playlist");
    assert_eq!(Locale::German.playlist_count(2), "2 Playlists");
    assert_eq!(Locale::Polish.playlist_count(2), "2 playlisty");
    assert_eq!(Locale::Russian.playlist_count(5), "5 плейлистов");
    for (locale, count, expected) in [
        (Locale::English, 1, "Folder • 1 playlist"),
        (Locale::English, 2, "Folder • 2 playlists"),
        (Locale::German, 1, "Ordner • 1 Playlist"),
        (Locale::German, 2, "Ordner • 2 Playlists"),
        (Locale::Polish, 1, "Folder • 1 playlista"),
        (Locale::Polish, 2, "Folder • 2 playlisty"),
        (Locale::Polish, 5, "Folder • 5 playlist"),
        (Locale::Russian, 1, "Папка • 1 плейлист"),
        (Locale::Russian, 3, "Папка • 3 плейлиста"),
        (Locale::Russian, 5, "Папка • 5 плейлистов"),
        (Locale::Japanese, 1, "フォルダー • 1件のプレイリスト"),
        (Locale::Japanese, 4, "フォルダー • 4件のプレイリスト"),
    ] {
        assert_eq!(
            locale.folder_playlist_count(count),
            expected,
            "{locale:?} with {count}"
        );
    }
}

#[test]
fn folder_state_labels_are_completely_localized_phrases() {
    assert_eq!(
        Locale::English.folder_state_label("Road trips", true),
        "Road trips, folder, collapsed"
    );
    assert_eq!(
        Locale::German.folder_state_label("Unterwegs", false),
        "Unterwegs, Ordner, ausgeklappt"
    );
}

#[test]
fn locale_plural_rules_cover_european_and_asian_forms() {
    for (locale, count, expected) in [
        (Locale::Spanish, 1, "Playlist • 1 canción"),
        (Locale::Spanish, 2, "Playlist • 2 canciones"),
        (Locale::French, 0, "Playlist • 0 titre"),
        (Locale::French, 2, "Playlist • 2 titres"),
        (Locale::Italian, 1, "Playlist • 1 brano"),
        (Locale::Italian, 2, "Playlist • 2 brani"),
        (Locale::PortugueseBrazil, 0, "Playlist • 0 música"),
        (Locale::PortuguesePortugal, 0, "Playlist • 0 músicas"),
        (Locale::Dutch, 2, "Playlist • 2 nummers"),
        (Locale::Swedish, 2, "Spellista • 2 låtar"),
        (Locale::Polish, 1, "Playlista • 1 utwór"),
        (Locale::Polish, 2, "Playlista • 2 utwory"),
        (Locale::Polish, 5, "Playlista • 5 utworów"),
        (Locale::Polish, 21, "Playlista • 21 utworów"),
        (Locale::Polish, 22, "Playlista • 22 utwory"),
        (Locale::Russian, 1, "Плейлист • 1 трек"),
        (Locale::Russian, 11, "Плейлист • 11 треков"),
        (Locale::Russian, 21, "Плейлист • 21 трек"),
        (Locale::Russian, 22, "Плейлист • 22 трека"),
        (Locale::Russian, 112, "Плейлист • 112 треков"),
        (Locale::Japanese, 0, "プレイリスト • 0曲"),
        (Locale::Japanese, 2, "プレイリスト • 2曲"),
        (Locale::ChineseSimplified, 2, "歌单 • 2 首歌曲"),
        (Locale::ChineseTraditional, 2, "播放清單 • 2 首歌曲"),
    ] {
        assert_eq!(locale.liked_song_count(count), expected);
    }
}

#[test]
fn english_counted_phrases_follow_the_count() {
    assert_eq!(ngettext(Locale::English, "{count} song", "{count} songs", 1), "{count} song");
    assert_eq!(ngettext(Locale::English, "{count} song", "{count} songs", 0), "{count} songs");
    assert_eq!(Locale::English.song_count(1), "1 song");
    assert_eq!(Locale::English.playlist_count(4294967295), "4294967295 playlists");
}

#[test]
fn a_counted_phrase_without_an_entry_shows_the_english_phrase() {
    // Spanish has no catalog entry for the short song count.
    assert_eq!(Locale::Spanish.song_count(1), "1 song");
    assert_eq!(Locale::Spanish.song_count(3), "3 songs");
    // A phrase whose plural differs from the catalog's is not translated.
    assert_eq!(ngettext(Locale::German, "{count} song", "{count} tunes", 2), "{count} tunes");
}

#[test]
fn plural_rules_choose_the_catalog_form() {
    assert_eq!(plural_form(Locale::Russian, 111), 2);
    assert_eq!(plural_form(Locale::Russian, 1001), 0);
    assert_eq!(plural_form(Locale::Polish, 12), 2);
    assert_eq!(plural_form(Locale::Polish, 104), 1);
    assert_eq!(plural_form(Locale::French, 1), 0);
    assert_eq!(plural_form(Locale::German, 0), 1);
    assert_eq!(plural_form(Locale::Japanese, 7), 0);
}

#[test]
fn folder_names_are_kept_as_given() {
    assert_eq!(
        Locale::German.folder_state_label("{name} & co", true),
        "{name} & co, Ordner, eingeklappt"
    );
    assert_eq!(Locale::Spanish.folder_state_label("Viajes", false), "Viajes, folder, expanded");
}

#[test]
fn every_count_shows_its_number_in_every_language() {
    let locales = [
        Locale::English,
        Locale::German,
        Locale::Spanish,
        Locale::Dutch,
        Locale::PortugueseBrazil,
        Locale::PortuguesePortugal,
        Locale::French,
        Locale::Swedish,
        Locale::Polish,
        Locale::Russian,
        Locale::Italian,
        Locale::Japanese,
        Locale::ChineseSimplified,
        Locale::ChineseTraditional,
    ];
    for locale in locales {
        for count in [0u32, 1, 2, 5, 11, 21, 22, 105, 4_000_000_000] {
            let number = count.to_string();
            for phrase in [
                locale.liked_song_count(count),
                locale.song_count(count),
                locale.playlist_count(count),
                locale.folder_playlist_count(count),
            ] {
                assert!(!phrase.contains("{count}"), "{phrase}");
                assert!(phrase.contains(&number), "{phrase}");
            }
        }
    }
}
