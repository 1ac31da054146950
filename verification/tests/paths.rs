use spotifast::paths::{
    cache_folder_candidate, join, judge_cache_folder, names_absolute_folder, AppDirs, FolderProbe,
};

fn dirs() -> AppDirs {
    AppDirs {
        config: "/home/me/.config/fastpotify".into(),
        state: "/home/me/.local/state/fastpotify".into(),
        cache: "/home/me/.cache/fastpotify/".into(),
    }
}

#[test]
fn files_live_in_their_folders() {
    let d = dirs();
    assert_eq!(d.settings_file(), "/home/me/.config/fastpotify/settings.json");
    assert_eq!(d.skins_dir(), "/home/me/.config/fastpotify/skins");
    assert_eq!(d.milkdrop_dir(), "/home/me/.config/fastpotify/milkdrop");
    assert_eq!(d.session_file(), "/home/me/.local/state/fastpotify/session.json");
    assert_eq!(d.history_file(), "/home/me/.local/state/fastpotify/history.json");
    assert_eq!(
        d.shared_web_token_file(),
        "/home/me/.local/state/fastpotify/shared_web_api_token.json"
    );
    assert_eq!(
        d.personal_web_token_file(),
        "/home/me/.local/state/fastpotify/personal_web_api_token.json"
    );
    assert_eq!(d.legacy_web_token_file(), "/home/me/.local/state/fastpotify/web_api_token.json");
    assert_eq!(d.log_file(), "/home/me/.local/state/fastpotify/fastpotify.log");
    assert_eq!(d.panic_log(), "/home/me/.local/state/fastpotify/panic.log");
    assert_eq!(d.credentials_dir(), "/home/me/.local/state/fastpotify/credentials");
    assert_eq!(d.proxy_secret_file(), "/home/me/.local/state/fastpotify/proxy_password");
    assert_eq!(d.volume_dir(), "/home/me/.local/state/fastpotify/volume");
    // The cache folder already ends in a separator: none is doubled.
    assert_eq!(d.audio_cache_dir(), "/home/me/.cache/fastpotify/audio");
    assert_eq!(d.art_cache_dir(), "/home/me/.cache/fastpotify/art");
    assert_eq!(d.lyrics_cache_dir(), "/home/me/.cache/fastpotify/lyrics");
    assert_eq!(d.playlist_cache_dir(), "/home/me/.cache/fastpotify/playlists");
    assert_eq!(
        d.account_playlist_cache_dir("alice"),
        "/home/me/.cache/fastpotify/playlists/alice"
    );
}

#[test]
fn liked_songs_files_are_named_by_the_hex_of_the_account() {
    let d = dirs();
    assert_eq!(
        d.liked_songs_cache_file("ab/../x"),
        "/home/me/.cache/fastpotify/liked-songs/61622f2e2e2f78.json"
    );
    assert_eq!(d.liked_songs_cache_file("é"), "/home/me/.cache/fastpotify/liked-songs/c3a9.json");
    assert_eq!(d.liked_songs_cache_file(""), "/home/me/.cache/fastpotify/liked-songs/.json");
}

#[test]
fn joining_follows_path_rules() {
    assert_eq!(join("", "a"), "a");
    assert_eq!(join("/a", "/b"), "/b");
    assert_eq!(join("/a/", "b"), "/a/b");
    assert_eq!(join("/a", "b"), "/a/b");
}

#[test]
fn the_named_cache_folder_is_trimmed_and_expands_home() {
    assert_eq!(cache_folder_candidate("", Some("/home/me")), None);
    assert_eq!(cache_folder_candidate("   ", Some("/home/me")), None);
    assert_eq!(cache_folder_candidate(" cache ", None), Some("cache".to_string()));
    assert_eq!(cache_folder_candidate("~", Some("/home/me")), Some("/home/me".to_string()));
    assert_eq!(
        cache_folder_candidate("~/music cache\n", Some("/home/me")),
        Some("/home/me/music cache".to_string())
    );
    assert_eq!(cache_folder_candidate("~\\cache", Some("/home/me")), Some("/home/me/cache".to_string()));
    assert_eq!(cache_folder_candidate("~/cache", None), Some("~/cache".to_string()));
    assert_eq!(cache_folder_candidate("~other", Some("/home/me")), Some("~other".to_string()));
}

#[test]
fn every_refusal_has_its_reason() {
    let folder = Some("/tmp/cache".to_string());
    assert_eq!(judge_cache_folder(None, FolderProbe::Writable).unwrap_err(), "its path is empty");
    assert_eq!(
        judge_cache_folder(Some("cache".into()), FolderProbe::Writable).unwrap_err(),
        "its path is not absolute"
    );
    assert_eq!(
        judge_cache_folder(folder.clone(), FolderProbe::Missing).unwrap_err(),
        "it does not exist"
    );
    assert_eq!(
        judge_cache_folder(folder.clone(), FolderProbe::NotAFolder).unwrap_err(),
        "it is not a folder"
    );
    assert_eq!(
        judge_cache_folder(folder.clone(), FolderProbe::Unrepresentable).unwrap_err(),
        "its path cannot be represented"
    );
    assert_eq!(
        judge_cache_folder(folder.clone(), FolderProbe::Unwritable).unwrap_err(),
        "it cannot be written to"
    );
    assert_eq!(judge_cache_folder(folder, FolderProbe::Writable).unwrap(), "/tmp/cache");
}

#[test]
fn every_account_gets_a_liked_songs_file_of_its_own() {
    let d = dirs();
    let a = d.liked_songs_cache_file("alice");
    let b = d.liked_songs_cache_file("alicf");
    assert_ne!(a, b);
    assert_eq!(
        d.liked_songs_cache_file("../x"),
        "/home/me/.cache/fastpotify/liked-songs/2e2e2f78.json"
    );
    assert_ne!(d.liked_songs_cache_file(""), d.liked_songs_cache_file("\u{0}"));
}

#[test]
fn only_an_absolute_folder_is_looked_for() {
    assert!(names_absolute_folder(&Some("/tmp/cache".into())));
    assert!(!names_absolute_folder(&Some("tmp/cache".into())));
    assert!(!names_absolute_folder(&Some("~/cache".into())));
    assert!(!names_absolute_folder(&None));
    assert_eq!(
        judge_cache_folder(Some("./cache".into()), FolderProbe::Writable).unwrap_err(),
        "its path is not absolute"
    );
}
