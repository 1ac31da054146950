//! Where Spotifast keeps its files: configuration, durable non-secret
//! state, and disposable caches, each below its own folder, and the check a
//! cache folder chosen by the listener must pass.
//!
//! Paths are text with `/` between their parts, which every platform the
//! app runs on accepts.

use vstd::prelude::*;

use vstd::string::StringSliceAdditionalSpecFns;
use vstd::utf8::{encode_utf8, encode_utf8_decode_utf8};

use crate::text::{append, chars_of, string_from_chars, trim_chars, trimmed};

verus! {

/// The folders everything else is kept in.
#[derive(Clone, Debug)]
pub struct AppDirs {
    pub config: String,
    pub state: String,
    pub cache: String,
}

/// `part` below `base`, as `Path::join` builds it: an absolute part stands
/// alone, an empty base adds nothing, and a separator goes between the two
/// unless the base already ends in one.
pub open spec fn join_path(base: Seq<char>, part: Seq<char>) -> Seq<char> {
    if part.len() > 0 && part[0] == '/' {
        part
    } else if base.len() == 0 {
        part
    } else if base.last() == '/' {
        base + part
    } else {
        base + seq!['/'] + part
    }
}

/// Joining keeps both sides whole: a part that does not start at the root
/// ends the result, after the base and exactly one separator between them
/// (none added where the base already ends in one, and nothing before the
/// part for an empty base); a part that starts at the root replaces the
/// base.
pub proof fn joining_keeps_both_sides(base: Seq<char>, part: Seq<char>)
    ensures
        part.len() > 0 && part[0] == '/' ==> join_path(base, part) == part,
        !(part.len() > 0 && part[0] == '/') ==> {
            let r = join_path(base, part);
            &&& r.len() >= base.len() + part.len()
            &&& r.subrange(0, base.len() as int) == base
            &&& r.subrange(r.len() - part.len(), r.len() as int) == part
            &&& base.len() > 0 && base.last() != '/' ==> r.len() == base.len() + 1 + part.len() && r[base.len() as int] == '/'
            &&& (base.len() == 0 || base.last() == '/') ==> r.len() == base.len() + part.len()
        },
{
    if !(part.len() > 0 && part[0] == '/') {
        let r = join_path(base, part);
        assert(r.subrange(0, base.len() as int) =~= base);
        assert(r.subrange(r.len() - part.len(), r.len() as int) =~= part);
    }
}

fn join_chars(base: &Vec<char>, part: &Vec<char>) -> (r: Vec<char>)
    ensures
        r@ == join_path(base@, part@),
{
    let mut out: Vec<char> = Vec::new();
    if part.len() > 0 && part[0] == '/' {
        append(&mut out, part);
        assert(out@ =~= part@);
        return out;
    }
    append(&mut out, base);
    if base.len() > 0 && base[base.len() - 1] != '/' {
        out.push('/');
    }
    append(&mut out, part);
    assert(out@ =~= join_path(base@, part@));
    out
}

/// `part` below `base`.
pub fn join(base: &str, part: &str) -> (r: String)
    ensures
        r@ == join_path(base@, part@),
{
    string_from_chars(&join_chars(&chars_of(base), &chars_of(part)))
}

/// Whether Rust holds the paths `a` and `b` equal: `Path`'s `==`, which
/// compares the paths part by part.
pub uninterp spec fn path_equal(a: Seq<char>, b: Seq<char>) -> bool;

/// Calls `==` on two `std::path::Path`s. The contract claims that the
/// answer is the same for the same two paths, and that a path equals
/// itself (`Path` is `Eq`).
#[verifier::external_body]
pub(crate) fn same_path(a: &str, b: &str) -> (r: bool)
    ensures
        r == path_equal(a@, b@),
        a@ == b@ ==> r,
{
    std::path::Path::new(a) == std::path::Path::new(b)
}

/// Whether Rust orders the path `a` before the path `b`: `Path`'s `<`, which
/// compares the paths part by part.
pub uninterp spec fn path_before(a: Seq<char>, b: Seq<char>) -> bool;

/// Calls `<` on two `std::path::Path`s. The contract claims only that the
/// answer is the same for the same two paths.
#[verifier::external_body]
pub(crate) fn precedes(a: &str, b: &str) -> (r: bool)
    ensures
        r == path_before(a@, b@),
{
    std::path::Path::new(a) < std::path::Path::new(b)
}

/// The lower-case hexadecimal digit for a value below sixteen.
pub open spec fn hex_digit(d: nat) -> char {
    if d < 10 {
        ((d + 48) as u32) as char
    } else {
        ((d + 87) as u32) as char
    }
}

/// Each byte as two lower-case hexadecimal digits, as `{:02x}` writes it.
pub open spec fn hex_lower(bytes: Seq<u8>) -> Seq<char>
    decreases bytes.len(),
{
    if bytes.len() == 0 {
        Seq::empty()
    } else {
        hex_lower(bytes.drop_last()) + seq![
            hex_digit((bytes.last() / 16) as nat),
            hex_digit((bytes.last() % 16) as nat),
        ]
    }
}

fn hex_char(d: u8) -> (c: char)
    requires
        d < 16,
    ensures
        c == hex_digit(d as nat),
{
    let c: char = match d {
        0 => '0',
        1 => '1',
        2 => '2',
        3 => '3',
        4 => '4',
        5 => '5',
        6 => '6',
        7 => '7',
        8 => '8',
        9 => '9',
        10 => 'a',
        11 => 'b',
        12 => 'c',
        13 => 'd',
        14 => 'e',
        _ => 'f',
    };
    c
}

fn hex_of(bytes: &[u8]) -> (r: Vec<char>)
    ensures
        r@ == hex_lower(bytes@),
{
    let mut out: Vec<char> = Vec::new();
    let mut i: usize = 0;
    while i < bytes.len()
        invariant
            i <= bytes@.len(),
            out@ == hex_lower(bytes@.take(i as int)),
        decreases bytes@.len() - i,
    {
        let b = bytes[i];
        out.push(hex_char(b / 16));
        out.push(hex_char(b % 16));
        i += 1;
        assert(bytes@.take(i as int).drop_last() =~= bytes@.take(i - 1));
    }
    assert(bytes@.take(bytes@.len() as int) =~= bytes@);
    out
}

impl AppDirs {
    /// The settings file.
    pub fn settings_file(&self) -> (p: String)
        ensures
            p@ == join_path(self.config@, "settings.json"@),
    {
        join(self.config.as_str(), "settings.json")
    }

    /// Winamp skins the listener has added, as `.wsz` files or folders.
    pub fn skins_dir(&self) -> (p: String)
        ensures
            p@ == join_path(self.config@, "skins"@),
    {
        join(self.config.as_str(), "skins")
    }

    /// MilkDrop presets, as `.milk` files, in folders or not.
    pub fn milkdrop_dir(&self) -> (p: String)
        ensures
            p@ == join_path(self.config@, "milkdrop"@),
    {
        join(self.config.as_str(), "milkdrop")
    }

    /// The saved session.
    pub fn session_file(&self) -> (p: String)
        ensures
            p@ == join_path(self.state@, "session.json"@),
    {
        join(self.state.as_str(), "session.json")
    }

    /// What was played here, which Spotify never hears about.
    pub fn history_file(&self) -> (p: String)
        ensures
            p@ == join_path(self.state@, "history.json"@),
    {
        join(self.state.as_str(), "history.json")
    }

    /// The shared Web API token, kept for migration and sign-out cleanup.
    pub fn shared_web_token_file(&self) -> (p: String)
        ensures
            p@ == join_path(self.state@, "shared_web_api_token.json"@),
    {
        join(self.state.as_str(), "shared_web_api_token.json")
    }

    /// The personal Web API token, kept for migration and sign-out cleanup.
    pub fn personal_web_token_file(&self) -> (p: String)
        ensures
            p@ == join_path(self.state@, "personal_web_api_token.json"@),
    {
        join(self.state.as_str(), "personal_web_api_token.json")
    }

    /// The token file of older releases.
    pub fn legacy_web_token_file(&self) -> (p: String)
        ensures
            p@ == join_path(self.state@, "web_api_token.json"@),
    {
        join(self.state.as_str(), "web_api_token.json")
    }

    /// The log of the current run, replaced at every start.
    pub fn log_file(&self) -> (p: String)
        ensures
            p@ == join_path(self.state@, "fastpotify.log"@),
    {
        join(self.state.as_str(), "fastpotify.log")
    }

    /// Where a panic is recorded before the process dies of it.
    pub fn panic_log(&self) -> (p: String)
        ensures
            p@ == join_path(self.state@, "panic.log"@),
    {
        join(self.state.as_str(), "panic.log")
    }

    /// The saved Spotify credentials.
    pub fn credentials_dir(&self) -> (p: String)
        ensures
            p@ == join_path(self.state@, "credentials"@),
    {
        join(self.state.as_str(), "credentials")
    }

    /// Optional proxy password, owner-only, never written to the settings.
    pub fn proxy_secret_file(&self) -> (p: String)
        ensures
            p@ == join_path(self.state@, "proxy_password"@),
    {
        join(self.state.as_str(), "proxy_password")
    }

    /// The saved volume.
    pub fn volume_dir(&self) -> (p: String)
        ensures
            p@ == join_path(self.state@, "volume"@),
    {
        join(self.state.as_str(), "volume")
    }

    /// Cached audio.
    pub fn audio_cache_dir(&self) -> (p: String)
        ensures
            p@ == join_path(self.cache@, "audio"@),
    {
        join(self.cache.as_str(), "audio")
    }

    /// Cached cover art.
    pub fn art_cache_dir(&self) -> (p: String)
        ensures
            p@ == join_path(self.cache@, "art"@),
    {
        join(self.cache.as_str(), "art")
    }

    /// Cached lyrics.
    pub fn lyrics_cache_dir(&self) -> (p: String)
        ensures
            p@ == join_path(self.cache@, "lyrics"@),
    {
        join(self.cache.as_str(), "lyrics")
    }

    /// Cached playlists.
    pub fn playlist_cache_dir(&self) -> (p: String)
        ensures
            p@ == join_path(self.cache@, "playlists"@),
    {
        join(self.cache.as_str(), "playlists")
    }

    /// Cached playlists of one account.
    pub fn account_playlist_cache_dir(&self, account_id: &str) -> (p: String)
        ensures
            p@ == join_path(join_path(self.cache@, "playlists"@), account_id@),
    {
        let playlists = self.playlist_cache_dir();
        join(playlists.as_str(), account_id)
    }

    /// The cached Liked Songs of one account, named by the hexadecimal
    /// bytes of the account ID, which keeps unusual IDs within the cache.
    pub fn liked_songs_cache_file(&self, account_id: &str) -> (p: String)
        ensures
            p@ == join_path(
                join_path(self.cache@, "liked-songs"@),
                hex_lower(account_id.spec_bytes()) + ".json"@,
            ),
    {
        let mut name = hex_of(account_id.as_bytes());
        let suffix = chars_of(".json");
        append(&mut name, &suffix);
        let folder = chars_of(self.cache.as_str());
        let liked = join_chars(&folder, &chars_of("liked-songs"));
        string_from_chars(&join_chars(&liked, &name))
    }
}

/// Account IDs never leave the cache folder: the Liked Songs file name is
/// made only of hexadecimal digits and its `.json` ending, so it never
/// starts with a separator and never holds one.
pub proof fn account_files_stay_in_the_cache(bytes: Seq<u8>)
    ensures
        forall|i: int| 0 <= i < hex_lower(bytes).len() ==> (#[trigger] hex_lower(bytes)[i] != '/'
            && hex_lower(bytes)[i] != '.'),
        hex_lower(bytes).len() == 2 * bytes.len(),
    decreases bytes.len(),
{
    if bytes.len() > 0 {
        account_files_stay_in_the_cache(bytes.drop_last());
        let b = bytes.last();
        assert(hex_digit((b / 16) as nat) != '/' && hex_digit((b / 16) as nat) != '.');
        assert(hex_digit((b % 16) as nat) != '/' && hex_digit((b % 16) as nat) != '.');
    }
}

proof fn lemma_hex_digit_injective(x: nat, y: nat)
    requires
        x < 16,
        y < 16,
        hex_digit(x) == hex_digit(y),
    ensures
        x == y,
{
}

proof fn lemma_hex_lower_injective(a: Seq<u8>, b: Seq<u8>)
    requires
        hex_lower(a) == hex_lower(b),
    ensures
        a == b,
    decreases a.len(),
{
    account_files_stay_in_the_cache(a);
    account_files_stay_in_the_cache(b);
    if a.len() > 0 {
        let ha = hex_lower(a);
        let n = ha.len();
        let x = a.last();
        let y = b.last();
        assert(ha[n - 2] == hex_digit((x / 16) as nat) && ha[n - 1] == hex_digit((x % 16) as nat));
        assert(hex_lower(b)[n - 2] == hex_digit((y / 16) as nat) && hex_lower(b)[n - 1] == hex_digit(
            (y % 16) as nat,
        ));
        lemma_hex_digit_injective((x / 16) as nat, (y / 16) as nat);
        lemma_hex_digit_injective((x % 16) as nat, (y % 16) as nat);
        assert(hex_lower(a.drop_last()) =~= ha.subrange(0, n - 2));
        assert(hex_lower(b.drop_last()) =~= hex_lower(b).subrange(0, n - 2));
        lemma_hex_lower_injective(a.drop_last(), b.drop_last());
        assert(a =~= a.drop_last().push(x));
        assert(b =~= b.drop_last().push(y));
    } else {
        assert(b.len() == 0);
        assert(a =~= b);
    }
}

/// Different account IDs get different Liked Songs files, in the same
/// folder: the file's name is the hexadecimal UTF-8 of the ID, which gives
/// the ID back.
pub proof fn accounts_get_files_of_their_own(cache: Seq<char>, a: Seq<char>, b: Seq<char>)
    ensures
        a != b ==> join_path(join_path(cache, "liked-songs"@), hex_lower(encode_utf8(a)) + ".json"@)
            != join_path(join_path(cache, "liked-songs"@), hex_lower(encode_utf8(b)) + ".json"@),
{
    reveal_strlit("liked-songs");
    reveal_strlit(".json");
    let folder = join_path(cache, "liked-songs"@);
    let pa = hex_lower(encode_utf8(a)) + ".json"@;
    let pb = hex_lower(encode_utf8(b)) + ".json"@;
    account_files_stay_in_the_cache(encode_utf8(a));
    account_files_stay_in_the_cache(encode_utf8(b));
    assert(folder.len() > 0 && folder.last() == 's');
    assert(pa.len() > 0 && pa[0] != '/');
    assert(pb.len() > 0 && pb[0] != '/');
    if a != b && join_path(folder, pa) == join_path(folder, pb) {
        assert(join_path(folder, pa) == folder + seq!['/'] + pa);
        assert(join_path(folder, pb) == folder + seq!['/'] + pb);
        assert(pa =~= (folder + seq!['/'] + pa).subrange(folder.len() + 1int, (folder + seq!['/'] + pa).len() as int));
        assert(pb =~= (folder + seq!['/'] + pb).subrange(folder.len() + 1int, (folder + seq!['/'] + pb).len() as int));
        assert(pa == pb);
        let ha = hex_lower(encode_utf8(a));
        let hb = hex_lower(encode_utf8(b));
        assert(ha.len() == hb.len());
        assert(ha =~= pa.subrange(0, ha.len() as int));
        assert(hb =~= pb.subrange(0, hb.len() as int));
        lemma_hex_lower_injective(encode_utf8(a), encode_utf8(b));
        encode_utf8_decode_utf8(a);
        encode_utf8_decode_utf8(b);
    }
}

/// `~` and `~/rest` (or `~\\rest`) as the home folder; anything else, or
/// anything at all without a home folder, is left alone.
pub open spec fn expanded_home(raw: Seq<char>, home: Option<Seq<char>>) -> Seq<char> {
    if raw == seq!['~'] {
        match home {
            Some(h) => h,
            None => raw,
        }
    } else if raw.len() >= 2 && raw[0] == '~' && (raw[1] == '/' || raw[1] == '\\') {
        match home {
            Some(h) => join_path(h, raw.subrange(2, raw.len() as int)),
            None => raw,
        }
    } else {
        raw
    }
}

fn expand_home(raw: &Vec<char>, home: Option<&str>) -> (r: Vec<char>)
    ensures
        r@ == expanded_home(
            raw@,
            match home {
                Some(h) => Some(h@),
                None => None,
            },
        ),
{
    if raw.len() == 1 && raw[0] == '~' {
        assert(raw@ =~= seq!['~']);
        return match home {
            Some(h) => chars_of(h),
            None => raw.clone(),
        };
    }
    if raw.len() >= 2 && raw[0] == '~' && (raw[1] == '/' || raw[1] == '\\') {
        proof {
            if raw@ == seq!['~'] {
                assert(raw@.len() == 1);
            }
        }
        match home {
            Some(h) => {
                let mut rest: Vec<char> = Vec::new();
                let mut i: usize = 2;
                while i < raw.len()
                    invariant
                        2 <= i <= raw.len(),
                        rest@ == raw@.subrange(2, i as int),
                    decreases raw.len() - i,
                {
                    rest.push(raw[i]);
                    i += 1;
                    assert(rest@ =~= raw@.subrange(2, i as int));
                }
                join_chars(&chars_of(h), &rest)
            },
            None => raw.clone(),
        }
    } else {
        proof {
            if raw@ == seq!['~'] {
                assert(raw@[0] == '~');
            }
        }
        raw.clone()
    }
}

/// The folder a cache-folder setting names: the setting trimmed, with `~`
/// as the home folder, or `None` for an empty setting.
pub open spec fn cache_folder_named(raw: Seq<char>, home: Option<Seq<char>>) -> Option<Seq<char>> {
    if trimmed(raw).len() == 0 {
        None
    } else {
        Some(expanded_home(trimmed(raw), home))
    }
}

/// The folder a cache-folder setting names, before anything is checked on
/// disk; `None` when the setting is empty or only white space.
pub fn cache_folder_candidate(raw: &str, home: Option<&str>) -> (r: Option<String>)
    ensures
        match r {
            Some(f) => cache_folder_named(
                raw@,
                match home {
                    Some(h) => Some(h@),
                    None => None,
                },
            ) == Some(f@),
            None => cache_folder_named(
                raw@,
                match home {
                    Some(h) => Some(h@),
                    None => None,
                },
            ) is None,
        },
{
    let trimmed_raw = trim_chars(&chars_of(raw));
    if trimmed_raw.len() == 0 {
        return None;
    }
    Some(string_from_chars(&expand_home(&trimmed_raw, home)))
}

/// What a look at a candidate cache folder on disk found.
#[derive(Clone, Copy, Debug, PartialEq, Eq, Structural)]
pub enum FolderProbe {
    /// Nothing is there.
    Missing,
    /// Something that is not a folder is there.
    NotAFolder,
    /// A folder is there, but its path cannot be written into the settings.
    Unrepresentable,
    /// A folder is there, and refused a file.
    Unwritable,
    /// A folder is there, and accepted a file.
    Writable,
}

/// Whether Rust holds a path absolute: `Path::is_absolute`, whose rule
/// depends on the platform (a leading separator on Unix, a drive or share
/// prefix as well on Windows).
pub uninterp spec fn absolute_path(p: Seq<char>) -> bool;

/// Calls `std::path::Path::is_absolute`. The contract claims only that the
/// answer is the same for the same path.
#[verifier::external_body]
fn path_is_absolute(p: &str) -> (r: bool)
    ensures
        r == absolute_path(p@),
{
    std::path::Path::new(p).is_absolute()
}

/// The view of an optional folder.
pub open spec fn folder_view(folder: Option<String>) -> Option<Seq<char>> {
    match folder {
        Some(f) => Some(f@),
        None => None,
    }
}

/// Whether the setting names a folder whose path is absolute, the only
/// kind worth looking for on disk.
pub fn names_absolute_folder(folder: &Option<String>) -> (r: bool)
    ensures
        r == match folder_view(*folder) {
            Some(f) => absolute_path(f),
            None => false,
        },
{
    match folder {
        Some(f) => path_is_absolute(f.as_str()),
        None => false,
    }
}

/// The verdict on a cache folder: the folder, or the reason it is refused,
/// as a clause with no final stop that callers can put inside a sentence.
pub open spec fn cache_folder_verdict(folder: Option<Seq<char>>, probe: FolderProbe) -> Result<
    Seq<char>,
    Seq<char>,
> {
    match folder {
        None => Err("its path is empty"@),
        Some(f) => if !absolute_path(f) {
            Err("its path is not absolute"@)
        } else {
            match probe {
                FolderProbe::Missing => Err("it does not exist"@),
                FolderProbe::NotAFolder => Err("it is not a folder"@),
                FolderProbe::Unrepresentable => Err("its path cannot be represented"@),
                FolderProbe::Unwritable => Err("it cannot be written to"@),
                FolderProbe::Writable => Ok(f),
            }
        },
    }
}

/// A cache folder is accepted only when its setting names one, its path
/// is absolute, and it exists as a folder that accepted a file; and then
/// the folder accepted is the one the setting names.
pub proof fn only_usable_cache_folders_are_accepted(folder: Option<Seq<char>>, probe: FolderProbe)
    ensures
        cache_folder_verdict(folder, probe) is Ok <==> (folder matches Some(f) && absolute_path(f)
            && probe == FolderProbe::Writable),
        cache_folder_verdict(folder, probe) matches Ok(f) ==> folder == Some(f),
{
}

/// Judges a cache folder chosen by the listener from the candidate the
/// setting names and what a look on disk found: a folder is accepted only
/// if its path is absolute and it exists, is a folder, and accepts a file.
pub fn judge_cache_folder(folder: Option<String>, probe: FolderProbe) -> (r: Result<String, String>)
    ensures
        match r {
            Ok(f) => cache_folder_verdict(folder_view(folder), probe) == Ok::<Seq<char>, Seq<char>>(f@),
            Err(e) => cache_folder_verdict(folder_view(folder), probe) == Err::<Seq<char>, Seq<char>>(
                e@,
            ),
        },
{
    let absolute = names_absolute_folder(&folder);
    match folder {
        None => Err("its path is empty".to_owned()),
        Some(f) => if !absolute {
            Err("its path is not absolute".to_owned())
        } else {
            match probe {
                FolderProbe::Missing => Err("it does not exist".to_owned()),
                FolderProbe::NotAFolder => Err("it is not a folder".to_owned()),
                FolderProbe::Unrepresentable => Err("its path cannot be represented".to_owned()),
                FolderProbe::Unwritable => Err("it cannot be written to".to_owned()),
                FolderProbe::Writable => Ok(f),
            }
        },
    }
}

} // verus!
