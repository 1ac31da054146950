//! The notch widget: the commands it sends the player, the rules that
//! decide when it shows, expands, collapses and animates, and the hover
//! timers that drive its expansion.

use vstd::prelude::*;

use crate::paths::{path_equal, same_path};
use crate::text::{chars_of, same_text, string_from_chars, trim_chars, trimmed};

verus! {

/// What the player is asked to do.
#[derive(Clone, Debug, PartialEq, Eq)]
pub enum Action {
    TogglePlay,
    Next,
    Previous,
    ShowWindow,
    ToggleSaved(String),
    Seek(u32),
}

/// A button press or gesture on the notch widget.
#[derive(Clone, Debug, PartialEq, Eq)]
pub enum NotchCommand {
    PlayPause,
    Next,
    Previous,
    ShowWindow,
    ToggleSaved(String),
    Seek(u32),
}

/// The player action a notch command stands for.
pub open spec fn command_action(command: NotchCommand) -> Action {
    match command {
        NotchCommand::PlayPause => Action::TogglePlay,
        NotchCommand::Next => Action::Next,
        NotchCommand::Previous => Action::Previous,
        NotchCommand::ShowWindow => Action::ShowWindow,
        NotchCommand::ToggleSaved(uri) => Action::ToggleSaved(uri),
        NotchCommand::Seek(pos) => Action::Seek(pos),
    }
}

impl NotchCommand {
    /// The player action this command asks for.
    pub fn action(&self) -> (a: Action)
        ensures
            a == command_action(*self),
    {
        match self {
            NotchCommand::PlayPause => Action::TogglePlay,
            NotchCommand::Next => Action::Next,
            NotchCommand::Previous => Action::Previous,
            NotchCommand::ShowWindow => Action::ShowWindow,
            NotchCommand::ToggleSaved(uri) => Action::ToggleSaved(uri.clone()),
            NotchCommand::Seek(pos) => Action::Seek(*pos),
        }
    }
}

/// Whether the notch overlay window should be on screen.
pub fn should_show_notch_window(enabled: bool, in_foreground: bool, has_track: bool, has_notch: bool) -> (r:
    bool)
    ensures
        r == (enabled && !in_foreground && has_track && has_notch),
{
    enabled && !in_foreground && has_track && has_notch
}

/// Whether entering the notch area should schedule an expansion.
pub fn should_schedule_expand(
    enabled: bool,
    in_foreground: bool,
    has_track: bool,
    is_expanded: bool,
    has_pending_expand: bool,
) -> (r: bool)
    ensures
        r == (enabled && !in_foreground && has_track && !is_expanded && !has_pending_expand),
{
    enabled && !in_foreground && has_track && !is_expanded && !has_pending_expand
}

/// Whether leaving the notch area should schedule a collapse.
pub fn should_schedule_collapse(is_expanded: bool) -> (r: bool)
    ensures
        r == is_expanded,
{
    is_expanded
}

/// Whether an expand timer, when it fires, should still expand.
pub fn should_perform_expand(enabled: bool, in_foreground: bool, has_track: bool, is_expanded: bool) -> (r:
    bool)
    ensures
        r == (enabled && !in_foreground && has_track && !is_expanded),
{
    enabled && !in_foreground && has_track && !is_expanded
}

/// Whether a collapse timer, when it fires, should still collapse.
pub fn should_perform_collapse(is_expanded: bool) -> (r: bool)
    ensures
        r == is_expanded,
{
    is_expanded
}

/// Whether the widget is expanded, animating, or waiting on a scheduled
/// transition.
pub fn is_controller_active(
    is_expanded: bool,
    has_pending_expand: bool,
    has_pending_collapse: bool,
    is_collapsing: bool,
) -> (r: bool)
    ensures
        r == (is_expanded || has_pending_expand || has_pending_collapse || is_collapsing),
{
    is_expanded || has_pending_expand || has_pending_collapse || is_collapsing
}

/// Whether the visualizer should sample audio: only with the widget
/// enabled, the main window in the background, the widget active, playback
/// running, and the audio local.
pub fn should_sample_visualizer(
    enabled: bool,
    is_background: bool,
    is_active: bool,
    is_playing: bool,
    is_local: bool,
) -> (r: bool)
    ensures
        r == (enabled && is_background && is_active && is_playing && is_local),
{
    enabled && is_background && is_active && is_playing && is_local
}

/// Whether the saved state of an item may be toggled: episodes cannot be
/// saved from the widget.
pub fn can_toggle_saved(is_episode: bool) -> (r: bool)
    ensures
        r == !is_episode,
{
    !is_episode
}

/// What the widget shows of the playing item. The level meters the
/// interface animates are kept by the interface, beside this.
#[derive(Clone, Debug, Default)]
pub struct NotchTrackInfo {
    pub playing: bool,
    pub title: String,
    pub artist: String,
    pub album: String,
    pub duration_ms: u32,
    pub position_ms: u32,
    pub art_path: Option<String>,
    pub uri: String,
    pub saved: bool,
    pub accent: Option<[u8; 3]>,
    pub is_episode: bool,
    pub is_remote: bool,
}

/// Whether two optional accent colours are the same colour, or both absent.
pub open spec fn same_accent(a: Option<[u8; 3]>, b: Option<[u8; 3]>) -> bool {
    match (a, b) {
        (Some(x), Some(y)) => x[0] == y[0] && x[1] == y[1] && x[2] == y[2],
        (None, None) => true,
        _ => false,
    }
}

/// Whether two items differ in what identifies them on the widget: the
/// URI, the title, artist and album, and whether it is an episode.
pub open spec fn metadata_differs(c: NotchTrackInfo, t: NotchTrackInfo) -> bool {
    c.uri@ != t.uri@ || c.title@ != t.title@ || c.artist@ != t.artist@ || c.album@ != t.album@
        || c.is_episode != t.is_episode
}

/// Whether the incoming item differs from the one on the widget, an item
/// appearing or disappearing counting as a difference.
pub open spec fn track_changed(cached: Option<NotchTrackInfo>, incoming: Option<NotchTrackInfo>) -> bool {
    match (cached, incoming) {
        (Some(c), Some(t)) => metadata_differs(c, t),
        (None, None) => false,
        _ => true,
    }
}

/// Whether the incoming track metadata differs from the cached metadata.
pub fn is_track_metadata_different(cached: Option<&NotchTrackInfo>, incoming: Option<&NotchTrackInfo>) -> (r:
    bool)
    ensures
        r == track_changed(
            match cached {
                Some(c) => Some(*c),
                None => None,
            },
            match incoming {
                Some(t) => Some(*t),
                None => None,
            },
        ),
{
    match (cached, incoming) {
        (Some(c), Some(t)) => {
            !same_text(c.uri.as_str(), t.uri.as_str()) || !same_text(c.title.as_str(), t.title.as_str())
                || !same_text(c.artist.as_str(), t.artist.as_str()) || !same_text(
                c.album.as_str(),
                t.album.as_str(),
            ) || c.is_episode != t.is_episode
        },
        (None, None) => false,
        _ => true,
    }
}

/// Whether changing tracks is animated: only while the widget is expanded,
/// and only from one item to a different one.
pub fn should_animate_track_transition(
    is_expanded: bool,
    cached: Option<&NotchTrackInfo>,
    incoming: Option<&NotchTrackInfo>,
) -> (r: bool)
    ensures
        r == (is_expanded && cached is Some && incoming is Some && track_changed(
            match cached {
                Some(c) => Some(*c),
                None => None,
            },
            match incoming {
                Some(t) => Some(*t),
                None => None,
            },
        )),
{
    is_expanded && cached.is_some() && incoming.is_some() && is_track_metadata_different(
        cached,
        incoming,
    )
}

/// Which parts of the widget need redrawing between two states of the
/// same item.
#[derive(Clone, Copy, Debug, Default, PartialEq, Eq, Structural)]
pub struct IncrementalChanges {
    pub progress_changed: bool,
    pub duration_changed: bool,
    pub play_changed: bool,
    pub saved_changed: bool,
    pub episode_changed: bool,
    pub art_changed: bool,
    pub accent_changed: bool,
    pub remote_changed: bool,
}

/// The changes from `cached` to `latest`: positions and durations count
/// only when they cross a whole second.
pub open spec fn changes_between(cached: NotchTrackInfo, latest: NotchTrackInfo) -> IncrementalChanges {
    IncrementalChanges {
        progress_changed: cached.position_ms / 1000 != latest.position_ms / 1000,
        duration_changed: cached.duration_ms / 1000 != latest.duration_ms / 1000,
        play_changed: cached.playing != latest.playing,
        saved_changed: cached.saved != latest.saved,
        episode_changed: cached.is_episode != latest.is_episode,
        art_changed: !same_art(cached.art_path, latest.art_path),
        accent_changed: !same_accent(cached.accent, latest.accent),
        remote_changed: cached.is_remote != latest.is_remote,
    }
}

/// Whether two optional cover-art files are the same file, or both absent:
/// paths compared as `Path`s are, part by part, so that `a//b` and `a/b`
/// name one file. The same text always names the same path.
pub open spec fn same_art(a: Option<String>, b: Option<String>) -> bool {
    match (a, b) {
        (Some(x), Some(y)) => x@ == y@ || path_equal(x@, y@),
        (None, None) => true,
        _ => false,
    }
}

fn same_art_file(a: &Option<String>, b: &Option<String>) -> (r: bool)
    ensures
        r == same_art(*a, *b),
{
    match (a, b) {
        (Some(x), Some(y)) => same_path(x.as_str(), y.as_str()),
        (None, None) => true,
        _ => false,
    }
}

fn same_accent_colour(a: &Option<[u8; 3]>, b: &Option<[u8; 3]>) -> (r: bool)
    ensures
        r == same_accent(*a, *b),
{
    match (a, b) {
        (Some(x), Some(y)) => x[0] == y[0] && x[1] == y[1] && x[2] == y[2],
        (None, None) => true,
        _ => false,
    }
}

/// Which parts of the widget changed between two states of an item.
pub fn detect_incremental_changes(cached: &NotchTrackInfo, latest: &NotchTrackInfo) -> (c:
    IncrementalChanges)
    ensures
        c == changes_between(*cached, *latest),
{
    IncrementalChanges {
        progress_changed: cached.position_ms / 1000 != latest.position_ms / 1000,
        duration_changed: cached.duration_ms / 1000 != latest.duration_ms / 1000,
        play_changed: cached.playing != latest.playing,
        saved_changed: cached.saved != latest.saved,
        episode_changed: cached.is_episode != latest.is_episode,
        art_changed: !same_art_file(&cached.art_path, &latest.art_path),
        accent_changed: !same_accent_colour(&cached.accent, &latest.accent),
        remote_changed: cached.is_remote != latest.is_remote,
    }
}

/// Each part of the widget is redrawn for a change in what it shows and
/// nothing else: the play button when playing starts or stops, the Like
/// button when saving changes, and so on; the progress and the duration only
/// when they cross into another whole second; the art when the file is
/// another one (the same text always naming the same file, and a picture
/// appearing or going away always counting); the accent when the colour is
/// another one.
pub proof fn each_change_is_its_own_fields(c: NotchTrackInfo, t: NotchTrackInfo)
    ensures
        changes_between(c, t).play_changed <==> c.playing != t.playing,
        changes_between(c, t).saved_changed <==> c.saved != t.saved,
        changes_between(c, t).episode_changed <==> c.is_episode != t.is_episode,
        changes_between(c, t).remote_changed <==> c.is_remote != t.is_remote,
        changes_between(c, t).progress_changed ==> c.position_ms != t.position_ms,
        c.position_ms / 1000 == t.position_ms / 1000 ==> !changes_between(c, t).progress_changed,
        c.position_ms / 1000 != t.position_ms / 1000 ==> changes_between(c, t).progress_changed,
        changes_between(c, t).duration_changed ==> c.duration_ms != t.duration_ms,
        c.duration_ms / 1000 != t.duration_ms / 1000 ==> changes_between(c, t).duration_changed,
        (c.art_path matches Some(a) && t.art_path matches Some(b) && a@ == b@)
            ==> !changes_between(c, t).art_changed,
        (c.art_path is None && t.art_path is None) ==> !changes_between(c, t).art_changed,
        (c.art_path is Some != t.art_path is Some) ==> changes_between(c, t).art_changed,
        (c.accent matches Some(x) && t.accent matches Some(y) && (x[0] != y[0] || x[1] != y[1] || x[2]
            != y[2])) ==> changes_between(c, t).accent_changed,
        (c.accent is Some != t.accent is Some) ==> changes_between(c, t).accent_changed,
        c.accent == t.accent ==> !changes_between(c, t).accent_changed,
{
}

/// Two items on the widget count as different tracks exactly when they
/// differ in any of what identifies one: the URI (the clean and explicit
/// versions of a song are different tracks), the title, the artist, the
/// album, or whether it is an episode. The position, the duration, the
/// play state, the saved state, the art and the accent never make a
/// different track. An item appearing or disappearing always does.
pub proof fn a_different_track_is_one_that_differs_in_identity(c: NotchTrackInfo, t: NotchTrackInfo)
    ensures
        c.uri@ != t.uri@ ==> track_changed(Some(c), Some(t)),
        c.title@ != t.title@ ==> track_changed(Some(c), Some(t)),
        c.artist@ != t.artist@ ==> track_changed(Some(c), Some(t)),
        c.album@ != t.album@ ==> track_changed(Some(c), Some(t)),
        c.is_episode != t.is_episode ==> track_changed(Some(c), Some(t)),
        (c.uri@ == t.uri@ && c.title@ == t.title@ && c.artist@ == t.artist@ && c.album@ == t.album@
            && c.is_episode == t.is_episode) ==> !track_changed(Some(c), Some(t)),
        track_changed(Some(c), None),
        track_changed(None, Some(t)),
        !track_changed(None, None),
{
}

/// Whether the track changed does not depend on which side is the cached
/// one, and an item never differs from itself.
pub proof fn track_changes_are_symmetric(cached: Option<NotchTrackInfo>, incoming: Option<NotchTrackInfo>)
    ensures
        track_changed(cached, incoming) == track_changed(incoming, cached),
        !track_changed(cached, cached),
{
}

/// An item compared with itself has nothing to redraw.
pub proof fn an_unchanged_item_needs_no_redraw(info: NotchTrackInfo)
    ensures
        changes_between(info, info) == (IncrementalChanges {
            progress_changed: false,
            duration_changed: false,
            play_changed: false,
            saved_changed: false,
            episode_changed: false,
            art_changed: false,
            accent_changed: false,
            remote_changed: false,
        }),
{
}

/// The commands the widget has queued for the player, and whether the
/// interface has installed a waker to be called when one arrives.
pub struct NotchQueue {
    pub pending: Vec<NotchCommand>,
    pub waker_installed: bool,
}

impl NotchQueue {
    /// An empty queue with no waker.
    pub fn new() -> (q: Self)
        ensures
            q.pending@ == Seq::<NotchCommand>::empty(),
            !q.waker_installed,
    {
        NotchQueue { pending: Vec::new(), waker_installed: false }
    }
}

/// Installs the waker: from now on each queued command calls it.
pub fn set_waker(queue: &mut NotchQueue)
    ensures
        final(queue).pending@ == old(queue).pending@,
        final(queue).waker_installed,
{
    queue.waker_installed = true;
}

/// Whether waking the interface calls the installed waker (once), which it
/// does when one is installed.
pub fn wake(queue: &NotchQueue) -> (calls_waker: bool)
    ensures
        calls_waker == queue.waker_installed,
{
    queue.waker_installed
}

/// Queues a command for the player, in the order commands are pressed, and
/// says whether the installed waker is then to be called, exactly once:
/// whenever one is installed, so that a waker that drains the queue sees
/// the command.
pub fn push_command(queue: &mut NotchQueue, cmd: NotchCommand) -> (calls_waker: bool)
    ensures
        final(queue).pending@ == old(queue).pending@.push(cmd),
        final(queue).waker_installed == old(queue).waker_installed,
        calls_waker == old(queue).waker_installed,
{
    queue.pending.push(cmd);
    wake(queue)
}

/// Takes every queued command, oldest first, leaving the queue empty.
pub fn drain_commands(queue: &mut NotchQueue) -> (commands: Vec<NotchCommand>)
    ensures
        commands@ == old(queue).pending@,
        final(queue).pending@ == Seq::<NotchCommand>::empty(),
        final(queue).waker_installed == old(queue).waker_installed,
{
    let mut taken: Vec<NotchCommand> = Vec::new();
    std::mem::swap(&mut queue.pending, &mut taken);
    taken
}

/// `s` with each carriage return and line feed shown as a space, so it
/// stays on one line.
pub open spec fn one_line(s: Seq<char>) -> Seq<char> {
    s.map_values(|c: char| if c == '\r' || c == '\n' {
        ' '
    } else {
        c
    })
}

fn one_line_chars(s: &Vec<char>) -> (r: Vec<char>)
    ensures
        r@ == one_line(s@),
{
    let mut out: Vec<char> = Vec::new();
    let mut i: usize = 0;
    while i < s.len()
        invariant
            i <= s.len(),
            out@ == one_line(s@.take(i as int)),
        decreases s.len() - i,
    {
        let c = s[i];
        out.push(if c == '\r' || c == '\n' {
            ' '
        } else {
            c
        });
        i += 1;
        assert(out@ =~= one_line(s@.take(i as int)));
    }
    assert(s@.take(s.len() as int) =~= s@);
    out
}

/// The title the widget shows: the app's name for a blank title, on one
/// line.
pub open spec fn shown_title(title: Seq<char>) -> Seq<char> {
    if trimmed(title).len() == 0 {
        "Spotifast"@
    } else {
        one_line(title)
    }
}

/// The title line of the widget.
pub fn display_title(title: &str) -> (shown: String)
    ensures
        shown@ == shown_title(title@),
{
    let chars = chars_of(title);
    if trim_chars(&chars).len() == 0 {
        return "Spotifast".to_owned();
    }
    string_from_chars(&one_line_chars(&chars))
}

/// The artist line of the widget, on one line.
pub fn display_artist(artist: &str) -> (shown: String)
    ensures
        shown@ == one_line(artist@),
{
    string_from_chars(&one_line_chars(&chars_of(artist)))
}

/// The position the widget shows while a seek it sent is on its way: the
/// seek's target for up to two seconds, while playback still reports a
/// position at least 1.2 seconds away from it; then playback's own. The
/// second value says whether the seek is still held.
pub open spec fn seek_hold(latest_ms: u32, pending: Option<(u32, u64)>) -> (u32, bool) {
    match pending {
        Some((target, elapsed_ms)) => if elapsed_ms <= 2000 && (latest_ms - target >= 1200 || target
            - latest_ms >= 1200) {
            (target, true)
        } else {
            (latest_ms, false)
        },
        None => (latest_ms, false),
    }
}

/// The position to show for an update, given the seek sent from the
/// widget (its target and how long ago it was sent, in milliseconds), and
/// whether that seek is still held.
pub fn held_position(latest_ms: u32, pending: Option<(u32, u64)>) -> (r: (u32, bool))
    ensures
        r == seek_hold(latest_ms, pending),
{
    match pending {
        Some((target, elapsed_ms)) => {
            let distance = if latest_ms >= target {
                latest_ms - target
            } else {
                target - latest_ms
            };
            if elapsed_ms <= 2000 && distance >= 1200 {
                (target, true)
            } else {
                (latest_ms, false)
            }
        },
        None => (latest_ms, false),
    }
}

/// A seek sent from the widget is held only while it is fresh and playback
/// still reports somewhere else: the widget shows either the seek's target
/// (held) or playback's own position (let go); once two seconds have passed,
/// or once playback reports a position within 1.2 seconds of the target, it
/// is let go; without a seek nothing is held.
pub proof fn a_seek_is_held_only_while_playback_lags(latest_ms: u32, target: u32, elapsed_ms: u64)
    ensures
        seek_hold(latest_ms, None) == (latest_ms, false),
        seek_hold(latest_ms, Some((target, elapsed_ms))).1 ==> seek_hold(
            latest_ms,
            Some((target, elapsed_ms)),
        ).0 == target,
        !seek_hold(latest_ms, Some((target, elapsed_ms))).1 ==> seek_hold(
            latest_ms,
            Some((target, elapsed_ms)),
        ).0 == latest_ms,
        elapsed_ms > 2000 ==> !seek_hold(latest_ms, Some((target, elapsed_ms))).1,
        (latest_ms - target < 1200 && target - latest_ms < 1200) ==> !seek_hold(
            latest_ms,
            Some((target, elapsed_ms)),
        ).1,
        (elapsed_ms <= 2000 && (latest_ms >= target + 1200 || target >= latest_ms + 1200))
            ==> seek_hold(latest_ms, Some((target, elapsed_ms))) == (target, true),
{
}

/// The widget's title and artist lines never break: no line break is left
/// in them, every other character stays where it was, and a blank title
/// shows the app's name.
pub proof fn shown_lines_stay_on_one_line(title: Seq<char>)
    ensures
        one_line(title).len() == title.len(),
        forall|i: int| 0 <= i < title.len() ==> #[trigger] one_line(title)[i] != '\n' && one_line(
            title,
        )[i] != '\r',
        forall|i: int|
            0 <= i < title.len() && title[i] != '\n' && title[i] != '\r' ==> #[trigger] one_line(
                title,
            )[i] == title[i],
        trimmed(title).len() > 0 ==> shown_title(title) == one_line(title),
        trimmed(title).len() == 0 ==> shown_title(title) == "Spotifast"@,
{
}

/// Which controls of the widget to redraw after the playing item changed
/// in place.
#[derive(Clone, Copy, Debug, PartialEq, Eq, Structural)]
pub struct ButtonRefresh {
    /// Show or hide the Like button (episodes cannot be saved).
    pub like_visibility: bool,
    pub artwork: bool,
    pub play: bool,
    /// The Like button, which takes the accent colour while saved.
    pub like: bool,
    /// The device button, which takes the accent colour while remote.
    pub device: bool,
}

/// The controls to redraw for `changes`, with whether the item is now
/// saved and played remotely: a control tinted with the accent colour is
/// redrawn when that colour changes too.
pub fn buttons_to_refresh(changes: IncrementalChanges, saved: bool, is_remote: bool) -> (r:
    ButtonRefresh)
    ensures
        r == (ButtonRefresh {
            like_visibility: changes.episode_changed,
            artwork: changes.art_changed,
            play: changes.play_changed,
            like: changes.saved_changed || (saved && changes.accent_changed),
            device: changes.remote_changed || (is_remote && changes.accent_changed),
        }),
{
    ButtonRefresh {
        like_visibility: changes.episode_changed,
        artwork: changes.art_changed,
        play: changes.play_changed,
        like: changes.saved_changed || (saved && changes.accent_changed),
        device: changes.remote_changed || (is_remote && changes.accent_changed),
    }
}

/// Where a delayed expand or collapse stands at a refresh.
#[derive(Clone, Copy, Debug, PartialEq, Eq, Structural)]
pub enum TimerCheck {
    /// Nothing is scheduled.
    Idle,
    /// Its time has come: perform it now.
    Due,
    /// Not yet: wake the interface to look again.
    Pending,
}

/// Where a delayed step due at `due` (if scheduled) stands at `now`, both
/// on the interface's clock.
pub fn check_timer(due: Option<u64>, now: u64) -> (r: TimerCheck)
    ensures
        r == match due {
            None => TimerCheck::Idle,
            Some(d) => if now >= d {
                TimerCheck::Due
            } else {
                TimerCheck::Pending
            },
        },
{
    match due {
        None => TimerCheck::Idle,
        Some(d) => if now >= d {
            TimerCheck::Due
        } else {
            TimerCheck::Pending
        },
    }
}

} // verus!
