//! The sleep timer: when it was set to stop playback, and the status line
//! it shows while it runs. Times are milliseconds on the interface's
//! monotonic clock.

use vstd::prelude::*;

use crate::text::{starts_with, append, chars_of, decimal, decimal_string, digit_char, string_from_chars};

verus! {

/// When the sleep timer stops playback.
#[derive(Clone, Copy, Debug, PartialEq, Eq, Structural)]
pub enum SleepTimerSetting {
    /// After this many milliseconds.
    Duration(u64),
    /// At the end of the current track.
    EndOfTrack,
}

/// A running sleep timer.
#[derive(Clone, Debug)]
pub struct SleepTimer {
    pub setting: SleepTimerSetting,
    /// When a timed setting runs out.
    pub deadline: Option<u64>,
    pub initial_track_uri: Option<String>,
    pub wait_for_song_end: bool,
    pub waiting_for_song_end: bool,
}

/// The time left until `deadline` at `now`, never below zero.
pub open spec fn time_left(deadline: Option<u64>, now: u64) -> Option<u64> {
    match deadline {
        Some(d) => Some(if d >= now {
            (d - now) as u64
        } else {
            0
        }),
        None => None,
    }
}

/// Two digits for a number below a hundred, as `{:02}` writes it.
pub open spec fn two_digits(n: nat) -> Seq<char> {
    if n < 10 {
        seq!['0'] + decimal(n)
    } else {
        decimal(n)
    }
}

/// The status line of a timer at `now`.
pub open spec fn status_line(timer: SleepTimer, now: u64) -> Seq<char> {
    if timer.waiting_for_song_end {
        "Sleep timer: waiting for song to finish"@
    } else {
        match timer.setting {
            SleepTimerSetting::EndOfTrack => "Sleep timer: end of track"@,
            SleepTimerSetting::Duration(_) => match time_left(timer.deadline, now) {
                Some(left) => {
                    let total = left as nat / 1000;
                    let suffix = if timer.wait_for_song_end {
                        " (waits for song end)"@
                    } else {
                        ""@
                    };
                    if total / 60 > 0 {
                        "Sleep timer: "@ + decimal(total / 60) + "m "@ + two_digits(total % 60) + "s"@
                            + suffix
                    } else {
                        "Sleep timer: "@ + decimal(total % 60) + "s"@ + suffix
                    }
                },
                None => "Sleep timer"@,
            },
        }
    }
}

/// The line at the top of the sleep-timer popup: the time left as minutes
/// and seconds, or that the timer waits for the end of the track.
pub open spec fn popup_line(timer: SleepTimer, now: u64) -> Seq<char> {
    match timer.setting {
        SleepTimerSetting::EndOfTrack => "End of track"@,
        SleepTimerSetting::Duration(_) => match time_left(timer.deadline, now) {
            Some(left) => {
                let total = left as nat / 1000;
                decimal(total / 60) + "m "@ + two_digits(total % 60) + "s"@
            },
            None => ""@,
        },
    }
}

/// The settings the popup offers, in its order, with their labels: five
/// minutes to an hour, or the end of the track.
pub open spec fn preset_list() -> Seq<(Seq<char>, SleepTimerSetting)> {
    seq![
        ("5 minutes"@, SleepTimerSetting::Duration(300_000)),
        ("10 minutes"@, SleepTimerSetting::Duration(600_000)),
        ("15 minutes"@, SleepTimerSetting::Duration(900_000)),
        ("30 minutes"@, SleepTimerSetting::Duration(1_800_000)),
        ("45 minutes"@, SleepTimerSetting::Duration(2_700_000)),
        ("1 hour"@, SleepTimerSetting::Duration(3_600_000)),
        ("End of track"@, SleepTimerSetting::EndOfTrack),
    ]
}

/// The settings the sleep-timer popup offers, with their labels.
pub fn presets() -> (r: Vec<(&'static str, SleepTimerSetting)>)
    ensures
        r@.len() == preset_list().len(),
        forall|i: int|
            0 <= i < r@.len() ==> r@[i].0@ == preset_list()[i].0 && r@[i].1 == preset_list()[i].1,
{
    let r = vec![
        ("5 minutes", SleepTimerSetting::Duration(300_000)),
        ("10 minutes", SleepTimerSetting::Duration(600_000)),
        ("15 minutes", SleepTimerSetting::Duration(900_000)),
        ("30 minutes", SleepTimerSetting::Duration(1_800_000)),
        ("45 minutes", SleepTimerSetting::Duration(2_700_000)),
        ("1 hour", SleepTimerSetting::Duration(3_600_000)),
        ("End of track", SleepTimerSetting::EndOfTrack),
    ];
    proof {
        reveal_strlit("5 minutes");
        reveal_strlit("10 minutes");
        reveal_strlit("15 minutes");
        reveal_strlit("30 minutes");
        reveal_strlit("45 minutes");
        reveal_strlit("1 hour");
        reveal_strlit("End of track");
        assert(r@.len() == 7);
    }
    r
}

impl SleepTimer {
    /// A timer set at `now`: a timed one runs out `d` later.
    pub fn new(
        setting: SleepTimerSetting,
        current_track_uri: Option<String>,
        wait_for_song_end: bool,
        now: u64,
    ) -> (t: Self)
        requires
            setting matches SleepTimerSetting::Duration(d) ==> now + d <= u64::MAX,
        ensures
            t.setting == setting,
            t.deadline == match setting {
                SleepTimerSetting::Duration(d) => Some((now + d) as u64),
                SleepTimerSetting::EndOfTrack => None,
            },
            t.initial_track_uri == current_track_uri,
            t.wait_for_song_end == wait_for_song_end,
            !t.waiting_for_song_end,
    {
        let deadline = match setting {
            SleepTimerSetting::Duration(d) => Some(now + d),
            SleepTimerSetting::EndOfTrack => None,
        };
        SleepTimer {
            setting,
            deadline,
            initial_track_uri: current_track_uri,
            wait_for_song_end,
            waiting_for_song_end: false,
        }
    }

    /// The time left at `now`, for a timed setting.
    pub fn remaining_duration(&self, now: u64) -> (r: Option<u64>)
        ensures
            r == time_left(self.deadline, now),
    {
        match self.deadline {
            Some(d) => Some(d.saturating_sub(now)),
            None => None,
        }
    }

    /// The line at the top of the popup while the timer runs.
    pub fn popup_text(&self, now: u64) -> (s: String)
        ensures
            s@ == popup_line(*self, now),
    {
        match self.setting {
            SleepTimerSetting::EndOfTrack => "End of track".to_owned(),
            SleepTimerSetting::Duration(_) => match self.remaining_duration(now) {
                Some(left) => {
                    let total = left / 1000;
                    let mut out = decimal_string(total / 60);
                    append(&mut out, &chars_of("m "));
                    if total % 60 < 10 {
                        out.push('0');
                    }
                    append(&mut out, &decimal_string(total % 60));
                    append(&mut out, &chars_of("s"));
                    proof {
                        assert(out@ =~= popup_line(*self, now));
                    }
                    string_from_chars(&out)
                },
                None => "".to_owned(),
            },
        }
    }

    /// The status line shown while the timer runs.
    pub fn status_text(&self, now: u64) -> (s: String)
        ensures
            s@ == status_line(*self, now),
    {
        if self.waiting_for_song_end {
            return "Sleep timer: waiting for song to finish".to_owned();
        }
        match self.setting {
            SleepTimerSetting::EndOfTrack => "Sleep timer: end of track".to_owned(),
            SleepTimerSetting::Duration(_) => match self.remaining_duration(now) {
                Some(left) => {
                    let total = left / 1000;
                    let mins = total / 60;
                    let secs = total % 60;
                    let mut out = chars_of("Sleep timer: ");
                    if mins > 0 {
                        append(&mut out, &decimal_string(mins));
                        append(&mut out, &chars_of("m "));
                        if secs < 10 {
                            out.push('0');
                        }
                        append(&mut out, &decimal_string(secs));
                    } else {
                        append(&mut out, &decimal_string(secs));
                    }
                    append(&mut out, &chars_of("s"));
                    if self.wait_for_song_end {
                        append(&mut out, &chars_of(" (waits for song end)"));
                    }
                    proof {
                        reveal_strlit("");
                        assert(out@ =~= status_line(*self, now));
                    }
                    string_from_chars(&out)
                },
                None => "Sleep timer".to_owned(),
            },
        }
    }
}

/// A timed setting's time left never grows as the clock moves on, and is
/// gone once the deadline has passed.
pub proof fn time_left_only_shrinks(deadline: u64, earlier: u64, later: u64)
    requires
        earlier <= later,
    ensures
        time_left(Some(deadline), later)->0 <= time_left(Some(deadline), earlier)->0,
        later >= deadline ==> time_left(Some(deadline), later) == Some(0u64),
{
}

/// Whether `s` ends with `suffix`.
pub open spec fn ends_with(s: Seq<char>, suffix: Seq<char>) -> bool {
    suffix.len() <= s.len() && s.subrange(s.len() - suffix.len(), s.len() as int) == suffix
}

proof fn lemma_ends_with_join(a: Seq<char>, b: Seq<char>)
    ensures
        ends_with(a + b, b),
{
    assert((a + b).subrange((a + b).len() - b.len(), (a + b).len() as int) =~= b);
}

/// The status line of a running timed timer starts with "Sleep timer: ",
/// and says "(waits for song end)" at its end exactly when the timer was
/// set to wait for the song to finish, whether minutes are left or only
/// seconds; without that it ends with the seconds' "s".
pub proof fn the_status_line_says_when_it_waits(timer: SleepTimer, now: u64)
    requires
        timer.setting is Duration,
        !timer.waiting_for_song_end,
        timer.deadline is Some,
    ensures
        starts_with(status_line(timer, now), "Sleep timer: "@),
        ends_with(status_line(timer, now), " (waits for song end)"@) <==> timer.wait_for_song_end,
        !timer.wait_for_song_end ==> ends_with(status_line(timer, now), "s"@),
{
    reveal_strlit("Sleep timer: ");
    reveal_strlit(" (waits for song end)");
    reveal_strlit("s");
    reveal_strlit("m ");
    reveal_strlit("");
    let line = status_line(timer, now);
    let left = time_left(timer.deadline, now)->0;
    let total = left as nat / 1000;
    let suffix = if timer.wait_for_song_end {
        " (waits for song end)"@
    } else {
        ""@
    };
    let body = if total / 60 > 0 {
        "Sleep timer: "@ + decimal(total / 60) + "m "@ + two_digits(total % 60) + "s"@
    } else {
        "Sleep timer: "@ + decimal(total % 60) + "s"@
    };
    assert(line == body + suffix);
    assert(body.subrange(0, 13) =~= "Sleep timer: "@);
    assert(line.subrange(0, 13) =~= "Sleep timer: "@);
    assert(body.last() == 's');
    if timer.wait_for_song_end {
        lemma_ends_with_join(body, suffix);
    } else {
        assert(line =~= body);
        assert(line.last() == 's');
        assert(line.subrange(line.len() - 1, line.len() as int) =~= "s"@);
        if ends_with(line, " (waits for song end)"@) {
            let sfx = " (waits for song end)"@;
            assert(line.subrange(line.len() - sfx.len(), line.len() as int)[sfx.len() - 1] == line.last());
            assert(sfx[sfx.len() - 1] == ')');
        }
    }
}

proof fn lemma_two_digits(x: nat)
    requires
        x < 60,
    ensures
        two_digits(x) == seq![digit_char(x / 10), digit_char(x % 10)],
{
    if x < 10 {
        assert(decimal(x) == seq![digit_char(x)]);
        assert(seq!['0'] + seq![digit_char(x)] =~= seq![digit_char(x / 10), digit_char(x % 10)]);
    } else {
        assert(decimal(x / 10) == seq![digit_char(x / 10)]);
        assert(decimal(x) =~= seq![digit_char(x / 10), digit_char(x % 10)]);
    }
}

/// The time left counts down to the deadline and stops at zero: before the
/// deadline it is exactly what separates now from it.
pub proof fn time_left_is_what_remains(deadline: u64, now: u64)
    ensures
        now <= deadline ==> time_left(Some(deadline), now) == Some((deadline - now) as u64),
        now >= deadline ==> time_left(Some(deadline), now) == Some(0u64),
        time_left(None, now) is None,
{
}

/// The popup of a running timed timer shows whole minutes, then "m ", then
/// the seconds left over as exactly two digits (a leading zero below ten),
/// then "s": "5m 00s", "0m 05s".
pub proof fn the_popup_shows_minutes_and_two_digit_seconds(timer: SleepTimer, now: u64)
    requires
        timer.setting is Duration,
        timer.deadline is Some,
    ensures
        ({
            let total = time_left(timer.deadline, now)->0 as nat / 1000;
            let line = popup_line(timer, now);
            let m = decimal(total / 60);
            &&& line.len() == m.len() + 5
            &&& line.subrange(0, m.len() as int) == m
            &&& line[m.len() as int] == 'm'
            &&& line[m.len() + 1int] == ' '
            &&& line[m.len() + 2int] == digit_char((total % 60) / 10)
            &&& line[m.len() + 3int] == digit_char((total % 60) % 10)
            &&& line[m.len() + 4int] == 's'
        }),
{
    reveal_strlit("m ");
    reveal_strlit("s");
    let total = time_left(timer.deadline, now)->0 as nat / 1000;
    lemma_two_digits(total % 60);
    let m = decimal(total / 60);
    let line = popup_line(timer, now);
    assert(line == m + "m "@ + two_digits(total % 60) + "s"@);
    assert(line.subrange(0, m.len() as int) =~= m);
}

/// Each preset's label names its own duration: "<n> minutes" for a preset
/// of n minutes, "1 hour" for sixty, and the end of the track last; the
/// timed presets come shortest first.
pub proof fn preset_labels_name_their_durations()
    ensures
        preset_list().len() == 7,
        forall|i: int|
            0 <= i < 5 ==> ((#[trigger] preset_list()[i]).1 matches SleepTimerSetting::Duration(ms) && ms
                % 60_000 == 0 && preset_list()[i].0 == decimal((ms / 60_000) as nat) + " minutes"@),
        preset_list()[5] == ("1 hour"@, SleepTimerSetting::Duration(3_600_000)),
        preset_list()[6].1 == SleepTimerSetting::EndOfTrack,
        forall|i: int, j: int|
            0 <= i < j < 6 ==> ((#[trigger] preset_list()[i]).1 matches SleepTimerSetting::Duration(a)
                && (#[trigger] preset_list()[j]).1 matches SleepTimerSetting::Duration(b) && a < b),
{
    reveal_strlit("5 minutes");
    reveal_strlit("10 minutes");
    reveal_strlit("15 minutes");
    reveal_strlit("30 minutes");
    reveal_strlit("45 minutes");
    reveal_strlit(" minutes");
    let l = preset_list();
    assert(decimal(5) == seq!['5']);
    assert(decimal(1) == seq!['1']);
    assert(decimal(10) =~= seq!['1', '0']);
    assert(decimal(15) =~= seq!['1', '5']);
    assert(decimal(3) == seq!['3']);
    assert(decimal(30) =~= seq!['3', '0']);
    assert(decimal(4) == seq!['4']);
    assert(decimal(45) =~= seq!['4', '5']);
    assert(l[0].0 =~= decimal(5) + " minutes"@);
    assert(l[1].0 =~= decimal(10) + " minutes"@);
    assert(l[2].0 =~= decimal(15) + " minutes"@);
    assert(l[3].0 =~= decimal(30) + " minutes"@);
    assert(l[4].0 =~= decimal(45) + " minutes"@);
}

} // verus!
