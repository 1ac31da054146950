use spotifast::sleep_timer::{presets, SleepTimer, SleepTimerSetting};

#[test]
fn a_timed_timer_counts_down_from_when_it_was_set() {
    let timer = SleepTimer::new(SleepTimerSetting::Duration(90_000), Some("spotify:track:a".into()), false, 1_000);
    assert_eq!(timer.deadline, Some(91_000));
    assert_eq!(timer.initial_track_uri.as_deref(), Some("spotify:track:a"));
    assert!(!timer.waiting_for_song_end);
    assert_eq!(timer.remaining_duration(1_000), Some(90_000));
    assert_eq!(timer.remaining_duration(50_000), Some(41_000));
    assert_eq!(timer.remaining_duration(200_000), Some(0));
    assert_eq!(timer.status_text(1_000), "Sleep timer: 1m 30s");
    assert_eq!(timer.status_text(31_500), "Sleep timer: 59s");
    assert_eq!(timer.status_text(26_000), "Sleep timer: 1m 05s");
    assert_eq!(timer.status_text(200_000), "Sleep timer: 0s");
}

#[test]
fn the_status_says_what_the_timer_waits_for() {
    let end = SleepTimer::new(SleepTimerSetting::EndOfTrack, None, false, 0);
    assert_eq!(end.deadline, None);
    assert_eq!(end.remaining_duration(5), None);
    assert_eq!(end.status_text(5), "Sleep timer: end of track");

    let patient = SleepTimer::new(SleepTimerSetting::Duration(600_000), None, true, 0);
    assert_eq!(patient.status_text(0), "Sleep timer: 10m 00s (waits for song end)");
    let mut waiting = patient.clone();
    waiting.waiting_for_song_end = true;
    assert_eq!(waiting.status_text(0), "Sleep timer: waiting for song to finish");

    let mut unset = patient;
    unset.deadline = None;
    assert_eq!(unset.status_text(0), "Sleep timer");
}

#[test]
fn the_popup_shows_minutes_and_padded_seconds() {
    let timer = SleepTimer::new(SleepTimerSetting::Duration(300_000), None, false, 1_000);
    assert_eq!(timer.popup_text(1_000), "5m 00s");
    assert_eq!(timer.popup_text(62_500), "3m 58s");
    assert_eq!(timer.popup_text(296_000), "0m 05s");
    assert_eq!(timer.popup_text(400_000), "0m 00s");
    let end = SleepTimer::new(SleepTimerSetting::EndOfTrack, None, false, 0);
    assert_eq!(end.popup_text(10), "End of track");
}

#[test]
fn the_popup_offers_five_minutes_to_an_hour_or_the_end_of_the_track() {
    let presets = presets();
    assert_eq!(presets.len(), 7);
    assert_eq!(presets[0], ("5 minutes", SleepTimerSetting::Duration(5 * 60 * 1000)));
    assert_eq!(presets[5], ("1 hour", SleepTimerSetting::Duration(60 * 60 * 1000)));
    assert_eq!(presets[6], ("End of track", SleepTimerSetting::EndOfTrack));
}
