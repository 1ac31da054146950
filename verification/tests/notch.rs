use spotifast::hover::{HoverState, HoverTimerAction};
use spotifast::notch::{
    can_toggle_saved, detect_incremental_changes, display_artist, display_title, held_position, drain_commands, is_controller_active,
    is_track_metadata_different, push_command, set_waker, wake, NotchQueue, should_animate_track_transition,
    should_perform_collapse, should_perform_expand, should_sample_visualizer,
    should_schedule_collapse, should_schedule_expand, should_show_notch_window, Action,
    buttons_to_refresh, check_timer, ButtonRefresh, IncrementalChanges, NotchCommand,
    NotchTrackInfo, TimerCheck,
};

#[test]
fn notch_command_queuing_and_draining() {
    let mut queue = NotchQueue::new();
    push_command(&mut queue, NotchCommand::PlayPause);
    push_command(&mut queue, NotchCommand::Next);
    push_command(&mut queue, NotchCommand::Previous);
    push_command(&mut queue, NotchCommand::ShowWindow);

    let commands = drain_commands(&mut queue);
    assert_eq!(
        commands,
        vec![
            NotchCommand::PlayPause,
            NotchCommand::Next,
            NotchCommand::Previous,
            NotchCommand::ShowWindow,
        ]
    );

    let empty = drain_commands(&mut queue);
    assert!(empty.is_empty());
}

#[test]
fn notch_track_info_equality() {
    let a = NotchTrackInfo {
        playing: true,
        title: "Test Track".into(),
        artist: "Test Artist".into(),
        album: "Test Album".into(),
        duration_ms: 180000,
        position_ms: 45000,
        art_path: None,
        uri: "spotify:track:test".into(),
        saved: false,
        accent: Some([30, 215, 96]),
        is_episode: false,
        is_remote: false,
    };
    let b = a.clone();
    assert!(!is_track_metadata_different(Some(&a), Some(&b)));
    assert_eq!(
        detect_incremental_changes(&a, &b),
        IncrementalChanges::default()
    );
}

#[test]
fn notch_command_actions() {
    assert!(matches!(NotchCommand::PlayPause.action(), Action::TogglePlay));
    assert!(matches!(NotchCommand::Next.action(), Action::Next));
    assert!(matches!(NotchCommand::Previous.action(), Action::Previous));
    assert!(matches!(NotchCommand::ShowWindow.action(), Action::ShowWindow));
    assert!(matches!(
        NotchCommand::ToggleSaved("spotify:track:abc".into()).action(),
        Action::ToggleSaved(uri) if uri == "spotify:track:abc"
    ));
    assert!(matches!(NotchCommand::Seek(12345).action(), Action::Seek(12345)));
}

#[test]
fn episode_save_restrictions() {
    assert!(!can_toggle_saved(true));
    assert!(can_toggle_saved(false));
}

#[test]
fn should_show_notch_window_rules() {
    assert!(should_show_notch_window(true, false, true, true));
    assert!(!should_show_notch_window(false, false, true, true));
    assert!(!should_show_notch_window(true, true, true, true));
    assert!(!should_show_notch_window(true, false, false, true));
    assert!(!should_show_notch_window(true, false, true, false));
}

#[test]
fn hover_timer_transition_rules() {
    assert!(should_schedule_expand(true, false, true, false, false));
    assert!(!should_schedule_expand(false, false, true, false, false));
    assert!(!should_schedule_expand(true, true, true, false, false));
    assert!(!should_schedule_expand(true, false, false, false, false));
    assert!(!should_schedule_expand(true, false, true, true, false));
    assert!(!should_schedule_expand(true, false, true, false, true));

    assert!(should_schedule_collapse(true));
    assert!(!should_schedule_collapse(false));

    assert!(should_perform_expand(true, false, true, false));
    assert!(!should_perform_expand(false, false, true, false));
    assert!(!should_perform_expand(true, true, true, false));
    assert!(!should_perform_expand(true, false, false, false));
    assert!(!should_perform_expand(true, false, true, true));

    assert!(should_perform_collapse(true));
    assert!(!should_perform_collapse(false));
}

#[test]
fn controller_active_state_rules() {
    assert!(!is_controller_active(false, false, false, false));
    assert!(is_controller_active(true, false, false, false));
    assert!(is_controller_active(false, true, false, false));
    assert!(is_controller_active(false, false, true, false));
    assert!(is_controller_active(false, false, false, true));
}

fn song(title: &str) -> NotchTrackInfo {
    NotchTrackInfo {
        playing: true,
        title: title.into(),
        artist: "Artist A".into(),
        album: "Album A".into(),
        duration_ms: 200000,
        position_ms: 10000,
        art_path: Some("/tmp/a.jpg".into()),
        uri: "spotify:track:a".into(),
        saved: false,
        accent: Some([20, 30, 40]),
        is_episode: false,
        is_remote: false,
    }
}

#[test]
fn track_metadata_difference_and_transition_rules() {
    let t1 = song("Song A");
    let mut t2 = t1.clone();

    assert!(!is_track_metadata_different(Some(&t1), Some(&t2)));
    assert!(!should_animate_track_transition(true, Some(&t1), Some(&t2)));
    assert!(!should_animate_track_transition(false, Some(&t1), Some(&t2)));

    t2.title = "Song B".into();
    assert!(is_track_metadata_different(Some(&t1), Some(&t2)));
    assert!(should_animate_track_transition(true, Some(&t1), Some(&t2)));
    assert!(!should_animate_track_transition(false, Some(&t1), Some(&t2)));

    t2 = t1.clone();
    t2.art_path = Some("/tmp/new_art.jpg".into());
    assert!(!is_track_metadata_different(Some(&t1), Some(&t2)));
    assert!(!should_animate_track_transition(true, Some(&t1), Some(&t2)));

    assert!(!is_track_metadata_different(None, None));
    assert!(!should_animate_track_transition(true, None, None));

    assert!(is_track_metadata_different(None, Some(&t1)));
    assert!(!should_animate_track_transition(true, None, Some(&t1)));
    assert!(is_track_metadata_different(Some(&t1), None));
    assert!(!should_animate_track_transition(true, Some(&t1), None));
}

#[test]
fn incremental_changes_detection_rules() {
    let t1 = NotchTrackInfo {
        playing: true,
        title: "Song".into(),
        artist: "Artist".into(),
        album: "Album".into(),
        duration_ms: 200000,
        position_ms: 10100,
        art_path: None,
        uri: "spotify:track:s".into(),
        saved: false,
        accent: None,
        is_episode: false,
        is_remote: false,
    };

    let mut t2 = t1.clone();
    t2.position_ms = 10900;
    let c = detect_incremental_changes(&t1, &t2);
    assert_eq!(
        c,
        IncrementalChanges {
            progress_changed: false,
            duration_changed: false,
            play_changed: false,
            saved_changed: false,
            episode_changed: false,
            art_changed: false,
            accent_changed: false,
            remote_changed: false,
        }
    );

    t2.position_ms = 11050;
    assert!(detect_incremental_changes(&t1, &t2).progress_changed);

    t2 = t1.clone();
    t2.duration_ms = 205000;
    assert!(detect_incremental_changes(&t1, &t2).duration_changed);

    t2 = t1.clone();
    t2.playing = false;
    assert!(detect_incremental_changes(&t1, &t2).play_changed);

    t2 = t1.clone();
    t2.saved = true;
    assert!(detect_incremental_changes(&t1, &t2).saved_changed);

    t2 = t1.clone();
    t2.is_episode = true;
    assert!(detect_incremental_changes(&t1, &t2).episode_changed);

    t2 = t1.clone();
    t2.art_path = Some("/tmp/cover.jpg".into());
    assert!(detect_incremental_changes(&t1, &t2).art_changed);

    t2 = t1.clone();
    t2.accent = Some([30, 40, 50]);
    assert!(detect_incremental_changes(&t1, &t2).accent_changed);

    t2 = t1.clone();
    t2.is_remote = true;
    assert!(detect_incremental_changes(&t1, &t2).remote_changed);
}

#[test]
fn should_sample_visualizer_state_and_transition_rules() {
    assert!(should_sample_visualizer(true, true, true, true, true));
    assert!(!should_sample_visualizer(true, false, true, true, true));
    assert!(!should_sample_visualizer(true, true, false, true, true));
    assert!(!should_sample_visualizer(true, true, true, false, true));
    assert!(!should_sample_visualizer(true, true, true, true, false));
    assert!(!should_sample_visualizer(false, true, true, true, true));

    let mut is_active = false;
    assert!(!should_sample_visualizer(true, true, is_active, true, true));
    is_active = true;
    assert!(should_sample_visualizer(true, true, is_active, true, true));

    is_active = false;
    assert!(!should_sample_visualizer(true, true, is_active, true, true));

    let mut in_background = true;
    assert!(should_sample_visualizer(true, in_background, true, true, true));
    in_background = false;
    assert!(!should_sample_visualizer(true, in_background, true, true, true));

    let mut is_playing = true;
    let mut is_local = true;
    assert!(should_sample_visualizer(true, true, true, is_playing, is_local));
    is_playing = false;
    assert!(!should_sample_visualizer(true, true, true, is_playing, is_local));
    is_playing = true;
    is_local = false;
    assert!(!should_sample_visualizer(true, true, true, is_playing, is_local));
}

#[test]
fn hovering_expands_after_the_dwell_and_collapses_after_the_linger() {
    let idle = HoverState::new();
    assert!(!idle.is_active());

    let entered = idle.handle_mouse_entered(true, false, true);
    assert!(entered.wake);
    assert!(entered.state.pending_expand);
    assert!(entered.state.is_active());
    let timer = entered.timer.expect("an expansion is scheduled");
    assert_eq!(timer.delay_ms, 60);
    assert_eq!(timer.payload & 3, 1);

    let expanded = entered.state.on_timer_fired(timer.payload, true, false, true);
    assert!(expanded.state.expanded);
    assert!(!expanded.state.pending_expand);

    let left = expanded.state.handle_mouse_exited();
    let collapse = left.timer.expect("a collapse is scheduled");
    assert_eq!(collapse.delay_ms, 400);
    assert_eq!(collapse.payload & 3, 2);

    let collapsing = left.state.on_timer_fired(collapse.payload, true, false, true);
    assert!(!collapsing.state.expanded);
    assert!(collapsing.state.collapsing);
    let finish = collapsing.timer.expect("the collapse completes later");
    assert_eq!(finish.delay_ms, 200);

    let done = collapsing.state.on_timer_fired(finish.payload, true, false, true);
    assert!(!done.state.is_active());
}

#[test]
fn a_timer_made_stale_by_a_later_movement_does_nothing() {
    let entered = HoverState::new().handle_mouse_entered(true, false, true);
    let timer = entered.timer.unwrap();
    // Leaving before the dwell ends cancels the expansion.
    let left = entered.state.handle_mouse_exited();
    assert!(left.timer.is_none());
    assert!(!left.state.pending_expand);
    let fired = left.state.on_timer_fired(timer.payload, true, false, true);
    assert_eq!(fired.state, left.state);
    assert!(fired.timer.is_none());
    assert!(!fired.wake);
}

#[test]
fn entering_without_a_track_or_in_the_foreground_schedules_nothing() {
    let idle = HoverState::new();
    for (enabled, foreground, track) in [(false, false, true), (true, true, true), (true, false, false)] {
        let step = idle.handle_mouse_entered(enabled, foreground, track);
        assert!(step.timer.is_none());
        assert!(!step.state.is_active());
    }
    let _ = HoverTimerAction::CompleteCollapse;
}

#[test]
fn the_widget_shows_titles_on_one_line() {
    assert_eq!(display_title("Song\r\nTitle"), "Song  Title");
    assert_eq!(display_title("  \n"), "Spotifast");
    assert_eq!(display_title(""), "Spotifast");
    assert_eq!(display_artist("A\nB"), "A B");
    assert_eq!(display_artist(""), "");
}

#[test]
fn a_sent_seek_holds_the_position_briefly() {
    assert_eq!(held_position(10_000, None), (10_000, false));
    assert_eq!(held_position(10_000, Some((60_000, 500))), (60_000, true));
    assert_eq!(held_position(59_000, Some((60_000, 500))), (59_000, false));
    assert_eq!(held_position(10_000, Some((60_000, 2_001))), (10_000, false));
    assert_eq!(held_position(70_000, Some((60_000, 2_000))), (60_000, true));
}

#[test]
fn hiding_the_overlay_collapses_at_once() {
    let entered = HoverState::new().handle_mouse_entered(true, false, true);
    let timer = entered.timer.unwrap();
    let expanded = entered.state.on_timer_fired(timer.payload, true, false, true).state;
    assert!(expanded.expanded);
    let hidden = expanded.handle_hidden();
    assert!(!hidden.is_active());
    let late = hidden.on_timer_fired(timer.payload, true, false, true);
    assert_eq!(late.state, hidden);
}

#[test]
fn cover_art_is_compared_as_paths() {
    let mut t1 = NotchTrackInfo {
        playing: true,
        title: "Song".into(),
        artist: "Artist".into(),
        album: "Album".into(),
        duration_ms: 200000,
        position_ms: 0,
        art_path: Some("/tmp/art//cover.jpg".into()),
        uri: "spotify:track:s".into(),
        saved: false,
        accent: None,
        is_episode: false,
        is_remote: false,
    };
    let mut t2 = t1.clone();
    t2.art_path = Some("/tmp/art/cover.jpg".into());
    assert!(!detect_incremental_changes(&t1, &t2).art_changed);
    t2.art_path = Some("/tmp/art/./cover.jpg/".into());
    assert!(!detect_incremental_changes(&t1, &t2).art_changed);
    t2.art_path = Some("/tmp/art/other.jpg".into());
    assert!(detect_incremental_changes(&t1, &t2).art_changed);
    t2.art_path = None;
    assert!(detect_incremental_changes(&t1, &t2).art_changed);
    t1.art_path = None;
    assert!(!detect_incremental_changes(&t1, &t2).art_changed);
}

#[test]
fn a_queued_command_calls_the_installed_waker_once() {
    let mut queue = NotchQueue::new();
    assert!(!wake(&queue));
    assert!(!push_command(&mut queue, NotchCommand::PlayPause));
    set_waker(&mut queue);
    assert!(wake(&queue));
    assert!(push_command(&mut queue, NotchCommand::Next));
    assert_eq!(drain_commands(&mut queue), vec![NotchCommand::PlayPause, NotchCommand::Next]);
    assert!(queue.waker_installed);
    assert!(queue.pending.is_empty());
}

#[test]
fn controls_tinted_with_the_accent_follow_it() {
    let none = IncrementalChanges::default();
    let accent = IncrementalChanges { accent_changed: true, ..none };
    let r = buttons_to_refresh(accent, true, false);
    assert!(r.like && !r.device && !r.play && !r.artwork && !r.like_visibility);
    let r = buttons_to_refresh(accent, false, true);
    assert!(!r.like && r.device);
    let r = buttons_to_refresh(IncrementalChanges { saved_changed: true, episode_changed: true, ..none }, false, false);
    assert!(r.like && r.like_visibility && !r.device);
    assert_eq!(
        buttons_to_refresh(none, true, true),
        ButtonRefresh { like_visibility: false, artwork: false, play: false, like: false, device: false }
    );
}

#[test]
fn delayed_steps_run_when_due_and_wake_until_then() {
    assert_eq!(check_timer(None, 10), TimerCheck::Idle);
    assert_eq!(check_timer(Some(10), 10), TimerCheck::Due);
    assert_eq!(check_timer(Some(10), 11), TimerCheck::Due);
    assert_eq!(check_timer(Some(10), 9), TimerCheck::Pending);
}
