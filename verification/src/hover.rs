//! The notch widget's hover timers: entering the notch schedules an
//! expansion after a short dwell, leaving it schedules a collapse after a
//! linger, and each timer carries a token so that one made stale by a
//! later movement of the pointer does nothing when it fires.

use vstd::prelude::*;

use crate::notch::{is_controller_active, should_perform_collapse, should_perform_expand, should_schedule_collapse, should_schedule_expand};

verus! {

/// What a hover timer does when it fires.
#[derive(Clone, Copy, Debug, PartialEq, Eq, Structural)]
pub enum HoverTimerAction {
    Expand,
    Collapse,
    CompleteCollapse,
}

/// The number a timer action travels as in a timer's payload.
pub open spec fn action_code(action: HoverTimerAction) -> u64 {
    match action {
        HoverTimerAction::Expand => 1,
        HoverTimerAction::Collapse => 2,
        HoverTimerAction::CompleteCollapse => 3,
    }
}

/// Where the widget is between its collapsed and expanded shapes, and the
/// token the live timer must carry.
#[derive(Clone, Copy, Debug, PartialEq, Eq, Structural)]
pub struct HoverState {
    pub expanded: bool,
    pub pending_expand: bool,
    pub pending_collapse: bool,
    pub collapsing: bool,
    pub token: u64,
}

/// A timer to start: it fires after `delay_ms` with `payload`.
#[derive(Clone, Copy, Debug, PartialEq, Eq, Structural)]
pub struct HoverTimer {
    pub delay_ms: u64,
    pub payload: u64,
}

/// The outcome of one event: the next state, the timer to start if any,
/// and whether the interface must be woken to redraw.
#[derive(Clone, Copy, Debug, PartialEq, Eq, Structural)]
pub struct HoverStep {
    pub state: HoverState,
    pub timer: Option<HoverTimer>,
    pub wake: bool,
}

/// The token after `t`, wrapping as the atomic counter does.
pub open spec fn next_token(t: u64) -> u64 {
    if t == u64::MAX {
        0
    } else {
        (t + 1) as u64
    }
}

/// The payload of a timer: its token shifted left by two bits, above the
/// action's code.
pub open spec fn timer_payload(token: u64, action: HoverTimerAction) -> u64 {
    ((token << 2u64) | action_code(action)) as u64
}

fn advance(t: u64) -> (n: u64)
    ensures
        n == next_token(t),
{
    t.wrapping_add(1)
}

fn payload_of(token: u64, action: HoverTimerAction) -> (p: u64)
    ensures
        p == timer_payload(token, action),
{
    let code: u64 = match action {
        HoverTimerAction::Expand => 1,
        HoverTimerAction::Collapse => 2,
        HoverTimerAction::CompleteCollapse => 3,
    };
    (token << 2u64) | code
}

/// The widget before any hover: collapsed, with nothing scheduled.
pub open spec fn idle_state() -> HoverState {
    HoverState { expanded: false, pending_expand: false, pending_collapse: false, collapsing: false, token: 0 }
}

/// The states the widget can reach: an expansion is pending only while
/// collapsed, a collapse only while expanded, and the widget never
/// collapses while expanded.
pub open spec fn reachable(s: HoverState) -> bool {
    &&& s.pending_expand ==> !s.expanded
    &&& s.pending_collapse ==> s.expanded
    &&& !(s.expanded && s.collapsing)
}

/// What entering the notch area does: cancels any pending collapse and
/// every timer, and schedules an expansion after 60 ms where one is due.
pub open spec fn entered(s: HoverState, enabled: bool, in_foreground: bool, has_track: bool) -> HoverStep {
    let cancelled = next_token(s.token);
    if enabled && !in_foreground && has_track && !s.expanded && !s.pending_expand {
        let token = next_token(cancelled);
        HoverStep {
            state: HoverState {
                pending_collapse: false,
                collapsing: false,
                pending_expand: true,
                token,
                ..s
            },
            timer: Some(HoverTimer { delay_ms: 60, payload: timer_payload(token, HoverTimerAction::Expand) }),
            wake: true,
        }
    } else {
        HoverStep {
            state: HoverState { pending_collapse: false, collapsing: false, token: cancelled, ..s },
            timer: None,
            wake: false,
        }
    }
}

/// What leaving the notch area does: cancels a pending expansion and every
/// timer, and schedules a collapse after 400 ms while expanded.
pub open spec fn exited(s: HoverState) -> HoverStep {
    let cancelled = next_token(s.token);
    if s.expanded {
        let token = next_token(cancelled);
        HoverStep {
            state: HoverState { pending_expand: false, pending_collapse: true, token, ..s },
            timer: Some(
                HoverTimer { delay_ms: 400, payload: timer_payload(token, HoverTimerAction::Collapse) },
            ),
            wake: true,
        }
    } else {
        HoverStep {
            state: HoverState { pending_expand: false, token: cancelled, ..s },
            timer: None,
            wake: false,
        }
    }
}

/// What a timer firing with `payload` does. One whose token is not the
/// current one does nothing; an expansion happens only if it is still due;
/// a collapse starts a 200 ms animation and schedules its completion.
pub open spec fn fired(
    s: HoverState,
    payload: u64,
    enabled: bool,
    in_foreground: bool,
    has_track: bool,
) -> HoverStep {
    let unchanged = HoverStep { state: s, timer: None, wake: false };
    if (payload >> 2u64) != s.token {
        unchanged
    } else if payload & 3u64 == 1 {
        if enabled && !in_foreground && has_track && !s.expanded {
            HoverStep {
                state: HoverState { pending_expand: false, expanded: true, collapsing: false, ..s },
                timer: None,
                wake: false,
            }
        } else {
            HoverStep { state: HoverState { pending_expand: false, ..s }, timer: None, wake: false }
        }
    } else if payload & 3u64 == 2 {
        if s.expanded {
            let token = next_token(s.token);
            HoverStep {
                state: HoverState {
                    pending_collapse: false,
                    expanded: false,
                    collapsing: true,
                    token,
                    ..s
                },
                timer: Some(
                    HoverTimer {
                        delay_ms: 200,
                        payload: timer_payload(token, HoverTimerAction::CompleteCollapse),
                    },
                ),
                wake: false,
            }
        } else {
            HoverStep { state: HoverState { pending_collapse: false, ..s }, timer: None, wake: false }
        }
    } else if payload & 3u64 == 3 {
        HoverStep { state: HoverState { collapsing: false, ..s }, timer: None, wake: false }
    } else {
        unchanged
    }
}

/// What hiding the overlay does: cancels every timer and collapses the
/// widget at once, leaving nothing pending.
pub open spec fn hidden(s: HoverState) -> HoverState {
    HoverState {
        expanded: false,
        pending_expand: false,
        pending_collapse: false,
        collapsing: false,
        token: next_token(s.token),
    }
}

impl HoverState {
    /// The widget before any hover.
    pub fn new() -> (s: Self)
        ensures
            s == idle_state(),
    {
        HoverState { expanded: false, pending_expand: false, pending_collapse: false, collapsing: false, token: 0 }
    }

    /// The pointer entered the notch area.
    pub fn handle_mouse_entered(self, enabled: bool, in_foreground: bool, has_track: bool) -> (step:
        HoverStep)
        ensures
            step == entered(self, enabled, in_foreground, has_track),
    {
        let cancelled = advance(self.token);
        if should_schedule_expand(enabled, in_foreground, has_track, self.expanded, self.pending_expand) {
            let token = advance(cancelled);
            HoverStep {
                state: HoverState {
                    pending_collapse: false,
                    collapsing: false,
                    pending_expand: true,
                    token,
                    ..self
                },
                timer: Some(HoverTimer { delay_ms: 60, payload: payload_of(token, HoverTimerAction::Expand) }),
                wake: true,
            }
        } else {
            HoverStep {
                state: HoverState { pending_collapse: false, collapsing: false, token: cancelled, ..self },
                timer: None,
                wake: false,
            }
        }
    }

    /// The pointer left the notch area.
    pub fn handle_mouse_exited(self) -> (step: HoverStep)
        ensures
            step == exited(self),
    {
        let cancelled = advance(self.token);
        if should_schedule_collapse(self.expanded) {
            let token = advance(cancelled);
            HoverStep {
                state: HoverState { pending_expand: false, pending_collapse: true, token, ..self },
                timer: Some(
                    HoverTimer { delay_ms: 400, payload: payload_of(token, HoverTimerAction::Collapse) },
                ),
                wake: true,
            }
        } else {
            HoverStep {
                state: HoverState { pending_expand: false, token: cancelled, ..self },
                timer: None,
                wake: false,
            }
        }
    }

    /// A hover timer fired with `payload`.
    pub fn on_timer_fired(self, payload: u64, enabled: bool, in_foreground: bool, has_track: bool) -> (step:
        HoverStep)
        ensures
            step == fired(self, payload, enabled, in_foreground, has_track),
    {
        let unchanged = HoverStep { state: self, timer: None, wake: false };
        if (payload >> 2u64) != self.token {
            unchanged
        } else if payload & 3 == 1 {
            if should_perform_expand(enabled, in_foreground, has_track, self.expanded) {
                HoverStep {
                    state: HoverState { pending_expand: false, expanded: true, collapsing: false, ..self },
                    timer: None,
                    wake: false,
                }
            } else {
                HoverStep { state: HoverState { pending_expand: false, ..self }, timer: None, wake: false }
            }
        } else if payload & 3 == 2 {
            if should_perform_collapse(self.expanded) {
                let token = advance(self.token);
                HoverStep {
                    state: HoverState {
                        pending_collapse: false,
                        expanded: false,
                        collapsing: true,
                        token,
                        ..self
                    },
                    timer: Some(
                        HoverTimer {
                            delay_ms: 200,
                            payload: payload_of(token, HoverTimerAction::CompleteCollapse),
                        },
                    ),
                    wake: false,
                }
            } else {
                HoverStep { state: HoverState { pending_collapse: false, ..self }, timer: None, wake: false }
            }
        } else if payload & 3 == 3 {
            HoverStep { state: HoverState { collapsing: false, ..self }, timer: None, wake: false }
        } else {
            unchanged
        }
    }

    /// The overlay was hidden: every timer is cancelled and the widget is
    /// collapsed at once.
    pub fn handle_hidden(self) -> (s: Self)
        ensures
            s == hidden(self),
    {
        HoverState {
            expanded: false,
            pending_expand: false,
            pending_collapse: false,
            collapsing: false,
            token: advance(self.token),
        }
    }

    /// Whether the widget is expanded, animating, or waiting on a timer.
    pub fn is_active(&self) -> (r: bool)
        ensures
            r == (self.expanded || self.pending_expand || self.pending_collapse || self.collapsing),
    {
        is_controller_active(self.expanded, self.pending_expand, self.pending_collapse, self.collapsing)
    }
}

/// Every event keeps the widget in a reachable state, starting from the
/// idle one.
pub proof fn hover_events_keep_the_widget_consistent(
    s: HoverState,
    payload: u64,
    enabled: bool,
    in_foreground: bool,
    has_track: bool,
)
    requires
        reachable(s),
    ensures
        reachable(idle_state()),
        reachable(entered(s, enabled, in_foreground, has_track).state),
        reachable(exited(s).state),
        reachable(fired(s, payload, enabled, in_foreground, has_track).state),
        reachable(hidden(s)),
{
}

/// A timer whose token is not the current one changes nothing when it
/// fires.
pub proof fn stale_timers_do_nothing(
    s: HoverState,
    payload: u64,
    enabled: bool,
    in_foreground: bool,
    has_track: bool,
)
    requires
        (payload >> 2u64) != s.token,
    ensures
        fired(s, payload, enabled, in_foreground, has_track) == (HoverStep {
            state: s,
            timer: None,
            wake: false,
        }),
{
}

proof fn payload_token(token: u64, action: HoverTimerAction)
    ensures
        token < 0x4000_0000_0000_0000 ==> timer_payload(token, action) >> 2u64 == token,
        timer_payload(token, action) & 3u64 == action_code(action),
        timer_payload(token, action) >> 2u64 != next_token(token),
        timer_payload(token, action) >> 2u64 != next_token(next_token(token)),
{
    let c = action_code(action);
    assert(1 <= c <= 3);
    let low = timer_payload(token, action) >> 2u64;
    assert(c <= 3 ==> ((token << 2u64) | c) >> 2u64 == token & 0x3fff_ffff_ffff_ffffu64) by (bit_vector);
    assert(token & 0x3fff_ffff_ffff_ffffu64 <= token) by (bit_vector);
    assert(token == 0xffff_ffff_ffff_ffffu64 ==> token & 0x3fff_ffff_ffff_ffffu64 == 0x3fff_ffff_ffff_ffffu64)
        by (bit_vector);
    assert(token == 0xffff_ffff_ffff_fffeu64 ==> token & 0x3fff_ffff_ffff_ffffu64 == 0x3fff_ffff_ffff_fffeu64)
        by (bit_vector);
    assert(token < 0x4000_0000_0000_0000 ==> token & 0x3fff_ffff_ffff_ffffu64 == token) by (bit_vector);
    assert(c <= 3 ==> ((token << 2u64) | c) & 3u64 == c) by (bit_vector);
    assert(low == token & 0x3fff_ffff_ffff_ffffu64);
}

/// Whether the timer a step starts, if any, carries the step's token, where
/// the token fits beside the action in the payload.
pub open spec fn schedules_live_timer(step: HoverStep) -> bool {
    match step.timer {
        Some(t) => step.state.token < 0x4000_0000_0000_0000 ==> (t.payload >> 2u64) == step.state.token,
        None => true,
    }
}

/// Moving the pointer makes every timer scheduled before it stale, and a
/// timer a step schedules is the live one when it fires, as long as the
/// token still fits beside the action in the payload.
pub proof fn pointer_moves_cancel_earlier_timers(
    s: HoverState,
    action: HoverTimerAction,
    enabled: bool,
    in_foreground: bool,
    has_track: bool,
)
    ensures
        timer_payload(s.token, action) >> 2u64 != entered(s, enabled, in_foreground, has_track).state.token,
        timer_payload(s.token, action) >> 2u64 != exited(s).state.token,
        schedules_live_timer(entered(s, enabled, in_foreground, has_track)),
        schedules_live_timer(exited(s)),
{
    payload_token(s.token, action);
    payload_token(next_token(next_token(s.token)), HoverTimerAction::Expand);
    payload_token(next_token(next_token(s.token)), HoverTimerAction::Collapse);
}

/// Entering the notch area always clears a pending collapse and a collapse
/// animation and cancels earlier timers, without changing whether the widget
/// is expanded; it schedules an expansion, 60 ms on and waking the
/// interface, exactly when the widget is enabled, in the background, has a
/// track, and is neither expanded nor already about to expand.
pub proof fn entering_cancels_a_pending_collapse(
    s: HoverState,
    enabled: bool,
    in_foreground: bool,
    has_track: bool,
)
    ensures
        ({
            let step = entered(s, enabled, in_foreground, has_track);
            let due = enabled && !in_foreground && has_track && !s.expanded && !s.pending_expand;
            &&& !step.state.pending_collapse
            &&& !step.state.collapsing
            &&& step.state.expanded == s.expanded
            &&& step.state.token != s.token
            &&& step.state.pending_expand == (s.pending_expand || due)
            &&& step.timer is Some <==> due
            &&& step.timer matches Some(t) ==> t.delay_ms == 60
            &&& step.wake == due
        }),
{
}

/// Leaving the notch area always cancels a pending expansion and earlier
/// timers, without expanding, collapsing or stopping an animation; it
/// schedules a collapse, 400 ms on and waking the interface, exactly when
/// the widget is expanded (in any state the widget can reach).
pub proof fn leaving_schedules_a_collapse_only_when_expanded(s: HoverState)
    requires
        reachable(s),
    ensures
        ({
            let step = exited(s);
            &&& !step.state.pending_expand
            &&& step.state.pending_collapse == s.expanded
            &&& step.state.expanded == s.expanded
            &&& step.state.collapsing == s.collapsing
            &&& step.state.token != s.token
            &&& step.timer is Some <==> s.expanded
            &&& step.timer matches Some(t) ==> t.delay_ms == 400
            &&& step.wake == s.expanded
        }),
{
}

/// A live timer does what it was set for: an expansion expands the widget
/// when the widget may show and clears the pending expansion either way; a
/// collapse of an expanded widget collapses it into a 200 ms animation and
/// clears the pending collapse; the animation's end stops it. None of them
/// wakes the interface.
pub proof fn live_timers_do_what_they_were_set_for(
    s: HoverState,
    payload: u64,
    enabled: bool,
    in_foreground: bool,
    has_track: bool,
)
    requires
        (payload >> 2u64) == s.token,
    ensures
        ({
            let step = fired(s, payload, enabled, in_foreground, has_track);
            &&& !step.wake
            &&& payload & 3u64 == 1 ==> !step.state.pending_expand && step.state.expanded == (
            s.expanded || (enabled && !in_foreground && has_track)) && step.timer is None
            &&& payload & 3u64 == 2 ==> !step.state.pending_collapse && !step.state.expanded
            &&& payload & 3u64 == 2 && s.expanded ==> step.state.collapsing && (step.timer matches Some(
                t,
            ) && t.delay_ms == 200)
            &&& payload & 3u64 == 2 && !s.expanded ==> step.timer is None && step.state.collapsing
                == s.collapsing
            &&& payload & 3u64 == 3 ==> !step.state.collapsing && step.state.expanded == s.expanded
                && step.timer is None
        }),
{
}

/// Hiding the overlay leaves the widget inactive, and no timer scheduled
/// before it fires.
pub proof fn hiding_cancels_everything(s: HoverState, action: HoverTimerAction)
    ensures
        !(hidden(s).expanded || hidden(s).pending_expand || hidden(s).pending_collapse
            || hidden(s).collapsing),
        timer_payload(s.token, action) >> 2u64 != hidden(s).token,
{
    payload_token(s.token, action);
}

} // verus!
