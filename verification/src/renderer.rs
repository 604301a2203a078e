//! What is on screen and when: the transition between two playlist entries,
//! the opacity of the layers, the meaning of the keys and the contents of the
//! status overlay.
//!
//! Nothing is drawn here. Time comes in as milliseconds of a monotonic clock.

use crate::text::{joined, lowercase, lowercased, same_text};
use vstd::prelude::*;
use vstd::string::*;

verus! {

/// The pause between two frames, in milliseconds: the cadence at which the
/// transition is polled.
pub const FRAME_DELAY_MS: u64 = 16;

/// The ways to get from one entry to the next.
#[derive(Debug, Clone, Copy, PartialEq, Eq, Structural)]
pub enum Transition {
    /// Instant switch, no transition effect.
    Cut,
    /// Fade the current image out, then the next image in.
    Fade,
    /// Crossfade between current and next image.
    Crossfade,
}

/// The transition that a lower-case name stands for: `Cut` for every name
/// but `fade` and `crossfade`.
pub open spec fn transition_named(name: Seq<char>) -> Transition {
    if name == "fade"@ {
        Transition::Fade
    } else if name == "crossfade"@ {
        Transition::Crossfade
    } else {
        Transition::Cut
    }
}

impl Transition {
    /// The transition with the given name, whatever the case of its letters.
    pub fn from_str(s: &str) -> (r: Self)
        ensures
            r == transition_named(lowercased(s@)),
    {
        let lower = lowercase(s);
        Self::from_lowercase(lower.as_str())
    }

    /// The transition with the given lower-case name.
    pub fn from_lowercase(name: &str) -> (r: Self)
        ensures
            r == transition_named(name@),
    {
        if same_text(name, "fade") {
            Transition::Fade
        } else if same_text(name, "crossfade") {
            Transition::Crossfade
        } else {
            Transition::Cut
        }
    }
}

/// State of the current transition animation. Progress is in thousandths of
/// the phase and stays below 1000.
#[derive(Debug, Clone, Copy, PartialEq, Eq, Structural)]
pub enum TransitionState {
    /// No transition in progress, displaying current image.
    Idle,
    /// Transitioning out from current image.
    TransitioningOut { progress: u32 },
    /// Transitioning in to next image.
    TransitioningIn { progress: u32 },
}

/// Result of processing events.
#[derive(Debug, Clone, Copy, PartialEq, Eq, Structural)]
pub enum EventResult {
    /// Continue running.
    Continue,
    /// User requested quit.
    Quit,
}

/// Specific user actions from keyboard/remote input.
#[derive(Debug, Clone, Copy, PartialEq, Eq, Structural)]
pub enum UserAction {
    /// No action, continue normally.
    NoAction,
    /// Quit the application.
    Quit,
    /// Toggle pause (for videos).
    TogglePause,
    /// Skip to next media.
    Next,
    /// Go to previous media.
    Previous,
    /// Force playlist refresh.
    Refresh,
    /// Toggle overlay visibility.
    ToggleOverlay,
}

/// The keys that mean something to the viewer.
#[derive(Debug, Clone, Copy, PartialEq, Eq, Structural)]
pub enum Key {
    Escape,
    Q,
    Space,
    Return,
    P,
    Right,
    Down,
    N,
    PageDown,
    Left,
    Up,
    B,
    PageUp,
    R,
    F5,
    I,
    Tab,
    O,
    /// Any other key.
    Other,
}

/// An input event.
#[derive(Debug, Clone, Copy, PartialEq, Eq, Structural)]
pub enum InputEvent {
    /// The window was asked to close.
    Quit,
    /// A key went down.
    KeyDown(Key),
    /// Anything else.
    Other,
}

/// What a key asks for.
pub open spec fn key_action(key: Key) -> UserAction {
    match key {
        Key::Escape | Key::Q => UserAction::Quit,
        Key::Space | Key::Return | Key::P => UserAction::TogglePause,
        Key::Right | Key::Down | Key::N | Key::PageDown => UserAction::Next,
        Key::Left | Key::Up | Key::B | Key::PageUp => UserAction::Previous,
        Key::R | Key::F5 => UserAction::Refresh,
        Key::I | Key::Tab | Key::O => UserAction::ToggleOverlay,
        Key::Other => UserAction::NoAction,
    }
}

/// What an input event asks for.
pub open spec fn event_action(event: InputEvent) -> UserAction {
    match event {
        InputEvent::Quit => UserAction::Quit,
        InputEvent::KeyDown(key) => key_action(key),
        InputEvent::Other => UserAction::NoAction,
    }
}

/// The position of the first event of `events` that asks for something, or
/// the length of `events` where none does.
pub open spec fn first_action(events: Seq<InputEvent>) -> int
    decreases events.len(),
{
    if events.len() == 0 {
        0
    } else if event_action(events[0]) != UserAction::NoAction {
        0
    } else {
        1 + first_action(events.drop_first())
    }
}

/// What the status indicator of the overlay shows.
#[derive(Debug, Clone, Copy, PartialEq, Eq, Structural)]
pub enum Indicator {
    /// Playing from the cache, the remote source is out of reach.
    Offline,
    /// The realtime feed is connected.
    Connected,
    /// The realtime feed is not connected yet.
    Connecting,
}

/// Information to display in the overlay.
#[derive(Debug, Clone, PartialEq, Eq)]
pub struct OverlayInfo {
    /// Whether connected to the realtime feed.
    pub is_connected: bool,
    /// Whether currently offline (using cache).
    pub is_offline: bool,
    /// Current media index (1-based for display).
    pub current_index: usize,
    /// Total media count.
    pub total_count: usize,
    /// Current media title/ID.
    pub media_title: String,
    /// Cache usage in bytes.
    pub cache_used: u64,
    /// Cache max size in bytes.
    pub cache_max: u64,
    /// Cache item count.
    pub cache_items: usize,
    /// Whether current media is a video.
    pub is_video: bool,
    /// Whether video is paused.
    pub is_paused: bool,
    /// Video duration in milliseconds.
    pub video_duration: Option<u64>,
    /// Video position in milliseconds.
    pub video_position: Option<u64>,
}

/// What the overlay shows.
#[derive(Debug, Clone, PartialEq, Eq)]
pub struct OverlayPlan {
    pub indicator: Indicator,
    /// The text beside the indicator.
    pub status: &'static str,
    /// The title, shortened where it is long.
    pub title: String,
    /// Whether to mark the video as paused.
    pub paused: bool,
    /// The width in pixels of the filled part of the video progress bar,
    /// where the bar is shown.
    pub progress_width: Option<u32>,
}

/// The opacity of the layers of one frame.
#[derive(Debug, Clone, Copy, PartialEq, Eq, Structural)]
pub struct RenderPlan {
    /// The opacity of the current entry.
    pub alpha: u8,
    /// The opacity of the next entry beneath it, where it is drawn at all.
    pub incoming_alpha: Option<u8>,
}

/// The longest title that the overlay shows in full, in characters.
pub const TITLE_MAX: usize = 30;

/// The characters that are kept of a longer title, before the dots.
pub const TITLE_KEPT: usize = 27;

/// The margin on either side of the video progress bar, in pixels.
pub const BAR_MARGIN: u32 = 20;

/// The indicator for a connection state: offline outranks connected.
pub open spec fn indicator_for(is_offline: bool, is_connected: bool) -> Indicator {
    if is_offline {
        Indicator::Offline
    } else if is_connected {
        Indicator::Connected
    } else {
        Indicator::Connecting
    }
}

/// The text that goes with an indicator.
pub open spec fn indicator_text(indicator: Indicator) -> Seq<char> {
    match indicator {
        Indicator::Offline => "OFFLINE"@,
        Indicator::Connected => "CONNECTED"@,
        Indicator::Connecting => "CONNECTING..."@,
    }
}

/// A title as the overlay shows it: in full up to `TITLE_MAX` characters,
/// else its first `TITLE_KEPT` characters and three dots.
pub open spec fn shown_title(title: Seq<char>) -> Seq<char> {
    if title.len() > TITLE_MAX {
        title.subrange(0, TITLE_KEPT as int) + "..."@
    } else {
        title
    }
}

/// The filled part of a progress bar of `width` pixels at `position` of
/// `duration`: the whole bar at and after the end.
pub open spec fn filled_width(width: nat, position: nat, duration: nat) -> nat {
    if position >= duration {
        width
    } else {
        width * position / duration
    }
}

/// The filled width of the video progress bar on a screen of `screen_width`
/// pixels, where the bar is shown: for a video with a known position and
/// duration, on a screen wider than the two margins.
pub open spec fn progress_bar(screen_width: u32, info: OverlayInfo) -> Option<nat> {
    if info.is_video && info.video_position is Some && info.video_duration is Some && screen_width
        > 2 * BAR_MARGIN {
        Some(
            filled_width(
                (screen_width - 2 * BAR_MARGIN) as nat,
                info.video_position->0 as nat,
                info.video_duration->0 as nat,
            ),
        )
    } else {
        None
    }
}

/// Whether the first half of a transition of `duration` is over after
/// `elapsed`.
pub open spec fn out_done(elapsed: nat, duration: nat) -> bool {
    2 * elapsed >= duration
}

/// Whether a transition of `duration` is over after `elapsed`.
pub open spec fn in_done(elapsed: nat, duration: nat) -> bool {
    elapsed >= duration
}

/// The progress of the first half, in thousandths.
pub open spec fn out_progress(elapsed: nat, duration: nat) -> nat {
    2000 * elapsed / duration
}

/// The progress of the second half, in thousandths.
pub open spec fn in_progress(elapsed: nat, duration: nat) -> nat {
    if 2 * elapsed <= duration {
        0
    } else {
        ((2 * elapsed - duration) * 1000 / duration as int) as nat
    }
}

/// The state after a poll at `elapsed` since the start of a transition of
/// `duration`.
pub open spec fn polled(state: TransitionState, duration: nat, elapsed: nat) -> TransitionState {
    match state {
        TransitionState::Idle => TransitionState::Idle,
        TransitionState::TransitioningOut { .. } => if out_done(elapsed, duration) {
            TransitionState::TransitioningIn { progress: 0 }
        } else {
            TransitionState::TransitioningOut { progress: out_progress(elapsed, duration) as u32 }
        },
        TransitionState::TransitioningIn { .. } => if in_done(elapsed, duration) {
            TransitionState::Idle
        } else {
            TransitionState::TransitioningIn { progress: in_progress(elapsed, duration) as u32 }
        },
    }
}

/// Whether a poll asks to swap the current and the next entry: the poll
/// that ends the first half.
pub open spec fn swaps(state: TransitionState, duration: nat, elapsed: nat) -> bool {
    state is TransitioningOut && out_done(elapsed, duration)
}

/// An opacity for a progress in thousandths.
pub open spec fn alpha_of(progress: nat) -> nat {
    progress * 255 / 1000
}

/// The opacity of the layers for a kind of transition in a state. A cut is
/// always opaque. A fade takes the current entry down in the first half and
/// up, after the swap, in the second. A crossfade does the same and, in the
/// first half, draws the next entry beneath with rising opacity.
pub open spec fn layers(kind: Transition, state: TransitionState) -> RenderPlan {
    match (kind, state) {
        (Transition::Cut, _) => RenderPlan { alpha: 255, incoming_alpha: None },
        (_, TransitionState::Idle) => RenderPlan { alpha: 255, incoming_alpha: None },
        (_, TransitionState::TransitioningOut { progress }) => RenderPlan {
            alpha: alpha_of((1000 - progress) as nat) as u8,
            incoming_alpha: if kind == Transition::Crossfade {
                Some(alpha_of(progress as nat) as u8)
            } else {
                None
            },
        },
        (_, TransitionState::TransitioningIn { progress }) => RenderPlan {
            alpha: alpha_of(progress as nat) as u8,
            incoming_alpha: None,
        },
    }
}

/// The renderer's view of time and screen.
pub struct Renderer {
    screen_width: u32,
    screen_height: u32,
    transition_type: Transition,
    transition_duration_ms: u32,
    transition_state: TransitionState,
    transition_start: Option<u64>,
}

impl Renderer {
    /// The kind of transition.
    pub closed spec fn kind(&self) -> Transition {
        self.transition_type
    }

    /// The duration of a transition in milliseconds.
    pub closed spec fn duration(&self) -> nat {
        self.transition_duration_ms as nat
    }

    /// The state of the transition.
    pub closed spec fn state(&self) -> TransitionState {
        self.transition_state
    }

    /// When the transition started, while one is under way.
    pub closed spec fn started(&self) -> Option<u64> {
        self.transition_start
    }

    /// The size of the screen.
    pub closed spec fn screen(&self) -> (u32, u32) {
        (self.screen_width, self.screen_height)
    }

    /// The invariant of the renderer: progress stays below 1000.
    pub closed spec fn wf(&self) -> bool {
        match self.transition_state {
            TransitionState::Idle => true,
            TransitionState::TransitioningOut { progress } => progress < 1000,
            TransitionState::TransitioningIn { progress } => progress < 1000,
        }
    }

    /// A renderer for a screen of the given size, with no transition under
    /// way.
    pub fn new(
        transition: Transition,
        transition_duration_ms: u32,
        screen_width: u32,
        screen_height: u32,
    ) -> (r: Self)
        ensures
            r.wf(),
            r.kind() == transition,
            r.duration() == transition_duration_ms,
            r.state() == TransitionState::Idle,
            r.started() is None,
            r.screen() == (screen_width, screen_height),
    {
        Renderer {
            screen_width,
            screen_height,
            transition_type: transition,
            transition_duration_ms,
            transition_state: TransitionState::Idle,
            transition_start: None,
        }
    }

    /// Start a transition to the next image at the time `now_ms`.
    pub fn start_transition(&mut self, now_ms: u64)
        ensures
            final(self).wf(),
            final(self).kind() == old(self).kind(),
            final(self).duration() == old(self).duration(),
            final(self).screen() == old(self).screen(),
            final(self).state() == (TransitionState::TransitioningOut { progress: 0 }),
            final(self).started() == Some(now_ms),
    {
        self.transition_state = TransitionState::TransitioningOut { progress: 0 };
        self.transition_start = Some(now_ms);
    }

    /// Check if a transition is currently in progress.
    pub fn is_transitioning(&self) -> (r: bool)
        ensures
            r == !(self.state() is Idle),
    {
        self.transition_state != TransitionState::Idle
    }

    /// The current state of the transition.
    pub fn transition_state(&self) -> (r: TransitionState)
        ensures
            r == self.state(),
    {
        self.transition_state
    }

    /// The time since the start of the transition at `now_ms`.
    pub open spec fn elapsed_at(start: u64, now_ms: u64) -> nat {
        if now_ms >= start {
            (now_ms - start) as nat
        } else {
            0
        }
    }

    /// The state after an update at `now_ms`: without a start time it stays
    /// as it is, else it is polled for the time since the start.
    pub open spec fn updated_state(&self, now_ms: u64) -> TransitionState {
        match self.started() {
            None => self.state(),
            Some(start) => polled(self.state(), self.duration(), Self::elapsed_at(start, now_ms)),
        }
    }

    /// Whether an update at `now_ms` asks for the swap.
    pub open spec fn updated_swaps(&self, now_ms: u64) -> bool {
        match self.started() {
            None => false,
            Some(start) => swaps(self.state(), self.duration(), Self::elapsed_at(start, now_ms)),
        }
    }

    /// The start time after an update at `now_ms`: it is forgotten when the
    /// second half ends.
    pub open spec fn updated_start(&self, now_ms: u64) -> Option<u64> {
        if self.state() is TransitioningIn && self.updated_state(now_ms) is Idle {
            None
        } else {
            self.started()
        }
    }

    /// Update transition state for the time `now_ms`. Returns whether the
    /// current and the next entry are to be swapped now.
    pub fn update_transition(&mut self, now_ms: u64) -> (swap: bool)
        requires
            old(self).wf(),
        ensures
            final(self).wf(),
            final(self).kind() == old(self).kind(),
            final(self).duration() == old(self).duration(),
            final(self).screen() == old(self).screen(),
            final(self).state() == old(self).updated_state(now_ms),
            final(self).started() == old(self).updated_start(now_ms),
            swap == old(self).updated_swaps(now_ms),
    {
        let start = match self.transition_start {
            Some(start) => start,
            None => {
                return false;
            },
        };
        let elapsed: u64 = if now_ms >= start {
            now_ms - start
        } else {
            0
        };
        let duration: u64 = self.transition_duration_ms as u64;
        match self.transition_state {
            TransitionState::Idle => false,
            TransitionState::TransitioningOut { .. } => {
                if elapsed >= duration - duration / 2 {
                    self.transition_state = TransitionState::TransitioningIn { progress: 0 };
                    true
                } else {
                    let progress: u64 = 2000 * elapsed / duration;
                    assert(progress < 1000) by (nonlinear_arith)
                        requires
                            progress == (2000 * elapsed) / (duration as int),
                            2 * elapsed < duration,
                    ;
                    self.transition_state = TransitionState::TransitioningOut {
                        progress: progress as u32,
                    };
                    false
                }
            },
            TransitionState::TransitioningIn { .. } => {
                if elapsed >= duration {
                    self.transition_state = TransitionState::Idle;
                    self.transition_start = None;
                } else {
                    let progress: u64 = if 2 * elapsed <= duration {
                        0
                    } else {
                        (2 * elapsed - duration) * 1000 / duration
                    };
                    assert(progress < 1000) by (nonlinear_arith)
                        requires
                            progress == if 2 * elapsed <= duration {
                                0
                            } else {
                                (2 * elapsed - duration) * 1000 / duration as int
                            },
                            elapsed < duration,
                    ;
                    self.transition_state = TransitionState::TransitioningIn {
                        progress: progress as u32,
                    };
                }
                false
            },
        }
    }

    /// The opacity of the layers of the current frame.
    pub fn render(&self) -> (r: RenderPlan)
        requires
            self.wf(),
        ensures
            r == layers(self.kind(), self.state()),
    {
        match self.transition_type {
            Transition::Cut => RenderPlan { alpha: 255, incoming_alpha: None },
            kind => match self.transition_state {
                TransitionState::Idle => RenderPlan { alpha: 255, incoming_alpha: None },
                TransitionState::TransitioningOut { progress } => {
                    let rising: u8 = Self::alpha(progress);
                    let falling: u8 = Self::alpha(1000 - progress);
                    RenderPlan {
                        alpha: falling,
                        incoming_alpha: if kind == Transition::Crossfade {
                            Some(rising)
                        } else {
                            None
                        },
                    }
                },
                TransitionState::TransitioningIn { progress } => RenderPlan {
                    alpha: Self::alpha(progress),
                    incoming_alpha: None,
                },
            },
        }
    }

    /// The opacity for a progress in thousandths.
    fn alpha(progress: u32) -> (a: u8)
        requires
            progress <= 1000,
        ensures
            a == alpha_of(progress as nat),
    {
        (progress * 255 / 1000) as u8
    }

    /// What an input event asks for.
    pub fn action_for(event: InputEvent) -> (r: UserAction)
        ensures
            r == event_action(event),
    {
        match event {
            InputEvent::Quit => UserAction::Quit,
            InputEvent::KeyDown(key) => match key {
                Key::Escape | Key::Q => UserAction::Quit,
                Key::Space | Key::Return | Key::P => UserAction::TogglePause,
                Key::Right | Key::Down | Key::N | Key::PageDown => UserAction::Next,
                Key::Left | Key::Up | Key::B | Key::PageUp => UserAction::Previous,
                Key::R | Key::F5 => UserAction::Refresh,
                Key::I | Key::Tab | Key::O => UserAction::ToggleOverlay,
                Key::Other => UserAction::NoAction,
            },
            InputEvent::Other => UserAction::NoAction,
        }
    }

    /// Process pending input events in their order, up to the first that
    /// asks for something. Returns what it asks for and how many events
    /// were used up; the rest stay pending.
    pub fn process_events_extended(events: &Vec<InputEvent>) -> (r: (UserAction, usize))
        ensures
            r.1 == if first_action(events@) < events@.len() {
                first_action(events@) + 1
            } else {
                events@.len() as int
            },
            r.0 == if first_action(events@) < events@.len() {
                event_action(events@[first_action(events@)])
            } else {
                UserAction::NoAction
            },
    {
        let mut i: usize = 0;
        assert(events@.skip(0) =~= events@);
        while i < events.len()
            invariant
                i <= events.len(),
                first_action(events@) == i + first_action(events@.skip(i as int)),
            decreases events.len() - i,
        {
            let action = Self::action_for(events[i]);
            proof {
                assert(events@.skip(i as int)[0] == events@[i as int]);
                assert(events@.skip(i as int).drop_first() =~= events@.skip(i + 1));
            }
            if action != UserAction::NoAction {
                return (action, i + 1);
            }
            i = i + 1;
        }
        (UserAction::NoAction, i)
    }

    /// Process pending input events. Returns Quit if user wants to exit.
    pub fn process_events(events: &Vec<InputEvent>) -> (r: (EventResult, usize))
        ensures
            r.1 == if first_action(events@) < events@.len() {
                first_action(events@) + 1
            } else {
                events@.len() as int
            },
            r.0 == if first_action(events@) < events@.len() && event_action(
                events@[first_action(events@)],
            ) == UserAction::Quit {
                EventResult::Quit
            } else {
                EventResult::Continue
            },
    {
        let (action, used) = Self::process_events_extended(events);
        match action {
            UserAction::Quit => (EventResult::Quit, used),
            _ => (EventResult::Continue, used),
        }
    }

    /// Get screen dimensions.
    pub fn screen_size(&self) -> (r: (u32, u32))
        ensures
            r == self.screen(),
    {
        (self.screen_width, self.screen_height)
    }

    /// The filled part of a progress bar of `width` pixels.
    pub fn progress_width(width: u32, position: u64, duration: u64) -> (r: u32)
        ensures
            r == filled_width(width as nat, position as nat, duration as nat),
    {
        if position >= duration {
            width
        } else {
            assert(width * position <= 0xffff_ffff * 0xffff_ffff_ffff_ffff) by (nonlinear_arith)
                requires
                    0 <= width <= 0xffff_ffff,
                    0 <= position <= 0xffff_ffff_ffff_ffff,
            ;
            let wide: u128 = width as u128 * position as u128;
            let r: u128 = wide / duration as u128;
            assert(r <= width) by (nonlinear_arith)
                requires
                    r == (width * position) / duration as int,
                    position < duration,
            ;
            r as u32
        }
    }

    /// What the status overlay shows for `info`.
    pub fn render_overlay(&self, info: &OverlayInfo) -> (r: OverlayPlan)
        ensures
            r.indicator == indicator_for(info.is_offline, info.is_connected),
            r.status@ == indicator_text(r.indicator),
            r.title@ == shown_title(info.media_title@),
            r.paused == info.is_paused,
            match (r.progress_width, progress_bar(self.screen().0, *info)) {
                (Some(w), Some(v)) => w == v,
                (None, None) => true,
                _ => false,
            },
    {
        let indicator = if info.is_offline {
            Indicator::Offline
        } else if info.is_connected {
            Indicator::Connected
        } else {
            Indicator::Connecting
        };
        let status: &'static str = match indicator {
            Indicator::Offline => "OFFLINE",
            Indicator::Connected => "CONNECTED",
            Indicator::Connecting => "CONNECTING...",
        };
        let title = if info.media_title.as_str().unicode_len() > TITLE_MAX {
            joined(info.media_title.as_str().substring_char(0, TITLE_KEPT), "...")
        } else {
            info.media_title.clone()
        };
        let progress_width = match (info.is_video, info.video_position, info.video_duration) {
            (true, Some(position), Some(duration)) => {
                if self.screen_width > 2 * BAR_MARGIN {
                    Some(Self::progress_width(self.screen_width - 2 * BAR_MARGIN, position, duration))
                } else {
                    None
                }
            },
            _ => None,
        };
        OverlayPlan { indicator, status, title, paused: info.is_paused, progress_width }
    }
}

/// The state after `k` polls at a fixed cadence, the first one `cadence`
/// after the start of a transition of `duration`.
pub open spec fn state_after(duration: nat, cadence: nat, k: nat) -> TransitionState
    decreases k,
{
    if k == 0 {
        TransitionState::TransitioningOut { progress: 0 }
    } else {
        polled(state_after(duration, cadence, (k - 1) as nat), duration, k * cadence)
    }
}

/// Whether the `k`-th poll at a fixed cadence asks for the swap.
pub open spec fn swap_at(duration: nat, cadence: nat, k: nat) -> bool {
    k > 0 && swaps(state_after(duration, cadence, (k - 1) as nat), duration, k * cadence)
}

/// Polls before the first half is over leave the transition in its first
/// half, and none of them asks for the swap.
proof fn lemma_out_phase(duration: nat, cadence: nat, k: nat)
    requires
        2 * (k * cadence) < duration,
    ensures
        state_after(duration, cadence, k) is TransitioningOut,
        !swap_at(duration, cadence, k),
    decreases k,
{
    if k > 0 {
        assert((k - 1) * cadence <= k * cadence) by (nonlinear_arith)
            requires
                k > 0,
        ;
        lemma_out_phase(duration, cadence, (k - 1) as nat);
    }
}

/// Polls before the transition is over leave it in its second half, once it
/// is there.
proof fn lemma_in_phase(duration: nat, cadence: nat, from: nat, k: nat)
    requires
        from <= k,
        state_after(duration, cadence, from) is TransitioningIn,
        k == from || k * cadence < duration,
    ensures
        state_after(duration, cadence, k) is TransitioningIn,
    decreases k,
{
    if k > from {
        assert((k - 1) * cadence <= k * cadence) by (nonlinear_arith)
            requires
                k > 0,
        ;
        lemma_in_phase(duration, cadence, from, (k - 1) as nat);
    }
}

/// Once idle, the transition stays idle.
proof fn lemma_idle_phase(duration: nat, cadence: nat, from: nat, k: nat)
    requires
        from <= k,
        state_after(duration, cadence, from) is Idle,
    ensures
        state_after(duration, cadence, k) is Idle,
    decreases k,
{
    if k > from {
        lemma_idle_phase(duration, cadence, from, (k - 1) as nat);
    }
}

/// The smallest number of steps of `step` that reach `target`.
proof fn lemma_steps_to_reach(target: nat, step: nat) -> (n: nat)
    requires
        0 < step,
        0 < target,
    ensures
        n >= 1,
        n * step >= target,
        (n - 1) * step < target,
{
    let x = (target + step - 1) as int;
    let n = x / (step as int);
    vstd::arithmetic::div_mod::lemma_fundamental_div_mod(x, step as int);
    vstd::arithmetic::div_mod::lemma_mod_bound(x, step as int);
    assert(n * step == step * n) by (nonlinear_arith);
    assert((n - 1) * step == n * step - step) by (nonlinear_arith);
    if n < 1 {
        assert(n * step <= 0) by (nonlinear_arith)
            requires
                n < 1,
                step > 0,
        ;
    }
    n as nat
}

/// The poll that ends the first half: every poll before it finds the first
/// half under way, and it is the first to ask for the swap.
proof fn lemma_first_half(duration: nat, cadence: nat) -> (k1: nat)
    requires
        0 < cadence <= duration,
    ensures
        k1 >= 1,
        2 * (k1 * cadence) >= duration,
        2 * ((k1 - 1) * cadence) < duration,
        forall|k: nat| k < k1 ==> #[trigger] state_after(duration, cadence, k) is TransitioningOut,
        forall|k: nat| k < k1 ==> !#[trigger] swap_at(duration, cadence, k),
        state_after(duration, cadence, k1) is TransitioningIn,
        swap_at(duration, cadence, k1),
{
    let k1 = lemma_steps_to_reach(duration, 2 * cadence);
    assert(k1 * (2 * cadence) == 2 * (k1 * cadence)) by (nonlinear_arith);
    assert((k1 - 1) * (2 * cadence) == 2 * ((k1 - 1) * cadence)) by (nonlinear_arith);
    assert forall|k: nat| k < k1 implies #[trigger] state_after(
        duration,
        cadence,
        k,
    ) is TransitioningOut && !swap_at(duration, cadence, k) by {
        assert(k * cadence <= (k1 - 1) * cadence) by (nonlinear_arith)
            requires
                k <= k1 - 1,
        ;
        lemma_out_phase(duration, cadence, k);
    }
    assert forall|k: nat| k < k1 implies !#[trigger] swap_at(duration, cadence, k) by {
        assert(k * cadence <= (k1 - 1) * cadence) by (nonlinear_arith)
            requires
                k <= k1 - 1,
        ;
        lemma_out_phase(duration, cadence, k);
    }
    assert(state_after(duration, cadence, (k1 - 1) as nat) is TransitioningOut);
    k1
}

/// The poll that ends the transition, given the poll that ended its first
/// half.
proof fn lemma_second_half(duration: nat, cadence: nat, k1: nat) -> (k2: nat)
    requires
        0 < cadence <= duration,
        k1 >= 1,
        2 * (k1 * cadence) >= duration,
        2 * ((k1 - 1) * cadence) < duration,
        state_after(duration, cadence, k1) is TransitioningIn,
    ensures
        k1 < k2,
        forall|k: nat|
            k1 <= k < k2 ==> #[trigger] state_after(duration, cadence, k) is TransitioningIn,
        state_after(duration, cadence, k2) is Idle,
        duration <= k2 * cadence <= duration + cadence,
{
    let q = lemma_steps_to_reach(duration, cadence);
    let k2 = if q > k1 {
        q
    } else {
        k1 + 1
    };
    assert forall|k: nat| k1 <= k < k2 implies #[trigger] state_after(
        duration,
        cadence,
        k,
    ) is TransitioningIn by {
        if k > k1 {
            assert(k * cadence <= (q - 1) * cadence) by (nonlinear_arith)
                requires
                    k <= q - 1,
            ;
        }
        lemma_in_phase(duration, cadence, k1, k);
    }
    assert(state_after(duration, cadence, (k2 - 1) as nat) is TransitioningIn);
    lemma_end_bound(duration, cadence, k1, q, k2);
    k2
}

/// The time of the poll that ends the transition.
proof fn lemma_end_bound(duration: nat, cadence: nat, k1: nat, q: nat, k2: nat)
    requires
        0 < cadence <= duration,
        k1 >= 1,
        2 * (k1 * cadence) >= duration,
        2 * ((k1 - 1) * cadence) < duration,
        q >= 1,
        q * cadence >= duration,
        (q - 1) * cadence < duration,
        k2 == if q > k1 {
            q
        } else {
            k1 + 1
        },
    ensures
        duration <= k2 * cadence <= duration + cadence,
{
    if q > k1 {
        assert(q * cadence == (q - 1) * cadence + cadence) by (nonlinear_arith);
    } else {
        assert(k1 * cadence >= q * cadence) by (nonlinear_arith)
            requires
                k1 >= q,
        ;
        if k1 >= 2 {
            assert(2 * ((k1 - 1) * cadence) >= k1 * cadence) by (nonlinear_arith)
                requires
                    k1 >= 2,
            ;
        }
        assert(k1 == 1);
        assert(k1 * cadence == cadence) by (nonlinear_arith)
            requires
                k1 == 1,
        ;
        assert(k2 * cadence == 2 * cadence) by (nonlinear_arith)
            requires
                k2 == 2,
        ;
    }
}

/// A transition of duration D that is polled at a fixed cadence of at most D
/// runs through its first half, then through its second half, then is idle
/// for good. Exactly one poll asks for the swap: the one that ends the first
/// half. The poll that finds the transition over comes no earlier than D
/// after the start and no later than one cadence after that.
///
/// Returns the number of the poll that ends the first half and the number of
/// the poll that ends the transition.
pub proof fn lemma_transition_timeline(duration: nat, cadence: nat) -> (r: (nat, nat))
    requires
        0 < cadence <= duration,
    ensures
        0 < r.0 < r.1,
        forall|k: nat| k < r.0 ==> #[trigger] state_after(duration, cadence, k) is TransitioningOut,
        forall|k: nat|
            r.0 <= k < r.1 ==> #[trigger] state_after(duration, cadence, k) is TransitioningIn,
        forall|k: nat| r.1 <= k ==> #[trigger] state_after(duration, cadence, k) is Idle,
        forall|k: nat| #[trigger] swap_at(duration, cadence, k) <==> k == r.0,
        duration <= r.1 * cadence <= duration + cadence,
{
    let k1 = lemma_first_half(duration, cadence);
    let k2 = lemma_second_half(duration, cadence, k1);
    assert forall|k: nat| k2 <= k implies #[trigger] state_after(duration, cadence, k) is Idle by {
        lemma_idle_phase(duration, cadence, k2, k);
    }
    assert forall|k: nat| #[trigger] swap_at(duration, cadence, k) <==> k == k1 by {
        if k > k1 {
            let j = (k - 1) as nat;
            if j < k2 {
                assert(state_after(duration, cadence, j) is TransitioningIn);
            } else {
                assert(state_after(duration, cadence, j) is Idle);
            }
        }
    }
    (k1, k2)
}

} // verus!
