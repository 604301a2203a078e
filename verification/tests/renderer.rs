use frame_viewer::renderer::{
    EventResult, Indicator, InputEvent, Key, OverlayInfo, RenderPlan, Renderer, Transition,
    TransitionState, UserAction, FRAME_DELAY_MS,
};

fn info(title: &str) -> OverlayInfo {
    OverlayInfo {
        is_connected: false,
        is_offline: false,
        current_index: 1,
        total_count: 3,
        media_title: title.to_string(),
        cache_used: 0,
        cache_max: 0,
        cache_items: 0,
        is_video: false,
        is_paused: false,
        video_duration: None,
        video_position: None,
    }
}

fn renderer(kind: Transition, duration: u32) -> Renderer {
    Renderer::new(kind, duration, 1920, 1080)
}

#[test]
fn transition_by_name() {
    assert_eq!(Transition::from_str("fade"), Transition::Fade);
    assert_eq!(Transition::from_str("crossfade"), Transition::Crossfade);
    assert_eq!(Transition::from_str("cut"), Transition::Cut);
    assert_eq!(Transition::from_str("FADE"), Transition::Fade);
    assert_eq!(Transition::from_str("CrossFade"), Transition::Crossfade);
    assert_eq!(Transition::from_str(""), Transition::Cut);
    assert_eq!(Transition::from_str("wipe"), Transition::Cut);
    assert_eq!(Transition::from_str(" fade"), Transition::Cut);
}

#[test]
fn transition_by_lower_case_name_is_exact() {
    assert_eq!(Transition::from_lowercase("fade"), Transition::Fade);
    assert_eq!(Transition::from_lowercase("crossfade"), Transition::Crossfade);
    assert_eq!(Transition::from_lowercase("Fade"), Transition::Cut);
    assert_eq!(Transition::from_lowercase("fades"), Transition::Cut);
}

#[test]
fn a_new_renderer_is_idle() {
    let mut r = renderer(Transition::Fade, 1000);
    assert!(!r.is_transitioning());
    assert_eq!(r.transition_state(), TransitionState::Idle);
    assert!(!r.update_transition(123));
    assert_eq!(r.transition_state(), TransitionState::Idle);
    assert_eq!(r.screen_size(), (1920, 1080));
}

#[test]
fn polling_runs_out_then_in_then_idle_with_one_swap() {
    let duration: u64 = 1000;
    let cadence: u64 = FRAME_DELAY_MS;
    assert_eq!(cadence, 16);
    let start: u64 = 5000;
    let mut r = renderer(Transition::Fade, duration as u32);
    r.start_transition(start);
    assert!(r.is_transitioning());
    assert_eq!(r.transition_state(), TransitionState::TransitioningOut { progress: 0 });
    let mut swaps = Vec::new();
    let mut idle_at = None;
    let mut seen_in = false;
    for k in 1..=100u64 {
        let before = r.transition_state();
        let swap = r.update_transition(start + k * cadence);
        if swap {
            swaps.push(k);
            assert!(matches!(before, TransitionState::TransitioningOut { .. }));
            assert_eq!(r.transition_state(), TransitionState::TransitioningIn { progress: 0 });
        }
        match r.transition_state() {
            TransitionState::TransitioningOut { .. } => assert!(!seen_in),
            TransitionState::TransitioningIn { .. } => seen_in = true,
            TransitionState::Idle => {
                if idle_at.is_none() {
                    idle_at = Some(k);
                }
            }
        }
        if idle_at.is_some() {
            assert!(!r.is_transitioning());
        }
    }
    assert_eq!(swaps, vec![32]);
    assert_eq!(idle_at, Some(63));
    let elapsed = 63 * cadence;
    assert!(elapsed >= duration && elapsed <= duration + cadence);
}

#[test]
fn progress_is_in_thousandths_of_the_phase() {
    let mut r = renderer(Transition::Fade, 1000);
    r.start_transition(0);
    assert!(!r.update_transition(250));
    assert_eq!(r.transition_state(), TransitionState::TransitioningOut { progress: 500 });
    assert!(!r.update_transition(499));
    assert_eq!(r.transition_state(), TransitionState::TransitioningOut { progress: 998 });
    assert!(r.update_transition(500));
    assert_eq!(r.transition_state(), TransitionState::TransitioningIn { progress: 0 });
    assert!(!r.update_transition(750));
    assert_eq!(r.transition_state(), TransitionState::TransitioningIn { progress: 500 });
    assert!(!r.update_transition(999));
    assert_eq!(r.transition_state(), TransitionState::TransitioningIn { progress: 998 });
    assert!(!r.update_transition(1000));
    assert_eq!(r.transition_state(), TransitionState::Idle);
    assert!(!r.update_transition(2000));
}

#[test]
fn odd_duration_swaps_at_its_half() {
    let mut r = renderer(Transition::Fade, 5);
    r.start_transition(10);
    assert!(!r.update_transition(12));
    assert_eq!(r.transition_state(), TransitionState::TransitioningOut { progress: 800 });
    assert!(r.update_transition(13));
    assert!(!r.update_transition(14));
    assert_eq!(r.transition_state(), TransitionState::TransitioningIn { progress: 600 });
    assert!(!r.update_transition(15));
    assert_eq!(r.transition_state(), TransitionState::Idle);
}

#[test]
fn zero_duration_completes_in_two_polls() {
    let mut r = renderer(Transition::Fade, 0);
    r.start_transition(7);
    assert!(r.update_transition(7));
    assert_eq!(r.transition_state(), TransitionState::TransitioningIn { progress: 0 });
    assert!(!r.update_transition(7));
    assert_eq!(r.transition_state(), TransitionState::Idle);
}

#[test]
fn a_clock_that_goes_back_counts_as_no_time() {
    let mut r = renderer(Transition::Fade, 1000);
    r.start_transition(5000);
    assert!(!r.update_transition(4000));
    assert_eq!(r.transition_state(), TransitionState::TransitioningOut { progress: 0 });
}

#[test]
fn a_late_poll_takes_one_phase_at_a_time() {
    let mut r = renderer(Transition::Crossfade, 100);
    r.start_transition(0);
    assert!(r.update_transition(10_000));
    assert_eq!(r.transition_state(), TransitionState::TransitioningIn { progress: 0 });
    assert!(!r.update_transition(10_001));
    assert_eq!(r.transition_state(), TransitionState::Idle);
}

#[test]
fn cut_is_always_opaque() {
    let mut r = renderer(Transition::Cut, 1000);
    assert_eq!(r.render(), RenderPlan { alpha: 255, incoming_alpha: None });
    r.start_transition(0);
    r.update_transition(250);
    assert_eq!(r.render(), RenderPlan { alpha: 255, incoming_alpha: None });
}

#[test]
fn fade_shows_one_layer() {
    let mut r = renderer(Transition::Fade, 1000);
    assert_eq!(r.render(), RenderPlan { alpha: 255, incoming_alpha: None });
    r.start_transition(0);
    assert_eq!(r.render(), RenderPlan { alpha: 255, incoming_alpha: None });
    r.update_transition(125);
    assert_eq!(r.render(), RenderPlan { alpha: 191, incoming_alpha: None });
    r.update_transition(250);
    assert_eq!(r.render(), RenderPlan { alpha: 127, incoming_alpha: None });
    r.update_transition(500);
    assert_eq!(r.render(), RenderPlan { alpha: 0, incoming_alpha: None });
    r.update_transition(625);
    assert_eq!(r.render(), RenderPlan { alpha: 63, incoming_alpha: None });
    r.update_transition(1000);
    assert_eq!(r.render(), RenderPlan { alpha: 255, incoming_alpha: None });
}

#[test]
fn crossfade_shows_the_next_layer_beneath_in_the_first_half() {
    let mut r = renderer(Transition::Crossfade, 1000);
    r.start_transition(0);
    assert_eq!(r.render(), RenderPlan { alpha: 255, incoming_alpha: Some(0) });
    r.update_transition(125);
    assert_eq!(r.render(), RenderPlan { alpha: 191, incoming_alpha: Some(63) });
    r.update_transition(500);
    assert_eq!(r.render(), RenderPlan { alpha: 0, incoming_alpha: None });
    r.update_transition(750);
    assert_eq!(r.render(), RenderPlan { alpha: 127, incoming_alpha: None });
    r.update_transition(1000);
    assert_eq!(r.render(), RenderPlan { alpha: 255, incoming_alpha: None });
}

#[test]
fn keys_and_their_actions() {
    let pairs = [
        (Key::Escape, UserAction::Quit),
        (Key::Q, UserAction::Quit),
        (Key::Space, UserAction::TogglePause),
        (Key::Return, UserAction::TogglePause),
        (Key::P, UserAction::TogglePause),
        (Key::Right, UserAction::Next),
        (Key::Down, UserAction::Next),
        (Key::N, UserAction::Next),
        (Key::PageDown, UserAction::Next),
        (Key::Left, UserAction::Previous),
        (Key::Up, UserAction::Previous),
        (Key::B, UserAction::Previous),
        (Key::PageUp, UserAction::Previous),
        (Key::R, UserAction::Refresh),
        (Key::F5, UserAction::Refresh),
        (Key::I, UserAction::ToggleOverlay),
        (Key::Tab, UserAction::ToggleOverlay),
        (Key::O, UserAction::ToggleOverlay),
        (Key::Other, UserAction::NoAction),
    ];
    for (key, action) in pairs {
        assert_eq!(Renderer::action_for(InputEvent::KeyDown(key)), action);
    }
    assert_eq!(Renderer::action_for(InputEvent::Quit), UserAction::Quit);
    assert_eq!(Renderer::action_for(InputEvent::Other), UserAction::NoAction);
}

#[test]
fn events_are_used_up_to_the_first_action() {
    let events = vec![
        InputEvent::Other,
        InputEvent::KeyDown(Key::Other),
        InputEvent::KeyDown(Key::N),
        InputEvent::Quit,
    ];
    assert_eq!(Renderer::process_events_extended(&events), (UserAction::Next, 3));
    assert_eq!(Renderer::process_events(&events), (EventResult::Continue, 3));
    let rest = vec![InputEvent::Quit];
    assert_eq!(Renderer::process_events_extended(&rest), (UserAction::Quit, 1));
    assert_eq!(Renderer::process_events(&rest), (EventResult::Quit, 1));
}

#[test]
fn events_without_an_action() {
    assert_eq!(Renderer::process_events_extended(&Vec::new()), (UserAction::NoAction, 0));
    assert_eq!(Renderer::process_events(&Vec::new()), (EventResult::Continue, 0));
    let events = vec![InputEvent::Other, InputEvent::KeyDown(Key::Other)];
    assert_eq!(Renderer::process_events_extended(&events), (UserAction::NoAction, 2));
    assert_eq!(Renderer::process_events(&events), (EventResult::Continue, 2));
}

#[test]
fn overlay_indicator() {
    let r = renderer(Transition::Cut, 0);
    let mut i = info("a");
    let plan = r.render_overlay(&i);
    assert_eq!(plan.indicator, Indicator::Connecting);
    assert_eq!(plan.status, "CONNECTING...");
    i.is_connected = true;
    let plan = r.render_overlay(&i);
    assert_eq!(plan.indicator, Indicator::Connected);
    assert_eq!(plan.status, "CONNECTED");
    i.is_offline = true;
    let plan = r.render_overlay(&i);
    assert_eq!(plan.indicator, Indicator::Offline);
    assert_eq!(plan.status, "OFFLINE");
    assert!(!plan.paused);
    i.is_paused = true;
    assert!(r.render_overlay(&i).paused);
}

#[test]
fn overlay_title_is_shortened_after_thirty_characters() {
    let r = renderer(Transition::Cut, 0);
    let thirty = "abcdefghijklmnopqrstuvwxyz0123";
    assert_eq!(r.render_overlay(&info(thirty)).title, thirty);
    let thirty_one = "abcdefghijklmnopqrstuvwxyz01234";
    assert_eq!(r.render_overlay(&info(thirty_one)).title, "abcdefghijklmnopqrstuvwxyz0...");
    assert_eq!(r.render_overlay(&info("")).title, "");
    let accents = "éééééééééééééééééééééééééééééééé";
    assert_eq!(
        r.render_overlay(&info(accents)).title,
        "ééééééééééééééééééééééééééé..."
    );
}

#[test]
fn overlay_progress_bar() {
    let r = renderer(Transition::Cut, 0);
    let mut i = info("v");
    assert_eq!(r.render_overlay(&i).progress_width, None);
    i.is_video = true;
    assert_eq!(r.render_overlay(&i).progress_width, None);
    i.video_duration = Some(10_000);
    assert_eq!(r.render_overlay(&i).progress_width, None);
    i.video_position = Some(5_000);
    assert_eq!(r.render_overlay(&i).progress_width, Some(940));
    i.video_position = Some(0);
    assert_eq!(r.render_overlay(&i).progress_width, Some(0));
    i.video_position = Some(9_999);
    assert_eq!(r.render_overlay(&i).progress_width, Some(1879));
    i.video_position = Some(10_000);
    assert_eq!(r.render_overlay(&i).progress_width, Some(1880));
    i.video_position = Some(20_000);
    assert_eq!(r.render_overlay(&i).progress_width, Some(1880));
    i.video_duration = Some(0);
    i.video_position = Some(0);
    assert_eq!(r.render_overlay(&i).progress_width, Some(1880));
    i.is_video = false;
    assert_eq!(r.render_overlay(&i).progress_width, None);
}

#[test]
fn overlay_progress_bar_needs_room() {
    let mut i = info("v");
    i.is_video = true;
    i.video_duration = Some(10);
    i.video_position = Some(5);
    let narrow = Renderer::new(Transition::Cut, 0, 40, 30);
    assert_eq!(narrow.render_overlay(&i).progress_width, None);
    let wider = Renderer::new(Transition::Cut, 0, 42, 30);
    assert_eq!(wider.render_overlay(&i).progress_width, Some(1));
}

#[test]
fn progress_width_does_not_overflow() {
    assert_eq!(Renderer::progress_width(u32::MAX, u64::MAX - 1, u64::MAX), u32::MAX - 1);
    assert_eq!(Renderer::progress_width(u32::MAX, u64::MAX, u64::MAX), u32::MAX);
    assert_eq!(Renderer::progress_width(100, 1, 3), 33);
}
