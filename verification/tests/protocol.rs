use aerogel::layout::HighlightedBlock;
use aerogel::metrics::FontMetrics;
use aerogel::pixel::Tint;
use aerogel::poll::{should_flush, PollClock, Turn};
use aerogel::protocol::{
    classify_global, event, surface_setup, Action, Bindings, Event, GlobalKind, Phase, SurfaceSetup,
};
use aerogel::state::{OverlayConfig, OverlayState};
use aerogel::style::{Rgb, StyledToken};

fn state() -> OverlayState {
    let config = OverlayConfig {
        width: 600,
        max_height: 400,
        scroll_speed: 256,
        border_radius: 640,
        auto_scroll: false,
        tint: Tint { blue: 40, green: 30, red: 20, alpha_multiplier: 200 },
    };
    let m = FontMetrics::new(12 * 64, 4 * 64, 0, 10 * 64);
    let chip = FontMetrics::new(10 * 64, 3 * 64, 0, 8 * 64);
    let blocks = vec![HighlightedBlock {
        is_code: false,
        lines: (0..50)
            .map(|i| vec![StyledToken::new(Rgb { r: 0, g: 0, b: 0 }, format!("line {}\n", i))])
            .collect(),
    }];
    OverlayState::new(config, m, chip, None, None, "t".to_string(), blocks)
}

fn ready() -> (OverlayState, Bindings) {
    let mut s = state();
    let mut b = Bindings::new();
    for (i, kind) in [GlobalKind::Compositor, GlobalKind::Shm, GlobalKind::LayerShell, GlobalKind::Output, GlobalKind::Seat]
        .iter()
        .enumerate()
    {
        event(&mut s, &mut b, Event::Global { kind: *kind, name: i as u32, version: 1 });
    }
    assert!(b.create_overlay());
    (s, b)
}

#[test]
fn interface_names() {
    assert_eq!(classify_global("wl_compositor"), GlobalKind::Compositor);
    assert_eq!(classify_global("wl_shm"), GlobalKind::Shm);
    assert_eq!(classify_global("zwlr_layer_shell_v1"), GlobalKind::LayerShell);
    assert_eq!(classify_global("wl_output"), GlobalKind::Output);
    assert_eq!(classify_global("wl_seat"), GlobalKind::Seat);
    assert_eq!(classify_global("wl_subcompositor"), GlobalKind::Other);
    assert_eq!(classify_global(""), GlobalKind::Other);
}

#[test]
fn globals_are_bound_and_outputs_only_once() {
    let mut s = state();
    let mut b = Bindings::new();
    assert_eq!(b.current_phase(), Phase::Binding);
    assert!(!b.create_overlay());
    let bind = |kind, name| Action::Bind { kind, name, version: 3 };
    let global = |kind, name| Event::Global { kind, name, version: 3 };
    assert_eq!(event(&mut s, &mut b, global(GlobalKind::Compositor, 1)), vec![bind(GlobalKind::Compositor, 1)]);
    assert_eq!(event(&mut s, &mut b, global(GlobalKind::Other, 2)), vec![]);
    assert_eq!(event(&mut s, &mut b, global(GlobalKind::Output, 3)), vec![bind(GlobalKind::Output, 3)]);
    assert_eq!(event(&mut s, &mut b, global(GlobalKind::Output, 4)), vec![]);
    assert_eq!(event(&mut s, &mut b, global(GlobalKind::Seat, 5)), vec![bind(GlobalKind::Seat, 5)]);
    assert_eq!(event(&mut s, &mut b, global(GlobalKind::Seat, 6)), vec![bind(GlobalKind::Seat, 6)]);
    assert!(!b.create_overlay());
    assert_eq!(event(&mut s, &mut b, global(GlobalKind::LayerShell, 7)), vec![bind(GlobalKind::LayerShell, 7)]);
    assert!(b.create_overlay());
    assert!(!b.create_overlay());
    assert_eq!(b.current_phase(), Phase::AwaitingConfigure);
}

#[test]
fn first_configure_sets_the_size_and_draws() {
    let (mut s, mut b) = ready();
    s.text_changed = true;
    let actions = event(&mut s, &mut b, Event::Configure { serial: 9, width: 500, height: 300 });
    assert_eq!(actions, vec![Action::AckConfigure { serial: 9 }, Action::Redraw]);
    assert_eq!((s.width, s.height), (500, 300));
    assert!(!s.text_changed);
    assert_eq!(b.current_phase(), Phase::Running);
    let actions = event(&mut s, &mut b, Event::Configure { serial: 10, width: 0, height: 0 });
    assert_eq!(actions, vec![Action::AckConfigure { serial: 10 }, Action::Redraw]);
    assert_eq!((s.width, s.height), (500, 300));
}

#[test]
fn configure_without_shared_memory_draws_nothing() {
    let mut s = state();
    let mut b = Bindings::new();
    event(&mut s, &mut b, Event::Global { kind: GlobalKind::Compositor, name: 1, version: 1 });
    event(&mut s, &mut b, Event::Global { kind: GlobalKind::LayerShell, name: 2, version: 1 });
    assert!(b.create_overlay());
    s.text_changed = true;
    let actions = event(&mut s, &mut b, Event::Configure { serial: 1, width: 10, height: 10 });
    assert_eq!(actions, vec![Action::AckConfigure { serial: 1 }]);
    assert!(!s.text_changed);
}

#[test]
fn closed_asks_to_exit_and_stays_closed() {
    let (mut s, mut b) = ready();
    assert_eq!(event(&mut s, &mut b, Event::Closed), vec![Action::Exit]);
    assert_eq!(b.current_phase(), Phase::Closed);
    assert_eq!(event(&mut s, &mut b, Event::Key { key: 30, pressed: true }), vec![]);
    assert_eq!(event(&mut s, &mut b, Event::PointerEnter { x: 1, y: 2 }), vec![]);
    assert_eq!(event(&mut s, &mut b, Event::Closed), vec![Action::Exit]);
    assert_eq!(b.current_phase(), Phase::Closed);
}

#[test]
fn pointer_drags_the_overlay() {
    let (mut s, mut b) = ready();
    assert_eq!(event(&mut s, &mut b, Event::PointerEnter { x: 256, y: 512 }), vec![]);
    assert_eq!((s.pointer_x, s.pointer_y), (256, 512));
    assert_eq!(event(&mut s, &mut b, Event::PointerMotion { x: 300, y: 600 }), vec![]);
    assert_eq!(event(&mut s, &mut b, Event::PointerButton { button: 0x111, pressed: true }), vec![]);
    assert!(!s.drag_state.is_dragging);
    assert_eq!(event(&mut s, &mut b, Event::PointerButton { button: 0x110, pressed: true }), vec![]);
    assert!(s.drag_state.is_dragging);
    assert_eq!((s.drag_state.start_x, s.drag_state.start_y), (300, 600));
    let actions = event(&mut s, &mut b, Event::PointerMotion { x: 300 + 256 * 4, y: 600 - 256 * 2 });
    assert_eq!(
        actions,
        vec![Action::LogPosition { x: 24, y: 18 }, Action::SetMargin { top: 18, left: 24 }]
    );
    assert_eq!(event(&mut s, &mut b, Event::PointerLeave), vec![]);
    assert!(s.drag_state.is_dragging);
    assert_eq!(event(&mut s, &mut b, Event::PointerButton { button: 0x110, pressed: false }), vec![]);
    assert!(!s.drag_state.is_dragging);
    assert_eq!(event(&mut s, &mut b, Event::PointerMotion { x: 0, y: 0 }), vec![]);
    assert_eq!((s.margin_x, s.margin_y), (24, 18));
}

#[test]
fn drag_without_a_surface_is_only_logged() {
    let mut s = state();
    let mut b = Bindings::new();
    event(&mut s, &mut b, Event::PointerButton { button: 0x110, pressed: true });
    let actions = event(&mut s, &mut b, Event::PointerMotion { x: 256, y: 256 });
    assert_eq!(actions, vec![Action::LogPosition { x: 21, y: 21 }]);
}

#[test]
fn wheel_scrolls_and_draws_at_once() {
    let (mut s, mut b) = ready();
    assert_eq!(event(&mut s, &mut b, Event::PointerAxis { vertical: false, value: 2560 }), vec![]);
    assert_eq!(s.scroll_offset_y, 0);
    assert_eq!(event(&mut s, &mut b, Event::PointerAxis { vertical: true, value: 2560 }), vec![Action::Redraw]);
    assert_eq!(s.scroll_offset_y, 640);
}

#[test]
fn keys_toggle_and_redraw() {
    let (mut s, mut b) = ready();
    assert_eq!(event(&mut s, &mut b, Event::Key { key: 1, pressed: false }), vec![]);
    assert_eq!(event(&mut s, &mut b, Event::Key { key: 1, pressed: true }), vec![Action::Detach]);
    assert!(!s.visible);
    assert_eq!(event(&mut s, &mut b, Event::Key { key: 19, pressed: true }), vec![]);
    assert!(s.text_changed);
    assert_eq!(event(&mut s, &mut b, Event::PointerAxis { vertical: true, value: 256 }), vec![]);
    assert_eq!(event(&mut s, &mut b, Event::Key { key: 1, pressed: true }), vec![Action::Redraw]);
    assert!(s.visible);
    assert!(!s.text_changed);
    assert_eq!(event(&mut s, &mut b, Event::Key { key: 19, pressed: true }), vec![Action::Redraw]);
    assert_eq!(event(&mut s, &mut b, Event::Key { key: 30, pressed: true }), vec![]);
}

#[test]
fn seat_devices_are_acquired_once() {
    let (mut s, mut b) = ready();
    let caps = |keyboard, pointer| Event::SeatCapabilities { keyboard, pointer };
    assert_eq!(event(&mut s, &mut b, caps(false, false)), vec![]);
    assert_eq!(event(&mut s, &mut b, caps(true, false)), vec![Action::AcquireKeyboard]);
    assert_eq!(event(&mut s, &mut b, caps(true, true)), vec![Action::AcquirePointer]);
    assert_eq!(event(&mut s, &mut b, caps(true, true)), vec![]);
    let mut fresh = Bindings::new();
    assert_eq!(
        event(&mut s, &mut fresh, caps(true, true)),
        vec![Action::AcquireKeyboard, Action::AcquirePointer]
    );
}

#[test]
fn output_mode_sets_the_bounds_of_dragging() {
    let (mut s, mut b) = ready();
    assert_eq!(event(&mut s, &mut b, Event::OutputMode { width: 800, height: 600 }), vec![]);
    assert_eq!((s.output_width, s.output_height), (800, 600));
    assert_eq!(event(&mut s, &mut b, Event::Other), vec![]);
    event(&mut s, &mut b, Event::PointerButton { button: 0x110, pressed: true });
    let actions = event(&mut s, &mut b, Event::PointerMotion { x: 256 * 1000, y: 256 * 1000 });
    assert_eq!(actions[0], Action::LogPosition { x: 200, y: 200 });
}

#[test]
fn poll_clock() {
    let mut c = PollClock::new(1000);
    assert_eq!(c.tick(1005), Turn { check_workspace: false, check_text: false, roundtrip: true });
    assert_eq!(c.tick(1010), Turn { check_workspace: false, check_text: true, roundtrip: false });
    assert_eq!(c.tick(1019), Turn { check_workspace: false, check_text: false, roundtrip: false });
    assert_eq!(c.tick(1020), Turn { check_workspace: false, check_text: true, roundtrip: false });
    assert_eq!(c.tick(900), Turn { check_workspace: false, check_text: false, roundtrip: false });
    assert_eq!(c.tick(1250), Turn { check_workspace: true, check_text: true, roundtrip: false });
    assert_eq!(c.tick(1499), Turn { check_workspace: false, check_text: true, roundtrip: false });
    assert_eq!(c.last_workspace_check, 1250);
    assert_eq!(c.last_text_check, 1499);
    let mut d = PollClock::new(0);
    let mut roundtrips = Vec::new();
    for i in 0..250 {
        if d.tick(0).roundtrip {
            roundtrips.push(i);
        }
    }
    assert_eq!(roundtrips, vec![0, 100, 200]);
    assert!(!should_flush(0));
    assert!(should_flush(1));
}

#[test]
fn surface_is_anchored_top_left_at_the_margins() {
    let mut s = state();
    s.margin_x = 33;
    s.margin_y = 44;
    assert_eq!(
        surface_setup(&s),
        SurfaceSetup {
            width: 600,
            height: 400,
            anchor_top: true,
            anchor_left: true,
            margin_top: 44,
            margin_right: 0,
            margin_bottom: 0,
            margin_left: 33,
            keyboard_on_demand: true,
        }
    );
}

#[test]
fn margins_follow_the_output_and_the_size() {
    let (mut s, mut b) = ready();
    s.margin_x = 1000;
    s.margin_y = 600;
    let actions = event(&mut s, &mut b, Event::OutputMode { width: 1280, height: 720 });
    assert_eq!(actions, vec![Action::SetMargin { top: 320, left: 680 }]);
    assert_eq!((s.margin_x, s.margin_y), (680, 320));
    assert_eq!(event(&mut s, &mut b, Event::OutputMode { width: 1280, height: 720 }), vec![]);
    let actions = event(&mut s, &mut b, Event::Configure { serial: 3, width: 800, height: 500 });
    assert_eq!(
        actions,
        vec![
            Action::AckConfigure { serial: 3 },
            Action::SetMargin { top: 220, left: 480 },
            Action::Redraw,
        ]
    );
    assert_eq!((s.margin_x, s.margin_y), (480, 220));
    let mut fresh = Bindings::new();
    let actions = event(&mut s, &mut fresh, Event::OutputMode { width: 100, height: 100 });
    assert_eq!(actions, vec![]);
    assert_eq!((s.margin_x, s.margin_y), (0, 0));
}

#[test]
fn poll_clock_makes_the_text_due_after_a_switch() {
    let mut c = PollClock::new(1000);
    assert!(!c.tick(1001).check_text);
    c.make_text_due(1002);
    assert!(c.tick(1002).check_text);
    let mut early = PollClock::new(0);
    early.make_text_due(3);
    assert_eq!(early.last_text_check, 0);
}
