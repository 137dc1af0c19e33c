//! The protocol state machine: each event of the display protocol becomes a
//! change of state and a list of requests to make.

use crate::chars::same_text;
use crate::state::{
    clamp, lemma_scroll_range_bound, scroll_amount, scroll_range, scrolled, DragEvent, OverlayState,
};
use vstd::prelude::*;

verus! {

/// The code of the primary pointer button.
pub const PRIMARY_BUTTON: u32 = 0x110;

/// The code of the key that shows and hides the overlay.
pub const TOGGLE_KEY: u32 = 1;

/// The code of the key that draws the overlay again.
pub const REDRAW_KEY: u32 = 19;

/// A global object that the overlay binds.
#[derive(Clone, Copy, Debug, PartialEq, Eq, Structural)]
pub enum GlobalKind {
    Compositor,
    Shm,
    LayerShell,
    Output,
    Seat,
    Other,
}

/// The global that an interface name stands for.
pub open spec fn global_of(interface: Seq<char>) -> GlobalKind {
    if interface == "wl_compositor"@ {
        GlobalKind::Compositor
    } else if interface == "wl_shm"@ {
        GlobalKind::Shm
    } else if interface == "zwlr_layer_shell_v1"@ {
        GlobalKind::LayerShell
    } else if interface == "wl_output"@ {
        GlobalKind::Output
    } else if interface == "wl_seat"@ {
        GlobalKind::Seat
    } else {
        GlobalKind::Other
    }
}

/// The global that the interface name `interface` stands for.
pub fn classify_global(interface: &str) -> (kind: GlobalKind)
    ensures
        kind == global_of(interface@),
{
    if same_text(interface, "wl_compositor") {
        GlobalKind::Compositor
    } else if same_text(interface, "wl_shm") {
        GlobalKind::Shm
    } else if same_text(interface, "zwlr_layer_shell_v1") {
        GlobalKind::LayerShell
    } else if same_text(interface, "wl_output") {
        GlobalKind::Output
    } else if same_text(interface, "wl_seat") {
        GlobalKind::Seat
    } else {
        GlobalKind::Other
    }
}

/// Which objects of the protocol the overlay holds, and how far its surface
/// has come.
#[derive(Clone, Copy, Debug, PartialEq, Eq, Structural)]
pub struct Bindings {
    pub compositor: bool,
    pub shm: bool,
    pub layer_shell: bool,
    pub output: bool,
    pub seat: bool,
    pub keyboard: bool,
    pub pointer: bool,
    /// The surface and its layer surface exist.
    pub surface: bool,
    /// The compositor has configured the surface at least once.
    pub configured: bool,
    /// The compositor has closed the surface.
    pub closed: bool,
}

/// Where the overlay is in its life.
#[derive(Clone, Copy, Debug, PartialEq, Eq, Structural)]
pub enum Phase {
    /// Globals are being advertised and bound.
    Binding,
    /// The surface exists and awaits its first configure event.
    AwaitingConfigure,
    /// The surface is configured; events change the state.
    Running,
    /// The surface is closed, and the process has been asked to end.
    Closed,
}

/// An event of the display protocol, reduced to what the overlay reads of it.
#[allow(inconsistent_fields)]
#[derive(Clone, Copy, Debug, PartialEq, Eq, Structural)]
pub enum Event {
    Global { kind: GlobalKind, name: u32, version: u32 },
    Configure { serial: u32, width: u32, height: u32 },
    Closed,
    PointerEnter { x: i32, y: i32 },
    PointerLeave,
    PointerMotion { x: i32, y: i32 },
    PointerButton { button: u32, pressed: bool },
    PointerAxis { vertical: bool, value: i32 },
    Key { key: u32, pressed: bool },
    SeatCapabilities { keyboard: bool, pointer: bool },
    OutputMode { width: i32, height: i32 },
    Other,
}

/// A request that the overlay makes in answer to an event.
#[derive(Clone, Copy, Debug, PartialEq, Eq, Structural)]
pub enum Action {
    /// Bind the global `name` at `version`.
    Bind { kind: GlobalKind, name: u32, version: u32 },
    /// Acknowledge the configure event `serial`.
    AckConfigure { serial: u32 },
    /// Draw a frame and present it.
    Redraw,
    /// Take the buffer off the surface and commit.
    Detach,
    /// Append the margins to the position log.
    LogPosition { x: i32, y: i32 },
    /// Move the surface to the margins and commit.
    SetMargin { top: i32, left: i32 },
    /// Get the keyboard of the seat.
    AcquireKeyboard,
    /// Get the pointer of the seat.
    AcquirePointer,
    /// End the process.
    Exit,
}

/// What an event leads to: the state and the bindings after it, and the
/// requests to make, in order.
pub struct Outcome {
    pub state: OverlayState,
    pub bindings: Bindings,
    pub actions: Seq<Action>,
}

impl Bindings {
    /// The bindings before any event.
    pub open spec fn initial() -> Bindings {
        Bindings {
            compositor: false,
            shm: false,
            layer_shell: false,
            output: false,
            seat: false,
            keyboard: false,
            pointer: false,
            surface: false,
            configured: false,
            closed: false,
        }
    }

    /// Where the overlay is in its life.
    pub open spec fn phase(self) -> Phase {
        if self.closed {
            Phase::Closed
        } else if self.configured {
            Phase::Running
        } else if self.surface {
            Phase::AwaitingConfigure
        } else {
            Phase::Binding
        }
    }

    /// Whether the overlay can create its surface: it has the compositor and
    /// the layer shell, and has no surface yet.
    pub open spec fn can_create_surface(self) -> bool {
        self.compositor && self.layer_shell && !self.surface
    }

    /// The bindings before any event.
    pub fn new() -> (b: Bindings)
        ensures
            b == Bindings::initial(),
            b.phase() == Phase::Binding,
    {
        Bindings {
            compositor: false,
            shm: false,
            layer_shell: false,
            output: false,
            seat: false,
            keyboard: false,
            pointer: false,
            surface: false,
            configured: false,
            closed: false,
        }
    }

    /// Where the overlay is in its life.
    pub fn current_phase(&self) -> (p: Phase)
        ensures
            p == self.phase(),
    {
        if self.closed {
            Phase::Closed
        } else if self.configured {
            Phase::Running
        } else if self.surface {
            Phase::AwaitingConfigure
        } else {
            Phase::Binding
        }
    }

    /// Records that the surface was created, where it can be. Returns whether
    /// it is to be created; then the overlay awaits its first configure event.
    pub fn create_overlay(&mut self) -> (create: bool)
        ensures
            create == old(self).can_create_surface(),
            *final(self) == if create {
                Bindings { surface: true, ..*old(self) }
            } else {
                *old(self)
            },
    {
        if self.compositor && self.layer_shell && !self.surface {
            self.surface = true;
            true
        } else {
            false
        }
    }
}

/// How the surface is set up when it is created: an overlay that is anchored
/// to the top left of the output, at the margins and of the size of the state,
/// and that takes the keyboard on demand.
#[derive(Clone, Copy, Debug, PartialEq, Eq, Structural)]
pub struct SurfaceSetup {
    pub width: u32,
    pub height: u32,
    pub anchor_top: bool,
    pub anchor_left: bool,
    pub margin_top: i32,
    pub margin_right: i32,
    pub margin_bottom: i32,
    pub margin_left: i32,
    pub keyboard_on_demand: bool,
}

/// How the surface of an overlay in the state `state` is set up.
pub open spec fn setup_of(state: OverlayState) -> SurfaceSetup {
    SurfaceSetup {
        width: state.width,
        height: state.height,
        anchor_top: true,
        anchor_left: true,
        margin_top: state.margin_y,
        margin_right: 0,
        margin_bottom: 0,
        margin_left: state.margin_x,
        keyboard_on_demand: true,
    }
}

/// How the surface is set up when it is created.
pub fn surface_setup(state: &OverlayState) -> (setup: SurfaceSetup)
    ensures
        setup == setup_of(*state),
{
    SurfaceSetup {
        width: state.width,
        height: state.height,
        anchor_top: true,
        anchor_left: true,
        margin_top: state.margin_y,
        margin_right: 0,
        margin_bottom: 0,
        margin_left: state.margin_x,
        keyboard_on_demand: true,
    }
}

/// What drawing the overlay leads to. With a surface and shared memory, a
/// visible overlay is drawn, and then the text counts as shown; a hidden one is
/// left alone. Without them nothing can be drawn, and the text counts as
/// shown.
pub open spec fn after_draw(state: OverlayState, bindings: Bindings, before: Seq<Action>) -> Outcome {
    if bindings.surface && bindings.shm {
        if state.visible {
            Outcome {
                state: OverlayState { text_changed: false, ..state },
                bindings,
                actions: before.push(Action::Redraw),
            }
        } else {
            Outcome { state, bindings, actions: before }
        }
    } else {
        Outcome { state: OverlayState { text_changed: false, ..state }, bindings, actions: before }
    }
}

/// What the advertisement of a global leads to: it is bound, an output only
/// if none is bound yet, and any other kind not at all.
pub open spec fn after_global(bindings: Bindings, kind: GlobalKind, name: u32, version: u32) -> (
    Bindings,
    Seq<Action>,
) {
    let bind = seq![Action::Bind { kind, name, version }];
    match kind {
        GlobalKind::Compositor => (Bindings { compositor: true, ..bindings }, bind),
        GlobalKind::Shm => (Bindings { shm: true, ..bindings }, bind),
        GlobalKind::LayerShell => (Bindings { layer_shell: true, ..bindings }, bind),
        GlobalKind::Output => if bindings.output {
            (bindings, Seq::empty())
        } else {
            (Bindings { output: true, ..bindings }, bind)
        },
        GlobalKind::Seat => (Bindings { seat: true, ..bindings }, bind),
        GlobalKind::Other => (bindings, Seq::empty()),
    }
}

/// What a change of the margins from those of `before` to those of `after`
/// asks for: where there is a surface, it is moved to the new margins.
pub open spec fn margin_actions(before: OverlayState, after: OverlayState, bindings: Bindings) -> Seq<
    Action,
> {
    if bindings.surface && (after.margin_x != before.margin_x || after.margin_y
        != before.margin_y) {
        seq![Action::SetMargin { top: after.margin_y, left: after.margin_x }]
    } else {
        Seq::empty()
    }
}

/// What a configure event leads to: the size is taken and acknowledged, the
/// surface counts as configured and follows the margins where the new size
/// moved them, and the overlay is drawn.
#[verifier::opaque]
pub open spec fn after_configure(
    state: OverlayState,
    bindings: Bindings,
    serial: u32,
    width: u32,
    height: u32,
) -> Outcome {
    after_draw(
        state.after_resize(width, height),
        Bindings { configured: true, ..bindings },
        seq![Action::AckConfigure { serial }] + margin_actions(
            state,
            state.after_resize(width, height),
            bindings,
        ),
    )
}

/// What a new size of the output leads to: the margins keep the overlay on
/// it, and the surface follows them where they moved.
#[verifier::opaque]
pub open spec fn after_output(state: OverlayState, bindings: Bindings, width: i32, height: i32) -> Outcome {
    Outcome {
        state: state.after_output_mode(width, height),
        bindings,
        actions: margin_actions(state, state.after_output_mode(width, height), bindings),
    }
}

/// What a motion of the pointer to `(x, y)` leads to: the pointer is there,
/// and a drag in progress moves the overlay, which is logged and, where there
/// is a surface, passed on.
#[verifier::opaque]
pub open spec fn after_motion(state: OverlayState, bindings: Bindings, x: i32, y: i32) -> Outcome {
    let moved = OverlayState { pointer_x: x, pointer_y: y, ..state };
    if state.drag_state.is_dragging {
        let dragged = moved.after_drag_event(DragEvent::Motion { x, y });
        let log = seq![Action::LogPosition { x: dragged.margin_x, y: dragged.margin_y }];
        Outcome {
            state: dragged,
            bindings,
            actions: if bindings.surface {
                log.push(Action::SetMargin { top: dragged.margin_y, left: dragged.margin_x })
            } else {
                log
            },
        }
    } else {
        Outcome { state: moved, bindings, actions: Seq::empty() }
    }
}

/// What a button of the pointer leads to: the primary button begins a drag
/// where the pointer is when it goes down, and ends it when it goes up.
#[verifier::opaque]
pub open spec fn after_button(state: OverlayState, bindings: Bindings, button: u32, pressed: bool) -> Outcome {
    if button == PRIMARY_BUTTON {
        Outcome {
            state: if pressed {
                state.after_drag_event(DragEvent::Start { x: state.pointer_x, y: state.pointer_y })
            } else {
                state.after_drag_event(DragEvent::Stop)
            },
            bindings,
            actions: Seq::empty(),
        }
    } else {
        Outcome { state, bindings, actions: Seq::empty() }
    }
}

/// What a turn of the wheel leads to: a vertical one scrolls, and the overlay
/// is drawn at once.
#[verifier::opaque]
pub open spec fn after_axis(state: OverlayState, bindings: Bindings, vertical: bool, value: i32) -> Outcome {
    if vertical {
        after_draw(state.after_scroll(value), bindings, Seq::empty())
    } else {
        Outcome { state, bindings, actions: Seq::empty() }
    }
}

/// What a key leads to when it goes down: one key shows or hides the overlay,
/// which takes the buffer off the surface or draws again; another draws the
/// overlay again.
#[verifier::opaque]
pub open spec fn after_key(state: OverlayState, bindings: Bindings, key: u32, pressed: bool) -> Outcome {
    if pressed && key == TOGGLE_KEY {
        let toggled = OverlayState { visible: !state.visible, ..state };
        if toggled.visible {
            after_draw(toggled, bindings, Seq::empty())
        } else {
            Outcome {
                state: toggled,
                bindings,
                actions: if bindings.surface {
                    seq![Action::Detach]
                } else {
                    Seq::empty()
                },
            }
        }
    } else if pressed && key == REDRAW_KEY {
        after_draw(OverlayState { text_changed: true, ..state }, bindings, Seq::empty())
    } else {
        Outcome { state, bindings, actions: Seq::empty() }
    }
}

/// What the capabilities of the seat lead to: the keyboard and the pointer
/// are acquired where the seat has them and the overlay does not hold them yet.
pub open spec fn after_seat(bindings: Bindings, keyboard: bool, pointer: bool) -> (
    Bindings,
    Seq<Action>,
) {
    let first: Seq<Action> = if keyboard && !bindings.keyboard {
        seq![Action::AcquireKeyboard]
    } else {
        Seq::empty()
    };
    (
        Bindings {
            keyboard: bindings.keyboard || keyboard,
            pointer: bindings.pointer || pointer,
            ..bindings
        },
        if pointer && !bindings.pointer {
            first.push(Action::AcquirePointer)
        } else {
            first
        },
    )
}

/// What an event leads to.
#[verifier::opaque]
pub open spec fn after_event(state: OverlayState, bindings: Bindings, event: Event) -> Outcome {
    match event {
        Event::Global { kind, name, version } => Outcome {
            state,
            bindings: after_global(bindings, kind, name, version).0,
            actions: after_global(bindings, kind, name, version).1,
        },
        Event::Configure { serial, width, height } => after_configure(
            state,
            bindings,
            serial,
            width,
            height,
        ),
        Event::Closed => Outcome {
            state,
            bindings: Bindings { closed: true, ..bindings },
            actions: seq![Action::Exit],
        },
        Event::PointerEnter { x, y } => Outcome {
            state: OverlayState { pointer_x: x, pointer_y: y, ..state },
            bindings,
            actions: Seq::empty(),
        },
        Event::PointerLeave => Outcome { state, bindings, actions: Seq::empty() },
        Event::PointerMotion { x, y } => after_motion(state, bindings, x, y),
        Event::PointerButton { button, pressed } => after_button(
            state,
            bindings,
            button,
            pressed,
        ),
        Event::PointerAxis { vertical, value } => after_axis(state, bindings, vertical, value),
        Event::Key { key, pressed } => after_key(state, bindings, key, pressed),
        Event::SeatCapabilities { keyboard, pointer } => Outcome {
            state,
            bindings: after_seat(bindings, keyboard, pointer).0,
            actions: after_seat(bindings, keyboard, pointer).1,
        },
        Event::OutputMode { width, height } => after_output(state, bindings, width, height),
        Event::Other => Outcome { state, bindings, actions: Seq::empty() },
    }
}

/// Draws the overlay if it can be drawn: appends the request to `actions`.
pub fn draw_overlay(state: &mut OverlayState, bindings: &Bindings, actions: &mut Vec<Action>)
    ensures
        (Outcome { state: *final(state), bindings: *bindings, actions: final(actions)@ })
            == after_draw(*old(state), *bindings, old(actions)@),
        old(state).wf() ==> final(state).wf(),
        old(state).margins_in_bounds() ==> final(state).margins_in_bounds(),
{
    if bindings.surface && bindings.shm {
        if state.visible {
            actions.push(Action::Redraw);
            state.text_changed = false;
        }
    } else {
        state.text_changed = false;
    }
}

/// Marks the text as changed and draws the overlay if it can be drawn.
pub fn force_redraw(state: &mut OverlayState, bindings: &Bindings, actions: &mut Vec<Action>)
    ensures
        (Outcome { state: *final(state), bindings: *bindings, actions: final(actions)@ })
            == after_draw(
            OverlayState { text_changed: true, ..*old(state) },
            *bindings,
            old(actions)@,
        ),
        old(state).wf() ==> final(state).wf(),
        old(state).margins_in_bounds() ==> final(state).margins_in_bounds(),
{
    state.text_changed = true;
    draw_overlay(state, bindings, actions);
}

/// Takes the advertisement of a global.
pub fn registry_event(bindings: &mut Bindings, kind: GlobalKind, name: u32, version: u32) -> (actions:
    Vec<Action>)
    ensures
        (*final(bindings), actions@) == after_global(*old(bindings), kind, name, version),
{
    let mut actions: Vec<Action> = Vec::new();
    match kind {
        GlobalKind::Compositor => {
            bindings.compositor = true;
            actions.push(Action::Bind { kind, name, version });
        },
        GlobalKind::Shm => {
            bindings.shm = true;
            actions.push(Action::Bind { kind, name, version });
        },
        GlobalKind::LayerShell => {
            bindings.layer_shell = true;
            actions.push(Action::Bind { kind, name, version });
        },
        GlobalKind::Output => {
            if !bindings.output {
                bindings.output = true;
                actions.push(Action::Bind { kind, name, version });
            }
        },
        GlobalKind::Seat => {
            bindings.seat = true;
            actions.push(Action::Bind { kind, name, version });
        },
        GlobalKind::Other => {},
    }
    proof {
        assert(actions@ =~= after_global(*old(bindings), kind, name, version).1);
    }
    actions
}

/// Takes a configure event of the layer surface.
pub fn configure_event(
    state: &mut OverlayState,
    bindings: &mut Bindings,
    serial: u32,
    width: u32,
    height: u32,
) -> (actions: Vec<Action>)
    ensures
        (Outcome { state: *final(state), bindings: *final(bindings), actions: actions@ })
            == after_event(*old(state), *old(bindings), Event::Configure { serial, width, height }),
        final(state).wf(),
        final(state).margins_in_bounds(),
{
    proof {
        reveal(after_event);
        reveal(after_configure);
    }
    let mut actions: Vec<Action> = Vec::new();
    let margin_x = state.margin_x;
    let margin_y = state.margin_y;
    state.resize(width, height);
    actions.push(Action::AckConfigure { serial });
    if bindings.surface && (state.margin_x != margin_x || state.margin_y != margin_y) {
        actions.push(Action::SetMargin { top: state.margin_y, left: state.margin_x });
    }
    proof {
        assert(actions@ =~= seq![Action::AckConfigure { serial }] + margin_actions(
            *old(state),
            old(state).after_resize(width, height),
            *old(bindings),
        ));
    }
    bindings.configured = true;
    draw_overlay(state, bindings, &mut actions);
    actions
}

/// Takes a motion event of the pointer.
pub fn motion_event(state: &mut OverlayState, bindings: &Bindings, x: i32, y: i32) -> (actions: Vec<
    Action,
>)
    ensures
        (Outcome { state: *final(state), bindings: *bindings, actions: actions@ }) == after_event(
            *old(state),
            *bindings,
            Event::PointerMotion { x, y },
        ),
        old(state).wf() ==> final(state).wf(),
        old(state).margins_in_bounds() ==> final(state).margins_in_bounds(),
{
    proof {
        reveal(after_event);
        reveal(after_motion);
    }
    let mut actions: Vec<Action> = Vec::new();
    state.pointer_x = x;
    state.pointer_y = y;
    match state.update_drag(x, y) {
        Some(margins) => {
            actions.push(Action::LogPosition { x: margins.0, y: margins.1 });
            if bindings.surface {
                actions.push(Action::SetMargin { top: margins.1, left: margins.0 });
            }
        },
        None => {},
    }
    proof {
        assert(actions@ =~= after_motion(*old(state), *bindings, x, y).actions);
    }
    actions
}

/// Takes a button event of the pointer.
pub fn button_event(state: &mut OverlayState, bindings: &Bindings, button: u32, pressed: bool)
    ensures
        (Outcome { state: *final(state), bindings: *bindings, actions: Seq::empty() })
            == after_event(*old(state), *bindings, Event::PointerButton { button, pressed }),
        old(state).wf() ==> final(state).wf(),
        old(state).margins_in_bounds() ==> final(state).margins_in_bounds(),
{
    proof {
        reveal(after_event);
        reveal(after_button);
    }
    if button == PRIMARY_BUTTON {
        if pressed {
            let x = state.pointer_x;
            let y = state.pointer_y;
            state.start_drag(x, y);
        } else {
            state.stop_drag();
        }
    }
}

/// Takes an axis event of the pointer.
pub fn axis_event(state: &mut OverlayState, bindings: &Bindings, vertical: bool, value: i32) -> (actions:
    Vec<Action>)
    requires
        old(state).wf(),
    ensures
        (Outcome { state: *final(state), bindings: *bindings, actions: actions@ }) == after_event(
            *old(state),
            *bindings,
            Event::PointerAxis { vertical, value },
        ),
        final(state).wf(),
        old(state).margins_in_bounds() ==> final(state).margins_in_bounds(),
{
    proof {
        reveal(after_event);
        reveal(after_axis);
    }
    let mut actions: Vec<Action> = Vec::new();
    if vertical {
        state.scroll(value);
        draw_overlay(state, bindings, &mut actions);
    }
    proof {
        assert(actions@ =~= after_axis(*old(state), *bindings, vertical, value).actions);
    }
    actions
}

/// Takes a key event of the keyboard.
pub fn key_event(state: &mut OverlayState, bindings: &Bindings, key: u32, pressed: bool) -> (actions:
    Vec<Action>)
    ensures
        (Outcome { state: *final(state), bindings: *bindings, actions: actions@ }) == after_event(
            *old(state),
            *bindings,
            Event::Key { key, pressed },
        ),
        old(state).wf() ==> final(state).wf(),
        old(state).margins_in_bounds() ==> final(state).margins_in_bounds(),
{
    proof {
        reveal(after_event);
        reveal(after_key);
    }
    let mut actions: Vec<Action> = Vec::new();
    if pressed && key == TOGGLE_KEY {
        let visible = state.toggle_visibility();
        if visible {
            draw_overlay(state, bindings, &mut actions);
        } else if bindings.surface {
            actions.push(Action::Detach);
        }
    } else if pressed && key == REDRAW_KEY {
        force_redraw(state, bindings, &mut actions);
    }
    proof {
        assert(actions@ =~= after_key(*old(state), *bindings, key, pressed).actions);
    }
    actions
}

/// Takes a capabilities event of the seat.
pub fn seat_event(bindings: &mut Bindings, keyboard: bool, pointer: bool) -> (actions: Vec<Action>)
    ensures
        (*final(bindings), actions@) == after_seat(*old(bindings), keyboard, pointer),
{
    let mut actions: Vec<Action> = Vec::new();
    if keyboard && !bindings.keyboard {
        bindings.keyboard = true;
        actions.push(Action::AcquireKeyboard);
    }
    if pointer && !bindings.pointer {
        bindings.pointer = true;
        actions.push(Action::AcquirePointer);
    }
    proof {
        assert(actions@ =~= after_seat(*old(bindings), keyboard, pointer).1);
    }
    actions
}

/// Takes the event that the surface was closed.
pub fn closed_event(bindings: &mut Bindings) -> (actions: Vec<Action>)
    ensures
        *final(bindings) == (Bindings { closed: true, ..*old(bindings) }),
        actions@ == seq![Action::Exit],
{
    bindings.closed = true;
    let mut actions: Vec<Action> = Vec::new();
    actions.push(Action::Exit);
    proof {
        assert(actions@ =~= seq![Action::Exit]);
    }
    actions
}

/// Takes the position of the pointer.
pub fn enter_event(state: &mut OverlayState, x: i32, y: i32)
    ensures
        *final(state) == (OverlayState { pointer_x: x, pointer_y: y, ..*old(state) }),
        old(state).margins_in_bounds() ==> final(state).margins_in_bounds(),
        old(state).wf() ==> final(state).wf(),
{
    state.pointer_x = x;
    state.pointer_y = y;
}

/// Takes the size of the output.
pub fn output_event(state: &mut OverlayState, bindings: &Bindings, width: i32, height: i32) -> (actions:
    Vec<Action>)
    ensures
        (Outcome { state: *final(state), bindings: *bindings, actions: actions@ }) == after_event(
            *old(state),
            *bindings,
            Event::OutputMode { width, height },
        ),
        final(state).margins_in_bounds(),
        old(state).wf() ==> final(state).wf(),
{
    proof {
        reveal(after_event);
        reveal(after_output);
    }
    let mut actions: Vec<Action> = Vec::new();
    let margin_x = state.margin_x;
    let margin_y = state.margin_y;
    state.set_output_mode(width, height);
    if bindings.surface && (state.margin_x != margin_x || state.margin_y != margin_y) {
        actions.push(Action::SetMargin { top: state.margin_y, left: state.margin_x });
    }
    proof {
        assert(actions@ =~= after_output(*old(state), *bindings, width, height).actions);
    }
    actions
}

/// Takes one event of the display protocol: changes the state and the
/// bindings, and returns the requests to make, in order.
pub fn event(state: &mut OverlayState, bindings: &mut Bindings, incoming: Event) -> (actions: Vec<
    Action,
>)
    requires
        old(state).wf(),
    ensures
        (Outcome { state: *final(state), bindings: *final(bindings), actions: actions@ })
            == after_event(*old(state), *old(bindings), incoming),
        final(state).wf(),
        old(state).margins_in_bounds() ==> final(state).margins_in_bounds(),
{
    proof {
        lemma_plain_events(*state, *bindings, incoming);
    }
    match incoming {
        Event::Global { kind, name, version } => registry_event(bindings, kind, name, version),
        Event::Configure { serial, width, height } => configure_event(
            state,
            bindings,
            serial,
            width,
            height,
        ),
        Event::Closed => closed_event(bindings),
        Event::Key { key, pressed } => key_event(state, bindings, key, pressed),
        Event::SeatCapabilities { keyboard, pointer } => seat_event(bindings, keyboard, pointer),
        Event::OutputMode { width, height } => output_event(state, bindings, width, height),
        Event::Other => Vec::new(),
        _ => pointer_event(state, bindings, incoming),
    }
}

/// Whether `event` is an event of the pointer.
pub open spec fn is_pointer_event(event: Event) -> bool {
    event is PointerEnter || event is PointerLeave || event is PointerMotion
        || event is PointerButton || event is PointerAxis
}

/// Takes one event of the pointer.
pub fn pointer_event(state: &mut OverlayState, bindings: &Bindings, incoming: Event) -> (actions:
    Vec<Action>)
    requires
        old(state).wf(),
        is_pointer_event(incoming),
    ensures
        (Outcome { state: *final(state), bindings: *bindings, actions: actions@ }) == after_event(
            *old(state),
            *bindings,
            incoming,
        ),
        final(state).wf(),
        old(state).margins_in_bounds() ==> final(state).margins_in_bounds(),
{
    proof {
        lemma_plain_events(*state, *bindings, incoming);
    }
    match incoming {
        Event::PointerEnter { x, y } => {
            enter_event(state, x, y);
            Vec::new()
        },
        Event::PointerMotion { x, y } => motion_event(state, bindings, x, y),
        Event::PointerButton { button, pressed } => {
            button_event(state, bindings, button, pressed);
            Vec::new()
        },
        Event::PointerAxis { vertical, value } => axis_event(state, bindings, vertical, value),
        _ => Vec::new(),
    }
}

/// What the events lead to that touch the bindings or the pointer alone, or
/// nothing at all.
pub proof fn lemma_plain_events(state: OverlayState, bindings: Bindings, event: Event)
    ensures
        event matches Event::Global { kind, name, version } ==> after_event(state, bindings, event)
            == (Outcome {
            state,
            bindings: after_global(bindings, kind, name, version).0,
            actions: after_global(bindings, kind, name, version).1,
        }),
        event is Closed ==> after_event(state, bindings, event) == (Outcome {
            state,
            bindings: Bindings { closed: true, ..bindings },
            actions: seq![Action::Exit],
        }),
        event matches Event::PointerEnter { x, y } ==> after_event(state, bindings, event)
            == (Outcome {
            state: OverlayState { pointer_x: x, pointer_y: y, ..state },
            bindings,
            actions: Seq::empty(),
        }),
        event matches Event::SeatCapabilities { keyboard, pointer } ==> after_event(
            state,
            bindings,
            event,
        ) == (Outcome {
            state,
            bindings: after_seat(bindings, keyboard, pointer).0,
            actions: after_seat(bindings, keyboard, pointer).1,
        }),
        event is PointerLeave || event is Other ==> after_event(state, bindings, event)
            == (Outcome { state, bindings, actions: Seq::empty() }),
{
    reveal(after_event);
}

/// Once the surface is closed it stays closed.
pub proof fn lemma_closed_is_final(state: OverlayState, bindings: Bindings, event: Event)
    requires
        bindings.closed,
    ensures
        after_event(state, bindings, event).bindings.closed,
        after_event(state, bindings, event).bindings.phase() == Phase::Closed,
{
    reveal(after_event);
    reveal(after_configure);
    reveal(after_motion);
    reveal(after_button);
    reveal(after_axis);
    reveal(after_key);
    reveal(after_output);
}

/// The margins keep the overlay on the output through every event.
pub proof fn lemma_event_keeps_margins(state: OverlayState, bindings: Bindings, event: Event)
    requires
        state.margins_in_bounds(),
    ensures
        after_event(state, bindings, event).state.margins_in_bounds(),
{
    reveal(after_event);
    match event {
        Event::Configure { serial, width, height } => {
            reveal(after_configure);
        },
        Event::PointerMotion { x, y } => {
            reveal(after_motion);
        },
        Event::PointerButton { button, pressed } => {
            reveal(after_button);
        },
        Event::PointerAxis { vertical, value } => {
            reveal(after_axis);
        },
        Event::Key { key, pressed } => {
            reveal(after_key);
        },
        Event::OutputMode { width, height } => {
            reveal(after_output);
        },
        _ => {},
    }
}

/// A vertical turn of the wheel scrolls by the value divided by the speed and
/// keeps the offset within its range; the range, the margins, the text and the
/// visibility stay as they are, and the overlay is drawn at once where it can
/// be drawn.
pub proof fn lemma_scroll_event(state: OverlayState, bindings: Bindings, value: i32)
    requires
        state.wf(),
    ensures
        ({
            let out = after_event(state, bindings, Event::PointerAxis { vertical: true, value });
            &&& out.state.scroll_offset_y == scrolled(
                state.scroll_offset_y,
                state.max_scroll_offset_y,
                value,
                state.config.scroll_speed,
            )
            &&& state.config.scroll_speed != 0 ==> out.state.scroll_offset_y == clamp(
                state.scroll_offset_y + scroll_amount(value, state.config.scroll_speed),
                0,
                state.max_scroll_offset_y as int,
            )
            &&& 0 <= out.state.scroll_offset_y <= out.state.max_scroll_offset_y
            &&& out.state.max_scroll_offset_y == state.max_scroll_offset_y
            &&& out.state.margin_x == state.margin_x
            &&& out.state.margin_y == state.margin_y
            &&& out.state.text == state.text
            &&& out.state.visible == state.visible
            &&& out.bindings == bindings
            &&& out.actions == if bindings.surface && bindings.shm && state.visible {
                seq![Action::Redraw]
            } else {
                Seq::<Action>::empty()
            }
        }),
{
    reveal(after_event);
    reveal(after_axis);
    let out = after_event(state, bindings, Event::PointerAxis { vertical: true, value });
    assert(out.actions =~= if bindings.surface && bindings.shm && state.visible {
        seq![Action::Redraw]
    } else {
        Seq::<Action>::empty()
    });
}

/// A configure event gives the panel the size that it names, unless that
/// size has a zero in it, and is acknowledged first. After it the scroll range
/// is what of the content does not fit in the panel, the scroll offset is
/// within it, and the margins keep the overlay on the output.
pub proof fn lemma_configure_event(
    state: OverlayState,
    bindings: Bindings,
    serial: u32,
    width: u32,
    height: u32,
)
    ensures
        ({
            let out = after_event(state, bindings, Event::Configure { serial, width, height });
            &&& out.state.width == if width > 0 && height > 0 {
                width
            } else {
                state.width
            }
            &&& out.state.height == if width > 0 && height > 0 {
                height
            } else {
                state.height
            }
            &&& out.actions.len() >= 1
            &&& out.actions[0] == Action::AckConfigure { serial }
            &&& out.state.max_scroll_offset_y == scroll_range(
                out.state.content_px(),
                out.state.height,
            )
            &&& 0 <= out.state.scroll_offset_y <= out.state.max_scroll_offset_y
            &&& out.state.wf()
            &&& out.state.margins_in_bounds()
            &&& out.bindings.configured
        }),
{
    reveal(after_event);
    reveal(after_configure);
    let resized = state.after_resize(width, height);
    lemma_scroll_range_bound(resized.content_px(), resized.height);
}

/// The keyboard and the pointer of the seat are acquired at most once each:
/// the capabilities of the seat ask for one of them only where the overlay does
/// not hold it yet, and it holds it from then on.
pub proof fn lemma_acquired_once(bindings: Bindings, keyboard: bool, pointer: bool)
    ensures
        after_seat(bindings, keyboard, pointer).1.contains(Action::AcquireKeyboard) <==> keyboard
            && !bindings.keyboard,
        after_seat(bindings, keyboard, pointer).1.contains(Action::AcquirePointer) <==> pointer
            && !bindings.pointer,
        bindings.keyboard || keyboard ==> after_seat(bindings, keyboard, pointer).0.keyboard,
        bindings.pointer || pointer ==> after_seat(bindings, keyboard, pointer).0.pointer,
{
    let actions = after_seat(bindings, keyboard, pointer).1;
    let first: Seq<Action> = if keyboard && !bindings.keyboard {
        seq![Action::AcquireKeyboard]
    } else {
        Seq::empty()
    };
    if keyboard && !bindings.keyboard {
        assert(actions[0] == Action::AcquireKeyboard);
    }
    if pointer && !bindings.pointer {
        assert(actions[actions.len() - 1] == Action::AcquirePointer);
    }
    if actions.contains(Action::AcquireKeyboard) {
        let i = choose|i: int| 0 <= i < actions.len() && actions[i] == Action::AcquireKeyboard;
        assert(actions[i] == Action::AcquireKeyboard);
    }
    if actions.contains(Action::AcquirePointer) {
        let i = choose|i: int| 0 <= i < actions.len() && actions[i] == Action::AcquirePointer;
        assert(actions[i] == Action::AcquirePointer);
    }
}

} // verus!
