//! The interaction state of the overlay: size, position, scrolling, dragging
//! and the workspace that is shown.
//!
//! Pointer coordinates and scroll values are fixed-point numbers with 8
//! fractional bits, as the display protocol sends them; margins and sizes are
//! whole pixels; scroll offsets are layout units.

use crate::chars::{
    decimal, is_blank, is_whitespace, lemma_decimal_digits, lemma_trim_end, same_text, to_chars,
    trim, trim_chars, trim_end, trim_start, trimmed_len,
};
use crate::content::{highlights_all, load_content};
use crate::highlight::{HighlightError, Highlighter};
use crate::markdown::{markdown_events, segment};
use crate::numbers::{lemma_decimal_value, numeral_digits, parse_u32, parse_u32_chars};
use crate::keys::{default_text, get_default_text, get_text_log_output_path, text_log_path, Keybindings};
use crate::layout::{
    highlighted_views, measure_content_height, text_height, HighlightedBlock, MAX_SCROLL,
};
use crate::metrics::FontMetrics;
use crate::pixel::Tint;
use vstd::prelude::*;
use vstd::string::StringExecFns;

verus! {

/// The margins of an overlay that has never been dragged.
pub const DEFAULT_MARGIN: i32 = 20;

/// The size that the output is taken to have until it reports one.
pub const DEFAULT_OUTPUT_WIDTH: i32 = 1920;

/// See [`DEFAULT_OUTPUT_WIDTH`].
pub const DEFAULT_OUTPUT_HEIGHT: i32 = 1080;

/// The workspace that is shown where none is recorded.
pub const DEFAULT_WORKSPACE: u32 = 1;

/// What is fixed when the overlay starts.
#[derive(Clone, Copy, Debug, PartialEq, Eq)]
pub struct OverlayConfig {
    /// Width of the panel in pixels.
    pub width: u32,
    /// Largest height of the panel in pixels.
    pub max_height: u32,
    /// What a scroll value is divided by, as a fixed-point number with 8
    /// fractional bits. A negative speed turns the direction of scrolling
    /// round.
    pub scroll_speed: i32,
    /// Radius of the panel's corners in layout units.
    pub border_radius: u32,
    /// Whether new text scrolls the panel to its end.
    pub auto_scroll: bool,
    /// Fill of the panel.
    pub tint: Tint,
}

/// A drag in progress: whether the button is down, and where the pointer was
/// when the drag was last advanced.
#[derive(Clone, Copy, Debug, PartialEq, Eq, Structural)]
pub struct DragState {
    pub is_dragging: bool,
    pub start_x: i32,
    pub start_y: i32,
}

impl Default for DragState {
    fn default() -> (d: DragState)
        ensures
            d == (DragState { is_dragging: false, start_x: 0, start_y: 0 }),
    {
        DragState { is_dragging: false, start_x: 0, start_y: 0 }
    }
}

/// The state of the overlay.
pub struct OverlayState {
    pub width: u32,
    pub height: u32,
    pub margin_x: i32,
    pub margin_y: i32,
    pub visible: bool,
    pub drag_state: DragState,
    pub pointer_x: i32,
    pub pointer_y: i32,
    pub output_width: i32,
    pub output_height: i32,
    pub metrics: FontMetrics,
    pub chip_metrics: FontMetrics,
    pub text: String,
    pub blocks: Vec<HighlightedBlock>,
    pub current_workspace: u32,
    pub text_changed: bool,
    pub scroll_offset_y: u64,
    pub max_scroll_offset_y: u64,
    pub config: OverlayConfig,
}

/// An event that changes what part of the content is visible.
#[derive(Clone, Copy, Debug, PartialEq, Eq)]
pub enum ViewEvent {
    /// The wheel was turned by `value`.
    Scroll { value: i32 },
    /// The panel was given a new size.
    Resize { width: u32, height: u32 },
}

/// An event of a drag.
#[derive(Clone, Copy, Debug, PartialEq, Eq)]
pub enum DragEvent {
    /// The button went down with the pointer at `(x, y)`.
    Start { x: i32, y: i32 },
    /// The pointer moved to `(x, y)`.
    Motion { x: i32, y: i32 },
    /// The button went up.
    Stop,
}

/// `v`, or the nearer of `lo` and `hi` where `v` is not between them.
pub open spec fn clamp(v: int, lo: int, hi: int) -> int {
    if v < lo {
        lo
    } else if v > hi {
        hi
    } else {
        v
    }
}

/// `a` without its sign.
pub open spec fn magnitude(a: int) -> int {
    if a >= 0 {
        a
    } else {
        -a
    }
}

/// `a / b`, rounded towards zero.
pub open spec fn div_to_zero(a: int, b: int) -> int {
    if (a < 0) != (b < 0) {
        -(magnitude(a) / magnitude(b))
    } else {
        magnitude(a) / magnitude(b)
    }
}

/// The distance in layout units that a scroll value of `value` scrolls at the
/// speed `speed`: the value divided by the speed.
pub open spec fn scroll_amount(value: i32, speed: i32) -> int {
    div_to_zero(value * 64, speed as int)
}

/// The scroll offset after a scroll by `value`: the offset plus the amount,
/// kept between 0 and `max`. At speed 0 any scroll forwards goes to `max`, and
/// any other to 0.
pub open spec fn scrolled(offset: u64, max: u64, value: i32, speed: i32) -> int {
    if speed == 0 {
        if value > 0 {
            max as int
        } else {
            0
        }
    } else {
        clamp(offset + scroll_amount(value, speed), 0, max as int)
    }
}

/// How far the content can be scrolled: what of `content` pixels does not fit
/// in `height` pixels, in layout units.
pub open spec fn scroll_range(content: nat, height: u32) -> nat {
    if content > height {
        ((content - height) * 64) as nat
    } else {
        0
    }
}

/// The whole pixels that the pointer moved from `from` to `to`.
pub open spec fn pixels_moved(from: i32, to: i32) -> int {
    div_to_zero(to - from, 256)
}

/// The largest margin that keeps an overlay of `size` pixels on an output of
/// `output` pixels; 0 where the overlay is larger than the output.
pub open spec fn max_margin(output: i32, size: u32) -> int {
    if output - size > 0 {
        output - size
    } else {
        0
    }
}

/// The distance that a scroll value of `value` scrolls at the speed `speed`,
/// and whether it is backwards.
fn scroll_magnitude(value: i32, speed: i32) -> (r: (u64, bool))
    requires
        speed != 0,
    ensures
        r.1 == ((value < 0) != (speed < 0)),
        (if r.1 {
            -(r.0 as int)
        } else {
            r.0 as int
        }) == scroll_amount(value, speed),
        r.0 <= 0x8000_0000 * 64,
{
    let backwards = (value < 0) != (speed < 0);
    let distance: u64 = if value < 0 {
        (-(value as i64)) as u64
    } else {
        value as u64
    };
    let divisor: u64 = if speed < 0 {
        (-(speed as i64)) as u64
    } else {
        speed as u64
    };
    let amount = distance * 64 / divisor;
    proof {
        assert(amount <= distance * 64) by (nonlinear_arith)
            requires
                amount == (distance * 64) as int / divisor as int,
                divisor >= 1,
                distance >= 0,
        ;
        assert(magnitude(value * 64) == distance * 64);
        assert(magnitude(speed as int) == divisor);
    }
    (amount, backwards)
}

/// The whole pixels that the pointer moved from `from` to `to`.
fn moved_pixels(from: i32, to: i32) -> (d: i64)
    ensures
        d == pixels_moved(from, to),
        -0x100_0000 <= d <= 0x100_0000,
{
    let delta: i64 = to as i64 - from as i64;
    if delta >= 0 {
        delta / 256
    } else {
        -((-delta) / 256)
    }
}

/// `margin` moved by `moved` pixels and kept on the output.
fn clamp_margin(margin: i32, moved: i64, output: i32, size: u32) -> (m: i32)
    requires
        -0x100_0000 <= moved <= 0x100_0000,
    ensures
        m == clamp(margin + moved, 0, max_margin(output, size)),
        0 <= m <= max_margin(output, size),
{
    let room: i64 = output as i64 - size as i64;
    let max: i64 = if room > 0 {
        room
    } else {
        0
    };
    let target: i64 = margin as i64 + moved;
    if target < 0 {
        0
    } else if target > max {
        max as i32
    } else {
        target as i32
    }
}

/// The text that is shown for what a workspace's text file holds: the help
/// text where there is no file or the file is blank, else what the file holds.
pub open spec fn shown_text(content: Option<Seq<char>>, kb: Keybindings) -> Seq<char> {
    match content {
        Some(c) => if is_blank(c) {
            default_text(kb)
        } else {
            c
        },
        None => default_text(kb),
    }
}

/// The text that is shown for what a workspace's text file holds; `content`
/// is `None` where the file could not be read.
pub fn displayed_text(content: Option<&str>, kb: &Keybindings) -> (text: String)
    ensures
        text@ == shown_text(
            match content {
                Some(c) => Some(c@),
                None => None,
            },
            *kb,
        ),
{
    match content {
        Some(c) => {
            let chars = to_chars(c);
            proof {
                lemma_trim_end(chars@);
            }
            if trimmed_len(&chars) == 0 {
                get_default_text(kb)
            } else {
                String::from_str(c)
            }
        },
        None => get_default_text(kb),
    }
}

/// The workspace that the workspace file names: the number that it holds,
/// whatever whitespace is around it.
pub open spec fn workspace_of(content: Seq<char>) -> Option<u32> {
    parse_u32(trim(content))
}

/// The workspace that the workspace file names; `content` is what the file
/// holds.
pub fn read_current_workspace(content: &str) -> (workspace: Option<u32>)
    ensures
        workspace == workspace_of(content@),
{
    let chars = to_chars(content);
    parse_u32_chars(&trim_chars(&chars))
}

impl OverlayState {
    /// Whether the scroll offset is within its range, and the range within
    /// what the layout accepts.
    pub open spec fn wf(&self) -> bool {
        self.scroll_offset_y <= self.max_scroll_offset_y <= MAX_SCROLL
    }

    /// Whether the scroll range is what of the content does not fit in the
    /// panel, and the scroll offset is within it.
    pub open spec fn consistent(&self) -> bool {
        &&& self.max_scroll_offset_y == scroll_range(self.content_px(), self.height)
        &&& self.scroll_offset_y <= self.max_scroll_offset_y
    }

    /// Whether the margins keep the overlay on the output.
    pub open spec fn margins_in_bounds(&self) -> bool {
        &&& 0 <= self.margin_x <= max_margin(self.output_width, self.width)
        &&& 0 <= self.margin_y <= max_margin(self.output_height, self.height)
    }

    /// The state with its margins kept on the output: each margin is moved
    /// to the nearer end of its range where it is outside it.
    pub open spec fn with_margins_clamped(self) -> OverlayState {
        OverlayState {
            margin_x: clamp(
                self.margin_x as int,
                0,
                max_margin(self.output_width, self.width),
            ) as i32,
            margin_y: clamp(
                self.margin_y as int,
                0,
                max_margin(self.output_height, self.height),
            ) as i32,
            ..self
        }
    }

    /// The height of the content in pixels at the current width.
    pub open spec fn content_px(&self) -> nat {
        text_height(self.metrics, highlighted_views(self.blocks@), self.width)
    }

    /// The name of the file that the shown text is read from.
    pub open spec fn text_source(&self) -> Seq<char> {
        text_log_path(self.current_workspace)
    }

    /// The state after a scroll by `value`.
    pub open spec fn after_scroll(self, value: i32) -> OverlayState {
        OverlayState {
            scroll_offset_y: scrolled(
                self.scroll_offset_y,
                self.max_scroll_offset_y,
                value,
                self.config.scroll_speed,
            ) as u64,
            ..self
        }
    }

    /// The state after the panel was given the size `width` by `height`. A
    /// size with a zero in it is not taken. The scroll range follows the new
    /// size, the scroll offset stays within it, and the margins keep the
    /// overlay of the new size on the output.
    pub open spec fn after_resize(self, width: u32, height: u32) -> OverlayState {
        let sized = if width > 0 && height > 0 {
            OverlayState { width, height, ..self }
        } else {
            self
        };
        let range = scroll_range(sized.content_px(), sized.height);
        (OverlayState {
            max_scroll_offset_y: range as u64,
            scroll_offset_y: if self.scroll_offset_y > range {
                range as u64
            } else {
                self.scroll_offset_y
            },
            ..sized
        }).with_margins_clamped()
    }

    /// The state after the output reported the size `width` by `height`: the
    /// margins keep the overlay on the output of that size.
    pub open spec fn after_output_mode(self, width: i32, height: i32) -> OverlayState {
        (OverlayState { output_width: width, output_height: height, ..self }).with_margins_clamped()
    }

    /// The state after one event that changes the view.
    pub open spec fn after_view_event(self, event: ViewEvent) -> OverlayState {
        match event {
            ViewEvent::Scroll { value } => self.after_scroll(value),
            ViewEvent::Resize { width, height } => self.after_resize(width, height),
        }
    }

    /// The state after a sequence of events that change the view.
    pub open spec fn after_view_events(self, events: Seq<ViewEvent>) -> OverlayState
        decreases events.len(),
    {
        if events.len() == 0 {
            self
        } else {
            self.after_view_events(events.drop_last()).after_view_event(events.last())
        }
    }

    /// The state after one event of a drag. A motion while the button is down
    /// moves the margins by the whole pixels that the pointer moved since the
    /// drag was last advanced, keeps them on the output, and advances the drag
    /// to the pointer.
    pub open spec fn after_drag_event(self, event: DragEvent) -> OverlayState {
        match event {
            DragEvent::Start { x, y } => OverlayState {
                drag_state: DragState { is_dragging: true, start_x: x, start_y: y },
                ..self
            },
            DragEvent::Motion { x, y } => if self.drag_state.is_dragging {
                OverlayState {
                    margin_x: clamp(
                        self.margin_x + pixels_moved(self.drag_state.start_x, x),
                        0,
                        max_margin(self.output_width, self.width),
                    ) as i32,
                    margin_y: clamp(
                        self.margin_y + pixels_moved(self.drag_state.start_y, y),
                        0,
                        max_margin(self.output_height, self.height),
                    ) as i32,
                    drag_state: DragState { is_dragging: true, start_x: x, start_y: y },
                    ..self
                }
            } else {
                self
            },
            DragEvent::Stop => OverlayState {
                drag_state: DragState { is_dragging: false, ..self.drag_state },
                ..self
            },
        }
    }

    /// The state after a sequence of events of a drag.
    pub open spec fn after_drag_events(self, events: Seq<DragEvent>) -> OverlayState
        decreases events.len(),
    {
        if events.len() == 0 {
            self
        } else {
            self.after_drag_events(events.drop_last()).after_drag_event(events.last())
        }
    }

    /// The state after the workspace file was read as `workspace`. A number
    /// other than 0 and other than the current workspace switches to that
    /// workspace: the view scrolls back to the top and the text is due to be
    /// read anew.
    pub open spec fn after_workspace(self, workspace: Option<u32>) -> OverlayState {
        match workspace {
            Some(n) => if n != self.current_workspace && n > 0 {
                OverlayState {
                    current_workspace: n,
                    scroll_offset_y: 0,
                    text_changed: true,
                    ..self
                }
            } else {
                self
            },
            None => self,
        }
    }

    /// The state after the text `text`, highlighted as `blocks`, replaced the
    /// text that was shown. The height follows the content up to the largest
    /// height; the scroll range is what does not fit; the view scrolls to the
    /// end where that is asked for, and else stays within the new range; the
    /// margins keep the overlay of the new height on the output.
    pub open spec fn after_text(self, text: String, blocks: Vec<HighlightedBlock>) -> OverlayState {
        let content = text_height(self.metrics, highlighted_views(blocks@), self.width);
        let height = if content > self.config.max_height {
            self.config.max_height
        } else {
            content as u32
        };
        let range = scroll_range(content, height);
        (OverlayState {
            text,
            blocks,
            text_changed: true,
            height,
            max_scroll_offset_y: range as u64,
            scroll_offset_y: if self.config.auto_scroll || self.scroll_offset_y > range {
                range as u64
            } else {
                self.scroll_offset_y
            },
            ..self
        }).with_margins_clamped()
    }

    /// The state at the start: the overlay is visible, nothing is dragged,
    /// the view is at the top, the margins are those that were recorded last
    /// or the default ones, kept on the output, and the height follows the
    /// content.
    pub fn new(
        config: OverlayConfig,
        metrics: FontMetrics,
        chip_metrics: FontMetrics,
        margins: Option<(i32, i32)>,
        workspace: Option<u32>,
        text: String,
        blocks: Vec<HighlightedBlock>,
    ) -> (state: OverlayState)
        ensures
            state.wf(),
            state.consistent(),
            state.width == config.width,
            state.content_px() == text_height(metrics, highlighted_views(blocks@), config.width),
            state.height == if state.content_px() > config.max_height {
                config.max_height
            } else {
                state.content_px() as u32
            },
            state.max_scroll_offset_y == scroll_range(state.content_px(), state.height),
            state.scroll_offset_y == 0,
            state.margins_in_bounds(),
            state.margin_x == clamp(
                match margins {
                    Some(m) => m.0 as int,
                    None => DEFAULT_MARGIN as int,
                },
                0,
                max_margin(DEFAULT_OUTPUT_WIDTH, state.width),
            ),
            state.margin_y == clamp(
                match margins {
                    Some(m) => m.1 as int,
                    None => DEFAULT_MARGIN as int,
                },
                0,
                max_margin(DEFAULT_OUTPUT_HEIGHT, state.height),
            ),
            state.current_workspace == match workspace {
                Some(w) => w,
                None => DEFAULT_WORKSPACE,
            },
            state.visible,
            !state.text_changed,
            !state.drag_state.is_dragging,
            state.output_width == DEFAULT_OUTPUT_WIDTH,
            state.output_height == DEFAULT_OUTPUT_HEIGHT,
            state.text == text,
            state.blocks == blocks,
            state.metrics == metrics,
            state.chip_metrics == chip_metrics,
            state.config == config,
    {
        let content = measure_content_height(&metrics, &blocks, config.width);
        let height = if content > config.max_height {
            config.max_height
        } else {
            content
        };
        let range: u64 = (content - height) as u64 * 64;
        let (margin_x, margin_y) = match margins {
            Some(m) => m,
            None => (DEFAULT_MARGIN, DEFAULT_MARGIN),
        };
        let current_workspace = match workspace {
            Some(w) => w,
            None => DEFAULT_WORKSPACE,
        };
        OverlayState {
            width: config.width,
            height,
            margin_x: clamp_margin(margin_x, 0, DEFAULT_OUTPUT_WIDTH, config.width),
            margin_y: clamp_margin(margin_y, 0, DEFAULT_OUTPUT_HEIGHT, height),
            visible: true,
            drag_state: DragState { is_dragging: false, start_x: 0, start_y: 0 },
            pointer_x: 0,
            pointer_y: 0,
            output_width: DEFAULT_OUTPUT_WIDTH,
            output_height: DEFAULT_OUTPUT_HEIGHT,
            metrics,
            chip_metrics,
            text,
            blocks,
            current_workspace,
            text_changed: false,
            scroll_offset_y: 0,
            max_scroll_offset_y: range,
            config,
        }
    }

    /// Scrolls by `value`.
    pub fn scroll(&mut self, value: i32)
        requires
            old(self).wf(),
        ensures
            *final(self) == old(self).after_scroll(value),
            final(self).wf(),
    {
        let speed = self.config.scroll_speed;
        if speed == 0 {
            if value > 0 {
                self.scroll_offset_y = self.max_scroll_offset_y;
            } else {
                self.scroll_offset_y = 0;
            }
        } else {
            let (amount, backwards) = scroll_magnitude(value, speed);
            if backwards {
                if amount >= self.scroll_offset_y {
                    self.scroll_offset_y = 0;
                } else {
                    self.scroll_offset_y = self.scroll_offset_y - amount;
                }
            } else {
                let target = self.scroll_offset_y + amount;
                if target > self.max_scroll_offset_y {
                    self.scroll_offset_y = self.max_scroll_offset_y;
                } else {
                    self.scroll_offset_y = target;
                }
            }
        }
    }

    /// Takes the size that the compositor has given the panel.
    pub fn resize(&mut self, width: u32, height: u32)
        ensures
            *final(self) == old(self).after_resize(width, height),
            final(self).wf(),
            final(self).consistent(),
            final(self).margins_in_bounds(),
    {
        if width > 0 && height > 0 {
            self.width = width;
            self.height = height;
        }
        let content = measure_content_height(&self.metrics, &self.blocks, self.width);
        let range: u64 = if content > self.height {
            (content - self.height) as u64 * 64
        } else {
            0
        };
        self.max_scroll_offset_y = range;
        if self.scroll_offset_y > range {
            self.scroll_offset_y = range;
        }
        self.clamp_margins();
    }

    /// Moves the margins to where they keep the overlay on the output.
    pub fn clamp_margins(&mut self)
        ensures
            *final(self) == old(self).with_margins_clamped(),
            final(self).margins_in_bounds(),
    {
        self.margin_x = clamp_margin(self.margin_x, 0, self.output_width, self.width);
        self.margin_y = clamp_margin(self.margin_y, 0, self.output_height, self.height);
    }

    /// Takes the size that the output has reported.
    pub fn set_output_mode(&mut self, width: i32, height: i32)
        ensures
            *final(self) == old(self).after_output_mode(width, height),
            final(self).margins_in_bounds(),
            old(self).wf() ==> final(self).wf(),
    {
        self.output_width = width;
        self.output_height = height;
        self.clamp_margins();
    }

    /// Applies one event that changes the view.
    pub fn apply_view_event(&mut self, event: ViewEvent)
        requires
            old(self).wf(),
        ensures
            *final(self) == old(self).after_view_event(event),
            final(self).wf(),
    {
        match event {
            ViewEvent::Scroll { value } => self.scroll(value),
            ViewEvent::Resize { width, height } => self.resize(width, height),
        }
    }

    /// Begins a drag with the pointer at `(x, y)`.
    pub fn start_drag(&mut self, x: i32, y: i32)
        ensures
            *final(self) == old(self).after_drag_event(DragEvent::Start { x, y }),
    {
        self.drag_state = DragState { is_dragging: true, start_x: x, start_y: y };
    }

    /// Advances a drag to the pointer at `(x, y)`. Returns the new margins
    /// where a drag is in progress, and `None` where none is.
    pub fn update_drag(&mut self, x: i32, y: i32) -> (margins: Option<(i32, i32)>)
        ensures
            *final(self) == old(self).after_drag_event(DragEvent::Motion { x, y }),
            margins is Some <==> old(self).drag_state.is_dragging,
            margins matches Some(m) ==> m.0 == final(self).margin_x && m.1 == final(self).margin_y
                && final(self).margins_in_bounds(),
    {
        if !self.drag_state.is_dragging {
            return None;
        }
        let dx = moved_pixels(self.drag_state.start_x, x);
        let dy = moved_pixels(self.drag_state.start_y, y);
        self.margin_x = clamp_margin(self.margin_x, dx, self.output_width, self.width);
        self.margin_y = clamp_margin(self.margin_y, dy, self.output_height, self.height);
        self.drag_state = DragState { is_dragging: true, start_x: x, start_y: y };
        Some((self.margin_x, self.margin_y))
    }

    /// Ends a drag.
    pub fn stop_drag(&mut self)
        ensures
            *final(self) == old(self).after_drag_event(DragEvent::Stop),
    {
        self.drag_state = DragState {
            is_dragging: false,
            start_x: self.drag_state.start_x,
            start_y: self.drag_state.start_y,
        };
    }

    /// Applies one event of a drag; returns the new margins where it moved
    /// the overlay.
    pub fn apply_drag_event(&mut self, event: DragEvent) -> (margins: Option<(i32, i32)>)
        ensures
            *final(self) == old(self).after_drag_event(event),
            margins is Some <==> event is Motion && old(self).drag_state.is_dragging,
            margins matches Some(m) ==> m.0 == final(self).margin_x && m.1 == final(self).margin_y,
    {
        match event {
            DragEvent::Start { x, y } => {
                self.start_drag(x, y);
                None
            },
            DragEvent::Motion { x, y } => self.update_drag(x, y),
            DragEvent::Stop => {
                self.stop_drag();
                None
            },
        }
    }

    /// Takes what the workspace file was read as; `None` where it could not be
    /// read as a number. Returns whether the workspace was switched, and so
    /// whether the text is to be read anew and the overlay drawn again.
    pub fn check_for_workspace_switch(&mut self, workspace: Option<u32>) -> (switched: bool)
        ensures
            *final(self) == old(self).after_workspace(workspace),
            switched == (workspace matches Some(n) && n != old(self).current_workspace && n > 0),
            switched ==> final(self).scroll_offset_y == 0 && final(self).current_workspace
                == workspace->0,
            final(self).margin_x == old(self).margin_x,
            final(self).margin_y == old(self).margin_y,
            final(self).visible == old(self).visible,
            old(self).wf() ==> final(self).wf(),
    {
        match workspace {
            Some(n) => {
                if n != self.current_workspace && n > 0 {
                    self.current_workspace = n;
                    self.scroll_offset_y = 0;
                    self.text_changed = true;
                    true
                } else {
                    false
                }
            },
            None => false,
        }
    }

    /// The name of the file that the shown text is read from.
    pub fn text_source_path(&self) -> (path: String)
        ensures
            path@ == self.text_source(),
    {
        get_text_log_output_path(self.current_workspace)
    }

    /// Whether `text` differs from the text that is shown.
    pub fn text_differs(&self, text: &str) -> (differs: bool)
        ensures
            differs == (text@ != self.text@),
    {
        !same_text(text, self.text.as_str())
    }

    /// Replaces the text that is shown by `text`, highlighted as `blocks`.
    pub fn set_text(&mut self, text: String, blocks: Vec<HighlightedBlock>)
        ensures
            *final(self) == old(self).after_text(text, blocks),
            final(self).wf(),
            final(self).consistent(),
            final(self).margins_in_bounds(),
            final(self).height <= final(self).config.max_height,
            final(self).height == if final(self).content_px() > final(self).config.max_height {
                final(self).config.max_height
            } else {
                final(self).content_px() as u32
            },
            final(self).max_scroll_offset_y == scroll_range(
                final(self).content_px(),
                final(self).height,
            ),
    {
        let content = measure_content_height(&self.metrics, &blocks, self.width);
        let height = if content > self.config.max_height {
            self.config.max_height
        } else {
            content
        };
        let range: u64 = (content - height) as u64 * 64;
        self.text = text;
        self.blocks = blocks;
        self.text_changed = true;
        self.height = height;
        self.max_scroll_offset_y = range;
        if self.config.auto_scroll || self.scroll_offset_y > range {
            self.scroll_offset_y = range;
        }
        self.clamp_margins();
    }

    /// Takes what the text file of the current workspace holds; `content` is
    /// `None` where the file could not be read. Where the text to show differs
    /// from the text that is shown, it is segmented, highlighted and measured,
    /// and replaces it. Returns whether it did; where the highlighter fails,
    /// nothing changes. A text to show that differs and has no block to
    /// highlight always replaces the text that is shown.
    pub fn update_text_from_log(
        &mut self,
        highlighter: &Highlighter,
        content: Option<&str>,
        kb: &Keybindings,
    ) -> (changed: Result<bool, HighlightError>)
        ensures
            old(self).wf() ==> final(self).wf(),
            old(self).text@ == shown_text(
                match content {
                    Some(c) => Some(c@),
                    None => None,
                },
                *kb,
            ) ==> changed == Ok::<bool, HighlightError>(false),
            ({
                let shown = shown_text(
                    match content {
                        Some(c) => Some(c@),
                        None => None,
                    },
                    *kb,
                );
                old(self).text@ != shown && segment(markdown_events(shown)).len() == 0 ==> changed
                    == Ok::<bool, HighlightError>(true)
            }),
            match changed {
                Ok(true) => exists|text: String, blocks: Vec<HighlightedBlock>|
                    {
                        &&& text@ == shown_text(
                            match content {
                                Some(c) => Some(c@),
                                None => None,
                            },
                            *kb,
                        )
                        &&& text@ != old(self).text@
                        &&& highlights_all(blocks@, segment(markdown_events(text@)))
                        &&& *final(self) == old(self).after_text(text, blocks)
                    },
                Ok(false) => *final(self) == *old(self) && old(self).text@ == shown_text(
                    match content {
                        Some(c) => Some(c@),
                        None => None,
                    },
                    *kb,
                ),
                Err(_) => *final(self) == *old(self),
            },
    {
        let text = displayed_text(content, kb);
        if !self.text_differs(text.as_str()) {
            return Ok(false);
        }
        match load_content(highlighter, text.as_str()) {
            Ok(blocks) => {
                proof {
                    assert(highlights_all(blocks@, segment(markdown_events(text@))));
                }
                let ghost shown = text;
                let ghost highlighted = blocks;
                self.set_text(text, blocks);
                proof {
                    assert(*final(self) == old(self).after_text(shown, highlighted));
                }
                Ok(true)
            },
            Err(e) => Err(e),
        }
    }

    /// Shows or hides the overlay; returns whether it is visible now.
    pub fn toggle_visibility(&mut self) -> (visible: bool)
        ensures
            *final(self) == (OverlayState { visible: !old(self).visible, ..*old(self) }),
            visible == final(self).visible,
    {
        self.visible = !self.visible;
        self.visible
    }
}

/// After any sequence of scrolls and resizes the scroll offset is within its
/// range.
pub proof fn lemma_scroll_stays_in_range(state: OverlayState, events: Seq<ViewEvent>)
    requires
        state.wf(),
    ensures
        state.after_view_events(events).wf(),
        0 <= state.after_view_events(events).scroll_offset_y
            <= state.after_view_events(events).max_scroll_offset_y,
    decreases events.len(),
{
    if events.len() > 0 {
        lemma_scroll_stays_in_range(state, events.drop_last());
        let before = state.after_view_events(events.drop_last());
        match events.last() {
            ViewEvent::Scroll { value } => {},
            ViewEvent::Resize { width, height } => {
                lemma_scroll_range_bound(
                    (if width > 0 && height > 0 {
                        OverlayState { width, height, ..before }
                    } else {
                        before
                    }).content_px(),
                    if width > 0 && height > 0 {
                        height
                    } else {
                        before.height
                    },
                );
            },
        }
    }
}

/// A state in which the scroll range is what of the content does not fit in
/// the panel stays so after any sequence of scrolls and resizes, and its scroll
/// offset never exceeds that range.
pub proof fn lemma_view_events_keep_consistency(state: OverlayState, events: Seq<ViewEvent>)
    requires
        state.consistent(),
    ensures
        state.after_view_events(events).consistent(),
        state.after_view_events(events).wf(),
    decreases events.len(),
{
    lemma_consistent_is_wf(state);
    if events.len() > 0 {
        lemma_view_events_keep_consistency(state, events.drop_last());
        lemma_consistent_is_wf(state.after_view_events(events));
    }
}

/// A state in which the scroll range is what of the content does not fit is
/// one that the layout accepts.
pub proof fn lemma_consistent_is_wf(state: OverlayState)
    requires
        state.consistent(),
    ensures
        state.wf(),
{
    lemma_scroll_range_bound(state.content_px(), state.height);
}

/// Dragging and switching the workspace leave the scroll range as it is, and
/// the scroll offset within it.
pub proof fn lemma_other_events_keep_consistency(
    state: OverlayState,
    drag: DragEvent,
    workspace: Option<u32>,
)
    requires
        state.consistent(),
    ensures
        state.after_drag_event(drag).consistent(),
        state.after_workspace(workspace).consistent(),
{
}

/// The scroll range of content that a `u32` can measure is within what the
/// layout accepts.
pub proof fn lemma_scroll_range_bound(content: nat, height: u32)
    requires
        content <= u32::MAX,
    ensures
        scroll_range(content, height) <= MAX_SCROLL,
{
}

/// A sequence of drag events leaves margins that keep the overlay on the
/// output where they did so before; the size of the overlay and of the output
/// do not change.
pub proof fn lemma_drag_keeps_margins(state: OverlayState, events: Seq<DragEvent>)
    requires
        state.margins_in_bounds(),
    ensures
        state.after_drag_events(events).margins_in_bounds(),
        state.after_drag_events(events).width == state.width,
        state.after_drag_events(events).height == state.height,
        state.after_drag_events(events).output_width == state.output_width,
        state.after_drag_events(events).output_height == state.output_height,
    decreases events.len(),
{
    if events.len() > 0 {
        lemma_drag_keeps_margins(state, events.drop_last());
    }
}

/// Whatever the margins were: once a drag has moved the overlay, they keep
/// the overlay on the output, however the drag goes on.
pub proof fn lemma_drag_clamps_margins(state: OverlayState, events: Seq<DragEvent>, k: int)
    requires
        0 <= k < events.len(),
        events[k] is Motion,
        state.after_drag_events(events.take(k)).drag_state.is_dragging,
    ensures
        state.after_drag_events(events).margins_in_bounds(),
    decreases events.len() - k,
{
    if k == events.len() - 1 {
        assert(events.drop_last() =~= events.take(k));
    } else {
        assert(events.drop_last().take(k) =~= events.take(k));
        lemma_drag_clamps_margins(state, events.drop_last(), k);
        let before = state.after_drag_events(events.drop_last());
        lemma_drag_sizes(state, events.drop_last());
    }
}

/// A sequence of drag events changes neither the size of the overlay nor that
/// of the output.
pub proof fn lemma_drag_sizes(state: OverlayState, events: Seq<DragEvent>)
    ensures
        state.after_drag_events(events).width == state.width,
        state.after_drag_events(events).height == state.height,
        state.after_drag_events(events).output_width == state.output_width,
        state.after_drag_events(events).output_height == state.output_height,
    decreases events.len(),
{
    if events.len() > 0 {
        lemma_drag_sizes(state, events.drop_last());
    }
}

/// Switching to another workspace scrolls back to the top and changes the
/// file that the text is read from to that of the new workspace; it leaves the
/// margins and the visibility as they are.
pub proof fn lemma_workspace_switch(state: OverlayState, workspace: u32)
    requires
        workspace != state.current_workspace,
        workspace > 0,
    ensures
        state.after_workspace(Some(workspace)).scroll_offset_y == 0,
        state.after_workspace(Some(workspace)).text_source() == text_log_path(workspace),
        state.after_workspace(Some(workspace)).margin_x == state.margin_x,
        state.after_workspace(Some(workspace)).margin_y == state.margin_y,
        state.after_workspace(Some(workspace)).visible == state.visible,
{
}

/// The margins keep the overlay on the output at every time: a resize, a
/// new size of the output and a new text put them there, and a scroll, an event
/// of a drag and a switch of the workspace leave them there.
pub proof fn lemma_margins_stay_in_bounds(
    state: OverlayState,
    view: ViewEvent,
    drag: DragEvent,
    workspace: Option<u32>,
    output: (i32, i32),
    text: String,
    blocks: Vec<HighlightedBlock>,
)
    requires
        state.margins_in_bounds(),
    ensures
        state.after_view_event(view).margins_in_bounds(),
        state.after_drag_event(drag).margins_in_bounds(),
        state.after_workspace(workspace).margins_in_bounds(),
        state.after_output_mode(output.0, output.1).margins_in_bounds(),
        state.after_text(text, blocks).margins_in_bounds(),
{
}

/// The workspace file that holds the numeral of a workspace names that
/// workspace.
pub proof fn lemma_workspace_file_reads_back(workspace: u32)
    ensures
        workspace_of(decimal(workspace as nat)) == Some(workspace),
{
    let s = decimal(workspace as nat);
    lemma_decimal_digits(workspace as nat);
    lemma_decimal_value(workspace as nat);
    assert(!is_whitespace(s[0]));
    assert(!is_whitespace(s.last()));
    assert(trim_start(s) == s);
    assert(trim_end(s) == s);
    assert(numeral_digits(s, false) == s);
}

} // verus!
