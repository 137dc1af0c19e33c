//! The composition of one frame: the panel's fill, the workspace chip, and the
//! runs of text to draw over them.

use crate::buffer::{
    panel_alpha, shape_alpha, transparent, PixelBuffer, MAX_BUFFER_BYTES, SHAPE_LIMIT,
};
use crate::chars::{decimal, push_decimal};
use crate::layout::{highlighted_views, run_views, HighlightedBlock, RunModel, TextRun, MAX_SCROLL};
use crate::metrics::{measure_text_width, measured_width, FontMetrics};
use crate::pixel::{filled, tinted, Pixel, Tint};
use crate::render::{content_runs, render_text};
use crate::style::Rgb;
use vstd::prelude::*;

verus! {

/// Distance in pixels of the chip from the left and the top of the panel.
pub const CHIP_OFFSET: u32 = 10;

/// Space left and right of the chip's label.
pub const CHIP_SIDE_PADDING: u64 = 8 * 64;

/// Space that the chip adds to the height of its label.
pub const CHIP_EXTRA_HEIGHT: u64 = 10 * 64;

/// Radius of the chip's corners.
pub const CHIP_RADIUS: u32 = 6 * 64;

/// How much darker than the panel's fill the chip is, per channel.
pub const CHIP_SHADE: u8 = 15;

/// The colour of the chip's label.
pub open spec fn chip_label_color() -> Rgb {
    Rgb { r: 230, g: 220, b: 220 }
}

/// The colour of the chip: the tint, darker by `CHIP_SHADE` in each channel,
/// but not below 0.
pub open spec fn chip_color(tint: Tint) -> Rgb {
    Rgb {
        r: if tint.red >= CHIP_SHADE {
            (tint.red - CHIP_SHADE) as u8
        } else {
            0
        },
        g: if tint.green >= CHIP_SHADE {
            (tint.green - CHIP_SHADE) as u8
        } else {
            0
        },
        b: if tint.blue >= CHIP_SHADE {
            (tint.blue - CHIP_SHADE) as u8
        } else {
            0
        },
    }
}

/// The width of the chip for workspace `workspace`: the width of its label and
/// the padding on both sides, capped at `SHAPE_LIMIT`.
pub open spec fn chip_width(chip_metrics: FontMetrics, workspace: u32) -> nat {
    let w = measured_width(chip_metrics, decimal(workspace as nat)) + 2 * CHIP_SIDE_PADDING;
    if w > SHAPE_LIMIT {
        SHAPE_LIMIT as nat
    } else {
        w as nat
    }
}

/// The height of the chip: the height of its label's font and the extra.
pub open spec fn chip_height(chip_metrics: FontMetrics) -> nat {
    (chip_metrics.ascent + chip_metrics.descent + CHIP_EXTRA_HEIGHT) as nat
}

/// The run that draws the chip's label: it starts after the chip's side
/// padding and is centred in the chip's height.
pub open spec fn chip_label(chip_metrics: FontMetrics, workspace: u32) -> RunModel {
    RunModel {
        x: (CHIP_OFFSET * 64 + CHIP_SIDE_PADDING) as nat,
        y: CHIP_OFFSET * 64 + CHIP_EXTRA_HEIGHT / 2 + chip_metrics.ascent,
        color: chip_label_color(),
        text: decimal(workspace as nat),
    }
}

/// The opacity of the chip for workspace `workspace` at the pixel with the
/// index `j` of a buffer `width` pixels wide.
pub open spec fn chip_alpha(j: int, width: nat, chip_metrics: FontMetrics, workspace: u32) -> int {
    shape_alpha(
        j,
        width,
        CHIP_OFFSET,
        CHIP_OFFSET,
        chip_width(chip_metrics, workspace) as u64,
        chip_height(chip_metrics) as u64,
        CHIP_RADIUS,
    )
}

/// The pixel with the index `j` of a frame before any text is drawn: the
/// panel's fill over nothing, and the chip over that.
pub open spec fn frame_pixel(
    j: int,
    width: nat,
    height: nat,
    radius: u32,
    tint: Tint,
    chip_metrics: FontMetrics,
    workspace: u32,
) -> Pixel {
    tinted(
        filled(transparent(), panel_alpha(j, width, height, radius), tint),
        chip_alpha(j, width, chip_metrics, workspace),
        chip_color(tint),
    )
}

/// What is drawn over the fill and the chip: the chip's label, and the runs of
/// the content. The label does not add to the alpha of the pixels it covers;
/// the runs of the content do.
#[derive(Debug, Clone, PartialEq, Eq)]
pub struct Overlay {
    pub label: TextRun,
    pub runs: Vec<TextRun>,
}

/// Paints the chip that shows the number of the workspace, at the top left of
/// the panel, and returns the run that draws its label. Scrolling does not
/// move the chip.
pub fn draw_workspace_indicator(
    buffer: &mut PixelBuffer,
    chip_metrics: &FontMetrics,
    current_workspace: u32,
    tint: Tint,
) -> (label: TextRun)
    requires
        old(buffer).wf(),
    ensures
        final(buffer).wf(),
        final(buffer)@.width == old(buffer)@.width,
        final(buffer)@.height == old(buffer)@.height,
        final(buffer)@.pixels.len() == old(buffer)@.pixels.len(),
        forall|j: int|
            0 <= j < old(buffer)@.pixels.len() ==> #[trigger] final(buffer)@.pixels[j] == tinted(
                old(buffer)@.pixels[j],
                chip_alpha(j, old(buffer)@.width, *chip_metrics, current_workspace),
                chip_color(tint),
            ),
        label@ == chip_label(*chip_metrics, current_workspace),
{
    let color = Rgb {
        r: tint.red.saturating_sub(CHIP_SHADE),
        g: tint.green.saturating_sub(CHIP_SHADE),
        b: tint.blue.saturating_sub(CHIP_SHADE),
    };
    let mut text = String::new();
    push_decimal(&mut text, current_workspace as u64);
    proof {
        assert(text@ =~= decimal(current_workspace as nat));
    }
    let text_width = measure_text_width(chip_metrics, text.as_str());
    let padded = text_width.saturating_add(2 * CHIP_SIDE_PADDING);
    let width = if padded > SHAPE_LIMIT {
        SHAPE_LIMIT
    } else {
        padded
    };
    let height: u64 = chip_metrics.ascent as u64 + chip_metrics.descent as u64 + CHIP_EXTRA_HEIGHT;
    buffer.paint_shape(CHIP_OFFSET, CHIP_OFFSET, width, height, CHIP_RADIUS, color);
    TextRun {
        x: CHIP_OFFSET as u64 * 64 + CHIP_SIDE_PADDING,
        y: (CHIP_OFFSET as u64 * 64 + CHIP_EXTRA_HEIGHT / 2 + chip_metrics.ascent as u64) as i64,
        color: Rgb { r: 230, g: 220, b: 220 },
        text,
    }
}

/// Composes one frame into `buffer`: clears it, fills the panel, paints the
/// chip, and lays out `blocks` scrolled down by `scroll`. Returns what is left
/// to draw as text.
pub fn draw_content_to_buffer(
    buffer: &mut PixelBuffer,
    border_radius: u32,
    tint: Tint,
    metrics: &FontMetrics,
    chip_metrics: &FontMetrics,
    blocks: &Vec<HighlightedBlock>,
    scroll: u64,
    current_workspace: u32,
) -> (overlay: Overlay)
    requires
        old(buffer).wf(),
        scroll <= MAX_SCROLL,
    ensures
        final(buffer).wf(),
        final(buffer)@.width == old(buffer)@.width,
        final(buffer)@.height == old(buffer)@.height,
        final(buffer)@.pixels.len() == old(buffer)@.pixels.len(),
        forall|j: int|
            0 <= j < old(buffer)@.pixels.len() ==> #[trigger] final(buffer)@.pixels[j]
                == frame_pixel(
                j,
                old(buffer)@.width,
                old(buffer)@.height,
                border_radius,
                tint,
                *chip_metrics,
                current_workspace,
            ),
        overlay.label@ == chip_label(*chip_metrics, current_workspace),
        run_views(overlay.runs@) == content_runs(
            *metrics,
            highlighted_views(blocks@),
            old(buffer)@.width as u32,
            old(buffer)@.height as u32,
            scroll as nat,
        ),
{
    buffer.clear();
    let ghost cleared = buffer@;
    buffer.paint_background(border_radius, tint);
    let ghost filled_in = buffer@;
    let label = draw_workspace_indicator(buffer, chip_metrics, current_workspace, tint);
    proof {
        assert forall|j: int| 0 <= j < old(buffer)@.pixels.len() implies #[trigger] buffer@.pixels[j]
            == frame_pixel(
            j,
            old(buffer)@.width,
            old(buffer)@.height,
            border_radius,
            tint,
            *chip_metrics,
            current_workspace,
        ) by {
            assert(cleared.pixels[j] == transparent());
            assert(filled_in.pixels[j] == filled(
                cleared.pixels[j],
                panel_alpha(j, old(buffer)@.width, old(buffer)@.height, border_radius),
                tint,
            ));
        }
    }
    let width = buffer.width();
    let height = buffer.height();
    let runs = render_text(metrics, blocks, width, height, scroll);
    Overlay { label, runs }
}

/// A new buffer of `width` by `height` pixels that holds a composed frame, and
/// what is left to draw as text; `None` where a buffer of that size cannot be
/// had, and then nothing is drawn.
pub fn create_frame(
    width: u32,
    height: u32,
    border_radius: u32,
    tint: Tint,
    metrics: &FontMetrics,
    chip_metrics: &FontMetrics,
    blocks: &Vec<HighlightedBlock>,
    scroll: u64,
    current_workspace: u32,
) -> (frame: Option<(PixelBuffer, Overlay)>)
    requires
        scroll <= MAX_SCROLL,
    ensures
        frame is None <==> width * height * 4 > MAX_BUFFER_BYTES,
        frame matches Some((buffer, overlay)) ==> {
            &&& buffer.wf()
            &&& buffer@.width == width
            &&& buffer@.height == height
            &&& buffer@.pixels.len() == width * height
            &&& forall|j: int|
                0 <= j < width * height ==> #[trigger] buffer@.pixels[j] == frame_pixel(
                    j,
                    width as nat,
                    height as nat,
                    border_radius,
                    tint,
                    *chip_metrics,
                    current_workspace,
                )
            &&& overlay.label@ == chip_label(*chip_metrics, current_workspace)
            &&& run_views(overlay.runs@) == content_runs(
                *metrics,
                highlighted_views(blocks@),
                width,
                height,
                scroll as nat,
            )
        },
{
    match PixelBuffer::new(width, height) {
        None => None,
        Some(mut buffer) => {
            let overlay = draw_content_to_buffer(
                &mut buffer,
                border_radius,
                tint,
                metrics,
                chip_metrics,
                blocks,
                scroll,
                current_workspace,
            );
            Some((buffer, overlay))
        },
    }
}

} // verus!
