//! Block layout: how tall the content is, and where each piece of text is
//! drawn. Lengths are in layout units unless a name says pixels.

use crate::metrics::{clamp_u64, FontMetrics, UNITS_PER_PIXEL};
use crate::style::{line_views, token_views, Rgb, StyledToken, TokenModel};
use crate::wrap::{wrap_line_with_syntax, wrap_ranges};
use vstd::prelude::*;

verus! {

/// Space above the first block.
pub const TOP_MARGIN: u64 = 40 * 64;

/// Space after each block.
pub const BLOCK_PADDING: u64 = 15 * 64;

/// Space below the last block.
pub const BOTTOM_MARGIN: u64 = 20 * 64;

/// Space left and right of the text.
pub const TEXT_MARGIN: u64 = 18 * 64;

/// Width of the gutter that holds the line numbers of a code block.
pub const GUTTER_WIDTH: u64 = 40 * 64;

/// The largest scroll offset that the layout accepts.
pub const MAX_SCROLL: u64 = 0xFFFF_FFFF * 64;

/// The colour of line numbers.
pub open spec fn gutter_color() -> Rgb {
    Rgb { r: 128, g: 128, b: 128 }
}

/// A block whose lines are highlighted: each source line is a sequence of
/// styled ranges.
#[derive(Debug, Clone, PartialEq, Eq)]
pub struct HighlightedBlock {
    pub is_code: bool,
    pub lines: Vec<Vec<StyledToken>>,
}

/// The mathematical value of a [`HighlightedBlock`].
pub struct HighlightedModel {
    pub is_code: bool,
    pub lines: Seq<Seq<TokenModel>>,
}

impl View for HighlightedBlock {
    type V = HighlightedModel;

    open spec fn view(&self) -> HighlightedModel {
        HighlightedModel { is_code: self.is_code, lines: line_views(self.lines@) }
    }
}

/// The values of a sequence of highlighted blocks.
pub open spec fn highlighted_views(v: Seq<HighlightedBlock>) -> Seq<HighlightedModel> {
    v.map_values(|b: HighlightedBlock| b@)
}

/// One piece of text to draw: where its baseline starts, its colour, its text.
#[derive(Debug, Clone, PartialEq, Eq)]
pub struct TextRun {
    pub x: u64,
    pub y: i64,
    pub color: Rgb,
    pub text: String,
}

/// The mathematical value of a [`TextRun`].
pub struct RunModel {
    pub x: nat,
    pub y: int,
    pub color: Rgb,
    pub text: Seq<char>,
}

impl View for TextRun {
    type V = RunModel;

    open spec fn view(&self) -> RunModel {
        RunModel { x: self.x as nat, y: self.y as int, color: self.color, text: self.text@ }
    }
}

/// The values of a sequence of runs.
pub open spec fn run_views(v: Seq<TextRun>) -> Seq<RunModel> {
    v.map_values(|r: TextRun| r@)
}

/// Where the text of a block starts: after the margin and, in a code block,
/// after the gutter.
pub open spec fn text_start(is_code: bool) -> nat {
    if is_code {
        (TEXT_MARGIN + GUTTER_WIDTH) as nat
    } else {
        TEXT_MARGIN as nat
    }
}

/// The width that a line of a block may take in a panel `width` pixels wide:
/// what is left between the start of the text and the right margin.
pub open spec fn max_line_width(width: u32, is_code: bool) -> nat {
    let left = width * UNITS_PER_PIXEL - text_start(is_code) - TEXT_MARGIN;
    if left > 0 {
        left as nat
    } else {
        0
    }
}

/// The number of visual lines that the source lines `lines` wrap to.
pub open spec fn visual_line_count(m: FontMetrics, lines: Seq<Seq<TokenModel>>, max_width: nat) -> nat
    decreases lines.len(),
{
    if lines.len() == 0 {
        0
    } else {
        visual_line_count(m, lines.drop_last(), max_width) + wrap_ranges(
            m,
            lines.last(),
            max_width,
        ).len()
    }
}

/// The height of a block: the ascent, and one line height for each visual
/// line.
pub open spec fn block_height(m: FontMetrics, block: HighlightedModel, width: u32) -> nat {
    m.ascent as nat + m.line_height() * visual_line_count(
        m,
        block.lines,
        max_line_width(width, block.is_code),
    )
}

/// The height of `blocks` one below the other, each followed by the padding.
pub open spec fn blocks_height(m: FontMetrics, blocks: Seq<HighlightedModel>, width: u32) -> nat
    decreases blocks.len(),
{
    if blocks.len() == 0 {
        0
    } else {
        blocks_height(m, blocks.drop_last(), width) + block_height(m, blocks.last(), width)
            + BLOCK_PADDING as nat
    }
}

/// The height of the whole content, with the margins above and below.
pub open spec fn content_height(m: FontMetrics, blocks: Seq<HighlightedModel>, width: u32) -> nat {
    TOP_MARGIN as nat + blocks_height(m, blocks, width) + BOTTOM_MARGIN as nat
}

/// The number of whole pixels that cover `units`.
pub open spec fn pixels_up(units: nat) -> nat {
    (units + 63) / 64
}

/// The height of the content in pixels, capped at the largest `u32`.
pub open spec fn text_height(m: FontMetrics, blocks: Seq<HighlightedModel>, width: u32) -> nat {
    let px = pixels_up(clamp_u64(content_height(m, blocks, width)));
    if px > u32::MAX {
        u32::MAX as nat
    } else {
        px
    }
}

/// Capping a sum is capping the sum of a capped part.
pub proof fn lemma_clamp_add(a: nat, b: nat)
    ensures
        clamp_u64(clamp_u64(a) + b) == clamp_u64(a + b),
{
}

/// Where the text of a block starts.
pub fn text_start_of(is_code: bool) -> (x: u64)
    ensures
        x == text_start(is_code),
{
    if is_code {
        TEXT_MARGIN + GUTTER_WIDTH
    } else {
        TEXT_MARGIN
    }
}

/// The width that a line of a block may take in a panel `width` pixels wide.
pub fn max_line_width_of(width: u32, is_code: bool) -> (w: u64)
    ensures
        w == max_line_width(width, is_code),
{
    let total: u64 = width as u64 * UNITS_PER_PIXEL;
    let used: u64 = text_start_of(is_code) + TEXT_MARGIN;
    if total > used {
        total - used
    } else {
        0
    }
}

/// The height of one block in a panel `width` pixels wide, capped at the
/// largest `u64`.
pub fn calculate_block_height(m: &FontMetrics, block: &HighlightedBlock, width: u32) -> (h: u64)
    ensures
        h == clamp_u64(block_height(*m, block@, width)),
{
    let max_width = max_line_width_of(width, block.is_code);
    let line_height = m.line_height_units();
    let mut h: u64 = m.ascent as u64;
    let mut i: usize = 0;
    let ghost lines = line_views(block.lines@);
    proof {
        assert(lines.take(0) =~= Seq::<Seq<TokenModel>>::empty());
        assert(visual_line_count(*m, lines.take(0), max_width as nat) == 0);
        assert(m.line_height() * 0 == 0) by (nonlinear_arith);
    }
    while i < block.lines.len()
        invariant
            i <= block.lines.len(),
            lines == line_views(block.lines@),
            line_height == m.line_height(),
            max_width == max_line_width(width, block.is_code),
            h == clamp_u64(
                m.ascent as nat + m.line_height() * visual_line_count(
                    *m,
                    lines.take(i as int),
                    max_width as nat,
                ),
            ),
        decreases block.lines.len() - i,
    {
        let wrapped = wrap_line_with_syntax(&block.lines[i], m, max_width);
        let ghost count_before = visual_line_count(*m, lines.take(i as int), max_width as nat);
        proof {
            assert(lines.take(i + 1).drop_last() =~= lines.take(i as int));
            assert(lines.take(i + 1).last() == token_views(block.lines@[i as int]@));
            assert(wrapped.len() == wrap_ranges(*m, lines[i as int], max_width as nat).len());
        }
        let mut k: usize = 0;
        while k < wrapped.len()
            invariant
                k <= wrapped.len(),
                line_height == m.line_height(),
                h == clamp_u64(m.ascent as nat + m.line_height() * (count_before + k as nat)),
            decreases wrapped.len() - k,
        {
            proof {
                let lh = m.line_height();
                let n: nat = count_before + k as nat;
                assert(lh * (n + 1) == lh * n + lh) by (nonlinear_arith);
                lemma_clamp_add(m.ascent as nat + lh * n, lh);
            }
            h = h.saturating_add(line_height);
            k += 1;
        }
        i += 1;
    }
    proof {
        assert(lines.take(block.lines.len() as int) =~= lines);
    }
    h
}

/// The height in pixels of `blocks` in a panel `width` pixels wide: the top
/// margin, each block and its padding, and the bottom margin, rounded up to
/// whole pixels. The result depends on the metrics, the blocks and the width
/// alone, so the same content measures the same every time.
pub fn measure_content_height(m: &FontMetrics, blocks: &Vec<HighlightedBlock>, width: u32) -> (h:
    u32)
    ensures
        h == text_height(*m, highlighted_views(blocks@), width),
{
    let ghost models = highlighted_views(blocks@);
    let mut total: u64 = 0;
    let mut i: usize = 0;
    proof {
        assert(models.take(0) =~= Seq::<HighlightedModel>::empty());
    }
    while i < blocks.len()
        invariant
            i <= blocks.len(),
            models == highlighted_views(blocks@),
            total == clamp_u64(blocks_height(*m, models.take(i as int), width)),
        decreases blocks.len() - i,
    {
        let bh = calculate_block_height(m, &blocks[i], width);
        proof {
            assert(models.take(i + 1).drop_last() =~= models.take(i as int));
            assert(models.take(i + 1).last() == blocks@[i as int]@);
            let before = blocks_height(*m, models.take(i as int), width);
            let b = block_height(*m, blocks@[i as int]@, width);
            lemma_clamp_add(before, b);
            lemma_clamp_add(b, before);
            lemma_clamp_add(before + b, BLOCK_PADDING as nat);
        }
        total = total.saturating_add(bh).saturating_add(BLOCK_PADDING);
        i += 1;
    }
    proof {
        assert(models.take(blocks.len() as int) =~= models);
        let inner = blocks_height(*m, models, width);
        lemma_clamp_add(inner, TOP_MARGIN as nat);
        lemma_clamp_add(inner + TOP_MARGIN as nat, BOTTOM_MARGIN as nat);
    }
    let units = total.saturating_add(TOP_MARGIN).saturating_add(BOTTOM_MARGIN);
    let px: u64 = units / 64 + if units % 64 == 0 {
        0
    } else {
        1
    };
    if px > u32::MAX as u64 {
        u32::MAX
    } else {
        px as u32
    }
}

} // verus!
