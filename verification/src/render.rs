//! The block renderer's layout: which pieces of text are drawn, and where.
//! Lengths are in layout units; `y` grows downwards and is the baseline.

use crate::chars::{decimal, push_decimal};
use crate::layout::{
    block_height, blocks_height, visual_line_count, gutter_color, highlighted_views, lemma_clamp_add, max_line_width, max_line_width_of, run_views,
    text_start, text_start_of, HighlightedBlock, HighlightedModel, RunModel, TextRun,
    BLOCK_PADDING, MAX_SCROLL, TEXT_MARGIN, TOP_MARGIN,
};
use crate::metrics::{clamp_u64, measure_text_width, FontMetrics, UNITS_PER_PIXEL};
use crate::style::{line_views, token_views, Rgb, StyledToken, TokenModel};
use crate::wrap::{
    lemma_wrap_keeps_tokens, line_width, range_tokens, token_width, wrap_line_with_syntax,
    wrap_ranges,
};
use vstd::prelude::*;

verus! {

/// The largest distance from the top of the panel at which a block may start.
pub const Y_LIMIT: i64 = 0x100_0000_0000;

/// What has been laid out so far: the runs, and the baseline of the next line.
pub struct RenderState {
    pub runs: Seq<RunModel>,
    pub y: int,
}

/// The colour of line numbers.
pub fn line_number_color() -> (c: Rgb)
    ensures
        c == gutter_color(),
{
    Rgb { r: 128, g: 128, b: 128 }
}

/// The runs of one visual line: one for each token that has text, at `start`
/// plus the width of the tokens before it.
pub open spec fn line_runs(m: FontMetrics, tokens: Seq<TokenModel>, start: nat, y: int) -> Seq<
    RunModel,
>
    decreases tokens.len(),
{
    if tokens.len() == 0 {
        Seq::empty()
    } else {
        let head = line_runs(m, tokens.drop_last(), start, y);
        let t = tokens.last();
        if t.text.len() == 0 {
            head
        } else {
            head.push(
                RunModel {
                    x: clamp_u64(start + line_width(m, tokens.drop_last())),
                    y,
                    color: t.color,
                    text: t.text,
                },
            )
        }
    }
}

/// The state after the visual lines `wrapped` of one source line. A visual
/// line whose baseline is at most `height` is laid out and moves the baseline
/// down by one line height; below `height` nothing is laid out any more.
pub open spec fn render_visual_lines(
    m: FontMetrics,
    start: nat,
    height: int,
    wrapped: Seq<Seq<TokenModel>>,
    st: RenderState,
) -> RenderState
    decreases wrapped.len(),
{
    if wrapped.len() == 0 {
        st
    } else {
        let before = render_visual_lines(m, start, height, wrapped.drop_last(), st);
        if before.y > height {
            before
        } else {
            RenderState {
                runs: before.runs + line_runs(m, wrapped.last(), start, before.y),
                y: before.y + m.line_height(),
            }
        }
    }
}

/// The text in the gutter for line `n`: the number, right-aligned in three
/// columns, and a space.
pub open spec fn gutter_text(n: nat) -> Seq<char> {
    let pad: Seq<char> = if n < 10 {
        seq![' ', ' ']
    } else if n < 100 {
        seq![' ']
    } else {
        Seq::empty()
    };
    (pad + decimal(n)).push(' ')
}

/// The run that draws the number of line `n` at the baseline `y`.
pub open spec fn gutter_run(n: nat, y: int) -> RunModel {
    RunModel { x: TEXT_MARGIN as nat, y, color: gutter_color(), text: gutter_text(n) }
}

/// The state after the source lines `lines` of a block. Once a line other than
/// the first would start more than a line height below `height`, nothing is
/// laid out any more. In a code block a source line that reaches into the
/// panel from above gets its number, beside its first visual line only.
pub open spec fn render_source_lines(
    m: FontMetrics,
    is_code: bool,
    max_width: nat,
    height: int,
    lines: Seq<Seq<TokenModel>>,
    st: RenderState,
) -> RenderState
    decreases lines.len(),
{
    if lines.len() == 0 {
        st
    } else {
        let before = render_source_lines(m, is_code, max_width, height, lines.drop_last(), st);
        let index = lines.len() - 1;
        if index > 0 && before.y > height + m.line_height() {
            before
        } else {
            let numbered = if is_code && before.y + m.line_height() > 0 {
                before.runs.push(gutter_run((index + 1) as nat, before.y))
            } else {
                before.runs
            };
            render_visual_lines(
                m,
                text_start(is_code),
                height,
                wrap_ranges(m, lines.last(), max_width),
                RenderState { runs: numbered, y: before.y },
            )
        }
    }
}

/// The state after one block in a panel of `width` by `height` pixels: the
/// first baseline is one ascent below where the block starts.
pub open spec fn render_block_state(
    m: FontMetrics,
    block: HighlightedModel,
    width: u32,
    height: u32,
    st: RenderState,
) -> RenderState {
    render_source_lines(
        m,
        block.is_code,
        max_line_width(width, block.is_code),
        height * UNITS_PER_PIXEL,
        block.lines,
        RenderState { runs: st.runs, y: st.y + m.ascent },
    )
}

/// The state after `blocks`; here `y` is where the next block starts. A block
/// that would start below `height` is not laid out, nor is any after it; every
/// block that is laid out is followed by the padding.
pub open spec fn render_blocks_state(
    m: FontMetrics,
    blocks: Seq<HighlightedModel>,
    width: u32,
    height: u32,
    st: RenderState,
) -> RenderState
    decreases blocks.len(),
{
    if blocks.len() == 0 {
        st
    } else {
        let before = render_blocks_state(m, blocks.drop_last(), width, height, st);
        if before.y > height * UNITS_PER_PIXEL {
            before
        } else {
            let after = render_block_state(m, blocks.last(), width, height, before);
            RenderState { runs: after.runs, y: after.y + BLOCK_PADDING }
        }
    }
}

/// The runs that show `blocks` scrolled down by `scroll`: the first block
/// starts at the top margin less `scroll`.
pub open spec fn content_runs(
    m: FontMetrics,
    blocks: Seq<HighlightedModel>,
    width: u32,
    height: u32,
    scroll: nat,
) -> Seq<RunModel> {
    render_blocks_state(
        m,
        blocks,
        width,
        height,
        RenderState { runs: Seq::empty(), y: TOP_MARGIN - scroll },
    ).runs
}

/// Appends the runs of one visual line to `runs`.
pub fn render_line(m: &FontMetrics, tokens: &Vec<StyledToken>, start: u64, y: i64, runs: &mut Vec<
    TextRun,
>)
    ensures
        run_views(final(runs)@) == run_views(old(runs)@) + line_runs(
            *m,
            token_views(tokens@),
            start as nat,
            y as int,
        ),
{
    let ghost models = token_views(tokens@);
    let mut x: u64 = start;
    let mut k: usize = 0;
    proof {
        assert(models.take(0) =~= Seq::<TokenModel>::empty());
        assert(run_views(runs@) =~= run_views(old(runs)@) + Seq::<RunModel>::empty());
    }
    while k < tokens.len()
        invariant
            k <= tokens.len(),
            models == token_views(tokens@),
            x == clamp_u64(start as nat + line_width(*m, models.take(k as int))),
            run_views(runs@) == run_views(old(runs)@) + line_runs(
                *m,
                models.take(k as int),
                start as nat,
                y as int,
            ),
        decreases tokens.len() - k,
    {
        let token = &tokens[k];
        proof {
            assert(models.take(k + 1).drop_last() =~= models.take(k as int));
            assert(models.take(k + 1).last() == token@);
            lemma_clamp_add(
                start as nat + line_width(*m, models.take(k as int)),
                token_width(*m, token@),
            );
        }
        if !token.text.as_str().is_empty() {
            let ghost before = run_views(runs@);
            let run = TextRun { x, y, color: token.color, text: token.text.clone() };
            runs.push(run);
            proof {
                assert(run_views(runs@) =~= before.push(run@));
                assert(run_views(runs@) =~= run_views(old(runs)@) + line_runs(
                    *m,
                    models.take(k + 1),
                    start as nat,
                    y as int,
                ));
            }
        }
        let w = measure_text_width(m, token.text.as_str());
        x = x.saturating_add(w);
        k += 1;
    }
    proof {
        assert(models.take(tokens.len() as int) =~= models);
    }
}

/// The text in the gutter for line `n`.
pub fn gutter_label(n: u64) -> (label: String)
    ensures
        label@ == gutter_text(n as nat),
{
    let mut label = String::new();
    if n < 10 {
        label.push(' ');
        label.push(' ');
    } else if n < 100 {
        label.push(' ');
    }
    let ghost pad = label@;
    push_decimal(&mut label, n);
    label.push(' ');
    proof {
        if n < 10 {
            assert(pad =~= seq![' ', ' ']);
        } else if n < 100 {
            assert(pad =~= seq![' ']);
        } else {
            assert(pad =~= Seq::<char>::empty());
        }
    }
    label
}

/// Lays out one block whose top is at `y_cursor`, in a panel of `width` by
/// `height` pixels: appends its runs to `runs` and returns the baseline after
/// its last line.
pub fn render_block(
    m: &FontMetrics,
    block: &HighlightedBlock,
    width: u32,
    height: u32,
    y_cursor: i64,
    runs: &mut Vec<TextRun>,
) -> (y_end: i64)
    requires
        -Y_LIMIT <= y_cursor <= Y_LIMIT,
    ensures
        (RenderState { runs: run_views(final(runs)@), y: y_end as int }) == render_block_state(
            *m,
            block@,
            width,
            height,
            RenderState { runs: run_views(old(runs)@), y: y_cursor as int },
        ),
        y_cursor + m.ascent <= y_end,
        y_end <= y_cursor + m.ascent || y_end <= height * UNITS_PER_PIXEL + m.line_height(),
{
    let max_width = max_line_width_of(width, block.is_code);
    let start = text_start_of(block.is_code);
    let line_height: i64 = m.line_height_units() as i64;
    let limit: i64 = (height as u64 * UNITS_PER_PIXEL) as i64;
    let first: i64 = y_cursor + m.ascent as i64;
    let mut y: i64 = first;
    let mut i: usize = 0;
    let ghost lines = line_views(block.lines@);
    let ghost st0 = RenderState { runs: run_views(old(runs)@), y: first as int };
    proof {
        assert(lines.take(0) =~= Seq::<Seq<TokenModel>>::empty());
    }
    while i < block.lines.len()
        invariant
            i <= block.lines.len(),
            lines == line_views(block.lines@),
            max_width == max_line_width(width, block.is_code),
            start == text_start(block.is_code),
            line_height == m.line_height(),
            limit == height * UNITS_PER_PIXEL,
            -Y_LIMIT <= first <= Y_LIMIT + m.ascent,
            first <= y,
            y <= first || y <= limit + line_height,
            (RenderState { runs: run_views(runs@), y: y as int }) == render_source_lines(
                *m,
                block.is_code,
                max_width as nat,
                limit as int,
                lines.take(i as int),
                st0,
            ),
        decreases block.lines.len() - i,
    {
        proof {
            assert(lines.take(i + 1).drop_last() =~= lines.take(i as int));
            assert(lines.take(i + 1).last() == token_views(block.lines@[i as int]@));
        }
        if !(i > 0 && y > limit + line_height) {
            if block.is_code && y + line_height > 0 {
                let ghost before = run_views(runs@);
                let run = TextRun {
                    x: TEXT_MARGIN,
                    y,
                    color: line_number_color(),
                    text: gutter_label(i as u64 + 1),
                };
                runs.push(run);
                proof {
                    assert(run_views(runs@) =~= before.push(run@));
                }
            }
            let wrapped = wrap_line_with_syntax(&block.lines[i], m, max_width);
            let ghost visual = line_views(wrapped@);
            let ghost st1 = RenderState { runs: run_views(runs@), y: y as int };
            let mut k: usize = 0;
            proof {
                assert(visual.take(0) =~= Seq::<Seq<TokenModel>>::empty());
            }
            while k < wrapped.len()
                invariant
                    k <= wrapped.len(),
                    visual == line_views(wrapped@),
                    line_height == m.line_height(),
                    limit == height * UNITS_PER_PIXEL,
                    -Y_LIMIT <= first <= Y_LIMIT + m.ascent,
                    first <= y,
                    y <= first || y <= limit + line_height,
                    (RenderState { runs: run_views(runs@), y: y as int }) == render_visual_lines(
                        *m,
                        start as nat,
                        limit as int,
                        visual.take(k as int),
                        st1,
                    ),
                decreases wrapped.len() - k,
            {
                proof {
                    assert(visual.take(k + 1).drop_last() =~= visual.take(k as int));
                    assert(visual.take(k + 1).last() == token_views(wrapped@[k as int]@));
                }
                if y <= limit {
                    render_line(m, &wrapped[k], start, y, runs);
                    y = y + line_height;
                }
                k += 1;
            }
            proof {
                assert(visual.take(wrapped.len() as int) =~= visual);
            }
        }
        i += 1;
    }
    proof {
        assert(lines.take(block.lines.len() as int) =~= lines);
    }
    y
}

/// Lays out `blocks` in a panel of `width` by `height` pixels, scrolled down by
/// `scroll`: the runs to draw, in drawing order.
pub fn render_text(
    m: &FontMetrics,
    blocks: &Vec<HighlightedBlock>,
    width: u32,
    height: u32,
    scroll: u64,
) -> (runs: Vec<TextRun>)
    requires
        scroll <= MAX_SCROLL,
    ensures
        run_views(runs@) == content_runs(
            *m,
            highlighted_views(blocks@),
            width,
            height,
            scroll as nat,
        ),
{
    let mut runs: Vec<TextRun> = Vec::new();
    let limit: i64 = (height as u64 * UNITS_PER_PIXEL) as i64;
    let mut y: i64 = TOP_MARGIN as i64 - scroll as i64;
    let mut i: usize = 0;
    let ghost models = highlighted_views(blocks@);
    let ghost st0 = RenderState { runs: Seq::empty(), y: TOP_MARGIN - scroll };
    proof {
        assert(models.take(0) =~= Seq::<HighlightedModel>::empty());
        assert(run_views(runs@) =~= Seq::<RunModel>::empty());
    }
    while i < blocks.len()
        invariant
            i <= blocks.len(),
            models == highlighted_views(blocks@),
            limit == height * UNITS_PER_PIXEL,
            -Y_LIMIT <= y <= Y_LIMIT,
            (RenderState { runs: run_views(runs@), y: y as int }) == render_blocks_state(
                *m,
                models.take(i as int),
                width,
                height,
                st0,
            ),
        decreases blocks.len() - i,
    {
        proof {
            assert(models.take(i + 1).drop_last() =~= models.take(i as int));
            assert(models.take(i + 1).last() == blocks@[i as int]@);
        }
        if y <= limit {
            let y_end = render_block(m, &blocks[i], width, height, y, &mut runs);
            y = y_end + BLOCK_PADDING as i64;
        }
        i += 1;
    }
    proof {
        assert(models.take(blocks.len() as int) =~= models);
    }
    runs
}

/// Visual lines of which the last has its baseline within the panel are all
/// laid out: the baseline moves down by one line height for each of them.
pub proof fn lemma_visual_lines_end(
    m: FontMetrics,
    start: nat,
    height: int,
    wrapped: Seq<Seq<TokenModel>>,
    st: RenderState,
)
    requires
        wrapped.len() == 0 || st.y + m.line_height() * (wrapped.len() - 1) <= height,
    ensures
        render_visual_lines(m, start, height, wrapped, st).y == st.y + m.line_height()
            * wrapped.len(),
    decreases wrapped.len(),
{
    let lh = m.line_height() as int;
    let n = wrapped.len() as int;
    if n > 0 {
        assert(lh * (n - 1) + lh == lh * n) by (nonlinear_arith);
        if n > 1 {
            assert(lh * (n - 2) <= lh * (n - 1)) by (nonlinear_arith)
                requires
                    lh >= 0,
            ;
        }
        lemma_visual_lines_end(m, start, height, wrapped.drop_last(), st);
    } else {
        assert(lh * 0 == 0) by (nonlinear_arith);
    }
}

/// Source lines of which the last visual line has its baseline within the
/// panel are all laid out: the baseline moves down by one line height for
/// each visual line.
pub proof fn lemma_source_lines_end(
    m: FontMetrics,
    is_code: bool,
    max_width: nat,
    height: int,
    lines: Seq<Seq<TokenModel>>,
    st: RenderState,
)
    requires
        visual_line_count(m, lines, max_width) == 0 || st.y + m.line_height() * (
        visual_line_count(m, lines, max_width) - 1) <= height,
    ensures
        render_source_lines(m, is_code, max_width, height, lines, st).y == st.y + m.line_height()
            * visual_line_count(m, lines, max_width),
    decreases lines.len(),
{
    let lh = m.line_height() as int;
    if lines.len() > 0 {
        let head = lines.drop_last();
        let before = render_source_lines(m, is_code, max_width, height, head, st);
        let wrapped = wrap_ranges(m, lines.last(), max_width);
        let c = visual_line_count(m, head, max_width) as int;
        let w = wrapped.len() as int;
        lemma_wrap_keeps_tokens(m, range_tokens(lines.last()), max_width);
        assert(w >= 1);
        assert(visual_line_count(m, lines, max_width) == c + w);
        assert(lh * c <= lh * (c + w - 1)) by (nonlinear_arith)
            requires
                lh >= 0,
                c >= 0,
                w >= 1,
        ;
        if c > 0 {
            assert(lh * (c - 1) <= lh * (c + w - 1)) by (nonlinear_arith)
                requires
                    lh >= 0,
                    w >= 1,
            ;
        }
        lemma_source_lines_end(m, is_code, max_width, height, head, st);
        assert(before.y == st.y + lh * c);
        assert(before.y <= height);
        let numbered = if is_code && before.y + m.line_height() > 0 {
            before.runs.push(gutter_run(lines.len() as nat, before.y))
        } else {
            before.runs
        };
        let inner = RenderState { runs: numbered, y: before.y };
        assert(lh * c + lh * (w - 1) == lh * (c + w - 1)) by (nonlinear_arith);
        assert(lh * c + lh * w == lh * (c + w)) by (nonlinear_arith);
        lemma_visual_lines_end(m, text_start(is_code), height, wrapped, inner);
    } else {
        assert(lh * 0 == 0) by (nonlinear_arith);
    }
}

/// What is drawn is as high as what is measured: a block of which the last
/// visual line has its baseline within the panel ends one block height below
/// where it starts.
pub proof fn lemma_block_ends_at_its_height(
    m: FontMetrics,
    block: HighlightedModel,
    width: u32,
    height: u32,
    st: RenderState,
)
    requires
        visual_line_count(m, block.lines, max_line_width(width, block.is_code)) == 0 || st.y
            + block_height(m, block, width) - m.line_height() <= height * UNITS_PER_PIXEL,
    ensures
        render_block_state(m, block, width, height, st).y == st.y + block_height(m, block, width),
{
    let lh = m.line_height() as int;
    let c = visual_line_count(m, block.lines, max_line_width(width, block.is_code)) as int;
    assert(lh * (c - 1) == lh * c - lh) by (nonlinear_arith);
    lemma_source_lines_end(
        m,
        block.is_code,
        max_line_width(width, block.is_code),
        height * UNITS_PER_PIXEL,
        block.lines,
        RenderState { runs: st.runs, y: st.y + m.ascent },
    );
}

/// Blocks that end within the panel are all laid out, one below the other:
/// after them the next block would start below the first by the height of all
/// of them with their padding.
pub proof fn lemma_blocks_end_at_their_height(
    m: FontMetrics,
    blocks: Seq<HighlightedModel>,
    width: u32,
    height: u32,
    st: RenderState,
)
    requires
        st.y + blocks_height(m, blocks, width) <= height * UNITS_PER_PIXEL,
    ensures
        render_blocks_state(m, blocks, width, height, st).y == st.y + blocks_height(
            m,
            blocks,
            width,
        ),
    decreases blocks.len(),
{
    if blocks.len() > 0 {
        lemma_blocks_end_at_their_height(m, blocks.drop_last(), width, height, st);
        let before = render_blocks_state(m, blocks.drop_last(), width, height, st);
        lemma_block_ends_at_its_height(m, blocks.last(), width, height, before);
    }
}

} // verus!
