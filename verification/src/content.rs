//! From text to laid-out content: segmenting, highlighting and measuring in
//! one go.

use crate::chars::{lines_of, split_lines, to_chars};
use crate::highlight::{
    is_split_of_prefix, join_ranges, joined, lemma_joined_split, range_texts, HighlightError,
    Highlighter,
};
use crate::layout::{
    highlighted_views, measure_content_height, text_height, HighlightedBlock,
};
use crate::markdown::{
    block_views, markdown_events, parse_markdown, plain_language, plain_language_tag, segment,
    BlockModel, ContentBlock,
};
use crate::metrics::FontMetrics;
use crate::style::StyledToken;
use vstd::prelude::*;

verus! {

/// The language that a block is highlighted in: its tag if it is code, plain
/// text if it is prose.
pub open spec fn block_language(block: BlockModel) -> Seq<char> {
    match block {
        BlockModel::Code { language, body } => language,
        BlockModel::Text { body } => plain_language(),
    }
}

/// The text of a block.
pub open spec fn block_body(block: BlockModel) -> Seq<char> {
    match block {
        BlockModel::Code { language, body } => body,
        BlockModel::Text { body } => body,
    }
}

/// Whether `highlighted` is a highlighting of `block`: it is code exactly if
/// the block is, it has the block's lines in order, and the ranges of each
/// line are non-empty and, joined, are the beginning of that line and its line
/// feed. A line of prose is a single run of one colour, so it has one range at
/// most.
pub open spec fn highlights(highlighted: HighlightedBlock, block: BlockModel) -> bool {
    &&& highlighted.is_code == (block is Code)
    &&& highlighted.lines@.len() == lines_of(block_body(block)).len()
    &&& forall|k: int|
        0 <= k < highlighted.lines@.len() ==> is_split_of_prefix(
            range_texts((#[trigger] highlighted.lines@[k])@),
            lines_of(block_body(block))[k].push('\n'),
        )
    &&& !highlighted.is_code ==> forall|k: int|
        0 <= k < highlighted.lines@.len() ==> (#[trigger] highlighted.lines@[k])@.len() <= 1
}

/// Each line of prose as a single run in the colour of its first range.
pub fn join_prose_lines(lines: &Vec<Vec<StyledToken>>) -> (runs: Vec<Vec<StyledToken>>)
    ensures
        runs.len() == lines.len(),
        forall|k: int|
            0 <= k < runs.len() ==> range_texts((#[trigger] runs[k])@) == joined(
                range_texts(lines[k]@),
            ) && runs[k]@.len() <= 1 && (runs[k]@.len() == 1 ==> runs[k]@[0].color
                == lines[k]@[0].color),
{
    let mut runs: Vec<Vec<StyledToken>> = Vec::new();
    let mut i: usize = 0;
    while i < lines.len()
        invariant
            i <= lines.len(),
            runs.len() == i,
            forall|k: int|
                0 <= k < runs.len() ==> range_texts((#[trigger] runs[k])@) == joined(
                    range_texts(lines[k]@),
                ) && runs[k]@.len() <= 1 && (runs[k]@.len() == 1 ==> runs[k]@[0].color
                    == lines[k]@[0].color),
        decreases lines.len() - i,
    {
        runs.push(join_ranges(&lines[i]));
        i += 1;
    }
    runs
}

/// Whether `highlighted` holds a highlighting of each of `blocks`, in order.
pub open spec fn highlights_all(highlighted: Seq<HighlightedBlock>, blocks: Seq<BlockModel>) -> bool {
    &&& highlighted.len() == blocks.len()
    &&& forall|i: int| 0 <= i < highlighted.len() ==> highlights(#[trigger] highlighted[i], blocks[i])
}

/// Highlights each of `blocks`: code in the language of its tag, prose as
/// plain text, each line of it a single run. Fails where the highlighter fails
/// on a block, and only there.
pub fn highlight_blocks(highlighter: &Highlighter, blocks: &Vec<ContentBlock>) -> (highlighted:
    Result<Vec<HighlightedBlock>, HighlightError>)
    ensures
        blocks.len() == 0 ==> highlighted is Ok,
        highlighted matches Ok(v) ==> highlights_all(v@, block_views(blocks@)),
{
    let mut all: Vec<HighlightedBlock> = Vec::new();
    let mut i: usize = 0;
    while i < blocks.len()
        invariant
            i <= blocks.len(),
            all.len() == i,
            forall|k: int| 0 <= k < i ==> highlights(#[trigger] all@[k], block_views(blocks@)[k]),
        decreases blocks.len() - i,
    {
        let (lines, is_code) = match &blocks[i] {
            ContentBlock::Code(language, body) => {
                let source = split_lines(&to_chars(body.as_str()));
                (highlighter.highlight_lines(language.as_str(), &source), true)
            },
            ContentBlock::Text(body) => {
                let source = split_lines(&to_chars(body.as_str()));
                let language = plain_language_tag();
                (highlighter.highlight_lines(language.as_str(), &source), false)
            },
        };
        match lines {
            Ok(ranges) => {
                let lines = if is_code {
                    ranges
                } else {
                    let runs = join_prose_lines(&ranges);
                    proof {
                        assert forall|k: int| 0 <= k < runs.len() implies is_split_of_prefix(
                            range_texts((#[trigger] runs[k])@),
                            lines_of(block_body(blocks@[i as int]@))[k].push('\n'),
                        ) by {
                            lemma_joined_split(
                                range_texts(ranges[k]@),
                                lines_of(block_body(blocks@[i as int]@))[k].push('\n'),
                            );
                        }
                    }
                    runs
                };
                let block = HighlightedBlock { is_code, lines };
                proof {
                    assert(highlights(block, blocks@[i as int]@));
                }
                all.push(block);
            },
            Err(e) => {
                return Err(e);
            },
        }
        i += 1;
    }
    Ok(all)
}

/// Segments `text` into blocks and highlights them.
pub fn load_content(highlighter: &Highlighter, text: &str) -> (highlighted: Result<
    Vec<HighlightedBlock>,
    HighlightError,
>)
    ensures
        segment(markdown_events(text@)).len() == 0 ==> highlighted is Ok,
        highlighted matches Ok(v) ==> highlights_all(v@, segment(markdown_events(text@))),
{
    let blocks = parse_markdown(text);
    highlight_blocks(highlighter, &blocks)
}

/// The height in pixels that `text` takes in a panel `width` pixels wide: the
/// measured height of a highlighting of its blocks.
pub fn calculate_text_height(
    m: &FontMetrics,
    text: &str,
    highlighter: &Highlighter,
    width: u32,
) -> (height: Result<u32, HighlightError>)
    ensures
        segment(markdown_events(text@)).len() == 0 ==> height is Ok,
        height matches Ok(h) ==> exists|v: Seq<HighlightedBlock>|
            highlights_all(v, segment(markdown_events(text@))) && h == text_height(
                *m,
                highlighted_views(v),
                width,
            ),
{
    match load_content(highlighter, text) {
        Ok(blocks) => {
            let h = measure_content_height(m, &blocks, width);
            proof {
                assert(highlights_all(blocks@, segment(markdown_events(text@))) && h == text_height(
                    *m,
                    highlighted_views(blocks@),
                    width,
                ));
            }
            Ok(h)
        },
        Err(e) => Err(e),
    }
}

} // verus!
