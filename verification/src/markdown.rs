//! The markdown segmenter: text becomes an ordered sequence of prose blocks
//! and code blocks.

use crate::chars::{is_blank, lemma_trim_end, prefix_string, trim_end, trimmed_len};
use pulldown_cmark::{CodeBlockKind, Event, Parser, Tag};
use vstd::prelude::*;

verus! {

/// What the segmenter reads of one event of a markdown parse.
#[derive(Debug, Clone, PartialEq, Eq)]
pub enum MdEvent {
    /// A fenced code block starts; the field is the text after the fence.
    FencedCodeStart(String),
    /// An indented code block starts; its text counts as prose.
    IndentedCodeStart,
    /// A code block ends.
    CodeEnd,
    /// A run of text.
    Text(String),
    /// A line break inside a paragraph that does not end the line.
    SoftBreak,
    /// A line break inside a paragraph that ends the line.
    HardBreak,
    /// A paragraph ends.
    ParagraphEnd,
    /// Any other event.
    Other,
}

/// The mathematical value of an [`MdEvent`].
pub enum EventModel {
    FencedCodeStart(Seq<char>),
    IndentedCodeStart,
    CodeEnd,
    Text(Seq<char>),
    SoftBreak,
    HardBreak,
    ParagraphEnd,
    Other,
}

impl View for MdEvent {
    type V = EventModel;

    open spec fn view(&self) -> EventModel {
        match self {
            MdEvent::FencedCodeStart(s) => EventModel::FencedCodeStart(s@),
            MdEvent::IndentedCodeStart => EventModel::IndentedCodeStart,
            MdEvent::CodeEnd => EventModel::CodeEnd,
            MdEvent::Text(s) => EventModel::Text(s@),
            MdEvent::SoftBreak => EventModel::SoftBreak,
            MdEvent::HardBreak => EventModel::HardBreak,
            MdEvent::ParagraphEnd => EventModel::ParagraphEnd,
            MdEvent::Other => EventModel::Other,
        }
    }
}

/// The values of a sequence of events.
pub open spec fn event_views(v: Seq<MdEvent>) -> Seq<EventModel> {
    v.map_values(|e: MdEvent| e@)
}

/// A block of content: code with its language tag, or prose.
#[derive(Debug, Clone, PartialEq, Eq)]
pub enum ContentBlock {
    /// A code block: language tag, then body.
    Code(String, String),
    /// A block of prose.
    Text(String),
}

/// The mathematical value of a [`ContentBlock`].
pub enum BlockModel {
    Code { language: Seq<char>, body: Seq<char> },
    Text { body: Seq<char> },
}

impl View for ContentBlock {
    type V = BlockModel;

    open spec fn view(&self) -> BlockModel {
        match self {
            ContentBlock::Code(language, body) => BlockModel::Code {
                language: language@,
                body: body@,
            },
            ContentBlock::Text(body) => BlockModel::Text { body: body@ },
        }
    }
}

/// The values of a sequence of blocks.
pub open spec fn block_views(v: Seq<ContentBlock>) -> Seq<BlockModel> {
    v.map_values(|b: ContentBlock| b@)
}

/// The language tag of code that names no language.
pub open spec fn plain_language() -> Seq<char> {
    seq!['t', 'x', 't']
}

/// The state of segmenting: the blocks that are complete, the prose and the
/// code gathered since, the language tag of the open code block, and whether a
/// code block is open.
pub struct SegmentState {
    pub blocks: Seq<BlockModel>,
    pub text: Seq<char>,
    pub code: Seq<char>,
    pub language: Seq<char>,
    pub in_code: bool,
}

/// `blocks` and, after them, the gathered prose `text` as a block: none if
/// `text` is empty, `text` itself if it is blank, else `text` without its
/// trailing whitespace.
pub open spec fn flush_text(blocks: Seq<BlockModel>, text: Seq<char>) -> Seq<BlockModel> {
    if text.len() == 0 {
        blocks
    } else if is_blank(text) {
        blocks.push(BlockModel::Text { body: text })
    } else {
        blocks.push(BlockModel::Text { body: trim_end(text) })
    }
}

/// Whether `text` ends in two line feeds.
pub open spec fn ends_paragraph(text: Seq<char>) -> bool {
    text.len() >= 2 && text[text.len() - 1] == '\n' && text[text.len() - 2] == '\n'
}

/// The state after one more event.
pub open spec fn segment_step(st: SegmentState, event: EventModel) -> SegmentState {
    match event {
        EventModel::FencedCodeStart(info) => SegmentState {
            blocks: flush_text(st.blocks, st.text),
            text: Seq::empty(),
            language: if info.len() == 0 {
                plain_language()
            } else {
                info
            },
            in_code: true,
            ..st
        },
        EventModel::IndentedCodeStart => st,
        EventModel::CodeEnd => if st.code.len() > 0 {
            SegmentState {
                blocks: st.blocks.push(BlockModel::Code { language: st.language, body: st.code }),
                code: Seq::empty(),
                in_code: false,
                ..st
            }
        } else {
            SegmentState { in_code: false, ..st }
        },
        EventModel::Text(s) => if st.in_code {
            SegmentState { code: st.code + s, ..st }
        } else {
            SegmentState { text: st.text + s, ..st }
        },
        EventModel::SoftBreak => if st.in_code {
            st
        } else {
            SegmentState { text: st.text.push(' '), ..st }
        },
        EventModel::HardBreak => if st.in_code {
            st
        } else {
            SegmentState { text: st.text.push('\n'), ..st }
        },
        EventModel::ParagraphEnd => if st.in_code || ends_paragraph(st.text) {
            st
        } else {
            SegmentState { text: st.text.push('\n').push('\n'), ..st }
        },
        EventModel::Other => st,
    }
}

/// The state before any event.
pub open spec fn segment_start() -> SegmentState {
    SegmentState {
        blocks: Seq::empty(),
        text: Seq::empty(),
        code: Seq::empty(),
        language: Seq::empty(),
        in_code: false,
    }
}

/// The state after `events`.
pub open spec fn segment_state(events: Seq<EventModel>) -> SegmentState
    decreases events.len(),
{
    if events.len() == 0 {
        segment_start()
    } else {
        segment_step(segment_state(events.drop_last()), events.last())
    }
}

/// The blocks at the end of input: the complete blocks, then the gathered
/// prose, then the body of a code block that was left open.
pub open spec fn segment_finish(st: SegmentState) -> Seq<BlockModel> {
    let blocks = flush_text(st.blocks, st.text);
    if st.in_code && st.code.len() > 0 {
        blocks.push(BlockModel::Code { language: st.language, body: st.code })
    } else {
        blocks
    }
}

/// The blocks of a sequence of events.
pub open spec fn segment(events: Seq<EventModel>) -> Seq<BlockModel> {
    segment_finish(segment_state(events))
}

/// Whether `event` starts a code block: only a fence does.
pub open spec fn starts_code(event: EventModel) -> bool {
    event is FencedCodeStart
}

/// Events without a fence give no code block and at most one block: a prose
/// block that holds all the prose gathered, without its trailing whitespace
/// unless it is blank.
pub proof fn lemma_prose_only(events: Seq<EventModel>)
    requires
        forall|i: int| 0 <= i < events.len() ==> !starts_code(#[trigger] events[i]),
    ensures
        !segment_state(events).in_code,
        segment_state(events).blocks.len() == 0,
        segment(events) == flush_text(Seq::empty(), segment_state(events).text),
        segment(events).len() <= 1,
        segment(events).len() == 1 ==> segment(events)[0] is Text,
        !is_blank(segment_state(events).text) ==> segment(events) == seq![
            BlockModel::Text { body: trim_end(segment_state(events).text) },
        ],
    decreases events.len(),
{
    if events.len() > 0 {
        let before = events.drop_last();
        assert forall|i: int| 0 <= i < before.len() implies !starts_code(#[trigger] before[i]) by {
            assert(before[i] == events[i]);
        }
        lemma_prose_only(before);
        assert(!starts_code(events[events.len() - 1]));
        lemma_code_stays_empty(before);
    }
    let st = segment_state(events);
    assert(st.blocks =~= Seq::<BlockModel>::empty());
    if !is_blank(st.text) {
        assert(st.text.len() > 0);
        assert(flush_text(Seq::empty(), st.text) =~= seq![
            BlockModel::Text { body: trim_end(st.text) },
        ]);
    }
}

/// Outside a code block no code is gathered, and inside one no prose.
pub proof fn lemma_code_stays_empty(events: Seq<EventModel>)
    ensures
        !segment_state(events).in_code ==> segment_state(events).code.len() == 0,
        segment_state(events).in_code ==> segment_state(events).text.len() == 0,
    decreases events.len(),
{
    if events.len() > 0 {
        lemma_code_stays_empty(events.drop_last());
    }
}

/// The events of parsing `text` as markdown, each reduced to what the
/// segmenter reads of it.
pub uninterp spec fn markdown_events(text: Seq<char>) -> Seq<EventModel>;

/// Parses `text` with `pulldown_cmark::Parser::new` and hands out its events
/// in order. Nothing is claimed of the events but that they are those of the
/// parser, which depend on `text` alone.
#[verifier::external_body]
fn parse_events(text: &str) -> (events: Vec<MdEvent>)
    ensures
        event_views(events@) == markdown_events(text@),
{
    Parser::new(text).map(|event| match event {
        Event::Start(Tag::CodeBlock(CodeBlockKind::Fenced(info))) => MdEvent::FencedCodeStart(info.to_string()),
        Event::Start(Tag::CodeBlock(CodeBlockKind::Indented)) => MdEvent::IndentedCodeStart,
        Event::End(Tag::CodeBlock(_)) => MdEvent::CodeEnd,
        Event::End(Tag::Paragraph) => MdEvent::ParagraphEnd,
        Event::Text(s) => MdEvent::Text(s.to_string()),
        Event::SoftBreak => MdEvent::SoftBreak,
        Event::HardBreak => MdEvent::HardBreak,
        _ => MdEvent::Other,
    }).collect()
}

/// Appends the characters of `s` to `v`.
fn append_chars(v: &mut Vec<char>, s: &str)
    ensures
        final(v)@ == old(v)@ + s@,
{
    for c in it: s.chars()
        invariant
            it.seq() == s@,
            v@ == old(v)@ + s@.take(it.index()),
    {
        let ghost before = v@;
        v.push(c);
        proof {
            assert(v@ =~= old(v)@ + s@.take(it.index() + 1));
        }
    }
    proof {
        assert(s@.take(s@.len() as int) =~= s@);
    }
}

/// Appends the gathered prose `text` to `blocks` as a block, if there is any.
fn flush_text_block(blocks: &mut Vec<ContentBlock>, text: &Vec<char>)
    ensures
        block_views(final(blocks)@) == flush_text(block_views(old(blocks)@), text@),
{
    if text.len() > 0 {
        let n = trimmed_len(text);
        proof {
            lemma_trim_end(text@);
        }
        let body = if n == 0 {
            proof {
                assert(text@.take(text.len() as int) =~= text@);
            }
            prefix_string(text, text.len())
        } else {
            prefix_string(text, n)
        };
        let ghost before = block_views(blocks@);
        let block = ContentBlock::Text(body);
        blocks.push(block);
        proof {
            assert(block_views(blocks@) =~= before.push(block@));
        }
    }
}

/// The blocks of a sequence of markdown events.
///
/// Text between a fence and the end of its code block becomes the body of a
/// code block, tagged with the text after the fence, or with `txt` where there
/// is none. All other text is prose, that of an indented code block too: a
/// soft break adds a space to it, a hard
/// break a line feed, the end of a paragraph an empty line. Prose becomes a
/// block when a code block starts and at the end of input; a block of prose
/// loses its trailing whitespace. A code block without a body gives no block;
/// a code block that is still open at the end of input gives its body.
pub fn segment_events(events: &Vec<MdEvent>) -> (blocks: Vec<ContentBlock>)
    ensures
        block_views(blocks@) == segment(event_views(events@)),
{
    let mut blocks: Vec<ContentBlock> = Vec::new();
    let mut text: Vec<char> = Vec::new();
    let mut code: Vec<char> = Vec::new();
    let mut language = String::new();
    let mut in_code = false;
    let mut i: usize = 0;
    proof {
        assert(event_views(events@).take(0) =~= Seq::<EventModel>::empty());
        assert(block_views(blocks@) =~= Seq::<BlockModel>::empty());
    }
    while i < events.len()
        invariant
            i <= events.len(),
            segment_state(event_views(events@).take(i as int)) == (SegmentState {
                blocks: block_views(blocks@),
                text: text@,
                code: code@,
                language: language@,
                in_code,
            }),
        decreases events.len() - i,
    {
        proof {
            assert(event_views(events@).take(i + 1).drop_last() =~= event_views(events@).take(
                i as int,
            ));
            assert(event_views(events@).take(i + 1).last() == events@[i as int]@);
        }
        match &events[i] {
            MdEvent::FencedCodeStart(info) => {
                flush_text_block(&mut blocks, &text);
                text = Vec::new();
                if info.as_str().is_empty() {
                    language = plain_language_tag();
                } else {
                    language = info.clone();
                }
                in_code = true;
            },
            MdEvent::IndentedCodeStart => {},
            MdEvent::CodeEnd => {
                if code.len() > 0 {
                    let ghost before = block_views(blocks@);
                    proof {
                        assert(code@.take(code.len() as int) =~= code@);
                    }
                    let block = ContentBlock::Code(language.clone(), prefix_string(&code, code.len()));
                    blocks.push(block);
                    proof {
                        assert(block_views(blocks@) =~= before.push(block@));
                    }
                    code = Vec::new();
                }
                in_code = false;
            },
            MdEvent::Text(s) => {
                if in_code {
                    append_chars(&mut code, s.as_str());
                } else {
                    append_chars(&mut text, s.as_str());
                }
            },
            MdEvent::SoftBreak => {
                if !in_code {
                    text.push(' ');
                }
            },
            MdEvent::HardBreak => {
                if !in_code {
                    text.push('\n');
                }
            },
            MdEvent::ParagraphEnd => {
                let n = text.len();
                if !in_code && !(n >= 2 && text[n - 1] == '\n' && text[n - 2] == '\n') {
                    text.push('\n');
                    text.push('\n');
                }
            },
            MdEvent::Other => {},
        }
        i += 1;
    }
    proof {
        assert(event_views(events@).take(events.len() as int) =~= event_views(events@));
    }
    flush_text_block(&mut blocks, &text);
    if in_code && code.len() > 0 {
        let ghost before = block_views(blocks@);
        proof {
            assert(code@.take(code.len() as int) =~= code@);
        }
        let block = ContentBlock::Code(language, prefix_string(&code, code.len()));
        blocks.push(block);
        proof {
            assert(block_views(blocks@) =~= before.push(block@));
        }
    }
    blocks
}

/// The language tag `txt`.
pub fn plain_language_tag() -> (tag: String)
    ensures
        tag@ == plain_language(),
{
    let mut tag = String::new();
    tag.push('t');
    tag.push('x');
    tag.push('t');
    proof {
        assert(tag@ =~= plain_language());
    }
    tag
}

/// Splits markdown `text` into its blocks of prose and of code, in order.
pub fn parse_markdown(text: &str) -> (blocks: Vec<ContentBlock>)
    ensures
        block_views(blocks@) == segment(markdown_events(text@)),
{
    let events = parse_events(text);
    segment_events(&events)
}

} // verus!
