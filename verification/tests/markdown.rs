use aerogel::markdown::{parse_markdown, plain_language_tag, segment_events, ContentBlock, MdEvent};

fn text(s: &str) -> ContentBlock {
    ContentBlock::Text(s.to_string())
}

fn code(lang: &str, body: &str) -> ContentBlock {
    ContentBlock::Code(lang.to_string(), body.to_string())
}

fn t(s: &str) -> MdEvent {
    MdEvent::Text(s.to_string())
}

#[test]
fn prose_code_prose() {
    let blocks = parse_markdown("a\n```py\nprint(1)\n```\nb");
    assert_eq!(blocks, vec![text("a"), code("py", "print(1)\n"), text("b")]);
}

#[test]
fn text_without_fences_is_one_block() {
    assert_eq!(parse_markdown("hello world"), vec![text("hello world")]);
    assert_eq!(parse_markdown("  hello world  \n"), vec![text("hello world")]);
    assert_eq!(parse_markdown("first\n\nsecond"), vec![text("first\n\nsecond")]);
}

#[test]
fn empty_text_has_no_blocks() {
    assert_eq!(parse_markdown(""), Vec::<ContentBlock>::new());
    assert_eq!(parse_markdown("  \n \n"), Vec::<ContentBlock>::new());
}

#[test]
fn unterminated_fence_keeps_its_body() {
    let blocks = parse_markdown("```rs\nlet x = 1;\nlet y = 2;");
    assert_eq!(blocks.len(), 1);
    match &blocks[0] {
        ContentBlock::Code(lang, body) => {
            assert_eq!(lang, "rs");
            assert_eq!(body.trim_end(), "let x = 1;\nlet y = 2;");
        }
        other => panic!("not a code block: {:?}", other),
    }
}

#[test]
fn fence_without_language_is_plain_text() {
    assert_eq!(parse_markdown("```\ncode\n```"), vec![code("txt", "code\n")]);
    assert_eq!(plain_language_tag(), "txt");
}

#[test]
fn indented_code_is_prose() {
    assert_eq!(parse_markdown("    code\n"), vec![text("code")]);
    assert_eq!(parse_markdown("para\n\n    indented\n\nmore"), vec![text("para\n\nindented\nmore")]);
    let events = vec![t("a"), MdEvent::ParagraphEnd, MdEvent::IndentedCodeStart, t("b\n"), MdEvent::CodeEnd];
    assert_eq!(segment_events(&events), vec![text("a\n\nb")]);
}

#[test]
fn code_keeps_its_inner_line_feeds_and_spaces() {
    let blocks = parse_markdown("```c\nint a;\n\n  int b;  \n```\n");
    assert_eq!(blocks, vec![code("c", "int a;\n\n  int b;  \n")]);
}

#[test]
fn soft_break_is_a_space_and_hard_break_a_line_feed() {
    assert_eq!(parse_markdown("a\nb"), vec![text("a b")]);
    assert_eq!(parse_markdown("a  \nb"), vec![text("a\nb")]);
}

#[test]
fn two_code_blocks_in_order() {
    let blocks = parse_markdown("```a\n1\n```\nmid\n```b\n2\n```\n");
    assert_eq!(blocks, vec![code("a", "1\n"), text("mid"), code("b", "2\n")]);
}

#[test]
fn events_without_code_give_one_trimmed_block() {
    let events = vec![t("one"), MdEvent::SoftBreak, t("two"), MdEvent::ParagraphEnd];
    assert_eq!(segment_events(&events), vec![text("one two")]);
    assert_eq!(segment_events(&vec![]), Vec::<ContentBlock>::new());
    assert_eq!(segment_events(&vec![MdEvent::Other, MdEvent::CodeEnd]), Vec::<ContentBlock>::new());
}

#[test]
fn paragraph_end_adds_one_empty_line_only() {
    let events = vec![t("a"), MdEvent::ParagraphEnd, MdEvent::ParagraphEnd, t("b")];
    assert_eq!(segment_events(&events), vec![text("a\n\nb")]);
}

#[test]
fn blank_prose_is_kept_as_it_is() {
    let events = vec![MdEvent::SoftBreak, MdEvent::FencedCodeStart("x".to_string()), t("c"), MdEvent::CodeEnd];
    assert_eq!(segment_events(&events), vec![text(" "), code("x", "c")]);
}

#[test]
fn breaks_inside_code_add_nothing() {
    let events = vec![
        MdEvent::FencedCodeStart(String::new()),
        t("a"),
        MdEvent::SoftBreak,
        MdEvent::HardBreak,
        MdEvent::ParagraphEnd,
        t("b"),
        MdEvent::CodeEnd,
    ];
    assert_eq!(segment_events(&events), vec![code("txt", "ab")]);
}

#[test]
fn open_code_block_is_flushed_at_the_end() {
    let events = vec![t("p"), MdEvent::FencedCodeStart("py".to_string()), t("x = 1\n")];
    assert_eq!(segment_events(&events), vec![text("p"), code("py", "x = 1\n")]);
}

#[test]
fn code_block_without_body_gives_no_block() {
    let events = vec![MdEvent::FencedCodeStart("py".to_string()), MdEvent::CodeEnd, t("after")];
    assert_eq!(segment_events(&events), vec![text("after")]);
}
