use aerogel::layout::{
    calculate_block_height, measure_content_height, text_start_of, HighlightedBlock, TextRun,
};
use aerogel::metrics::FontMetrics;
use aerogel::render::{gutter_label, line_number_color, render_block, render_line, render_text};
use aerogel::style::{Rgb, StyledToken};

const INK: Rgb = Rgb { r: 1, g: 2, b: 3 };
const PX: u64 = 64;

fn mono() -> FontMetrics {
    FontMetrics::new(12 * 64, 4 * 64, 0, 10 * 64)
}

fn tok(s: &str) -> StyledToken {
    StyledToken::new(INK, s.to_string())
}

fn block(is_code: bool, lines: &[&str]) -> HighlightedBlock {
    HighlightedBlock {
        is_code,
        lines: lines.iter().map(|l| vec![tok(&format!("{}\n", l))]).collect(),
    }
}

fn run(x: u64, y: i64, color: Rgb, text: &str) -> TextRun {
    TextRun { x, y, color, text: text.to_string() }
}

#[test]
fn height_of_nothing_is_the_margins() {
    assert_eq!(measure_content_height(&mono(), &vec![], 600), 60);
}

#[test]
fn height_of_one_line_of_prose() {
    let m = mono();
    let b = block(false, &["hello"]);
    assert_eq!(calculate_block_height(&m, &b, 600), (12 + 16) * PX);
    assert_eq!(measure_content_height(&m, &vec![b], 600), 40 + 28 + 15 + 20);
}

#[test]
fn height_counts_wrapped_lines() {
    let m = mono();
    // 564 pixels hold 56 characters: the line of 80 wraps once.
    let forty = "aaaa bbbb cccc dddd eeee ffff gggg hhhh ";
    let b = block(false, &[&format!("{}{}", forty, forty), "", "end"]);
    assert_eq!(calculate_block_height(&m, &b, 600), (12 + 16 * 4) * PX);
    let c = block(true, &["x", "y"]);
    assert_eq!(calculate_block_height(&m, &c, 600), (12 + 16 * 2) * PX);
    assert_eq!(measure_content_height(&m, &vec![b, c], 600), 40 + 76 + 15 + 44 + 15 + 20);
}

#[test]
fn height_of_a_block_without_lines_is_the_ascent() {
    let m = mono();
    let b = HighlightedBlock { is_code: false, lines: vec![] };
    assert_eq!(calculate_block_height(&m, &b, 600), 12 * PX);
}

#[test]
fn height_rounds_up_to_whole_pixels() {
    let m = FontMetrics::new(12 * 64 + 1, 4 * 64, 0, 640);
    let b = block(false, &["a"]);
    // 40 + (12 + 1/64) + (16 + 1/64) + 15 + 20 pixels
    assert_eq!(measure_content_height(&m, &vec![b], 600), 104);
}

#[test]
fn height_is_capped() {
    let m = FontMetrics::new(u32::MAX, u32::MAX, u32::MAX, 640);
    let lines: Vec<&str> = std::iter::repeat("x").take(40).collect();
    let b = block(false, &lines);
    assert_eq!(measure_content_height(&m, &vec![b], 600), u32::MAX);
}

#[test]
fn height_is_the_same_every_time() {
    let m = mono();
    let blocks = vec![block(false, &["some prose", "more"]), block(true, &["let x = 1;"])];
    let first = measure_content_height(&m, &blocks, 300);
    let second = measure_content_height(&m, &blocks, 300);
    assert_eq!(first, second);
}

#[test]
fn start_of_text() {
    assert_eq!(text_start_of(false), 18 * PX);
    assert_eq!(text_start_of(true), 58 * PX);
}

#[test]
fn gutter_labels_are_right_aligned() {
    assert_eq!(gutter_label(1), "  1 ");
    assert_eq!(gutter_label(10), " 10 ");
    assert_eq!(gutter_label(99), " 99 ");
    assert_eq!(gutter_label(100), "100 ");
    assert_eq!(gutter_label(1234), "1234 ");
    assert_eq!(line_number_color(), Rgb { r: 128, g: 128, b: 128 });
}

#[test]
fn runs_of_one_line_advance_by_token_width() {
    let m = mono();
    let mut runs = Vec::new();
    render_line(&m, &vec![tok("hi"), tok(" "), tok(""), tok("there")], 100, 7, &mut runs);
    assert_eq!(runs, vec![run(100, 7, INK, "hi"), run(1380, 7, INK, " "), run(2020, 7, INK, "there")]);
}

#[test]
fn prose_block_is_laid_out_line_by_line() {
    let m = mono();
    let b = block(false, &["ab cd", "ef"]);
    let mut runs = Vec::new();
    let y_end = render_block(&m, &b, 600, 400, 40 * 64, &mut runs);
    let y0 = (40 + 12) * 64;
    let y1 = y0 + 16 * 64;
    assert_eq!(
        runs,
        vec![
            run(18 * PX, y0, INK, "ab"),
            run(38 * PX, y0, INK, " "),
            run(48 * PX, y0, INK, "cd"),
            run(18 * PX, y1, INK, "ef"),
        ]
    );
    assert_eq!(y_end, y1 + 16 * 64);
}

#[test]
fn code_block_numbers_source_lines_once() {
    let m = mono();
    let grey = line_number_color();
    // 100 pixels leave 24 for code: two characters a line.
    let b = block(true, &["ab cd", "e"]);
    let mut runs = Vec::new();
    let y_end = render_block(&m, &b, 100, 400, 0, &mut runs);
    let lh = 16 * 64;
    let y0 = 12 * 64;
    assert_eq!(
        runs,
        vec![
            run(18 * PX, y0, grey, "  1 "),
            run(58 * PX, y0, INK, "ab"),
            run(58 * PX, y0 + lh, INK, " "),
            run(58 * PX, y0 + 2 * lh, INK, "cd"),
            run(18 * PX, y0 + 3 * lh, grey, "  2 "),
            run(58 * PX, y0 + 3 * lh, INK, "e"),
        ]
    );
    assert_eq!(y_end, y0 + 4 * lh);
}

#[test]
fn lines_below_the_panel_are_not_laid_out() {
    let m = mono();
    let b = block(false, &["a", "b", "c", "d", "e", "f"]);
    let mut runs = Vec::new();
    // Baselines at 12, 28, 44 pixels; the panel is 30 pixels high.
    let y_end = render_block(&m, &b, 600, 30, 0, &mut runs);
    assert_eq!(runs.len(), 2);
    assert_eq!(runs[1], run(18 * PX, 28 * 64, INK, "b"));
    assert_eq!(y_end, 44 * 64);
}

#[test]
fn lines_above_the_panel_get_no_number() {
    let m = mono();
    let grey = line_number_color();
    let b = block(true, &["a", "b", "c"]);
    let mut runs = Vec::new();
    // Baselines at -20, -4 and 12 pixels.
    render_block(&m, &b, 600, 400, -32 * 64, &mut runs);
    assert_eq!(
        runs,
        vec![
            run(58 * PX, -20 * 64, INK, "a"),
            run(18 * PX, -4 * 64, grey, "  2 "),
            run(58 * PX, -4 * 64, INK, "b"),
            run(18 * PX, 12 * 64, grey, "  3 "),
            run(58 * PX, 12 * 64, INK, "c"),
        ]
    );
}

#[test]
fn content_starts_below_the_top_margin_less_the_scroll() {
    let m = mono();
    let blocks = vec![block(false, &["a"]), block(false, &["b"])];
    let runs = render_text(&m, &blocks, 600, 400, 0);
    let first = (40 + 12) * 64;
    // The second block starts one line and the padding below the first baseline.
    let second = first + (16 + 15 + 12) * 64;
    assert_eq!(runs, vec![run(18 * PX, first, INK, "a"), run(18 * PX, second, INK, "b")]);
    let scrolled = render_text(&m, &blocks, 600, 400, 10 * 64 + 32);
    assert_eq!(
        scrolled,
        vec![run(18 * PX, first - 672, INK, "a"), run(18 * PX, second - 672, INK, "b")]
    );
}

#[test]
fn blocks_below_the_panel_are_skipped() {
    let m = mono();
    let blocks = vec![block(false, &["a"]), block(false, &["b"]), block(false, &["c"])];
    // The second block starts at 83 pixels, with its baseline at 95; the third
    // would start at 126.
    let runs = render_text(&m, &blocks, 600, 60, 0);
    assert_eq!(runs.len(), 1);
    let still_one = render_text(&m, &blocks, 600, 94, 0);
    assert_eq!(still_one.len(), 1);
    let two = render_text(&m, &blocks, 600, 95, 0);
    assert_eq!(two.len(), 2);
    let all = render_text(&m, &blocks, 600, 200, 0);
    assert_eq!(all.len(), 3);
}
