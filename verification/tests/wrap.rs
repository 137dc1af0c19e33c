use aerogel::layout::max_line_width_of;
use aerogel::metrics::{measure_text_width, FontMetrics};
use aerogel::style::{Rgb, StyledToken};
use aerogel::wrap::{tokenize_ranges, wrap_line_with_syntax, wrap_tokens_greedy};

const RED: Rgb = Rgb { r: 255, g: 0, b: 0 };
const BLUE: Rgb = Rgb { r: 0, g: 0, b: 255 };

fn mono() -> FontMetrics {
    FontMetrics::new(12 * 64, 4 * 64, 0, 10 * 64)
}

fn tok(color: Rgb, s: &str) -> StyledToken {
    StyledToken::new(color, s.to_string())
}

fn texts(lines: &Vec<Vec<StyledToken>>) -> Vec<Vec<String>> {
    lines.iter().map(|l| l.iter().map(|t| t.text.clone()).collect()).collect()
}

fn width(m: &FontMetrics, line: &Vec<StyledToken>) -> u64 {
    line.iter().map(|t| measure_text_width(m, &t.text)).sum()
}

#[test]
fn measuring_sums_advance_widths() {
    let mut m = mono();
    assert_eq!(measure_text_width(&m, ""), 0);
    assert_eq!(measure_text_width(&m, "abcd"), 4 * 640);
    m.set_advance('i', 200);
    m.set_advance('w', 900);
    assert_eq!(m.advance_of('i'), 200);
    assert_eq!(m.advance_of('x'), 640);
    assert_eq!(measure_text_width(&m, "wix"), 900 + 200 + 640);
    assert_eq!(m.line_height_units(), 16 * 64);
}

#[test]
fn measuring_is_capped() {
    let m = FontMetrics::new(0, 0, 0, u32::MAX);
    let long: String = std::iter::repeat('a').take(5).collect();
    assert_eq!(measure_text_width(&m, &long), 5 * (u32::MAX as u64));
}

#[test]
fn ranges_become_tokens_with_their_colour() {
    let ranges = vec![tok(RED, "fn "), tok(BLUE, "main()  {\n")];
    let tokens = tokenize_ranges(&ranges);
    assert_eq!(
        tokens,
        vec![tok(RED, "fn"), tok(RED, " "), tok(BLUE, "main()"), tok(BLUE, "  "), tok(BLUE, "{")]
    );
}

#[test]
fn line_ends_are_stripped_before_tokenizing() {
    assert_eq!(tokenize_ranges(&vec![tok(RED, "a\r\n")]), vec![tok(RED, "a")]);
    assert_eq!(tokenize_ranges(&vec![tok(RED, "a\n\n")]), vec![tok(RED, "a")]);
    assert_eq!(tokenize_ranges(&vec![tok(RED, "\n")]), vec![]);
    assert_eq!(tokenize_ranges(&vec![tok(RED, "a\n\r")]), vec![tok(RED, "a"), tok(RED, "\n")]);
}

#[test]
fn empty_line_wraps_to_one_empty_line() {
    let m = mono();
    assert_eq!(wrap_line_with_syntax(&vec![], &m, 1000), vec![Vec::<StyledToken>::new()]);
    assert_eq!(wrap_line_with_syntax(&vec![tok(RED, "\n")], &m, 1000), vec![Vec::<StyledToken>::new()]);
    assert_eq!(wrap_tokens_greedy(&vec![], &m, 0), vec![Vec::<StyledToken>::new()]);
}

#[test]
fn line_that_fits_is_one_line() {
    let m = mono();
    let lines = wrap_line_with_syntax(&vec![tok(RED, "ab cd\n")], &m, 5 * 640);
    assert_eq!(texts(&lines), vec![vec!["ab", " ", "cd"]]);
}

#[test]
fn overflow_closes_the_line_even_on_whitespace() {
    let m = mono();
    let lines = wrap_line_with_syntax(&vec![tok(RED, "ab cd ef\n")], &m, 3 * 640);
    assert_eq!(texts(&lines), vec![vec!["ab", " "], vec!["cd", " "], vec!["ef"]]);
}

#[test]
fn too_wide_token_has_its_own_line() {
    let m = mono();
    let lines = wrap_line_with_syntax(&vec![tok(RED, "a verylongtoken b\n")], &m, 4 * 640);
    assert_eq!(texts(&lines), vec![vec!["a", " "], vec!["verylongtoken"], vec![" ", "b"]]);
}

#[test]
fn zero_width_wraps_every_token() {
    let m = mono();
    let lines = wrap_line_with_syntax(&vec![tok(RED, "a b\n")], &m, 0);
    assert_eq!(texts(&lines), vec![vec!["a"], vec![" "], vec!["b"]]);
}

#[test]
fn wrapped_lines_fit_or_hold_one_token() {
    let m = mono();
    let text = "the quick brown fox jumps over the lazy dog and keeps running through the field";
    for max in [0u64, 640, 3200, 6400, 12800, 64000] {
        let ranges = vec![tok(RED, text)];
        let lines = wrap_line_with_syntax(&ranges, &m, max);
        let mut joined = String::new();
        for line in &lines {
            assert!(!line.is_empty());
            assert!(width(&m, line) <= max || line.len() == 1, "max {}", max);
            for t in line {
                joined.push_str(&t.text);
            }
        }
        assert_eq!(joined, text);
    }
}

#[test]
fn forty_characters_fit_a_panel_of_600_and_eighty_do_not() {
    let m = mono();
    let max = max_line_width_of(600, true);
    assert_eq!(max, (600 - 18 - 40 - 18) * 64);
    let forty = "aaaa bbbb cccc dddd eeee ffff gggg hhhh ";
    assert_eq!(forty.chars().count(), 40);
    assert!(40 * 640 < max);
    let one = wrap_line_with_syntax(&vec![tok(RED, forty)], &m, max);
    assert_eq!(one.len(), 1);
    let eighty = format!("{}{}", forty, forty);
    let two = wrap_line_with_syntax(&vec![tok(RED, &eighty)], &m, max);
    assert_eq!(two.len(), 2);
    assert_eq!(width(&m, &two[0]), 50 * 640);
    assert_eq!(width(&m, &two[1]), 30 * 640);
}

#[test]
fn width_of_text_in_prose_and_in_code() {
    assert_eq!(max_line_width_of(600, false), (600 - 36) * 64);
    assert_eq!(max_line_width_of(36, false), 0);
    assert_eq!(max_line_width_of(10, true), 0);
    assert_eq!(max_line_width_of(77, true), 64);
}

#[test]
fn too_wide_token_is_alone_even_after_a_token_without_width() {
    let mut m = mono();
    m.set_advance('\u{200b}', 0);
    let ranges = vec![
        tok(RED, "\u{200b}"),
        tok(BLUE, "verylongtoken"),
        tok(RED, "\u{200b}"),
        tok(RED, "a"),
    ];
    let lines = wrap_line_with_syntax(&ranges, &m, 4 * 640);
    assert_eq!(
        texts(&lines),
        vec![vec!["\u{200b}"], vec!["verylongtoken"], vec!["\u{200b}", "a"]]
    );
    for line in &lines {
        assert!(width(&m, line) <= 4 * 640 || line.len() == 1);
    }
    let fitting = wrap_tokens_greedy(&vec![tok(RED, "\u{200b}"), tok(BLUE, "abcd")], &m, 4 * 640);
    assert_eq!(texts(&fitting), vec![vec!["\u{200b}", "abcd"]]);
}
