use aerogel::content::{calculate_text_height, highlight_blocks, load_content};
use aerogel::highlight::{choose_grammar, line_ranges, HighlightError, Highlighter};
use aerogel::layout::measure_content_height;
use aerogel::markdown::ContentBlock;
use aerogel::metrics::FontMetrics;
use aerogel::style::{Rgb, StyledToken};

fn chars(s: &str) -> Vec<char> {
    s.chars().collect()
}

fn joined(ranges: &Vec<StyledToken>) -> String {
    ranges.iter().map(|r| r.text.as_str()).collect()
}

fn mono() -> FontMetrics {
    FontMetrics::new(12 * 64, 4 * 64, 0, 10 * 64)
}

#[test]
fn ranges_of_a_line_are_the_line_and_its_line_feed() {
    let h = Highlighter::load_defaults().unwrap();
    let lines = vec![chars("fn main() {"), chars("    let x = \"s\"; // c"), chars(""), chars("}")];
    let ranges = h.highlight_lines("rs", &lines).unwrap();
    assert_eq!(ranges.len(), 4);
    for (line, r) in lines.iter().zip(ranges.iter()) {
        let expected: String = line.iter().collect::<String>() + "\n";
        assert_eq!(joined(r), expected);
        assert!(r.iter().all(|t| !t.text.is_empty()));
    }
}

#[test]
fn code_is_coloured_and_plain_text_is_not() {
    let h = Highlighter::load_defaults().unwrap();
    let lines = vec![chars("let x = \"text\"; // note")];
    let rust = h.highlight_lines("rs", &lines).unwrap();
    let mut colours: Vec<(u8, u8, u8)> = rust[0].iter().map(|t| (t.color.r, t.color.g, t.color.b)).collect();
    colours.sort();
    colours.dedup();
    assert!(colours.len() > 1);
    let plain = h.highlight_lines("txt", &lines).unwrap();
    assert_eq!(plain[0].len(), 1);
    assert_eq!(plain[0][0].text, "let x = \"text\"; // note\n");
}

#[test]
fn unknown_language_falls_back_to_plain_text() {
    let h = Highlighter::load_defaults().unwrap();
    let lines = vec![chars("let x = 1;")];
    let unknown = h.highlight_lines("no-such-language", &lines).unwrap();
    let plain = h.highlight_lines("txt", &lines).unwrap();
    assert_eq!(unknown, plain);
    let empty = h.highlight_lines("", &lines).unwrap();
    assert_eq!(empty, plain);
}

#[test]
fn no_lines_give_no_ranges() {
    let h = Highlighter::load_defaults().unwrap();
    assert_eq!(h.highlight_lines("rs", &vec![]).unwrap(), Vec::<Vec<StyledToken>>::new());
}

#[test]
fn blocks_are_highlighted_line_by_line() {
    let h = Highlighter::load_defaults().unwrap();
    let blocks = vec![
        ContentBlock::Text("some prose\nmore".to_string()),
        ContentBlock::Code("py".to_string(), "print(1)\n\nx = 2\n".to_string()),
    ];
    let highlighted = highlight_blocks(&h, &blocks).unwrap();
    assert_eq!(highlighted.len(), 2);
    assert!(!highlighted[0].is_code);
    assert!(highlighted[1].is_code);
    assert_eq!(highlighted[0].lines.len(), 2);
    assert_eq!(highlighted[1].lines.len(), 3);
    assert_eq!(joined(&highlighted[0].lines[1]), "more\n");
    assert_eq!(joined(&highlighted[1].lines[0]), "print(1)\n");
    assert_eq!(joined(&highlighted[1].lines[1]), "\n");
    assert_eq!(highlighted[0].lines[0].len(), 1);
}

#[test]
fn text_height_is_the_same_every_time() {
    let h = Highlighter::load_defaults().unwrap();
    let m = mono();
    let text = "# Title\n\nSome prose that is long enough to wrap in a narrow panel.\n\n```rs\nfn main() {\n    println!(\"hi\");\n}\n```\n";
    let first = calculate_text_height(&m, text, &h, 300).unwrap();
    let second = calculate_text_height(&m, text, &h, 300).unwrap();
    assert_eq!(first, second);
    let blocks = load_content(&h, text).unwrap();
    assert_eq!(first, measure_content_height(&m, &blocks, 300));
    assert!(first > calculate_text_height(&m, text, &h, 600).unwrap());
}

#[test]
fn text_height_of_code_and_prose() {
    let h = Highlighter::load_defaults().unwrap();
    let m = mono();
    assert_eq!(calculate_text_height(&m, "", &h, 600), Ok(60));
    assert_eq!(calculate_text_height(&m, "hello", &h, 600), Ok(103));
    // 40 + (12 + 16) + 15 + (12 + 2 * 16) + 15 + 20
    assert_eq!(calculate_text_height(&m, "a\n```py\nprint(1)\nprint(2)\n```\n", &h, 600), Ok(162));
}

#[test]
fn grammar_falls_back_to_plain_text() {
    let set = syntect::parsing::SyntaxSet::load_defaults_newlines();
    let rust = set.find_syntax_by_token("rs");
    let plain = set.find_syntax_by_name("Plain Text");
    assert!(rust.is_some() && plain.is_some());
    assert_eq!(choose_grammar(rust, plain).unwrap().name, "Rust");
    assert_eq!(choose_grammar(rust, None).unwrap().name, "Rust");
    assert_eq!(choose_grammar(None, plain).unwrap().name, "Plain Text");
    assert_eq!(choose_grammar(None, None).err(), Some(HighlightError::NoPlainText));
}

#[test]
fn failure_of_the_highlighter_is_passed_on() {
    let ranges = vec![StyledToken::new(Rgb { r: 1, g: 2, b: 3 }, "x".to_string())];
    assert_eq!(line_ranges(Ok(ranges.clone())), Ok(ranges));
    assert_eq!(
        line_ranges(Err(syntect::Error::Fmt(std::fmt::Error))),
        Err(HighlightError::Failed)
    );
}

#[test]
fn default_highlighter_is_always_there() {
    assert!(Highlighter::load_defaults().is_some());
    let shipped: Vec<String> =
        syntect::highlighting::ThemeSet::load_defaults().themes.keys().cloned().collect();
    let mut listed = vec![
        "base16-ocean.dark",
        "base16-eighties.dark",
        "base16-mocha.dark",
        "base16-ocean.light",
        "InspiredGitHub",
        "Solarized (dark)",
        "Solarized (light)",
    ];
    listed.sort();
    assert_eq!(shipped, listed);
}
