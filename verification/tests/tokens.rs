use aerogel::chars::char_is_whitespace;
use aerogel::tokens::split_segment_into_tokens;

fn strings(v: &[&str]) -> Vec<String> {
    v.iter().map(|s| s.to_string()).collect()
}

#[test]
fn tokens_of_indented_call() {
    let tokens = split_segment_into_tokens("  fn main() ");
    assert_eq!(tokens, strings(&["  ", "fn", " ", "main()", " "]));
}

#[test]
fn tokens_of_empty_text() {
    assert_eq!(split_segment_into_tokens(""), Vec::<String>::new());
}

#[test]
fn tokens_of_single_word() {
    assert_eq!(split_segment_into_tokens("word"), strings(&["word"]));
}

#[test]
fn tokens_of_whitespace_only() {
    assert_eq!(split_segment_into_tokens(" \t "), strings(&[" \t "]));
}

#[test]
fn tokens_keep_mixed_whitespace_together() {
    let tokens = split_segment_into_tokens("a \t\u{a0}b\u{3000}");
    assert_eq!(tokens, strings(&["a", " \t\u{a0}", "b", "\u{3000}"]));
}

#[test]
fn tokens_joined_are_the_text() {
    let samples = [
        "let x = 1;",
        "   leading",
        "trailing   ",
        "a\tb\tc",
        "héllo wörld ∑ x",
        "one",
        " ",
        "",
    ];
    for s in samples {
        let tokens = split_segment_into_tokens(s);
        assert_eq!(tokens.concat(), s);
        for t in &tokens {
            assert!(!t.is_empty());
            let first = t.chars().next().unwrap().is_whitespace();
            assert!(t.chars().all(|c| c.is_whitespace() == first));
        }
        for pair in tokens.windows(2) {
            let a = pair[0].chars().next().unwrap().is_whitespace();
            let b = pair[1].chars().next().unwrap().is_whitespace();
            assert_ne!(a, b);
        }
    }
}

#[test]
fn whitespace_class_is_that_of_unicode() {
    let mut code: u32 = 0;
    while code <= 0x10FFFF {
        if let Some(c) = char::from_u32(code) {
            assert_eq!(char_is_whitespace(c), c.is_whitespace(), "code point {:x}", code);
        }
        code += 1;
    }
}
