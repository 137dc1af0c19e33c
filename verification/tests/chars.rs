use aerogel::chars::{
    find_text, from_chars, prefix_string, push_decimal, same_text, slice, split_lines,
    stripped_len, to_chars, trim_chars, trimmed_len,
};
use aerogel::numbers::{char_is_digit, parse_i32_chars, parse_u32_chars};

fn chars(s: &str) -> Vec<char> {
    s.chars().collect()
}

#[test]
fn chars_round_trip() {
    for s in ["", "abc", "héllo ∑", "a\nb"] {
        assert_eq!(to_chars(s), chars(s));
        assert_eq!(from_chars(&to_chars(s)), s);
    }
}

#[test]
fn lines_are_those_of_std() {
    let samples = [
        "", "a", "a\n", "a\nb", "a\r\nb\r\n", "\n", "\n\n", "a\r", "a\rb\n", "\r\n", "a\n\nb",
        "a\r\r\nb", "last line\nno newline", "x\n\r\ny",
    ];
    for s in samples {
        let ours: Vec<String> = split_lines(&to_chars(s)).iter().map(|l| from_chars(l)).collect();
        let theirs: Vec<String> = s.lines().map(|l| l.to_string()).collect();
        assert_eq!(ours, theirs, "text {:?}", s);
    }
}

#[test]
fn trailing_line_feed_adds_no_line() {
    assert_eq!(split_lines(&chars("print(1)\n")), vec![chars("print(1)")]);
    assert_eq!(split_lines(&chars("a\n\n")), vec![chars("a"), chars("")]);
}

#[test]
fn trimming_is_that_of_std() {
    let samples = ["", "  ", "a", " a ", "\t a b \n", "\u{a0}x\u{3000}", "x  y", " \r\n12\r\n"];
    for s in samples {
        assert_eq!(from_chars(&trim_chars(&chars(s))), s.trim(), "text {:?}", s);
        let n = trimmed_len(&chars(s));
        assert_eq!(prefix_string(&chars(s), n), s.trim_end(), "text {:?}", s);
    }
}

#[test]
fn stripping_a_run_at_the_end() {
    let v = chars("abc\n\n");
    assert_eq!(stripped_len(&v, v.len(), '\n'), 3);
    let w = chars("abc\r\n");
    let n = stripped_len(&w, w.len(), '\n');
    assert_eq!(n, 4);
    assert_eq!(stripped_len(&w, n, '\r'), 3);
    assert_eq!(stripped_len(&chars("\n\n"), 2, '\n'), 0);
    assert_eq!(stripped_len(&chars("abc"), 3, '\n'), 3);
}

#[test]
fn slices_and_searches() {
    let v = chars("Dragging: x=1, y=2");
    assert_eq!(slice(&v, 0, 8), chars("Dragging"));
    assert_eq!(slice(&v, 3, 3), chars(""));
    assert_eq!(find_text(&v, &chars("x=")), Some(10));
    assert_eq!(find_text(&v, &chars("y=")), Some(15));
    assert_eq!(find_text(&v, &chars("z=")), None);
    assert_eq!(find_text(&v, &chars("")), Some(0));
    assert_eq!(find_text(&chars(""), &chars("")), Some(0));
    assert_eq!(find_text(&chars("ab"), &chars("abc")), None);
    assert_eq!(find_text(&chars("aab"), &chars("ab")), Some(1));
    assert_eq!(find_text(&chars("abab"), &chars("ab")), Some(0));
}

#[test]
fn same_text_compares_characters() {
    assert!(same_text("", ""));
    assert!(same_text("abc", "abc"));
    assert!(!same_text("abc", "abd"));
    assert!(!same_text("abc", "ab"));
    assert!(!same_text("", "a"));
}

#[test]
fn decimal_numerals() {
    for n in [0u64, 1, 9, 10, 11, 99, 100, 12345, 4294967295, u64::MAX] {
        let mut s = String::from("n=");
        push_decimal(&mut s, n);
        assert_eq!(s, format!("n={}", n));
    }
}

#[test]
fn digits_are_ascii_digits() {
    let mut code: u32 = 0;
    while code < 0x3000 {
        if let Some(c) = char::from_u32(code) {
            assert_eq!(char_is_digit(c), c.is_ascii_digit());
        }
        code += 1;
    }
}

#[test]
fn signed_numbers_parse_as_in_std() {
    let samples = [
        "0", "-0", "+5", "-", "+", "", "12a", "2147483647", "2147483648", "-2147483648",
        "-2147483649", "00012", " 1", "1 ", "99999999999999999999", "--1", "+-1", "-12", "1-",
        "٣", "1_000", "0x10", "-00000000000000000000000001",
    ];
    for s in samples {
        assert_eq!(parse_i32_chars(&chars(s)), s.parse::<i32>().ok(), "text {:?}", s);
    }
}

#[test]
fn unsigned_numbers_parse_as_in_std() {
    let samples = [
        "0", "-0", "-1", "+1", "+", "", "7", "4294967295", "4294967296", "0004294967295", "12 ",
        "99999999999999999999999", "1.5",
    ];
    for s in samples {
        assert_eq!(parse_u32_chars(&chars(s)), s.parse::<u32>().ok(), "text {:?}", s);
    }
}
