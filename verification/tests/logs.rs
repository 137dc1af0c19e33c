use aerogel::keys::{
    canonicalize_keybinding, get_canonical_modifier, get_default_text, get_key_hash_map,
    get_text_log_output_path, Keybindings,
};
use aerogel::margin_log::{format_margin_line, load_margins_from_log, MarginLog};
use aerogel::fonts::font_candidates;
use aerogel::prompt::{fits_base64, AttachedFile, Media, PromptData};
use aerogel::sorting::{join_parts, sort_parts, split_parts, text_le};

fn chars(s: &str) -> Vec<char> {
    s.chars().collect()
}

fn log(margins: Option<(i32, i32)>, last_line: &str) -> MarginLog {
    MarginLog { margins, last_line: last_line.to_string() }
}

#[test]
fn last_position_of_the_log_counts() {
    let content = "Dragging: x=12, y=34\nDragging: x=56, y=78\n";
    assert_eq!(load_margins_from_log(content), log(Some((56, 78)), "Dragging: x=56, y=78"));
}

#[test]
fn empty_log_has_no_margins() {
    assert_eq!(load_margins_from_log(""), log(None, ""));
    assert_eq!(load_margins_from_log("x=1, y=2\nsomething else\n"), log(None, ""));
}

#[test]
fn malformed_entries_are_passed_over_one_by_one() {
    let content = "Dragging: x=12, y=34\nDragging: x=abc, y=7\nnoise\nDragging: x=5 y=oops\n";
    assert_eq!(load_margins_from_log(content), log(Some((12, 34)), "Dragging: x=12, y=34"));
    assert_eq!(load_margins_from_log("Dragging: x=1,\n"), log(None, ""));
    assert_eq!(load_margins_from_log("Dragging: y=1\n"), log(None, ""));
}

#[test]
fn margins_of_different_entries_are_not_mixed() {
    let content = "Dragging: x=5, y=bad\nnoise\nDragging: x=bad, y=9\n";
    assert_eq!(load_margins_from_log(content), log(None, ""));
    let later = "Dragging: x=5, y=bad\nDragging: x=1, y=2\nDragging: x=bad, y=9\n";
    assert_eq!(load_margins_from_log(later), log(Some((1, 2)), "Dragging: x=1, y=2"));
}

#[test]
fn fields_may_have_whitespace_and_a_tail() {
    assert_eq!(load_margins_from_log("Dragging: x= 12 , y= 34px \r\n").margins, Some((12, 34)));
    assert_eq!(load_margins_from_log("Dragging: x=-5, y=-6").margins, Some((-5, -6)));
    assert_eq!(load_margins_from_log("Dragging: x=+5, y=+6;;").margins, Some((5, 6)));
    assert_eq!(load_margins_from_log("Dragging: x=1, y=2-").margins, None);
    assert_eq!(load_margins_from_log("Dragging: x=2147483648, y=2").margins, None);
    assert_eq!(load_margins_from_log("  Dragging: y=9, x=8, z").margins, None);
    assert_eq!(load_margins_from_log("  Dragging: x=8, z, y=9").margins, Some((8, 9)));
}

#[test]
fn margin_line_round_trip() {
    assert_eq!(format_margin_line(12, -34), "Dragging: x=12, y=-34");
    assert_eq!(format_margin_line(0, 0), "Dragging: x=0, y=0");
    let values = [0, 1, -1, 20, 1320, i32::MAX, i32::MIN];
    for x in values {
        for y in values {
            let line = format_margin_line(x, y);
            assert_eq!(line, format!("Dragging: x={}, y={}", x, y));
            assert_eq!(load_margins_from_log(&format!("{}\n", line)), log(Some((x, y)), &line));
        }
    }
}

fn reference_canonical(kb_string: &str) -> String {
    if !kb_string.contains('+') {
        return kb_string.to_string();
    }
    let mut parts: Vec<&str> = kb_string.split('+').collect();
    let final_key = parts.pop().unwrap_or("");
    parts.sort_unstable();
    parts.push(final_key);
    parts.join("+")
}

#[test]
fn key_bindings_in_canonical_form() {
    assert_eq!(canonicalize_keybinding("Ctrl+Alt+s"), "Alt+Ctrl+s");
    assert_eq!(canonicalize_keybinding("s"), "s");
    assert_eq!(canonicalize_keybinding("Shift+Ctrl+Alt+Enter"), "Alt+Ctrl+Shift+Enter");
    assert_eq!(canonicalize_keybinding("b+a+c"), "a+b+c");
    assert_eq!(canonicalize_keybinding("z+a"), "z+a");
    let samples = [
        "", "+", "a+", "+a", "++", "Ctrl+Shift+a", "ctrl+Ctrl+CTRL+x", "b+a+b+a+k", "é+z+a+ü",
        "Alt+Alt+Alt", "Super+Shift+Ctrl+Alt+[Space]", "ab+a+abc+b",
    ];
    for s in samples {
        assert_eq!(canonicalize_keybinding(s), reference_canonical(s), "binding {:?}", s);
    }
}

#[test]
fn parts_split_sort_and_join() {
    assert_eq!(split_parts(&chars("a+b++c"), '+'), vec![chars("a"), chars("b"), chars(""), chars("c")]);
    assert_eq!(split_parts(&chars(""), '+'), vec![chars("")]);
    assert_eq!(join_parts(&vec![chars("a"), chars(""), chars("c")], '+'), chars("a++c"));
    assert_eq!(join_parts(&vec![], '+'), chars(""));
    assert_eq!(
        sort_parts(vec![chars("b"), chars("ab"), chars(""), chars("a"), chars("B"), chars("ab")]),
        vec![chars(""), chars("B"), chars("a"), chars("ab"), chars("ab"), chars("b")]
    );
    assert!(text_le(&chars(""), &chars("")));
    assert!(text_le(&chars("a"), &chars("ab")));
    assert!(!text_le(&chars("ab"), &chars("a")));
    assert!(text_le(&chars("Z"), &chars("a")));
    assert!(text_le(&chars("z"), &chars("é")));
}

#[test]
fn modifiers() {
    assert_eq!(get_canonical_modifier("[CtrlL]"), "Ctrl");
    assert_eq!(get_canonical_modifier("[CtrlR]"), "Ctrl");
    assert_eq!(get_canonical_modifier("[AltL]"), "Alt");
    assert_eq!(get_canonical_modifier("[AltR]"), "Alt");
    assert_eq!(get_canonical_modifier("[ShiftL]"), "Shift");
    assert_eq!(get_canonical_modifier("[ShiftR]"), "Shift");
    assert_eq!(get_canonical_modifier("[SuperL]"), "Super");
    assert_eq!(get_canonical_modifier("[SuperR]"), "");
    assert_eq!(get_canonical_modifier("[ctrll]"), "");
    assert_eq!(get_canonical_modifier(""), "");
    assert_eq!(get_canonical_modifier("a"), "");
}

#[test]
fn text_files_of_workspaces() {
    assert_eq!(get_text_log_output_path(1), ".tmp1");
    assert_eq!(get_text_log_output_path(0), ".tmp0");
    assert_eq!(get_text_log_output_path(10), ".tmp10");
    assert_eq!(get_text_log_output_path(u32::MAX), ".tmp4294967295");
}

#[test]
fn help_text_lists_the_bindings() {
    let kb = Keybindings {
        show_hide: "Ctrl+h".to_string(),
        type_text: "Ctrl+t".to_string(),
        take_screenshot: "Ctrl+p".to_string(),
        record_audio: "Ctrl+r".to_string(),
        solve: "Ctrl+Enter".to_string(),
        clear: "Ctrl+l".to_string(),
        switch_to_workspace: "Alt".to_string(),
    };
    let expected = "# Keybindings\n```\nShow / Hide          Ctrl+h\nType Text            Ctrl+t\nTake Screenshot      Ctrl+p\nRecord Audio         Ctrl+r\nSolve                Ctrl+Enter\nClear                Ctrl+l\nSwitch Workspace     Alt+n\n```";
    assert_eq!(get_default_text(&kb), expected);
}

#[test]
fn key_names_by_code() {
    let m = get_key_hash_map();
    assert_eq!(m.len(), 104);
    assert_eq!(m[&1], "[esc]");
    assert_eq!(m[&28], "[Enter]");
    assert_eq!(m[&96], "[Enter]");
    assert_eq!(m[&125], "[SuperL]");
    assert_eq!(m[&43], "\\");
    assert_eq!(m[&30], "a");
    assert_eq!(m[&57], "[Space]");
    assert_eq!(m[&164], "[Play/Pause]");
    assert_eq!(m[&83], ".");
    assert_eq!(m.get(&0), None);
    assert_eq!(m.get(&126), None);
    assert_eq!(m.get(&200), None);
}

#[test]
fn prompt_holds_text_and_media() {
    let p = PromptData {
        text: "question".to_string(),
        media: vec![Media { mime_type: "image/png".to_string(), data: "aGk=".to_string() }],
    };
    let q = p.clone();
    assert_eq!(q.text, "question");
    assert_eq!(q.media.len(), 1);
    assert_eq!(q.media[0].mime_type, "image/png");
    assert_eq!(q.media[0].data, "aGk=");
}

fn file(path: &str, content: &[u8]) -> AttachedFile {
    AttachedFile { path: path.to_string(), content: content.to_vec() }
}

#[test]
fn attached_files_become_media() {
    let files = vec![
        file("shots/a.png", b"hi"),
        file("notes.TXT", b"hello world~"),
        file("noext", b""),
        file("song.mp3", &[0, 255, 16]),
        file("archive.unknown-ext", b"x"),
    ];
    let p = PromptData::new("what is this?".to_string(), &files).unwrap();
    assert_eq!(p.text, "what is this?");
    let expected = vec![
        Media { mime_type: "image/png".to_string(), data: "aGk=".to_string() },
        Media { mime_type: "text/plain".to_string(), data: "aGVsbG8gd29ybGR+".to_string() },
        Media { mime_type: "application/octet-stream".to_string(), data: "".to_string() },
        Media { mime_type: "audio/mpeg".to_string(), data: "AP8Q".to_string() },
        Media { mime_type: "application/octet-stream".to_string(), data: "eA==".to_string() },
    ];
    assert_eq!(p.media, expected);
    let none = PromptData::new("t".to_string(), &vec![]).unwrap();
    assert!(none.media.is_empty());
}

#[test]
fn base64_text_must_fit() {
    assert!(fits_base64(0));
    assert!(fits_base64(1000));
    assert!(fits_base64(usize::MAX / 4 * 3));
    assert!(!fits_base64(usize::MAX / 4 * 3 + 1));
    assert!(!fits_base64(usize::MAX));
}

#[test]
fn fonts_to_try() {
    assert_eq!(
        font_candidates("/home/me/font.ttf"),
        vec![
            "/home/me/font.ttf",
            "/usr/share/fonts/truetype/dejavu/DejaVuSans.ttf",
            "/System/Library/Fonts/Arial.ttf",
            "/usr/share/fonts/TTF/DejaVuSans.ttf",
        ]
    );
}
