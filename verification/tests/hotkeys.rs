use aerogel::combo::{combo_string, dedup_parts, eq_ignore_ascii_case, strip_prefixes_of};
use aerogel::hotkeys::{
    canonical_keybindings, manage_command, read_new_content, screenshot_name, CanonicalKeybindings,
    Command, HandlerState, ProcessStep,
};
use aerogel::keys::Keybindings;

fn chars(s: &str) -> Vec<char> {
    s.chars().collect()
}

fn bindings() -> CanonicalKeybindings {
    canonical_keybindings(&Keybindings {
        show_hide: "Ctrl+h".to_string(),
        type_text: "Ctrl+t".to_string(),
        take_screenshot: "Shift+Ctrl+p".to_string(),
        record_audio: "Ctrl+r".to_string(),
        solve: "Ctrl+Enter".to_string(),
        clear: "Ctrl+l".to_string(),
        switch_to_workspace: "Alt".to_string(),
    })
}

fn feed(state: &mut HandlerState, kb: &CanonicalKeybindings, lines: &[&str]) -> Vec<Command> {
    let mut all = Vec::new();
    for line in lines {
        all.extend(state.handle_line(kb, line));
    }
    all
}

#[test]
fn bindings_are_canonical() {
    let kb = bindings();
    assert_eq!(kb.take_screenshot, chars("Ctrl+Shift+p"));
    assert_eq!(kb.switch_to_workspace, chars("Alt"));
    assert_eq!(kb.solve, chars("Ctrl+Enter"));
}

#[test]
fn names_compare_without_case() {
    assert!(eq_ignore_ascii_case(&chars("Ctrl+P"), &chars("ctrl+p")));
    assert!(eq_ignore_ascii_case(&chars(""), &chars("")));
    assert!(!eq_ignore_ascii_case(&chars("Ctrl+P"), &chars("ctrl+q")));
    assert!(!eq_ignore_ascii_case(&chars("a"), &chars("ab")));
    assert!(!eq_ignore_ascii_case(&chars("É"), &chars("é")));
    assert!(!eq_ignore_ascii_case(&chars("@"), &chars("`")));
    assert!(!eq_ignore_ascii_case(&chars("["), &chars("{")));
    for (a, b) in [("Alt", "ALT"), ("x1", "X1"), ("Z", "z"), ("[", "["), ("a", "b")] {
        assert_eq!(eq_ignore_ascii_case(&chars(a), &chars(b)), a.eq_ignore_ascii_case(b));
    }
}

#[test]
fn combination_names() {
    let held = vec!["[ShiftL]".to_string(), "[CtrlR]".to_string(), "[CtrlL]".to_string()];
    assert_eq!(combo_string(&held, "p"), chars("Ctrl+Shift+p"));
    assert_eq!(combo_string(&held, "[Enter]"), chars("Ctrl+Shift+Enter"));
    assert_eq!(combo_string(&held, "[Space]"), chars("Ctrl+Shift+Space"));
    assert_eq!(combo_string(&held, "shift+shift+P"), chars("Ctrl+Shift+P"));
    assert_eq!(combo_string(&vec![], "a"), chars("a"));
    assert_eq!(combo_string(&vec!["[Unknown]".to_string()], "a"), chars("a"));
    assert_eq!(strip_prefixes_of(&chars("shift+shift+"), &chars("shift+")), chars(""));
    assert_eq!(strip_prefixes_of(&chars("ashift+b"), &chars("shift+")), chars("ashift+b"));
    assert_eq!(strip_prefixes_of(&chars("abc"), &chars("")), chars("abc"));
    assert_eq!(
        dedup_parts(&vec![chars("a"), chars("a"), chars("b"), chars("a"), chars("a")]),
        vec![chars("a"), chars("b"), chars("a")]
    );
}

#[test]
fn start_of_the_handler() {
    let s = HandlerState::new();
    assert_eq!(s.current_workspace, 1);
    assert_eq!(s.known_workspaces, vec![1]);
    assert!(!s.in_recording_mode);
    assert!(!s.waiting_for_workspace_number);
    assert!(s.active_modifiers.is_empty());
}

#[test]
fn workspace_is_switched_by_modifier_and_digit() {
    let kb = bindings();
    let mut s = HandlerState::new();
    assert_eq!(feed(&mut s, &kb, &["[AltL]"]), vec![]);
    assert!(s.waiting_for_workspace_number);
    assert_eq!(s.active_modifiers, vec!["[AltL]"]);
    assert_eq!(
        feed(&mut s, &kb, &[" 3 "]),
        vec![Command::SwitchWorkspace { workspace: 3, first_time: true }]
    );
    assert_eq!(s.current_workspace, 3);
    assert_eq!(s.known_workspaces, vec![1, 3]);
    assert!(!s.waiting_for_workspace_number);
    assert!(s.active_modifiers.is_empty());
    assert_eq!(
        feed(&mut s, &kb, &["[AltR]", "1"]),
        vec![Command::SwitchWorkspace { workspace: 1, first_time: false }]
    );
    assert_eq!(feed(&mut s, &kb, &["[AltL]", "1"]), vec![]);
    assert_eq!(feed(&mut s, &kb, &["[AltL]", "0"]), vec![]);
    assert_eq!(s.current_workspace, 1);
    assert_eq!(s.known_workspaces, vec![1, 3]);
}

#[test]
fn anything_but_a_digit_cancels_the_switch() {
    let kb = bindings();
    let mut s = HandlerState::new();
    assert_eq!(feed(&mut s, &kb, &["[AltL]", "12"]), vec![]);
    assert!(!s.waiting_for_workspace_number);
    assert_eq!(feed(&mut s, &kb, &["3"]), vec![]);
    assert_eq!(s.current_workspace, 1);
    assert_eq!(feed(&mut s, &kb, &["[AltL]", "[AltL]"]), vec![]);
    assert!(s.waiting_for_workspace_number);
    assert_eq!(feed(&mut s, &kb, &["", "   "]), vec![]);
    assert!(s.waiting_for_workspace_number);
}

#[test]
fn combinations_trigger_their_commands() {
    let kb = bindings();
    let mut s = HandlerState::new();
    assert_eq!(feed(&mut s, &kb, &["[CtrlL]", "[ShiftR]", "P"]), vec![Command::Screenshot]);
    assert!(s.active_modifiers.is_empty());
    assert_eq!(feed(&mut s, &kb, &["[CtrlR]", "h"]), vec![Command::ToggleOverlay]);
    assert_eq!(feed(&mut s, &kb, &["[CtrlL]", "x"]), vec![]);
    assert!(s.active_modifiers.is_empty());
    assert_eq!(feed(&mut s, &kb, &["h"]), vec![]);
    assert_eq!(
        feed(&mut s, &kb, &["[CtrlL]", "l"]),
        vec![Command::ClearLog, Command::Send("/restart".to_string())]
    );
    assert_eq!(feed(&mut s, &kb, &["[CtrlL]", "[Enter]"]), vec![Command::Send("/ask".to_string())]);
    assert_eq!(feed(&mut s, &kb, &["[CtrlL]", "[CtrlL]", "[CtrlR]", "shift+h"]), vec![Command::ToggleOverlay]);
}

#[test]
fn typing_is_recorded_and_solved() {
    let kb = bindings();
    let mut s = HandlerState::new();
    assert_eq!(feed(&mut s, &kb, &["a"]), vec![]);
    assert_eq!(feed(&mut s, &kb, &["[CtrlL]", "t"]), vec![Command::BeginRecording]);
    assert!(s.in_recording_mode);
    assert_eq!(s.recording_started("old text"), "old text\n\n");
    assert_eq!(feed(&mut s, &kb, &["[CtrlL]", "t"]), vec![]);
    let write = |t: &str| Command::WriteLog(format!("old text\n\n{}", t));
    assert_eq!(feed(&mut s, &kb, &["h"]), vec![write("h")]);
    assert_eq!(feed(&mut s, &kb, &["i", "[Space]"]), vec![write("hi"), write("hi ")]);
    assert_eq!(feed(&mut s, &kb, &["[Tab]", "[", "[Backspace]"]), vec![write("hi ["), write("hi ")]);
    assert_eq!(feed(&mut s, &kb, &["[ShiftL]", "X"]), vec![]);
    assert_eq!(feed(&mut s, &kb, &["?", "[Space]"]), vec![write("hi ?"), write("hi ? ")]);
    assert_eq!(
        feed(&mut s, &kb, &["[CtrlL]", "[Enter]"]),
        vec![
            Command::WriteLog("old text\n\nhi ?   \n".to_string()),
            Command::Send("hi ?\n/ask".to_string()),
        ]
    );
    assert!(!s.in_recording_mode);
    assert!(s.key_buffer.is_empty());
    assert!(s.log_snapshot.is_empty());
}

#[test]
fn recording_without_text_asks_only() {
    let kb = bindings();
    let mut s = HandlerState::new();
    feed(&mut s, &kb, &["[CtrlL]", "t"]);
    assert_eq!(s.recording_started(""), "\n");
    assert_eq!(feed(&mut s, &kb, &["[Backspace]"]), vec![Command::WriteLog("\n".to_string())]);
    assert_eq!(
        feed(&mut s, &kb, &["[CtrlL]", "[Enter]"]),
        vec![Command::WriteLog("\n".to_string()), Command::Send("/ask".to_string())]
    );
    let mut t = HandlerState::new();
    feed(&mut t, &kb, &["[CtrlL]", "t"]);
    assert_eq!(t.recording_started("line\n"), "line\n\n");
    feed(&mut t, &kb, &["x"]);
    assert_eq!(
        feed(&mut t, &kb, &["[CtrlL]", "l"]),
        vec![Command::ClearLog, Command::Send("/restart".to_string())]
    );
    assert!(t.in_recording_mode);
    assert!(t.key_buffer.is_empty());
    assert_eq!(feed(&mut t, &kb, &["y"]), vec![Command::WriteLog("y".to_string())]);
}

#[test]
fn new_content_of_a_file() {
    assert_eq!(read_new_content(10, 10), None);
    assert_eq!(read_new_content(10, 25), Some(10));
    assert_eq!(read_new_content(10, 4), Some(0));
    assert_eq!(read_new_content(0, 0), None);
    assert_eq!(read_new_content(5, 0), Some(0));
}

#[test]
fn commands_for_the_process() {
    assert_eq!(manage_command("/restart"), ProcessStep::Restart);
    assert_eq!(manage_command("/ask"), ProcessStep::Write("/ask\n".to_string()));
    assert_eq!(manage_command("hi\n/ask"), ProcessStep::Write("hi\n/ask\n".to_string()));
    assert_eq!(manage_command(""), ProcessStep::Write("\n".to_string()));
}

#[test]
fn screenshot_names() {
    assert_eq!(screenshot_name(2, "20240131-235959"), "screenshot-ws2-20240131-235959.jpeg");
}
