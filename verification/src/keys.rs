//! Names of keys and of key bindings, and of the files that a workspace
//! writes to.

use crate::chars::{decimal, from_chars, push_decimal, same_text, to_chars};
use crate::sorting::{
    join, join_parts, part_views, scan_parts, sort, sort_parts, split, split_parts,
};
use std::collections::HashMap;
use vstd::prelude::*;
use vstd::string::StringExecFns;

verus! {

/// The key bindings that the help text lists.
#[derive(Debug, Clone)]
pub struct Keybindings {
    pub show_hide: String,
    pub type_text: String,
    pub take_screenshot: String,
    pub record_audio: String,
    pub solve: String,
    pub clear: String,
    pub switch_to_workspace: String,
}

/// The name of the text file of workspace `workspace_number`: `.tmp`, then
/// the number in decimal.
pub open spec fn text_log_path(workspace_number: u32) -> Seq<char> {
    ".tmp"@ + decimal(workspace_number as nat)
}

/// The name of the text file of workspace `workspace_number`.
pub fn get_text_log_output_path(workspace_number: u32) -> (path: String)
    ensures
        path@ == text_log_path(workspace_number),
{
    let mut path = String::from_str(".tmp");
    push_decimal(&mut path, workspace_number as u64);
    path
}

/// The modifier that a key token stands for: `Ctrl`, `Alt`, `Shift` or
/// `Super` for the tokens of the left and right modifier keys, and the empty
/// name for any other token.
pub open spec fn canonical_modifier(modifier: Seq<char>) -> Seq<char> {
    if modifier == "[CtrlL]"@ || modifier == "[CtrlR]"@ {
        "Ctrl"@
    } else if modifier == "[AltL]"@ || modifier == "[AltR]"@ {
        "Alt"@
    } else if modifier == "[ShiftL]"@ || modifier == "[ShiftR]"@ {
        "Shift"@
    } else if modifier == "[SuperL]"@ {
        "Super"@
    } else {
        ""@
    }
}

/// The modifier that the key token `modifier` stands for.
pub fn get_canonical_modifier(modifier: &str) -> (name: &'static str)
    ensures
        name@ == canonical_modifier(modifier@),
{
    if same_text(modifier, "[CtrlL]") || same_text(modifier, "[CtrlR]") {
        "Ctrl"
    } else if same_text(modifier, "[AltL]") || same_text(modifier, "[AltR]") {
        "Alt"
    } else if same_text(modifier, "[ShiftL]") || same_text(modifier, "[ShiftR]") {
        "Shift"
    } else if same_text(modifier, "[SuperL]") {
        "Super"
    } else {
        ""
    }
}

/// The help text that is shown where a workspace has no text: a heading and a
/// code block that lists each action with its key binding.
pub open spec fn default_text(kb: Keybindings) -> Seq<char> {
    "# Keybindings\n```\nShow / Hide          "@ + kb.show_hide@
        + "\nType Text            "@ + kb.type_text@
        + "\nTake Screenshot      "@ + kb.take_screenshot@
        + "\nRecord Audio         "@ + kb.record_audio@
        + "\nSolve                "@ + kb.solve@
        + "\nClear                "@ + kb.clear@
        + "\nSwitch Workspace     "@ + kb.switch_to_workspace@
        + "+n\n```"@
}

/// The help text for the key bindings `kb`.
pub fn get_default_text(kb: &Keybindings) -> (text: String)
    ensures
        text@ == default_text(*kb),
{
    let mut text = String::from_str("# Keybindings\n```\nShow / Hide          ");
    text.append(kb.show_hide.as_str());
    text.append("\nType Text            ");
    text.append(kb.type_text.as_str());
    text.append("\nTake Screenshot      ");
    text.append(kb.take_screenshot.as_str());
    text.append("\nRecord Audio         ");
    text.append(kb.record_audio.as_str());
    text.append("\nSolve                ");
    text.append(kb.solve.as_str());
    text.append("\nClear                ");
    text.append(kb.clear.as_str());
    text.append("\nSwitch Workspace     ");
    text.append(kb.switch_to_workspace.as_str());
    text.append("+n\n```");
    text
}

/// The canonical form of a key binding: its parts between `+`, with all but
/// the last in order, joined by `+` again. The last part is the key and stays
/// last; the parts before it are modifiers, whose order does not matter.
pub open spec fn canonical_keybinding(binding: Seq<char>) -> Seq<char> {
    let parts = split(binding, '+');
    join(sort(parts.drop_last()).push(parts.last()), '+')
}

/// Text without a separator is a single part.
pub proof fn lemma_no_separator(s: Seq<char>, separator: char)
    requires
        !s.contains(separator),
    ensures
        scan_parts(s, separator).closed.len() == 0,
        scan_parts(s, separator).open == s,
        split(s, separator) == seq![s],
    decreases s.len(),
{
    if s.len() > 0 {
        let before = s.drop_last();
        assert forall|i: int| 0 <= i < before.len() implies before[i] != separator by {
            assert(s[i] == before[i]);
            assert(s.contains(s[i]));
        }
        assert(!before.contains(separator));
        lemma_no_separator(before, separator);
        assert(s.contains(s.last()));
        assert(s =~= before.push(s.last()));
        assert(scan_parts(s, separator).open =~= s);
    } else {
        assert(scan_parts(s, separator).open =~= s);
    }
    assert(split(s, separator) =~= seq![s]);
}

/// A binding without `+` is canonical as it is.
pub proof fn lemma_single_key_is_canonical(binding: Seq<char>)
    requires
        !binding.contains('+'),
    ensures
        canonical_keybinding(binding) == binding,
{
    lemma_no_separator(binding, '+');
    let parts = split(binding, '+');
    assert(parts.drop_last() =~= Seq::<Seq<char>>::empty());
    assert(sort(parts.drop_last()) =~= Seq::<Seq<char>>::empty());
    assert(sort(parts.drop_last()).push(parts.last()) =~= seq![binding]);
}

/// The canonical form of the key binding `kb_string`.
pub fn canonicalize_keybinding(kb_string: &str) -> (canonical: String)
    ensures
        canonical@ == canonical_keybinding(kb_string@),
{
    let chars = to_chars(kb_string);
    let mut parts = split_parts(&chars, '+');
    let ghost all = part_views(parts@);
    let key = parts.pop().unwrap();
    proof {
        assert(part_views(parts@) =~= all.drop_last());
        assert(key@ == all.last());
    }
    let mut ordered = sort_parts(parts);
    let ghost before = part_views(ordered@);
    ordered.push(key);
    proof {
        assert(part_views(ordered@) =~= before.push(key@));
    }
    let joined = join_parts(&ordered, '+');
    from_chars(&joined)
}

/// The names of the escape key, the function keys and the keys beside them, added to `m`.
pub open spec fn with_function_keys(m: Map<u16, &'static str>) -> Map<u16, &'static str> {
    m
        .insert(1, "[esc]")
        .insert(113, "[Fn-F1]")
        .insert(114, "[Fn-F2]")
        .insert(115, "[Fn-F3]")
        .insert(140, "[Fn-F12]")
        .insert(59, "[F1]")
        .insert(60, "[F2]")
        .insert(61, "[F3]")
        .insert(62, "[F4]")
        .insert(63, "[F5]")
        .insert(64, "[F6]")
        .insert(65, "[F7]")
        .insert(66, "[F8]")
        .insert(67, "[F9]")
        .insert(68, "[F10]")
        .insert(87, "[F11]")
        .insert(88, "[F12]")
        .insert(110, "[Insert]")
        .insert(99, "[PrtSc]")
}

/// The names of the keys of the row of digits, added to `m`.
pub open spec fn with_number_row_keys(m: Map<u16, &'static str>) -> Map<u16, &'static str> {
    m
        .insert(111, "[Delete]")
        .insert(41, "`")
        .insert(2, "1")
        .insert(3, "2")
        .insert(4, "3")
        .insert(5, "4")
        .insert(6, "5")
        .insert(7, "6")
        .insert(8, "7")
        .insert(9, "8")
        .insert(10, "9")
        .insert(11, "0")
        .insert(12, "-")
        .insert(13, "=")
        .insert(14, "[Backspace]")
}

/// The names of the keys of the upper row of letters, added to `m`.
pub open spec fn with_upper_row_keys(m: Map<u16, &'static str>) -> Map<u16, &'static str> {
    m
        .insert(15, "[Tab]")
        .insert(16, "q")
        .insert(17, "w")
        .insert(18, "e")
        .insert(19, "r")
        .insert(20, "t")
        .insert(21, "y")
        .insert(22, "u")
        .insert(23, "i")
        .insert(24, "o")
        .insert(25, "p")
        .insert(26, "[")
        .insert(27, "]")
        .insert(43, "\\")
}

/// The names of the keys of the middle row of letters, added to `m`.
pub open spec fn with_home_row_keys(m: Map<u16, &'static str>) -> Map<u16, &'static str> {
    m
        .insert(58, "[CapsLock]")
        .insert(30, "a")
        .insert(31, "s")
        .insert(32, "d")
        .insert(33, "f")
        .insert(34, "g")
        .insert(35, "h")
        .insert(36, "j")
        .insert(37, "k")
        .insert(38, "l")
        .insert(39, ";")
        .insert(40, "'")
        .insert(28, "[Enter]")
}

/// The names of the keys of the lower row of letters, added to `m`.
pub open spec fn with_lower_row_keys(m: Map<u16, &'static str>) -> Map<u16, &'static str> {
    m
        .insert(42, "[ShiftL]")
        .insert(44, "z")
        .insert(45, "x")
        .insert(46, "c")
        .insert(47, "v")
        .insert(48, "b")
        .insert(49, "n")
        .insert(50, "m")
        .insert(51, ",")
        .insert(52, ".")
        .insert(53, "/")
}

/// The names of the modifier keys, the space bar, the arrow keys and the media keys, added to `m`.
pub open spec fn with_control_keys(m: Map<u16, &'static str>) -> Map<u16, &'static str> {
    m
        .insert(54, "[ShiftR]")
        .insert(29, "[CtrlL]")
        .insert(125, "[SuperL]")
        .insert(56, "[AltL]")
        .insert(57, "[Space]")
        .insert(100, "[AltR]")
        .insert(97, "[CtrlR]")
        .insert(105, "[left]")
        .insert(103, "[up]")
        .insert(108, "[down]")
        .insert(106, "[right]")
        .insert(164, "[Play/Pause]")
        .insert(166, "[Stop]")
        .insert(165, "[Backward]")
        .insert(163, "[Forward]")
}

/// The names of the keys of the number pad, added to `m`.
pub open spec fn with_keypad_keys(m: Map<u16, &'static str>) -> Map<u16, &'static str> {
    m
        .insert(69, "[NumLock]")
        .insert(98, "/")
        .insert(55, "*")
        .insert(74, "-")
        .insert(71, "7")
        .insert(72, "8")
        .insert(73, "9")
        .insert(78, "+")
        .insert(75, "4")
        .insert(76, "5")
        .insert(77, "6")
        .insert(79, "1")
        .insert(80, "2")
        .insert(81, "3")
        .insert(82, "0")
        .insert(83, ".")
        .insert(96, "[Enter]")
}

/// The key names by key code, as a keyboard with the QWERTY layout sends the
/// codes: `key_names()[code]` is the token that stands for the key in the log
/// of keys.
pub open spec fn key_names() -> Map<u16, &'static str> {
    let m: Map<u16, &'static str> = Map::empty();
    let m = with_function_keys(m);
    let m = with_number_row_keys(m);
    let m = with_upper_row_keys(m);
    let m = with_home_row_keys(m);
    let m = with_lower_row_keys(m);
    let m = with_control_keys(m);
    let m = with_keypad_keys(m);
    m
}

/// Adds the names of the escape key, the function keys and the keys beside them to `m`.
fn insert_function_keys(m: &mut HashMap<u16, &'static str>)
    ensures
        final(m)@ == with_function_keys(old(m)@),
{
    broadcast use vstd::std_specs::hash::group_hash_axioms;

    m.insert(1, "[esc]");
    m.insert(113, "[Fn-F1]");
    m.insert(114, "[Fn-F2]");
    m.insert(115, "[Fn-F3]");
    m.insert(140, "[Fn-F12]");
    m.insert(59, "[F1]");
    m.insert(60, "[F2]");
    m.insert(61, "[F3]");
    m.insert(62, "[F4]");
    m.insert(63, "[F5]");
    m.insert(64, "[F6]");
    m.insert(65, "[F7]");
    m.insert(66, "[F8]");
    m.insert(67, "[F9]");
    m.insert(68, "[F10]");
    m.insert(87, "[F11]");
    m.insert(88, "[F12]");
    m.insert(110, "[Insert]");
    m.insert(99, "[PrtSc]");
}

/// Adds the names of the keys of the row of digits to `m`.
fn insert_number_row_keys(m: &mut HashMap<u16, &'static str>)
    ensures
        final(m)@ == with_number_row_keys(old(m)@),
{
    broadcast use vstd::std_specs::hash::group_hash_axioms;

    m.insert(111, "[Delete]");
    m.insert(41, "`");
    m.insert(2, "1");
    m.insert(3, "2");
    m.insert(4, "3");
    m.insert(5, "4");
    m.insert(6, "5");
    m.insert(7, "6");
    m.insert(8, "7");
    m.insert(9, "8");
    m.insert(10, "9");
    m.insert(11, "0");
    m.insert(12, "-");
    m.insert(13, "=");
    m.insert(14, "[Backspace]");
}

/// Adds the names of the keys of the upper row of letters to `m`.
fn insert_upper_row_keys(m: &mut HashMap<u16, &'static str>)
    ensures
        final(m)@ == with_upper_row_keys(old(m)@),
{
    broadcast use vstd::std_specs::hash::group_hash_axioms;

    m.insert(15, "[Tab]");
    m.insert(16, "q");
    m.insert(17, "w");
    m.insert(18, "e");
    m.insert(19, "r");
    m.insert(20, "t");
    m.insert(21, "y");
    m.insert(22, "u");
    m.insert(23, "i");
    m.insert(24, "o");
    m.insert(25, "p");
    m.insert(26, "[");
    m.insert(27, "]");
    m.insert(43, "\\");
}

/// Adds the names of the keys of the middle row of letters to `m`.
fn insert_home_row_keys(m: &mut HashMap<u16, &'static str>)
    ensures
        final(m)@ == with_home_row_keys(old(m)@),
{
    broadcast use vstd::std_specs::hash::group_hash_axioms;

    m.insert(58, "[CapsLock]");
    m.insert(30, "a");
    m.insert(31, "s");
    m.insert(32, "d");
    m.insert(33, "f");
    m.insert(34, "g");
    m.insert(35, "h");
    m.insert(36, "j");
    m.insert(37, "k");
    m.insert(38, "l");
    m.insert(39, ";");
    m.insert(40, "'");
    m.insert(28, "[Enter]");
}

/// Adds the names of the keys of the lower row of letters to `m`.
fn insert_lower_row_keys(m: &mut HashMap<u16, &'static str>)
    ensures
        final(m)@ == with_lower_row_keys(old(m)@),
{
    broadcast use vstd::std_specs::hash::group_hash_axioms;

    m.insert(42, "[ShiftL]");
    m.insert(44, "z");
    m.insert(45, "x");
    m.insert(46, "c");
    m.insert(47, "v");
    m.insert(48, "b");
    m.insert(49, "n");
    m.insert(50, "m");
    m.insert(51, ",");
    m.insert(52, ".");
    m.insert(53, "/");
}

/// Adds the names of the modifier keys, the space bar, the arrow keys and the media keys to `m`.
fn insert_control_keys(m: &mut HashMap<u16, &'static str>)
    ensures
        final(m)@ == with_control_keys(old(m)@),
{
    broadcast use vstd::std_specs::hash::group_hash_axioms;

    m.insert(54, "[ShiftR]");
    m.insert(29, "[CtrlL]");
    m.insert(125, "[SuperL]");
    m.insert(56, "[AltL]");
    m.insert(57, "[Space]");
    m.insert(100, "[AltR]");
    m.insert(97, "[CtrlR]");
    m.insert(105, "[left]");
    m.insert(103, "[up]");
    m.insert(108, "[down]");
    m.insert(106, "[right]");
    m.insert(164, "[Play/Pause]");
    m.insert(166, "[Stop]");
    m.insert(165, "[Backward]");
    m.insert(163, "[Forward]");
}

/// Adds the names of the keys of the number pad to `m`.
fn insert_keypad_keys(m: &mut HashMap<u16, &'static str>)
    ensures
        final(m)@ == with_keypad_keys(old(m)@),
{
    broadcast use vstd::std_specs::hash::group_hash_axioms;

    m.insert(69, "[NumLock]");
    m.insert(98, "/");
    m.insert(55, "*");
    m.insert(74, "-");
    m.insert(71, "7");
    m.insert(72, "8");
    m.insert(73, "9");
    m.insert(78, "+");
    m.insert(75, "4");
    m.insert(76, "5");
    m.insert(77, "6");
    m.insert(79, "1");
    m.insert(80, "2");
    m.insert(81, "3");
    m.insert(82, "0");
    m.insert(83, ".");
    m.insert(96, "[Enter]");
}

/// The key names by key code.
pub fn get_key_hash_map() -> (m: HashMap<u16, &'static str>)
    ensures
        m@ == key_names(),
{
    let mut m: HashMap<u16, &'static str> = HashMap::new();
    insert_function_keys(&mut m);
    insert_number_row_keys(&mut m);
    insert_upper_row_keys(&mut m);
    insert_home_row_keys(&mut m);
    insert_lower_row_keys(&mut m);
    insert_control_keys(&mut m);
    insert_keypad_keys(&mut m);
    m
}

} // verus!
