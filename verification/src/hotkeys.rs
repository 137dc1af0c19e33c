//! The hotkey state machine: each key token of the log of keys becomes a
//! change of state and a list of commands to carry out.

use crate::chars::{decimal, from_chars, push_decimal, same_text, to_chars, trim, trim_chars};
use crate::combo::{
    combo_name, combo_string, eq_ignore_ascii_case, same_ignoring_case,
};
use crate::keys::{
    canonical_keybinding, canonical_modifier, canonicalize_keybinding, get_canonical_modifier,
    Keybindings,
};
use crate::numbers::{char_is_digit, is_digit};
use crate::tokens::texts;
use vstd::prelude::*;
use vstd::string::StringExecFns;

verus! {

/// The workspace that the handler starts on.
pub const FIRST_WORKSPACE: u32 = 1;

/// A command to carry out.
#[derive(Debug, Clone, PartialEq, Eq)]
pub enum Command {
    /// Switch to the workspace; where it is entered for the first time, give
    /// it an empty text file and an assistant of its own.
    SwitchWorkspace { workspace: u32, first_time: bool },
    /// Take a screenshot and hand it to the assistant.
    Screenshot,
    /// Read the text file of the workspace and begin to record what is typed.
    BeginRecording,
    /// Show the overlay if it is hidden, and hide it if it is shown.
    ToggleOverlay,
    /// Empty the text file of the workspace.
    ClearLog,
    /// Replace what the text file of the workspace holds.
    WriteLog(String),
    /// Send a line to the assistant of the workspace.
    Send(String),
}

/// The mathematical value of a [`Command`].
pub enum CommandModel {
    SwitchWorkspace { workspace: u32, first_time: bool },
    Screenshot,
    BeginRecording,
    ToggleOverlay,
    ClearLog,
    WriteLog(Seq<char>),
    Send(Seq<char>),
}

impl View for Command {
    type V = CommandModel;

    open spec fn view(&self) -> CommandModel {
        match self {
            Command::SwitchWorkspace { workspace, first_time } => CommandModel::SwitchWorkspace {
                workspace: *workspace,
                first_time: *first_time,
            },
            Command::Screenshot => CommandModel::Screenshot,
            Command::BeginRecording => CommandModel::BeginRecording,
            Command::ToggleOverlay => CommandModel::ToggleOverlay,
            Command::ClearLog => CommandModel::ClearLog,
            Command::WriteLog(s) => CommandModel::WriteLog(s@),
            Command::Send(s) => CommandModel::Send(s@),
        }
    }
}

/// The values of a sequence of commands.
pub open spec fn command_views(v: Seq<Command>) -> Seq<CommandModel> {
    v.map_values(|c: Command| c@)
}

/// The key bindings in canonical form.
#[derive(Debug, Clone, PartialEq, Eq)]
pub struct CanonicalKeybindings {
    pub show_hide: Vec<char>,
    pub type_text: Vec<char>,
    pub take_screenshot: Vec<char>,
    pub record_audio: Vec<char>,
    pub solve: Vec<char>,
    pub clear: Vec<char>,
    pub switch_to_workspace: Vec<char>,
}

/// The state of the handler.
#[derive(Debug, Clone, PartialEq, Eq)]
pub struct HandlerState {
    /// The workspace that is shown.
    pub current_workspace: u32,
    /// The workspaces that have been entered, in the order of their first
    /// entry.
    pub known_workspaces: Vec<u32>,
    /// What is typed is recorded.
    pub in_recording_mode: bool,
    /// What has been typed since recording began.
    pub key_buffer: Vec<char>,
    /// What the text file held when recording began, and a line break.
    pub log_snapshot: Vec<char>,
    /// The tokens of the modifier keys that are held, each once.
    pub active_modifiers: Vec<String>,
    /// The key to switch workspaces was pressed; the next key names the
    /// workspace.
    pub waiting_for_workspace_number: bool,
}

/// The mathematical value of a [`HandlerState`].
pub struct HandlerModel {
    pub current_workspace: u32,
    pub known_workspaces: Seq<u32>,
    pub in_recording_mode: bool,
    pub key_buffer: Seq<char>,
    pub log_snapshot: Seq<char>,
    pub active_modifiers: Seq<Seq<char>>,
    pub waiting_for_workspace_number: bool,
}

impl View for HandlerState {
    type V = HandlerModel;

    open spec fn view(&self) -> HandlerModel {
        HandlerModel {
            current_workspace: self.current_workspace,
            known_workspaces: self.known_workspaces@,
            in_recording_mode: self.in_recording_mode,
            key_buffer: self.key_buffer@,
            log_snapshot: self.log_snapshot@,
            active_modifiers: texts(self.active_modifiers@),
            waiting_for_workspace_number: self.waiting_for_workspace_number,
        }
    }
}

/// What a key token leads to.
pub struct Reaction {
    pub state: HandlerModel,
    pub commands: Seq<CommandModel>,
}

/// Whether `token` is the token of a modifier key.
pub open spec fn is_modifier(token: Seq<char>) -> bool {
    canonical_modifier(token).len() > 0
}

/// Whether `token` is the token of a key without a character of its own: it
/// is set in square brackets.
pub open spec fn is_bracketed(token: Seq<char>) -> bool {
    token.len() > 0 && token[0] == '[' && token.last() == ']'
}

/// What a digit after the key to switch workspaces leads to: workspace 0 is
/// none, the current workspace is left as it is, and any other is switched to.
pub open spec fn after_workspace_digit(st: HandlerModel, digit: u32) -> Reaction {
    let idle = HandlerModel {
        waiting_for_workspace_number: false,
        active_modifiers: Seq::empty(),
        ..st
    };
    if digit == 0 || digit == st.current_workspace {
        Reaction { state: idle, commands: Seq::empty() }
    } else {
        let first_time = !st.known_workspaces.contains(digit);
        Reaction {
            state: HandlerModel {
                current_workspace: digit,
                known_workspaces: if first_time {
                    st.known_workspaces.push(digit)
                } else {
                    st.known_workspaces
                },
                ..idle
            },
            commands: seq![CommandModel::SwitchWorkspace { workspace: digit, first_time }],
        }
    }
}

/// What the token of a modifier key leads to: the modifier is held, and the
/// modifier that switches workspaces awaits the number of a workspace.
pub open spec fn after_modifier(st: HandlerModel, switch_key: Seq<char>, token: Seq<char>) -> Reaction {
    Reaction {
        state: HandlerModel {
            active_modifiers: if st.active_modifiers.contains(token) {
                st.active_modifiers
            } else {
                st.active_modifiers.push(token)
            },
            waiting_for_workspace_number: st.waiting_for_workspace_number || same_ignoring_case(
                canonical_modifier(token),
                switch_key,
            ),
            ..st
        },
        commands: Seq::empty(),
    }
}

/// What is written to the text file while `buffer` is recorded after
/// `snapshot`.
pub open spec fn preview(snapshot: Seq<char>, buffer: Seq<char>) -> Seq<char> {
    snapshot + buffer
}

/// What a key token leads to while recording and with no modifier held: a
/// space or a character is added to what was typed, a backspace takes the last
/// character away, and the text file shows the result; a key without a
/// character of its own does nothing.
pub open spec fn after_typing(st: HandlerModel, token: Seq<char>) -> Reaction {
    if token == "[Space]"@ {
        let buffer = st.key_buffer.push(' ');
        Reaction {
            state: HandlerModel { key_buffer: buffer, ..st },
            commands: seq![CommandModel::WriteLog(preview(st.log_snapshot, buffer))],
        }
    } else if token == "[Backspace]"@ {
        let buffer = if st.key_buffer.len() > 0 {
            st.key_buffer.drop_last()
        } else {
            st.key_buffer
        };
        Reaction {
            state: HandlerModel { key_buffer: buffer, ..st },
            commands: seq![CommandModel::WriteLog(preview(st.log_snapshot, buffer))],
        }
    } else if is_bracketed(token) {
        Reaction { state: st, commands: Seq::empty() }
    } else {
        let buffer = st.key_buffer + token;
        Reaction {
            state: HandlerModel { key_buffer: buffer, ..st },
            commands: seq![CommandModel::WriteLog(preview(st.log_snapshot, buffer))],
        }
    }
}

/// The line that asks the assistant for an answer.
pub open spec fn ask() -> Seq<char> {
    "/ask"@
}

/// The line that restarts the assistant.
pub open spec fn restart() -> Seq<char> {
    "/restart"@
}

/// What the combination to solve leads to. While recording, recording ends:
/// what was typed is kept in the text file and sent to the assistant with the
/// request to answer. Else the assistant is only asked to answer.
pub open spec fn after_solve(st: HandlerModel) -> Reaction {
    if st.in_recording_mode {
        let done = HandlerModel {
            in_recording_mode: false,
            key_buffer: Seq::empty(),
            log_snapshot: Seq::empty(),
            ..st
        };
        if st.key_buffer.len() > 0 {
            Reaction {
                state: done,
                commands: seq![
                    CommandModel::WriteLog(st.log_snapshot + st.key_buffer + seq![' ', ' ', '\n']),
                    CommandModel::Send(trim(st.key_buffer) + seq!['\n'] + ask()),
                ],
            }
        } else {
            Reaction {
                state: done,
                commands: seq![CommandModel::WriteLog(st.log_snapshot), CommandModel::Send(ask())],
            }
        }
    } else {
        Reaction { state: st, commands: seq![CommandModel::Send(ask())] }
    }
}

/// What a key token leads to while modifiers are held: the combination is
/// named and compared with the key bindings, in this order and without regard
/// to case.
pub open spec fn after_combo(st: HandlerModel, kb: CanonicalKeybindings, token: Seq<char>) -> Reaction {
    let name = combo_name(st.active_modifiers, token);
    if same_ignoring_case(name, kb.take_screenshot@) {
        Reaction { state: st, commands: seq![CommandModel::Screenshot] }
    } else if same_ignoring_case(name, kb.type_text@) {
        if st.in_recording_mode {
            Reaction { state: st, commands: Seq::empty() }
        } else {
            Reaction {
                state: HandlerModel { in_recording_mode: true, key_buffer: Seq::empty(), ..st },
                commands: seq![CommandModel::BeginRecording],
            }
        }
    } else if same_ignoring_case(name, kb.show_hide@) {
        Reaction { state: st, commands: seq![CommandModel::ToggleOverlay] }
    } else if same_ignoring_case(name, kb.clear@) {
        Reaction {
            state: if st.in_recording_mode {
                HandlerModel { key_buffer: Seq::empty(), log_snapshot: Seq::empty(), ..st }
            } else {
                st
            },
            commands: seq![CommandModel::ClearLog, CommandModel::Send(restart())],
        }
    } else if same_ignoring_case(name, kb.solve@) {
        after_solve(st)
    } else {
        Reaction { state: st, commands: Seq::empty() }
    }
}

/// What a key that is no modifier leads to; after it no modifier is held.
pub open spec fn after_key(st: HandlerModel, kb: CanonicalKeybindings, token: Seq<char>) -> Reaction {
    let r = if st.active_modifiers.len() > 0 {
        after_combo(st, kb, token)
    } else if st.in_recording_mode {
        after_typing(st, token)
    } else {
        Reaction { state: st, commands: Seq::empty() }
    };
    Reaction { state: HandlerModel { active_modifiers: Seq::empty(), ..r.state }, commands: r.commands }
}

/// What a key token that is not the number of a workspace leads to.
pub open spec fn after_token(st: HandlerModel, kb: CanonicalKeybindings, token: Seq<char>) -> Reaction {
    if is_modifier(token) {
        after_modifier(st, kb.switch_to_workspace@, token)
    } else {
        after_key(st, kb, token)
    }
}

/// What a line of the log of keys leads to. A blank line leads to nothing.
/// After the key to switch workspaces, a single digit names the workspace;
/// anything else cancels the switch and counts as a key of its own.
pub open spec fn after_line(st: HandlerModel, kb: CanonicalKeybindings, line: Seq<char>) -> Reaction {
    let token = trim(line);
    if token.len() == 0 {
        Reaction { state: st, commands: Seq::empty() }
    } else if st.waiting_for_workspace_number {
        if token.len() == 1 && is_digit(token[0]) {
            after_workspace_digit(st, (token[0] as u32 - '0' as u32) as u32)
        } else {
            after_token(HandlerModel { waiting_for_workspace_number: false, ..st }, kb, token)
        }
    } else {
        after_token(st, kb, token)
    }
}

/// The key bindings `kb` in canonical form.
pub fn canonical_keybindings(kb: &Keybindings) -> (canonical: CanonicalKeybindings)
    ensures
        canonical.show_hide@ == canonical_keybinding(kb.show_hide@),
        canonical.type_text@ == canonical_keybinding(kb.type_text@),
        canonical.take_screenshot@ == canonical_keybinding(kb.take_screenshot@),
        canonical.record_audio@ == canonical_keybinding(kb.record_audio@),
        canonical.solve@ == canonical_keybinding(kb.solve@),
        canonical.clear@ == canonical_keybinding(kb.clear@),
        canonical.switch_to_workspace@ == canonical_keybinding(kb.switch_to_workspace@),
{
    CanonicalKeybindings {
        show_hide: to_chars(canonicalize_keybinding(kb.show_hide.as_str()).as_str()),
        type_text: to_chars(canonicalize_keybinding(kb.type_text.as_str()).as_str()),
        take_screenshot: to_chars(canonicalize_keybinding(kb.take_screenshot.as_str()).as_str()),
        record_audio: to_chars(canonicalize_keybinding(kb.record_audio.as_str()).as_str()),
        solve: to_chars(canonicalize_keybinding(kb.solve.as_str()).as_str()),
        clear: to_chars(canonicalize_keybinding(kb.clear.as_str()).as_str()),
        switch_to_workspace: to_chars(
            canonicalize_keybinding(kb.switch_to_workspace.as_str()).as_str(),
        ),
    }
}

/// The string of `a` followed by `b`.
fn concat_string(a: &Vec<char>, b: &Vec<char>) -> (s: String)
    ensures
        s@ == a@ + b@,
{
    let mut s = from_chars(a);
    let mut i: usize = 0;
    while i < b.len()
        invariant
            i <= b.len(),
            s@ == a@ + b@.take(i as int),
        decreases b.len() - i,
    {
        s.push(b[i]);
        i += 1;
        proof {
            assert(s@ =~= a@ + b@.take(i as int));
        }
    }
    proof {
        assert(b@.take(b.len() as int) =~= b@);
    }
    s
}

impl HandlerState {
    /// The state at the start: on the first workspace, which counts as
    /// entered, with nothing held and nothing recorded.
    pub fn new() -> (state: HandlerState)
        ensures
            state@ == (HandlerModel {
                current_workspace: FIRST_WORKSPACE,
                known_workspaces: seq![FIRST_WORKSPACE],
                in_recording_mode: false,
                key_buffer: Seq::empty(),
                log_snapshot: Seq::empty(),
                active_modifiers: Seq::empty(),
                waiting_for_workspace_number: false,
            }),
    {
        let mut known: Vec<u32> = Vec::new();
        known.push(FIRST_WORKSPACE);
        let state = HandlerState {
            current_workspace: FIRST_WORKSPACE,
            known_workspaces: known,
            in_recording_mode: false,
            key_buffer: Vec::new(),
            log_snapshot: Vec::new(),
            active_modifiers: Vec::new(),
            waiting_for_workspace_number: false,
        };
        proof {
            assert(state.known_workspaces@ =~= seq![FIRST_WORKSPACE]);
            assert(texts(state.active_modifiers@) =~= Seq::<Seq<char>>::empty());
        }
        state
    }

    fn workspace_digit(&mut self, digit: u32) -> (commands: Vec<Command>)
        ensures
            (Reaction { state: final(self)@, commands: command_views(commands@) })
                == after_workspace_digit(old(self)@, digit),
    {
        let mut commands: Vec<Command> = Vec::new();
        self.waiting_for_workspace_number = false;
        self.active_modifiers = Vec::new();
        proof {
            assert(texts(self.active_modifiers@) =~= Seq::<Seq<char>>::empty());
        }
        if digit != 0 && digit != self.current_workspace {
            let mut known = false;
            let mut i: usize = 0;
            while i < self.known_workspaces.len()
                invariant
                    i <= self.known_workspaces.len(),
                    known == self.known_workspaces@.take(i as int).contains(digit),
                decreases self.known_workspaces.len() - i,
            {
                proof {
                    let before = self.known_workspaces@.take(i as int);
                    let after = self.known_workspaces@.take(i + 1);
                    assert(after =~= before.push(self.known_workspaces@[i as int]));
                    if before.contains(digit) {
                        let k = choose|k: int| 0 <= k < before.len() && before[k] == digit;
                        assert(after[k] == digit);
                    }
                    if self.known_workspaces@[i as int] == digit {
                        assert(after[i as int] == digit);
                    }
                    if after.contains(digit) && self.known_workspaces@[i as int] != digit {
                        let k = choose|k: int| 0 <= k < after.len() && after[k] == digit;
                        assert(before[k] == digit);
                    }
                }
                if self.known_workspaces[i] == digit {
                    known = true;
                }
                i += 1;
            }
            proof {
                assert(self.known_workspaces@.take(self.known_workspaces.len() as int)
                    =~= self.known_workspaces@);
            }
            self.current_workspace = digit;
            if !known {
                self.known_workspaces.push(digit);
            }
            commands.push(Command::SwitchWorkspace { workspace: digit, first_time: !known });
        }
        proof {
            assert(command_views(commands@) =~= after_workspace_digit(old(self)@, digit).commands);
        }
        commands
    }

    fn modifier(&mut self, switch_key: &Vec<char>, token: &str)
        ensures
            (Reaction { state: final(self)@, commands: Seq::empty() }) == after_modifier(
                old(self)@,
                switch_key@,
                token@,
            ),
    {
        let mut held = false;
        let mut i: usize = 0;
        let ghost tokens = texts(self.active_modifiers@);
        while i < self.active_modifiers.len()
            invariant
                i <= self.active_modifiers.len(),
                tokens == texts(self.active_modifiers@),
                held == tokens.take(i as int).contains(token@),
            decreases self.active_modifiers.len() - i,
        {
            proof {
                let before = tokens.take(i as int);
                let after = tokens.take(i + 1);
                assert(after =~= before.push(tokens[i as int]));
                if before.contains(token@) {
                    let k = choose|k: int| 0 <= k < before.len() && before[k] == token@;
                    assert(after[k] == token@);
                }
                if tokens[i as int] == token@ {
                    assert(after[i as int] == token@);
                }
                if after.contains(token@) && tokens[i as int] != token@ {
                    let k = choose|k: int| 0 <= k < after.len() && after[k] == token@;
                    assert(before[k] == token@);
                }
            }
            if same_text(self.active_modifiers[i].as_str(), token) {
                held = true;
            }
            i += 1;
        }
        proof {
            assert(tokens.take(self.active_modifiers.len() as int) =~= tokens);
        }
        if !held {
            self.active_modifiers.push(String::from_str(token));
            proof {
                assert(texts(self.active_modifiers@) =~= tokens.push(token@));
            }
        }
        let name = to_chars(get_canonical_modifier(token));
        if eq_ignore_ascii_case(&name, switch_key) {
            self.waiting_for_workspace_number = true;
        }
    }

    fn typing(&mut self, token: &str) -> (commands: Vec<Command>)
        ensures
            (Reaction { state: final(self)@, commands: command_views(commands@) }) == after_typing(
                old(self)@,
                token@,
            ),
    {
        let mut commands: Vec<Command> = Vec::new();
        let chars = to_chars(token);
        let bracketed = chars.len() > 0 && chars[0] == '[' && chars[chars.len() - 1] == ']';
        if same_text(token, "[Space]") {
            self.key_buffer.push(' ');
        } else if same_text(token, "[Backspace]") {
            if self.key_buffer.len() > 0 {
                self.key_buffer.pop();
            }
        } else if bracketed {
            proof {
                assert(command_views(commands@) =~= Seq::<CommandModel>::empty());
            }
            return commands;
        } else {
            let mut i: usize = 0;
            while i < chars.len()
                invariant
                    i <= chars.len(),
                    self.key_buffer@ == old(self).key_buffer@ + chars@.take(i as int),
                    self.current_workspace == old(self).current_workspace,
                    self.known_workspaces == old(self).known_workspaces,
                    self.in_recording_mode == old(self).in_recording_mode,
                    self.log_snapshot == old(self).log_snapshot,
                    self.active_modifiers == old(self).active_modifiers,
                    self.waiting_for_workspace_number == old(self).waiting_for_workspace_number,
                decreases chars.len() - i,
            {
                self.key_buffer.push(chars[i]);
                i += 1;
                proof {
                    assert(self.key_buffer@ =~= old(self).key_buffer@ + chars@.take(i as int));
                }
            }
            proof {
                assert(chars@.take(chars.len() as int) =~= chars@);
            }
        }
        let content = concat_string(&self.log_snapshot, &self.key_buffer);
        let command = Command::WriteLog(content);
        commands.push(command);
        proof {
            assert(command_views(commands@) =~= seq![command@]);
        }
        commands
    }

    fn solve(&mut self) -> (commands: Vec<Command>)
        ensures
            (Reaction { state: final(self)@, commands: command_views(commands@) }) == after_solve(
                old(self)@,
            ),
    {
        let mut commands: Vec<Command> = Vec::new();
        if self.in_recording_mode {
            self.in_recording_mode = false;
            if self.key_buffer.len() > 0 {
                let mut content = concat_string(&self.log_snapshot, &self.key_buffer);
                content.push(' ');
                content.push(' ');
                content.push('\n');
                let mut line = from_chars(&trim_chars(&self.key_buffer));
                line.push('\n');
                line.append("/ask");
                let write = Command::WriteLog(content);
                let send = Command::Send(line);
                proof {
                    assert(content@ =~= old(self)@.log_snapshot + old(self)@.key_buffer + seq![
                        ' ',
                        ' ',
                        '\n',
                    ]);
                    assert(line@ =~= trim(old(self)@.key_buffer) + seq!['\n'] + ask());
                }
                commands.push(write);
                commands.push(send);
                proof {
                    assert(command_views(commands@) =~= seq![write@, send@]);
                }
            } else {
                let write = Command::WriteLog(from_chars(&self.log_snapshot));
                let send = Command::Send(String::from_str("/ask"));
                commands.push(write);
                commands.push(send);
                proof {
                    assert(command_views(commands@) =~= seq![write@, send@]);
                }
            }
            self.key_buffer = Vec::new();
            self.log_snapshot = Vec::new();
        } else {
            let send = Command::Send(String::from_str("/ask"));
            commands.push(send);
            proof {
                assert(command_views(commands@) =~= seq![send@]);
            }
        }
        commands
    }

    fn combo(&mut self, kb: &CanonicalKeybindings, token: &str) -> (commands: Vec<Command>)
        ensures
            (Reaction { state: final(self)@, commands: command_views(commands@) }) == after_combo(
                old(self)@,
                *kb,
                token@,
            ),
    {
        let mut commands: Vec<Command> = Vec::new();
        let name = combo_string(&self.active_modifiers, token);
        if eq_ignore_ascii_case(&name, &kb.take_screenshot) {
            commands.push(Command::Screenshot);
            proof {
                assert(command_views(commands@) =~= seq![CommandModel::Screenshot]);
            }
        } else if eq_ignore_ascii_case(&name, &kb.type_text) {
            if !self.in_recording_mode {
                self.in_recording_mode = true;
                self.key_buffer = Vec::new();
                commands.push(Command::BeginRecording);
                proof {
                    assert(command_views(commands@) =~= seq![CommandModel::BeginRecording]);
                }
            } else {
                proof {
                    assert(command_views(commands@) =~= Seq::<CommandModel>::empty());
                }
            }
        } else if eq_ignore_ascii_case(&name, &kb.show_hide) {
            commands.push(Command::ToggleOverlay);
            proof {
                assert(command_views(commands@) =~= seq![CommandModel::ToggleOverlay]);
            }
        } else if eq_ignore_ascii_case(&name, &kb.clear) {
            if self.in_recording_mode {
                self.key_buffer = Vec::new();
                self.log_snapshot = Vec::new();
            }
            let send = Command::Send(String::from_str("/restart"));
            commands.push(Command::ClearLog);
            commands.push(send);
            proof {
                assert(command_views(commands@) =~= seq![CommandModel::ClearLog, send@]);
            }
        } else if eq_ignore_ascii_case(&name, &kb.solve) {
            return self.solve();
        } else {
            proof {
                assert(command_views(commands@) =~= Seq::<CommandModel>::empty());
            }
        }
        commands
    }

    fn key(&mut self, kb: &CanonicalKeybindings, token: &str) -> (commands: Vec<Command>)
        ensures
            (Reaction { state: final(self)@, commands: command_views(commands@) }) == after_key(
                old(self)@,
                *kb,
                token@,
            ),
    {
        let commands = if self.active_modifiers.len() > 0 {
            self.combo(kb, token)
        } else if self.in_recording_mode {
            self.typing(token)
        } else {
            let none: Vec<Command> = Vec::new();
            proof {
                assert(command_views(none@) =~= Seq::<CommandModel>::empty());
            }
            none
        };
        self.active_modifiers = Vec::new();
        proof {
            assert(texts(self.active_modifiers@) =~= Seq::<Seq<char>>::empty());
        }
        commands
    }

    fn token(&mut self, kb: &CanonicalKeybindings, token: &str) -> (commands: Vec<Command>)
        ensures
            (Reaction { state: final(self)@, commands: command_views(commands@) }) == after_token(
                old(self)@,
                *kb,
                token@,
            ),
    {
        if get_canonical_modifier(token).is_empty() {
            self.key(kb, token)
        } else {
            self.modifier(&kb.switch_to_workspace, token);
            let none: Vec<Command> = Vec::new();
            proof {
                assert(command_views(none@) =~= Seq::<CommandModel>::empty());
            }
            none
        }
    }

    /// Takes one line of the log of keys: changes the state, and returns the
    /// commands to carry out, in order.
    pub fn handle_line(&mut self, kb: &CanonicalKeybindings, line: &str) -> (commands: Vec<Command>)
        ensures
            (Reaction { state: final(self)@, commands: command_views(commands@) }) == after_line(
                old(self)@,
                *kb,
                line@,
            ),
    {
        let chars = trim_chars(&to_chars(line));
        if chars.len() == 0 {
            let none: Vec<Command> = Vec::new();
            proof {
                assert(command_views(none@) =~= Seq::<CommandModel>::empty());
            }
            return none;
        }
        let token = from_chars(&chars);
        if self.waiting_for_workspace_number {
            if chars.len() == 1 && char_is_digit(chars[0]) {
                let digit: u32 = chars[0] as u32 - 48;
                return self.workspace_digit(digit);
            }
            self.waiting_for_workspace_number = false;
        }
        self.token(kb, token.as_str())
    }

    /// Takes what the text file of the workspace held when recording began;
    /// `content` is empty where the file could not be read. Returns what the
    /// file is to hold now: what it held, with a line break at its end, and an
    /// empty line.
    pub fn recording_started(&mut self, content: &str) -> (written: String)
        ensures
            final(self)@ == (HandlerModel { log_snapshot: written@, ..old(self)@ }),
            written@ == if content@.len() > 0 && content@.last() != '\n' {
                content@.push('\n').push('\n')
            } else {
                content@.push('\n')
            },
    {
        let mut snapshot = to_chars(content);
        let n = snapshot.len();
        if n > 0 && snapshot[n - 1] != '\n' {
            snapshot.push('\n');
        }
        snapshot.push('\n');
        let written = from_chars(&snapshot);
        self.log_snapshot = snapshot;
        written
    }
}

/// Where to read a file from that has grown to `current_len` bytes since it
/// was read up to `last_pos`: nowhere if it has the same length, from its
/// start if it has become shorter, and else from where it was read up to.
pub open spec fn read_start(last_pos: u64, current_len: u64) -> Option<u64> {
    if current_len == last_pos {
        None
    } else if current_len < last_pos {
        Some(0u64)
    } else {
        Some(last_pos)
    }
}

/// Where to read new content from, if there is any; after reading, the file
/// has been read up to `current_len`.
pub fn read_new_content(last_pos: u64, current_len: u64) -> (start: Option<u64>)
    ensures
        start == read_start(last_pos, current_len),
        start matches Some(s) ==> s <= current_len,
{
    if current_len == last_pos {
        None
    } else if current_len < last_pos {
        Some(0)
    } else {
        Some(last_pos)
    }
}

/// What the assistant's process is to do with a command.
#[derive(Debug, Clone, PartialEq, Eq)]
pub enum ProcessStep {
    /// End the process, so that a new one is started.
    Restart,
    /// Write the line to the process.
    Write(String),
}

/// What the assistant's process is to do with the command `command`: the
/// command to restart ends it, and any other is written to it as a line.
pub fn manage_command(command: &str) -> (step: ProcessStep)
    ensures
        command@ == restart() ==> step is Restart,
        command@ != restart() ==> (step matches ProcessStep::Write(line) && line@
            == command@.push('\n')),
{
    if same_text(command, "/restart") {
        ProcessStep::Restart
    } else {
        let mut line = String::from_str(command);
        line.push('\n');
        ProcessStep::Write(line)
    }
}

/// The name of the file of a screenshot of workspace `workspace` taken at
/// the time that `timestamp` writes.
pub open spec fn screenshot_file(workspace: u32, timestamp: Seq<char>) -> Seq<char> {
    "screenshot-ws"@ + decimal(workspace as nat) + seq!['-'] + timestamp + ".jpeg"@
}

/// The name of the file of a screenshot.
pub fn screenshot_name(workspace: u32, timestamp: &str) -> (name: String)
    ensures
        name@ == screenshot_file(workspace, timestamp@),
{
    let mut name = String::from_str("screenshot-ws");
    push_decimal(&mut name, workspace as u64);
    name.push('-');
    name.append(timestamp);
    name.append(".jpeg");
    proof {
        assert(name@ =~= screenshot_file(workspace, timestamp@));
    }
    name
}

} // verus!
