//! The full-screen conversation view: the state that keys and answers
//! change, and what is drawn from it.
use vstd::prelude::*;
use crate::text::{chars_of, push_char, string_of, trim, trim_chars};

verus! {

/// Who a conversation message is from.
#[derive(Clone, Copy, Debug, PartialEq, Eq, Structural)]
pub enum Role {
    User,
    Assistant,
    Error,
}

/// One message of the conversation.
#[derive(Clone, Debug)]
pub struct ChatMessage {
    pub role: Role,
    pub text: String,
}

/// The view's state: the conversation, the input line, and whether an
/// answer is awaited.
pub struct TuiState {
    pub messages: Vec<ChatMessage>,
    pub input: String,
    pub pending: bool,
}

/// A key pressed in the view.
#[derive(Clone, Copy, Debug)]
pub enum TuiKey {
    CtrlC,
    CtrlD,
    Enter,
    Backspace,
    Esc,
    Char(char),
    Other,
}

/// What the view does after a key.
#[derive(Clone, Debug)]
pub enum TuiAction {
    /// Leave the view.
    Quit,
    /// Send this question.
    Ask(String),
    /// Keep going.
    Continue,
}

/// The messages' (role, text) views.
pub open spec fn message_views(m: Seq<ChatMessage>) -> Seq<(Role, Seq<char>)> {
    m.map_values(|x: ChatMessage| (x.role, x.text@))
}

/// An empty view.
pub fn new_state() -> (r: TuiState)
    ensures
        r.messages@.len() == 0,
        r.input@.len() == 0,
        !r.pending,
{
    TuiState { messages: Vec::new(), input: String::new(), pending: false }
}

/// Handle a key press: Ctrl+C and Ctrl+D quit; Enter sends the trimmed
/// input (when no answer is awaited and it is not blank) and records it;
/// Backspace removes the last character; Esc clears the input; a character
/// is added to it. Other keys, and key releases, change nothing. While an
/// answer is awaited no question is sent and it stays awaited; only a
/// question sent changes the conversation or the waiting flag.
pub fn on_key(state: &mut TuiState, key: TuiKey, pressed: bool) -> (r: TuiAction)
    ensures
        old(state).pending ==> !(r is Ask) && final(state).pending,
        !(r is Ask) ==> final(state).pending == old(state).pending && message_views(final(state).messages@)
            == message_views(old(state).messages@),
        !pressed ==> r is Continue && final(state).input@ == old(state).input@,
        pressed ==> match key {
            TuiKey::CtrlC | TuiKey::CtrlD => r is Quit && final(state).input@ == old(state).input@,
            TuiKey::Enter => if !old(state).pending && trim(old(state).input@).len() > 0 {
                &&& r matches TuiAction::Ask(q) && q@ == trim(old(state).input@)
                &&& message_views(final(state).messages@) == message_views(old(state).messages@).push((Role::User, trim(old(state).input@)))
                &&& final(state).input@.len() == 0
                &&& final(state).pending
            } else {
                r is Continue && final(state).input@ == old(state).input@
            },
            TuiKey::Backspace => r is Continue && final(state).input@ == (if old(state).input@.len() > 0 { old(state).input@.drop_last() } else { old(state).input@ }),
            TuiKey::Esc => r is Continue && final(state).input@.len() == 0,
            TuiKey::Char(c) => r is Continue && final(state).input@ == old(state).input@.push(c),
            TuiKey::Other => r is Continue && final(state).input@ == old(state).input@,
        },
{
    if !pressed {
        return TuiAction::Continue;
    }
    match key {
        TuiKey::CtrlC | TuiKey::CtrlD => TuiAction::Quit,
        TuiKey::Enter => {
            let v = chars_of(state.input.as_str());
            let t = trim_chars(v.as_slice());
            if !state.pending && t.len() > 0 {
                let q = string_of(t.as_slice());
                let ghost before = state.messages@;
                state.messages.push(ChatMessage { role: Role::User, text: string_of(t.as_slice()) });
                assert(message_views(state.messages@) =~= message_views(before).push((Role::User, t@)));
                state.input = String::new();
                state.pending = true;
                TuiAction::Ask(q)
            } else {
                TuiAction::Continue
            }
        },
        TuiKey::Backspace => {
            let mut v = chars_of(state.input.as_str());
            if v.len() > 0 {
                v.pop();
            }
            state.input = string_of(v.as_slice());
            TuiAction::Continue
        },
        TuiKey::Esc => {
            state.input = String::new();
            TuiAction::Continue
        },
        TuiKey::Char(c) => {
            push_char(&mut state.input, c);
            TuiAction::Continue
        },
        TuiKey::Other => TuiAction::Continue,
    }
}

/// Record an answer (or the error that came instead) and stop waiting.
pub fn on_response(state: &mut TuiState, response: Result<String, String>)
    ensures
        !final(state).pending,
        final(state).input@ == old(state).input@,
        message_views(final(state).messages@) == message_views(old(state).messages@).push(
            match response {
                Ok(t) => (Role::Assistant, t@),
                Err(e) => (Role::Error, e@),
            },
        ),
{
    let ghost before = state.messages@;
    let ghost rv = match &response {
        Ok(t) => (Role::Assistant, t@),
        Err(e) => (Role::Error, e@),
    };
    let m = match response {
        Ok(text) => ChatMessage { role: Role::Assistant, text },
        Err(text) => ChatMessage { role: Role::Error, text },
    };
    state.messages.push(m);
    assert(message_views(state.messages@) =~= message_views(before).push(rv));
    state.pending = false;
}

/// The color a conversation line is drawn in.
#[derive(Clone, Copy, Debug, PartialEq, Eq, Structural)]
pub enum LineColor {
    Cyan,
    Green,
    Red,
    Yellow,
}

/// A drawn conversation line: a label in a color and the message text.
#[derive(Clone, Debug)]
pub struct ConversationLine {
    pub label: String,
    pub color: LineColor,
    pub text: String,
}

/// The label and color of each role.
pub open spec fn role_label(role: Role) -> (Seq<char>, LineColor) {
    match role {
        Role::User => ("You: "@, LineColor::Cyan),
        Role::Assistant => ("Assistant: "@, LineColor::Green),
        Role::Error => ("Error: "@, LineColor::Red),
    }
}

/// The lines of the conversation list: one per message, labelled by role,
/// then `Asking...` in yellow while an answer is awaited.
pub fn conversation_lines(state: &TuiState) -> (r: Vec<ConversationLine>)
    ensures
        r@.len() == state.messages@.len() + if state.pending { 1int } else { 0int },
        forall|i: int| 0 <= i < state.messages@.len() ==> {
            let m = #[trigger] state.messages@[i];
            r@[i].label@ == role_label(m.role).0 && r@[i].color == role_label(m.role).1 && r@[i].text@ == m.text@
        },
        state.pending ==> r@[state.messages@.len() as int].label@ == "Asking..."@
            && r@[state.messages@.len() as int].color == LineColor::Yellow
            && r@[state.messages@.len() as int].text@.len() == 0,
{
    let mut out: Vec<ConversationLine> = Vec::new();
    let mut i: usize = 0;
    while i < state.messages.len()
        invariant
            i <= state.messages.len(),
            out@.len() == i,
            forall|j: int| 0 <= j < i ==> {
                let m = #[trigger] state.messages@[j];
                out@[j].label@ == role_label(m.role).0 && out@[j].color == role_label(m.role).1 && out@[j].text@ == m.text@
            },
        decreases state.messages.len() - i,
    {
        let m = &state.messages[i];
        let (label, color) = match m.role {
            Role::User => ("You: ".to_owned(), LineColor::Cyan),
            Role::Assistant => ("Assistant: ".to_owned(), LineColor::Green),
            Role::Error => ("Error: ".to_owned(), LineColor::Red),
        };
        out.push(ConversationLine { label, color, text: m.text.clone() });
        i += 1;
    }
    if state.pending {
        out.push(ConversationLine { label: "Asking...".to_owned(), color: LineColor::Yellow, text: String::new() });
    }
    out
}

/// The selected line: the latest message, if any.
pub fn selected_line(state: &TuiState) -> (r: Option<usize>)
    ensures
        state.messages@.len() == 0 ==> r is None,
        state.messages@.len() > 0 ==> r == Some((state.messages@.len() - 1) as usize),
{
    if state.messages.len() == 0 {
        None
    } else {
        Some(state.messages.len() - 1)
    }
}

/// The view's title.
pub const TITLE: &'static str = "cli-assistant interactive chat";

/// The key help shown under the input.
pub const KEY_HELP: &'static str = "Enter send, Esc clear, Ctrl+C/Ctrl+D quit";

} // verus!
