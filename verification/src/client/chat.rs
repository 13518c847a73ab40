//! The `chat` command as a state machine: each step takes what the last
//! daemon call brought back and gives the next state and the next action.
use vstd::prelude::*;
use crate::dbus::structures::{ChatEntry, ChatList};
use crate::session::decimal;
use crate::text::{append_str, chars_of, string_of, trim, utf8_len};
use super::commands::{
    chat_description, chat_line, chat_list_lines, chat_name, check_question, cuttable,
    QuestionCheck, DEFAULT_CHAT_DESCRIPTION, DEFAULT_CHAT_NAME, TOO_SHORT_MESSAGE, TRIMMED_MESSAGE,
};
use super::wizard::{note_views, Note, NoteKind};
use super::setup::texts;
use crate::session::char_index_at_byte;

verus! {

/// What the command asks for, from its arguments.
pub struct ChatRequest {
    pub list: bool,
    pub delete: Option<String>,
    pub delete_all: bool,
    pub interactive: bool,
    pub name: Option<String>,
    pub description: Option<String>,
}

/// Where the command stands.
#[derive(Clone, Copy, Debug, PartialEq, Eq, Structural)]
pub enum ChatStage {
    Connecting,
    ResolvingUser,
    Listing,
    Deleting,
    DeletingAll,
    LookingUp,
    Creating,
    Gathering,
    Asking,
    Showing,
    Recording,
    Done,
}

/// The command's state.
pub struct ChatState {
    pub stage: ChatStage,
    pub list: bool,
    pub delete: Option<String>,
    pub delete_all: bool,
    pub interactive: bool,
    /// The chat's name and description, defaults filled in.
    pub name: String,
    pub description: String,
    pub user_id: String,
    pub chat_id: String,
    /// The question as sent.
    pub question: String,
    /// The answer received.
    pub response: String,
}

/// What the last action brought back.
pub enum ChatEvent {
    /// The connection to the daemon, or why it failed.
    Connected(Result<(), String>),
    /// The user's ID, or why it could not be had.
    UserId(Result<String, String>),
    /// The user's chats, or why they could not be listed.
    Chats(Result<ChatList, String>),
    /// A deletion's outcome.
    Deleted(Result<(), String>),
    /// The chat's ID, or why it was not found.
    ChatId(Result<String, String>),
    /// The created chat's ID, or why it could not be created.
    Created(Result<String, String>),
    /// The question gathered from the arguments and inputs.
    Input(String),
    /// The answer, or why there is none.
    Answer(Result<String, String>),
    /// The answer was shown.
    Shown,
    /// The history was written (its outcome does not matter).
    Written,
}

/// What the command does next.
pub enum ChatAction {
    /// Connect to the daemon.
    Connect,
    /// Ask the daemon for the user's ID.
    GetUserId,
    /// List the user's chats.
    ListChats { user_id: String },
    /// Delete the chat `name`.
    DeleteChat { user_id: String, name: String },
    /// Delete all the user's chats.
    DeleteAllChats { user_id: String },
    /// Look up the chat `name`.
    GetChatId { user_id: String, name: String },
    /// Create the chat `name`.
    CreateChat { user_id: String, name: String, description: String },
    /// Run the interactive session in the chat.
    RunInteractive { user_id: String, chat_id: String },
    /// Gather the question from the arguments and inputs.
    GatherInput,
    /// Show the notes, show the legal notice once, and ask `question` with the
    /// piped input, attachment and terminal output.
    Ask { notes: Vec<Note>, user_id: String, question: String },
    /// Show the answer.
    Show(String),
    /// Record the exchange in the chat's history.
    WriteHistory { chat_id: String, user_id: String, question: String, response: String },
    /// Show the notes and end with this exit code.
    Exit { notes: Vec<Note>, code: i32 },
}

/// The state as plain values.
pub struct ChatView {
    pub stage: ChatStage,
    pub list: bool,
    pub delete: Option<Seq<char>>,
    pub delete_all: bool,
    pub interactive: bool,
    pub name: Seq<char>,
    pub description: Seq<char>,
    pub user_id: Seq<char>,
    pub chat_id: Seq<char>,
    pub question: Seq<char>,
    pub response: Seq<char>,
}

/// The optional text's view.
pub open spec fn opt_seq(o: Option<String>) -> Option<Seq<char>> {
    match o {
        Some(s) => Some(s@),
        None => None,
    }
}

impl ChatState {
    pub open spec fn view(&self) -> ChatView {
        ChatView {
            stage: self.stage,
            list: self.list,
            delete: opt_seq(self.delete),
            delete_all: self.delete_all,
            interactive: self.interactive,
            name: self.name@,
            description: self.description@,
            user_id: self.user_id@,
            chat_id: self.chat_id@,
            question: self.question@,
            response: self.response@,
        }
    }
}

/// `v` at another stage.
pub open spec fn at(v: ChatView, stage: ChatStage) -> ChatView {
    ChatView { stage, ..v }
}

/// Whether `a` shows these notes and ends with `code`.
pub open spec fn exits(a: ChatAction, notes: Seq<(NoteKind, Seq<char>)>, code: i32) -> bool {
    a matches ChatAction::Exit { notes: n, code: c } && note_views(n@) == notes && c == code
}

/// Whether `a` reports the error `prefix` followed by `e` and ends with 1.
pub open spec fn fails(a: ChatAction, prefix: Seq<char>, e: Seq<char>) -> bool {
    exits(a, seq![(NoteKind::Error, prefix + e)], 1)
}

/// The lines listing the chats.
pub open spec fn chat_listing(c: Seq<ChatEntry>) -> Seq<Seq<char>> {
    if c.len() == 0 {
        seq!["No chats available."@]
    } else {
        seq!["Found a total of "@ + decimal(c.len()) + " chats:"@] + Seq::new(
            c.len(),
            |i: int| chat_line(i as nat, c[i].name@, c[i].description@, c[i].created_at@),
        )
    }
}

/// Lines as normal notes.
pub open spec fn normal(lines: Seq<Seq<char>>) -> Seq<(NoteKind, Seq<char>)> {
    lines.map_values(|t: Seq<char>| (NoteKind::Normal, t))
}

/// What follows once the chat is known: the interactive session, or
/// gathering the question.
pub open spec fn after_chat(v: ChatView, chat_id: Seq<char>, r: (ChatState, ChatAction)) -> bool {
    if v.interactive {
        &&& r.0.view() == ChatView { stage: ChatStage::Done, chat_id, ..v }
        &&& r.1 matches ChatAction::RunInteractive { user_id, chat_id: c } && user_id@ == v.user_id && c@
            == chat_id
    } else {
        &&& r.0.view() == ChatView { stage: ChatStage::Gathering, chat_id, ..v }
        &&& r.1 is GatherInput
    }
}

/// Whether `event` is what the action of `stage` brings back.
pub open spec fn fits(stage: ChatStage, event: ChatEvent) -> bool {
    match stage {
        ChatStage::Connecting => event is Connected,
        ChatStage::ResolvingUser => event is UserId,
        ChatStage::Listing => event matches ChatEvent::Chats(c) && (c matches Ok(l) ==> l.chats@.len() <= u32::MAX),
        ChatStage::Deleting | ChatStage::DeletingAll => event is Deleted,
        ChatStage::LookingUp => event is ChatId,
        ChatStage::Creating => event is Created,
        ChatStage::Gathering => event matches ChatEvent::Input(t) && (utf8_len(trim(t@)) >= 2 ==> cuttable(t@)),
        ChatStage::Asking => event is Answer,
        ChatStage::Showing => event is Shown,
        ChatStage::Recording => event is Written,
        ChatStage::Done => false,
    }
}

/// An error note made of `a` and `b`, as the only note of an exit with 1.
fn fail(a: &str, b: &str) -> (r: ChatAction)
    ensures
        fails(r, a@, b@),
{
    let mut t = chars_of(a);
    append_str(&mut t, b);
    let notes = vec![Note { kind: NoteKind::Error, text: string_of(t.as_slice()) }];
    assert(note_views(notes@) =~= seq![(NoteKind::Error, a@ + b@)]);
    ChatAction::Exit { notes, code: 1 }
}

/// An exit with one note.
fn exit_with(kind: NoteKind, text: String, code: i32) -> (r: ChatAction)
    ensures
        exits(r, seq![(kind, text@)], code),
{
    let notes = vec![Note { kind, text }];
    assert(note_views(notes@) =~= seq![(kind, notes@[0].text@)]);
    ChatAction::Exit { notes, code }
}

/// The command's first step: connect to the daemon. The chat's name and
/// description default to those of the default chat.
pub fn chat_begin(request: ChatRequest) -> (r: (ChatState, ChatAction))
    ensures
        r.0.stage == ChatStage::Connecting,
        r.0.list == request.list,
        opt_seq(r.0.delete) == opt_seq(request.delete),
        r.0.delete_all == request.delete_all,
        r.0.interactive == request.interactive,
        r.0.name@ == match request.name {
            Some(n) => n@,
            None => DEFAULT_CHAT_NAME@,
        },
        r.0.description@ == match request.description {
            Some(d) => d@,
            None => DEFAULT_CHAT_DESCRIPTION@,
        },
        r.1 is Connect,
{
    let ChatRequest { list, delete, delete_all, interactive, name, description } = request;
    let state = ChatState {
        stage: ChatStage::Connecting,
        list,
        delete,
        delete_all,
        interactive,
        name: chat_name(name),
        description: chat_description(description),
        user_id: String::new(),
        chat_id: String::new(),
        question: String::new(),
        response: String::new(),
    };
    (state, ChatAction::Connect)
}

/// One step of the command: what the last action brought back decides the
/// next state and action.
pub fn chat_step(state: ChatState, event: ChatEvent) -> (r: (ChatState, ChatAction))
    requires
        fits(state.stage, event),
    ensures
        state.stage == ChatStage::Connecting ==> match event {
            ChatEvent::Connected(Ok(())) => r.0.view() == at(state.view(), ChatStage::ResolvingUser)
                && r.1 is GetUserId,
            ChatEvent::Connected(Err(e)) => r.0.view() == at(state.view(), ChatStage::Done) && exits(
                r.1,
                seq![(NoteKind::Error, "Failed to connect to daemon: "@ + e@)],
                69,
            ),
            _ => true,
        },
        state.stage == ChatStage::ResolvingUser ==> match event {
            ChatEvent::UserId(Err(e)) => r.0.view() == at(state.view(), ChatStage::Done) && fails(
                r.1,
                "Failed to get user ID: "@,
                e@,
            ),
            ChatEvent::UserId(Ok(u)) => {
                let v = ChatView { user_id: u@, ..state.view() };
                if state.list {
                    &&& r.0.view() == at(v, ChatStage::Listing)
                    &&& r.1 matches ChatAction::ListChats { user_id } && user_id@ == u@
                } else if state.delete is Some {
                    &&& r.0.view() == at(v, ChatStage::Deleting)
                    &&& r.1 matches ChatAction::DeleteChat { user_id, name } && user_id@ == u@ && Some(name@)
                        == opt_seq(state.delete)
                } else if state.delete_all {
                    &&& r.0.view() == at(v, ChatStage::DeletingAll)
                    &&& r.1 matches ChatAction::DeleteAllChats { user_id } && user_id@ == u@
                } else {
                    &&& r.0.view() == at(v, ChatStage::LookingUp)
                    &&& r.1 matches ChatAction::GetChatId { user_id, name } && user_id@ == u@ && name@
                        == state.name@
                }
            },
            _ => true,
        },
        state.stage == ChatStage::Listing ==> r.0.view() == at(state.view(), ChatStage::Done) && match event {
            ChatEvent::Chats(Ok(l)) => exits(r.1, normal(chat_listing(l.chats@)), 0),
            ChatEvent::Chats(Err(e)) => fails(r.1, "Failed to list chats: "@, e@),
            _ => true,
        },
        state.stage == ChatStage::Deleting ==> r.0.view() == at(state.view(), ChatStage::Done) && match event {
            ChatEvent::Deleted(Ok(())) => exits(
                r.1,
                seq![(NoteKind::Normal, "Chat "@ + match state.delete {
                    Some(n) => n@,
                    None => Seq::<char>::empty(),
                } + " deleted successfully."@)],
                0,
            ),
            ChatEvent::Deleted(Err(e)) => fails(r.1, "Failed to delete chat: "@, e@),
            _ => true,
        },
        state.stage == ChatStage::DeletingAll ==> r.0.view() == at(state.view(), ChatStage::Done) && match event {
            ChatEvent::Deleted(Ok(())) => exits(
                r.1,
                seq![(NoteKind::Normal, "Deleted all chats successfully."@)],
                0,
            ),
            ChatEvent::Deleted(Err(e)) => fails(r.1, "Failed to delete all chats: "@, e@),
            _ => true,
        },
        state.stage == ChatStage::LookingUp ==> match event {
            ChatEvent::ChatId(Ok(id)) => after_chat(state.view(), id@, r),
            ChatEvent::ChatId(Err(_)) => {
                &&& r.0.view() == at(state.view(), ChatStage::Creating)
                &&& r.1 matches ChatAction::CreateChat { user_id, name, description } && user_id@
                    == state.user_id@ && name@ == state.name@ && description@ == state.description@
            },
            _ => true,
        },
        state.stage == ChatStage::Creating ==> match event {
            ChatEvent::Created(Ok(id)) => after_chat(state.view(), id@, r),
            ChatEvent::Created(Err(e)) => r.0.view() == at(state.view(), ChatStage::Done) && fails(
                r.1,
                "Failed to create chat: "@,
                e@,
            ),
            _ => true,
        },
        state.stage == ChatStage::Gathering ==> match event {
            ChatEvent::Input(t) => if utf8_len(trim(t@)) < 2 {
                &&& r.0.view() == at(state.view(), ChatStage::Done)
                &&& exits(r.1, seq![(NoteKind::Error, TOO_SHORT_MESSAGE@)], 1)
            } else {
                let q = if utf8_len(t@) > 32000 {
                    t@.take(char_index_at_byte(t@, 32000)->0 as int)
                } else {
                    t@
                };
                &&& r.0.view() == ChatView { stage: ChatStage::Asking, question: q, ..state.view() }
                &&& r.1 matches ChatAction::Ask { notes, user_id, question }
                &&& note_views(notes@) == if utf8_len(t@) > 32000 {
                    seq![(NoteKind::Warning, TRIMMED_MESSAGE@)]
                } else {
                    seq![]
                }
                &&& user_id@ == state.user_id@
                &&& question@ == q
            },
            _ => true,
        },
        state.stage == ChatStage::Asking ==> match event {
            ChatEvent::Answer(Ok(a)) => {
                &&& r.0.view() == ChatView { stage: ChatStage::Showing, response: a@, ..state.view() }
                &&& r.1 matches ChatAction::Show(s) && s@ == a@
            },
            ChatEvent::Answer(Err(e)) => r.0.view() == at(state.view(), ChatStage::Done) && fails(
                r.1,
                "Failed to get response: "@,
                e@,
            ),
            _ => true,
        },
        state.stage == ChatStage::Showing ==> {
            &&& r.0.view() == at(state.view(), ChatStage::Recording)
            &&& r.1 matches ChatAction::WriteHistory { chat_id, user_id, question, response }
            &&& chat_id@ == state.chat_id@
            &&& user_id@ == state.user_id@
            &&& question@ == state.question@
            &&& response@ == state.response@
        },
        state.stage == ChatStage::Recording ==> r.0.view() == at(state.view(), ChatStage::Done)
            && exits(r.1, seq![], 0),
{
    let mut s = state;
    match s.stage {
        ChatStage::Connecting => match event {
            ChatEvent::Connected(Ok(())) => {
                s.stage = ChatStage::ResolvingUser;
                (s, ChatAction::GetUserId)
            },
            ChatEvent::Connected(Err(e)) => {
                s.stage = ChatStage::Done;
                let mut t = chars_of("Failed to connect to daemon: ");
                append_str(&mut t, e.as_str());
                let msg = string_of(t.as_slice());
                (s, exit_with(NoteKind::Error, msg, 69))
            },
            _ => {
                s.stage = ChatStage::Done;
                (s, fail("", ""))
            },
        },
        ChatStage::ResolvingUser => match event {
            ChatEvent::UserId(Err(e)) => {
                s.stage = ChatStage::Done;
                (s, fail("Failed to get user ID: ", e.as_str()))
            },
            ChatEvent::UserId(Ok(u)) => {
                s.user_id = u;
                let uid = s.user_id.clone();
                if s.list {
                    s.stage = ChatStage::Listing;
                    (s, ChatAction::ListChats { user_id: uid })
                } else if s.delete.is_some() {
                    s.stage = ChatStage::Deleting;
                    let name = match &s.delete {
                        Some(n) => n.clone(),
                        None => String::new(),
                    };
                    (s, ChatAction::DeleteChat { user_id: uid, name })
                } else if s.delete_all {
                    s.stage = ChatStage::DeletingAll;
                    (s, ChatAction::DeleteAllChats { user_id: uid })
                } else {
                    s.stage = ChatStage::LookingUp;
                    let name = s.name.clone();
                    (s, ChatAction::GetChatId { user_id: uid, name })
                }
            },
            _ => {
                s.stage = ChatStage::Done;
                (s, fail("", ""))
            },
        },
        ChatStage::Listing => {
            s.stage = ChatStage::Done;
            match event {
                ChatEvent::Chats(Ok(l)) => {
                    let lines = chat_list_lines(&l);
                    let ghost lv = texts(lines@);
                    let mut notes: Vec<Note> = Vec::new();
                    let mut i: usize = 0;
                    while i < lines.len()
                        invariant
                            i <= lines.len(),
                            lv == texts(lines@),
                            note_views(notes@) == normal(lv.take(i as int)),
                        decreases lines.len() - i,
                    {
                        notes.push(Note { kind: NoteKind::Normal, text: lines[i].clone() });
                        assert(normal(lv.take(i + 1)) =~= normal(lv.take(i as int)).push((NoteKind::Normal, lv[i as int])));
                        assert(note_views(notes@) =~= note_views(notes@.drop_last()).push((NoteKind::Normal, lv[i as int])));
                        i += 1;
                    }
                    proof {
                        assert(lv.take(lines.len() as int) =~= lv);
                        let c = l.chats@;
                        if c.len() == 0 {
                            assert(lv =~= chat_listing(c));
                        } else {
                            let want = chat_listing(c);
                            assert(want.len() == lv.len());
                            assert forall|k: int| 0 <= k < lv.len() implies lv[k] == want[k] by {
                                if k > 0 {
                                    assert(lines@[(k - 1) + 1]@ == chat_line(
                                        (k - 1) as nat,
                                        c[k - 1].name@,
                                        c[k - 1].description@,
                                        c[k - 1].created_at@,
                                    ));
                                }
                            }
                            assert(lv =~= want);
                        }
                    }
                    (s, ChatAction::Exit { notes, code: 0 })
                },
                ChatEvent::Chats(Err(e)) => (s, fail("Failed to list chats: ", e.as_str())),
                _ => (s, fail("", "")),
            }
        },
        ChatStage::Deleting => {
            s.stage = ChatStage::Done;
            match event {
                ChatEvent::Deleted(Ok(())) => {
                    let mut t = chars_of("Chat ");
                    match &s.delete {
                        Some(n) => append_str(&mut t, n.as_str()),
                        None => {},
                    }
                    append_str(&mut t, " deleted successfully.");
                    let msg = string_of(t.as_slice());
                    (s, exit_with(NoteKind::Normal, msg, 0))
                },
                ChatEvent::Deleted(Err(e)) => (s, fail("Failed to delete chat: ", e.as_str())),
                _ => (s, fail("", "")),
            }
        },
        ChatStage::DeletingAll => {
            s.stage = ChatStage::Done;
            match event {
                ChatEvent::Deleted(Ok(())) => (s, exit_with(NoteKind::Normal, "Deleted all chats successfully.".to_owned(), 0)),
                ChatEvent::Deleted(Err(e)) => (s, fail("Failed to delete all chats: ", e.as_str())),
                _ => (s, fail("", "")),
            }
        },
        ChatStage::LookingUp => match event {
            ChatEvent::ChatId(Ok(id)) => next_after_chat(s, id),
            ChatEvent::ChatId(Err(_)) => {
                s.stage = ChatStage::Creating;
                let uid = s.user_id.clone();
                let name = s.name.clone();
                let description = s.description.clone();
                (s, ChatAction::CreateChat { user_id: uid, name, description })
            },
            _ => {
                s.stage = ChatStage::Done;
                (s, fail("", ""))
            },
        },
        ChatStage::Creating => match event {
            ChatEvent::Created(Ok(id)) => next_after_chat(s, id),
            ChatEvent::Created(Err(e)) => {
                s.stage = ChatStage::Done;
                (s, fail("Failed to create chat: ", e.as_str()))
            },
            _ => {
                s.stage = ChatStage::Done;
                (s, fail("", ""))
            },
        },
        ChatStage::Gathering => match event {
            ChatEvent::Input(t) => match check_question(t.as_str()) {
                QuestionCheck::TooShort => {
                    s.stage = ChatStage::Done;
                    (s, exit_with(NoteKind::Error, TOO_SHORT_MESSAGE.to_owned(), 1))
                },
                QuestionCheck::Ready { text, trimmed } => {
                    let mut notes: Vec<Note> = Vec::new();
                    if trimmed {
                        notes.push(Note { kind: NoteKind::Warning, text: TRIMMED_MESSAGE.to_owned() });
                        assert(note_views(notes@) =~= seq![(NoteKind::Warning, TRIMMED_MESSAGE@)]);
                    } else {
                        assert(note_views(notes@) =~= seq![]);
                    }
                    s.stage = ChatStage::Asking;
                    s.question = text;
                    let uid = s.user_id.clone();
                    let q = s.question.clone();
                    (s, ChatAction::Ask { notes, user_id: uid, question: q })
                },
            },
            _ => {
                s.stage = ChatStage::Done;
                (s, fail("", ""))
            },
        },
        ChatStage::Asking => match event {
            ChatEvent::Answer(Ok(a)) => {
                s.stage = ChatStage::Showing;
                s.response = a;
                let shown = s.response.clone();
                (s, ChatAction::Show(shown))
            },
            ChatEvent::Answer(Err(e)) => {
                s.stage = ChatStage::Done;
                (s, fail("Failed to get response: ", e.as_str()))
            },
            _ => {
                s.stage = ChatStage::Done;
                (s, fail("", ""))
            },
        },
        ChatStage::Showing => {
            s.stage = ChatStage::Recording;
            let chat_id = s.chat_id.clone();
            let user_id = s.user_id.clone();
            let question = s.question.clone();
            let response = s.response.clone();
            (s, ChatAction::WriteHistory { chat_id, user_id, question, response })
        },
        ChatStage::Recording => {
            s.stage = ChatStage::Done;
            let notes: Vec<Note> = Vec::new();
            assert(note_views(notes@) =~= seq![]);
            (s, ChatAction::Exit { notes, code: 0 })
        },
        ChatStage::Done => (s, fail("", "")),
    }
}

/// Once the chat is known: the interactive session, or gathering the question.
fn next_after_chat(state: ChatState, chat_id: String) -> (r: (ChatState, ChatAction))
    ensures
        after_chat(state.view(), chat_id@, r),
{
    let mut s = state;
    s.chat_id = chat_id;
    if s.interactive {
        s.stage = ChatStage::Done;
        let uid = s.user_id.clone();
        let cid = s.chat_id.clone();
        (s, ChatAction::RunInteractive { user_id: uid, chat_id: cid })
    } else {
        s.stage = ChatStage::Gathering;
        (s, ChatAction::GatherInput)
    }
}

} // verus!
