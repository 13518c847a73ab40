//! Data exchanged over D-Bus. On the wire each is a dictionary (`a{sv}`).
use vstd::prelude::*;

verus! {

/// A chat session record.
#[derive(Clone, Debug)]
pub struct ChatEntry {
    /// Chat identifier (UUID text).
    pub id: String,
    /// Chat name.
    pub name: String,
    /// Description of the chat.
    pub description: String,
    /// Creation timestamp.
    pub created_at: String,
    /// Last update timestamp.
    pub updated_at: String,
    /// Deletion timestamp; `None` while the chat is active.
    pub deleted_at: Option<String>,
}

/// The chats returned by list operations.
#[derive(Clone, Debug)]
pub struct ChatList {
    pub chats: Vec<ChatEntry>,
}

/// An attachment sent with a question.
#[derive(Clone, Debug)]
pub struct AttachmentInput {
    /// Attachment contents.
    pub contents: String,
    /// MIME type of the attachment.
    pub mimetype: String,
}

/// Data piped through stdin with a question.
#[derive(Clone, Debug)]
pub struct StdinInput {
    pub stdin: String,
}

/// Captured terminal output sent with a question.
#[derive(Clone, Debug)]
pub struct TerminalInput {
    pub output: String,
}

/// Host system information sent with a question.
#[derive(Clone, Debug)]
pub struct SystemInfo {
    /// Operating system name.
    pub os: String,
    /// OS version.
    pub version: String,
    /// CPU architecture.
    pub arch: String,
    /// Platform identifier.
    pub id: String,
}

/// A question sent to the assistant. Everything but `message` is optional.
#[derive(Clone, Debug)]
pub struct Question {
    /// The user's text.
    pub message: String,
    /// Piped stdin.
    pub stdin: Option<StdinInput>,
    /// File attachment.
    pub attachment: Option<AttachmentInput>,
    /// Terminal output.
    pub terminal: Option<TerminalInput>,
    /// Host system information.
    pub systeminfo: Option<SystemInfo>,
    /// Chat (by name) whose history is attached as conversation context;
    /// `None` keeps the question single-turn.
    pub context_chat: Option<String>,
}

/// The assistant's answer.
#[derive(Clone, Debug)]
pub struct Response {
    pub message: String,
}

/// One conversation stored in history.
#[derive(Clone, Debug)]
pub struct HistoryEntry {
    /// Entry identifier.
    pub id: String,
    /// Chat this entry belongs to.
    pub chat_id: String,
    /// The question asked.
    pub question: String,
    /// The response received.
    pub response: String,
    /// Creation timestamp.
    pub created_at: String,
}

impl View for HistoryEntry {
    type V = (Seq<char>, Seq<char>, Seq<char>, Seq<char>, Seq<char>);

    /// Its id, chat id, question, response and creation time.
    open spec fn view(&self) -> (Seq<char>, Seq<char>, Seq<char>, Seq<char>, Seq<char>) {
        (self.id@, self.chat_id@, self.question@, self.response@, self.created_at@)
    }
}

impl HistoryEntry {
    /// A copy of this entry.
    pub fn duplicate(&self) -> (r: Self)
        ensures
            r@ == self@,
    {
        HistoryEntry {
            id: self.id.clone(),
            chat_id: self.chat_id.clone(),
            question: self.question.clone(),
            response: self.response.clone(),
            created_at: self.created_at.clone(),
        }
    }
}

/// A collection of history entries.
#[derive(Clone, Debug)]
pub struct HistoryList {
    pub histories: Vec<HistoryEntry>,
}

} // verus!
