//! Rows of the SQLite tables.
use vstd::prelude::*;

verus! {

/// A named chat session that groups related history entries.
#[derive(Clone, Debug)]
pub struct ChatModel {
    pub id: String,
    pub user_id: String,
    pub name: String,
    pub description: Option<String>,
    pub created_at: String,
    pub updated_at: String,
    pub deleted_at: Option<String>,
}

/// A history record of a chat, holding zero or more interactions.
#[derive(Clone, Debug)]
pub struct HistoryModel {
    pub id: String,
    pub user_id: String,
    pub chat_id: String,
    pub created_at: String,
    pub updated_at: String,
    /// Compacted summary of earlier turns; `None` until the conversation is
    /// compacted.
    pub summary: Option<String>,
    pub deleted_at: Option<String>,
}

/// One question/response pair of a history record.
#[derive(Clone, Debug)]
pub struct InteractionModel {
    pub id: String,
    pub history_id: String,
    pub question: String,
    pub response: String,
    pub created_at: String,
    pub updated_at: String,
    /// Whether this turn has been folded into the history summary.
    pub summarized: bool,
    pub deleted_at: Option<String>,
}

/// The conversation context of a chat: its summary, if any, and the turns not
/// yet folded into it.
#[derive(Clone, Debug)]
pub struct ChatContext {
    pub history_id: String,
    pub summary: Option<String>,
    pub interactions: Vec<InteractionModel>,
}

} // verus!
