//! The D-Bus interfaces, one trait each. The daemon serves them; a method
//! name maps to its `PascalCase` form on the bus.
use vstd::prelude::*;
use super::exceptions::ClaDbusError;
use super::structures::{ChatList, HistoryList, Question, Response};

verus! {

/// Chat session management and the `ask_question` entry point
/// (`com.redhat.lightspeed.chat`).
pub trait Chat {
    /// Every chat of `user_id`.
    fn get_all_chat_from_user(&self, user_id: &str) -> Result<ChatList, ClaDbusError>;

    /// Delete all chats of `user_id`.
    fn delete_all_chat_for_user(&self, user_id: &str) -> Result<(), ClaDbusError>;

    /// Delete the chat `name` of `user_id`.
    fn delete_chat_for_user(&self, user_id: &str, name: &str) -> Result<(), ClaDbusError>;

    /// The name of the latest chat of `user_id`.
    fn get_latest_chat_from_user(&self, user_id: &str) -> Result<String, ClaDbusError>;

    /// Whether `user_id` has a chat named `name`.
    fn is_chat_available(&self, user_id: &str, name: &str) -> Result<bool, ClaDbusError>;

    /// The id of the chat `name` of `user_id`.
    fn get_chat_id(&self, user_id: &str, name: &str) -> Result<String, ClaDbusError>;

    /// Create a chat and return its id.
    fn create_chat(&self, user_id: &str, name: &str, description: &str) -> Result<
        String,
        ClaDbusError,
    >;

    /// Pose a question and return the answer.
    fn ask_question(&self, user_id: &str, message_input: Question) -> Result<
        Response,
        ClaDbusError,
    >;
}

/// Conversation history (`com.redhat.lightspeed.history`).
pub trait History {
    /// The whole history of `user_id`.
    fn get_history(&self, user_id: &str) -> Result<HistoryList, ClaDbusError>;

    /// The first conversation of a chat.
    fn get_first_conversation(&self, user_id: &str, from_chat: &str) -> Result<
        HistoryList,
        ClaDbusError,
    >;

    /// The latest conversation of a chat.
    fn get_last_conversation(&self, user_id: &str, from_chat: &str) -> Result<
        HistoryList,
        ClaDbusError,
    >;

    /// The conversations of a chat that match `filter`.
    fn get_filtered_conversation(&self, user_id: &str, filter: &str, from_chat: &str) -> Result<
        HistoryList,
        ClaDbusError,
    >;

    /// Erase all history of `user_id`.
    fn clear_all_history(&self, user_id: &str) -> Result<(), ClaDbusError>;

    /// Erase the history of one chat.
    fn clear_history(&self, user_id: &str, from_chat: &str) -> Result<(), ClaDbusError>;

    /// Store a question and its response for a chat.
    fn write_history(&self, chat_id: &str, user_id: &str, question: &str, response: &str) -> Result<
        (),
        ClaDbusError,
    >;
}

/// User identity (`com.redhat.lightspeed.user`).
pub trait User {
    /// The internal user id of an effective Unix user id.
    fn get_user_id(&self, effective_user_id: u32) -> Result<String, ClaDbusError>;
}

} // verus!
