//! The command line: global flags and subcommands.
use vstd::prelude::*;

verus! {

/// Command Line Assistant: an AI-driven assistant for system management,
/// available directly from the command line.
#[derive(Clone, Debug)]
pub struct Cli {
    /// Plain output (no colors, animations, or rich content).
    pub plain: bool,
    /// Debug logging.
    pub debug: bool,
    /// The subcommand to execute.
    pub command: Option<Commands>,
}

/// The subcommands.
#[derive(Clone, Debug)]
pub enum Commands {
    /// Ask a question to the LLM.
    Chat {
        /// The question to ask.
        query_string: Option<String>,
        /// File attachment sent alongside the query.
        attachment: Option<String>,
        /// Start an interactive chat session.
        interactive: bool,
        /// Add output from the terminal as context (1 = latest).
        with_output: Option<usize>,
        /// List all chats.
        list: bool,
        /// Delete a chat by name.
        delete: Option<String>,
        /// Delete all chats.
        delete_all: bool,
        /// Name of the chat session.
        name: Option<String>,
        /// Description of the chat session.
        description: Option<String>,
    },
    /// Manage conversation history.
    History {
        /// The chat to read history from (`default` unless given).
        from_chat: String,
        /// The first conversation.
        first: bool,
        /// The last conversation.
        last: bool,
        /// A keyword to search for.
        filter: Option<String>,
        /// All conversation history.
        all: bool,
        /// Clear the history of the chat.
        clear: bool,
        /// Clear all history.
        clear_all: bool,
    },
    /// Where to send feedback.
    Feedback,
    /// Manage shell integrations.
    Shell {
        /// Capture the current terminal session.
        enable_capture: bool,
        /// Enable the interactive-mode shell integration.
        enable_interactive: bool,
        /// Disable the interactive-mode shell integration.
        disable_interactive: bool,
    },
}

/// The command run when none is given: a chat with nothing set.
pub fn default_command() -> (r: Commands)
    ensures
        r matches Commands::Chat {
            query_string: None,
            attachment: None,
            interactive: false,
            with_output: None,
            list: false,
            delete: None,
            delete_all: false,
            name: None,
            description: None,
        },
{
    Commands::Chat {
        query_string: None,
        attachment: None,
        interactive: false,
        with_output: None,
        list: false,
        delete: None,
        delete_all: false,
        name: None,
        description: None,
    }
}

} // verus!
