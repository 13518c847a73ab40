//! Error type of the command-line assistant, with an exit code for each
//! command domain.
//!
//! Underlying errors from the standard library and outside crates are kept as
//! their messages.
use vstd::prelude::*;
use crate::text::{append_str, chars_of, ends_with, string_of};

verus! {

/// Base error type for all assistant operations.
#[derive(Clone, Debug)]
#[allow(inconsistent_fields)]
pub enum ClaError {
    /// Chat command failed.
    ChatCommand { message: String, source: Option<String> },
    /// Shell command failed.
    ShellCommand { message: String, source: Option<String> },
    /// History command failed.
    HistoryCommand { message: String, source: Option<String> },
    /// Feedback command failed.
    FeedbackCommand { message: String, source: Option<String> },
    /// Configuration error.
    Config { message: String, source: Option<String> },
    /// Session management error.
    Session { message: String, source: Option<String> },
    /// I/O error, with the path it concerns when known.
    Io { path: Option<String>, source: String },
    /// Serialization/deserialization error.
    Serialization(String),
    /// TOML parsing error.
    TomlParse(String),
    /// UUID parsing error.
    UuidParse(String),
}

/// The exit code of each error: 80 to 83 for the command domains, 1 for the
/// rest.
pub open spec fn exit_code_of(e: ClaError) -> i32 {
    match e {
        ClaError::ChatCommand { .. } => 80,
        ClaError::ShellCommand { .. } => 81,
        ClaError::HistoryCommand { .. } => 82,
        ClaError::FeedbackCommand { .. } => 83,
        _ => 1,
    }
}

/// `c` as written inside a quoted string by `{:?}`.
pub open spec fn debug_char(c: char) -> Seq<char> {
    if c == '"' {
        seq!['\\', '"']
    } else if c == '\\' {
        seq!['\\', '\\']
    } else if c == '\n' {
        seq!['\\', 'n']
    } else if c == '\r' {
        seq!['\\', 'r']
    } else if c == '\t' {
        seq!['\\', 't']
    } else if c == '\0' {
        seq!['\\', '0']
    } else {
        seq![c]
    }
}

/// The characters of `s` as written inside a quoted string by `{:?}`.
pub open spec fn debug_escape(s: Seq<char>) -> Seq<char>
    decreases s.len(),
{
    if s.len() == 0 {
        seq![]
    } else {
        debug_escape(s.drop_last()) + debug_char(s.last())
    }
}

/// An optional path as written by `{:?}`.
pub open spec fn debug_path(path: Option<Seq<char>>) -> Seq<char> {
    match path {
        None => "None"@,
        Some(p) => "Some(\""@ + debug_escape(p) + "\")"@,
    }
}

/// The message of each error.
pub open spec fn error_text(e: ClaError) -> Seq<char> {
    match e {
        ClaError::ChatCommand { message, .. } => "chat command error: "@ + message@,
        ClaError::ShellCommand { message, .. } => "shell command error: "@ + message@,
        ClaError::HistoryCommand { message, .. } => "history command error: "@ + message@,
        ClaError::FeedbackCommand { message, .. } => "feedback command error: "@ + message@,
        ClaError::Config { message, .. } => "configuration error: "@ + message@,
        ClaError::Session { message, .. } => "session error: "@ + message@,
        ClaError::Io { path, source } => "I/O error at "@ + debug_path(
            match path {
                Some(p) => Some(p@),
                None => None,
            },
        ) + ": "@ + source@,
        ClaError::Serialization(m) => "serialization error: "@ + m@,
        ClaError::TomlParse(m) => "TOML parse error: "@ + m@,
        ClaError::UuidParse(m) => "UUID parse error: "@ + m@,
    }
}

/// Append `s` escaped as by `{:?}` inside quotes.
fn push_debug_escaped(out: &mut Vec<char>, s: &[char])
    ensures
        final(out)@ == old(out)@ + debug_escape(s@),
{
    let mut i: usize = 0;
    assert(s@.take(0) =~= Seq::<char>::empty());
    assert(out@ =~= out@ + debug_escape(s@.take(0)));
    let ghost start = out@;
    while i < s.len()
        invariant
            i <= s.len(),
            out@ == start + debug_escape(s@.take(i as int)),
            start == old(out)@,
        decreases s.len() - i,
    {
        let c = s[i];
        assert(s@.take(i + 1).drop_last() =~= s@.take(i as int));
        assert(s@.take(i + 1).last() == c);
        if c == '"' {
            out.push('\\');
            out.push('"');
        } else if c == '\\' {
            out.push('\\');
            out.push('\\');
        } else if c == '\n' {
            out.push('\\');
            out.push('n');
        } else if c == '\r' {
            out.push('\\');
            out.push('r');
        } else if c == '\t' {
            out.push('\\');
            out.push('t');
        } else if c == '\0' {
            out.push('\\');
            out.push('0');
        } else {
            out.push(c);
        }
        assert(out@ =~= start + debug_escape(s@.take(i + 1)));
        i += 1;
    }
    assert(s@.take(s.len() as int) =~= s@);
}

/// `prefix` followed by `message`.
fn prefixed(prefix: &str, message: &String) -> (r: String)
    ensures
        r@ == prefix@ + message@,
{
    let mut out = chars_of(prefix);
    append_str(&mut out, message.as_str());
    string_of(out.as_slice())
}

impl ClaError {
    /// The exit code associated with this error: 80 to 83 for the chat,
    /// shell, history and feedback commands, 1 for the rest.
    pub fn exit_code(&self) -> (r: i32)
        ensures
            r == exit_code_of(*self),
    {
        match self {
            ClaError::ChatCommand { .. } => 80,
            ClaError::ShellCommand { .. } => 81,
            ClaError::HistoryCommand { .. } => 82,
            ClaError::FeedbackCommand { .. } => 83,
            _ => 1,
        }
    }

    /// The error's message.
    pub fn to_string(&self) -> (r: String)
        ensures
            r@ == error_text(*self),
    {
        match self {
            ClaError::ChatCommand { message, .. } => prefixed("chat command error: ", message),
            ClaError::ShellCommand { message, .. } => prefixed("shell command error: ", message),
            ClaError::HistoryCommand { message, .. } => prefixed("history command error: ", message),
            ClaError::FeedbackCommand { message, .. } => prefixed("feedback command error: ", message),
            ClaError::Config { message, .. } => prefixed("configuration error: ", message),
            ClaError::Session { message, .. } => prefixed("session error: ", message),
            ClaError::Io { path, source } => {
                let mut out = chars_of("I/O error at ");
                match path {
                    None => append_str(&mut out, "None"),
                    Some(p) => {
                        append_str(&mut out, "Some(\"");
                        let pc = chars_of(p.as_str());
                        push_debug_escaped(&mut out, pc.as_slice());
                        append_str(&mut out, "\")");
                    },
                }
                append_str(&mut out, ": ");
                append_str(&mut out, source.as_str());
                string_of(out.as_slice())
            },
            ClaError::Serialization(m) => prefixed("serialization error: ", m),
            ClaError::TomlParse(m) => prefixed("TOML parse error: ", m),
            ClaError::UuidParse(m) => prefixed("UUID parse error: ", m),
        }
    }

    /// A chat command error.
    pub fn chat(message: &str) -> (r: Self)
        ensures
            r matches ClaError::ChatCommand { message: m, source: None } && m@ == message@,
    {
        ClaError::ChatCommand { message: message.to_owned(), source: None }
    }

    /// A chat command error caused by `source`.
    pub fn chat_with_source(message: &str, source: &str) -> (r: Self)
        ensures
            r matches ClaError::ChatCommand { message: m, source: Some(s) } && m@ == message@ && s@
                == source@,
    {
        ClaError::ChatCommand { message: message.to_owned(), source: Some(source.to_owned()) }
    }

    /// A shell command error.
    pub fn shell(message: &str) -> (r: Self)
        ensures
            r matches ClaError::ShellCommand { message: m, source: None } && m@ == message@,
    {
        ClaError::ShellCommand { message: message.to_owned(), source: None }
    }

    /// A shell command error caused by `source`.
    pub fn shell_with_source(message: &str, source: &str) -> (r: Self)
        ensures
            r matches ClaError::ShellCommand { message: m, source: Some(s) } && m@ == message@ && s@
                == source@,
    {
        ClaError::ShellCommand { message: message.to_owned(), source: Some(source.to_owned()) }
    }

    /// A history command error.
    pub fn history(message: &str) -> (r: Self)
        ensures
            r matches ClaError::HistoryCommand { message: m, source: None } && m@ == message@,
    {
        ClaError::HistoryCommand { message: message.to_owned(), source: None }
    }

    /// A history command error caused by `source`.
    pub fn history_with_source(message: &str, source: &str) -> (r: Self)
        ensures
            r matches ClaError::HistoryCommand { message: m, source: Some(s) } && m@ == message@
                && s@ == source@,
    {
        ClaError::HistoryCommand { message: message.to_owned(), source: Some(source.to_owned()) }
    }

    /// A feedback command error.
    pub fn feedback(message: &str) -> (r: Self)
        ensures
            r matches ClaError::FeedbackCommand { message: m, source: None } && m@ == message@,
    {
        ClaError::FeedbackCommand { message: message.to_owned(), source: None }
    }

    /// A feedback command error caused by `source`.
    pub fn feedback_with_source(message: &str, source: &str) -> (r: Self)
        ensures
            r matches ClaError::FeedbackCommand { message: m, source: Some(s) } && m@ == message@
                && s@ == source@,
    {
        ClaError::FeedbackCommand { message: message.to_owned(), source: Some(source.to_owned()) }
    }

    /// A configuration error.
    pub fn config(message: &str) -> (r: Self)
        ensures
            r matches ClaError::Config { message: m, source: None } && m@ == message@,
    {
        ClaError::Config { message: message.to_owned(), source: None }
    }

    /// A configuration error caused by `source`.
    pub fn config_with_source(message: &str, source: &str) -> (r: Self)
        ensures
            r matches ClaError::Config { message: m, source: Some(s) } && m@ == message@ && s@
                == source@,
    {
        ClaError::Config { message: message.to_owned(), source: Some(source.to_owned()) }
    }

    /// A session error.
    pub fn session(message: &str) -> (r: Self)
        ensures
            r matches ClaError::Session { message: m, source: None } && m@ == message@,
    {
        ClaError::Session { message: message.to_owned(), source: None }
    }

    /// A session error caused by `source`.
    pub fn session_with_source(message: &str, source: &str) -> (r: Self)
        ensures
            r matches ClaError::Session { message: m, source: Some(s) } && m@ == message@ && s@
                == source@,
    {
        ClaError::Session { message: message.to_owned(), source: Some(source.to_owned()) }
    }

    /// An I/O error at `path`.
    pub fn io(path: Option<String>, source: String) -> (r: Self)
        ensures
            r == (ClaError::Io { path, source }),
    {
        ClaError::Io { path, source }
    }
}

/// Each domain constructor yields its domain's exit code, whatever the
/// message: chat 80, shell 81, history 82, feedback 83; configuration and
/// session errors 1.
pub proof fn lemma_exit_codes(m: String, s: Option<String>)
    ensures
        exit_code_of(ClaError::ChatCommand { message: m, source: s }) == 80,
        exit_code_of(ClaError::ShellCommand { message: m, source: s }) == 81,
        exit_code_of(ClaError::HistoryCommand { message: m, source: s }) == 82,
        exit_code_of(ClaError::FeedbackCommand { message: m, source: s }) == 83,
        exit_code_of(ClaError::Config { message: m, source: s }) == 1,
        exit_code_of(ClaError::Session { message: m, source: s }) == 1,
{
}

/// The text an error was made with (for an I/O error, its source's message).
pub open spec fn carried_text(e: ClaError) -> Seq<char> {
    match e {
        ClaError::ChatCommand { message, .. } => message@,
        ClaError::ShellCommand { message, .. } => message@,
        ClaError::HistoryCommand { message, .. } => message@,
        ClaError::FeedbackCommand { message, .. } => message@,
        ClaError::Config { message, .. } => message@,
        ClaError::Session { message, .. } => message@,
        ClaError::Io { source, .. } => source@,
        ClaError::Serialization(m) => m@,
        ClaError::TomlParse(m) => m@,
        ClaError::UuidParse(m) => m@,
    }
}

/// The message of every error ends with the text it was made with.
pub proof fn lemma_message_kept(e: ClaError)
    ensures
        ends_with(error_text(e), carried_text(e)),
{
    let t = error_text(e);
    let m = carried_text(e);
    let p = t.take(t.len() - m.len());
    assert(t =~= p + m) by {
        match e {
            ClaError::Io { path, source } => {
                let q = "I/O error at "@ + debug_path(
                    match path {
                        Some(x) => Some(x@),
                        None => None,
                    },
                ) + ": "@;
                assert(t =~= q + m);
            },
            _ => {},
        }
    }
    assert(t.subrange(t.len() - m.len(), t.len() as int) =~= m);
}

} // verus!
