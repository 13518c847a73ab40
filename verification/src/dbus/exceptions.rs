//! Errors of the D-Bus interfaces, each with its D-Bus error name.
use vstd::prelude::*;
use crate::text::{append_str, chars_of, string_of};

verus! {

/// Error of the interface operations.
#[derive(Clone, Debug)]
pub enum ClaDbusError {
    /// A request failed.
    RequestFailed(String),
    /// The history is corrupt or unreadable.
    CorruptedHistory(String),
    /// The history file does not exist.
    MissingHistoryFile(String),
    /// No history is available for the request.
    HistoryNotAvailable(String),
    /// History recording is disabled.
    HistoryNotEnabled,
    /// The chat was not found.
    ChatNotFound(String),
}

/// The D-Bus error name of each error.
pub open spec fn error_name_of(e: ClaDbusError) -> Seq<char> {
    match e {
        ClaDbusError::RequestFailed(_) => "com.redhat.lightspeed.RequestFailed"@,
        ClaDbusError::CorruptedHistory(_) => "com.redhat.lightspeed.CorruptedHistory"@,
        ClaDbusError::MissingHistoryFile(_) => "com.redhat.lightspeed.MissingHistoryFile"@,
        ClaDbusError::HistoryNotAvailable(_) => "com.redhat.lightspeed.HistoryNotAvailable"@,
        ClaDbusError::HistoryNotEnabled => "com.redhat.lightspeed.HistoryNotEnabled"@,
        ClaDbusError::ChatNotFound(_) => "com.redhat.lightspeed.ChatNotFound"@,
    }
}

/// The message of each error.
pub open spec fn dbus_error_text(e: ClaDbusError) -> Seq<char> {
    match e {
        ClaDbusError::RequestFailed(m) => "request failed: "@ + m@,
        ClaDbusError::CorruptedHistory(m) => "corrupted history: "@ + m@,
        ClaDbusError::MissingHistoryFile(m) => "missing history file: "@ + m@,
        ClaDbusError::HistoryNotAvailable(m) => "history not available: "@ + m@,
        ClaDbusError::HistoryNotEnabled => "history not enabled"@,
        ClaDbusError::ChatNotFound(m) => "chat not found: "@ + m@,
    }
}

/// `prefix` followed by `m`.
fn with_prefix(prefix: &str, m: &String) -> (r: String)
    ensures
        r@ == prefix@ + m@,
{
    let mut out = chars_of(prefix);
    append_str(&mut out, m.as_str());
    string_of(out.as_slice())
}

impl ClaDbusError {
    /// The fully-qualified D-Bus error name of this error.
    pub fn error_name(&self) -> (r: &'static str)
        ensures
            r@ == error_name_of(*self),
    {
        match self {
            ClaDbusError::RequestFailed(_) => "com.redhat.lightspeed.RequestFailed",
            ClaDbusError::CorruptedHistory(_) => "com.redhat.lightspeed.CorruptedHistory",
            ClaDbusError::MissingHistoryFile(_) => "com.redhat.lightspeed.MissingHistoryFile",
            ClaDbusError::HistoryNotAvailable(_) => "com.redhat.lightspeed.HistoryNotAvailable",
            ClaDbusError::HistoryNotEnabled => "com.redhat.lightspeed.HistoryNotEnabled",
            ClaDbusError::ChatNotFound(_) => "com.redhat.lightspeed.ChatNotFound",
        }
    }

    /// The error's message.
    pub fn to_string(&self) -> (r: String)
        ensures
            r@ == dbus_error_text(*self),
    {
        match self {
            ClaDbusError::RequestFailed(m) => with_prefix("request failed: ", m),
            ClaDbusError::CorruptedHistory(m) => with_prefix("corrupted history: ", m),
            ClaDbusError::MissingHistoryFile(m) => with_prefix("missing history file: ", m),
            ClaDbusError::HistoryNotAvailable(m) => with_prefix("history not available: ", m),
            ClaDbusError::HistoryNotEnabled => "history not enabled".to_owned(),
            ClaDbusError::ChatNotFound(m) => with_prefix("chat not found: ", m),
        }
    }

    /// The message a generic D-Bus `Failed` error carries for this error:
    /// the error name in brackets, then the message.
    pub fn failed_message(&self) -> (r: String)
        ensures
            r@ == "["@ + error_name_of(*self) + "] "@ + dbus_error_text(*self),
    {
        let mut out = chars_of("[");
        append_str(&mut out, self.error_name());
        append_str(&mut out, "] ");
        let m = self.to_string();
        append_str(&mut out, m.as_str());
        string_of(out.as_slice())
    }
}

/// Distinct errors kinds have distinct D-Bus names.
pub proof fn lemma_error_names_distinct(a: ClaDbusError, b: ClaDbusError)
    requires
        a is RequestFailed != b is RequestFailed || a is CorruptedHistory != b is CorruptedHistory
            || a is MissingHistoryFile != b is MissingHistoryFile || a is HistoryNotAvailable
            != b is HistoryNotAvailable || a is HistoryNotEnabled != b is HistoryNotEnabled,
    ensures
        error_name_of(a) != error_name_of(b),
{
    reveal_strlit("com.redhat.lightspeed.RequestFailed");
    reveal_strlit("com.redhat.lightspeed.CorruptedHistory");
    reveal_strlit("com.redhat.lightspeed.MissingHistoryFile");
    reveal_strlit("com.redhat.lightspeed.HistoryNotAvailable");
    reveal_strlit("com.redhat.lightspeed.HistoryNotEnabled");
    reveal_strlit("com.redhat.lightspeed.ChatNotFound");
    let x = error_name_of(a);
    let y = error_name_of(b);
    if x == y {
        assert(x.len() == y.len());
        assert(x[22] == y[22]);
        assert(x[23] == y[23]);
        assert(x[30] == y[30]);
    }
}

} // verus!
