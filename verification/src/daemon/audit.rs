//! Audit events, emitted under their own target so that they can be routed
//! apart from the application's log.
use vstd::prelude::*;

verus! {

/// One audit event: the action, the user, and the chat when there is one.
#[derive(Clone, Debug)]
pub struct AuditEvent {
    pub action: String,
    pub user_id: String,
    pub chat_id: Option<String>,
}

/// The audit event to emit, or `None` when audit logging is disabled.
pub fn event(enabled: bool, action: &str, user_id: &str, chat_id: Option<&str>) -> (r: Option<
    AuditEvent,
>)
    ensures
        !enabled ==> r is None,
        enabled ==> (r matches Some(e) && e.action@ == action@ && e.user_id@ == user_id@ && match chat_id {
            Some(c) => e.chat_id matches Some(x) && x@ == c@,
            None => e.chat_id is None,
        }),
{
    if !enabled {
        return None;
    }
    let chat = match chat_id {
        Some(c) => Some(c.to_owned()),
        None => None,
    };
    Some(AuditEvent { action: action.to_owned(), user_id: user_id.to_owned(), chat_id: chat })
}

} // verus!
