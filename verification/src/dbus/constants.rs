//! D-Bus service identifiers, bus names and object paths.
use vstd::prelude::*;

verus! {

/// Root service namespace.
pub const SERVICE_NAMESPACE: [&'static str; 3] = ["com", "redhat", "lightspeed"];

/// Chat namespace.
pub const CHAT_NAMESPACE: [&'static str; 4] = ["com", "redhat", "lightspeed", "chat"];

/// History namespace.
pub const HISTORY_NAMESPACE: [&'static str; 4] = ["com", "redhat", "lightspeed", "history"];

/// User namespace.
pub const USER_NAMESPACE: [&'static str; 4] = ["com", "redhat", "lightspeed", "user"];

/// Bus name of the chat service.
pub const CHAT_IDENTIFIER: &'static str = "com.redhat.lightspeed.chat";

/// Bus name of the history service.
pub const HISTORY_IDENTIFIER: &'static str = "com.redhat.lightspeed.history";

/// Bus name of the user service.
pub const USER_IDENTIFIER: &'static str = "com.redhat.lightspeed.user";

/// Well-known bus name of the chat service.
pub const CHAT_BUS_NAME: &'static str = CHAT_IDENTIFIER;

/// Well-known bus name of the history service.
pub const HISTORY_BUS_NAME: &'static str = HISTORY_IDENTIFIER;

/// Well-known bus name of the user service.
pub const USER_BUS_NAME: &'static str = USER_IDENTIFIER;

/// Object path of the chat interface.
pub const CHAT_OBJECT_PATH: &'static str = "/com/redhat/lightspeed/chat";

/// Object path of the history interface.
pub const HISTORY_OBJECT_PATH: &'static str = "/com/redhat/lightspeed/history";

/// Object path of the user interface.
pub const USER_OBJECT_PATH: &'static str = "/com/redhat/lightspeed/user";

/// Interface name of chat operations.
pub const CHAT_INTERFACE: &'static str = "com.redhat.lightspeed.chat";

/// Interface name of history operations.
pub const HISTORY_INTERFACE: &'static str = "com.redhat.lightspeed.history";

/// Interface name of user operations.
pub const USER_INTERFACE: &'static str = "com.redhat.lightspeed.user";

} // verus!
