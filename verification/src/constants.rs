//! Application-wide constants.
use vstd::prelude::*;

verus! {

/// Current version of the command-line assistant.
pub const VERSION: &'static str = "0.8.0";

/// Default configuration file path.
pub const DEFAULT_CONFIG_PATH: &'static str = "/etc/cli-assistant/config.toml";

/// System machine-id path.
pub const MACHINE_ID_PATH: &'static str = "/etc/machine-id";

/// Application name used for XDG directory naming.
pub const APP_NAME: &'static str = "command-line-assistant";

} // verus!
