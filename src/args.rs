use vstd::prelude::*;

use crate::script::DEFAULT_TIMEOUT;

verus! {

/// Where scripts are looked for when no directory is given.
pub const DEFAULT_SCRIPT_DIR: &'static str = "/etc/networkd/broker.d";

/// The daemon's settings.
pub struct Arguments {
    /// Location under which to look for scripts.
    pub script_dir: String,
    /// Generate events reflecting preexisting state on startup.
    pub startup_triggers: bool,
    /// Script execution timeout in seconds.
    pub timeout: u64,
}

impl Default for Arguments {
    fn default() -> (r: Arguments)
        ensures
            r.script_dir@ == DEFAULT_SCRIPT_DIR@,
            !r.startup_triggers,
            r.timeout == DEFAULT_TIMEOUT,
    {
        Arguments {
            script_dir: DEFAULT_SCRIPT_DIR.to_string(),
            startup_triggers: false,
            timeout: DEFAULT_TIMEOUT,
        }
    }
}

} // verus!
