use vstd::prelude::*;

verus! {

/// The settings of a responder to link events.
pub struct Dispatcher {
    pub script_dir: String,
    pub run_startup_triggers: bool,
    pub timeout: u64,
    pub json: bool,
    pub verbose: u8,
}

impl Dispatcher {
    pub fn new(
        script_dir: String,
        run_startup_triggers: bool,
        timeout: u64,
        json: bool,
        verbose: u8,
    ) -> (r: Dispatcher)
        ensures
            r.script_dir == script_dir,
            r.run_startup_triggers == run_startup_triggers,
            r.timeout == timeout,
            r.json == json,
            r.verbose == verbose,
    {
        Dispatcher { script_dir, run_startup_triggers, timeout, json, verbose }
    }
}

} // verus!
