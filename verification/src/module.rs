use vstd::prelude::*;

verus! {

/// The state of a supervised module as the runtime reports it on a poll.
#[derive(Clone, Debug)]
pub enum ModuleState {
    /// The runtime knows no module under the supervised id.
    NotFound,
    /// The module exists but was never started.
    Created,
    /// The module is running.
    Running,
    /// The module exists and has stopped.
    Stopped,
    /// The module failed; the runtime's reason is carried through unread.
    Failed(String),
}

impl ModuleState {
    /// True when this poll calls for no reconciliation action at all.
    pub open spec fn is_running(self) -> bool {
        self is Running
    }

    /// True when the module must be created anew before it can be started.
    pub open spec fn needs_create(self) -> bool {
        self is NotFound || self is Failed
    }

    /// True when the module exists but must still be started.
    pub open spec fn needs_start(self) -> bool {
        self is Created || self is Stopped
    }
}

/// The declarative description of the module the watchdog keeps alive.
/// It is handed to the watchdog once and never changed afterwards.
#[derive(Clone, Debug)]
pub struct ModuleSpec {
    /// Module name; non-empty.
    pub name: String,
    /// Image or reference the module is created from; non-empty.
    pub image: String,
    /// Configuration passed through to the runtime unread.
    pub config: String,
    /// Whether the runtime itself should restart the module.
    pub restart_policy: bool,
}

impl ModuleSpec {
    /// A spec is well formed when its name and image are non-empty.
    pub open spec fn wf(self) -> bool {
        self.name@.len() > 0 && self.image@.len() > 0
    }
}

} // verus!
