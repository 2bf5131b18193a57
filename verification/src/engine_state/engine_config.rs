//! Settings of the execution engine.
use vstd::prelude::*;

verus! {

/// Settings of the execution engine.
#[derive(Clone, Copy, Debug, PartialEq, Eq, Structural)]
pub struct EngineConfig {
    use_payment_code: bool,
}

impl EngineConfig {
    /// Whether deploys run payment code before session code.
    pub closed spec fn uses_payment_code(&self) -> bool {
        self.use_payment_code
    }

    /// The default settings: payment code is off.
    pub fn new() -> (r: EngineConfig)
        ensures
            !r.uses_payment_code(),
    {
        EngineConfig { use_payment_code: false }
    }

    /// Whether deploys run payment code before session code.
    pub fn use_payment_code(self) -> (r: bool)
        ensures
            r == self.uses_payment_code(),
    {
        self.use_payment_code
    }

    /// These settings with payment code switched on or off.
    pub fn set_use_payment_code(self, use_payment_code: bool) -> (r: EngineConfig)
        ensures
            r.uses_payment_code() == use_payment_code,
    {
        EngineConfig { use_payment_code }
    }
}

impl Default for EngineConfig {
    fn default() -> (r: EngineConfig)
        ensures
            !r.uses_payment_code(),
    {
        EngineConfig::new()
    }
}

} // verus!
