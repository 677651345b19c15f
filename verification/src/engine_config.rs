//! The switches of the engine.

use vstd::prelude::*;

verus! {

/// The switches of the engine.
#[derive(Clone, Copy, Debug, PartialEq, Eq, Structural)]
pub struct EngineConfig {
    use_payment_code: bool,
}

impl EngineConfig {
    /// The configuration in which deploys run without payment code.
    pub fn new() -> (r: EngineConfig)
        ensures
            !r.spec_use_payment_code(),
    {
        EngineConfig { use_payment_code: false }
    }

    /// Whether deploys pay for themselves through payment code.
    pub closed spec fn spec_use_payment_code(self) -> bool {
        self.use_payment_code
    }

    /// Whether deploys pay for themselves through payment code.
    pub fn use_payment_code(&self) -> (r: bool)
        ensures
            r == self.spec_use_payment_code(),
    {
        self.use_payment_code
    }

    /// The same configuration with payment code switched on or off.
    pub fn set_use_payment_code(self, use_payment_code: bool) -> (r: EngineConfig)
        ensures
            r.spec_use_payment_code() == use_payment_code,
    {
        EngineConfig { use_payment_code }
    }
}

impl Default for EngineConfig {
    fn default() -> (r: EngineConfig)
        ensures
            !r.spec_use_payment_code(),
    {
        EngineConfig::new()
    }
}

} // verus!
