//! The ways in which a deploy, or a request about state, can fail.

use vstd::prelude::*;

use crate::key::{bytes32_eq, Blake2bHash};

verus! {

/// A system contract that every account knows by name.
#[derive(Clone, Copy, Debug, PartialEq, Eq, Structural)]
pub enum SystemContract {
    Mint,
    ProofOfStake,
}

/// Why code was not accepted as a module.
#[derive(Clone, Copy, Debug, PartialEq, Eq, Structural)]
pub enum PreprocessingError {
    /// The bytes are not a module.
    Deserialize,
    /// The module uses an operation that gas cannot be charged for.
    OperationForbiddenByGasRules,
    /// The stack height limiter could not be put in.
    StackLimiter,
}

/// A failure of the store behind global state, by its code.
#[derive(Clone, Copy, Debug, PartialEq, Eq, Structural)]
pub struct StorageError(pub u32);

/// Why code failed while it ran, or why state could not be read for it.
#[derive(Clone, Copy, Debug, PartialEq, Eq, Structural)]
pub enum ExecutionError {
    /// The code used up its gas.
    GasLimit,
    /// The code trapped.
    Trap,
    /// A call into the host failed.
    HostError,
    /// State holds nothing under a key.
    KeyNotFound,
    /// State holds a value of another type than was asked for.
    TypeMismatch,
    /// The mint knows no balance for a purse.
    PurseNotFound,
    /// The keys that signed do not weigh enough to deploy.
    DeploymentAuthorizationFailure,
}

/// Why a deploy failed.
#[derive(Clone, Copy, Debug, PartialEq, Eq, Structural)]
pub enum Error {
    /// The account is missing, or the keys that signed may not act for it.
    AuthorizationError,
    /// The deploy does not carry the nonce that the account expects.
    InvalidNonce { expected: u64, found: u64 },
    /// The main purse holds less than the largest payment.
    InsufficientPaymentError,
    /// Session or payment code is not a valid module.
    WasmPreprocessingError(PreprocessingError),
    /// The account does not know a system contract.
    MissingSystemContractError(SystemContract),
    /// A purse that every deploy needs is missing.
    DeployError,
    /// The store behind global state failed.
    StorageError(StorageError),
    /// Code failed while it ran, or state could not be read for it.
    ExecError(ExecutionError),
    /// The payment could not be settled.
    FinalizationError,
}

/// The state that a deploy was to start from is not known.
#[derive(Clone, Copy, Debug)]
pub struct RootNotFound(pub Blake2bHash);

impl PartialEq for RootNotFound {
    fn eq(&self, other: &Self) -> (r: bool) {
        bytes32_eq(&self.0.0, &other.0.0)
    }
}

impl Eq for RootNotFound {

}

impl vstd::std_specs::cmp::PartialEqSpecImpl for RootNotFound {
    open spec fn obeys_eq_spec() -> bool {
        true
    }

    open spec fn eq_spec(&self, other: &Self) -> bool {
        *self == *other
    }
}

} // verus!
