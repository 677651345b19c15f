//! What the engine asks of the code that prepares and runs modules.

use vstd::prelude::*;

use crate::error::{Error, PreprocessingError};
use crate::execution_result::{ExecutionResult, ExecutionResultView};
use crate::key::{Key, PublicKey};
use crate::global_state::{CorrelationId, StateReader};
use crate::tracking_copy::{TrackingCopy, TrackingCopyView};
use crate::value::{
    values_view, Account, AccountView, NamedKeys, NamedKeysView, PublicKeySet, Value, ValueView,
};

verus! {

/// The name under which an account knows the mint.
pub const MINT_NAME: &'static str = "mint";

/// The name under which an account knows the proof-of-stake contract.
pub const POS_NAME: &'static str = "pos";

/// The time of the block that a deploy is part of.
#[derive(Clone, Copy, Debug, PartialEq, Eq, Structural)]
pub struct BlockTime(pub u64);

/// Turns code into modules of type `A`.
pub trait Preprocessor<A> {
    /// Why the preprocessor turns the code down, if it does. Whether code is
    /// a valid module depends on its bytes and on the preprocessor alone.
    spec fn rejection(&self, module_bytes: Seq<u8>) -> Option<PreprocessingError>;

    /// The module that code becomes, where the preprocessor accepts it. It
    /// depends on the bytes and on the preprocessor alone.
    spec fn module(&self, module_bytes: Seq<u8>) -> A;

    /// What reading back the code of a stored contract gives. It depends on
    /// the bytes and on the preprocessor alone.
    spec fn stored_module(&self, module_bytes: Seq<u8>) -> Result<A, PreprocessingError>;

    /// Checks code and makes it ready to be run and metered.
    fn preprocess(&self, module_bytes: &[u8]) -> (r: Result<A, PreprocessingError>)
        ensures
            match r {
                Ok(module) => self.rejection(module_bytes@).is_none() && module == self.module(
                    module_bytes@,
                ),
                Err(error) => self.rejection(module_bytes@) == Some(error),
            },
    ;

    /// Reads back a module from the code of a stored contract.
    fn deserialize(&self, module_bytes: &[u8]) -> (r: Result<A, PreprocessingError>)
        ensures
            r == self.stored_module(module_bytes@),
    ;
}

/// Whether an outcome says that the store failed.
pub open spec fn store_failed(result: ExecutionResultView) -> bool {
    result.error matches Some(Error::StorageError(_))
}

/// What holds of a run, of the overlay after it, and of what the executor
/// names for the run: the outcome and the overlay are what is named, unless
/// the store failed during the run, which the outcome then says.
pub open spec fn ran(
    result: ExecutionResultView,
    overlay: TrackingCopyView,
    named: (ExecutionResultView, TrackingCopyView),
) -> bool {
    store_failed(result) || (result == named.0 && overlay == named.1)
}

/// Runs modules of type `A` under a gas limit against an overlay on state.
///
/// The overlay is the one of the whole deploy: what one run writes, the next
/// run reads. The effect in an outcome is what the overlay holds when the run
/// ends.
///
/// Execution is deterministic: what a run gives, and what it leaves in the
/// overlay, depends on what the run is given alone, as long as the store
/// answers. A run during which the store fails says so in its outcome, with
/// a storage error.
pub trait Executor<A> {
    /// The outcome of a run of the code of a deploy, and the overlay after
    /// it.
    spec fn run(
        &self,
        module: A,
        args: Seq<u8>,
        base_key: Key,
        account: AccountView,
        authorized_keys: Seq<PublicKey>,
        blocktime: BlockTime,
        gas_limit: u64,
        protocol_version: u64,
        overlay: TrackingCopyView,
    ) -> (ExecutionResultView, TrackingCopyView);

    /// The outcome of a run of the code of a stored contract, and the
    /// overlay after it.
    spec fn run_direct(
        &self,
        module: A,
        args: Seq<ValueView>,
        named_keys: NamedKeysView,
        base_key: Key,
        account: AccountView,
        authorized_keys: Seq<PublicKey>,
        blocktime: BlockTime,
        gas_limit: u64,
        protocol_version: u64,
        overlay: TrackingCopyView,
    ) -> (ExecutionResultView, TrackingCopyView);

    /// Runs the code of a deploy for an account.
    fn exec<R: StateReader>(
        &self,
        module: A,
        args: &[u8],
        base_key: Key,
        account: &Account,
        authorized_keys: PublicKeySet,
        blocktime: BlockTime,
        gas_limit: u64,
        protocol_version: u64,
        correlation_id: CorrelationId,
        tracking_copy: &mut TrackingCopy<R>,
    ) -> (r: ExecutionResult)
        ensures
            ran(
                r@,
                final(tracking_copy)@,
                self.run(
                    module,
                    args@,
                    base_key,
                    account@,
                    authorized_keys@,
                    blocktime,
                    gas_limit,
                    protocol_version,
                    old(tracking_copy)@,
                ),
            ),
    ;

    /// Runs the code of a stored contract with the contract's own named
    /// keys, for the account that is given as the caller.
    fn exec_direct<R: StateReader>(
        &self,
        module: A,
        args: &[Value],
        named_keys: &mut NamedKeys,
        base_key: Key,
        account: &Account,
        authorized_keys: PublicKeySet,
        blocktime: BlockTime,
        gas_limit: u64,
        protocol_version: u64,
        correlation_id: CorrelationId,
        tracking_copy: &mut TrackingCopy<R>,
    ) -> (r: ExecutionResult)
        ensures
            ran(
                r@,
                final(tracking_copy)@,
                self.run_direct(
                    module,
                    values_view(args@),
                    old(named_keys)@,
                    base_key,
                    account@,
                    authorized_keys@,
                    blocktime,
                    gas_limit,
                    protocol_version,
                    old(tracking_copy)@,
                ),
            ),
    ;
}

} // verus!
