//! The engine: it checks a deploy, runs its payment, session and
//! finalization code in turn, and gives one outcome.

use parking_lot::{Mutex, MutexGuard};
use std::sync::Arc;
use vstd::prelude::*;

use crate::assoc::{assoc_get, AssocList, Duplicate};
use crate::engine_config::EngineConfig;
use crate::error::{
    Error, ExecutionError, PreprocessingError, RootNotFound, StorageError, SystemContract,
};
use crate::execution::{
    store_failed, BlockTime, Executor, Preprocessor, MINT_NAME, POS_NAME,
};
use crate::execution_result::{
    assembled_result, forced_transfer_due, forced_transfer_result, total_cost_of,
    ExecutionResult, ExecutionResultBuilder, ExecutionResultBuilderView, ExecutionResultView,
};
use crate::execution_effect::{ExecutionEffect, ExecutionEffectView};
use crate::genesis::{
    create_genesis_effects, spec_genesis_effect, validators_view, GenesisResult,
    POS_PAYMENT_PURSE, POS_REWARDS_PURSE,
};
use crate::global_state::{
    all_writes, changes_read_back, commit_outcome, commit_state,
    lemma_commit_outcome_reads_back, lemma_writes_commit,
    CommitResult, CorrelationId, History, StateReader,
};
use crate::key::{AccessRights, Blake2bHash, Key, PublicKey, URef};
use crate::tracking_copy::{
    balance_slot, invalid_nonce, lemma_write_values, spec_account, spec_purse_balance, spec_purse_balance_key,
    spec_system_contract_info, SystemContractInfo, TrackingCopy, TrackingCopyView,
};
use crate::transform::Transform;
use crate::u512::U512;
use crate::utils::{parse_validator_name, pos_validator_to_tuple, WasmiBytes};
use crate::value::{
    Account, AccountView, ActionThresholds, AssociatedKeys, ContractView, NamedKeys,
    values_view, NamedKeysView, NumKind, PublicKeySet, PurseId, Value, ValueView, Weight,
};

verus! {

/// The amount, in motes, that a deploy must be able to pay up front.
pub const MAX_PAYMENT: u64 = 10_000_000;

/// Motes per unit of gas.
pub const CONV_RATE: u64 = 10;

/// The address of the account in whose name payments are settled: 32 zero
/// bytes.
pub open spec fn spec_system_account_addr() -> [u8; 32] {
    vstd::array::spec_array_fill_for_copy_type::<u8, 32>(0u8)
}

/// The address of the account in whose name payments are settled.
pub fn system_account_addr() -> (r: [u8; 32])
    ensures
        r == spec_system_account_addr(),
        forall|i: int| 0 <= i < 32 ==> r[i] == 0u8,
{
    [0u8; 32]
}

/// The key that a set of named keys holds for a name.
pub fn named_key(keys: &NamedKeys, name: &str) -> (r: Option<Key>)
    ensures
        r == assoc_get(keys@, name@),
{
    let owned = name.to_owned();
    match keys.get(&owned) {
        Some(key) => Some(*key),
        None => None,
    }
}

/// What the account check gives for a deploy: the account as it stands after
/// the deploy was counted, or the error that turns the deploy down. The
/// address must be that of an account that state holds; the keys that signed
/// must be some, and all known to the account; the nonce must be the one
/// after the account's; and the keys must weigh enough to deploy.
pub open spec fn account_check(
    state: Map<Key, ValueView>,
    address: Key,
    authorized_keys: Seq<PublicKey>,
    nonce: u64,
) -> Result<AccountView, Error> {
    match address {
        Key::Account(addr) => match spec_account(state, addr) {
            Ok(account) => if !account.can_authorize(authorized_keys) {
                Err(Error::AuthorizationError)
            } else if nonce != account.nonce + 1 {
                Err(invalid_nonce(account.nonce, nonce))
            } else if !account.can_deploy_with(authorized_keys) {
                Err(Error::ExecError(ExecutionError::DeploymentAuthorizationFailure))
            } else {
                Ok(AccountView { nonce, ..account })
            },
            Err(_) => Err(Error::AuthorizationError),
        },
        _ => Err(Error::AuthorizationError),
    }
}

/// The overlay after the account of a deploy was checked and the deploy was
/// counted: the account was read, and written with its new nonce.
pub open spec fn counted_overlay(
    start: TrackingCopyView,
    address: Key,
    account: AccountView,
) -> TrackingCopyView {
    start.after_reading(address).after_write(
        Key::Account(account.addr),
        ValueView::Account(account),
    )
}

/// Checks the account of a deploy and counts the deploy: on success the
/// account with its new nonce stands in the overlay. The store can fail
/// only while the account is read, and so only for an address that is an
/// account key, of which the overlay has kept no value.
pub fn validate_account<R: StateReader>(
    tracking_copy: &mut TrackingCopy<R>,
    correlation_id: CorrelationId,
    address: Key,
    authorized_keys: &PublicKeySet,
    nonce: u64,
) -> (r: Result<Account, Error>)
    ensures
        match r {
            Ok(account) => account_check(
                old(tracking_copy)@.values(),
                address,
                authorized_keys@,
                nonce,
            ) == Ok::<AccountView, Error>(account@) && final(tracking_copy)@.values() == old(tracking_copy)@.values().insert(Key::Account(account@.addr), ValueView::Account(account@))
                && final(tracking_copy)@ == counted_overlay(
                old(tracking_copy)@,
                address,
                account@,
            ),
            Err(Error::StorageError(_)) => address is Account && old(tracking_copy)@.asks_store(
                address,
            ),
            Err(error) => account_check(
                old(tracking_copy)@.values(),
                address,
                authorized_keys@,
                nonce,
            ) == Err::<AccountView, Error>(error),
        },
{
    let addr = match address.as_account() {
        Some(addr) => addr,
        None => {
            return Err(Error::AuthorizationError);
        },
    };
    let mut account = match tracking_copy.get_account(correlation_id, addr) {
        Ok(account) => account,
        Err(Error::StorageError(error)) => {
            return Err(Error::StorageError(error));
        },
        Err(_) => {
            return Err(Error::AuthorizationError);
        },
    };
    if !account.can_authorize(authorized_keys) {
        return Err(Error::AuthorizationError);
    }
    let ghost read = tracking_copy@;
    let ghost loaded = account@;
    match tracking_copy.handle_nonce(&mut account, nonce) {
        Ok(()) => {},
        Err(error) => {
            return Err(error);
        },
    }
    proof {
        lemma_write_values(read, Key::Account(loaded.addr), ValueView::Account(account@));
    }
    if !account.can_deploy_with(authorized_keys) {
        return Err(Error::ExecError(ExecutionError::DeploymentAuthorizationFailure));
    }
    Ok(account)
}

/// What a deploy that pays for itself needs to know of the system contracts.
#[derive(Debug, PartialEq, Eq)]
pub struct PaymentContext {
    /// The reference under which the mint is stored.
    pub mint_inner_uref: URef,
    /// The proof-of-stake contract.
    pub proof_of_stake_info: SystemContractInfo,
    /// The key of the balance of the rewards purse.
    pub rewards_purse_balance_key: Key,
    /// The key of the balance of the account's main purse.
    pub account_main_purse_balance_key: Key,
    /// The balance of the account's main purse before any code runs.
    pub account_main_purse_balance: U512,
}

/// The mathematical value of what a deploy needs to know of the system
/// contracts.
pub struct PaymentContextView {
    pub mint_inner_uref: URef,
    pub proof_of_stake_inner_key: Key,
    pub proof_of_stake_contract: ContractView,
    pub rewards_purse_balance_key: Key,
    pub account_main_purse_balance_key: Key,
    pub account_main_purse_balance: nat,
}

impl View for PaymentContext {
    type V = PaymentContextView;

    open spec fn view(&self) -> PaymentContextView {
        PaymentContextView {
            mint_inner_uref: self.mint_inner_uref,
            proof_of_stake_inner_key: self.proof_of_stake_info.inner_key,
            proof_of_stake_contract: self.proof_of_stake_info.contract@,
            rewards_purse_balance_key: self.rewards_purse_balance_key,
            account_main_purse_balance_key: self.account_main_purse_balance_key,
            account_main_purse_balance: self.account_main_purse_balance.value(),
        }
    }
}

/// A system contract as an account reaches it by name.
pub open spec fn system_contract(
    state: Map<Key, ValueView>,
    account: AccountView,
    name: Seq<char>,
    which: SystemContract,
) -> Result<(Key, ContractView), Error> {
    match assoc_get(account.named_keys, name) {
        Some(public_key) => spec_system_contract_info(state, public_key.spec_normalize()),
        None => Err(Error::MissingSystemContractError(which)),
    }
}

/// The balance keys and the balance that a deploy needs, once the mint and
/// the proof-of-stake contract are found. A rewards purse that the
/// proof-of-stake contract does not name, or for which the mint keeps no
/// balance key, is a purse that every deploy needs and that is missing.
pub open spec fn purse_context(
    state: Map<Key, ValueView>,
    account: AccountView,
    mint_inner_uref: URef,
    proof_of_stake: (Key, ContractView),
) -> Result<PaymentContextView, Error> {
    match assoc_get(proof_of_stake.1.named_keys, POS_REWARDS_PURSE@) {
        None => Err(Error::DeployError),
        Some(rewards_purse) => match spec_purse_balance_key(state, mint_inner_uref, rewards_purse) {
            Err(_) => Err(Error::DeployError),
            Ok(rewards_purse_balance_key) => match spec_purse_balance_key(
                state,
                mint_inner_uref,
                Key::URef(account.purse_id.0),
            ) {
                Err(error) => Err(error),
                Ok(account_main_purse_balance_key) => match spec_purse_balance(
                    state,
                    account_main_purse_balance_key,
                ) {
                    Err(error) => Err(error),
                    Ok(balance) => if balance < MAX_PAYMENT {
                        Err(Error::InsufficientPaymentError)
                    } else {
                        Ok(
                            PaymentContextView {
                                mint_inner_uref,
                                proof_of_stake_inner_key: proof_of_stake.0,
                                proof_of_stake_contract: proof_of_stake.1,
                                rewards_purse_balance_key,
                                account_main_purse_balance_key,
                                account_main_purse_balance: balance,
                            },
                        )
                    },
                },
            },
        },
    }
}

/// What a deploy that pays for itself needs to know of the system contracts,
/// or the error that turns the deploy down: the account must know the mint
/// and the proof-of-stake contract, state must hold both, the rewards purse
/// and the account's main purse must have balances at the mint, and the main
/// purse must hold the largest payment at least.
pub open spec fn payment_context(state: Map<Key, ValueView>, account: AccountView) -> Result<
    PaymentContextView,
    Error,
> {
    match system_contract(state, account, MINT_NAME@, SystemContract::Mint) {
        Err(error) => Err(error),
        Ok((Key::URef(mint_inner_uref), _)) => match system_contract(
            state,
            account,
            POS_NAME@,
            SystemContract::ProofOfStake,
        ) {
            Err(error) => Err(error),
            Ok(proof_of_stake) => purse_context(state, account, mint_inner_uref, proof_of_stake),
        },
        Ok(_) => Err(Error::DeployError),
    }
}

/// The overlay after what a deploy needs to know of the system contracts
/// was read: the mint and the proof-of-stake contract, each by the key
/// under which the account knows it and by the key under which it is
/// stored; the mint's records of the rewards purse and of the main purse;
/// and the balance of the main purse.
pub open spec fn context_reads(
    view: TrackingCopyView,
    account: AccountView,
    context: PaymentContextView,
) -> TrackingCopyView {
    view.after_reading(
        assoc_get(account.named_keys, MINT_NAME@).unwrap().spec_normalize(),
    ).after_reading(Key::URef(context.mint_inner_uref).spec_normalize()).after_reading(
        assoc_get(account.named_keys, POS_NAME@).unwrap().spec_normalize(),
    ).after_reading(context.proof_of_stake_inner_key.spec_normalize()).after_reading(
        balance_slot(
            context.mint_inner_uref,
            assoc_get(context.proof_of_stake_contract.named_keys, POS_REWARDS_PURSE@).unwrap(),
        ),
    ).after_reading(
        balance_slot(context.mint_inner_uref, Key::URef(account.purse_id.0)),
    ).after_reading(context.account_main_purse_balance_key.spec_normalize())
}

/// Finds what a deploy that pays for itself needs to know of the system
/// contracts, and checks that the main purse can pay. The store is asked
/// only once the account is seen to name the mint.
pub fn resolve_payment_context<R: StateReader>(
    tracking_copy: &mut TrackingCopy<R>,
    correlation_id: CorrelationId,
    account: &Account,
) -> (r: Result<PaymentContext, Error>)
    ensures
        final(tracking_copy)@.values() == old(tracking_copy)@.values(),
        final(tracking_copy)@.log == old(tracking_copy)@.log,
        match r {
            Ok(context) => payment_context(old(tracking_copy)@.values(), account@) == Ok::<
                PaymentContextView,
                Error,
            >(context@) && context@.account_main_purse_balance >= MAX_PAYMENT && final(tracking_copy)@ == context_reads(old(tracking_copy)@, account@, context@),
            Err(Error::StorageError(_)) => assoc_get(account@.named_keys, MINT_NAME@).is_some(),
            Err(error) => payment_context(old(tracking_copy)@.values(), account@) == Err::<
                PaymentContextView,
                Error,
            >(error),
        },
{
    let mint_public_key = match named_key(account.urefs_lookup(), MINT_NAME) {
        Some(key) => key.normalize(),
        None => {
            return Err(Error::MissingSystemContractError(SystemContract::Mint));
        },
    };
    let mint_info = match tracking_copy.get_system_contract_info(correlation_id, mint_public_key) {
        Ok(info) => info,
        Err(error) => {
            return Err(error);
        },
    };
    let mint_inner_uref = match mint_info.inner_key().as_uref() {
        Some(uref) => uref,
        None => {
            return Err(Error::DeployError);
        },
    };
    let proof_of_stake_public_key = match named_key(account.urefs_lookup(), POS_NAME) {
        Some(key) => key.normalize(),
        None => {
            return Err(Error::MissingSystemContractError(SystemContract::ProofOfStake));
        },
    };
    let proof_of_stake_info = match tracking_copy.get_system_contract_info(
        correlation_id,
        proof_of_stake_public_key,
    ) {
        Ok(info) => info,
        Err(error) => {
            return Err(error);
        },
    };
    let rewards_purse_key = match named_key(
        proof_of_stake_info.contract().urefs_lookup(),
        POS_REWARDS_PURSE,
    ) {
        Some(key) => key,
        None => {
            return Err(Error::DeployError);
        },
    };
    let rewards_purse_balance_key = match tracking_copy.get_purse_balance_key(
        correlation_id,
        mint_inner_uref,
        rewards_purse_key,
    ) {
        Ok(key) => key,
        Err(Error::StorageError(error)) => {
            return Err(Error::StorageError(error));
        },
        Err(_) => {
            return Err(Error::DeployError);
        },
    };
    let account_main_purse_balance_key = match tracking_copy.get_purse_balance_key(
        correlation_id,
        mint_inner_uref,
        Key::URef(account.purse_id().value()),
    ) {
        Ok(key) => key,
        Err(error) => {
            return Err(error);
        },
    };
    let account_main_purse_balance = match tracking_copy.get_purse_balance(
        correlation_id,
        account_main_purse_balance_key,
    ) {
        Ok(balance) => balance,
        Err(error) => {
            return Err(error);
        },
    };
    if account_main_purse_balance.lt(&U512::from_u64(MAX_PAYMENT)) {
        return Err(Error::InsufficientPaymentError);
    }
    Ok(
        PaymentContext {
            mint_inner_uref,
            proof_of_stake_info,
            rewards_purse_balance_key,
            account_main_purse_balance_key,
            account_main_purse_balance,
        },
    )
}

/// The balance of the payment purse in a state: the purse that the
/// proof-of-stake contract knows by that name, at the mint.
pub open spec fn spec_payment_purse_balance(
    state: Map<Key, ValueView>,
    mint_inner_uref: URef,
    proof_of_stake_contract: ContractView,
) -> Result<nat, Error> {
    match assoc_get(proof_of_stake_contract.named_keys, POS_PAYMENT_PURSE@) {
        None => Err(Error::DeployError),
        Some(payment_purse) => match spec_purse_balance_key(state, mint_inner_uref, payment_purse) {
            Err(error) => Err(error),
            Ok(balance_key) => spec_purse_balance(state, balance_key),
        },
    }
}

/// The overlay after the balance of the payment purse was read: the mint's
/// record of the purse, and the balance.
pub open spec fn payment_purse_reads(
    view: TrackingCopyView,
    context: PaymentContextView,
) -> TrackingCopyView {
    let payment_purse = assoc_get(
        context.proof_of_stake_contract.named_keys,
        POS_PAYMENT_PURSE@,
    ).unwrap();
    view.after_reading(balance_slot(context.mint_inner_uref, payment_purse)).after_reading(
        spec_purse_balance_key(
            view.values(),
            context.mint_inner_uref,
            payment_purse,
        ).unwrap().spec_normalize(),
    )
}

/// Reads the balance of the payment purse. The store is asked only where the
/// proof-of-stake contract names the purse by a reference.
pub fn payment_purse_balance<R: StateReader>(
    tracking_copy: &mut TrackingCopy<R>,
    correlation_id: CorrelationId,
    context: &PaymentContext,
) -> (r: Result<U512, Error>)
    ensures
        final(tracking_copy)@.values() == old(tracking_copy)@.values(),
        final(tracking_copy)@.log == old(tracking_copy)@.log,
        match r {
            Ok(balance) => spec_payment_purse_balance(
                old(tracking_copy)@.values(),
                context@.mint_inner_uref,
                context@.proof_of_stake_contract,
            ) == Ok::<nat, Error>(balance.value()) && final(tracking_copy)@
                == payment_purse_reads(old(tracking_copy)@, context@),
            Err(Error::StorageError(_)) => assoc_get(
                context@.proof_of_stake_contract.named_keys,
                POS_PAYMENT_PURSE@,
            ) matches Some(purse) && purse is URef,
            Err(error) => spec_payment_purse_balance(
                old(tracking_copy)@.values(),
                context@.mint_inner_uref,
                context@.proof_of_stake_contract,
            ) == Err::<nat, Error>(error),
        },
{
    let payment_purse = match named_key(
        context.proof_of_stake_info.contract().urefs_lookup(),
        POS_PAYMENT_PURSE,
    ) {
        Some(key) => key,
        None => {
            return Err(Error::DeployError);
        },
    };
    let balance_key = match tracking_copy.get_purse_balance_key(
        correlation_id,
        context.mint_inner_uref,
        payment_purse,
    ) {
        Ok(key) => key,
        Err(error) => {
            return Err(error);
        },
    };
    tracking_copy.get_purse_balance(correlation_id, balance_key)
}

/// What holds of the outcome with which a deploy ends after its payment code
/// ran: the store failed; or the balance of the payment purse was not found,
/// and the deploy is turned down; or the deploy is charged by force.
pub open spec fn payment_ends_deploy(
    state: Map<Key, ValueView>,
    context: PaymentContextView,
    payment: ExecutionResultView,
    outcome: ExecutionResultView,
) -> bool {
    is_storage_failure(outcome) || match spec_payment_purse_balance(
        state,
        context.mint_inner_uref,
        context.proof_of_stake_contract,
    ) {
        Err(error) => outcome == ExecutionResultView::precondition_failure(error),
        Ok(balance) => forced_transfer_due(payment, MAX_PAYMENT as nat, balance) && outcome
            == forced_transfer_result(
            payment,
            MAX_PAYMENT as nat,
            context.account_main_purse_balance,
            context.account_main_purse_balance_key,
            context.rewards_purse_balance_key,
        ),
    }
}

/// Decides, once payment code has run, how the deploy goes on: the balance
/// of the payment purse is read as the overlay now shows it; where payment
/// code failed or the purse holds less than the largest payment, the deploy
/// ends with the forced transfer; else session code may run, on what the
/// balance buys. The main purse must hold the largest payment.
pub fn settle_payment<R: StateReader>(
    tracking_copy: &mut TrackingCopy<R>,
    correlation_id: CorrelationId,
    context: &PaymentContext,
    execution_result_builder: &mut ExecutionResultBuilder,
    payment_result: ExecutionResult,
) -> (r: Result<U512, ExecutionResult>)
    requires
        context@.account_main_purse_balance >= MAX_PAYMENT,
    ensures
        final(tracking_copy)@.values() == old(tracking_copy)@.values(),
        final(tracking_copy)@.log == old(tracking_copy)@.log,
        match r {
            Ok(balance) => {
                &&& spec_payment_purse_balance(
                    old(tracking_copy)@.values(),
                    context@.mint_inner_uref,
                    context@.proof_of_stake_contract,
                ) == Ok::<nat, Error>(balance.value())
                &&& !forced_transfer_due(payment_result@, MAX_PAYMENT as nat, balance.value())
                &&& final(tracking_copy)@ == payment_purse_reads(old(tracking_copy)@, context@)
                &&& final(execution_result_builder)@ == (ExecutionResultBuilderView {
                    payment: Some(payment_result@),
                    ..old(execution_result_builder)@
                })
            },
            Err(outcome) => payment_ends_deploy(
                old(tracking_copy)@.values(),
                context@,
                payment_result@,
                outcome@,
            ),
        },
{
    let balance = match payment_purse_balance(tracking_copy, correlation_id, context) {
        Ok(balance) => balance,
        Err(error) => {
            return Err(ExecutionResult::precondition_failure(error));
        },
    };
    execution_result_builder.set_payment_execution_result(payment_result);
    match execution_result_builder.check_forced_transfer(
        U512::from_u64(MAX_PAYMENT),
        context.account_main_purse_balance,
        balance,
        context.account_main_purse_balance_key,
        context.rewards_purse_balance_key,
    ) {
        Some(failure) => Err(failure),
        None => Ok(balance),
    }
}

/// Gas available to payment code: what the largest payment buys.
pub fn payment_gas_limit() -> (r: u64)
    ensures
        r == MAX_PAYMENT / CONV_RATE,
{
    MAX_PAYMENT / CONV_RATE
}

/// Gas available to session code: what the balance of the payment purse
/// buys, less what payment code spent; never less than nothing, and never
/// more than the largest amount of gas.
pub open spec fn spec_session_gas_limit(payment_purse_balance: nat, payment_cost: u64) -> u64 {
    let bought = payment_purse_balance / (CONV_RATE as nat);
    if bought <= payment_cost {
        0
    } else if bought - payment_cost > u64::MAX {
        u64::MAX
    } else {
        (bought - payment_cost) as u64
    }
}

/// Gas available to session code.
pub fn session_gas_limit(payment_purse_balance: U512, payment_cost: u64) -> (r: u64)
    ensures
        r == spec_session_gas_limit(payment_purse_balance.value(), payment_cost),
{
    let (bought, _) = payment_purse_balance.div_rem_u64(CONV_RATE);
    match bought.checked_sub(U512::from_u64(payment_cost)) {
        None => 0,
        Some(left) => match left.to_u64() {
            Some(limit) => limit,
            None => u64::MAX,
        },
    }
}

/// What finalization is called with: the name of the entry point, the motes
/// that the gas spent is worth, and the address of the account that pays.
pub open spec fn spec_finalize_payment_args(total_cost: u64, account_addr: [u8; 32]) -> Seq<
    ValueView,
> {
    seq![
        ValueView::String("finalize_payment"@),
        ValueView::Num(NumKind::U512, total_cost * CONV_RATE),
        ValueView::ByteArray(account_addr@),
    ]
}

/// What finalization is called with.
pub fn finalize_payment_args(total_cost: u64, account_addr: [u8; 32]) -> (r: Vec<Value>)
    ensures
        values_view(r@) == spec_finalize_payment_args(total_cost, account_addr),
{
    let motes = U512::from_u128(total_cost as u128 * CONV_RATE as u128);
    let mut addr_bytes: Vec<u8> = Vec::new();
    let mut i: usize = 0;
    while i < 32
        invariant
            i <= 32,
            addr_bytes@ == account_addr@.subrange(0, i as int),
        decreases 32 - i,
    {
        addr_bytes.push(account_addr[i]);
        assert(addr_bytes@ =~= account_addr@.subrange(0, i + 1));
        i += 1;
    }
    assert(addr_bytes@ =~= account_addr@);
    let mut args: Vec<Value> = Vec::new();
    args.push(Value::String("finalize_payment".to_owned()));
    args.push(Value::UInt512(motes));
    args.push(Value::ByteArray(addr_bytes));
    assert(values_view(args@) =~= spec_finalize_payment_args(total_cost, account_addr));
    args
}

/// The account in whose name payments are settled. It exists in no state:
/// its address is all zeros, its purse is the reference of all zeros with
/// every right, it knows no keys, and its nonce is zero.
pub open spec fn spec_system_account() -> AccountView {
    AccountView {
        addr: spec_system_account_addr(),
        nonce: 0,
        named_keys: Seq::empty(),
        purse_id: PurseId(
            URef {
                addr: spec_system_account_addr(),
                access_rights: Some(AccessRights::ReadAddWrite),
            },
        ),
        associated_keys: Seq::empty(),
        action_thresholds: ActionThresholds { deployment: Weight(1), key_management: Weight(1) },
    }
}

/// The account in whose name payments are settled.
pub fn system_account() -> (r: Account)
    ensures
        r@ == spec_system_account(),
{
    Account::new(
        system_account_addr(),
        0,
        NamedKeys::new(),
        PurseId::new(URef::new(system_account_addr(), AccessRights::ReadAddWrite)),
        AssociatedKeys::new(),
        ActionThresholds { deployment: Weight(1), key_management: Weight(1) },
    )
}

/// Why a deploy is turned down before any of its code runs, if it is: the
/// account check fails; or session code is no valid module; or, where
/// deploys pay for themselves, the system contracts or the purses are not
/// found, the main purse cannot pay, or payment code is no valid module.
pub open spec fn deploy_refusal<A, P: Preprocessor<A>>(
    state: Map<Key, ValueView>,
    config: EngineConfig,
    preprocessor: &P,
    session_module_bytes: Seq<u8>,
    payment_module_bytes: Seq<u8>,
    address: Key,
    authorized_keys: Seq<PublicKey>,
    nonce: u64,
) -> Option<Error> {
    match account_check(state, address, authorized_keys, nonce) {
        Err(error) => Some(error),
        Ok(account) => match preprocessor.rejection(session_module_bytes) {
            Some(error) => Some(Error::WasmPreprocessingError(error)),
            None => if !config.spec_use_payment_code() {
                None
            } else {
                match payment_context(
                    state.insert(Key::Account(account.addr), ValueView::Account(account)),
                    account,
                ) {
                    Err(error) => Some(error),
                    Ok(_) => match preprocessor.rejection(payment_module_bytes) {
                        Some(error) => Some(Error::WasmPreprocessingError(error)),
                        None => None,
                    },
                }
            },
        },
    }
}

/// Whether an outcome says that the store failed before any code ran.
pub open spec fn is_storage_failure(result: ExecutionResultView) -> bool {
    result.error matches Some(Error::StorageError(error)) && result
        == ExecutionResultView::precondition_failure(Error::StorageError(error))
}

/// What holds of the outcome of a deploy that pays for itself and whose
/// payment code ran: the stored code of the proof-of-stake contract could
/// not be read back, and the deploy is turned down for that; or the deploy
/// ended after its payment code, as `payment_ends_deploy` says for what the
/// overlay showed then; or payment code went well, session code and
/// finalization ran, and the outcome is what is assembled from the three
/// outcomes.
pub open spec fn paid_deploy_outcome(context: PaymentContextView, result: ExecutionResultView) -> bool {
    ||| exists|error: PreprocessingError|
        result == #[trigger] ExecutionResultView::precondition_failure(
            Error::WasmPreprocessingError(error),
        )
    ||| exists|payment: ExecutionResultView, shown: Map<Key, ValueView>| #[trigger]
        payment_ends_deploy(shown, context, payment, result)
    ||| exists|
        payment: ExecutionResultView,
        session: ExecutionResultView,
        finalize: ExecutionResultView,
    |
        payment.error is None && result == #[trigger] assembled_result(
            payment,
            Some(session),
            finalize,
        )
}

/// What holds of the outcome of a deploy on a state: the store failed, or
/// the deploy was turned down with the error that the checks give and
/// without any effect, or its code ran. The store is asked only for a
/// deploy whose address is an account key. Where the deploy pays for itself
/// and its code ran, `paid_deploy_outcome` holds of the outcome.
pub open spec fn deploy_outcome<A, P: Preprocessor<A>>(
    state: Map<Key, ValueView>,
    config: EngineConfig,
    preprocessor: &P,
    session_module_bytes: Seq<u8>,
    payment_module_bytes: Seq<u8>,
    address: Key,
    authorized_keys: Seq<PublicKey>,
    nonce: u64,
    result: ExecutionResultView,
) -> bool {
    (is_storage_failure(result) && address is Account) || match deploy_refusal(
        state,
        config,
        preprocessor,
        session_module_bytes,
        payment_module_bytes,
        address,
        authorized_keys,
        nonce,
    ) {
        Some(error) => result == ExecutionResultView::precondition_failure(error),
        None => config.spec_use_payment_code() ==> paid_deploy_outcome(
            accepted_context(state, address, authorized_keys, nonce),
            result,
        ),
    }
}

/// What a deploy that passes the checks knows of the system contracts: what
/// `payment_context` gives on the state in which the deploy is counted.
pub open spec fn accepted_context(
    state: Map<Key, ValueView>,
    address: Key,
    authorized_keys: Seq<PublicKey>,
    nonce: u64,
) -> PaymentContextView {
    let account = account_check(state, address, authorized_keys, nonce).unwrap();
    payment_context(
        state.insert(Key::Account(account.addr), ValueView::Account(account)),
        account,
    ).unwrap()
}

/// The outcome of a deploy that passes the checks and does not pay for
/// itself: what the executor names for the run of its session code, for the
/// account as it was counted and on the overlay after the account check,
/// with all the gas of the deploy.
pub open spec fn session_run<A, P: Preprocessor<A>, E: Executor<A>>(
    start: TrackingCopyView,
    preprocessor: &P,
    executor: &E,
    session_module_bytes: Seq<u8>,
    session_args: Seq<u8>,
    address: Key,
    authorized_keys: Seq<PublicKey>,
    blocktime: BlockTime,
    nonce: u64,
    gas_limit: u64,
    protocol_version: u64,
) -> ExecutionResultView {
    let account = account_check(start.values(), address, authorized_keys, nonce).unwrap();
    executor.run(
        preprocessor.module(session_module_bytes),
        session_args,
        address,
        account,
        authorized_keys,
        blocktime,
        gas_limit,
        protocol_version,
        counted_overlay(start, address, account),
    ).0
}

/// The outcome of a deploy that passes the checks and pays for itself.
///
/// Payment code runs with the gas that the largest payment buys, on the
/// overlay after the checks. The balance of the payment purse is read as the
/// overlay shows it after that run. Where it cannot be read, the deploy is
/// turned down; where payment code failed or the purse is short, the deploy
/// is charged by force. Else session code runs with the gas that the balance
/// buys, less what payment code spent; the stored code of the
/// proof-of-stake contract is read back; finalization runs in the name of
/// the system account, with the arguments that the costs give and without a
/// limit on gas; and the three outcomes are assembled.
pub open spec fn paid_run<A, P: Preprocessor<A>, E: Executor<A>>(
    start: TrackingCopyView,
    preprocessor: &P,
    executor: &E,
    session_module_bytes: Seq<u8>,
    session_args: Seq<u8>,
    payment_module_bytes: Seq<u8>,
    payment_args: Seq<u8>,
    address: Key,
    authorized_keys: Seq<PublicKey>,
    blocktime: BlockTime,
    nonce: u64,
    protocol_version: u64,
) -> ExecutionResultView {
    let account = account_check(start.values(), address, authorized_keys, nonce).unwrap();
    let counted = counted_overlay(start, address, account);
    let context = accepted_context(start.values(), address, authorized_keys, nonce);
    let (payment, paid) = executor.run(
        preprocessor.module(payment_module_bytes),
        payment_args,
        address,
        account,
        authorized_keys,
        blocktime,
        MAX_PAYMENT / CONV_RATE,
        protocol_version,
        context_reads(counted, account, context),
    );
    match spec_payment_purse_balance(
        paid.values(),
        context.mint_inner_uref,
        context.proof_of_stake_contract,
    ) {
        Err(error) => ExecutionResultView::precondition_failure(error),
        Ok(balance) => if forced_transfer_due(payment, MAX_PAYMENT as nat, balance) {
            forced_transfer_result(
                payment,
                MAX_PAYMENT as nat,
                context.account_main_purse_balance,
                context.account_main_purse_balance_key,
                context.rewards_purse_balance_key,
            )
        } else {
            let (session, settled) = executor.run(
                preprocessor.module(session_module_bytes),
                session_args,
                address,
                account,
                authorized_keys,
                blocktime,
                spec_session_gas_limit(balance, payment.cost),
                protocol_version,
                payment_purse_reads(paid, context),
            );
            match preprocessor.stored_module(context.proof_of_stake_contract.bytes) {
                Err(error) => ExecutionResultView::precondition_failure(
                    Error::WasmPreprocessingError(error),
                ),
                Ok(module) => assembled_result(
                    payment,
                    Some(session),
                    executor.run_direct(
                        module,
                        spec_finalize_payment_args(
                            total_cost_of(Some(payment), Some(session)),
                            account.addr,
                        ),
                        context.proof_of_stake_contract.named_keys,
                        context.proof_of_stake_inner_key,
                        spec_system_account(),
                        authorized_keys,
                        blocktime,
                        u64::MAX,
                        protocol_version,
                        settled,
                    ).0,
                ),
            }
        },
    }
}

/// What holds of the outcome of a deploy that passes the checks, on the
/// overlay that it starts from: it is the outcome that the runs of its code
/// give, as the executor names them, unless the store failed. Where the
/// store failed, the outcome says so; or it failed in payment code, and the
/// deploy ended after it; or it failed in finalization, and the outcome is
/// assembled with an outcome of finalization that says so.
pub open spec fn deploy_ran<A, P: Preprocessor<A>, E: Executor<A>>(
    start: TrackingCopyView,
    config: EngineConfig,
    preprocessor: &P,
    executor: &E,
    session_module_bytes: Seq<u8>,
    session_args: Seq<u8>,
    payment_module_bytes: Seq<u8>,
    payment_args: Seq<u8>,
    address: Key,
    authorized_keys: Seq<PublicKey>,
    blocktime: BlockTime,
    nonce: u64,
    gas_limit: u64,
    protocol_version: u64,
    result: ExecutionResultView,
) -> bool {
    deploy_refusal(
        start.values(),
        config,
        preprocessor,
        session_module_bytes,
        payment_module_bytes,
        address,
        authorized_keys,
        nonce,
    ) is None ==> store_failed(result) || if !config.spec_use_payment_code() {
        result == session_run(
            start,
            preprocessor,
            executor,
            session_module_bytes,
            session_args,
            address,
            authorized_keys,
            blocktime,
            nonce,
            gas_limit,
            protocol_version,
        )
    } else {
        ||| result == paid_run(
            start,
            preprocessor,
            executor,
            session_module_bytes,
            session_args,
            payment_module_bytes,
            payment_args,
            address,
            authorized_keys,
            blocktime,
            nonce,
            protocol_version,
        )
        ||| exists|payment: ExecutionResultView, shown: Map<Key, ValueView>|
            store_failed(payment) && #[trigger] payment_ends_deploy(
                shown,
                accepted_context(start.values(), address, authorized_keys, nonce),
                payment,
                result,
            )
        ||| exists|
            payment: ExecutionResultView,
            session: ExecutionResultView,
            finalize: ExecutionResultView,
        |
            store_failed(finalize) && payment.error is None && result
                == #[trigger] assembled_result(payment, Some(session), finalize)
    }
}

/// Runs a deploy against an overlay on the state that it starts from.
///
/// The deploy is checked; then payment code runs; if that leaves the payment
/// purse short, the deploy is charged by force and ends; else session code
/// runs on what the payment purse can buy, the payment is settled in the
/// name of the system account, and the three outcomes become one. Where
/// deploys do not pay for themselves, the outcome is that of the run of the
/// session code.
///
/// A deploy that fails a check has the error of the first check that fails.
/// A deploy that passes the checks has the outcome that the runs of its code
/// give, as the executor names them, unless the store fails.
#[verifier::rlimit(60)]
pub fn deploy<A, R: StateReader, P: Preprocessor<A>, E: Executor<A>>(
    config: &EngineConfig,
    tracking_copy: TrackingCopy<R>,
    session_module_bytes: &[u8],
    session_args: &[u8],
    payment_module_bytes: &[u8],
    payment_args: &[u8],
    address: Key,
    authorized_keys: PublicKeySet,
    blocktime: BlockTime,
    nonce: u64,
    gas_limit: u64,
    protocol_version: u64,
    correlation_id: CorrelationId,
    executor: &E,
    preprocessor: &P,
) -> (r: ExecutionResult)
    ensures
        deploy_outcome(
            tracking_copy@.values(),
            *config,
            preprocessor,
            session_module_bytes@,
            payment_module_bytes@,
            address,
            authorized_keys@,
            nonce,
            r@,
        ),
        deploy_ran(
            tracking_copy@,
            *config,
            preprocessor,
            executor,
            session_module_bytes@,
            session_args@,
            payment_module_bytes@,
            payment_args@,
            address,
            authorized_keys@,
            blocktime,
            nonce,
            gas_limit,
            protocol_version,
            r@,
        ),
{
    let ghost start = tracking_copy@;
    let mut tracking_copy = tracking_copy;
    let account = match validate_account(
        &mut tracking_copy,
        correlation_id,
        address,
        &authorized_keys,
        nonce,
    ) {
        Ok(account) => account,
        Err(error) => {
            return ExecutionResult::precondition_failure(error);
        },
    };
    let session_module = match preprocessor.preprocess(session_module_bytes) {
        Ok(module) => module,
        Err(error) => {
            return ExecutionResult::precondition_failure(Error::WasmPreprocessingError(error));
        },
    };
    if !config.use_payment_code() {
        return executor.exec(
            session_module,
            session_args,
            address,
            &account,
            authorized_keys,
            blocktime,
            gas_limit,
            protocol_version,
            correlation_id,
            &mut tracking_copy,
        );
    }
    let context = match resolve_payment_context(&mut tracking_copy, correlation_id, &account) {
        Ok(context) => context,
        Err(error) => {
            return ExecutionResult::precondition_failure(error);
        },
    };
    let payment_module = match preprocessor.preprocess(payment_module_bytes) {
        Ok(module) => module,
        Err(error) => {
            return ExecutionResult::precondition_failure(Error::WasmPreprocessingError(error));
        },
    };
    let payment_result = executor.exec(
        payment_module,
        payment_args,
        address,
        &account,
        authorized_keys.duplicate(),
        blocktime,
        payment_gas_limit(),
        protocol_version,
        correlation_id,
        &mut tracking_copy,
    );
    let payment_result_cost = payment_result.cost();
    let ghost payment = payment_result@;
    let ghost shown = tracking_copy@.values();
    let mut execution_result_builder = ExecutionResultBuilder::new();
    let payment_purse_balance = match settle_payment(
        &mut tracking_copy,
        correlation_id,
        &context,
        &mut execution_result_builder,
        payment_result,
    ) {
        Ok(balance) => balance,
        Err(outcome) => {
            assert(payment_ends_deploy(shown, context@, payment, outcome@));
            return outcome;
        },
    };
    let session_result = executor.exec(
        session_module,
        session_args,
        address,
        &account,
        authorized_keys.duplicate(),
        blocktime,
        session_gas_limit(payment_purse_balance, payment_result_cost),
        protocol_version,
        correlation_id,
        &mut tracking_copy,
    );
    let ghost session = session_result@;
    execution_result_builder.set_session_execution_result(session_result);
    let proof_of_stake_module = match preprocessor.deserialize(
        context.proof_of_stake_info.module_bytes().as_slice(),
    ) {
        Ok(module) => module,
        Err(error) => {
            return ExecutionResult::precondition_failure(Error::WasmPreprocessingError(error));
        },
    };
    let proof_of_stake_args = finalize_payment_args(
        execution_result_builder.total_cost(),
        account.pub_key(),
    );
    let mut proof_of_stake_keys = context.proof_of_stake_info.contract().urefs_lookup().duplicate();
    let system_account = system_account();
    let finalize_result = executor.exec_direct(
        proof_of_stake_module,
        proof_of_stake_args.as_slice(),
        &mut proof_of_stake_keys,
        context.proof_of_stake_info.inner_key(),
        &system_account,
        authorized_keys,
        blocktime,
        u64::MAX,
        protocol_version,
        correlation_id,
        &mut tracking_copy,
    );
    let ghost finalize = finalize_result@;
    execution_result_builder.set_finalize_execution_result(finalize_result);
    match execution_result_builder.build() {
        Ok(result) => {
            assert(result@ == assembled_result(payment, Some(session), finalize));
            result
        },
        Err(_) => vstd::pervasive::unreached(),
    }
}

/// `lock_api::Mutex`, of which `parking_lot::Mutex` is an instance: a lock
/// around a value. Nothing is known of what is inside.
#[verifier::external_type_specification]
#[verifier::external_body]
#[verifier::reject_recursive_types(R)]
#[verifier::reject_recursive_types(T)]
pub struct ExMutex<R, T: ?Sized>(parking_lot::lock_api::Mutex<R, T>);

/// `parking_lot::RawMutex`, the lock inside a `parking_lot::Mutex`.
#[verifier::external_type_specification]
#[verifier::external_body]
pub struct ExRawMutex(parking_lot::RawMutex);

/// A held lock on the store: it holds the `parking_lot::MutexGuard`, which
/// gives the lock back when it is dropped. The guard itself cannot be
/// declared, because its type is bound by a trait of `lock_api`.
#[verifier::external_body]
#[verifier::reject_recursive_types(H)]
struct Locked<'a, H> {
    guard: MutexGuard<'a, H>,
}

/// `parking_lot::Mutex::new`: a lock around a value. Nothing is claimed of
/// it.
#[verifier::external_body]
fn new_mutex<H>(state: H) -> Mutex<H> {
    Mutex::new(state)
}

/// `parking_lot::Mutex::lock`: waits until the lock is free and takes it; a
/// thread that holds the lock already waits for ever. Nothing is claimed of
/// what the lock guards: another thread may have changed it.
#[verifier::external_body]
fn lock<'a, H>(mutex: &'a Mutex<H>) -> Locked<'a, H> {
    Locked { guard: mutex.lock() }
}

/// `Deref` of `parking_lot::MutexGuard`: what the held lock guards.
#[verifier::external_body]
fn locked<'a, 'b, H>(guard: &'b Locked<'a, H>) -> &'b H {
    &*guard.guard
}

/// `DerefMut` of `parking_lot::MutexGuard`: what the held lock guards, to be
/// changed.
#[verifier::external_body]
fn locked_mut<'a, 'b, H>(guard: &'b mut Locked<'a, H>) -> &'b mut H {
    &mut *guard.guard
}

/// What holds of a checkout from a store that knows the given versions: an
/// overlay comes back only for a digest that the store knows, and it is a
/// fresh overlay on the state that the digest names; nothing comes back
/// only for a digest that the store does not know; and the only error is a
/// failure of the store.
pub open spec fn checkout_outcome<R: StateReader>(
    known: Map<Blake2bHash, Map<Key, ValueView>>,
    hash: Blake2bHash,
    outcome: Result<Option<TrackingCopy<R>>, Error>,
) -> bool {
    match outcome {
        Ok(Some(tracking_copy)) => known.contains_key(hash) && tracking_copy@
            == TrackingCopyView::fresh(known[hash]),
        Ok(None) => !known.contains_key(hash),
        Err(error) => error is StorageError,
    }
}

/// A fresh overlay on the state that a digest names, if the store knows it.
pub fn tracking_copy_at<H: History>(history: &H, hash: Blake2bHash) -> (r: Result<
    Option<TrackingCopy<H::Reader>>,
    Error,
>)
    ensures
        match r {
            Ok(Some(tracking_copy)) => history.snapshots().contains_key(hash) && tracking_copy@
                == TrackingCopyView::fresh(history.snapshots()[hash]),
            Ok(None) => !history.snapshots().contains_key(hash),
            Err(error) => error is StorageError,
        },
{
    tracking_copy_from(history.checkout(hash))
}

/// A fresh overlay on the reader that a checkout gave: nothing where the
/// checkout gave nothing, and the error of the store where it failed.
pub fn tracking_copy_from<R: StateReader>(checkout: Result<Option<R>, StorageError>) -> (r: Result<
    Option<TrackingCopy<R>>,
    Error,
>)
    ensures
        match checkout {
            Ok(Some(reader)) => r matches Ok(Some(tracking_copy)) && tracking_copy@
                == TrackingCopyView::fresh(reader.state()),
            Ok(None) => r matches Ok(None),
            Err(error) => r matches Err(e) && e == Error::StorageError(error),
        },
{
    match checkout {
        Ok(Some(reader)) => Ok(Some(TrackingCopy::new(reader))),
        Ok(None) => Ok(None),
        Err(error) => Err(Error::StorageError(error)),
    }
}

/// A fresh overlay shows what its snapshot holds.
pub proof fn lemma_fresh_values(base: Map<Key, ValueView>)
    ensures
        TrackingCopyView::fresh(base).values() == base,
{
    crate::tracking_copy::lemma_fresh_consistent(base);
    let fresh = TrackingCopyView::fresh(base);
    assert forall|key: Key| fresh.current(key) == (if base.contains_key(key) {
        Some(base[key])
    } else {
        None
    }) by {
        crate::assoc::lemma_assoc_absent(fresh.cache, key);
    }
    assert(fresh.values() =~= base);
}

/// What holds of a deploy that was run on the state that a digest names, in
/// a store that knows the given versions. The call fails only for a digest
/// that the store does not know, and then with that digest. Every other
/// outcome says that the store failed, or is an outcome of the deploy on
/// the state that the digest names: that of the first check that fails, or
/// what the runs of its code give on a fresh overlay on that state.
pub open spec fn run_deploy_outcome<A, P: Preprocessor<A>, E: Executor<A>>(
    known: Map<Blake2bHash, Map<Key, ValueView>>,
    config: EngineConfig,
    preprocessor: &P,
    executor: &E,
    session_module_bytes: Seq<u8>,
    session_args: Seq<u8>,
    payment_module_bytes: Seq<u8>,
    payment_args: Seq<u8>,
    address: Key,
    authorized_keys: Seq<PublicKey>,
    blocktime: BlockTime,
    nonce: u64,
    prestate_hash: Blake2bHash,
    gas_limit: u64,
    protocol_version: u64,
    outcome: Result<ExecutionResult, RootNotFound>,
) -> bool {
    match outcome {
        Err(error) => error == RootNotFound(prestate_hash) && !known.contains_key(prestate_hash),
        Ok(result) => is_storage_failure(result@) || (known.contains_key(prestate_hash)
            && deploy_outcome(
            known[prestate_hash],
            config,
            preprocessor,
            session_module_bytes,
            payment_module_bytes,
            address,
            authorized_keys,
            nonce,
            result@,
        ) && deploy_ran(
            TrackingCopyView::fresh(known[prestate_hash]),
            config,
            preprocessor,
            executor,
            session_module_bytes,
            session_args,
            payment_module_bytes,
            payment_args,
            address,
            authorized_keys,
            blocktime,
            nonce,
            gas_limit,
            protocol_version,
            result@,
        )),
    }
}

/// Runs a deploy on what a checkout gave. Where the checkout gave nothing,
/// the state is not known, and the call fails with the digest; where the
/// store failed, the outcome says so; and where it gave an overlay, the
/// deploy runs against it.
#[allow(clippy::too_many_arguments)]
pub fn deploy_checked_out<A, R: StateReader, P: Preprocessor<A>, E: Executor<A>>(
    config: &EngineConfig,
    checkout: Result<Option<TrackingCopy<R>>, Error>,
    session_module_bytes: &[u8],
    session_args: &[u8],
    payment_module_bytes: &[u8],
    payment_args: &[u8],
    address: Key,
    authorized_keys: PublicKeySet,
    blocktime: BlockTime,
    nonce: u64,
    prestate_hash: Blake2bHash,
    gas_limit: u64,
    protocol_version: u64,
    correlation_id: CorrelationId,
    executor: &E,
    preprocessor: &P,
) -> (r: Result<ExecutionResult, RootNotFound>)
    ensures
        match checkout {
            Ok(None) => r == Err::<ExecutionResult, RootNotFound>(RootNotFound(prestate_hash)),
            Err(error) => r matches Ok(result) && result@
                == ExecutionResultView::precondition_failure(error),
            Ok(Some(tracking_copy)) => r matches Ok(result) && deploy_outcome(
                tracking_copy@.values(),
                *config,
                preprocessor,
                session_module_bytes@,
                payment_module_bytes@,
                address,
                authorized_keys@,
                nonce,
                result@,
            ) && deploy_ran(
                tracking_copy@,
                *config,
                preprocessor,
                executor,
                session_module_bytes@,
                session_args@,
                payment_module_bytes@,
                payment_args@,
                address,
                authorized_keys@,
                blocktime,
                nonce,
                gas_limit,
                protocol_version,
                result@,
            ),
        },
{
    match checkout {
        Ok(None) => Err(RootNotFound(prestate_hash)),
        Err(error) => Ok(ExecutionResult::precondition_failure(error)),
        Ok(Some(tracking_copy)) => Ok(
            deploy(
                config,
                tracking_copy,
                session_module_bytes,
                session_args,
                payment_module_bytes,
                payment_args,
                address,
                authorized_keys,
                blocktime,
                nonce,
                gas_limit,
                protocol_version,
                correlation_id,
                executor,
                preprocessor,
            ),
        ),
    }
}

/// Runs a deploy on the state that a digest names in a store.
///
/// The call fails just where the store does not know the digest, and then
/// with that digest. Every other failure is an outcome: the store failed, or
/// the deploy was turned down with the error that the checks give for the
/// state that the digest names, without effect and without cost, or its code
/// ran.
#[allow(clippy::too_many_arguments)]
pub fn run_deploy_at<A, H: History, P: Preprocessor<A>, E: Executor<A>>(
    history: &H,
    config: &EngineConfig,
    session_module_bytes: &[u8],
    session_args: &[u8],
    payment_module_bytes: &[u8],
    payment_args: &[u8],
    address: Key,
    authorized_keys: PublicKeySet,
    blocktime: BlockTime,
    nonce: u64,
    prestate_hash: Blake2bHash,
    gas_limit: u64,
    protocol_version: u64,
    correlation_id: CorrelationId,
    executor: &E,
    preprocessor: &P,
) -> (r: Result<ExecutionResult, RootNotFound>)
    ensures
        run_deploy_outcome(
    history.snapshots(),
    *config,
    preprocessor,
    executor,
    session_module_bytes@,
    session_args@,
    payment_module_bytes@,
    payment_args@,
    address,
    authorized_keys@,
    blocktime,
    nonce,
    prestate_hash,
    gas_limit,
    protocol_version,
    r,
),
{
    let checkout = tracking_copy_at(history, prestate_hash);
    proof {
        if history.snapshots().contains_key(prestate_hash) {
            lemma_fresh_values(history.snapshots()[prestate_hash]);
        }
    }
    deploy_checked_out(
        config,
        checkout,
        session_module_bytes,
        session_args,
        payment_module_bytes,
        payment_args,
        address,
        authorized_keys,
        blocktime,
        nonce,
        prestate_hash,
        gas_limit,
        protocol_version,
        correlation_id,
        executor,
        preprocessor,
    )
}

/// Commits what an overlay has done, on top of the state that the overlay was
/// checked out from.
///
/// Unless the store fails, the commit succeeds, and the new state holds
/// under every key what the overlay shows: what was read through the
/// overlay is what a reader of the new state reads.
pub fn commit_tracking_copy<H: History>(
    history: &mut H,
    correlation_id: CorrelationId,
    prestate_hash: Blake2bHash,
    tracking_copy: &TrackingCopy<H::Reader>,
) -> (r: Result<CommitResult, StorageError>)
    requires
        old(history).snapshots().contains_key(prestate_hash),
        old(history).snapshots()[prestate_hash] == tracking_copy@.base,
    ensures
        commit_outcome::<H>(
            old(history).snapshots(),
            final(history).snapshots(),
            prestate_hash,
            tracking_copy@.effect().transforms,
            r,
        ),
        match r {
            Ok(CommitResult::Success { state_root }) => {
                &&& state_root == H::root_of(tracking_copy@.values())
                &&& final(history).snapshots().contains_key(state_root)
                &&& final(history).snapshots()[state_root] == tracking_copy@.values()
            },
            Ok(_) => false,
            Err(_) => true,
        },
{
    let effect = tracking_copy.effect();
    history.commit(correlation_id, prestate_hash, effect.transforms)
}

/// What holds of the making of the first state, of the versions that the
/// store knew before it and of those that it knows after it. Code of the
/// mint that the preprocessor turns down gives its error, and so does code
/// of the proof-of-stake contract if that of the mint is accepted; the store
/// then stays as it was. Else, unless the store fails, the first state is
/// made: the effect is the one that the inputs give, the new state is what
/// that effect makes of the state that holds nothing, and its digest is the
/// digest of that state. The versions that the store knew stay as they
/// were.
pub open spec fn genesis_outcome<A, H: History, P: Preprocessor<A>>(
    before: Map<Blake2bHash, Map<Key, ValueView>>,
    after: Map<Blake2bHash, Map<Key, ValueView>>,
    preprocessor: &P,
    genesis_account_addr: [u8; 32],
    initial_tokens: nat,
    mint_code_bytes: Seq<u8>,
    proof_of_stake_code_bytes: Seq<u8>,
    validators: Seq<(PublicKey, nat)>,
    protocol_version: u64,
    outcome: Result<GenesisResult, Error>,
) -> bool {
    &&& forall|root: Blake2bHash| #[trigger]
        before.contains_key(root) ==> after.contains_key(root) && after[root] == before[root]
    &&& match genesis_rejection(preprocessor, mint_code_bytes, proof_of_stake_code_bytes) {
        Some(error) => outcome matches Err(e) && e == Error::WasmPreprocessingError(error)
            && after == before,
        None => match outcome {
            Ok(GenesisResult::Success { post_state_hash, effect }) => genesis_committed::<H>(
                genesis_account_addr,
                initial_tokens,
                mint_code_bytes,
                proof_of_stake_code_bytes,
                validators,
                protocol_version,
                post_state_hash,
                effect@,
            ) && after.contains_key(post_state_hash) && Some(after[post_state_hash])
                == commit_state(Map::empty(), effect@.transforms),
            Ok(_) => false,
            Err(error) => error is StorageError,
        },
    }
}

/// Why the code of the system contracts is turned down, if it is: for the
/// error of the mint's code, or else for that of the proof-of-stake
/// contract's code.
pub open spec fn genesis_rejection<A, P: Preprocessor<A>>(
    preprocessor: &P,
    mint_code_bytes: Seq<u8>,
    proof_of_stake_code_bytes: Seq<u8>,
) -> Option<PreprocessingError> {
    match preprocessor.rejection(mint_code_bytes) {
        Some(error) => Some(error),
        None => preprocessor.rejection(proof_of_stake_code_bytes),
    }
}

/// Makes the first state and commits it on top of the state that holds
/// nothing.
///
/// The code of the mint and of the proof-of-stake contract is checked first:
/// code that the preprocessor turns down ends the call with its error, and
/// the store is not touched. Else, unless the store fails, the first state
/// is made, and equal inputs give equal digests.
pub fn commit_genesis_to<A, H: History, P: Preprocessor<A>>(
    history: &mut H,
    correlation_id: CorrelationId,
    genesis_account_addr: [u8; 32],
    initial_tokens: U512,
    mint_code_bytes: &[u8],
    proof_of_stake_code_bytes: &[u8],
    genesis_validators: Vec<(PublicKey, U512)>,
    protocol_version: u64,
    preprocessor: &P,
) -> (r: Result<GenesisResult, Error>)
    ensures
        genesis_outcome::<A, H, P>(
            old(history).snapshots(),
            final(history).snapshots(),
            preprocessor,
            genesis_account_addr,
            initial_tokens.value(),
            mint_code_bytes@,
            proof_of_stake_code_bytes@,
            validators_view(genesis_validators@),
            protocol_version,
            r,
        ),
{
    let effect = match prepare_genesis_effects(
        genesis_account_addr,
        initial_tokens,
        mint_code_bytes,
        proof_of_stake_code_bytes,
        genesis_validators,
        protocol_version,
        preprocessor,
    ) {
        Ok(effect) => effect,
        Err(error) => {
            return Err(error);
        },
    };
    proof {
        lemma_writes_commit(Map::empty(), effect@.transforms);
    }
    commit_genesis_effects_to(history, correlation_id, effect)
}

/// Checks the code of the mint and of the proof-of-stake contract, and
/// makes the effect that makes the first state. Code of the mint that the
/// preprocessor turns down gives its error, and so does code of the
/// proof-of-stake contract if that of the mint is accepted; else the effect
/// is the one that the inputs give, and it is made of writes alone.
pub fn prepare_genesis_effects<A, P: Preprocessor<A>>(
    genesis_account_addr: [u8; 32],
    initial_tokens: U512,
    mint_code_bytes: &[u8],
    proof_of_stake_code_bytes: &[u8],
    genesis_validators: Vec<(PublicKey, U512)>,
    protocol_version: u64,
    preprocessor: &P,
) -> (r: Result<ExecutionEffect, Error>)
    ensures
        match genesis_rejection(preprocessor, mint_code_bytes@, proof_of_stake_code_bytes@) {
            Some(error) => r matches Err(e) && e == Error::WasmPreprocessingError(error),
            None => r matches Ok(effect) && effect@ == spec_genesis_effect(
                genesis_account_addr,
                initial_tokens.value(),
                mint_code_bytes@,
                proof_of_stake_code_bytes@,
                validators_view(genesis_validators@),
                protocol_version,
            ) && all_writes(effect@.transforms),
        },
{
    let mint_code = match WasmiBytes::new(mint_code_bytes, preprocessor) {
        Ok(code) => code,
        Err(error) => {
            return Err(Error::WasmPreprocessingError(error));
        },
    };
    let proof_of_stake_code = match WasmiBytes::new(proof_of_stake_code_bytes, preprocessor) {
        Ok(code) => code,
        Err(error) => {
            return Err(Error::WasmPreprocessingError(error));
        },
    };
    proof {
        crate::genesis::lemma_effect_of_writes_are_writes(
            crate::genesis::spec_genesis_writes(
                genesis_account_addr,
                initial_tokens.value(),
                mint_code@,
                proof_of_stake_code@,
                validators_view(genesis_validators@),
                protocol_version,
            ),
        );
    }
    Ok(
        create_genesis_effects(
            genesis_account_addr,
            initial_tokens,
            mint_code,
            proof_of_stake_code,
            genesis_validators,
            protocol_version,
        ),
    )
}

/// Commits an effect on top of the state that holds nothing. The commit
/// succeeds only where the effect can be made to that state: the new state
/// is what the effect makes of it, and its digest is the digest of that
/// state. It reports a key without a value, or a mismatch, only where the
/// effect cannot be made. The versions that the store knew stay as they
/// were.
pub fn commit_genesis_effects_to<H: History>(
    history: &mut H,
    correlation_id: CorrelationId,
    effect: ExecutionEffect,
) -> (r: Result<GenesisResult, Error>)
    ensures
        forall|root: Blake2bHash| #[trigger]
            old(history).snapshots().contains_key(root) ==> final(history).snapshots().contains_key(
                root,
            ) && final(history).snapshots()[root] == old(history).snapshots()[root],
        match r {
            Ok(GenesisResult::Success { post_state_hash, effect: committed }) => {
                &&& committed@ == effect@
                &&& commit_state(Map::empty(), effect@.transforms) matches Some(state)
                &&& post_state_hash == H::root_of(state)
                &&& final(history).snapshots().contains_key(post_state_hash)
                &&& final(history).snapshots()[post_state_hash] == state
            },
            Ok(GenesisResult::RootNotFound) => false,
            Ok(_) => commit_state(Map::empty(), effect@.transforms).is_none(),
            Err(error) => error is StorageError,
        },
{
    let prestate_hash = history.empty_root();
    GenesisResult::from_commit(
        history.commit(correlation_id, prestate_hash, effect.transforms.duplicate()),
        effect,
    )
}

/// What holds of a first state that was made: its effect is the one that the
/// inputs give, that effect can be made to the state that holds nothing, and
/// the digest is that of the state that comes of it.
pub open spec fn genesis_committed<H: History>(
    genesis_account_addr: [u8; 32],
    initial_tokens: nat,
    mint_code: Seq<u8>,
    proof_of_stake_code: Seq<u8>,
    validators: Seq<(PublicKey, nat)>,
    protocol_version: u64,
    post_state_hash: Blake2bHash,
    effect: ExecutionEffectView,
) -> bool {
    &&& effect == spec_genesis_effect(
        genesis_account_addr,
        initial_tokens,
        mint_code,
        proof_of_stake_code,
        validators,
        protocol_version,
    )
    &&& commit_state(Map::empty(), effect.transforms) matches Some(state)
    &&& post_state_hash == H::root_of(state)
}

/// Why the bonded validators of a state cannot be given.
#[derive(Clone, Copy, Debug, PartialEq, Eq)]
pub enum GetBondedValidatorsError {
    /// The store failed.
    StorageErrors(StorageError),
    /// The store does not know the state.
    PostStateHashNotFound(Blake2bHash),
    /// The state holds no contract under the key of the proof-of-stake
    /// contract.
    PoSNotFound(Key),
}

/// The validators and bonds that named keys record, in the order of the
/// names; a validator that is recorded again counts with its later bond, and
/// a name that is not the name of a bonded validator counts nothing.
pub open spec fn spec_bonded_validators(named_keys: NamedKeysView) -> Seq<(PublicKey, nat)>
    decreases named_keys.len(),
{
    if named_keys.len() == 0 {
        Seq::empty()
    } else {
        let earlier = spec_bonded_validators(named_keys.drop_last());
        match parse_validator_name(named_keys.last().0) {
            Some((public_key, amount)) => crate::assoc::assoc_insert(earlier, public_key, amount),
            None => earlier,
        }
    }
}

/// The validators and bonds that the named keys of a contract record.
pub fn bonded_validators_of(named_keys: &NamedKeys) -> (r: AssocList<PublicKey, U512>)
    ensures
        r@ == spec_bonded_validators(named_keys@),
{
    let mut validators: AssocList<PublicKey, U512> = AssocList::new();
    let mut i: usize = 0;
    while i < named_keys.len()
        invariant
            i <= named_keys@.len(),
            validators@ == spec_bonded_validators(named_keys@.subrange(0, i as int)),
        decreases named_keys@.len() - i,
    {
        proof {
            let next = named_keys@.subrange(0, i + 1);
            assert(next.drop_last() =~= named_keys@.subrange(0, i as int));
            assert(next.last() == named_keys@[i as int]);
        }
        match pos_validator_to_tuple(named_keys.key_at(i).as_str()) {
            Some((public_key, amount)) => {
                validators.insert(public_key, amount);
            },
            None => {},
        }
        i += 1;
    }
    assert(named_keys@.subrange(0, i as int) =~= named_keys@);
    validators
}

/// The bonded validators in the state that a digest names: those that the
/// named keys of the proof-of-stake contract record.
pub fn bonded_validators_at<H: History>(
    history: &H,
    root_hash: Blake2bHash,
    pos_key: &Key,
    correlation_id: CorrelationId,
) -> (r: Result<AssocList<PublicKey, U512>, GetBondedValidatorsError>)
    ensures
        match r {
            Ok(validators) => {
                &&& history.snapshots().contains_key(root_hash)
                &&& history.snapshots()[root_hash].contains_key(pos_key.spec_normalize())
                &&& history.snapshots()[root_hash][pos_key.spec_normalize()] matches ValueView::Contract(
                    contract,
                )
                &&& validators@ == spec_bonded_validators(contract.named_keys)
            },
            Err(GetBondedValidatorsError::PostStateHashNotFound(hash)) => hash == root_hash
                && !history.snapshots().contains_key(root_hash),
            Err(GetBondedValidatorsError::PoSNotFound(key)) => {
                &&& key == *pos_key
                &&& history.snapshots().contains_key(root_hash)
                &&& !(history.snapshots()[root_hash].contains_key(pos_key.spec_normalize())
                    && history.snapshots()[root_hash][pos_key.spec_normalize()] is Contract)
            },
            Err(GetBondedValidatorsError::StorageErrors(_)) => true,
        },
{
    let reader = match checked_out_reader(history.checkout(root_hash), root_hash) {
        Ok(reader) => reader,
        Err(error) => {
            return Err(error);
        },
    };
    bonded_validators_from(reader.read(correlation_id, &pos_key.normalize()), pos_key)
}

/// The reader that a checkout gave. Where the checkout gave nothing, the
/// state is not known; where the store failed, its error is handed on.
pub fn checked_out_reader<R: StateReader>(
    checkout: Result<Option<R>, StorageError>,
    root_hash: Blake2bHash,
) -> (r: Result<R, GetBondedValidatorsError>)
    ensures
        match checkout {
            Ok(Some(reader)) => r matches Ok(given) && given == reader,
            Ok(None) => r matches Err(e) && e == GetBondedValidatorsError::PostStateHashNotFound(
                root_hash,
            ),
            Err(error) => r matches Err(e) && e == GetBondedValidatorsError::StorageErrors(error),
        },
{
    match checkout {
        Ok(Some(reader)) => Ok(reader),
        Ok(None) => Err(GetBondedValidatorsError::PostStateHashNotFound(root_hash)),
        Err(error) => Err(GetBondedValidatorsError::StorageErrors(error)),
    }
}

/// The bonded validators that are recorded in what was read under the key
/// of the proof-of-stake contract. Where a contract was read, they are those
/// that its named keys record; where anything else or nothing was read, the
/// contract is not found; where the store failed, its error is handed on.
pub fn bonded_validators_from(read: Result<Option<Value>, StorageError>, pos_key: &Key) -> (r:
    Result<AssocList<PublicKey, U512>, GetBondedValidatorsError>)
    ensures
        match read {
            Ok(Some(value)) => match value@ {
                ValueView::Contract(contract) => r matches Ok(validators) && validators@
                    == spec_bonded_validators(contract.named_keys),
                _ => r matches Err(e) && e == GetBondedValidatorsError::PoSNotFound(*pos_key),
            },
            Ok(None) => r matches Err(e) && e == GetBondedValidatorsError::PoSNotFound(*pos_key),
            Err(error) => r matches Err(e) && e == GetBondedValidatorsError::StorageErrors(error),
        },
{
    match read {
        Ok(Some(Value::Contract(contract))) => Ok(bonded_validators_of(contract.urefs_lookup())),
        Ok(_) => Err(GetBondedValidatorsError::PoSNotFound(*pos_key)),
        Err(error) => Err(GetBondedValidatorsError::StorageErrors(error)),
    }
}

/// The bonded validators in the state that a digest names, from the store
/// behind a lock. What the store held when the lock was taken decides; the
/// outcome is one that `bonded_validators_at` can give.
pub fn get_bonded_validators<H: History>(
    state: Arc<Mutex<H>>,
    root_hash: Blake2bHash,
    pos_key: &Key,
    correlation_id: CorrelationId,
) -> (r: Result<AssocList<PublicKey, U512>, GetBondedValidatorsError>)
    ensures
        match r {
            Ok(validators) => exists|named_keys: NamedKeysView| validators@
                == #[trigger] spec_bonded_validators(named_keys),
            Err(GetBondedValidatorsError::PostStateHashNotFound(hash)) => hash == root_hash,
            Err(GetBondedValidatorsError::PoSNotFound(key)) => key == *pos_key,
            Err(GetBondedValidatorsError::StorageErrors(_)) => true,
        },
{
    let guard = lock(&state);
    bonded_validators_at(locked(&guard), root_hash, pos_key, correlation_id)
}

/// The engine: a store of the versions of global state behind a lock, and the
/// switches.
#[verifier::reject_recursive_types(H)]
pub struct EngineState<H> {
    config: EngineConfig,
    state: Arc<Mutex<H>>,
}

impl<H: History> EngineState<H> {
    /// The switches of the engine.
    pub closed spec fn spec_config(&self) -> EngineConfig {
        self.config
    }

    /// An engine on a store.
    pub fn new(state: H, config: EngineConfig) -> (r: EngineState<H>)
        ensures
            r.spec_config() == config,
    {
        EngineState { config, state: Arc::new(new_mutex(state)) }
    }

    /// The switches of the engine.
    pub fn config(&self) -> (r: &EngineConfig)
        ensures
            *r == self.spec_config(),
    {
        &self.config
    }

    /// Makes the first state and commits it on top of the state that holds
    /// nothing.
    ///
    /// The code of the mint and of the proof-of-stake contract is checked
    /// first: code that the preprocessor turns down ends the call with its
    /// error, before the lock on the store is taken. Else, unless the store
    /// fails, the first state is made, and equal inputs give equal digests.
    /// What the store knew when the lock was taken, and what it knows after
    /// the call, is not named.
    #[allow(clippy::too_many_arguments)]
    pub fn commit_genesis<A, P: Preprocessor<A>>(
        &self,
        correlation_id: CorrelationId,
        genesis_account_addr: [u8; 32],
        initial_tokens: U512,
        mint_code_bytes: &[u8],
        proof_of_stake_code_bytes: &[u8],
        genesis_validators: Vec<(PublicKey, U512)>,
        protocol_version: u64,
        preprocessor: &P,
    ) -> (r: Result<GenesisResult, Error>)
        ensures
            exists|
                before: Map<Blake2bHash, Map<Key, ValueView>>,
                after: Map<Blake2bHash, Map<Key, ValueView>>,
            | #[trigger]
                genesis_outcome::<A, H, P>(
                    before,
                    after,
                    preprocessor,
                    genesis_account_addr,
                    initial_tokens.value(),
                    mint_code_bytes@,
                    proof_of_stake_code_bytes@,
                    validators_view(genesis_validators@),
                    protocol_version,
                    r,
                ),
    {
        let effect = match prepare_genesis_effects(
            genesis_account_addr,
            initial_tokens,
            mint_code_bytes,
            proof_of_stake_code_bytes,
            genesis_validators,
            protocol_version,
            preprocessor,
        ) {
            Ok(effect) => effect,
            Err(error) => {
                let r = Err(error);
                assert(genesis_outcome::<A, H, P>(
                    Map::empty(),
                    Map::empty(),
                    preprocessor,
                    genesis_account_addr,
                    initial_tokens.value(),
                    mint_code_bytes@,
                    proof_of_stake_code_bytes@,
                    validators_view(genesis_validators@),
                    protocol_version,
                    r,
                ));
                return r;
            },
        };
        proof {
            lemma_writes_commit(Map::empty(), effect@.transforms);
        }
        let mut guard = lock(&self.state);
        let history = locked_mut(&mut guard);
        let ghost before = history.snapshots();
        let r = commit_genesis_effects_to(history, correlation_id, effect);
        assert(genesis_outcome::<A, H, P>(
            before,
            history.snapshots(),
            preprocessor,
            genesis_account_addr,
            initial_tokens.value(),
            mint_code_bytes@,
            proof_of_stake_code_bytes@,
            validators_view(genesis_validators@),
            protocol_version,
            r,
        ));
        r
    }

    /// The store behind its lock.
    pub closed spec fn spec_state(&self) -> Arc<Mutex<H>> {
        self.state
    }

    /// The store, shared with the engine.
    pub fn state(&self) -> (r: Arc<Mutex<H>>)
        ensures
            r == self.spec_state(),
    {
        Arc::clone(&self.state)
    }

    /// A fresh overlay on the state that a digest names, if the store knows
    /// it. What the store knew when the lock was taken decides.
    pub fn tracking_copy(&self, hash: Blake2bHash) -> (r: Result<
        Option<TrackingCopy<H::Reader>>,
        Error,
    >)
        ensures
            exists|known: Map<Blake2bHash, Map<Key, ValueView>>| #[trigger]
                checkout_outcome(known, hash, r),
    {
        let guard = lock(&self.state);
        let history = locked(&guard);
        let r = tracking_copy_at(history, hash);
        assert(checkout_outcome(history.snapshots(), hash, r));
        r
    }

    /// Runs a deploy on the state that a digest names. The lock on the store
    /// is held for the checkout only.
    ///
    /// Only a digest that the store does not know makes the call fail. Every
    /// other failure is an outcome: a deploy that is turned down has the
    /// error that the checks give for the state that was checked out, no
    /// effect and no cost. What the store knew when the lock was taken
    /// decides.
    #[allow(clippy::too_many_arguments)]
    pub fn run_deploy<A, P: Preprocessor<A>, E: Executor<A>>(
        &self,
        session_module_bytes: &[u8],
        session_args: &[u8],
        payment_module_bytes: &[u8],
        payment_args: &[u8],
        address: Key,
        authorized_keys: PublicKeySet,
        blocktime: BlockTime,
        nonce: u64,
        prestate_hash: Blake2bHash,
        gas_limit: u64,
        protocol_version: u64,
        correlation_id: CorrelationId,
        executor: &E,
        preprocessor: &P,
    ) -> (r: Result<ExecutionResult, RootNotFound>)
        ensures
            exists|known: Map<Blake2bHash, Map<Key, ValueView>>| #[trigger]
                run_deploy_outcome(
    known,
    self.spec_config(),
    preprocessor,
    executor,
    session_module_bytes@,
    session_args@,
    payment_module_bytes@,
    payment_args@,
    address,
    authorized_keys@,
    blocktime,
    nonce,
    prestate_hash,
    gas_limit,
    protocol_version,
    r,
),
    {
        let checkout = self.tracking_copy(prestate_hash);
        let ghost known = choose|known: Map<Blake2bHash, Map<Key, ValueView>>|
            checkout_outcome(known, prestate_hash, checkout);
        proof {
            if known.contains_key(prestate_hash) {
                lemma_fresh_values(known[prestate_hash]);
            }
        }
        let r = deploy_checked_out(
            &self.config,
            checkout,
            session_module_bytes,
            session_args,
            payment_module_bytes,
            payment_args,
            address,
            authorized_keys,
            blocktime,
            nonce,
            prestate_hash,
            gas_limit,
            protocol_version,
            correlation_id,
            executor,
            preprocessor,
        );
        assert(run_deploy_outcome(
    known,
    self.spec_config(),
    preprocessor,
    executor,
    session_module_bytes@,
    session_args@,
    payment_module_bytes@,
    payment_args@,
    address,
    authorized_keys@,
    blocktime,
    nonce,
    prestate_hash,
    gas_limit,
    protocol_version,
    r,
));
        r
    }

    /// Commits changes on top of the state that a digest names. The outcome
    /// is what the store gives for what it held when the lock was taken:
    /// for the versions that it knew then and those that it knows after the
    /// commit, the outcome is one of a commit of these changes on that
    /// state, and on success the new state reads back as what the changes
    /// make of the old one.
    pub fn apply_effect(
        &self,
        correlation_id: CorrelationId,
        prestate_hash: Blake2bHash,
        effects: AssocList<Key, Transform>,
    ) -> (r: Result<CommitResult, StorageError>)
        ensures
            exists|
                before: Map<Blake2bHash, Map<Key, ValueView>>,
                after: Map<Blake2bHash, Map<Key, ValueView>>,
            |
                #[trigger] commit_outcome::<H>(before, after, prestate_hash, effects@, r) && (
                r matches Ok(CommitResult::Success { state_root }) ==> changes_read_back(
                    before[prestate_hash],
                    after[state_root],
                    effects@,
                )),
    {
        proof {
            use_type_invariant(&effects);
        }
        let mut guard = lock(&self.state);
        let history = locked_mut(&mut guard);
        let ghost before = history.snapshots();
        let r = history.commit(correlation_id, prestate_hash, effects);
        proof {
            let after = history.snapshots();
            assert(commit_outcome::<H>(before, after, prestate_hash, effects@, r));
            if let Ok(CommitResult::Success { state_root }) = r {
                lemma_commit_outcome_reads_back::<H>(
                    before,
                    after,
                    prestate_hash,
                    effects@,
                    state_root,
                );
            }
        }
        r
    }
}

/// A deploy that passes the checks before the nonce, but carries another
/// nonce than the one after the account's, is turned down for its nonce:
/// unless the store fails, its outcome is that error, without effect and
/// without cost.
pub proof fn lemma_wrong_nonce_is_refused<A, P: Preprocessor<A>>(
    state: Map<Key, ValueView>,
    config: EngineConfig,
    preprocessor: &P,
    session_module_bytes: Seq<u8>,
    payment_module_bytes: Seq<u8>,
    addr: [u8; 32],
    authorized_keys: Seq<PublicKey>,
    nonce: u64,
    result: ExecutionResultView,
)
    requires
        spec_account(state, addr) matches Ok(account) && account.can_authorize(authorized_keys)
            && nonce != account.nonce + 1,
        deploy_outcome(
            state,
            config,
            preprocessor,
            session_module_bytes,
            payment_module_bytes,
            Key::Account(addr),
            authorized_keys,
            nonce,
            result,
        ),
        !is_storage_failure(result),
    ensures
        result.error matches Some(Error::InvalidNonce { expected, found }) && found == nonce,
        result.effect.transforms.len() == 0,
        result.effect.ops.len() == 0,
        result.cost == 0,
{
}

/// Where deploys pay for themselves, a deploy that passes every check before
/// the one on the balance, but whose main purse holds less than the largest
/// payment, is turned down for insufficient payment: unless the store fails,
/// its outcome is that error, without effect and without cost.
pub proof fn lemma_poor_main_purse_is_refused<A, P: Preprocessor<A>>(
    state: Map<Key, ValueView>,
    config: EngineConfig,
    preprocessor: &P,
    session_module_bytes: Seq<u8>,
    payment_module_bytes: Seq<u8>,
    address: Key,
    authorized_keys: Seq<PublicKey>,
    nonce: u64,
    result: ExecutionResultView,
)
    requires
        config.spec_use_payment_code(),
        preprocessor.rejection(session_module_bytes).is_none(),
        account_check(state, address, authorized_keys, nonce) matches Ok(account) && ({
            let counted = state.insert(Key::Account(account.addr), ValueView::Account(account));
            &&& system_contract(counted, account, MINT_NAME@, SystemContract::Mint) matches Ok(
                (Key::URef(mint), _),
            )
            &&& system_contract(
                counted,
                account,
                POS_NAME@,
                SystemContract::ProofOfStake,
            ) matches Ok(proof_of_stake)
            &&& assoc_get(proof_of_stake.1.named_keys, POS_REWARDS_PURSE@) matches Some(rewards)
            &&& spec_purse_balance_key(counted, mint, rewards) is Ok
            &&& spec_purse_balance_key(counted, mint, Key::URef(account.purse_id.0)) matches Ok(
                balance_key,
            )
            &&& spec_purse_balance(counted, balance_key) matches Ok(balance)
            &&& balance < MAX_PAYMENT
        }),
        deploy_outcome(
            state,
            config,
            preprocessor,
            session_module_bytes,
            payment_module_bytes,
            address,
            authorized_keys,
            nonce,
            result,
        ),
        !is_storage_failure(result),
    ensures
        result.error == Some(Error::InsufficientPaymentError),
        result.effect.transforms.len() == 0,
        result.effect.ops.len() == 0,
        result.cost == 0,
{
}

/// Equal inputs give the first state the same digest, whenever it is made.
pub proof fn lemma_genesis_is_deterministic<H: History>(
    genesis_account_addr: [u8; 32],
    initial_tokens: nat,
    mint_code: Seq<u8>,
    proof_of_stake_code: Seq<u8>,
    validators: Seq<(PublicKey, nat)>,
    protocol_version: u64,
    first_hash: Blake2bHash,
    first_effect: ExecutionEffectView,
    second_hash: Blake2bHash,
    second_effect: ExecutionEffectView,
)
    requires
        genesis_committed::<H>(
            genesis_account_addr,
            initial_tokens,
            mint_code,
            proof_of_stake_code,
            validators,
            protocol_version,
            first_hash,
            first_effect,
        ),
        genesis_committed::<H>(
            genesis_account_addr,
            initial_tokens,
            mint_code,
            proof_of_stake_code,
            validators,
            protocol_version,
            second_hash,
            second_effect,
        ),
    ensures
        first_hash == second_hash,
        first_effect == second_effect,
{
}

/// A deploy on a state that the store knows always gives an outcome; a
/// deploy on a state that the store does not know fails with the digest,
/// unless its outcome says that the store failed.
pub proof fn lemma_run_deploy_fails_for_unknown_prestate_only<A, P: Preprocessor<A>, E: Executor<A>>(
    known: Map<Blake2bHash, Map<Key, ValueView>>,
    config: EngineConfig,
    preprocessor: &P,
    executor: &E,
    session_args: Seq<u8>,
    payment_args: Seq<u8>,
    blocktime: BlockTime,
    gas_limit: u64,
    protocol_version: u64,
    session_module_bytes: Seq<u8>,
    payment_module_bytes: Seq<u8>,
    address: Key,
    authorized_keys: Seq<PublicKey>,
    nonce: u64,
    prestate_hash: Blake2bHash,
    outcome: Result<ExecutionResult, RootNotFound>,
)
    requires
        run_deploy_outcome(
    known,
    config,
    preprocessor,
    executor,
    session_module_bytes,
    session_args,
    payment_module_bytes,
    payment_args,
    address,
    authorized_keys,
    blocktime,
    nonce,
    prestate_hash,
    gas_limit,
    protocol_version,
    outcome,
),
    ensures
        known.contains_key(prestate_hash) ==> outcome is Ok,
        !known.contains_key(prestate_hash) ==> match outcome {
            Err(error) => error == RootNotFound(prestate_hash),
            Ok(result) => is_storage_failure(result@),
        },
{
}

/// A deploy that is run on a state that the store knows, and that fails one
/// of the checks, has the error of the first check that fails, no effect and
/// no cost, unless the store fails.
pub proof fn lemma_run_deploy_refuses_with_the_first_error<A, P: Preprocessor<A>, E: Executor<A>>(
    known: Map<Blake2bHash, Map<Key, ValueView>>,
    config: EngineConfig,
    preprocessor: &P,
    executor: &E,
    session_args: Seq<u8>,
    payment_args: Seq<u8>,
    blocktime: BlockTime,
    gas_limit: u64,
    protocol_version: u64,
    session_module_bytes: Seq<u8>,
    payment_module_bytes: Seq<u8>,
    address: Key,
    authorized_keys: Seq<PublicKey>,
    nonce: u64,
    prestate_hash: Blake2bHash,
    outcome: Result<ExecutionResult, RootNotFound>,
    error: Error,
)
    requires
        known.contains_key(prestate_hash),
        deploy_refusal(
            known[prestate_hash],
            config,
            preprocessor,
            session_module_bytes,
            payment_module_bytes,
            address,
            authorized_keys,
            nonce,
        ) == Some(error),
        run_deploy_outcome(
    known,
    config,
    preprocessor,
    executor,
    session_module_bytes,
    session_args,
    payment_module_bytes,
    payment_args,
    address,
    authorized_keys,
    blocktime,
    nonce,
    prestate_hash,
    gas_limit,
    protocol_version,
    outcome,
),
    ensures
        outcome matches Ok(result) && (is_storage_failure(result@) || result@
            == ExecutionResultView::precondition_failure(error)),
        authorized_keys.len() == 0 ==> error == Error::AuthorizationError,
{
}

/// The run of the payment code of a deploy that passes the checks and pays
/// for itself, as the executor names it: its outcome, and the overlay after
/// it.
pub open spec fn payment_run<A, P: Preprocessor<A>, E: Executor<A>>(
    start: TrackingCopyView,
    preprocessor: &P,
    executor: &E,
    payment_module_bytes: Seq<u8>,
    payment_args: Seq<u8>,
    address: Key,
    authorized_keys: Seq<PublicKey>,
    blocktime: BlockTime,
    nonce: u64,
    protocol_version: u64,
) -> (ExecutionResultView, TrackingCopyView) {
    let account = account_check(start.values(), address, authorized_keys, nonce).unwrap();
    executor.run(
        preprocessor.module(payment_module_bytes),
        payment_args,
        address,
        account,
        authorized_keys,
        blocktime,
        MAX_PAYMENT / CONV_RATE,
        protocol_version,
        context_reads(
            counted_overlay(start, address, account),
            account,
            accepted_context(start.values(), address, authorized_keys, nonce),
        ),
    )
}

/// Where payment code goes well but leaves less in the payment purse than
/// the largest payment, the deploy is charged by force: its outcome holds
/// the transfer of the largest payment from the main purse to the rewards
/// purse and no other change, costs what payment code cost, and says that
/// the payment was insufficient; session code and finalization do not
/// count.
pub proof fn lemma_short_payment_ends_the_deploy<A, P: Preprocessor<A>, E: Executor<A>>(
    start: TrackingCopyView,
    preprocessor: &P,
    executor: &E,
    session_module_bytes: Seq<u8>,
    session_args: Seq<u8>,
    payment_module_bytes: Seq<u8>,
    payment_args: Seq<u8>,
    address: Key,
    authorized_keys: Seq<PublicKey>,
    blocktime: BlockTime,
    nonce: u64,
    protocol_version: u64,
    balance: nat,
)
    requires
        ({
            let (payment, paid) = payment_run(
                start,
                preprocessor,
                executor,
                payment_module_bytes,
                payment_args,
                address,
                authorized_keys,
                blocktime,
                nonce,
                protocol_version,
            );
            let context = accepted_context(start.values(), address, authorized_keys, nonce);
            &&& payment.error is None
            &&& spec_payment_purse_balance(
                paid.values(),
                context.mint_inner_uref,
                context.proof_of_stake_contract,
            ) == Ok::<nat, Error>(balance)
            &&& balance < MAX_PAYMENT
        }),
    ensures
        ({
            let payment = payment_run(
                start,
                preprocessor,
                executor,
                payment_module_bytes,
                payment_args,
                address,
                authorized_keys,
                blocktime,
                nonce,
                protocol_version,
            ).0;
            let context = accepted_context(start.values(), address, authorized_keys, nonce);
            let result = paid_run(
                start,
                preprocessor,
                executor,
                session_module_bytes,
                session_args,
                payment_module_bytes,
                payment_args,
                address,
                authorized_keys,
                blocktime,
                nonce,
                protocol_version,
            );
            &&& result == forced_transfer_result(
                payment,
                MAX_PAYMENT as nat,
                context.account_main_purse_balance,
                context.account_main_purse_balance_key,
                context.rewards_purse_balance_key,
            )
            &&& result.error == Some(Error::InsufficientPaymentError)
            &&& result.cost == payment.cost
        }),
{
}

} // verus!
