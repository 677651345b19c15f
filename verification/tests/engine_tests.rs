use std::cell::RefCell;

use engine_core::assoc::AssocList;
use engine_core::engine_config::EngineConfig;
use engine_core::engine_state::{
    bonded_validators_from, checked_out_reader, commit_genesis_effects_to, commit_genesis_to,
    commit_tracking_copy, deploy, get_bonded_validators, prepare_genesis_effects, run_deploy_at,
    tracking_copy_from, payment_gas_limit, payment_purse_balance,
    resolve_payment_context, settle_payment, validate_account, EngineState,
    GetBondedValidatorsError, CONV_RATE, MAX_PAYMENT,
};
use engine_core::error::{
    Error, ExecutionError, PreprocessingError, RootNotFound, StorageError, SystemContract,
};
use engine_core::execution::{BlockTime, Executor, Preprocessor};
use engine_core::execution_effect::ExecutionEffect;
use engine_core::execution_result::{
    ExecutionResult, ExecutionResultBuilder, ExecutionResultView,
};
use engine_core::genesis::{
    genesis_uref, GenesisResult, GENESIS_ACCOUNT_BALANCE, GENESIS_ACCOUNT_PURSE,
    MINT_PRIVATE_ADDRESS, POS_PAYMENT_BALANCE, POS_PRIVATE_ADDRESS, POS_PUBLIC_ADDRESS,
    POS_REWARDS_BALANCE,
};
use engine_core::global_state::{CommitResult, CorrelationId, History, StateReader};
use engine_core::key::{blake2b, AccessRights, Blake2bHash, Key, PublicKey, URef};
use engine_core::op::Op;
use engine_core::tracking_copy::{TrackingCopy, TrackingCopyView};
use engine_core::transform::Transform;
use engine_core::u512::U512;
use engine_core::value::{
    Account, AccountView, ActionThresholds, AssociatedKeys, Contract, NamedKeys, NamedKeysView, PublicKeySet, PurseId, Value, ValueView, Weight,
};

const GENESIS_ADDR: [u8; 32] = [6u8; 32];

#[derive(Clone)]
struct MemReader {
    entries: Vec<(Key, Value)>,
    fail: bool,
}

impl StateReader for MemReader {
    fn state(&self) -> vstd::map::Map<Key, ValueView> {
        unreachable!()
    }

    fn read(&self, _correlation_id: CorrelationId, key: &Key) -> Result<Option<Value>, StorageError> {
        if self.fail {
            return Err(StorageError(7));
        }
        Ok(self.entries.iter().find(|(k, _)| k == key).map(|(_, v)| v.clone()))
    }
}

struct MemHistory {
    versions: Vec<(Blake2bHash, Vec<(Key, Value)>)>,
    fail_reads: bool,
    fail_checkout: bool,
    fail_commit: bool,
}

fn root_of(entries: &Vec<(Key, Value)>) -> Blake2bHash {
    let mut lines: Vec<String> = entries.iter().map(|e| format!("{:?}", e)).collect();
    lines.sort();
    Blake2bHash::new(blake2b(lines.join("\n").as_bytes()))
}

impl MemHistory {
    fn new() -> MemHistory {
        let empty: Vec<(Key, Value)> = Vec::new();
        MemHistory {
            versions: vec![(root_of(&empty), empty)],
            fail_reads: false,
            fail_checkout: false,
            fail_commit: false,
        }
    }
}

impl History for MemHistory {
    type Reader = MemReader;

    fn snapshots(&self) -> vstd::map::Map<Blake2bHash, vstd::map::Map<Key, ValueView>> {
        unreachable!()
    }

    fn root_of(_state: vstd::map::Map<Key, ValueView>) -> Blake2bHash {
        unreachable!()
    }

    fn checkout(&self, prestate_hash: Blake2bHash) -> Result<Option<MemReader>, StorageError> {
        if self.fail_checkout {
            return Err(StorageError(9));
        }
        Ok(self
            .versions
            .iter()
            .find(|(root, _)| *root == prestate_hash)
            .map(|(_, entries)| MemReader { entries: entries.clone(), fail: self.fail_reads }))
    }

    fn commit(
        &mut self,
        _correlation_id: CorrelationId,
        prestate_hash: Blake2bHash,
        effects: AssocList<Key, Transform>,
    ) -> Result<CommitResult, StorageError> {
        if self.fail_commit {
            return Err(StorageError(11));
        }
        let mut state = match self.versions.iter().find(|(root, _)| *root == prestate_hash) {
            Some((_, entries)) => entries.clone(),
            None => return Ok(CommitResult::RootNotFound),
        };
        for i in 0..effects.len() {
            let key = *effects.key_at(i);
            let transform = effects.value_at(i).clone();
            let at = state.iter().position(|(k, _)| *k == key);
            match (at, transform) {
                (None, Transform::Write(value)) => state.push((key, value)),
                (None, _) => return Ok(CommitResult::KeyNotFound(key)),
                (Some(at), transform) => match transform.apply(state[at].1.clone()) {
                    Ok(value) => state[at].1 = value,
                    Err(_) => return Ok(CommitResult::TypeMismatch),
                },
            }
        }
        let state_root = root_of(&state);
        self.versions.push((state_root, state));
        Ok(CommitResult::Success { state_root })
    }

    fn current_root(&self) -> Blake2bHash {
        self.versions[self.versions.len() - 1].0
    }

    fn empty_root(&self) -> Blake2bHash {
        self.versions[0].0
    }
}

struct TestPreprocessor;

impl Preprocessor<Vec<u8>> for TestPreprocessor {
    fn rejection(&self, _module_bytes: vstd::seq::Seq<u8>) -> Option<PreprocessingError> {
        unreachable!()
    }

    fn module(&self, _module_bytes: vstd::seq::Seq<u8>) -> Vec<u8> {
        unreachable!()
    }

    fn stored_module(
        &self,
        _module_bytes: vstd::seq::Seq<u8>,
    ) -> Result<Vec<u8>, PreprocessingError> {
        unreachable!()
    }

    fn preprocess(&self, module_bytes: &[u8]) -> Result<Vec<u8>, PreprocessingError> {
        if module_bytes == b"invalid" {
            Err(PreprocessingError::Deserialize)
        } else {
            Ok(module_bytes.to_vec())
        }
    }

    fn deserialize(&self, module_bytes: &[u8]) -> Result<Vec<u8>, PreprocessingError> {
        if module_bytes == b"broken pos" {
            Err(PreprocessingError::StackLimiter)
        } else {
            Ok(module_bytes.to_vec())
        }
    }
}

#[derive(Debug, Clone, PartialEq)]
struct Call {
    module: Vec<u8>,
    caller: [u8; 32],
    gas_limit: u64,
    args: Vec<Value>,
}

struct TestExecutor {
    calls: RefCell<Vec<Call>>,
}

fn main_balance_key() -> Key {
    Key::URef(genesis_uref(GENESIS_ACCOUNT_BALANCE, AccessRights::ReadAddWrite))
}

fn payment_balance_key() -> Key {
    Key::URef(genesis_uref(POS_PAYMENT_BALANCE, AccessRights::ReadAddWrite))
}

fn rewards_balance_key() -> Key {
    Key::URef(genesis_uref(POS_REWARDS_BALANCE, AccessRights::ReadAddWrite))
}

fn counter_key() -> Key {
    Key::Hash([42u8; 32])
}

fn read_u512<R: StateReader>(tc: &mut TrackingCopy<R>, key: Key) -> U512 {
    match tc.read(CorrelationId(0), &key) {
        Ok(Value::UInt512(n)) => n,
        other => panic!("no balance under {:?}: {:?}", key, other),
    }
}

fn move_motes<R: StateReader>(tc: &mut TrackingCopy<R>, from: Key, to: Key, motes: U512) {
    let source = read_u512(tc, from);
    let target = read_u512(tc, to);
    tc.write(from, Value::UInt512(source.checked_sub(motes).unwrap()));
    tc.write(to, Value::UInt512(target.checked_add(motes).unwrap()));
}

impl TestExecutor {
    fn new() -> TestExecutor {
        TestExecutor { calls: RefCell::new(Vec::new()) }
    }

    fn run<R: StateReader>(
        &self,
        module: Vec<u8>,
        args: Vec<Value>,
        caller: [u8; 32],
        gas_limit: u64,
        tc: &mut TrackingCopy<R>,
    ) -> ExecutionResult {
        self.calls.borrow_mut().push(Call { module: module.clone(), caller, gas_limit, args: args.clone() });
        match module.as_slice() {
            b"pay in full" => {
                move_motes(tc, main_balance_key(), payment_balance_key(), U512::from_u64(MAX_PAYMENT));
                ExecutionResult::success(tc.effect(), 100)
            }
            b"pay too little" => {
                move_motes(tc, main_balance_key(), payment_balance_key(), U512::from_u64(1_000_000));
                ExecutionResult::success(tc.effect(), 100)
            }
            b"pay nothing" => ExecutionResult::success(tc.effect(), 30),
            b"fail" => ExecutionResult::failure(
                Error::ExecError(ExecutionError::GasLimit),
                tc.effect(),
                gas_limit,
            ),
            b"count" => {
                let next = match tc.read(CorrelationId(0), &counter_key()) {
                    Ok(Value::Int32(n)) => n + 1,
                    _ => 1,
                };
                tc.write(counter_key(), Value::Int32(next));
                ExecutionResult::success(tc.effect(), 50)
            }
            b"pos" => {
                let motes = match &args[1] {
                    Value::UInt512(motes) => *motes,
                    other => panic!("no amount: {:?}", other),
                };
                let paid = read_u512(tc, payment_balance_key());
                move_motes(tc, payment_balance_key(), rewards_balance_key(), motes);
                move_motes(
                    tc,
                    payment_balance_key(),
                    main_balance_key(),
                    paid.checked_sub(motes).unwrap(),
                );
                ExecutionResult::success(tc.effect(), 10)
            }
            b"failing pos" => ExecutionResult::failure(
                Error::ExecError(ExecutionError::Trap),
                tc.effect(),
                10,
            ),
            _ => ExecutionResult::success(tc.effect(), 1),
        }
    }
}

impl Executor<Vec<u8>> for TestExecutor {
    fn run(
        &self,
        _module: Vec<u8>,
        _args: vstd::seq::Seq<u8>,
        _base_key: Key,
        _account: AccountView,
        _authorized_keys: vstd::seq::Seq<PublicKey>,
        _blocktime: BlockTime,
        _gas_limit: u64,
        _protocol_version: u64,
        _overlay: TrackingCopyView,
    ) -> (ExecutionResultView, TrackingCopyView) {
        unreachable!()
    }

    fn run_direct(
        &self,
        _module: Vec<u8>,
        _args: vstd::seq::Seq<ValueView>,
        _named_keys: NamedKeysView,
        _base_key: Key,
        _account: AccountView,
        _authorized_keys: vstd::seq::Seq<PublicKey>,
        _blocktime: BlockTime,
        _gas_limit: u64,
        _protocol_version: u64,
        _overlay: TrackingCopyView,
    ) -> (ExecutionResultView, TrackingCopyView) {
        unreachable!()
    }

    fn exec<R: StateReader>(
        &self,
        module: Vec<u8>,
        _args: &[u8],
        _base_key: Key,
        account: &Account,
        _authorized_keys: PublicKeySet,
        _blocktime: BlockTime,
        gas_limit: u64,
        _protocol_version: u64,
        _correlation_id: CorrelationId,
        tracking_copy: &mut TrackingCopy<R>,
    ) -> ExecutionResult {
        self.run(module, Vec::new(), account.pub_key(), gas_limit, tracking_copy)
    }

    fn exec_direct<R: StateReader>(
        &self,
        module: Vec<u8>,
        args: &[Value],
        _named_keys: &mut NamedKeys,
        _base_key: Key,
        account: &Account,
        _authorized_keys: PublicKeySet,
        _blocktime: BlockTime,
        gas_limit: u64,
        _protocol_version: u64,
        _correlation_id: CorrelationId,
        tracking_copy: &mut TrackingCopy<R>,
    ) -> ExecutionResult {
        self.run(module, args.to_vec(), account.pub_key(), gas_limit, tracking_copy)
    }
}

fn key_set(keys: &[[u8; 32]]) -> PublicKeySet {
    let mut set = PublicKeySet::new();
    for key in keys {
        set.insert(PublicKey::new(*key));
    }
    set
}

fn engine(use_payment_code: bool) -> EngineState<MemHistory> {
    EngineState::new(
        MemHistory::new(),
        EngineConfig::new().set_use_payment_code(use_payment_code),
    )
}

fn genesis_with(
    engine: &EngineState<MemHistory>,
    initial_tokens: u64,
    pos_code: &[u8],
    validators: Vec<(PublicKey, U512)>,
) -> Blake2bHash {
    let result = engine
        .commit_genesis(
            CorrelationId(1),
            GENESIS_ADDR,
            U512::from_u64(initial_tokens),
            b"mint",
            pos_code,
            validators,
            1,
            &TestPreprocessor,
        )
        .unwrap();
    match result {
        GenesisResult::Success { post_state_hash, .. } => post_state_hash,
        other => panic!("genesis failed: {:?}", other),
    }
}

fn genesis(engine: &EngineState<MemHistory>, initial_tokens: u64) -> Blake2bHash {
    genesis_with(engine, initial_tokens, b"pos", Vec::new())
}

fn run(
    engine: &EngineState<MemHistory>,
    executor: &TestExecutor,
    session: &[u8],
    payment: &[u8],
    address: Key,
    keys: PublicKeySet,
    nonce: u64,
    prestate: Blake2bHash,
) -> Result<ExecutionResult, RootNotFound> {
    engine.run_deploy(
        session,
        b"",
        payment,
        b"",
        address,
        keys,
        BlockTime(0),
        nonce,
        prestate,
        500,
        1,
        CorrelationId(2),
        executor,
        &TestPreprocessor,
    )
}

fn balance_at(engine: &EngineState<MemHistory>, root: Blake2bHash, key: Key) -> U512 {
    let mut tc = engine.tracking_copy(root).unwrap().unwrap();
    read_u512(&mut tc, key)
}

fn commit(engine: &EngineState<MemHistory>, root: Blake2bHash, result: &ExecutionResult) -> Blake2bHash {
    match engine.apply_effect(CorrelationId(3), root, result.effect().transforms.duplicate()) {
        Ok(CommitResult::Success { state_root }) => state_root,
        other => panic!("commit failed: {:?}", other),
    }
}

fn transform_for(result: &ExecutionResult, key: Key) -> Option<Transform> {
    result.effect().transforms.get(&key).cloned()
}

#[test]
fn unknown_prestate_is_root_not_found() {
    let engine = engine(true);
    genesis(&engine, 100_000_000);
    let unknown = Blake2bHash::new([0xFF; 32]);
    let result = run(
        &engine,
        &TestExecutor::new(),
        b"count",
        b"pay in full",
        Key::Account(GENESIS_ADDR),
        key_set(&[GENESIS_ADDR]),
        1,
        unknown,
    );
    assert_eq!(result, Err(RootNotFound(Blake2bHash::new([0xFF; 32]))));
}

#[test]
fn bad_nonce_is_invalid_nonce_without_transforms() {
    let engine = engine(true);
    let root = genesis(&engine, 100_000_000);
    let executor = TestExecutor::new();
    let result = run(
        &engine,
        &executor,
        b"count",
        b"pay in full",
        Key::Account(GENESIS_ADDR),
        key_set(&[GENESIS_ADDR]),
        2,
        root,
    )
    .unwrap();
    assert_eq!(result, ExecutionResult::precondition_failure(Error::InvalidNonce { expected: 1, found: 2 }));
    assert_eq!(result.error(), Some(Error::InvalidNonce { expected: 1, found: 2 }));
    assert_eq!(result.effect().transforms.len(), 0);
    assert_eq!(result.effect().ops.len(), 0);
    assert_eq!(result.cost(), 0);
    assert!(executor.calls.borrow().is_empty());
}

#[test]
fn nonce_zero_is_invalid_for_a_fresh_account() {
    let engine = engine(true);
    let root = genesis(&engine, 100_000_000);
    let result = run(
        &engine,
        &TestExecutor::new(),
        b"count",
        b"pay in full",
        Key::Account(GENESIS_ADDR),
        key_set(&[GENESIS_ADDR]),
        0,
        root,
    )
    .unwrap();
    assert_eq!(result.error(), Some(Error::InvalidNonce { expected: 1, found: 0 }));
}

#[test]
fn insufficient_balance_is_insufficient_payment() {
    let engine = engine(true);
    let root = genesis(&engine, 5_000_000);
    let executor = TestExecutor::new();
    let result = run(
        &engine,
        &executor,
        b"count",
        b"pay in full",
        Key::Account(GENESIS_ADDR),
        key_set(&[GENESIS_ADDR]),
        1,
        root,
    )
    .unwrap();
    assert_eq!(result, ExecutionResult::precondition_failure(Error::InsufficientPaymentError));
    assert!(executor.calls.borrow().is_empty());
}

#[test]
fn balance_of_exactly_max_payment_is_enough() {
    let engine = engine(true);
    let root = genesis(&engine, MAX_PAYMENT);
    let result = run(
        &engine,
        &TestExecutor::new(),
        b"count",
        b"pay in full",
        Key::Account(GENESIS_ADDR),
        key_set(&[GENESIS_ADDR]),
        1,
        root,
    )
    .unwrap();
    assert_eq!(result.error(), None);
}

#[test]
fn balance_one_below_max_payment_is_not_enough() {
    let engine = engine(true);
    let root = genesis(&engine, MAX_PAYMENT - 1);
    let result = run(
        &engine,
        &TestExecutor::new(),
        b"count",
        b"pay in full",
        Key::Account(GENESIS_ADDR),
        key_set(&[GENESIS_ADDR]),
        1,
        root,
    )
    .unwrap();
    assert_eq!(result.error(), Some(Error::InsufficientPaymentError));
}

#[test]
fn forced_transfer_when_payment_purse_is_not_credited() {
    let engine = engine(true);
    let root = genesis(&engine, 100_000_000);
    let executor = TestExecutor::new();
    let result = run(
        &engine,
        &executor,
        b"count",
        b"pay nothing",
        Key::Account(GENESIS_ADDR),
        key_set(&[GENESIS_ADDR]),
        1,
        root,
    )
    .unwrap();
    assert_eq!(result.cost(), 30);
    assert_eq!(result.error(), Some(Error::InsufficientPaymentError));
    assert_eq!(result.effect().transforms.len(), 2);
    assert_eq!(
        transform_for(&result, main_balance_key().normalize()),
        Some(Transform::Write(Value::UInt512(U512::from_u64(90_000_000))))
    );
    assert_eq!(
        transform_for(&result, rewards_balance_key().normalize()),
        Some(Transform::AddInt512(U512::from_u64(10_000_000)))
    );
    assert_eq!(result.effect().ops.get(&main_balance_key().normalize()), Some(&Op::Write));
    assert_eq!(result.effect().ops.get(&rewards_balance_key().normalize()), Some(&Op::Add));
    let calls = executor.calls.borrow();
    assert_eq!(calls.len(), 1);
    assert_eq!(calls[0].module, b"pay nothing".to_vec());
    let after = commit(&engine, root, &result);
    assert_eq!(balance_at(&engine, after, main_balance_key()), U512::from_u64(90_000_000));
    assert_eq!(balance_at(&engine, after, rewards_balance_key()), U512::from_u64(10_000_000));
    assert_eq!(balance_at(&engine, after, payment_balance_key()), U512::zero());
}

#[test]
fn forced_transfer_when_payment_purse_holds_too_little() {
    let engine = engine(true);
    let root = genesis(&engine, 100_000_000);
    let executor = TestExecutor::new();
    let result = run(
        &engine,
        &executor,
        b"count",
        b"pay too little",
        Key::Account(GENESIS_ADDR),
        key_set(&[GENESIS_ADDR]),
        1,
        root,
    )
    .unwrap();
    assert_eq!(result.cost(), 100);
    assert_eq!(result.error(), Some(Error::InsufficientPaymentError));
    assert_eq!(result.effect().transforms.len(), 2);
    assert_eq!(
        transform_for(&result, main_balance_key().normalize()),
        Some(Transform::Write(Value::UInt512(U512::from_u64(90_000_000))))
    );
    assert_eq!(executor.calls.borrow().len(), 1);
}

#[test]
fn forced_transfer_keeps_the_error_of_failed_payment_code() {
    let engine = engine(true);
    let root = genesis(&engine, 100_000_000);
    let executor = TestExecutor::new();
    let result = run(
        &engine,
        &executor,
        b"count",
        b"fail",
        Key::Account(GENESIS_ADDR),
        key_set(&[GENESIS_ADDR]),
        1,
        root,
    )
    .unwrap();
    assert_eq!(result.error(), Some(Error::ExecError(ExecutionError::GasLimit)));
    assert_eq!(result.cost(), 1_000_000);
    assert_eq!(result.effect().transforms.len(), 2);
    assert_eq!(executor.calls.borrow().len(), 1);
}

#[test]
fn happy_path_settles_the_payment() {
    let engine = engine(true);
    let root = genesis(&engine, 100_000_000);
    let executor = TestExecutor::new();
    let result = run(
        &engine,
        &executor,
        b"count",
        b"pay in full",
        Key::Account(GENESIS_ADDR),
        key_set(&[GENESIS_ADDR]),
        1,
        root,
    )
    .unwrap();
    assert_eq!(result.error(), None);
    assert_eq!(result.cost(), 150);
    {
        let calls = executor.calls.borrow();
        assert_eq!(calls.len(), 3);
        assert_eq!(calls[0].module, b"pay in full".to_vec());
        assert_eq!(calls[0].gas_limit, 1_000_000);
        assert_eq!(calls[0].caller, GENESIS_ADDR);
        assert_eq!(calls[1].module, b"count".to_vec());
        assert_eq!(calls[1].gas_limit, 10_000_000 / 10 - 100);
        assert_eq!(calls[1].caller, GENESIS_ADDR);
        assert_eq!(calls[2].module, b"pos".to_vec());
        assert_eq!(calls[2].gas_limit, u64::MAX);
        assert_eq!(calls[2].caller, [0u8; 32]);
        assert_eq!(
            calls[2].args,
            vec![
                Value::String("finalize_payment".to_string()),
                Value::UInt512(U512::from_u64(1500)),
                Value::ByteArray(GENESIS_ADDR.to_vec()),
            ]
        );
    }
    let after = commit(&engine, root, &result);
    assert_eq!(balance_at(&engine, after, payment_balance_key()), U512::zero());
    assert_eq!(balance_at(&engine, after, rewards_balance_key()), U512::from_u64(1500));
    assert_eq!(
        balance_at(&engine, after, main_balance_key()),
        U512::from_u64(100_000_000 - 1500)
    );
    let mut tc = engine.tracking_copy(after).unwrap().unwrap();
    assert_eq!(tc.read(CorrelationId(0), &counter_key()), Ok(Value::Int32(1)));
    let account = tc.get_account(CorrelationId(0), GENESIS_ADDR).unwrap();
    assert_eq!(account.nonce(), 1);
}

#[test]
fn second_deploy_needs_the_next_nonce() {
    let engine = engine(true);
    let root = genesis(&engine, 100_000_000);
    let executor = TestExecutor::new();
    let first = run(
        &engine,
        &executor,
        b"count",
        b"pay in full",
        Key::Account(GENESIS_ADDR),
        key_set(&[GENESIS_ADDR]),
        1,
        root,
    )
    .unwrap();
    let after = commit(&engine, root, &first);
    let again = run(
        &engine,
        &executor,
        b"count",
        b"pay in full",
        Key::Account(GENESIS_ADDR),
        key_set(&[GENESIS_ADDR]),
        1,
        after,
    )
    .unwrap();
    assert_eq!(again.error(), Some(Error::InvalidNonce { expected: 2, found: 1 }));
    let second = run(
        &engine,
        &executor,
        b"count",
        b"pay in full",
        Key::Account(GENESIS_ADDR),
        key_set(&[GENESIS_ADDR]),
        2,
        after,
    )
    .unwrap();
    assert_eq!(second.error(), None);
    let last = commit(&engine, after, &second);
    let mut tc = engine.tracking_copy(last).unwrap().unwrap();
    assert_eq!(tc.read(CorrelationId(0), &counter_key()), Ok(Value::Int32(2)));
}

#[test]
fn failed_session_keeps_cost_and_drops_its_error_into_the_result() {
    let engine = engine(true);
    let root = genesis(&engine, 100_000_000);
    let executor = TestExecutor::new();
    let result = run(
        &engine,
        &executor,
        b"fail",
        b"pay in full",
        Key::Account(GENESIS_ADDR),
        key_set(&[GENESIS_ADDR]),
        1,
        root,
    )
    .unwrap();
    assert_eq!(result.error(), Some(Error::ExecError(ExecutionError::GasLimit)));
    assert_eq!(result.cost(), 100 + (1_000_000 - 100));
    assert_eq!(executor.calls.borrow().len(), 3);
    assert_eq!(
        executor.calls.borrow()[2].args[1],
        Value::UInt512(U512::from_u64(1_000_000 * CONV_RATE))
    );
}

#[test]
fn failed_finalization_is_a_finalization_error() {
    let engine = engine(true);
    let root = genesis_with(&engine, 100_000_000, b"failing pos", Vec::new());
    let result = run(
        &engine,
        &TestExecutor::new(),
        b"count",
        b"pay in full",
        Key::Account(GENESIS_ADDR),
        key_set(&[GENESIS_ADDR]),
        1,
        root,
    )
    .unwrap();
    assert_eq!(result.error(), Some(Error::FinalizationError));
    assert_eq!(result.cost(), 150);
}

#[test]
fn stored_pos_code_that_cannot_be_read_back_turns_the_deploy_down() {
    let engine = engine(true);
    let root = genesis_with(&engine, 100_000_000, b"broken pos", Vec::new());
    let result = run(
        &engine,
        &TestExecutor::new(),
        b"count",
        b"pay in full",
        Key::Account(GENESIS_ADDR),
        key_set(&[GENESIS_ADDR]),
        1,
        root,
    )
    .unwrap();
    assert_eq!(
        result,
        ExecutionResult::precondition_failure(Error::WasmPreprocessingError(
            PreprocessingError::StackLimiter
        ))
    );
}

#[test]
fn address_that_is_no_account_is_not_authorized() {
    let engine = engine(true);
    let root = genesis(&engine, 100_000_000);
    let result = run(
        &engine,
        &TestExecutor::new(),
        b"count",
        b"pay in full",
        Key::Hash(GENESIS_ADDR),
        key_set(&[GENESIS_ADDR]),
        1,
        root,
    )
    .unwrap();
    assert_eq!(result, ExecutionResult::precondition_failure(Error::AuthorizationError));
}

#[test]
fn missing_account_is_not_authorized() {
    let engine = engine(true);
    let root = genesis(&engine, 100_000_000);
    let result = run(
        &engine,
        &TestExecutor::new(),
        b"count",
        b"pay in full",
        Key::Account([9u8; 32]),
        key_set(&[[9u8; 32]]),
        1,
        root,
    )
    .unwrap();
    assert_eq!(result, ExecutionResult::precondition_failure(Error::AuthorizationError));
}

#[test]
fn no_keys_are_not_authorized() {
    let engine = engine(true);
    let root = genesis(&engine, 100_000_000);
    let result = run(
        &engine,
        &TestExecutor::new(),
        b"count",
        b"pay in full",
        Key::Account(GENESIS_ADDR),
        key_set(&[]),
        1,
        root,
    )
    .unwrap();
    assert_eq!(result, ExecutionResult::precondition_failure(Error::AuthorizationError));
}

#[test]
fn unknown_key_is_not_authorized() {
    let engine = engine(true);
    let root = genesis(&engine, 100_000_000);
    let result = run(
        &engine,
        &TestExecutor::new(),
        b"count",
        b"pay in full",
        Key::Account(GENESIS_ADDR),
        key_set(&[GENESIS_ADDR, [8u8; 32]]),
        1,
        root,
    )
    .unwrap();
    assert_eq!(result, ExecutionResult::precondition_failure(Error::AuthorizationError));
}

#[test]
fn invalid_session_code_is_a_preprocessing_error() {
    let engine = engine(true);
    let root = genesis(&engine, 100_000_000);
    let result = run(
        &engine,
        &TestExecutor::new(),
        b"invalid",
        b"pay in full",
        Key::Account(GENESIS_ADDR),
        key_set(&[GENESIS_ADDR]),
        1,
        root,
    )
    .unwrap();
    assert_eq!(
        result,
        ExecutionResult::precondition_failure(Error::WasmPreprocessingError(
            PreprocessingError::Deserialize
        ))
    );
}

#[test]
fn invalid_payment_code_is_a_preprocessing_error() {
    let engine = engine(true);
    let root = genesis(&engine, 100_000_000);
    let executor = TestExecutor::new();
    let result = run(
        &engine,
        &executor,
        b"count",
        b"invalid",
        Key::Account(GENESIS_ADDR),
        key_set(&[GENESIS_ADDR]),
        1,
        root,
    )
    .unwrap();
    assert_eq!(
        result,
        ExecutionResult::precondition_failure(Error::WasmPreprocessingError(
            PreprocessingError::Deserialize
        ))
    );
    assert!(executor.calls.borrow().is_empty());
}

#[test]
fn without_payment_code_only_the_session_runs() {
    let engine = engine(false);
    let root = genesis(&engine, 0);
    let executor = TestExecutor::new();
    let result = run(
        &engine,
        &executor,
        b"count",
        b"invalid",
        Key::Account(GENESIS_ADDR),
        key_set(&[GENESIS_ADDR]),
        1,
        root,
    )
    .unwrap();
    assert_eq!(result.error(), None);
    assert_eq!(result.cost(), 50);
    let calls = executor.calls.borrow();
    assert_eq!(calls.len(), 1);
    assert_eq!(calls[0].gas_limit, 500);
    assert_eq!(calls[0].module, b"count".to_vec());
}

#[test]
fn storage_failure_at_checkout_is_an_outcome() {
    let mut history = MemHistory::new();
    history.fail_checkout = true;
    let engine = EngineState::new(history, EngineConfig::new().set_use_payment_code(true));
    let result = run(
        &engine,
        &TestExecutor::new(),
        b"count",
        b"pay in full",
        Key::Account(GENESIS_ADDR),
        key_set(&[GENESIS_ADDR]),
        1,
        Blake2bHash::new([0u8; 32]),
    )
    .unwrap();
    assert_eq!(
        result,
        ExecutionResult::precondition_failure(Error::StorageError(StorageError(9)))
    );
}

#[test]
fn storage_failure_while_reading_is_an_outcome() {
    let engine = engine(true);
    let root = genesis(&engine, 100_000_000);
    engine.state().lock().fail_reads = true;
    let result = run(
        &engine,
        &TestExecutor::new(),
        b"count",
        b"pay in full",
        Key::Account(GENESIS_ADDR),
        key_set(&[GENESIS_ADDR]),
        1,
        root,
    )
    .unwrap();
    assert_eq!(
        result,
        ExecutionResult::precondition_failure(Error::StorageError(StorageError(7)))
    );
}

fn history_with(entries: Vec<(Key, Value)>) -> (EngineState<MemHistory>, Blake2bHash) {
    let mut history = MemHistory::new();
    let root = root_of(&entries);
    history.versions.push((root, entries));
    (EngineState::new(history, EngineConfig::new().set_use_payment_code(true)), root)
}

fn account_with(named_keys: NamedKeys, threshold: u8) -> Account {
    let mut associated_keys = AssociatedKeys::new();
    associated_keys.insert(PublicKey::new(GENESIS_ADDR), Weight::new(1));
    associated_keys.insert(PublicKey::new([7u8; 32]), Weight::new(1));
    Account::new(
        GENESIS_ADDR,
        0,
        named_keys,
        PurseId::new(URef::new([1u8; 32], AccessRights::ReadAddWrite)),
        associated_keys,
        ActionThresholds { deployment: Weight::new(threshold), key_management: Weight::new(1) },
    )
}

#[test]
fn keys_below_the_deployment_threshold_cannot_deploy() {
    let (engine, root) = history_with(vec![(
        Key::Account(GENESIS_ADDR),
        Value::Account(account_with(NamedKeys::new(), 2)),
    )]);
    let result = run(
        &engine,
        &TestExecutor::new(),
        b"count",
        b"pay in full",
        Key::Account(GENESIS_ADDR),
        key_set(&[GENESIS_ADDR]),
        1,
        root,
    )
    .unwrap();
    assert_eq!(
        result,
        ExecutionResult::precondition_failure(Error::ExecError(
            ExecutionError::DeploymentAuthorizationFailure
        ))
    );
}

#[test]
fn keys_that_reach_the_deployment_threshold_pass_the_account_check() {
    let (engine, root) = history_with(vec![(
        Key::Account(GENESIS_ADDR),
        Value::Account(account_with(NamedKeys::new(), 2)),
    )]);
    let result = run(
        &engine,
        &TestExecutor::new(),
        b"count",
        b"pay in full",
        Key::Account(GENESIS_ADDR),
        key_set(&[GENESIS_ADDR, [7u8; 32]]),
        1,
        root,
    )
    .unwrap();
    assert_eq!(
        result,
        ExecutionResult::precondition_failure(Error::MissingSystemContractError(
            SystemContract::Mint
        ))
    );
}

#[test]
fn account_without_pos_misses_a_system_contract() {
    let mint_public = Key::URef(URef::new([3u8; 32], AccessRights::Read));
    let mint_inner = Key::URef(URef::new([4u8; 32], AccessRights::ReadAddWrite));
    let mut named_keys = NamedKeys::new();
    named_keys.insert("mint".to_string(), mint_public);
    let (engine, root) = history_with(vec![
        (Key::Account(GENESIS_ADDR), Value::Account(account_with(named_keys, 1))),
        (mint_public.normalize(), Value::Key(mint_inner)),
        (mint_inner.normalize(), Value::Contract(Contract::new(Vec::new(), NamedKeys::new(), 1))),
    ]);
    let result = run(
        &engine,
        &TestExecutor::new(),
        b"count",
        b"pay in full",
        Key::Account(GENESIS_ADDR),
        key_set(&[GENESIS_ADDR]),
        1,
        root,
    )
    .unwrap();
    assert_eq!(
        result,
        ExecutionResult::precondition_failure(Error::MissingSystemContractError(
            SystemContract::ProofOfStake
        ))
    );
}

#[test]
fn mint_that_state_does_not_hold_is_key_not_found() {
    let mut named_keys = NamedKeys::new();
    named_keys.insert("mint".to_string(), Key::URef(URef::new([3u8; 32], AccessRights::Read)));
    let (engine, root) = history_with(vec![(
        Key::Account(GENESIS_ADDR),
        Value::Account(account_with(named_keys, 1)),
    )]);
    let result = run(
        &engine,
        &TestExecutor::new(),
        b"count",
        b"pay in full",
        Key::Account(GENESIS_ADDR),
        key_set(&[GENESIS_ADDR]),
        1,
        root,
    )
    .unwrap();
    assert_eq!(
        result,
        ExecutionResult::precondition_failure(Error::ExecError(ExecutionError::KeyNotFound))
    );
}

#[test]
fn pos_without_rewards_purse_is_a_deploy_error() {
    let mint_public = Key::URef(URef::new([3u8; 32], AccessRights::Read));
    let mint_inner = Key::URef(URef::new([4u8; 32], AccessRights::ReadAddWrite));
    let pos_public = Key::URef(URef::new([5u8; 32], AccessRights::Read));
    let pos_inner = Key::URef(URef::new([6u8; 32], AccessRights::ReadAddWrite));
    let mut named_keys = NamedKeys::new();
    named_keys.insert("mint".to_string(), mint_public);
    named_keys.insert("pos".to_string(), pos_public);
    let (engine, root) = history_with(vec![
        (Key::Account(GENESIS_ADDR), Value::Account(account_with(named_keys, 1))),
        (mint_public.normalize(), Value::Key(mint_inner)),
        (mint_inner.normalize(), Value::Contract(Contract::new(Vec::new(), NamedKeys::new(), 1))),
        (pos_public.normalize(), Value::Key(pos_inner)),
        (pos_inner.normalize(), Value::Contract(Contract::new(Vec::new(), NamedKeys::new(), 1))),
    ]);
    let result = run(
        &engine,
        &TestExecutor::new(),
        b"count",
        b"pay in full",
        Key::Account(GENESIS_ADDR),
        key_set(&[GENESIS_ADDR]),
        1,
        root,
    )
    .unwrap();
    assert_eq!(result, ExecutionResult::precondition_failure(Error::DeployError));
}

fn state_with_purses(
    rewards_mapping: Option<Value>,
    main_mapping: Option<Value>,
) -> (EngineState<MemHistory>, Blake2bHash) {
    let mint_public = Key::URef(URef::new([3u8; 32], AccessRights::Read));
    let mint_inner_uref = URef::new([4u8; 32], AccessRights::ReadAddWrite);
    let mint_inner = Key::URef(mint_inner_uref);
    let pos_public = Key::URef(URef::new([5u8; 32], AccessRights::Read));
    let pos_inner = Key::URef(URef::new([6u8; 32], AccessRights::ReadAddWrite));
    let rewards_purse = URef::new([9u8; 32], AccessRights::ReadAddWrite);
    let mut named_keys = NamedKeys::new();
    named_keys.insert("mint".to_string(), mint_public);
    named_keys.insert("pos".to_string(), pos_public);
    let mut pos_keys = NamedKeys::new();
    pos_keys.insert("pos_rewards_purse".to_string(), Key::URef(rewards_purse));
    let mut entries = vec![
        (Key::Account(GENESIS_ADDR), Value::Account(account_with(named_keys, 1))),
        (mint_public.normalize(), Value::Key(mint_inner)),
        (mint_inner.normalize(), Value::Contract(Contract::new(Vec::new(), NamedKeys::new(), 1))),
        (pos_public.normalize(), Value::Key(pos_inner)),
        (pos_inner.normalize(), Value::Contract(Contract::new(Vec::new(), pos_keys, 1))),
    ];
    if let Some(value) = rewards_mapping {
        entries.push((Key::local(mint_inner_uref.addr(), &rewards_purse.addr()), value));
    }
    if let Some(value) = main_mapping {
        entries.push((Key::local(mint_inner_uref.addr(), &[1u8; 32]), value));
    }
    history_with(entries)
}

fn deploy_on(engine: &EngineState<MemHistory>, root: Blake2bHash) -> ExecutionResult {
    run(
        engine,
        &TestExecutor::new(),
        b"count",
        b"pay in full",
        Key::Account(GENESIS_ADDR),
        key_set(&[GENESIS_ADDR]),
        1,
        root,
    )
    .unwrap()
}

#[test]
fn rewards_purse_without_balance_key_at_the_mint_is_a_deploy_error() {
    let (engine, root) = state_with_purses(None, None);
    assert_eq!(deploy_on(&engine, root), ExecutionResult::precondition_failure(Error::DeployError));
}

#[test]
fn rewards_purse_with_a_balance_key_of_another_type_is_a_deploy_error() {
    let (engine, root) = state_with_purses(Some(Value::Int32(1)), None);
    assert_eq!(deploy_on(&engine, root), ExecutionResult::precondition_failure(Error::DeployError));
}

#[test]
fn main_purse_without_balance_key_at_the_mint_is_purse_not_found() {
    let balance = Key::URef(URef::new([8u8; 32], AccessRights::ReadAddWrite));
    let (engine, root) = state_with_purses(Some(Value::Key(balance)), None);
    assert_eq!(
        deploy_on(&engine, root),
        ExecutionResult::precondition_failure(Error::ExecError(ExecutionError::PurseNotFound))
    );
}

#[test]
fn main_purse_without_balance_is_key_not_found() {
    let rewards_balance = Key::URef(URef::new([8u8; 32], AccessRights::ReadAddWrite));
    let main_balance = Key::URef(URef::new([7u8; 32], AccessRights::ReadAddWrite));
    let (engine, root) =
        state_with_purses(Some(Value::Key(rewards_balance)), Some(Value::Key(main_balance)));
    assert_eq!(
        deploy_on(&engine, root),
        ExecutionResult::precondition_failure(Error::ExecError(ExecutionError::KeyNotFound))
    );
}

#[test]
fn genesis_is_deterministic() {
    let first = engine(true);
    let second = engine(true);
    let pk_a = PublicKey::new([1u8; 32]);
    let validators = vec![(pk_a, U512::from_u64(100))];
    let a = genesis_with(&first, 1_000, b"pos", validators.clone());
    let b = genesis_with(&second, 1_000, b"pos", validators);
    assert_eq!(a, b);
    let third = engine(true);
    let c = genesis_with(&third, 1_001, b"pos", vec![(pk_a, U512::from_u64(100))]);
    assert_ne!(a, c);
}

#[test]
fn genesis_installs_what_a_deploy_needs() {
    let engine = engine(true);
    let root = genesis(&engine, 77);
    let mut tc = engine.tracking_copy(root).unwrap().unwrap();
    let account = tc.get_account(CorrelationId(0), GENESIS_ADDR).unwrap();
    assert_eq!(account.nonce(), 0);
    assert_eq!(account.pub_key(), GENESIS_ADDR);
    assert_eq!(
        account.purse_id(),
        PurseId::new(genesis_uref(GENESIS_ACCOUNT_PURSE, AccessRights::ReadAddWrite))
    );
    assert!(account.can_authorize(&key_set(&[GENESIS_ADDR])));
    assert!(account.can_deploy_with(&key_set(&[GENESIS_ADDR])));
    let mint = *account.urefs_lookup().get(&"mint".to_string()).unwrap();
    let info = tc.get_system_contract_info(CorrelationId(0), mint.normalize()).unwrap();
    assert_eq!(
        info.inner_key(),
        Key::URef(genesis_uref(MINT_PRIVATE_ADDRESS, AccessRights::ReadAddWrite))
    );
    assert_eq!(info.module_bytes(), &b"mint".to_vec());
    let pos = *account.urefs_lookup().get(&"pos".to_string()).unwrap();
    assert_eq!(pos, Key::URef(genesis_uref(POS_PUBLIC_ADDRESS, AccessRights::Read)));
    let balance_key = tc
        .get_purse_balance_key(
            CorrelationId(0),
            genesis_uref(MINT_PRIVATE_ADDRESS, AccessRights::ReadAddWrite),
            Key::URef(account.purse_id().value()),
        )
        .unwrap();
    assert_eq!(balance_key, main_balance_key());
    assert_eq!(tc.get_purse_balance(CorrelationId(0), balance_key), Ok(U512::from_u64(77)));
    assert_eq!(balance_at(&engine, root, payment_balance_key()), U512::zero());
    assert_eq!(balance_at(&engine, root, rewards_balance_key()), U512::zero());
}

#[test]
fn genesis_and_bonded_query() {
    let engine = engine(true);
    let pk_a = PublicKey::new([0xA1; 32]);
    let pk_b = PublicKey::new([0xB2; 32]);
    let root = genesis_with(
        &engine,
        1_000,
        b"pos",
        vec![(pk_a, U512::from_u64(100)), (pk_b, U512::from_u64(250))],
    );
    let pos_key = Key::URef(genesis_uref(POS_PRIVATE_ADDRESS, AccessRights::ReadAddWrite));
    let validators =
        get_bonded_validators(engine.state(), root, &pos_key, CorrelationId(5)).unwrap();
    assert_eq!(validators.len(), 2);
    assert_eq!(validators.get(&pk_a), Some(&U512::from_u64(100)));
    assert_eq!(validators.get(&pk_b), Some(&U512::from_u64(250)));
}

#[test]
fn bonded_query_on_unknown_root() {
    let engine = engine(true);
    genesis(&engine, 1_000);
    let pos_key = Key::URef(genesis_uref(POS_PRIVATE_ADDRESS, AccessRights::ReadAddWrite));
    let unknown = Blake2bHash::new([0xEE; 32]);
    assert_eq!(
        get_bonded_validators(engine.state(), unknown, &pos_key, CorrelationId(5)),
        Err(GetBondedValidatorsError::PostStateHashNotFound(unknown))
    );
}

#[test]
fn bonded_query_where_no_contract_is_stored() {
    let engine = engine(true);
    let root = genesis(&engine, 1_000);
    let not_a_contract = main_balance_key();
    assert_eq!(
        get_bonded_validators(engine.state(), root, &not_a_contract, CorrelationId(5)),
        Err(GetBondedValidatorsError::PoSNotFound(not_a_contract))
    );
    let nothing = Key::Hash([0x33; 32]);
    assert_eq!(
        get_bonded_validators(engine.state(), root, &nothing, CorrelationId(5)),
        Err(GetBondedValidatorsError::PoSNotFound(nothing))
    );
}

#[test]
fn bonded_query_reports_storage_failure() {
    let engine = engine(true);
    let root = genesis(&engine, 1_000);
    engine.state().lock().fail_reads = true;
    let pos_key = Key::URef(genesis_uref(POS_PRIVATE_ADDRESS, AccessRights::ReadAddWrite));
    assert_eq!(
        get_bonded_validators(engine.state(), root, &pos_key, CorrelationId(5)),
        Err(GetBondedValidatorsError::StorageErrors(StorageError(7)))
    );
}

#[test]
fn commit_round_trip_reads_what_the_effects_make() {
    let engine = engine(true);
    let root = genesis(&engine, 1_000);
    let mut tc = engine.tracking_copy(root).unwrap().unwrap();
    tc.write(counter_key(), Value::Int32(5));
    tc.add(CorrelationId(0), counter_key(), Value::Int32(7)).unwrap();
    tc.add(CorrelationId(0), main_balance_key(), Value::UInt512(U512::from_u64(24))).unwrap();
    let effect = tc.effect();
    let after = match engine.apply_effect(CorrelationId(0), root, effect.transforms.duplicate()) {
        Ok(CommitResult::Success { state_root }) => state_root,
        other => panic!("commit failed: {:?}", other),
    };
    let mut fresh = engine.tracking_copy(after).unwrap().unwrap();
    assert_eq!(fresh.read(CorrelationId(0), &counter_key()), Ok(Value::Int32(12)));
    assert_eq!(
        fresh.read(CorrelationId(0), &main_balance_key()),
        Ok(Value::UInt512(U512::from_u64(1_024)))
    );
    assert_eq!(tc.read(CorrelationId(0), &counter_key()), Ok(Value::Int32(12)));
    assert_eq!(
        tc.read(CorrelationId(0), &main_balance_key()),
        Ok(Value::UInt512(U512::from_u64(1_024)))
    );
    let mut old = engine.tracking_copy(root).unwrap().unwrap();
    assert_eq!(
        old.read(CorrelationId(0), &counter_key()),
        Err(Error::ExecError(ExecutionError::KeyNotFound))
    );
}

#[test]
fn apply_effect_on_unknown_root() {
    let engine = engine(true);
    let result = engine.apply_effect(CorrelationId(0), Blake2bHash::new([1u8; 32]), AssocList::new());
    assert_eq!(result, Ok(CommitResult::RootNotFound));
}

#[test]
fn apply_effect_that_adds_to_nothing() {
    let engine = engine(true);
    let root = genesis(&engine, 1_000);
    let mut effects = AssocList::new();
    effects.insert(counter_key(), Transform::AddInt32(1));
    assert_eq!(
        engine.apply_effect(CorrelationId(0), root, effects),
        Ok(CommitResult::KeyNotFound(counter_key()))
    );
    let mut effects = AssocList::new();
    effects.insert(main_balance_key().normalize(), Transform::AddInt32(1));
    assert_eq!(engine.apply_effect(CorrelationId(0), root, effects), Ok(CommitResult::TypeMismatch));
}

#[test]
fn deploy_on_an_overlay_gives_the_same_outcome_as_the_engine() {
    let engine = engine(true);
    let root = genesis(&engine, 100_000_000);
    let tc = engine.tracking_copy(root).unwrap().unwrap();
    let config = EngineConfig::new().set_use_payment_code(true);
    let result = deploy(
        &config,
        tc,
        b"count",
        b"",
        b"pay in full",
        b"",
        Key::Account(GENESIS_ADDR),
        key_set(&[GENESIS_ADDR]),
        BlockTime(0),
        3,
        500,
        1,
        CorrelationId(2),
        &TestExecutor::new(),
        &TestPreprocessor,
    );
    assert_eq!(
        result,
        ExecutionResult::precondition_failure(Error::InvalidNonce { expected: 1, found: 3 })
    );
}

#[test]
fn engine_keeps_its_configuration() {
    let engine = engine(true);
    assert!(engine.config().use_payment_code());
    assert!(!EngineConfig::new().use_payment_code());
    assert!(!EngineConfig::default().use_payment_code());
    assert_eq!(payment_gas_limit(), 1_000_000);
    assert_eq!(MAX_PAYMENT, 10_000_000);
    assert_eq!(CONV_RATE, 10);
}

#[test]
fn settle_payment_decides_after_payment_code() {
    let engine = engine(true);
    let root = genesis(&engine, 100_000_000);
    let mut tc = engine.tracking_copy(root).unwrap().unwrap();
    let account = tc.get_account(CorrelationId(0), GENESIS_ADDR).unwrap();
    let context = resolve_payment_context(&mut tc, CorrelationId(0), &account).unwrap();
    assert_eq!(context.account_main_purse_balance, U512::from_u64(100_000_000));
    assert_eq!(context.account_main_purse_balance_key, main_balance_key());
    assert_eq!(context.rewards_purse_balance_key, rewards_balance_key());
    assert_eq!(
        context.mint_inner_uref,
        genesis_uref(MINT_PRIVATE_ADDRESS, AccessRights::ReadAddWrite)
    );
    assert_eq!(payment_purse_balance(&mut tc, CorrelationId(0), &context), Ok(U512::zero()));
    let mut builder = ExecutionResultBuilder::new();
    let outcome = settle_payment(
        &mut tc,
        CorrelationId(0),
        &context,
        &mut builder,
        ExecutionResult::success(ExecutionEffect::empty(), 11),
    )
    .unwrap_err();
    assert_eq!(outcome.error(), Some(Error::InsufficientPaymentError));
    assert_eq!(outcome.cost(), 11);
    assert_eq!(outcome.effect().transforms.len(), 2);
    move_motes(&mut tc, main_balance_key(), payment_balance_key(), U512::from_u64(MAX_PAYMENT));
    let mut builder = ExecutionResultBuilder::new();
    let settled = settle_payment(
        &mut tc,
        CorrelationId(0),
        &context,
        &mut builder,
        ExecutionResult::success(ExecutionEffect::empty(), 11),
    );
    assert_eq!(settled, Ok(U512::from_u64(MAX_PAYMENT)));
    assert_eq!(builder.total_cost(), 11);
    let mut builder = ExecutionResultBuilder::new();
    let outcome = settle_payment(
        &mut tc,
        CorrelationId(0),
        &context,
        &mut builder,
        ExecutionResult::failure(Error::ExecError(ExecutionError::Trap), ExecutionEffect::empty(), 12),
    )
    .unwrap_err();
    assert_eq!(outcome.error(), Some(Error::ExecError(ExecutionError::Trap)));
    assert_eq!(
        transform_for(&outcome, main_balance_key().normalize()),
        Some(Transform::Write(Value::UInt512(U512::from_u64(90_000_000))))
    );
}

#[test]
fn validate_account_counts_the_deploy() {
    let engine = engine(true);
    let root = genesis(&engine, 100_000_000);
    let mut tc = engine.tracking_copy(root).unwrap().unwrap();
    let account = validate_account(
        &mut tc,
        CorrelationId(0),
        Key::Account(GENESIS_ADDR),
        &key_set(&[GENESIS_ADDR]),
        1,
    )
    .unwrap();
    assert_eq!(account.nonce(), 1);
    assert_eq!(tc.get_account(CorrelationId(0), GENESIS_ADDR).unwrap().nonce(), 1);
    let again = validate_account(
        &mut tc,
        CorrelationId(0),
        Key::Account(GENESIS_ADDR),
        &key_set(&[GENESIS_ADDR]),
        1,
    );
    assert_eq!(again, Err(Error::InvalidNonce { expected: 2, found: 1 }));
    let other = validate_account(
        &mut tc,
        CorrelationId(0),
        Key::Account(GENESIS_ADDR),
        &key_set(&[[5u8; 32]]),
        2,
    );
    assert_eq!(other, Err(Error::AuthorizationError));
}

#[test]
fn committed_overlay_is_read_back() {
    let engine = engine(true);
    let root = genesis(&engine, 1_000);
    let mut tc = engine.tracking_copy(root).unwrap().unwrap();
    tc.write(counter_key(), Value::Int64(40));
    tc.add(CorrelationId(0), counter_key(), Value::Int64(2)).unwrap();
    tc.add(CorrelationId(0), rewards_balance_key(), Value::UInt512(U512::from_u64(9))).unwrap();
    tc.add(
        CorrelationId(0),
        Key::Account(GENESIS_ADDR),
        Value::NamedKey("extra".to_string(), counter_key()),
    )
    .unwrap();
    tc.add(
        CorrelationId(0),
        Key::Account(GENESIS_ADDR),
        Value::NamedKey("mint".to_string(), counter_key()),
    )
    .unwrap();
    let state = engine.state();
    let result = commit_tracking_copy(&mut *state.lock(), CorrelationId(0), root, &tc);
    let after = match result {
        Ok(CommitResult::Success { state_root }) => state_root,
        other => panic!("commit failed: {:?}", other),
    };
    let mut fresh = engine.tracking_copy(after).unwrap().unwrap();
    for key in [
        counter_key(),
        rewards_balance_key(),
        main_balance_key(),
        Key::Account(GENESIS_ADDR),
    ] {
        assert_eq!(fresh.read(CorrelationId(0), &key), tc.read(CorrelationId(0), &key));
    }
    assert_eq!(fresh.read(CorrelationId(0), &counter_key()), Ok(Value::Int64(42)));
    let account = fresh.get_account(CorrelationId(0), GENESIS_ADDR).unwrap();
    assert_eq!(account.urefs_lookup().len(), 3);
    assert_eq!(account.urefs_lookup().get(&"mint".to_string()), Some(&counter_key()));
    assert_eq!(account.urefs_lookup().get(&"extra".to_string()), Some(&counter_key()));
}

#[test]
fn genesis_with_invalid_mint_code_fails_before_any_commit() {
    let engine = engine(true);
    let result = engine.commit_genesis(
        CorrelationId(1),
        GENESIS_ADDR,
        U512::from_u64(1_000),
        b"invalid",
        b"pos",
        Vec::new(),
        1,
        &TestPreprocessor,
    );
    assert_eq!(result, Err(Error::WasmPreprocessingError(PreprocessingError::Deserialize)));
    assert_eq!(engine.state().lock().versions.len(), 1);
}

#[test]
fn genesis_with_invalid_pos_code_fails_before_any_commit() {
    let mut history = MemHistory::new();
    let before = history.current_root();
    let result = commit_genesis_to(
        &mut history,
        CorrelationId(1),
        GENESIS_ADDR,
        U512::from_u64(1_000),
        b"mint",
        b"invalid",
        vec![(PublicKey::new([1u8; 32]), U512::from_u64(5))],
        1,
        &TestPreprocessor,
    );
    assert_eq!(result, Err(Error::WasmPreprocessingError(PreprocessingError::Deserialize)));
    assert_eq!(history.versions.len(), 1);
    assert_eq!(history.current_root(), before);
    let made = commit_genesis_to(
        &mut history,
        CorrelationId(1),
        GENESIS_ADDR,
        U512::from_u64(1_000),
        b"mint",
        b"pos",
        Vec::new(),
        1,
        &TestPreprocessor,
    );
    assert!(matches!(made, Ok(GenesisResult::Success { .. })));
    assert_eq!(history.versions.len(), 2);
}

#[test]
fn genesis_with_empty_code_follows_the_preprocessor() {
    struct NothingIsValid;
    impl Preprocessor<Vec<u8>> for NothingIsValid {
        fn rejection(&self, _module_bytes: vstd::seq::Seq<u8>) -> Option<PreprocessingError> {
            unreachable!()
        }

        fn module(&self, _module_bytes: vstd::seq::Seq<u8>) -> Vec<u8> {
            unreachable!()
        }

        fn stored_module(
            &self,
            _module_bytes: vstd::seq::Seq<u8>,
        ) -> Result<Vec<u8>, PreprocessingError> {
            unreachable!()
        }

        fn preprocess(&self, _module_bytes: &[u8]) -> Result<Vec<u8>, PreprocessingError> {
            Err(PreprocessingError::OperationForbiddenByGasRules)
        }

        fn deserialize(&self, _module_bytes: &[u8]) -> Result<Vec<u8>, PreprocessingError> {
            Err(PreprocessingError::Deserialize)
        }
    }
    let engine = engine(true);
    let result = engine.commit_genesis(
        CorrelationId(1),
        GENESIS_ADDR,
        U512::from_u64(1_000),
        b"",
        b"",
        Vec::new(),
        1,
        &NothingIsValid,
    );
    assert_eq!(
        result,
        Err(Error::WasmPreprocessingError(PreprocessingError::OperationForbiddenByGasRules))
    );
    assert_eq!(engine.state().lock().versions.len(), 1);
}

#[test]
fn run_deploy_at_fails_just_for_an_unknown_prestate() {
    let engine = engine(true);
    let root = genesis(&engine, 100_000_000);
    let state = engine.state();
    let history = state.lock();
    let executor = TestExecutor::new();
    let config = EngineConfig::new().set_use_payment_code(true);
    let unknown = Blake2bHash::new([0xFF; 32]);
    let result = run_deploy_at(
        &*history,
        &config,
        b"count",
        b"",
        b"pay in full",
        b"",
        Key::Account(GENESIS_ADDR),
        key_set(&[GENESIS_ADDR]),
        BlockTime(0),
        1,
        unknown,
        500,
        1,
        CorrelationId(2),
        &executor,
        &TestPreprocessor,
    );
    assert_eq!(result, Err(RootNotFound(Blake2bHash::new([0xFF; 32]))));
    assert!(executor.calls.borrow().is_empty());
    let result = run_deploy_at(
        &*history,
        &config,
        b"count",
        b"",
        b"pay in full",
        b"",
        Key::Account(GENESIS_ADDR),
        key_set(&[]),
        BlockTime(0),
        5,
        root,
        500,
        1,
        CorrelationId(2),
        &executor,
        &TestPreprocessor,
    );
    assert_eq!(result, Ok(ExecutionResult::precondition_failure(Error::AuthorizationError)));
    let result = run_deploy_at(
        &*history,
        &config,
        b"count",
        b"",
        b"pay in full",
        b"",
        Key::Account(GENESIS_ADDR),
        key_set(&[GENESIS_ADDR]),
        BlockTime(0),
        1,
        root,
        500,
        1,
        CorrelationId(2),
        &executor,
        &TestPreprocessor,
    )
    .unwrap();
    assert_eq!(result.error(), None);
    assert_eq!(result.cost(), 150);
}

#[test]
fn unknown_prestate_runs_no_code() {
    let engine = engine(true);
    genesis(&engine, 100_000_000);
    let executor = TestExecutor::new();
    let result = run(
        &engine,
        &executor,
        b"invalid",
        b"invalid",
        Key::Hash([1u8; 32]),
        key_set(&[]),
        9,
        Blake2bHash::new([0xFF; 32]),
    );
    assert_eq!(result, Err(RootNotFound(Blake2bHash::new([0xFF; 32]))));
    assert!(executor.calls.borrow().is_empty());
}

#[test]
fn first_failing_check_decides() {
    let engine = engine(true);
    let root = genesis(&engine, 5);
    let result = run(
        &engine,
        &TestExecutor::new(),
        b"invalid",
        b"invalid",
        Key::Account(GENESIS_ADDR),
        key_set(&[]),
        7,
        root,
    )
    .unwrap();
    assert_eq!(result, ExecutionResult::precondition_failure(Error::AuthorizationError));
    let result = run(
        &engine,
        &TestExecutor::new(),
        b"invalid",
        b"invalid",
        Key::Account(GENESIS_ADDR),
        key_set(&[GENESIS_ADDR]),
        7,
        root,
    )
    .unwrap();
    assert_eq!(result.error(), Some(Error::InvalidNonce { expected: 1, found: 7 }));
    let result = run(
        &engine,
        &TestExecutor::new(),
        b"invalid",
        b"invalid",
        Key::Account(GENESIS_ADDR),
        key_set(&[GENESIS_ADDR]),
        1,
        root,
    )
    .unwrap();
    assert_eq!(
        result.error(),
        Some(Error::WasmPreprocessingError(PreprocessingError::Deserialize))
    );
    let result = run(
        &engine,
        &TestExecutor::new(),
        b"count",
        b"invalid",
        Key::Account(GENESIS_ADDR),
        key_set(&[GENESIS_ADDR]),
        1,
        root,
    )
    .unwrap();
    assert_eq!(result.error(), Some(Error::InsufficientPaymentError));
}

#[test]
fn overlay_follows_the_answer_of_the_checkout() {
    let reader = MemReader { entries: vec![(counter_key(), Value::Int32(3))], fail: false };
    let mut tc = tracking_copy_from(Ok(Some(reader))).unwrap().unwrap();
    assert_eq!(tc.read(CorrelationId(0), &counter_key()), Ok(Value::Int32(3)));
    assert_eq!(tc.effect().transforms.len(), 0);
    assert!(matches!(tracking_copy_from::<MemReader>(Ok(None)), Ok(None)));
    assert!(matches!(
        tracking_copy_from::<MemReader>(Err(StorageError(4))),
        Err(Error::StorageError(StorageError(4)))
    ));
}

#[test]
fn reader_follows_the_answer_of_the_checkout() {
    let root = Blake2bHash::new([3u8; 32]);
    let reader = MemReader { entries: Vec::new(), fail: false };
    assert!(checked_out_reader(Ok(Some(reader)), root).is_ok());
    assert_eq!(
        checked_out_reader::<MemReader>(Ok(None), root).err(),
        Some(GetBondedValidatorsError::PostStateHashNotFound(root))
    );
    assert_eq!(
        checked_out_reader::<MemReader>(Err(StorageError(5)), root).err(),
        Some(GetBondedValidatorsError::StorageErrors(StorageError(5)))
    );
}

#[test]
fn bonded_validators_follow_what_was_read() {
    let pos_key = Key::Hash([9u8; 32]);
    let pk = PublicKey::new([0x11; 32]);
    let mut keys = NamedKeys::new();
    keys.insert(format!("v_{}_7", "11".repeat(32)), Key::Hash([0u8; 32]));
    keys.insert("other".to_string(), Key::Hash([0u8; 32]));
    keys.insert(format!("v_{}_9", "11".repeat(32)), Key::Hash([0u8; 32]));
    let contract = Value::Contract(Contract::new(Vec::new(), keys, 1));
    let validators = bonded_validators_from(Ok(Some(contract)), &pos_key).unwrap();
    assert_eq!(validators.len(), 1);
    assert_eq!(validators.get(&pk), Some(&U512::from_u64(9)));
    assert_eq!(
        bonded_validators_from(Ok(Some(Value::Int32(1))), &pos_key),
        Err(GetBondedValidatorsError::PoSNotFound(pos_key))
    );
    assert_eq!(
        bonded_validators_from(Ok(None), &pos_key),
        Err(GetBondedValidatorsError::PoSNotFound(pos_key))
    );
    assert_eq!(
        bonded_validators_from(Err(StorageError(6)), &pos_key),
        Err(GetBondedValidatorsError::StorageErrors(StorageError(6)))
    );
}

#[test]
fn genesis_result_follows_the_answer_of_the_store() {
    let effect = ExecutionEffect::empty();
    assert_eq!(
        GenesisResult::from_commit(Err(StorageError(8)), effect.clone()),
        Err(Error::StorageError(StorageError(8)))
    );
    assert_eq!(
        GenesisResult::from_commit(Ok(CommitResult::TypeMismatch), effect.clone()),
        Ok(GenesisResult::TypeMismatch)
    );
    let root = Blake2bHash::new([2u8; 32]);
    assert_eq!(
        GenesisResult::from_commit(Ok(CommitResult::Success { state_root: root }), effect.clone()),
        Ok(GenesisResult::Success { post_state_hash: root, effect })
    );
}

#[test]
fn genesis_effects_are_prepared_and_then_committed() {
    let rejected = prepare_genesis_effects(
        GENESIS_ADDR,
        U512::from_u64(5),
        b"mint",
        b"invalid",
        Vec::new(),
        1,
        &TestPreprocessor,
    );
    assert_eq!(rejected, Err(Error::WasmPreprocessingError(PreprocessingError::Deserialize)));
    let effect = prepare_genesis_effects(
        GENESIS_ADDR,
        U512::from_u64(5),
        b"mint",
        b"pos",
        Vec::new(),
        1,
        &TestPreprocessor,
    )
    .unwrap();
    assert_eq!(effect.transforms.len(), 11);
    let mut history = MemHistory::new();
    let made = commit_genesis_effects_to(&mut history, CorrelationId(0), effect.clone());
    let root = match made {
        Ok(GenesisResult::Success { post_state_hash, effect: committed }) => {
            assert_eq!(committed, effect);
            post_state_hash
        },
        other => panic!("genesis failed: {:?}", other),
    };
    assert_eq!(history.current_root(), root);
    let mut adds = ExecutionEffect::empty();
    adds.transforms.insert(counter_key(), Transform::AddInt32(1));
    assert_eq!(
        commit_genesis_effects_to(&mut history, CorrelationId(0), adds),
        Ok(GenesisResult::KeyNotFound(counter_key()))
    );
    history.fail_commit = true;
    assert_eq!(
        commit_genesis_effects_to(&mut history, CorrelationId(0), effect),
        Err(Error::StorageError(StorageError(11)))
    );
}

struct LockProbe {
    state: std::sync::Arc<parking_lot::Mutex<MemHistory>>,
    free: std::cell::Cell<usize>,
}

impl Preprocessor<Vec<u8>> for LockProbe {
    fn rejection(&self, _module_bytes: vstd::seq::Seq<u8>) -> Option<PreprocessingError> {
        unreachable!()
    }

    fn module(&self, _module_bytes: vstd::seq::Seq<u8>) -> Vec<u8> {
        unreachable!()
    }

    fn stored_module(
        &self,
        _module_bytes: vstd::seq::Seq<u8>,
    ) -> Result<Vec<u8>, PreprocessingError> {
        unreachable!()
    }

    fn preprocess(&self, module_bytes: &[u8]) -> Result<Vec<u8>, PreprocessingError> {
        if self.state.try_lock().is_some() {
            self.free.set(self.free.get() + 1);
        }
        Ok(module_bytes.to_vec())
    }

    fn deserialize(&self, module_bytes: &[u8]) -> Result<Vec<u8>, PreprocessingError> {
        Ok(module_bytes.to_vec())
    }
}

#[test]
fn genesis_code_is_checked_before_the_lock_is_taken() {
    let engine = engine(true);
    let probe = LockProbe { state: engine.state(), free: std::cell::Cell::new(0) };
    let result = engine.commit_genesis(
        CorrelationId(1),
        GENESIS_ADDR,
        U512::from_u64(1_000),
        b"mint",
        b"pos",
        Vec::new(),
        1,
        &probe,
    );
    assert!(matches!(result, Ok(GenesisResult::Success { .. })));
    assert_eq!(probe.free.get(), 2);
}

#[test]
fn deploy_holds_no_lock_while_code_is_checked_and_run() {
    let engine = engine(true);
    let root = genesis(&engine, 100_000_000);
    let probe = LockProbe { state: engine.state(), free: std::cell::Cell::new(0) };
    let result = engine
        .run_deploy(
            b"count",
            b"",
            b"pay in full",
            b"",
            Key::Account(GENESIS_ADDR),
            key_set(&[GENESIS_ADDR]),
            BlockTime(0),
            1,
            root,
            500,
            1,
            CorrelationId(2),
            &TestExecutor::new(),
            &probe,
        )
        .unwrap();
    assert_eq!(result.error(), None);
    assert_eq!(probe.free.get(), 2);
}
