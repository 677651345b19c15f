use engine_core::assoc::AssocList;
use engine_core::engine_state::{
    finalize_payment_args, payment_gas_limit, session_gas_limit, system_account,
    system_account_addr,
};
use engine_core::error::{Error, ExecutionError, PreprocessingError};
use engine_core::execution::Preprocessor;
use engine_core::execution_effect::{record_op, record_transform, ExecutionEffect};
use engine_core::execution_result::{
    ExecutionResult, ExecutionResultBuilder, ExecutionResultBuilderError,
};
use engine_core::genesis::{
    create_genesis_effects, effect_of_writes, pos_named_keys, GenesisResult,
};
use engine_core::global_state::CommitResult;
use engine_core::key::{AccessRights, Blake2bHash, Key, PublicKey, URef};
use engine_core::op::Op;
use engine_core::transform::{Transform, TransformError};
use engine_core::u512::U512;
use engine_core::utils::{
    decimal_string, parse_decimal_str, pos_validator_name, pos_validator_to_tuple, WasmiBytes,
};
use engine_core::value::{PurseId, Value};

struct AcceptsAll;

impl Preprocessor<Vec<u8>> for AcceptsAll {
    fn rejection(&self, _module_bytes: vstd::seq::Seq<u8>) -> Option<PreprocessingError> {
        unreachable!()
    }

    fn module(&self, _module_bytes: vstd::seq::Seq<u8>) -> Vec<u8> {
        unreachable!()
    }

    fn stored_module(
        &self,
        _module_bytes: vstd::seq::Seq<u8>,
    ) -> Result<Vec<u8>, PreprocessingError> {
        unreachable!()
    }

    fn preprocess(&self, module_bytes: &[u8]) -> Result<Vec<u8>, PreprocessingError> {
        if module_bytes.is_empty() {
            Err(PreprocessingError::Deserialize)
        } else {
            Ok(module_bytes.to_vec())
        }
    }

    fn deserialize(&self, module_bytes: &[u8]) -> Result<Vec<u8>, PreprocessingError> {
        Ok(module_bytes.to_vec())
    }
}

fn key(n: u8) -> Key {
    Key::Hash([n; 32])
}

fn effect(entries: Vec<(Key, Op, Transform)>) -> ExecutionEffect {
    let mut ops = AssocList::new();
    let mut transforms = AssocList::new();
    for (k, op, transform) in entries {
        ops.insert(k, op);
        transforms.insert(k, transform);
    }
    ExecutionEffect::new(ops, transforms)
}

fn u(n: u64) -> U512 {
    U512::from_u64(n)
}

#[test]
fn precondition_failure_has_no_effect_and_no_cost() {
    let result = ExecutionResult::precondition_failure(Error::DeployError);
    assert!(result.is_failure());
    assert!(!result.is_success());
    assert_eq!(result.cost(), 0);
    assert_eq!(result.error(), Some(Error::DeployError));
    assert_eq!(result.effect(), &ExecutionEffect::empty());
    assert_eq!(result.effect().ops.len(), 0);
    assert_eq!(result.effect().transforms.len(), 0);
}

#[test]
fn results_keep_their_parts() {
    let e = effect(vec![(key(1), Op::Write, Transform::Write(Value::Int32(1)))]);
    let ok = ExecutionResult::success(e.clone(), 7);
    assert!(ok.is_success());
    assert_eq!(ok.cost(), 7);
    assert_eq!(ok.effect(), &e);
    assert_eq!(ok.error(), None);
    let failed = ExecutionResult::failure(Error::FinalizationError, e.clone(), 8);
    assert!(failed.is_failure());
    assert_eq!(failed.cost(), 8);
    assert_eq!(failed.error(), Some(Error::FinalizationError));
    assert_eq!(ok.clone().with_cost(9).cost(), 9);
    assert_eq!(ok.clone().with_cost(9).effect(), &e);
    assert_eq!(ok.with_effect(ExecutionEffect::empty()).effect(), &ExecutionEffect::empty());
}

#[test]
fn forced_transfer_when_payment_succeeds_but_purse_is_short() {
    let mut builder = ExecutionResultBuilder::new();
    let payment = ExecutionResult::success(
        effect(vec![(key(9), Op::Write, Transform::Write(Value::Int32(1)))]),
        40,
    );
    let main = Key::URef(URef::new([1u8; 32], AccessRights::ReadAddWrite));
    let rewards = Key::URef(URef::new([2u8; 32], AccessRights::ReadAddWrite));
    let result = builder
        .set_payment_execution_result(payment)
        .check_forced_transfer(u(10_000_000), u(25_000_000), u(9_999_999), main, rewards)
        .unwrap();
    assert_eq!(result.cost(), 40);
    assert_eq!(result.error(), Some(Error::InsufficientPaymentError));
    assert_eq!(
        result.effect(),
        &effect(vec![
            (main.normalize(), Op::Write, Transform::Write(Value::UInt512(u(15_000_000)))),
            (rewards.normalize(), Op::Add, Transform::AddInt512(u(10_000_000))),
        ])
    );
}

#[test]
fn no_forced_transfer_when_the_purse_holds_enough() {
    let mut builder = ExecutionResultBuilder::new();
    builder.set_payment_execution_result(ExecutionResult::success(ExecutionEffect::empty(), 40));
    assert_eq!(
        builder.check_forced_transfer(u(10_000_000), u(25_000_000), u(10_000_000), key(1), key(2)),
        None
    );
    assert_eq!(
        builder.check_forced_transfer(u(10_000_000), u(25_000_000), u(10_000_001), key(1), key(2)),
        None
    );
}

#[test]
fn forced_transfer_when_payment_fails_even_with_a_full_purse() {
    let mut builder = ExecutionResultBuilder::new();
    builder.set_payment_execution_result(ExecutionResult::failure(
        Error::ExecError(ExecutionError::Trap),
        ExecutionEffect::empty(),
        12,
    ));
    let result = builder
        .check_forced_transfer(u(10), u(10), u(1_000), key(1), key(2))
        .unwrap();
    assert_eq!(result.error(), Some(Error::ExecError(ExecutionError::Trap)));
    assert_eq!(result.cost(), 12);
    assert_eq!(
        result.effect().transforms.get(&key(1)),
        Some(&Transform::Write(Value::UInt512(u(0))))
    );
    assert_eq!(result.effect().transforms.get(&key(2)), Some(&Transform::AddInt512(u(10))));
}

#[test]
fn no_forced_transfer_without_a_payment_result() {
    let mut builder = ExecutionResultBuilder::new();
    assert_eq!(builder.check_forced_transfer(u(10), u(10), u(0), key(1), key(2)), None);
}

#[test]
fn build_wants_payment_and_finalization() {
    let ok = || ExecutionResult::success(ExecutionEffect::empty(), 1);
    assert_eq!(
        ExecutionResultBuilder::new().build(),
        Err(ExecutionResultBuilderError::MissingPaymentExecutionResult)
    );
    let mut builder = ExecutionResultBuilder::new();
    builder.set_session_execution_result(ok()).set_finalize_execution_result(ok());
    assert_eq!(builder.build(), Err(ExecutionResultBuilderError::MissingPaymentExecutionResult));
    let mut builder = ExecutionResultBuilder::new();
    builder.set_payment_execution_result(ok()).set_session_execution_result(ok());
    assert_eq!(builder.build(), Err(ExecutionResultBuilderError::MissingFinalizeExecutionResult));
    let mut builder = ExecutionResultBuilder::new();
    builder.set_payment_execution_result(ok()).set_finalize_execution_result(ok());
    assert_eq!(builder.build(), Ok(ExecutionResult::success(ExecutionEffect::empty(), 1)));
}

#[test]
fn build_merges_the_effects_in_order() {
    let mut builder = ExecutionResultBuilder::new();
    builder
        .set_payment_execution_result(ExecutionResult::success(
            effect(vec![
                (key(1), Op::Write, Transform::Write(Value::Int32(10))),
                (key(2), Op::Read, Transform::Identity),
            ]),
            100,
        ))
        .set_session_execution_result(ExecutionResult::success(
            effect(vec![
                (key(1), Op::Add, Transform::AddInt32(5)),
                (key(3), Op::Add, Transform::AddInt64(1)),
            ]),
            50,
        ))
        .set_finalize_execution_result(ExecutionResult::success(
            effect(vec![
                (key(3), Op::Add, Transform::AddInt64(2)),
                (key(2), Op::Read, Transform::Identity),
            ]),
            999,
        ));
    assert_eq!(builder.total_cost(), 150);
    let result = builder.build().unwrap();
    assert_eq!(result.error(), None);
    assert_eq!(result.cost(), 150);
    assert_eq!(
        result.effect(),
        &effect(vec![
            (key(1), Op::Write, Transform::Write(Value::Int32(15))),
            (key(2), Op::Read, Transform::Identity),
            (key(3), Op::Add, Transform::AddInt64(3)),
        ])
    );
}

#[test]
fn build_drops_the_effect_of_a_failed_session_but_keeps_its_cost() {
    let mut builder = ExecutionResultBuilder::new();
    builder
        .set_payment_execution_result(ExecutionResult::success(
            effect(vec![(key(1), Op::Write, Transform::Write(Value::Int32(10)))]),
            100,
        ))
        .set_session_execution_result(ExecutionResult::failure(
            Error::ExecError(ExecutionError::GasLimit),
            effect(vec![(key(1), Op::Add, Transform::AddInt32(5))]),
            70,
        ))
        .set_finalize_execution_result(ExecutionResult::success(
            effect(vec![(key(4), Op::Write, Transform::Write(Value::Int8(1)))]),
            3,
        ));
    let result = builder.build().unwrap();
    assert_eq!(result.error(), Some(Error::ExecError(ExecutionError::GasLimit)));
    assert_eq!(result.cost(), 170);
    assert_eq!(
        result.effect(),
        &effect(vec![
            (key(1), Op::Write, Transform::Write(Value::Int32(10))),
            (key(4), Op::Write, Transform::Write(Value::Int8(1))),
        ])
    );
}

#[test]
fn build_reports_failed_finalization() {
    let mut builder = ExecutionResultBuilder::new();
    builder
        .set_payment_execution_result(ExecutionResult::success(
            effect(vec![(key(1), Op::Write, Transform::Write(Value::Int32(10)))]),
            100,
        ))
        .set_session_execution_result(ExecutionResult::success(ExecutionEffect::empty(), 5))
        .set_finalize_execution_result(ExecutionResult::failure(
            Error::ExecError(ExecutionError::Trap),
            effect(vec![(key(4), Op::Write, Transform::Write(Value::Int8(1)))]),
            3,
        ));
    let result = builder.build().unwrap();
    assert_eq!(result.error(), Some(Error::FinalizationError));
    assert_eq!(result.cost(), 105);
    assert_eq!(
        result.effect(),
        &effect(vec![(key(1), Op::Write, Transform::Write(Value::Int32(10)))])
    );
}

#[test]
fn build_reports_the_first_error() {
    let failed = |e| ExecutionResult::failure(e, ExecutionEffect::empty(), 1);
    let mut builder = ExecutionResultBuilder::new();
    builder
        .set_payment_execution_result(ExecutionResult::success(ExecutionEffect::empty(), 1))
        .set_session_execution_result(failed(Error::ExecError(ExecutionError::HostError)))
        .set_finalize_execution_result(failed(Error::ExecError(ExecutionError::Trap)));
    assert_eq!(
        builder.build().unwrap().error(),
        Some(Error::ExecError(ExecutionError::HostError))
    );
    let mut builder = ExecutionResultBuilder::new();
    builder
        .set_payment_execution_result(failed(Error::DeployError))
        .set_session_execution_result(failed(Error::ExecError(ExecutionError::HostError)))
        .set_finalize_execution_result(failed(Error::ExecError(ExecutionError::Trap)));
    assert_eq!(builder.build().unwrap().error(), Some(Error::DeployError));
}

#[test]
fn total_cost_stops_at_the_largest_amount_of_gas() {
    let mut builder = ExecutionResultBuilder::new();
    assert_eq!(builder.total_cost(), 0);
    builder.set_payment_execution_result(ExecutionResult::success(
        ExecutionEffect::empty(),
        u64::MAX - 1,
    ));
    assert_eq!(builder.total_cost(), u64::MAX - 1);
    builder.set_session_execution_result(ExecutionResult::success(ExecutionEffect::empty(), 1));
    assert_eq!(builder.total_cost(), u64::MAX);
    builder.set_session_execution_result(ExecutionResult::success(ExecutionEffect::empty(), 2));
    assert_eq!(builder.total_cost(), u64::MAX);
}

#[test]
fn later_result_replaces_the_earlier_one() {
    let mut builder = ExecutionResultBuilder::new();
    builder.set_payment_execution_result(ExecutionResult::success(ExecutionEffect::empty(), 1));
    builder.set_payment_execution_result(ExecutionResult::success(ExecutionEffect::empty(), 2));
    assert_eq!(builder.total_cost(), 2);
}

#[test]
fn effects_merge_by_joining_ops_and_composing_transforms() {
    let mut first = effect(vec![
        (key(1), Op::Read, Transform::Identity),
        (key(2), Op::Add, Transform::AddInt32(1)),
    ]);
    let second = effect(vec![
        (key(2), Op::Add, Transform::AddInt64(1)),
        (key(1), Op::Read, Transform::AddInt8(1)),
        (key(5), Op::NoOp, Transform::Identity),
    ]);
    first.absorb(&second);
    assert_eq!(
        first,
        effect(vec![
            (key(1), Op::Read, Transform::AddInt8(1)),
            (key(2), Op::Add, Transform::Failure(TransformError::TypeMismatch)),
            (key(5), Op::NoOp, Transform::Identity),
        ])
    );
    let mut ops = AssocList::new();
    record_op(&mut ops, key(1), Op::Read);
    record_op(&mut ops, key(1), Op::Add);
    assert_eq!(ops.get(&key(1)), Some(&Op::Write));
    let mut transforms = AssocList::new();
    record_transform(&mut transforms, key(1), Transform::AddInt32(1));
    record_transform(&mut transforms, key(1), Transform::AddInt32(2));
    assert_eq!(transforms.get(&key(1)), Some(&Transform::AddInt32(3)));
    assert_eq!(transforms.len(), 1);
}

#[test]
fn gas_limits() {
    assert_eq!(payment_gas_limit(), 1_000_000);
    assert_eq!(session_gas_limit(u(10_000_000), 100), 999_900);
    assert_eq!(session_gas_limit(u(10_000_009), 100), 999_900);
    assert_eq!(session_gas_limit(u(10_000_010), 100), 999_901);
    assert_eq!(session_gas_limit(u(1_000), 100), 0);
    assert_eq!(session_gas_limit(u(1_000), 101), 0);
    assert_eq!(session_gas_limit(u(1_000), 99), 1);
    assert_eq!(session_gas_limit(u(0), 0), 0);
    assert_eq!(session_gas_limit(U512::from_u128(u128::MAX), 5), u64::MAX);
    assert_eq!(session_gas_limit(U512::from_u128(10 * (u64::MAX as u128)), 0), u64::MAX);
    assert_eq!(session_gas_limit(U512::from_u128(10 * (u64::MAX as u128)), 1), u64::MAX - 1);
    assert_eq!(session_gas_limit(U512::from_u128(10 * (u64::MAX as u128) + 10), 1), u64::MAX);
}

#[test]
fn finalization_arguments() {
    assert_eq!(
        finalize_payment_args(150, [6u8; 32]),
        vec![
            Value::String("finalize_payment".to_string()),
            Value::UInt512(u(1_500)),
            Value::ByteArray(vec![6u8; 32]),
        ]
    );
    assert_eq!(
        finalize_payment_args(u64::MAX, [0u8; 32])[1],
        Value::UInt512(U512::from_u128(u64::MAX as u128 * 10))
    );
}

#[test]
fn system_account_is_all_zeros_with_full_rights() {
    assert_eq!(system_account_addr(), [0u8; 32]);
    let account = system_account();
    assert_eq!(account.pub_key(), [0u8; 32]);
    assert_eq!(account.nonce(), 0);
    assert_eq!(
        account.purse_id(),
        PurseId::new(URef::new([0u8; 32], AccessRights::ReadAddWrite))
    );
    assert_eq!(account.urefs_lookup().len(), 0);
    assert_eq!(account.associated_keys().len(), 0);
}

#[test]
fn validator_names_are_written_and_read() {
    let mut bytes = [0u8; 32];
    for (i, b) in bytes.iter_mut().enumerate() {
        *b = (i as u8) * 8 + 1;
    }
    let pk = PublicKey::new(bytes);
    let name = pos_validator_name(&pk, &u(250));
    assert_eq!(
        name,
        "v_0109111921293139414951596169717981899199a1a9b1b9c1c9d1d9e1e9f1f9_250"
    );
    assert_eq!(pos_validator_to_tuple(&name), Some((pk, u(250))));
    assert_eq!(pos_validator_name(&PublicKey::new([0xab; 32]), &u(0)), format!("v_{}_0", "ab".repeat(32)));
    let upper = format!("v_{}_17", "AB".repeat(32));
    assert_eq!(pos_validator_to_tuple(&upper), Some((PublicKey::new([0xab; 32]), u(17))));
    let large = parse_decimal_str("340282366920938463463374607431768211456").unwrap();
    let name = pos_validator_name(&pk, &large);
    assert_eq!(pos_validator_to_tuple(&name), Some((pk, large)));
    assert_eq!(decimal_string(large), "340282366920938463463374607431768211456");
}

#[test]
fn names_that_record_no_validator_are_not_read() {
    let hex = "ab".repeat(32);
    assert_eq!(pos_validator_to_tuple(""), None);
    assert_eq!(pos_validator_to_tuple("pos_payment_purse"), None);
    assert_eq!(pos_validator_to_tuple("pos_rewards_purse"), None);
    assert_eq!(pos_validator_to_tuple(&format!("v_{}", hex)), None);
    assert_eq!(pos_validator_to_tuple(&format!("v_{}_", hex)), None);
    assert_eq!(pos_validator_to_tuple(&format!("w_{}_1", hex)), None);
    assert_eq!(pos_validator_to_tuple(&format!("v-{}_1", hex)), None);
    assert_eq!(pos_validator_to_tuple(&format!("v_{}-1", hex)), None);
    assert_eq!(pos_validator_to_tuple(&format!("v_{}_1x", hex)), None);
    assert_eq!(pos_validator_to_tuple(&format!("v_{}_1_2", hex)), None);
    assert_eq!(pos_validator_to_tuple(&format!("v_{}_1", "ab".repeat(31))), None);
    assert_eq!(pos_validator_to_tuple(&format!("v_{}_1", "ab".repeat(33))), None);
    assert_eq!(pos_validator_to_tuple(&format!("v_{}g_1", "ab".repeat(31) + "a")), None);
    assert_eq!(pos_validator_to_tuple(&format!("v_{}_1", "é".repeat(64))), None);
    let too_large = format!("v_{}_1{}", hex, "0".repeat(155));
    assert_eq!(pos_validator_to_tuple(&too_large), None);
}

#[test]
fn genesis_result_follows_the_commit() {
    let e = effect(vec![(key(1), Op::Write, Transform::Write(Value::Int32(1)))]);
    assert_eq!(
        GenesisResult::from_commit_result(CommitResult::RootNotFound, e.clone()),
        GenesisResult::RootNotFound
    );
    assert_eq!(
        GenesisResult::from_commit_result(CommitResult::KeyNotFound(key(3)), e.clone()),
        GenesisResult::KeyNotFound(key(3))
    );
    assert_eq!(
        GenesisResult::from_commit_result(CommitResult::TypeMismatch, e.clone()),
        GenesisResult::TypeMismatch
    );
    let root = Blake2bHash::new([4u8; 32]);
    assert_eq!(
        GenesisResult::from_commit_result(CommitResult::Success { state_root: root }, e.clone()),
        GenesisResult::Success { post_state_hash: root, effect: e }
    );
}

#[test]
fn genesis_effect_writes_each_key_once() {
    let pk = PublicKey::new([0x11; 32]);
    let effect = create_genesis_effects(
        [6u8; 32],
        u(1_000),
        WasmiBytes::new(&[1], &AcceptsAll).unwrap(),
        WasmiBytes::new(&[2], &AcceptsAll).unwrap(),
        vec![(pk, u(5)), (pk, u(6))],
        3,
    );
    assert_eq!(effect.transforms.len(), 11);
    assert_eq!(effect.ops.len(), 11);
    for i in 0..effect.transforms.len() {
        assert_eq!(effect.ops.value_at(i), &Op::Write);
        assert_eq!(effect.ops.key_at(i), effect.transforms.key_at(i));
        assert_eq!(effect.transforms.key_at(i), &effect.transforms.key_at(i).normalize());
        match effect.transforms.value_at(i) {
            Transform::Write(_) => {},
            other => panic!("not a write: {:?}", other),
        }
    }
    assert_eq!(
        effect.transforms.get(&Key::Account([6u8; 32])).map(|t| match t {
            Transform::Write(Value::Account(account)) => account.nonce(),
            other => panic!("not an account: {:?}", other),
        }),
        Some(0)
    );
}

#[test]
fn pos_named_keys_hold_bonds_and_purses() {
    let pk_a = PublicKey::new([0x11; 32]);
    let pk_b = PublicKey::new([0x22; 32]);
    let keys = pos_named_keys(&vec![(pk_a, u(5)), (pk_b, u(6)), (pk_a, u(5))]);
    assert_eq!(keys.len(), 4);
    assert_eq!(keys.key_at(0), &format!("v_{}_5", "11".repeat(32)));
    assert_eq!(keys.key_at(1), &format!("v_{}_6", "22".repeat(32)));
    assert_eq!(keys.key_at(2), "pos_payment_purse");
    assert_eq!(keys.key_at(3), "pos_rewards_purse");
    assert_eq!(keys.value_at(0), &Key::Hash([0u8; 32]));
}

#[test]
fn effect_of_writes_uses_stored_keys_and_later_writes_win() {
    let with_rights = Key::URef(URef::new([1u8; 32], AccessRights::Read));
    let effect = effect_of_writes(vec![
        (with_rights, Value::Int32(1)),
        (key(2), Value::Int32(2)),
        (with_rights.normalize(), Value::Int32(3)),
    ]);
    assert_eq!(effect.transforms.len(), 2);
    assert_eq!(
        effect.transforms.get(&with_rights.normalize()),
        Some(&Transform::Write(Value::Int32(3)))
    );
    assert_eq!(effect.transforms.get(&with_rights), None);
    assert_eq!(effect.ops.get(&key(2)), Some(&Op::Write));
}

#[test]
fn code_is_kept_only_where_the_preprocessor_accepts_it() {
    let code = WasmiBytes::new(&[1, 2, 3], &AcceptsAll).unwrap();
    assert_eq!(code.into_bytes(), vec![1, 2, 3]);
    assert_eq!(WasmiBytes::new(&[], &AcceptsAll), Err(PreprocessingError::Deserialize));
}
