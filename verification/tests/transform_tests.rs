use engine_core::key::{AccessRights, Key, PublicKey, URef};
use engine_core::op::Op;
use engine_core::transform::{extend_named_keys, Transform, TransformError};
use engine_core::u256::U256;
use engine_core::u512::U512;
use engine_core::value::{
    Account, ActionThresholds, AssociatedKeys, Contract, NamedKeys, PublicKeySet, PurseId, Value,
    Weight,
};

fn named(entries: &[(&str, Key)]) -> NamedKeys {
    let mut keys = NamedKeys::new();
    for (name, key) in entries {
        keys.insert(name.to_string(), *key);
    }
    keys
}

fn account(named_keys: NamedKeys) -> Account {
    Account::create(
        [1u8; 32],
        named_keys,
        PurseId::new(URef::new([2u8; 32], AccessRights::ReadAddWrite)),
    )
}

#[test]
fn write_then_add_is_a_write_of_the_sum() {
    let composed = Transform::Write(Value::Int32(5)).compose(Transform::AddInt32(7));
    assert_eq!(composed, Transform::Write(Value::Int32(12)));
    let composed = Transform::Write(Value::UInt512(U512::from_u64(5)))
        .compose(Transform::AddInt512(U512::from_u64(7)));
    assert_eq!(composed, Transform::Write(Value::UInt512(U512::from_u64(12))));
}

#[test]
fn add_then_add_is_an_add_of_the_sum() {
    assert_eq!(Transform::AddInt8(3).compose(Transform::AddInt8(4)), Transform::AddInt8(7));
    assert_eq!(Transform::AddInt16(3).compose(Transform::AddInt16(4)), Transform::AddInt16(7));
    assert_eq!(Transform::AddInt32(3).compose(Transform::AddInt32(4)), Transform::AddInt32(7));
    assert_eq!(Transform::AddInt64(3).compose(Transform::AddInt64(4)), Transform::AddInt64(7));
    assert_eq!(Transform::AddInt128(3).compose(Transform::AddInt128(4)), Transform::AddInt128(7));
    assert_eq!(
        Transform::AddInt256(U256::from_u128(3)).compose(Transform::AddInt256(U256::from_u128(4))),
        Transform::AddInt256(U256::from_u128(7))
    );
    assert_eq!(
        Transform::AddInt512(U512::from_u64(3)).compose(Transform::AddInt512(U512::from_u64(4))),
        Transform::AddInt512(U512::from_u64(7))
    );
}

#[test]
fn sums_wrap_around() {
    assert_eq!(Transform::AddInt8(127).compose(Transform::AddInt8(1)), Transform::AddInt8(-128));
    assert_eq!(Transform::AddInt8(-128).compose(Transform::AddInt8(-1)), Transform::AddInt8(127));
    assert_eq!(
        Transform::AddInt64(i64::MAX).compose(Transform::AddInt64(1)),
        Transform::AddInt64(i64::MIN)
    );
    assert_eq!(
        Transform::AddInt128(u128::MAX).compose(Transform::AddInt128(2)),
        Transform::AddInt128(1)
    );
    assert_eq!(Transform::AddInt32(1).apply(Value::Int32(i32::MAX)), Ok(Value::Int32(i32::MIN)));
    assert_eq!(Transform::AddInt16(-1).apply(Value::Int16(i16::MIN)), Ok(Value::Int16(i16::MAX)));
}

#[test]
fn anything_then_failure_is_failure() {
    let failure = Transform::Failure(TransformError::TypeMismatch);
    assert_eq!(Transform::Identity.compose(failure.clone()), failure);
    assert_eq!(Transform::Write(Value::Int32(1)).compose(failure.clone()), failure);
    assert_eq!(Transform::AddInt32(1).compose(failure.clone()), failure);
    assert_eq!(Transform::AddKeys(NamedKeys::new()).compose(failure.clone()), failure);
    assert_eq!(failure.clone().compose(failure.clone()), failure);
    assert_eq!(failure.clone().compose(Transform::Write(Value::Int32(1))), failure);
    assert_eq!(failure.clone().compose(Transform::AddInt32(1)), failure);
}

#[test]
fn identity_is_the_unit() {
    assert_eq!(Transform::Identity.compose(Transform::AddInt32(1)), Transform::AddInt32(1));
    assert_eq!(Transform::AddInt32(1).compose(Transform::Identity), Transform::AddInt32(1));
    assert_eq!(Transform::Identity.compose(Transform::Identity), Transform::Identity);
    assert_eq!(Transform::Identity.apply(Value::Int32(4)), Ok(Value::Int32(4)));
}

#[test]
fn later_write_wins() {
    assert_eq!(
        Transform::AddInt32(1).compose(Transform::Write(Value::Int64(9))),
        Transform::Write(Value::Int64(9))
    );
    assert_eq!(
        Transform::Write(Value::Int32(1)).compose(Transform::Write(Value::Int32(2))),
        Transform::Write(Value::Int32(2))
    );
}

#[test]
fn additions_of_different_kinds_do_not_compose() {
    let failure = Transform::Failure(TransformError::TypeMismatch);
    assert_eq!(Transform::AddInt32(1).compose(Transform::AddInt64(1)), failure);
    assert_eq!(Transform::AddInt32(1).compose(Transform::AddKeys(NamedKeys::new())), failure);
    assert_eq!(Transform::AddKeys(NamedKeys::new()).compose(Transform::AddInt8(1)), failure);
    assert_eq!(Transform::Write(Value::Int32(1)).compose(Transform::AddInt64(1)), failure);
}

#[test]
fn addition_to_a_value_of_another_type_is_a_mismatch() {
    assert_eq!(Transform::AddInt32(1).apply(Value::Int64(1)), Err(TransformError::TypeMismatch));
    assert_eq!(
        Transform::AddInt512(U512::from_u64(1)).apply(Value::String("x".to_string())),
        Err(TransformError::TypeMismatch)
    );
    assert_eq!(
        Transform::AddKeys(NamedKeys::new()).apply(Value::Int32(1)),
        Err(TransformError::TypeMismatch)
    );
    assert_eq!(
        Transform::Failure(TransformError::TypeMismatch).apply(Value::Int32(1)),
        Err(TransformError::TypeMismatch)
    );
}

#[test]
fn write_replaces_any_value() {
    assert_eq!(
        Transform::Write(Value::ByteArray(vec![1, 2])).apply(Value::Int32(1)),
        Ok(Value::ByteArray(vec![1, 2]))
    );
}

#[test]
fn add_keys_extends_an_account_and_a_contract() {
    let old = Key::Hash([1u8; 32]);
    let new = Key::Hash([2u8; 32]);
    let more = named(&[("b", new), ("a", new)]);
    let result = Transform::AddKeys(more.clone()).apply(Value::Account(account(named(&[("a", old)]))));
    assert_eq!(result, Ok(Value::Account(account(named(&[("a", new), ("b", new)])))));
    let contract = Contract::new(vec![1, 2, 3], named(&[("z", old)]), 4);
    let result = Transform::AddKeys(more).apply(Value::Contract(contract));
    assert_eq!(
        result,
        Ok(Value::Contract(Contract::new(
            vec![1, 2, 3],
            named(&[("z", old), ("b", new), ("a", new)]),
            4
        )))
    );
}

#[test]
fn add_keys_compose_by_extension() {
    let k1 = Key::Hash([1u8; 32]);
    let k2 = Key::Hash([2u8; 32]);
    let composed =
        Transform::AddKeys(named(&[("a", k1)])).compose(Transform::AddKeys(named(&[("b", k2), ("a", k2)])));
    assert_eq!(composed, Transform::AddKeys(named(&[("a", k2), ("b", k2)])));
    let mut base = named(&[("a", k1)]);
    extend_named_keys(&mut base, &named(&[("c", k1)]));
    assert_eq!(base, named(&[("a", k1), ("c", k1)]));
}

#[test]
fn composed_change_does_what_the_two_do_in_turn() {
    let cases = vec![
        (Transform::AddInt32(5), Transform::AddInt32(-7), Value::Int32(100)),
        (Transform::Write(Value::Int32(1)), Transform::AddInt32(2), Value::Int64(0)),
        (Transform::AddInt8(100), Transform::AddInt8(100), Value::Int8(100)),
        (Transform::Identity, Transform::AddInt64(1), Value::Int64(1)),
        (Transform::AddInt64(1), Transform::Write(Value::Int8(3)), Value::Int64(1)),
    ];
    for (first, second, value) in cases {
        let middle = first.clone().apply(value.clone()).unwrap();
        assert_eq!(first.compose(second.clone()).apply(value), second.apply(middle));
    }
}

#[test]
fn ops_join() {
    assert_eq!(Op::Read.join(Op::Read), Op::Read);
    assert_eq!(Op::Add.join(Op::Add), Op::Add);
    assert_eq!(Op::Read.join(Op::Add), Op::Write);
    assert_eq!(Op::Add.join(Op::Read), Op::Write);
    assert_eq!(Op::Write.join(Op::Read), Op::Write);
    assert_eq!(Op::Read.join(Op::Write), Op::Write);
    assert_eq!(Op::NoOp.join(Op::Add), Op::Add);
    assert_eq!(Op::Read.join(Op::NoOp), Op::Read);
    assert_eq!(Op::NoOp.join(Op::NoOp), Op::NoOp);
}

#[test]
fn account_authorization_and_weights() {
    let mut associated = AssociatedKeys::new();
    associated.insert(PublicKey::new([1u8; 32]), Weight::new(2));
    associated.insert(PublicKey::new([2u8; 32]), Weight::new(3));
    associated.insert(PublicKey::new([3u8; 32]), Weight::new(255));
    let account = Account::new(
        [1u8; 32],
        9,
        NamedKeys::new(),
        PurseId::new(URef::new([2u8; 32], AccessRights::ReadAddWrite)),
        associated,
        ActionThresholds { deployment: Weight::new(5), key_management: Weight::new(1) },
    );
    let set = |keys: &[u8]| {
        let mut set = PublicKeySet::new();
        for k in keys {
            set.insert(PublicKey::new([*k; 32]));
        }
        set
    };
    assert!(!account.can_authorize(&set(&[])));
    assert!(account.can_authorize(&set(&[1])));
    assert!(account.can_authorize(&set(&[1, 2, 3])));
    assert!(!account.can_authorize(&set(&[1, 4])));
    assert!(!account.can_deploy_with(&set(&[])));
    assert!(!account.can_deploy_with(&set(&[1])));
    assert!(!account.can_deploy_with(&set(&[2])));
    assert!(account.can_deploy_with(&set(&[1, 2])));
    assert!(account.can_deploy_with(&set(&[3])));
    assert!(account.can_deploy_with(&set(&[1, 2, 3])));
    assert!(!account.can_deploy_with(&set(&[1, 4])));
    assert_eq!(account.nonce(), 9);
    assert_eq!(account.action_thresholds().deployment.value(), 5);
}

#[test]
fn key_set_holds_each_key_once() {
    let mut set = PublicKeySet::new();
    assert!(set.is_empty());
    assert!(set.insert(PublicKey::new([1u8; 32])));
    assert!(!set.insert(PublicKey::new([1u8; 32])));
    assert!(set.insert(PublicKey::new([2u8; 32])));
    assert_eq!(set.len(), 2);
    assert!(set.contains(&PublicKey::new([2u8; 32])));
    assert!(!set.contains(&PublicKey::new([3u8; 32])));
    assert_eq!(set.key_at(0), PublicKey::new([1u8; 32]));
    let copy = set.duplicate();
    assert_eq!(copy.len(), 2);
    assert_eq!(copy.key_at(1), PublicKey::new([2u8; 32]));
}

#[test]
fn fresh_account_has_its_address_as_its_key() {
    let account = account(NamedKeys::new());
    assert_eq!(account.pub_key(), [1u8; 32]);
    assert_eq!(account.nonce(), 0);
    assert_eq!(account.associated_keys().len(), 1);
    assert_eq!(account.associated_keys().get(&PublicKey::new([1u8; 32])), Some(&Weight::new(1)));
    assert_eq!(account.action_thresholds().deployment, Weight::new(1));
    assert_eq!(account.action_thresholds().key_management, Weight::new(1));
    let mut counted = account.clone();
    counted.increment_nonce();
    assert_eq!(counted.nonce(), 1);
    assert_eq!(account.nonce(), 0);
}
