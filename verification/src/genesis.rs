//! The first state of the network: the mint, the proof-of-stake contract
//! with its purses and bonded validators, and the genesis account.

use vstd::prelude::*;
use vstd::string::StringExecFns;

use crate::assoc::{assoc_insert, AssocList};
use crate::execution::{MINT_NAME, POS_NAME};
use crate::execution_effect::{
    lemma_ops_merge_step, lemma_transforms_merge_step, ops_merge, record_op, record_transform,
    transforms_merge, ExecutionEffect, ExecutionEffectView,
};
use crate::global_state::CommitResult;
use crate::key::{AccessRights, Blake2bHash, Key, PublicKey, URef};
use crate::op::Op;
use crate::transform::{Transform, TransformView};
use crate::u512::U512;
use crate::utils::{pos_validator_name, validator_name, WasmiBytes};
use crate::value::{
    Account, AccountView, ActionThresholds, Contract, ContractView, NamedKeys, NamedKeysView,
    NumKind, PurseId, Value, ValueView, Weight,
};

verus! {

/// The name under which the proof-of-stake contract knows the purse that
/// deploys pay into.
pub const POS_PAYMENT_PURSE: &'static str = "pos_payment_purse";

/// The name under which the proof-of-stake contract knows the purse that
/// collects what deploys have paid.
pub const POS_REWARDS_PURSE: &'static str = "pos_rewards_purse";

/// The references of the first state, by the byte that fills their address.
pub const GENESIS_ACCOUNT_PURSE: u8 = 1;

pub const GENESIS_ACCOUNT_BALANCE: u8 = 2;

pub const MINT_PUBLIC_ADDRESS: u8 = 3;

pub const MINT_PRIVATE_ADDRESS: u8 = 4;

pub const POS_PUBLIC_ADDRESS: u8 = 5;

pub const POS_PRIVATE_ADDRESS: u8 = 6;

pub const POS_PAYMENT_PURSE_ADDRESS: u8 = 7;

pub const POS_PAYMENT_BALANCE: u8 = 8;

pub const POS_REWARDS_PURSE_ADDRESS: u8 = 9;

pub const POS_REWARDS_BALANCE: u8 = 10;

/// A reference of the first state: its address is one byte 32 times.
pub open spec fn spec_genesis_uref(fill: u8, access_rights: AccessRights) -> URef {
    URef {
        addr: vstd::array::spec_array_fill_for_copy_type::<u8, 32>(fill),
        access_rights: Some(access_rights),
    }
}

/// A reference of the first state.
pub fn genesis_uref(fill: u8, access_rights: AccessRights) -> (r: URef)
    ensures
        r == spec_genesis_uref(fill, access_rights),
{
    URef::new(vstd::array::array_fill_for_copy_types::<u8, 32>(fill), access_rights)
}

/// The key that stands beside the name of a bonded validator. It names
/// nothing: the name alone records the bond.
pub open spec fn spec_placeholder_key() -> Key {
    Key::Hash(vstd::array::spec_array_fill_for_copy_type::<u8, 32>(0u8))
}

/// The mathematical value of a list of validators and their bonds.
pub open spec fn validators_view(validators: Seq<(PublicKey, U512)>) -> Seq<(PublicKey, nat)> {
    Seq::new(validators.len(), |i: int| (validators[i].0, validators[i].1.value()))
}

/// The named keys that record the bonds of validators, in order.
pub open spec fn spec_validator_keys(validators: Seq<(PublicKey, nat)>) -> NamedKeysView
    decreases validators.len(),
{
    if validators.len() == 0 {
        Seq::empty()
    } else {
        assoc_insert(
            spec_validator_keys(validators.drop_last()),
            validator_name(validators.last().0, validators.last().1),
            spec_placeholder_key(),
        )
    }
}

/// The named keys of the proof-of-stake contract in the first state: the
/// bonds of the validators, the payment purse and the rewards purse.
pub open spec fn spec_pos_named_keys(validators: Seq<(PublicKey, nat)>) -> NamedKeysView {
    assoc_insert(
        assoc_insert(
            spec_validator_keys(validators),
            POS_PAYMENT_PURSE@,
            Key::URef(spec_genesis_uref(POS_PAYMENT_PURSE_ADDRESS, AccessRights::ReadAddWrite)),
        ),
        POS_REWARDS_PURSE@,
        Key::URef(spec_genesis_uref(POS_REWARDS_PURSE_ADDRESS, AccessRights::ReadAddWrite)),
    )
}

/// The named keys of the proof-of-stake contract in the first state.
pub fn pos_named_keys(validators: &Vec<(PublicKey, U512)>) -> (r: NamedKeys)
    ensures
        r@ == spec_pos_named_keys(validators_view(validators@)),
{
    let ghost bonds = validators_view(validators@);
    let mut keys = NamedKeys::new();
    let mut i: usize = 0;
    while i < validators.len()
        invariant
            i <= validators@.len(),
            bonds == validators_view(validators@),
            keys@ == spec_validator_keys(bonds.subrange(0, i as int)),
        decreases validators@.len() - i,
    {
        proof {
            let next = bonds.subrange(0, i + 1);
            assert(next.drop_last() =~= bonds.subrange(0, i as int));
            assert(next.last() == bonds[i as int]);
        }
        let name = pos_validator_name(&validators[i].0, &validators[i].1);
        keys.insert(
            name,
            Key::Hash(vstd::array::array_fill_for_copy_types::<u8, 32>(0u8)),
        );
        i += 1;
    }
    assert(bonds.subrange(0, i as int) =~= bonds);
    keys.insert(
        String::from_str(POS_PAYMENT_PURSE),
        Key::URef(genesis_uref(POS_PAYMENT_PURSE_ADDRESS, AccessRights::ReadAddWrite)),
    );
    keys.insert(
        String::from_str(POS_REWARDS_PURSE),
        Key::URef(genesis_uref(POS_REWARDS_PURSE_ADDRESS, AccessRights::ReadAddWrite)),
    );
    keys
}

/// The genesis account: nonce zero, its main purse, its own address as its
/// one key, and the mint and the proof-of-stake contract under their names.
pub open spec fn spec_genesis_account(genesis_account_addr: [u8; 32]) -> AccountView {
    AccountView {
        addr: genesis_account_addr,
        nonce: 0,
        named_keys: assoc_insert(
            assoc_insert(
                Seq::empty(),
                MINT_NAME@,
                Key::URef(spec_genesis_uref(MINT_PUBLIC_ADDRESS, AccessRights::Read)),
            ),
            POS_NAME@,
            Key::URef(spec_genesis_uref(POS_PUBLIC_ADDRESS, AccessRights::Read)),
        ),
        purse_id: PurseId(spec_genesis_uref(GENESIS_ACCOUNT_PURSE, AccessRights::ReadAddWrite)),
        associated_keys: seq![(PublicKey(genesis_account_addr), Weight(1))],
        action_thresholds: ActionThresholds { deployment: Weight(1), key_management: Weight(1) },
    }
}

/// The key of the mint's record of the balance of a purse.
pub open spec fn spec_balance_slot(purse: u8) -> Key {
    Key::spec_local(
        spec_genesis_uref(MINT_PRIVATE_ADDRESS, AccessRights::ReadAddWrite).addr,
        spec_genesis_uref(purse, AccessRights::ReadAddWrite).addr@,
    )
}

/// What the first state holds, key by key: the mint and the proof-of-stake
/// contract, each behind the reference under which accounts know it; for the
/// main purse of the genesis account, the payment purse and the rewards
/// purse, the mint's record of the balance and the balance; and the genesis
/// account.
pub open spec fn spec_genesis_writes(
    genesis_account_addr: [u8; 32],
    initial_tokens: nat,
    mint_code: Seq<u8>,
    proof_of_stake_code: Seq<u8>,
    validators: Seq<(PublicKey, nat)>,
    protocol_version: u64,
) -> Seq<(Key, ValueView)> {
    seq![
        (
            Key::URef(spec_genesis_uref(MINT_PUBLIC_ADDRESS, AccessRights::Read)),
            ValueView::Key(
                Key::URef(spec_genesis_uref(MINT_PRIVATE_ADDRESS, AccessRights::ReadAddWrite)),
            ),
        ),
        (
            Key::URef(spec_genesis_uref(MINT_PRIVATE_ADDRESS, AccessRights::ReadAddWrite)),
            ValueView::Contract(
                ContractView { bytes: mint_code, named_keys: Seq::empty(), protocol_version },
            ),
        ),
        (
            Key::URef(spec_genesis_uref(POS_PUBLIC_ADDRESS, AccessRights::Read)),
            ValueView::Key(
                Key::URef(spec_genesis_uref(POS_PRIVATE_ADDRESS, AccessRights::ReadAddWrite)),
            ),
        ),
        (
            Key::URef(spec_genesis_uref(POS_PRIVATE_ADDRESS, AccessRights::ReadAddWrite)),
            ValueView::Contract(
                ContractView {
                    bytes: proof_of_stake_code,
                    named_keys: spec_pos_named_keys(validators),
                    protocol_version,
                },
            ),
        ),
        (
            spec_balance_slot(GENESIS_ACCOUNT_PURSE),
            ValueView::Key(
                Key::URef(spec_genesis_uref(GENESIS_ACCOUNT_BALANCE, AccessRights::ReadAddWrite)),
            ),
        ),
        (
            Key::URef(spec_genesis_uref(GENESIS_ACCOUNT_BALANCE, AccessRights::ReadAddWrite)),
            ValueView::Num(NumKind::U512, initial_tokens as int),
        ),
        (
            spec_balance_slot(POS_PAYMENT_PURSE_ADDRESS),
            ValueView::Key(
                Key::URef(spec_genesis_uref(POS_PAYMENT_BALANCE, AccessRights::ReadAddWrite)),
            ),
        ),
        (
            Key::URef(spec_genesis_uref(POS_PAYMENT_BALANCE, AccessRights::ReadAddWrite)),
            ValueView::Num(NumKind::U512, 0),
        ),
        (
            spec_balance_slot(POS_REWARDS_PURSE_ADDRESS),
            ValueView::Key(
                Key::URef(spec_genesis_uref(POS_REWARDS_BALANCE, AccessRights::ReadAddWrite)),
            ),
        ),
        (
            Key::URef(spec_genesis_uref(POS_REWARDS_BALANCE, AccessRights::ReadAddWrite)),
            ValueView::Num(NumKind::U512, 0),
        ),
        (
            Key::Account(genesis_account_addr),
            ValueView::Account(spec_genesis_account(genesis_account_addr)),
        ),
    ]
}

/// The mathematical value of a list of values to write.
pub open spec fn writes_view(writes: Seq<(Key, Value)>) -> Seq<(Key, ValueView)> {
    Seq::new(writes.len(), |i: int| (writes[i].0, writes[i].1@))
}

/// The effect of writing values under keys, in order: under its stored form,
/// each key is written.
pub open spec fn spec_effect_of_writes(writes: Seq<(Key, ValueView)>) -> ExecutionEffectView {
    ExecutionEffectView {
        ops: ops_merge(
            Seq::empty(),
            Seq::new(writes.len(), |i: int| (writes[i].0.spec_normalize(), Op::Write)),
        ),
        transforms: transforms_merge(
            Seq::empty(),
            Seq::new(
                writes.len(),
                |i: int| (writes[i].0.spec_normalize(), TransformView::Write(writes[i].1)),
            ),
        ),
    }
}

/// The effect of writing values under keys, in order.
pub fn effect_of_writes(writes: Vec<(Key, Value)>) -> (r: ExecutionEffect)
    ensures
        r@ == spec_effect_of_writes(writes_view(writes@)),
{
    let ghost view = writes_view(writes@);
    let ghost op_list = Seq::new(view.len(), |i: int| (view[i].0.spec_normalize(), Op::Write));
    let ghost transform_list = Seq::new(
        view.len(),
        |i: int| (view[i].0.spec_normalize(), TransformView::Write(view[i].1)),
    );
    let mut ops: AssocList<Key, Op> = AssocList::new();
    let mut transforms: AssocList<Key, Transform> = AssocList::new();
    let mut writes = writes;
    let ghost all = writes@;
    let mut done: usize = 0;
    let total = writes.len();
    let mut rest: Vec<(Key, Value)> = Vec::new();
    while writes.len() > 0
        invariant
            rest@.len() + writes@.len() == all.len(),
            forall|i: int| 0 <= i < writes@.len() ==> #[trigger] writes@[i] == all[i],
            forall|i: int|
                0 <= i < rest@.len() ==> #[trigger] rest@[i] == all[all.len() - 1 - i],
        decreases writes@.len(),
    {
        let last = writes.pop().unwrap();
        rest.push(last);
    }
    while rest.len() > 0
        invariant
            done + rest@.len() == all.len(),
            all.len() == total,
            view == writes_view(all),
            op_list == Seq::new(view.len(), |i: int| (view[i].0.spec_normalize(), Op::Write)),
            transform_list == Seq::new(
                view.len(),
                |i: int| (view[i].0.spec_normalize(), TransformView::Write(view[i].1)),
            ),
            forall|i: int|
                0 <= i < rest@.len() ==> #[trigger] rest@[i] == all[all.len() - 1 - i],
            ops@ == ops_merge(Seq::empty(), op_list.subrange(0, done as int)),
            transforms@ == transforms_merge(Seq::empty(), transform_list.subrange(0, done as int)),
        decreases rest@.len(),
    {
        let ghost at = done as int;
        assert(rest@[rest@.len() - 1] == all[at]);
        let (key, value) = rest.pop().unwrap();
        proof {
            lemma_ops_merge_step(Seq::empty(), op_list, at);
            lemma_transforms_merge_step(Seq::empty(), transform_list, at);
        }
        let stored = key.normalize();
        record_op(&mut ops, stored, Op::Write);
        record_transform(&mut transforms, stored, Transform::Write(value));
        done += 1;
    }
    assert(op_list.subrange(0, done as int) =~= op_list);
    assert(transform_list.subrange(0, done as int) =~= transform_list);
    ExecutionEffect::new(ops, transforms)
}

/// The effect that makes the first state out of the state that holds
/// nothing.
pub open spec fn spec_genesis_effect(
    genesis_account_addr: [u8; 32],
    initial_tokens: nat,
    mint_code: Seq<u8>,
    proof_of_stake_code: Seq<u8>,
    validators: Seq<(PublicKey, nat)>,
    protocol_version: u64,
) -> ExecutionEffectView {
    spec_effect_of_writes(
        spec_genesis_writes(
            genesis_account_addr,
            initial_tokens,
            mint_code,
            proof_of_stake_code,
            validators,
            protocol_version,
        ),
    )
}

/// The key of the mint's record of the balance of a purse.
fn balance_slot(purse: u8) -> (r: Key)
    ensures
        r == spec_balance_slot(purse),
{
    let mint = genesis_uref(MINT_PRIVATE_ADDRESS, AccessRights::ReadAddWrite);
    let purse_addr = genesis_uref(purse, AccessRights::ReadAddWrite).addr();
    Key::local(mint.addr(), purse_addr.as_slice())
}

/// The effect that makes the first state out of the state that holds
/// nothing.
pub fn create_genesis_effects(
    genesis_account_addr: [u8; 32],
    initial_tokens: U512,
    mint_code: WasmiBytes,
    proof_of_stake_code: WasmiBytes,
    genesis_validators: Vec<(PublicKey, U512)>,
    protocol_version: u64,
) -> (r: ExecutionEffect)
    ensures
        r@ == spec_genesis_effect(
            genesis_account_addr,
            initial_tokens.value(),
            mint_code@,
            proof_of_stake_code@,
            validators_view(genesis_validators@),
            protocol_version,
        ),
{
    let ghost mint_bytes = mint_code@;
    let ghost pos_bytes = proof_of_stake_code@;
    let mint_public = genesis_uref(MINT_PUBLIC_ADDRESS, AccessRights::Read);
    let mint_private = genesis_uref(MINT_PRIVATE_ADDRESS, AccessRights::ReadAddWrite);
    let pos_public = genesis_uref(POS_PUBLIC_ADDRESS, AccessRights::Read);
    let pos_private = genesis_uref(POS_PRIVATE_ADDRESS, AccessRights::ReadAddWrite);
    let account_purse = genesis_uref(GENESIS_ACCOUNT_PURSE, AccessRights::ReadAddWrite);
    let mut account_keys = NamedKeys::new();
    account_keys.insert(String::from_str(MINT_NAME), Key::URef(mint_public));
    account_keys.insert(String::from_str(POS_NAME), Key::URef(pos_public));
    let account = Account::create(genesis_account_addr, account_keys, PurseId::new(account_purse));
    let mut writes: Vec<(Key, Value)> = Vec::new();
    writes.push((Key::URef(mint_public), Value::Key(Key::URef(mint_private))));
    writes.push(
        (
            Key::URef(mint_private),
            Value::Contract(
                Contract::new(mint_code.into_bytes(), NamedKeys::new(), protocol_version),
            ),
        ),
    );
    writes.push((Key::URef(pos_public), Value::Key(Key::URef(pos_private))));
    writes.push(
        (
            Key::URef(pos_private),
            Value::Contract(
                Contract::new(
                    proof_of_stake_code.into_bytes(),
                    pos_named_keys(&genesis_validators),
                    protocol_version,
                ),
            ),
        ),
    );
    writes.push(
        (
            balance_slot(GENESIS_ACCOUNT_PURSE),
            Value::Key(
                Key::URef(genesis_uref(GENESIS_ACCOUNT_BALANCE, AccessRights::ReadAddWrite)),
            ),
        ),
    );
    writes.push(
        (
            Key::URef(genesis_uref(GENESIS_ACCOUNT_BALANCE, AccessRights::ReadAddWrite)),
            Value::UInt512(initial_tokens),
        ),
    );
    writes.push(
        (
            balance_slot(POS_PAYMENT_PURSE_ADDRESS),
            Value::Key(Key::URef(genesis_uref(POS_PAYMENT_BALANCE, AccessRights::ReadAddWrite))),
        ),
    );
    writes.push(
        (
            Key::URef(genesis_uref(POS_PAYMENT_BALANCE, AccessRights::ReadAddWrite)),
            Value::UInt512(U512::zero()),
        ),
    );
    writes.push(
        (
            balance_slot(POS_REWARDS_PURSE_ADDRESS),
            Value::Key(Key::URef(genesis_uref(POS_REWARDS_BALANCE, AccessRights::ReadAddWrite))),
        ),
    );
    writes.push(
        (
            Key::URef(genesis_uref(POS_REWARDS_BALANCE, AccessRights::ReadAddWrite)),
            Value::UInt512(U512::zero()),
        ),
    );
    writes.push((Key::Account(genesis_account_addr), Value::Account(account)));
    assert(writes_view(writes@) =~= spec_genesis_writes(
        genesis_account_addr,
        initial_tokens.value(),
        mint_bytes,
        pos_bytes,
        validators_view(genesis_validators@),
        protocol_version,
    ));
    effect_of_writes(writes)
}

/// How the making of the first state ended.
#[derive(Debug, PartialEq, Eq)]
pub enum GenesisResult {
    /// The store does not know the state that holds nothing.
    RootNotFound,
    /// A change other than a write was to be made to a key without a value.
    KeyNotFound(Key),
    /// A change cannot be made to the value that its key holds.
    TypeMismatch,
    /// The first state was made: its digest, and the effect that made it.
    Success { post_state_hash: Blake2bHash, effect: ExecutionEffect },
}

impl GenesisResult {
    /// How the making of the first state ended, from what the store
    /// answered to the commit and the effect that was committed: the error
    /// of the store where it failed, else what `from_commit_result` gives.
    pub fn from_commit(
        answer: Result<CommitResult, crate::error::StorageError>,
        effect: ExecutionEffect,
    ) -> (r: Result<GenesisResult, crate::error::Error>)
        ensures
            match answer {
                Err(error) => r matches Err(e) && e == crate::error::Error::StorageError(error),
                Ok(CommitResult::RootNotFound) => r matches Ok(GenesisResult::RootNotFound),
                Ok(CommitResult::KeyNotFound(key)) => r matches Ok(GenesisResult::KeyNotFound(k))
                    && k == key,
                Ok(CommitResult::TypeMismatch) => r matches Ok(GenesisResult::TypeMismatch),
                Ok(CommitResult::Success { state_root }) => r matches Ok(
                    GenesisResult::Success { post_state_hash, effect: e },
                ) && post_state_hash == state_root && e@ == effect@,
            },
    {
        match answer {
            Ok(commit_result) => Ok(GenesisResult::from_commit_result(commit_result, effect)),
            Err(error) => Err(crate::error::Error::StorageError(error)),
        }
    }

    /// How the making of the first state ended, from how the commit ended
    /// and the effect that was committed.
    pub fn from_commit_result(commit_result: CommitResult, effect: ExecutionEffect) -> (r:
        GenesisResult)
        ensures
            match commit_result {
                CommitResult::RootNotFound => r is RootNotFound,
                CommitResult::KeyNotFound(key) => r matches GenesisResult::KeyNotFound(k) && k
                    == key,
                CommitResult::TypeMismatch => r is TypeMismatch,
                CommitResult::Success { state_root } => r matches GenesisResult::Success {
                    post_state_hash,
                    effect: e,
                } && post_state_hash == state_root && e@ == effect@,
            },
    {
        match commit_result {
            CommitResult::RootNotFound => GenesisResult::RootNotFound,
            CommitResult::KeyNotFound(key) => GenesisResult::KeyNotFound(key),
            CommitResult::TypeMismatch => GenesisResult::TypeMismatch,
            CommitResult::Success { state_root } => GenesisResult::Success {
                post_state_hash: state_root,
                effect,
            },
        }
    }
}

/// The names of two bonded validators are the same only where the
/// validators and the bonds are.
pub proof fn lemma_validator_names_differ(
    first: (PublicKey, nat),
    second: (PublicKey, nat),
)
    requires
        first.1 < crate::u512::u512_modulus(),
        second.1 < crate::u512::u512_modulus(),
        validator_name(first.0, first.1) == validator_name(second.0, second.1),
    ensures
        first == second,
{
    crate::utils::lemma_validator_name_round_trip(first.0, first.1);
    crate::utils::lemma_validator_name_round_trip(second.0, second.1);
}

/// The bonds of validators with different public keys are recorded one name
/// after the other.
pub proof fn lemma_validator_keys(validators: Seq<(PublicKey, nat)>)
    requires
        forall|i: int| 0 <= i < validators.len() ==> (#[trigger] validators[i]).1
            < crate::u512::u512_modulus(),
        forall|i: int, j: int|
            0 <= i < j < validators.len() ==> (#[trigger] validators[i]).0 != (
            #[trigger] validators[j]).0,
    ensures
        spec_validator_keys(validators) == Seq::new(
            validators.len(),
            |i: int| (validator_name(validators[i].0, validators[i].1), spec_placeholder_key()),
        ),
    decreases validators.len(),
{
    let names = Seq::new(
        validators.len(),
        |i: int| (validator_name(validators[i].0, validators[i].1), spec_placeholder_key()),
    );
    if validators.len() == 0 {
        assert(spec_validator_keys(validators) =~= names);
    } else {
        let front = validators.drop_last();
        let last = validators.last();
        let n = front.len() as int;
        assert forall|i: int| 0 <= i < front.len() implies (#[trigger] front[i]).1
            < crate::u512::u512_modulus() by {
            assert(front[i] == validators[i]);
        }
        assert forall|i: int, j: int| 0 <= i < j < front.len() implies (#[trigger] front[i]).0 != (
        #[trigger] front[j]).0 by {
            assert(front[i] == validators[i]);
            assert(front[j] == validators[j]);
        }
        lemma_validator_keys(front);
        let earlier = spec_validator_keys(front);
        let name = validator_name(last.0, last.1);
        assert forall|j: int| 0 <= j < earlier.len() implies (#[trigger] earlier[j]).0 != name by {
            assert(front[j] == validators[j]);
            assert(validators[j].0 != validators[n].0);
            if earlier[j].0 == name {
                lemma_validator_names_differ(validators[j], last);
            }
        }
        crate::assoc::lemma_assoc_absent(earlier, name);
        assert(spec_validator_keys(validators) =~= names) by {
            assert forall|i: int| 0 <= i < n implies earlier[i] == names[i] by {
                assert(front[i] == validators[i]);
            }
        }
    }
}

/// The first state records its validators so that they are read back: where
/// the validators have different public keys, the names that the
/// proof-of-stake contract holds for them stand for just these validators
/// with their bonds, in order.
pub proof fn lemma_genesis_validators_are_read_back(validators: Seq<(PublicKey, nat)>)
    requires
        forall|i: int| 0 <= i < validators.len() ==> (#[trigger] validators[i]).1
            < crate::u512::u512_modulus(),
        forall|i: int, j: int|
            0 <= i < j < validators.len() ==> (#[trigger] validators[i]).0 != (
            #[trigger] validators[j]).0,
    ensures
        crate::engine_state::spec_bonded_validators(spec_pos_named_keys(validators))
            == validators,
{
    reveal_strlit("pos_payment_purse");
    reveal_strlit("pos_rewards_purse");
    lemma_validator_keys(validators);
    let recorded = spec_validator_keys(validators);
    let payment = POS_PAYMENT_PURSE@;
    let rewards = POS_REWARDS_PURSE@;
    assert(payment[0] == 'p' && rewards[0] == 'p' && payment[4] == 'p' && rewards[4] == 'r');
    assert forall|j: int| 0 <= j < recorded.len() implies (#[trigger] recorded[j]).0 != payment
        && recorded[j].0 != rewards by {
        assert(recorded[j].0[0] == 'v');
    }
    crate::assoc::lemma_assoc_absent(recorded, payment);
    let with_payment = recorded.push(
        (payment, Key::URef(spec_genesis_uref(POS_PAYMENT_PURSE_ADDRESS, AccessRights::ReadAddWrite))),
    );
    assert forall|j: int| 0 <= j < with_payment.len() implies (#[trigger] with_payment[j]).0
        != rewards by {
        if j < recorded.len() {
            assert(with_payment[j] == recorded[j]);
        }
    }
    crate::assoc::lemma_assoc_absent(with_payment, rewards);
    let all = spec_pos_named_keys(validators);
    assert(all =~= with_payment.push(
        (rewards, Key::URef(spec_genesis_uref(POS_REWARDS_PURSE_ADDRESS, AccessRights::ReadAddWrite))),
    ));
    assert(all.drop_last() =~= with_payment);
    assert(with_payment.drop_last() =~= recorded);
    assert(crate::utils::parse_validator_name(rewards).is_none());
    assert(crate::utils::parse_validator_name(payment).is_none());
    assert(crate::engine_state::spec_bonded_validators(all)
        == crate::engine_state::spec_bonded_validators(with_payment));
    assert(crate::engine_state::spec_bonded_validators(with_payment)
        == crate::engine_state::spec_bonded_validators(recorded));
    lemma_recorded_validators_are_read_back(validators);
}

/// The names that record validators with different public keys stand for
/// just these validators with their bonds, in order.
pub proof fn lemma_recorded_validators_are_read_back(validators: Seq<(PublicKey, nat)>)
    requires
        forall|i: int| 0 <= i < validators.len() ==> (#[trigger] validators[i]).1
            < crate::u512::u512_modulus(),
        forall|i: int, j: int|
            0 <= i < j < validators.len() ==> (#[trigger] validators[i]).0 != (
            #[trigger] validators[j]).0,
    ensures
        crate::engine_state::spec_bonded_validators(spec_validator_keys(validators))
            == validators,
    decreases validators.len(),
{
    lemma_validator_keys(validators);
    let recorded = spec_validator_keys(validators);
    if validators.len() == 0 {
        assert(crate::engine_state::spec_bonded_validators(recorded) =~= validators);
    } else {
        let front = validators.drop_last();
        let last = validators.last();
        let n = front.len() as int;
        assert forall|i: int| 0 <= i < front.len() implies (#[trigger] front[i]).1
            < crate::u512::u512_modulus() by {
            assert(front[i] == validators[i]);
        }
        assert forall|i: int, j: int| 0 <= i < j < front.len() implies (#[trigger] front[i]).0 != (
        #[trigger] front[j]).0 by {
            assert(front[i] == validators[i]);
            assert(front[j] == validators[j]);
        }
        lemma_validator_keys(front);
        lemma_recorded_validators_are_read_back(front);
        assert(recorded.drop_last() =~= spec_validator_keys(front)) by {
            assert forall|i: int| 0 <= i < n implies recorded.drop_last()[i]
                == spec_validator_keys(front)[i] by {
                assert(front[i] == validators[i]);
            }
        }
        assert(recorded.last().0 == validator_name(last.0, last.1));
        crate::utils::lemma_validator_name_round_trip(last.0, last.1);
        assert forall|j: int| 0 <= j < front.len() implies (#[trigger] front[j]).0 != last.0 by {
            assert(front[j] == validators[j]);
            assert(validators[j].0 != validators[n].0);
        }
        crate::assoc::lemma_assoc_absent(front, last.0);
        assert(front.push(last) =~= validators);
    }
}

/// The effect of writing values is made of writes alone.
pub proof fn lemma_effect_of_writes_are_writes(writes: Seq<(Key, ValueView)>)
    ensures
        crate::global_state::all_writes(spec_effect_of_writes(writes).transforms),
{
    let list = Seq::new(
        writes.len(),
        |i: int| (writes[i].0.spec_normalize(), TransformView::Write(writes[i].1)),
    );
    crate::execution_effect::lemma_writes_merge(Seq::empty(), list);
}

/// The effect of writing values can be committed to any state.
pub proof fn lemma_effect_of_writes_commits(
    state: Map<Key, ValueView>,
    writes: Seq<(Key, ValueView)>,
)
    ensures
        crate::global_state::commit_state(
            state,
            spec_effect_of_writes(writes).transforms,
        ).is_some(),
{
    let list = Seq::new(
        writes.len(),
        |i: int| (writes[i].0.spec_normalize(), TransformView::Write(writes[i].1)),
    );
    crate::execution_effect::lemma_writes_merge(Seq::empty(), list);
    crate::global_state::lemma_writes_commit(state, spec_effect_of_writes(writes).transforms);
}

} // verus!
