//! What global state holds: numbers, bytes, keys, accounts and contracts.

use vstd::prelude::*;

use crate::assoc::{assoc_get, assoc_has, AssocList, Duplicate};
use crate::key::{Key, PublicKey, URef};
use crate::u256::{u256_modulus, U256};
use crate::u512::{u512_modulus, U512};

verus! {

/// The names under which an account or a contract knows keys.
pub type NamedKeys = AssocList<String, Key>;

/// The mathematical value of a set of named keys.
pub type NamedKeysView = Seq<(Seq<char>, Key)>;

/// The weight of a public key in an authorization.
#[derive(Clone, Copy, Debug, PartialEq, Eq, Structural)]
pub struct Weight(pub u8);

impl Weight {
    /// The weight with the given value.
    pub fn new(weight: u8) -> (r: Weight)
        ensures
            r == Weight(weight),
    {
        Weight(weight)
    }

    /// The value of the weight.
    pub fn value(&self) -> (r: u8)
        ensures
            r == self.0,
    {
        self.0
    }
}

impl View for Weight {
    type V = Weight;

    open spec fn view(&self) -> Weight {
        *self
    }
}

impl Duplicate for Weight {
    fn duplicate(&self) -> (r: Self) {
        *self
    }
}

/// The public keys that may act for an account, each with its weight.
pub type AssociatedKeys = AssocList<PublicKey, Weight>;

/// A reference whose referent holds a balance.
#[derive(Clone, Copy, Debug, PartialEq, Eq)]
pub struct PurseId(pub URef);

impl PurseId {
    /// The purse behind a reference.
    pub fn new(uref: URef) -> (r: PurseId)
        ensures
            r == PurseId(uref),
    {
        PurseId(uref)
    }

    /// The reference of the purse.
    pub fn value(&self) -> (r: URef)
        ensures
            r == self.0,
    {
        self.0
    }
}

/// The total weights that an account asks of the keys that sign for it.
#[derive(Clone, Copy, Debug, PartialEq, Eq, Structural)]
pub struct ActionThresholds {
    /// The weight needed to deploy.
    pub deployment: Weight,
    /// The weight needed to change the account's keys.
    pub key_management: Weight,
}

/// A set of public keys, such as the keys that signed a deploy.
#[derive(Debug)]
pub struct PublicKeySet {
    keys: Vec<PublicKey>,
}

impl View for PublicKeySet {
    type V = Seq<PublicKey>;

    closed spec fn view(&self) -> Seq<PublicKey> {
        self.keys@
    }
}

impl PublicKeySet {
    /// No key occurs twice.
    #[verifier::type_invariant]
    pub closed spec fn distinct(self) -> bool {
        forall|i: int, j: int| 0 <= i < j < self.keys@.len() ==> self.keys@[i] != self.keys@[j]
    }

    /// The empty set.
    pub fn new() -> (r: Self)
        ensures
            r@ == Seq::<PublicKey>::empty(),
    {
        PublicKeySet { keys: Vec::new() }
    }

    /// The number of keys.
    pub fn len(&self) -> (r: usize)
        ensures
            r == self@.len(),
    {
        self.keys.len()
    }

    /// Whether the set is empty.
    pub fn is_empty(&self) -> (r: bool)
        ensures
            r == (self@.len() == 0),
    {
        self.keys.len() == 0
    }

    /// The key at a place.
    pub fn key_at(&self, i: usize) -> (r: PublicKey)
        requires
            i < self@.len(),
        ensures
            r == self@[i as int],
    {
        self.keys[i]
    }

    /// Whether the key is in the set.
    pub fn contains(&self, key: &PublicKey) -> (r: bool)
        ensures
            r == self@.contains(*key),
    {
        let mut i: usize = 0;
        while i < self.keys.len()
            invariant
                i <= self.keys@.len(),
                forall|j: int| 0 <= j < i ==> self.keys@[j] != *key,
            decreases self.keys@.len() - i,
        {
            if self.keys[i] == *key {
                return true;
            }
            i += 1;
        }
        false
    }

    /// Puts a key into the set; says whether it was new.
    pub fn insert(&mut self, key: PublicKey) -> (r: bool)
        ensures
            r == !old(self)@.contains(key),
            final(self)@ == if r {
                old(self)@.push(key)
            } else {
                old(self)@
            },
    {
        if self.contains(&key) {
            false
        } else {
            proof {
                use_type_invariant(&*self);
            }
            let mut keys: Vec<PublicKey> = Vec::new();
            core::mem::swap(&mut self.keys, &mut keys);
            keys.push(key);
            self.keys = keys;
            true
        }
    }

    /// A copy of the set.
    pub fn duplicate(&self) -> (r: Self)
        ensures
            r@ == self@,
    {
        proof {
            use_type_invariant(self);
        }
        let mut keys: Vec<PublicKey> = Vec::new();
        let mut i: usize = 0;
        while i < self.keys.len()
            invariant
                i <= self.keys@.len(),
                keys@ == self.keys@.subrange(0, i as int),
            decreases self.keys@.len() - i,
        {
            keys.push(self.keys[i]);
            assert(keys@ =~= self.keys@.subrange(0, i + 1));
            i += 1;
        }
        assert(keys@ =~= self.keys@);
        PublicKeySet { keys }
    }
}

/// The sum of the weights that an account gives to the keys of a list; a key
/// that the account does not know counts nothing.
pub open spec fn total_weight(associated: Seq<(PublicKey, Weight)>, keys: Seq<PublicKey>) -> nat
    decreases keys.len(),
{
    if keys.len() == 0 {
        0
    } else {
        total_weight(associated, keys.drop_last()) + match assoc_get(associated, keys.last()) {
            Some(weight) => weight.0 as nat,
            None => 0,
        }
    }
}

/// An account in global state.
#[derive(Debug, PartialEq, Eq)]
pub struct Account {
    /// The address of the account.
    pub addr: [u8; 32],
    /// The number of deploys that the account has made.
    pub nonce: u64,
    /// The keys that the account knows by name.
    pub named_keys: NamedKeys,
    /// The purse that holds the account's tokens.
    pub purse_id: PurseId,
    /// The keys that may act for the account.
    pub associated_keys: AssociatedKeys,
    /// The weights that actions need.
    pub action_thresholds: ActionThresholds,
}

/// The mathematical value of an account.
pub struct AccountView {
    pub addr: [u8; 32],
    pub nonce: u64,
    pub named_keys: NamedKeysView,
    pub purse_id: PurseId,
    pub associated_keys: Seq<(PublicKey, Weight)>,
    pub action_thresholds: ActionThresholds,
}

impl AccountView {
    /// Whether the keys may act for the account at all: there is at least
    /// one, and the account knows each of them.
    pub open spec fn can_authorize(self, keys: Seq<PublicKey>) -> bool {
        &&& keys.len() > 0
        &&& forall|i: int| 0 <= i < keys.len() ==> assoc_has(self.associated_keys, #[trigger] keys[i])
    }

    /// Whether the keys together weigh enough to deploy.
    pub open spec fn can_deploy_with(self, keys: Seq<PublicKey>) -> bool {
        total_weight(self.associated_keys, keys) >= self.action_thresholds.deployment.0
    }
}

impl View for Account {
    type V = AccountView;

    open spec fn view(&self) -> AccountView {
        AccountView {
            addr: self.addr,
            nonce: self.nonce,
            named_keys: self.named_keys@,
            purse_id: self.purse_id,
            associated_keys: self.associated_keys@,
            action_thresholds: self.action_thresholds,
        }
    }
}

impl Account {
    /// An account with the given parts.
    pub fn new(
        addr: [u8; 32],
        nonce: u64,
        named_keys: NamedKeys,
        purse_id: PurseId,
        associated_keys: AssociatedKeys,
        action_thresholds: ActionThresholds,
    ) -> (r: Account)
        ensures
            r@ == (AccountView {
                addr,
                nonce,
                named_keys: named_keys@,
                purse_id,
                associated_keys: associated_keys@,
                action_thresholds,
            }),
    {
        Account { addr, nonce, named_keys, purse_id, associated_keys, action_thresholds }
    }

    /// A fresh account: nonce zero, its own address as its one key with
    /// weight one, and thresholds of one.
    pub fn create(addr: [u8; 32], named_keys: NamedKeys, purse_id: PurseId) -> (r: Account)
        ensures
            r@ == (AccountView {
                addr,
                nonce: 0,
                named_keys: named_keys@,
                purse_id,
                associated_keys: seq![(PublicKey(addr), Weight(1))],
                action_thresholds: ActionThresholds {
                    deployment: Weight(1),
                    key_management: Weight(1),
                },
            }),
    {
        let mut associated_keys = AssociatedKeys::new();
        associated_keys.insert(PublicKey(addr), Weight(1));
        proof {
            crate::assoc::lemma_assoc_absent(Seq::<(PublicKey, Weight)>::empty(), PublicKey(addr));
            assert(associated_keys@ =~= seq![(PublicKey(addr), Weight(1))]);
        }
        Account {
            addr,
            nonce: 0,
            named_keys,
            purse_id,
            associated_keys,
            action_thresholds: ActionThresholds {
                deployment: Weight(1),
                key_management: Weight(1),
            },
        }
    }

    /// The address of the account.
    pub fn pub_key(&self) -> (r: [u8; 32])
        ensures
            r == self@.addr,
    {
        self.addr
    }

    /// The number of deploys that the account has made.
    pub fn nonce(&self) -> (r: u64)
        ensures
            r == self@.nonce,
    {
        self.nonce
    }

    /// The keys that the account knows by name.
    pub fn urefs_lookup(&self) -> (r: &NamedKeys)
        ensures
            r@ == self@.named_keys,
    {
        &self.named_keys
    }

    /// The purse that holds the account's tokens.
    pub fn purse_id(&self) -> (r: PurseId)
        ensures
            r == self@.purse_id,
    {
        self.purse_id
    }

    /// The keys that may act for the account.
    pub fn associated_keys(&self) -> (r: &AssociatedKeys)
        ensures
            r@ == self@.associated_keys,
    {
        &self.associated_keys
    }

    /// The weights that actions need.
    pub fn action_thresholds(&self) -> (r: ActionThresholds)
        ensures
            r == self@.action_thresholds,
    {
        self.action_thresholds
    }

    /// Whether the keys may act for the account at all.
    pub fn can_authorize(&self, keys: &PublicKeySet) -> (r: bool)
        ensures
            r == self@.can_authorize(keys@),
    {
        if keys.is_empty() {
            return false;
        }
        let mut i: usize = 0;
        while i < keys.len()
            invariant
                i <= keys@.len(),
                forall|j: int|
                    0 <= j < i ==> assoc_has(self.associated_keys@, #[trigger] keys@[j]),
            decreases keys@.len() - i,
        {
            let key = keys.key_at(i);
            if !self.associated_keys.contains_key(&key) {
                return false;
            }
            i += 1;
        }
        true
    }

    /// Whether the keys together weigh enough to deploy.
    pub fn can_deploy_with(&self, keys: &PublicKeySet) -> (r: bool)
        ensures
            r == self@.can_deploy_with(keys@),
    {
        let mut total: u128 = 0;
        let mut i: usize = 0;
        while i < keys.len()
            invariant
                i <= keys@.len(),
                total == total_weight(self.associated_keys@, keys@.subrange(0, i as int)),
                total <= 255 * i,
            decreases keys@.len() - i,
        {
            let key = keys.key_at(i);
            let weight: u8 = match self.associated_keys.get(&key) {
                Some(weight) => weight.0,
                None => 0,
            };
            proof {
                let next = keys@.subrange(0, i + 1);
                assert(next.drop_last() =~= keys@.subrange(0, i as int));
                assert(next.last() == key);
            }
            total = total + weight as u128;
            i += 1;
        }
        assert(keys@.subrange(0, i as int) =~= keys@);
        total >= self.action_thresholds.deployment.0 as u128
    }

    /// Counts one more deploy, where the counter has room.
    pub fn increment_nonce(&mut self)
        requires
            old(self).nonce < u64::MAX,
        ensures
            final(self)@ == (AccountView { nonce: (old(self).nonce + 1) as u64, ..old(self)@ }),
    {
        self.nonce = self.nonce + 1;
    }
}

impl Duplicate for Account {
    fn duplicate(&self) -> (r: Self) {
        Account {
            addr: self.addr,
            nonce: self.nonce,
            named_keys: self.named_keys.duplicate(),
            purse_id: self.purse_id,
            associated_keys: self.associated_keys.duplicate(),
            action_thresholds: self.action_thresholds,
        }
    }
}

impl Clone for Account {
    fn clone(&self) -> (r: Self)
        ensures
            r@ == self@,
    {
        self.duplicate()
    }
}

/// A stored contract.
#[derive(Debug, PartialEq, Eq)]
pub struct Contract {
    /// The code of the contract.
    pub bytes: Vec<u8>,
    /// The keys that the contract knows by name.
    pub named_keys: NamedKeys,
    /// The protocol version under which the contract was stored.
    pub protocol_version: u64,
}

/// The mathematical value of a contract.
pub struct ContractView {
    pub bytes: Seq<u8>,
    pub named_keys: NamedKeysView,
    pub protocol_version: u64,
}

impl View for Contract {
    type V = ContractView;

    open spec fn view(&self) -> ContractView {
        ContractView {
            bytes: self.bytes@,
            named_keys: self.named_keys@,
            protocol_version: self.protocol_version,
        }
    }
}

/// A copy of a byte string.
pub fn copy_bytes(bytes: &Vec<u8>) -> (r: Vec<u8>)
    ensures
        r@ == bytes@,
{
    let mut out: Vec<u8> = Vec::new();
    let mut i: usize = 0;
    while i < bytes.len()
        invariant
            i <= bytes@.len(),
            out@ == bytes@.subrange(0, i as int),
        decreases bytes@.len() - i,
    {
        out.push(bytes[i]);
        assert(out@ =~= bytes@.subrange(0, i + 1));
        i += 1;
    }
    assert(out@ =~= bytes@);
    out
}

impl Contract {
    /// A contract with the given parts.
    pub fn new(bytes: Vec<u8>, named_keys: NamedKeys, protocol_version: u64) -> (r: Contract)
        ensures
            r@ == (ContractView { bytes: bytes@, named_keys: named_keys@, protocol_version }),
    {
        Contract { bytes, named_keys, protocol_version }
    }

    /// The code of the contract.
    pub fn bytes(&self) -> (r: &Vec<u8>)
        ensures
            r@ == self@.bytes,
    {
        &self.bytes
    }

    /// The keys that the contract knows by name.
    pub fn urefs_lookup(&self) -> (r: &NamedKeys)
        ensures
            r@ == self@.named_keys,
    {
        &self.named_keys
    }

    /// The protocol version under which the contract was stored.
    pub fn protocol_version(&self) -> (r: u64)
        ensures
            r == self@.protocol_version,
    {
        self.protocol_version
    }
}

impl Duplicate for Contract {
    fn duplicate(&self) -> (r: Self) {
        Contract {
            bytes: copy_bytes(&self.bytes),
            named_keys: self.named_keys.duplicate(),
            protocol_version: self.protocol_version,
        }
    }
}

impl Clone for Contract {
    fn clone(&self) -> (r: Self)
        ensures
            r@ == self@,
    {
        self.duplicate()
    }
}

/// The kinds of number that a value can be.
#[derive(Clone, Copy, Debug, PartialEq, Eq, Structural)]
pub enum NumKind {
    I8,
    I16,
    I32,
    I64,
    U128,
    U256,
    U512,
}

impl NumKind {
    /// The smallest number of the kind.
    pub open spec fn min(self) -> int {
        match self {
            NumKind::I8 => i8::MIN as int,
            NumKind::I16 => i16::MIN as int,
            NumKind::I32 => i32::MIN as int,
            NumKind::I64 => i64::MIN as int,
            NumKind::U128 => 0,
            NumKind::U256 => 0,
            NumKind::U512 => 0,
        }
    }

    /// The largest number of the kind.
    pub open spec fn max(self) -> int {
        match self {
            NumKind::I8 => i8::MAX as int,
            NumKind::I16 => i16::MAX as int,
            NumKind::I32 => i32::MAX as int,
            NumKind::I64 => i64::MAX as int,
            NumKind::U128 => u128::MAX as int,
            NumKind::U256 => u256_modulus() - 1,
            NumKind::U512 => u512_modulus() - 1,
        }
    }

    /// How many numbers the kind has.
    pub open spec fn range(self) -> int {
        self.max() - self.min() + 1
    }

    /// Whether a number is of the kind.
    pub open spec fn holds(self, n: int) -> bool {
        self.min() <= n <= self.max()
    }

    /// The number of the kind that a sum wraps around to: the one that
    /// differs from the sum by a multiple of how many numbers the kind has.
    pub open spec fn wrap(self, sum: int) -> int {
        (sum - self.min()) % self.range() + self.min()
    }

    /// A sum wraps around to a number of the kind.
    pub proof fn lemma_wrap_holds(self, sum: int)
        ensures
            self.holds(self.wrap(sum)),
    {
        vstd::arithmetic::div_mod::lemma_mod_bound(sum - self.min(), self.range());
    }

    /// The sum of two numbers of the kind wraps around at most once.
    pub proof fn lemma_wrap_one_step(self, sum: int)
        requires
            2 * self.min() <= sum <= 2 * self.max(),
        ensures
            self.wrap(sum) == if sum > self.max() {
                sum - self.range()
            } else if sum < self.min() {
                sum + self.range()
            } else {
                sum
            },
    {
        let range = self.range();
        let shifted = sum - self.min();
        if sum > self.max() {
            vstd::arithmetic::div_mod::lemma_fundamental_div_mod_converse(
                shifted,
                range,
                1,
                shifted - range,
            );
        } else if sum < self.min() {
            vstd::arithmetic::div_mod::lemma_fundamental_div_mod_converse(
                shifted,
                range,
                -1,
                shifted + range,
            );
        } else {
            vstd::arithmetic::div_mod::lemma_fundamental_div_mod_converse(
                shifted,
                range,
                0,
                shifted,
            );
        }
    }

    /// Wrapping a sum of which a part has wrapped already is wrapping the
    /// sum.
    pub proof fn lemma_wrap_absorbs(self, a: int, b: int)
        ensures
            self.wrap(self.wrap(a) + b) == self.wrap(a + b),
            self.wrap(a + self.wrap(b)) == self.wrap(a + b),
    {
        let range = self.range();
        let min = self.min();
        vstd::arithmetic::div_mod::lemma_add_mod_noop_right(b, a - min, range);
        assert(self.wrap(a) + b - min == b + (a - min) % range);
        assert(b + (a - min) == a + b - min);
        vstd::arithmetic::div_mod::lemma_add_mod_noop_right(a, b - min, range);
        assert(a + self.wrap(b) - min == a + (b - min) % range);
        assert(a + (b - min) == a + b - min);
    }
}

/// A value in global state.
#[derive(Debug, PartialEq, Eq)]
pub enum Value {
    Int8(i8),
    Int16(i16),
    Int32(i32),
    Int64(i64),
    UInt128(u128),
    UInt256(U256),
    UInt512(U512),
    ByteArray(Vec<u8>),
    String(String),
    Key(Key),
    NamedKey(String, Key),
    Account(Account),
    Contract(Contract),
}

/// The mathematical value of a value in global state.
pub enum ValueView {
    /// A number and its kind.
    Num(NumKind, int),
    ByteArray(Seq<u8>),
    String(Seq<char>),
    Key(Key),
    NamedKey(Seq<char>, Key),
    Account(AccountView),
    Contract(ContractView),
}

impl View for Value {
    type V = ValueView;

    open spec fn view(&self) -> ValueView {
        match self {
            Value::Int8(n) => ValueView::Num(NumKind::I8, *n as int),
            Value::Int16(n) => ValueView::Num(NumKind::I16, *n as int),
            Value::Int32(n) => ValueView::Num(NumKind::I32, *n as int),
            Value::Int64(n) => ValueView::Num(NumKind::I64, *n as int),
            Value::UInt128(n) => ValueView::Num(NumKind::U128, *n as int),
            Value::UInt256(n) => ValueView::Num(NumKind::U256, n.value() as int),
            Value::UInt512(n) => ValueView::Num(NumKind::U512, n.value() as int),
            Value::ByteArray(bytes) => ValueView::ByteArray(bytes@),
            Value::String(s) => ValueView::String(s@),
            Value::Key(key) => ValueView::Key(*key),
            Value::NamedKey(name, key) => ValueView::NamedKey(name@, *key),
            Value::Account(account) => ValueView::Account(account@),
            Value::Contract(contract) => ValueView::Contract(contract@),
        }
    }
}

impl Duplicate for Value {
    fn duplicate(&self) -> (r: Self) {
        match self {
            Value::Int8(n) => Value::Int8(*n),
            Value::Int16(n) => Value::Int16(*n),
            Value::Int32(n) => Value::Int32(*n),
            Value::Int64(n) => Value::Int64(*n),
            Value::UInt128(n) => Value::UInt128(*n),
            Value::UInt256(n) => Value::UInt256(*n),
            Value::UInt512(n) => Value::UInt512(*n),
            Value::ByteArray(bytes) => Value::ByteArray(copy_bytes(bytes)),
            Value::String(s) => Value::String(s.clone()),
            Value::Key(key) => Value::Key(*key),
            Value::NamedKey(name, key) => Value::NamedKey(name.clone(), *key),
            Value::Account(account) => Value::Account(account.duplicate()),
            Value::Contract(contract) => Value::Contract(contract.duplicate()),
        }
    }
}

impl Clone for Value {
    fn clone(&self) -> (r: Self)
        ensures
            r@ == self@,
    {
        self.duplicate()
    }
}

impl Value {
    /// Every number that a value holds is of its kind.
    pub proof fn lemma_num_in_range(&self)
        ensures
            self@ matches ValueView::Num(kind, n) ==> kind.holds(n),
    {
        match self {
            Value::UInt256(n) => {
                n.lemma_value_bound();
            },
            Value::UInt512(n) => {
                n.lemma_value_bound();
            },
            _ => {},
        }
    }
}

impl Clone for PublicKeySet {
    fn clone(&self) -> (r: Self)
        ensures
            r@ == self@,
    {
        self.duplicate()
    }
}

/// The mathematical values of a list of values.
pub open spec fn values_view(values: Seq<Value>) -> Seq<ValueView> {
    Seq::new(values.len(), |i: int| values[i]@)
}

} // verus!
