//! Addresses into global state: unforgeable references and keys.

use blake2::digest::{Input, VariableOutput};
use blake2::VarBlake2b;
use vstd::prelude::*;

use crate::assoc::{AssocKey, Duplicate};

verus! {

/// Number of bytes in an address, a seed or a digest.
pub const ADDR_LENGTH: usize = 32;

/// Whether two 32-byte arrays hold the same bytes.
pub fn bytes32_eq(a: &[u8; 32], b: &[u8; 32]) -> (r: bool)
    ensures
        r == (*a == *b),
{
    let mut i: usize = 0;
    while i < 32
        invariant
            i <= 32,
            forall|j: int| 0 <= j < i ==> a[j] == b[j],
        decreases 32 - i,
    {
        if a[i] != b[i] {
            return false;
        }
        i += 1;
    }
    assert(*a =~= *b);
    true
}

/// The BLAKE2b digest of 32 bytes that `blake2` computes for a message.
pub uninterp spec fn blake2b_256(data: Seq<u8>) -> Seq<u8>;

/// `blake2::VarBlake2b` with an output size of 32, fed the whole message at
/// once: the digest is a function of the message alone and is 32 bytes long.
#[verifier::external_body]
fn blake2b_digest(data: &[u8]) -> (digest: Vec<u8>)
    ensures
        digest@ == blake2b_256(data@),
        digest@.len() == 32,
{
    let mut hasher = VarBlake2b::new(32).unwrap();
    hasher.input(data);
    hasher.vec_result()
}

/// The BLAKE2b digest of a message as an array.
pub fn blake2b(data: &[u8]) -> (digest: [u8; 32])
    ensures
        digest@ == blake2b_256(data@),
{
    let bytes = blake2b_digest(data);
    let mut digest = [0u8; 32];
    let mut i: usize = 0;
    while i < 32
        invariant
            i <= 32,
            bytes@.len() == 32,
            forall|j: int| 0 <= j < i ==> digest[j] == bytes[j],
        decreases 32 - i,
    {
        digest[i] = bytes[i];
        i += 1;
    }
    assert(digest@ =~= bytes@);
    digest
}

/// What the holder of a reference may do with its referent.
#[derive(Clone, Copy, Debug, PartialEq, Eq, Structural)]
pub enum AccessRights {
    Read,
    Write,
    Add,
    ReadAdd,
    ReadWrite,
    AddWrite,
    ReadAddWrite,
}

/// An unforgeable reference: 32 bytes that name a value, and the rights that
/// the holder has on it. A reference without rights only names the value.
#[derive(Clone, Copy, Debug)]
pub struct URef {
    pub addr: [u8; 32],
    pub access_rights: Option<AccessRights>,
}

impl URef {
    /// A reference with the given rights.
    pub fn new(addr: [u8; 32], access_rights: AccessRights) -> (r: URef)
        ensures
            r == (URef { addr, access_rights: Some(access_rights) }),
    {
        URef { addr, access_rights: Some(access_rights) }
    }

    /// The 32 bytes that name the referent.
    pub fn addr(&self) -> (r: [u8; 32])
        ensures
            r == self.addr,
    {
        self.addr
    }

    /// The rights that the reference carries, if any.
    pub fn access_rights(&self) -> (r: Option<AccessRights>)
        ensures
            r == self.access_rights,
    {
        self.access_rights
    }

    /// The same reference without rights.
    pub open spec fn spec_remove_access_rights(self) -> URef {
        URef { addr: self.addr, access_rights: None }
    }

    /// The same reference without rights.
    pub fn remove_access_rights(&self) -> (r: URef)
        ensures
            r == self.spec_remove_access_rights(),
    {
        URef { addr: self.addr, access_rights: None }
    }
}

impl AccessRights {
    /// Whether two sets of rights are the same.
    pub fn same_as(self, other: AccessRights) -> (r: bool)
        ensures
            r == (self == other),
    {
        self == other
    }
}

/// Whether two references are the same: the same address and the same
/// rights.
pub fn uref_eq(a: &URef, b: &URef) -> (r: bool)
    ensures
        r == (*a == *b),
{
    bytes32_eq(&a.addr, &b.addr) && match (a.access_rights, b.access_rights) {
        (Some(x), Some(y)) => x.same_as(y),
        (None, None) => true,
        _ => false,
    }
}

impl PartialEq for URef {
    fn eq(&self, other: &Self) -> (r: bool) {
        uref_eq(self, other)
    }
}

impl Eq for URef {

}

impl vstd::std_specs::cmp::PartialEqSpecImpl for URef {
    open spec fn obeys_eq_spec() -> bool {
        true
    }

    open spec fn eq_spec(&self, other: &Self) -> bool {
        *self == *other
    }
}

/// The public key of an account holder.
#[derive(Clone, Copy, Debug)]
pub struct PublicKey(pub [u8; 32]);

impl PublicKey {
    /// The key with the given bytes.
    pub fn new(bytes: [u8; 32]) -> (r: PublicKey)
        ensures
            r == PublicKey(bytes),
    {
        PublicKey(bytes)
    }

    /// The bytes of the key.
    pub fn value(&self) -> (r: [u8; 32])
        ensures
            r == self.0,
    {
        self.0
    }
}

impl PartialEq for PublicKey {
    fn eq(&self, other: &Self) -> (r: bool) {
        bytes32_eq(&self.0, &other.0)
    }
}

impl Eq for PublicKey {

}

impl vstd::std_specs::cmp::PartialEqSpecImpl for PublicKey {
    open spec fn obeys_eq_spec() -> bool {
        true
    }

    open spec fn eq_spec(&self, other: &Self) -> bool {
        *self == *other
    }
}

/// The digest that names a snapshot of global state.
#[derive(Clone, Copy, Debug)]
pub struct Blake2bHash(pub [u8; 32]);

impl Blake2bHash {
    /// The digest with the given bytes.
    pub fn new(bytes: [u8; 32]) -> (r: Blake2bHash)
        ensures
            r == Blake2bHash(bytes),
    {
        Blake2bHash(bytes)
    }

    /// The bytes of the digest.
    pub fn value(&self) -> (r: [u8; 32])
        ensures
            r == self.0,
    {
        self.0
    }
}

impl PartialEq for Blake2bHash {
    fn eq(&self, other: &Self) -> (r: bool) {
        bytes32_eq(&self.0, &other.0)
    }
}

impl Eq for Blake2bHash {

}

impl vstd::std_specs::cmp::PartialEqSpecImpl for Blake2bHash {
    open spec fn obeys_eq_spec() -> bool {
        true
    }

    open spec fn eq_spec(&self, other: &Self) -> bool {
        *self == *other
    }
}

/// A tagged address into global state.
#[derive(Clone, Copy, Debug)]
pub enum Key {
    /// The account with the given address.
    Account([u8; 32]),
    /// A stored contract or value, by its hash.
    Hash([u8; 32]),
    /// The referent of an unforgeable reference.
    URef(URef),
    /// A slot local to a contract: the contract's seed and the digest of the
    /// slot's name.
    Local { seed: [u8; 32], key_hash: [u8; 32] },
}

impl Key {
    /// The key in the form under which state is stored: a reference loses its
    /// rights, every other key stays as it is.
    pub open spec fn spec_normalize(self) -> Key {
        match self {
            Key::URef(uref) => Key::URef(uref.spec_remove_access_rights()),
            other => other,
        }
    }

    /// The key in the form under which state is stored.
    pub fn normalize(&self) -> (r: Key)
        ensures
            r == self.spec_normalize(),
    {
        match self {
            Key::URef(uref) => Key::URef(uref.remove_access_rights()),
            other => *other,
        }
    }

    /// The address, if this is an account key.
    pub fn as_account(&self) -> (r: Option<[u8; 32]>)
        ensures
            r == (match *self {
                Key::Account(addr) => Some(addr),
                _ => None,
            }),
    {
        match self {
            Key::Account(addr) => Some(*addr),
            _ => None,
        }
    }

    /// The reference, if this is a reference key.
    pub fn as_uref(&self) -> (r: Option<URef>)
        ensures
            r == (match *self {
                Key::URef(uref) => Some(uref),
                _ => None,
            }),
    {
        match self {
            Key::URef(uref) => Some(*uref),
            _ => None,
        }
    }

    /// The local key of a contract for a slot name.
    pub open spec fn spec_local(seed: [u8; 32], key_bytes: Seq<u8>) -> Key {
        Key::Local { seed, key_hash: digest_array(blake2b_256(key_bytes)) }
    }

    /// The local key of a contract for a slot name: the seed, and the BLAKE2b
    /// digest of the name.
    pub fn local(seed: [u8; 32], key_bytes: &[u8]) -> (r: Key)
        ensures
            r == Key::spec_local(seed, key_bytes@),
    {
        let key_hash = blake2b(key_bytes);
        proof {
            let chosen = digest_array(blake2b_256(key_bytes@));
            assert(chosen@ == blake2b_256(key_bytes@));
            assert(chosen =~= key_hash);
        }
        Key::Local { seed, key_hash }
    }
}

/// The array that holds the 32 bytes of a digest.
pub open spec fn digest_array(digest: Seq<u8>) -> [u8; 32] {
    choose|a: [u8; 32]| a@ == digest
}

/// Whether two keys are the same key.
pub fn key_eq(a: &Key, b: &Key) -> (r: bool)
    ensures
        r == (*a == *b),
{
    match (a, b) {
        (Key::Account(x), Key::Account(y)) => bytes32_eq(x, y),
        (Key::Hash(x), Key::Hash(y)) => bytes32_eq(x, y),
        (Key::URef(x), Key::URef(y)) => uref_eq(x, y),
        (Key::Local { seed: s1, key_hash: h1 }, Key::Local { seed: s2, key_hash: h2 }) => {
            bytes32_eq(s1, s2) && bytes32_eq(h1, h2)
        },
        _ => false,
    }
}

impl PartialEq for Key {
    fn eq(&self, other: &Self) -> (r: bool) {
        key_eq(self, other)
    }
}

impl Eq for Key {

}

impl vstd::std_specs::cmp::PartialEqSpecImpl for Key {
    open spec fn obeys_eq_spec() -> bool {
        true
    }

    open spec fn eq_spec(&self, other: &Self) -> bool {
        *self == *other
    }
}

impl View for Key {
    type V = Key;

    open spec fn view(&self) -> Key {
        *self
    }
}

impl Duplicate for Key {
    fn duplicate(&self) -> (r: Self) {
        *self
    }
}

impl AssocKey for Key {
    type Id = Key;

    open spec fn id(&self) -> Key {
        *self
    }

    fn same(&self, other: &Self) -> (r: bool) {
        key_eq(self, other)
    }

    fn duplicate(&self) -> (r: Self) {
        *self
    }
}

impl AssocKey for PublicKey {
    type Id = PublicKey;

    open spec fn id(&self) -> PublicKey {
        *self
    }

    fn same(&self, other: &Self) -> (r: bool) {
        bytes32_eq(&self.0, &other.0)
    }

    fn duplicate(&self) -> (r: Self) {
        *self
    }
}

} // verus!
