//! The overlay through which a deploy sees and changes global state.
//!
//! Reads fall through to a snapshot of state and are kept; writes and
//! additions are kept beside it and logged, and never reach the snapshot.

use vstd::prelude::*;

use crate::assoc::{assoc_get, assoc_insert, lemma_assoc_insert_same, AssocList, Duplicate};
use crate::error::{Error, ExecutionError, StorageError};
use crate::global_state::{commit_state, CorrelationId, StateReader};
use crate::execution_effect::{
    lemma_merged_log_commits, lemma_transforms_merge_step, log_well_formed, ops_record, record_op,
    record_transform, transforms_merge, ExecutionEffect, ExecutionEffectView,
};
use crate::key::{Key, URef};
use crate::op::Op;
use crate::transform::{Transform, TransformError, TransformView};
use crate::u512::U512;
use crate::value::{Account, AccountView, Contract, ContractView, NumKind, Value, ValueView};

verus! {

/// A system contract as an account reaches it: the key under which the
/// account knows it, the key under which the contract is stored, and the
/// contract.
#[derive(Debug, PartialEq, Eq)]
pub struct SystemContractInfo {
    pub public_key: Key,
    pub inner_key: Key,
    pub contract: Contract,
}

impl SystemContractInfo {
    /// The key under which accounts know the contract.
    pub fn public_key(&self) -> (r: Key)
        ensures
            r == self.public_key,
    {
        self.public_key
    }

    /// The key under which the contract is stored. It is a reference.
    pub fn inner_key(&self) -> (r: Key)
        ensures
            r == self.inner_key,
    {
        self.inner_key
    }

    /// The contract.
    pub fn contract(&self) -> (r: &Contract)
        ensures
            r@ == self.contract@,
    {
        &self.contract
    }

    /// The code of the contract.
    pub fn module_bytes(&self) -> (r: &Vec<u8>)
        ensures
            r@ == self.contract@.bytes,
    {
        &self.contract.bytes
    }
}

/// The overlay through which a deploy sees and changes global state.
pub struct TrackingCopy<R: StateReader> {
    reader: R,
    overlay: Overlay,
}

/// What an overlay holds beside its snapshot: the values that were read or
/// written, what was done to each key, and the log of writes and additions.
struct Overlay {
    cache: AssocList<Key, Value>,
    ops: AssocList<Key, Op>,
    fns: Vec<(Key, Transform)>,
}

impl Overlay {
    /// The mathematical value of the log.
    spec fn log(&self) -> Seq<(Key, TransformView)> {
        Seq::new(self.fns@.len(), |i: int| (self.fns@[i].0, self.fns@[i].1@))
    }

    /// The mathematical value of this overlay on a snapshot.
    spec fn on(&self, base: Map<Key, ValueView>) -> TrackingCopyView {
        TrackingCopyView { base, cache: self.cache@, ops: self.ops@, log: self.log() }
    }

    /// An overlay that holds nothing.
    fn new() -> (r: Overlay)
        ensures
            forall|base: Map<Key, ValueView>| #[trigger] r.on(base) == TrackingCopyView::fresh(base),
    {
        let r = Overlay { cache: AssocList::new(), ops: AssocList::new(), fns: Vec::new() };
        assert(r.log() =~= Seq::empty());
        r
    }
}

/// The mathematical value of an overlay.
pub struct TrackingCopyView {
    /// The snapshot underneath.
    pub base: Map<Key, ValueView>,
    /// The values that were read or written, as a deploy now sees them.
    pub cache: Seq<(Key, ValueView)>,
    /// What was done to each key.
    pub ops: Seq<(Key, Op)>,
    /// The writes and additions, in the order in which they were made.
    pub log: Seq<(Key, TransformView)>,
}

impl TrackingCopyView {
    /// The value that the overlay shows under a stored key.
    pub open spec fn current(self, key: Key) -> Option<ValueView> {
        match assoc_get(self.cache, key) {
            Some(value) => Some(value),
            None => if self.base.contains_key(key) {
                Some(self.base[key])
            } else {
                None
            },
        }
    }

    /// All that the overlay shows: the value under each stored key that has
    /// one.
    pub open spec fn values(self) -> Map<Key, ValueView> {
        Map::new(|key: Key| self.current(key).is_some(), |key: Key| self.current(key).unwrap())
    }

    /// The overlay after it has kept a value for a key.
    pub open spec fn with_cached(self, key: Key, value: ValueView) -> TrackingCopyView {
        TrackingCopyView { cache: assoc_insert(self.cache, key, value), ..self }
    }

    /// The overlay after an operation on a key was recorded.
    pub open spec fn with_op(self, key: Key, op: Op) -> TrackingCopyView {
        TrackingCopyView { ops: ops_record(self.ops, key, op), ..self }
    }

    /// The overlay after a change to a key was logged.
    pub open spec fn with_logged(self, key: Key, transform: TransformView) -> TrackingCopyView {
        TrackingCopyView { log: self.log.push((key, transform)), ..self }
    }

    /// The overlay after a value was read under a key.
    pub open spec fn after_read(self, key: Key, value: ValueView) -> TrackingCopyView {
        self.with_cached(key, value).with_op(key, Op::Read)
    }

    /// The overlay after the value under a key was read, if it shows one.
    pub open spec fn after_reading(self, key: Key) -> TrackingCopyView {
        match self.current(key) {
            Some(value) => self.after_read(key, value),
            None => self,
        }
    }

    /// Whether a read of a key goes to the store: it does where the overlay
    /// has kept no value for the key. Only then can the store fail.
    pub open spec fn asks_store(self, key: Key) -> bool {
        assoc_get(self.cache, key).is_none()
    }

    /// The overlay after a value was written under a key.
    pub open spec fn after_write(self, key: Key, value: ValueView) -> TrackingCopyView {
        self.with_cached(key, value).with_op(key, Op::Write).with_logged(
            key,
            TransformView::Write(value),
        )
    }

    /// The overlay after a change was added to the value under a key and gave
    /// a new value.
    pub open spec fn after_add(
        self,
        key: Key,
        transform: TransformView,
        value: ValueView,
    ) -> TrackingCopyView {
        self.with_cached(key, value).with_op(key, Op::Add).with_logged(key, transform)
    }

    /// The overlay on a snapshot on which nothing was done yet.
    pub open spec fn fresh(base: Map<Key, ValueView>) -> TrackingCopyView {
        TrackingCopyView { base, cache: Seq::empty(), ops: Seq::empty(), log: Seq::empty() }
    }

    /// Whether the overlay agrees with its log: the changes that were logged
    /// are in order, and made to the snapshot one after the other they give
    /// what the overlay shows.
    pub open spec fn consistent(self) -> bool {
        &&& log_well_formed(self.log)
        &&& commit_state(self.base, self.log) == Some(self.values())
    }

    /// What the overlay has done to the snapshot.
    pub open spec fn effect(self) -> ExecutionEffectView {
        ExecutionEffectView { ops: self.ops, transforms: transforms_merge(Seq::empty(), self.log) }
    }
}

/// The change that adding a value stands for: a number is added to a number
/// of its kind, a named key is added to the named keys; nothing else can be
/// added.
pub open spec fn addend_transform(value: ValueView) -> Option<TransformView> {
    match value {
        ValueView::Num(kind, n) => Some(TransformView::Add(kind, n)),
        ValueView::NamedKey(name, key) => Some(TransformView::AddKeys(seq![(name, key)])),
        _ => None,
    }
}

/// The change that adding a value stands for.
pub fn transform_of_addend(value: Value) -> (r: Option<Transform>)
    ensures
        match r {
            Some(transform) => addend_transform(value@) == Some(transform@)
                && transform@.well_formed(),
            None => addend_transform(value@).is_none(),
        },
{
    match value {
        Value::Int8(n) => Some(Transform::AddInt8(n)),
        Value::Int16(n) => Some(Transform::AddInt16(n)),
        Value::Int32(n) => Some(Transform::AddInt32(n)),
        Value::Int64(n) => Some(Transform::AddInt64(n)),
        Value::UInt128(n) => Some(Transform::AddInt128(n)),
        Value::UInt256(n) => Some(Transform::AddInt256(n)),
        Value::UInt512(n) => Some(Transform::AddInt512(n)),
        Value::NamedKey(name, key) => {
            let mut keys = AssocList::new();
            let ghost name_view = name@;
            keys.insert(name, key);
            proof {
                crate::assoc::lemma_assoc_absent(Seq::<(Seq<char>, Key)>::empty(), name_view);
                assert(keys@ =~= seq![(name_view, key)]);
            }
            Some(Transform::AddKeys(keys))
        },
        _ => None,
    }
}

/// The account at an address in a state: what is stored there must be an
/// account.
pub open spec fn spec_account(state: Map<Key, ValueView>, addr: [u8; 32]) -> Result<
    AccountView,
    Error,
> {
    if !state.contains_key(Key::Account(addr)) {
        Err(Error::ExecError(ExecutionError::KeyNotFound))
    } else {
        match state[Key::Account(addr)] {
            ValueView::Account(account) => Ok(account),
            _ => Err(Error::ExecError(ExecutionError::TypeMismatch)),
        }
    }
}

/// The key that a state holds under a key, where that key is a reference.
pub open spec fn spec_uref_key(state: Map<Key, ValueView>, key: Key, missing: ExecutionError) -> Result<
    Key,
    Error,
> {
    if !state.contains_key(key.spec_normalize()) {
        Err(Error::ExecError(missing))
    } else {
        match state[key.spec_normalize()] {
            ValueView::Key(Key::URef(uref)) => Ok(Key::URef(uref)),
            _ => Err(Error::ExecError(ExecutionError::TypeMismatch)),
        }
    }
}

/// The contract that a state holds under a key.
pub open spec fn spec_contract(state: Map<Key, ValueView>, key: Key) -> Result<ContractView, Error> {
    if !state.contains_key(key.spec_normalize()) {
        Err(Error::ExecError(ExecutionError::KeyNotFound))
    } else {
        match state[key.spec_normalize()] {
            ValueView::Contract(contract) => Ok(contract),
            _ => Err(Error::ExecError(ExecutionError::TypeMismatch)),
        }
    }
}

/// A system contract in a state, reached from the key under which accounts
/// know it: that key leads to a reference, and the reference to the
/// contract.
pub open spec fn spec_system_contract_info(state: Map<Key, ValueView>, public_key: Key) -> Result<
    (Key, ContractView),
    Error,
> {
    match spec_uref_key(state, public_key, ExecutionError::KeyNotFound) {
        Err(error) => Err(error),
        Ok(inner_key) => match spec_contract(state, inner_key) {
            Err(error) => Err(error),
            Ok(contract) => Ok((inner_key, contract)),
        },
    }
}

/// The key under which the mint keeps the balance of a purse: the mint holds
/// it in its local slot for the purse's address.
pub open spec fn spec_purse_balance_key(
    state: Map<Key, ValueView>,
    mint_contract_uref: URef,
    purse_key: Key,
) -> Result<Key, Error> {
    match purse_key {
        Key::URef(purse) => spec_uref_key(
            state,
            Key::spec_local(mint_contract_uref.addr, purse.addr@),
            ExecutionError::PurseNotFound,
        ),
        _ => Err(Error::ExecError(ExecutionError::PurseNotFound)),
    }
}

/// The balance that a state holds under a balance key.
pub open spec fn spec_purse_balance(state: Map<Key, ValueView>, balance_key: Key) -> Result<
    nat,
    Error,
> {
    if !state.contains_key(balance_key.spec_normalize()) {
        Err(Error::ExecError(ExecutionError::KeyNotFound))
    } else {
        match state[balance_key.spec_normalize()] {
            ValueView::Num(NumKind::U512, n) => Ok(n as nat),
            _ => Err(Error::ExecError(ExecutionError::TypeMismatch)),
        }
    }
}

/// The key of the mint's record of the balance of a purse: the mint's local
/// slot for the purse's address.
pub open spec fn balance_slot(mint_contract_uref: URef, purse_key: Key) -> Key {
    match purse_key {
        Key::URef(purse) => Key::spec_local(mint_contract_uref.addr, purse.addr@),
        other => other,
    }
}

/// Whether reading a system contract goes to the store: for the key under
/// which accounts know it, or, where that read gives a reference, for the
/// key under which the contract is stored.
pub open spec fn contract_info_asks_store(view: TrackingCopyView, public_key: Key) -> bool {
    view.asks_store(public_key.spec_normalize()) || (spec_uref_key(
        view.values(),
        public_key,
        ExecutionError::KeyNotFound,
    ) matches Ok(inner_key) && view.after_reading(public_key.spec_normalize()).asks_store(
        inner_key.spec_normalize(),
    ))
}

/// What the overlay shows does not change when it keeps, for a key, the
/// value that it already shows for it, nor when operations are recorded.
pub proof fn lemma_read_keeps_values(view: TrackingCopyView, key: Key, value: ValueView)
    requires
        view.current(key) == Some(value),
    ensures
        view.with_cached(key, value).values() == view.values(),
        view.after_read(key, value).values() == view.values(),
        view.after_read(key, value).log == view.log,
{
    let kept = view.with_cached(key, value);
    assert forall|k: Key| kept.current(k) == view.current(k) by {
        crate::assoc::lemma_assoc_insert_get(view.cache, key, value, k);
    }
    assert(kept.values() =~= view.values());
    let read = view.after_read(key, value);
    assert forall|k: Key| read.current(k) == view.current(k) by {
        assert(read.current(k) == kept.current(k));
    }
    assert(read.values() =~= view.values());
}

/// After a write the overlay shows the new value under the key, and under
/// every other key what it showed before.
pub proof fn lemma_write_values(view: TrackingCopyView, key: Key, value: ValueView)
    ensures
        view.after_write(key, value).values() == view.values().insert(key, value),
{
    let written = view.after_write(key, value);
    assert forall|k: Key| written.current(k) == (if k == key {
        Some(value)
    } else {
        view.current(k)
    }) by {
        crate::assoc::lemma_assoc_insert_get(view.cache, key, value, k);
    }
    assert(written.values() =~= view.values().insert(key, value));
}

/// An overlay on which nothing was done agrees with its log.
pub proof fn lemma_fresh_consistent(base: Map<Key, ValueView>)
    ensures
        TrackingCopyView::fresh(base).consistent(),
{
    let fresh = TrackingCopyView::fresh(base);
    assert forall|key: Key| fresh.current(key) == (if base.contains_key(key) {
        Some(base[key])
    } else {
        None
    }) by {
        crate::assoc::lemma_assoc_absent(fresh.cache, key);
    }
    assert(fresh.values() =~= base);
}

/// An overlay that agrees with its log still does after it has kept, for a
/// key, the value that it shows for it, and after an operation was
/// recorded.
pub proof fn lemma_read_consistent(view: TrackingCopyView, key: Key, value: ValueView, op: Op)
    requires
        view.consistent(),
        view.current(key) == Some(value),
    ensures
        view.with_cached(key, value).consistent(),
        view.with_cached(key, value).with_op(key, op).consistent(),
{
    lemma_read_keeps_values(view, key, value);
    let kept = view.with_cached(key, value);
    let noted = kept.with_op(key, op);
    assert forall|k: Key| noted.current(k) == kept.current(k) by {}
    assert(noted.values() =~= kept.values());
}

/// An overlay that agrees with its log still does after a write.
pub proof fn lemma_write_consistent(view: TrackingCopyView, key: Key, value: ValueView)
    requires
        view.consistent(),
    ensures
        view.after_write(key, value).consistent(),
{
    lemma_write_values(view, key, value);
    let written = view.after_write(key, value);
    assert(written.log.drop_last() =~= view.log);
    assert(written.log.last() == (key, TransformView::Write(value)));
    assert forall|i: int| 0 <= i < written.log.len() implies (
    #[trigger] written.log[i]).1.well_formed() by {
        if i < view.log.len() {
            assert(written.log[i] == view.log[i]);
        }
    }
}

/// An overlay that agrees with its log still does after an addition.
pub proof fn lemma_add_consistent(
    view: TrackingCopyView,
    key: Key,
    transform: TransformView,
    current: ValueView,
    sum: ValueView,
)
    requires
        view.consistent(),
        view.current(key) == Some(current),
        transform.well_formed(),
        transform.apply(current) == Ok::<ValueView, TransformError>(sum),
    ensures
        view.with_cached(key, current).after_add(key, transform, sum).consistent(),
{
    lemma_read_keeps_values(view, key, current);
    let kept = view.with_cached(key, current);
    let added = kept.after_add(key, transform, sum);
    assert forall|k: Key| added.current(k) == (if k == key {
        Some(sum)
    } else {
        kept.current(k)
    }) by {
        crate::assoc::lemma_assoc_insert_get(kept.cache, key, sum, k);
    }
    assert(added.values() =~= view.values().insert(key, sum));
    assert(added.log.drop_last() =~= view.log);
    assert(added.log.last() == (key, transform));
    assert(view.values().contains_key(key) && view.values()[key] == current);
    assert forall|i: int| 0 <= i < added.log.len() implies (
    #[trigger] added.log[i]).1.well_formed() by {
        if i < view.log.len() {
            assert(added.log[i] == view.log[i]);
        }
    }
}

/// The effect of an overlay that agrees with its log, committed to the
/// snapshot, gives what the overlay shows; and the effect has one change for
/// each key.
pub proof fn lemma_effect_commits_to_values(view: TrackingCopyView)
    requires
        view.consistent(),
    ensures
        commit_state(view.base, view.effect().transforms) == Some(view.values()),
        crate::assoc::assoc_distinct(view.effect().transforms),
{
    lemma_merged_log_commits(view.base, view.log, view.values());
}

impl<R: StateReader> View for TrackingCopy<R> {
    type V = TrackingCopyView;

    closed spec fn view(&self) -> TrackingCopyView {
        self.overlay.on(self.reader.state())
    }
}

impl<R: StateReader> TrackingCopy<R> {
    /// A fresh overlay on a snapshot.
    pub fn new(reader: R) -> (r: Self)
        ensures
            r@ == TrackingCopyView::fresh(reader.state()),
    {
        proof {
            lemma_fresh_consistent(reader.state());
        }
        TrackingCopy { reader, overlay: Overlay::new() }
    }

    /// Every overlay agrees with its log.
    #[verifier::type_invariant]
    spec fn agrees(self) -> bool {
        self@.consistent()
    }

    /// Takes what the overlay holds beside its snapshot, and leaves nothing
    /// in its place.
    fn take(&mut self) -> (overlay: Overlay)
        ensures
            overlay.on(old(self)@.base) == old(self)@,
            final(self)@ == TrackingCopyView::fresh(old(self)@.base),
            final(self).reader == old(self).reader,
    {
        let mut overlay = Overlay::new();
        proof {
            lemma_fresh_consistent(self.reader.state());
        }
        core::mem::swap(&mut self.overlay, &mut overlay);
        overlay
    }

    /// Puts back what the overlay holds beside its snapshot.
    fn put(&mut self, overlay: Overlay)
        requires
            overlay.on(old(self)@.base).consistent(),
        ensures
            final(self)@ == overlay.on(old(self)@.base),
            final(self).reader == old(self).reader,
    {
        self.overlay = overlay;
    }

    /// The value under a key as the overlay shows it, without a record of the
    /// read. A value that comes from the snapshot is kept.
    pub fn get(&mut self, correlation_id: CorrelationId, key: &Key) -> (r: Result<
        Option<Value>,
        StorageError,
    >)
        ensures
            match r {
                Ok(Some(value)) => old(self)@.current(key.spec_normalize()) == Some(value@)
                    && final(self)@ == old(self)@.with_cached(key.spec_normalize(), value@),
                Ok(None) => old(self)@.current(key.spec_normalize()).is_none() && final(self)@
                    == old(self)@,
                Err(_) => assoc_get(old(self)@.cache, key.spec_normalize()).is_none() && final(self)@ == old(self)@,
            },
    {
        let stored = key.normalize();
        match self.overlay.cache.get(&stored) {
            Some(value) => {
                proof {
                    lemma_assoc_insert_same(self.overlay.cache@, stored, value@);
                }
                return Ok(Some(value.duplicate()));
            },
            None => {},
        }
        match self.reader.read(correlation_id, &stored) {
            Ok(Some(value)) => {
                proof {
                    use_type_invariant(&*self);
                    lemma_read_consistent(self@, stored, value@, Op::Read);
                }
                let mut overlay = self.take();
                overlay.cache.insert(stored, value.duplicate());
                self.put(overlay);
                Ok(Some(value))
            },
            Ok(None) => Ok(None),
            Err(error) => Err(error),
        }
    }

    /// Reads the value under a key.
    pub fn read(&mut self, correlation_id: CorrelationId, key: &Key) -> (r: Result<Value, Error>)
        ensures
            !(r matches Err(Error::StorageError(_))) ==> final(self)@ == old(self)@.after_reading(
                key.spec_normalize(),
            ),
            match r {
                Ok(value) => old(self)@.current(key.spec_normalize()) == Some(value@) && final(self)@ == old(self)@.after_read(key.spec_normalize(), value@),
                Err(Error::ExecError(ExecutionError::KeyNotFound)) => old(self)@.current(
                    key.spec_normalize(),
                ).is_none() && final(self)@ == old(self)@,
                Err(Error::StorageError(_)) => assoc_get(
                    old(self)@.cache,
                    key.spec_normalize(),
                ).is_none() && final(self)@ == old(self)@,
                Err(_) => false,
            },
    {
        proof {
            use_type_invariant(&*self);
        }
        match self.get(correlation_id, key) {
            Ok(Some(value)) => {
                proof {
                    lemma_read_consistent(old(self)@, key.spec_normalize(), value@, Op::Read);
                }
                let mut overlay = self.take();
                record_op(&mut overlay.ops, key.normalize(), Op::Read);
                self.put(overlay);
                Ok(value)
            },
            Ok(None) => Err(Error::ExecError(ExecutionError::KeyNotFound)),
            Err(error) => Err(Error::StorageError(error)),
        }
    }

    /// Writes a value under a key.
    pub fn write(&mut self, key: Key, value: Value)
        ensures
            final(self)@ == old(self)@.after_write(key.spec_normalize(), value@),
    {
        let stored = key.normalize();
        let ghost before = self@;
        proof {
            use_type_invariant(&*self);
            lemma_write_consistent(before, stored, value@);
        }
        let mut overlay = self.take();
        overlay.cache.insert(stored, value.duplicate());
        record_op(&mut overlay.ops, stored, Op::Write);
        overlay.fns.push((stored, Transform::Write(value)));
        assert(overlay.log() =~= before.log.push((stored, TransformView::Write(value@))));
        self.put(overlay);
    }

    /// Adds a value to the value under a key: a number to a number of its
    /// kind, with wrap-around, or a named key to an account or a contract.
    pub fn add(&mut self, correlation_id: CorrelationId, key: Key, value: Value) -> (r: Result<
        (),
        Error,
    >)
        ensures
            match r {
                Ok(()) => {
                    &&& addend_transform(value@) matches Some(transform)
                    &&& old(self)@.current(key.spec_normalize()) matches Some(current)
                    &&& transform.apply(current) matches Ok(sum)
                    &&& final(self)@ == old(self)@.with_cached(
                        key.spec_normalize(),
                        current,
                    ).after_add(key.spec_normalize(), transform, sum)
                },
                Err(Error::ExecError(ExecutionError::KeyNotFound)) => old(self)@.current(
                    key.spec_normalize(),
                ).is_none() && final(self)@ == old(self)@,
                Err(Error::ExecError(ExecutionError::TypeMismatch)) => {
                    &&& old(self)@.current(key.spec_normalize()) matches Some(current)
                    &&& (addend_transform(value@) matches Some(transform) ==> transform.apply(
                        current,
                    ) is Err)
                    &&& final(self)@ == old(self)@.with_cached(key.spec_normalize(), current)
                },
                Err(Error::StorageError(_)) => assoc_get(
                    old(self)@.cache,
                    key.spec_normalize(),
                ).is_none() && final(self)@ == old(self)@,
                Err(_) => false,
            },
    {
        let stored = key.normalize();
        proof {
            use_type_invariant(&*self);
        }
        let current = match self.get(correlation_id, &stored) {
            Ok(Some(current)) => current,
            Ok(None) => {
                return Err(Error::ExecError(ExecutionError::KeyNotFound));
            },
            Err(error) => {
                return Err(Error::StorageError(error));
            },
        };
        let transform = match transform_of_addend(value) {
            Some(transform) => transform,
            None => {
                return Err(Error::ExecError(ExecutionError::TypeMismatch));
            },
        };
        let ghost seen = current@;
        match transform.duplicate().apply(current) {
            Ok(sum) => {
                let ghost before = self@;
                proof {
                    lemma_add_consistent(old(self)@, stored, transform@, seen, sum@);
                }
                let mut overlay = self.take();
                overlay.cache.insert(stored, sum);
                record_op(&mut overlay.ops, stored, Op::Add);
                overlay.fns.push((stored, transform));
                assert(overlay.log() =~= before.log.push((stored, transform@)));
                self.put(overlay);
                Ok(())
            },
            Err(_) => Err(Error::ExecError(ExecutionError::TypeMismatch)),
        }
    }

    /// What the overlay has done to the snapshot: the operation on each key,
    /// and for each key the one change that stands for all that was logged
    /// for it.
    pub fn effect(&self) -> (r: ExecutionEffect)
        ensures
            r@ == self@.effect(),
            self@.consistent(),
            commit_state(self@.base, r@.transforms) == Some(self@.values()),
            crate::assoc::assoc_distinct(r@.transforms),
    {
        proof {
            use_type_invariant(self);
            lemma_effect_commits_to_values(self@);
        }
        let mut transforms: AssocList<Key, Transform> = AssocList::new();
        let mut i: usize = 0;
        while i < self.overlay.fns.len()
            invariant
                i <= self.overlay.fns@.len(),
                self@.log.len() == self.overlay.fns@.len(),
                transforms@ == transforms_merge(Seq::empty(), self@.log.subrange(0, i as int)),
            decreases self.overlay.fns@.len() - i,
        {
            proof {
                lemma_transforms_merge_step(Seq::empty(), self@.log, i as int);
            }
            record_transform(
                &mut transforms,
                self.overlay.fns[i].0,
                self.overlay.fns[i].1.duplicate(),
            );
            i += 1;
        }
        assert(self@.log.subrange(0, i as int) =~= self@.log);
        ExecutionEffect::new(self.overlay.ops.duplicate(), transforms)
    }
}

impl<R: StateReader> TrackingCopy<R> {
    /// Reads the account at an address.
    pub fn get_account(&mut self, correlation_id: CorrelationId, addr: [u8; 32]) -> (r: Result<
        Account,
        Error,
    >)
        ensures
            final(self)@.values() == old(self)@.values(),
            final(self)@.log == old(self)@.log,
            match r {
                Ok(account) => spec_account(old(self)@.values(), addr) == Ok::<AccountView, Error>(
                    account@,
                ) && final(self)@ == old(self)@.after_read(
                    Key::Account(addr),
                    ValueView::Account(account@),
                ),
                Err(Error::StorageError(_)) => final(self)@ == old(self)@ && old(self)@.asks_store(Key::Account(addr)),
                Err(error) => spec_account(old(self)@.values(), addr) == Err::<AccountView, Error>(
                    error,
                ) && final(self)@ == old(self)@.after_reading(Key::Account(addr)),
            },
    {
        let key = Key::Account(addr);
        match self.read(correlation_id, &key) {
            Ok(value) => {
                proof {
                    lemma_read_keeps_values(old(self)@, key, value@);
                }
                match value {
                    Value::Account(account) => Ok(account),
                    _ => Err(Error::ExecError(ExecutionError::TypeMismatch)),
                }
            },
            Err(error) => Err(error),
        }
    }

    /// Reads the reference that state holds under a key.
    fn get_uref_key(
        &mut self,
        correlation_id: CorrelationId,
        key: Key,
        missing: ExecutionError,
    ) -> (r: Result<Key, Error>)
        ensures
            final(self)@.values() == old(self)@.values(),
            final(self)@.log == old(self)@.log,
            match r {
                Ok(found) => spec_uref_key(old(self)@.values(), key, missing) == Ok::<Key, Error>(
                    found,
                ) && found is URef && final(self)@ == old(self)@.after_reading(
                    key.spec_normalize(),
                ),
                Err(Error::StorageError(_)) => final(self)@ == old(self)@ && old(self)@.asks_store(key.spec_normalize()),
                Err(error) => spec_uref_key(old(self)@.values(), key, missing) == Err::<Key, Error>(
                    error,
                ) && final(self)@ == old(self)@.after_reading(key.spec_normalize()),
            },
    {
        match self.read(correlation_id, &key) {
            Ok(value) => {
                proof {
                    lemma_read_keeps_values(old(self)@, key.spec_normalize(), value@);
                }
                match value {
                    Value::Key(Key::URef(uref)) => Ok(Key::URef(uref)),
                    _ => Err(Error::ExecError(ExecutionError::TypeMismatch)),
                }
            },
            Err(Error::ExecError(ExecutionError::KeyNotFound)) => Err(Error::ExecError(missing)),
            Err(error) => Err(error),
        }
    }

    /// Reads a system contract, from the key under which accounts know it.
    pub fn get_system_contract_info(&mut self, correlation_id: CorrelationId, public_key: Key) -> (r:
        Result<SystemContractInfo, Error>)
        ensures
            final(self)@.values() == old(self)@.values(),
            final(self)@.log == old(self)@.log,
            match r {
                Ok(info) => spec_system_contract_info(old(self)@.values(), public_key) == Ok::<
                    (Key, ContractView),
                    Error,
                >((info.inner_key, info.contract@)) && info.public_key == public_key
                    && info.inner_key is URef && final(self)@ == old(self)@.after_reading(
                    public_key.spec_normalize(),
                ).after_reading(info.inner_key.spec_normalize()),
                Err(Error::StorageError(_)) => contract_info_asks_store(old(self)@, public_key),
                Err(error) => spec_system_contract_info(old(self)@.values(), public_key) == Err::<
                    (Key, ContractView),
                    Error,
                >(error),
            },
    {
        let inner_key = match self.get_uref_key(
            correlation_id,
            public_key,
            ExecutionError::KeyNotFound,
        ) {
            Ok(key) => key,
            Err(error) => {
                return Err(error);
            },
        };
        let ghost middle = self@;
        match self.read(correlation_id, &inner_key) {
            Ok(value) => {
                proof {
                    lemma_read_keeps_values(middle, inner_key.spec_normalize(), value@);
                }
                match value {
                    Value::Contract(contract) => Ok(
                        SystemContractInfo { public_key, inner_key, contract },
                    ),
                    _ => Err(Error::ExecError(ExecutionError::TypeMismatch)),
                }
            },
            Err(error) => Err(error),
        }
    }

    /// Reads the key under which the mint keeps the balance of a purse.
    pub fn get_purse_balance_key(
        &mut self,
        correlation_id: CorrelationId,
        mint_contract_uref: URef,
        purse_key: Key,
    ) -> (r: Result<Key, Error>)
        ensures
            final(self)@.values() == old(self)@.values(),
            final(self)@.log == old(self)@.log,
            match r {
                Ok(balance_key) => spec_purse_balance_key(
                    old(self)@.values(),
                    mint_contract_uref,
                    purse_key,
                ) == Ok::<Key, Error>(balance_key) && balance_key is URef && final(self)@ == old(self)@.after_reading(balance_slot(mint_contract_uref, purse_key)),
                Err(Error::StorageError(_)) => purse_key is URef && final(self)@ == old(self)@
                    && old(self)@.asks_store(balance_slot(mint_contract_uref, purse_key)),
                Err(error) => spec_purse_balance_key(
                    old(self)@.values(),
                    mint_contract_uref,
                    purse_key,
                ) == Err::<Key, Error>(error),
            },
    {
        let purse = match purse_key.as_uref() {
            Some(purse) => purse,
            None => {
                return Err(Error::ExecError(ExecutionError::PurseNotFound));
            },
        };
        let purse_addr = purse.addr();
        let slot = Key::local(mint_contract_uref.addr(), purse_addr.as_slice());
        self.get_uref_key(correlation_id, slot, ExecutionError::PurseNotFound)
    }

    /// Reads the balance under a balance key.
    pub fn get_purse_balance(&mut self, correlation_id: CorrelationId, balance_key: Key) -> (r:
        Result<U512, Error>)
        ensures
            final(self)@.values() == old(self)@.values(),
            final(self)@.log == old(self)@.log,
            match r {
                Ok(balance) => spec_purse_balance(old(self)@.values(), balance_key) == Ok::<
                    nat,
                    Error,
                >(balance.value()) && final(self)@ == old(self)@.after_read(
                    balance_key.spec_normalize(),
                    ValueView::Num(NumKind::U512, balance.value() as int),
                ) && final(self)@ == old(self)@.after_reading(balance_key.spec_normalize()),
                Err(Error::StorageError(_)) => final(self)@ == old(self)@ && old(self)@.asks_store(balance_key.spec_normalize()),
                Err(error) => spec_purse_balance(old(self)@.values(), balance_key) == Err::<
                    nat,
                    Error,
                >(error),
            },
    {
        match self.read(correlation_id, &balance_key) {
            Ok(value) => {
                proof {
                    lemma_read_keeps_values(old(self)@, balance_key.spec_normalize(), value@);
                }
                match value {
                    Value::UInt512(balance) => Ok(balance),
                    _ => Err(Error::ExecError(ExecutionError::TypeMismatch)),
                }
            },
            Err(error) => Err(error),
        }
    }

    /// Checks that a deploy carries the nonce that follows the account's, and
    /// if so counts the deploy: the account with the new nonce is written
    /// under its key.
    pub fn handle_nonce(&mut self, account: &mut Account, nonce: u64) -> (r: Result<(), Error>)
        ensures
            match r {
                Ok(()) => {
                    &&& nonce == old(account)@.nonce + 1
                    &&& final(account)@ == (AccountView { nonce, ..old(account)@ })
                    &&& final(self)@ == old(self)@.after_write(
                        Key::Account(old(account)@.addr),
                        ValueView::Account(final(account)@),
                    )
                },
                Err(error) => {
                    &&& nonce != old(account)@.nonce + 1
                    &&& error == invalid_nonce(old(account)@.nonce, nonce)
                    &&& final(account)@ == old(account)@
                    &&& final(self)@ == old(self)@
                },
            },
    {
        if account.nonce == u64::MAX || account.nonce + 1 != nonce {
            return Err(
                Error::InvalidNonce { expected: account.nonce.saturating_add(1), found: nonce },
            );
        }
        account.increment_nonce();
        self.write(Key::Account(account.pub_key()), Value::Account(account.duplicate()));
        Ok(())
    }
}

/// The error for a deploy that carries another nonce than the one after the
/// account's. Where the account's nonce is the largest there is, no nonce
/// can follow, and that nonce is reported as the expected one.
pub open spec fn invalid_nonce(account_nonce: u64, deploy_nonce: u64) -> Error {
    Error::InvalidNonce {
        expected: if account_nonce < u64::MAX {
            (account_nonce + 1) as u64
        } else {
            u64::MAX
        },
        found: deploy_nonce,
    }
}

} // verus!
