//! The algebra of changes to a value in global state.

use vstd::prelude::*;

use crate::assoc::{assoc_insert, Duplicate};
use crate::u256::U256;
use crate::u512::U512;
use crate::value::{
    AccountView, ContractView, NamedKeys, NamedKeysView, NumKind, Value, ValueView,
};

verus! {

/// Why a change cannot be made to a value.
#[derive(Clone, Copy, Debug, PartialEq, Eq, Structural)]
pub enum TransformError {
    /// The value is not of the type that the change is for.
    TypeMismatch,
}

/// The named keys `base` after each entry of `more` was put in, in order.
pub open spec fn named_keys_extend(base: NamedKeysView, more: NamedKeysView) -> NamedKeysView
    decreases more.len(),
{
    if more.len() == 0 {
        base
    } else {
        assoc_insert(named_keys_extend(base, more.drop_last()), more.last().0, more.last().1)
    }
}

/// Puts each entry of `more` into `base`, in order.
pub fn extend_named_keys(base: &mut NamedKeys, more: &NamedKeys)
    ensures
        final(base)@ == named_keys_extend(old(base)@, more@),
{
    let mut i: usize = 0;
    while i < more.len()
        invariant
            i <= more@.len(),
            base@ == named_keys_extend(old(base)@, more@.subrange(0, i as int)),
        decreases more@.len() - i,
    {
        proof {
            let next = more@.subrange(0, i + 1);
            assert(next.drop_last() =~= more@.subrange(0, i as int));
            assert(next.last() == more@[i as int]);
        }
        base.insert(more.key_at(i).clone(), *more.value_at(i));
        i += 1;
    }
    assert(more@.subrange(0, i as int) =~= more@);
}

/// A change to a value in global state.
#[derive(Debug, PartialEq, Eq)]
pub enum Transform {
    /// No change.
    Identity,
    /// The value is replaced.
    Write(Value),
    AddInt8(i8),
    AddInt16(i16),
    AddInt32(i32),
    AddInt64(i64),
    AddInt128(u128),
    AddInt256(U256),
    AddInt512(U512),
    /// Named keys are added to an account or a contract.
    AddKeys(NamedKeys),
    /// The change failed.
    Failure(TransformError),
}

/// The mathematical value of a change.
pub enum TransformView {
    Identity,
    Write(ValueView),
    /// A number of some kind is added, and the sum wraps around.
    Add(NumKind, int),
    AddKeys(NamedKeysView),
    Failure(TransformError),
}

impl TransformView {
    /// The value after the change, or why the change cannot be made.
    pub open spec fn apply(self, value: ValueView) -> Result<ValueView, TransformError> {
        match self {
            TransformView::Identity => Ok(value),
            TransformView::Write(new) => Ok(new),
            TransformView::Add(kind, n) => match value {
                ValueView::Num(k, m) => if k == kind {
                    Ok(ValueView::Num(kind, kind.wrap(m + n)))
                } else {
                    Err(TransformError::TypeMismatch)
                },
                _ => Err(TransformError::TypeMismatch),
            },
            TransformView::AddKeys(keys) => match value {
                ValueView::Account(account) => Ok(
                    ValueView::Account(
                        AccountView {
                            named_keys: named_keys_extend(account.named_keys, keys),
                            ..account
                        },
                    ),
                ),
                ValueView::Contract(contract) => Ok(
                    ValueView::Contract(
                        ContractView {
                            named_keys: named_keys_extend(contract.named_keys, keys),
                            ..contract
                        },
                    ),
                ),
                _ => Err(TransformError::TypeMismatch),
            },
            TransformView::Failure(error) => Err(error),
        }
    }

    /// The one change that stands for this change followed by the next.
    pub open spec fn compose(self, next: TransformView) -> TransformView {
        match (self, next) {
            (a, TransformView::Identity) => a,
            (TransformView::Identity, b) => b,
            (TransformView::Failure(error), _) => TransformView::Failure(error),
            (_, TransformView::Failure(error)) => TransformView::Failure(error),
            (_, TransformView::Write(new)) => TransformView::Write(new),
            (TransformView::Write(old), b) => match b.apply(old) {
                Ok(new) => TransformView::Write(new),
                Err(error) => TransformView::Failure(error),
            },
            (TransformView::Add(k1, a), TransformView::Add(k2, b)) => if k1 == k2 {
                TransformView::Add(k1, k1.wrap(a + b))
            } else {
                TransformView::Failure(TransformError::TypeMismatch)
            },
            (TransformView::AddKeys(first), TransformView::AddKeys(second)) => TransformView::AddKeys(
                named_keys_extend(first, second),
            ),
            _ => TransformView::Failure(TransformError::TypeMismatch),
        }
    }

    /// Whether the change is in order: named keys that it adds have no
    /// repeated names.
    pub open spec fn well_formed(self) -> bool {
        self matches TransformView::AddKeys(keys) ==> crate::assoc::assoc_distinct(keys)
    }

    /// Whether the numbers in the change are of their kinds.
    pub open spec fn in_range(self) -> bool {
        match self {
            TransformView::Write(ValueView::Num(kind, n)) => kind.holds(n),
            TransformView::Add(kind, n) => kind.holds(n),
            _ => true,
        }
    }
}

impl View for Transform {
    type V = TransformView;

    open spec fn view(&self) -> TransformView {
        match self {
            Transform::Identity => TransformView::Identity,
            Transform::Write(value) => TransformView::Write(value@),
            Transform::AddInt8(n) => TransformView::Add(NumKind::I8, *n as int),
            Transform::AddInt16(n) => TransformView::Add(NumKind::I16, *n as int),
            Transform::AddInt32(n) => TransformView::Add(NumKind::I32, *n as int),
            Transform::AddInt64(n) => TransformView::Add(NumKind::I64, *n as int),
            Transform::AddInt128(n) => TransformView::Add(NumKind::U128, *n as int),
            Transform::AddInt256(n) => TransformView::Add(NumKind::U256, n.value() as int),
            Transform::AddInt512(n) => TransformView::Add(NumKind::U512, n.value() as int),
            Transform::AddKeys(keys) => TransformView::AddKeys(keys@),
            Transform::Failure(error) => TransformView::Failure(*error),
        }
    }
}

impl Duplicate for Transform {
    fn duplicate(&self) -> (r: Self) {
        match self {
            Transform::Identity => Transform::Identity,
            Transform::Write(value) => Transform::Write(value.duplicate()),
            Transform::AddInt8(n) => Transform::AddInt8(*n),
            Transform::AddInt16(n) => Transform::AddInt16(*n),
            Transform::AddInt32(n) => Transform::AddInt32(*n),
            Transform::AddInt64(n) => Transform::AddInt64(*n),
            Transform::AddInt128(n) => Transform::AddInt128(*n),
            Transform::AddInt256(n) => Transform::AddInt256(*n),
            Transform::AddInt512(n) => Transform::AddInt512(*n),
            Transform::AddKeys(keys) => Transform::AddKeys(keys.duplicate()),
            Transform::Failure(error) => Transform::Failure(*error),
        }
    }
}

impl Clone for Transform {
    fn clone(&self) -> (r: Self)
        ensures
            r@ == self@,
    {
        self.duplicate()
    }
}

/// The mathematical value of the outcome of a change.
pub open spec fn outcome_view(outcome: Result<Value, TransformError>) -> Result<
    ValueView,
    TransformError,
> {
    match outcome {
        Ok(value) => Ok(value@),
        Err(error) => Err(error),
    }
}

impl Transform {
    /// The numbers in an executable change are of their kinds.
    pub proof fn lemma_in_range(&self)
        ensures
            self@.in_range(),
    {
        match self {
            Transform::Write(value) => {
                value.lemma_num_in_range();
            },
            Transform::AddInt256(n) => {
                n.lemma_value_bound();
            },
            Transform::AddInt512(n) => {
                n.lemma_value_bound();
            },
            _ => {},
        }
    }

    /// The value after the change, or why the change cannot be made.
    pub fn apply(self, value: Value) -> (r: Result<Value, TransformError>)
        ensures
            outcome_view(r) == self@.apply(value@),
    {
        proof {
            value.lemma_num_in_range();
            self.lemma_in_range();
            if let (TransformView::Add(kind, n), ValueView::Num(k, m)) = (self@, value@) {
                if kind == k {
                    kind.lemma_wrap_one_step(m + n);
                }
            }
        }
        match self {
            Transform::Identity => Ok(value),
            Transform::Write(new) => Ok(new),
            Transform::AddInt8(n) => match value {
                Value::Int8(m) => Ok(Value::Int8(m.wrapping_add(n))),
                _ => Err(TransformError::TypeMismatch),
            },
            Transform::AddInt16(n) => match value {
                Value::Int16(m) => Ok(Value::Int16(m.wrapping_add(n))),
                _ => Err(TransformError::TypeMismatch),
            },
            Transform::AddInt32(n) => match value {
                Value::Int32(m) => Ok(Value::Int32(m.wrapping_add(n))),
                _ => Err(TransformError::TypeMismatch),
            },
            Transform::AddInt64(n) => match value {
                Value::Int64(m) => Ok(Value::Int64(m.wrapping_add(n))),
                _ => Err(TransformError::TypeMismatch),
            },
            Transform::AddInt128(n) => match value {
                Value::UInt128(m) => Ok(Value::UInt128(m.wrapping_add(n))),
                _ => Err(TransformError::TypeMismatch),
            },
            Transform::AddInt256(n) => match value {
                Value::UInt256(m) => Ok(Value::UInt256(m.wrapping_add(n))),
                _ => Err(TransformError::TypeMismatch),
            },
            Transform::AddInt512(n) => match value {
                Value::UInt512(m) => Ok(Value::UInt512(m.wrapping_add(n))),
                _ => Err(TransformError::TypeMismatch),
            },
            Transform::AddKeys(keys) => match value {
                Value::Account(mut account) => {
                    extend_named_keys(&mut account.named_keys, &keys);
                    Ok(Value::Account(account))
                },
                Value::Contract(mut contract) => {
                    extend_named_keys(&mut contract.named_keys, &keys);
                    Ok(Value::Contract(contract))
                },
                _ => Err(TransformError::TypeMismatch),
            },
            Transform::Failure(error) => Err(error),
        }
    }

    /// The one change that stands for this change followed by the next.
    pub fn compose(self, next: Transform) -> (r: Transform)
        ensures
            r@ == self@.compose(next@),
    {
        proof {
            self.lemma_in_range();
            next.lemma_in_range();
            if let (TransformView::Add(k1, a), TransformView::Add(k2, b)) = (self@, next@) {
                if k1 == k2 {
                    k1.lemma_wrap_one_step(a + b);
                }
            }
        }
        match (self, next) {
            (a, Transform::Identity) => a,
            (Transform::Identity, b) => b,
            (Transform::Failure(error), _) => Transform::Failure(error),
            (_, Transform::Failure(error)) => Transform::Failure(error),
            (_, Transform::Write(new)) => Transform::Write(new),
            (Transform::Write(old), b) => match b.apply(old) {
                Ok(new) => Transform::Write(new),
                Err(error) => Transform::Failure(error),
            },
            (Transform::AddInt8(a), Transform::AddInt8(b)) => Transform::AddInt8(a.wrapping_add(b)),
            (Transform::AddInt16(a), Transform::AddInt16(b)) => Transform::AddInt16(
                a.wrapping_add(b),
            ),
            (Transform::AddInt32(a), Transform::AddInt32(b)) => Transform::AddInt32(
                a.wrapping_add(b),
            ),
            (Transform::AddInt64(a), Transform::AddInt64(b)) => Transform::AddInt64(
                a.wrapping_add(b),
            ),
            (Transform::AddInt128(a), Transform::AddInt128(b)) => Transform::AddInt128(
                a.wrapping_add(b),
            ),
            (Transform::AddInt256(a), Transform::AddInt256(b)) => Transform::AddInt256(
                a.wrapping_add(b),
            ),
            (Transform::AddInt512(a), Transform::AddInt512(b)) => Transform::AddInt512(
                a.wrapping_add(b),
            ),
            (Transform::AddKeys(mut first), Transform::AddKeys(second)) => {
                extend_named_keys(&mut first, &second);
                Transform::AddKeys(first)
            },
            _ => Transform::Failure(TransformError::TypeMismatch),
        }
    }
}

/// No change is the unit of composition.
pub proof fn lemma_compose_identity(a: TransformView)
    ensures
        a.compose(TransformView::Identity) == a,
        TransformView::Identity.compose(a) == a,
{
}

/// A write followed by an addition is a write of the sum; two additions of
/// one kind are the addition of the sum; and whatever is followed by a
/// failure is a failure.
pub proof fn lemma_compose_laws(
    kind: NumKind,
    v: int,
    a: int,
    b: int,
    any: TransformView,
    error: TransformError,
)
    ensures
        TransformView::Write(ValueView::Num(kind, v)).compose(TransformView::Add(kind, a))
            == TransformView::Write(ValueView::Num(kind, kind.wrap(v + a))),
        TransformView::Add(kind, a).compose(TransformView::Add(kind, b)) == TransformView::Add(
            kind,
            kind.wrap(a + b),
        ),
        any.compose(TransformView::Failure(error)) == TransformView::Failure(error),
{
}

/// Wrapping sums may be taken in any grouping.
pub proof fn lemma_wrap_associative(kind: NumKind, a: int, b: int, c: int)
    ensures
        kind.holds(kind.wrap(a + b)),
        kind.wrap(kind.wrap(a + b) + c) == kind.wrap(a + kind.wrap(b + c)),
{
    kind.lemma_wrap_holds(a + b);
    kind.lemma_wrap_absorbs(a + b, c);
    kind.lemma_wrap_absorbs(a, b + c);
    assert(a + b + c == a + (b + c));
}

/// Where the first of two changes can be made to a value, the composed change
/// does to the value what the two changes do one after the other.
pub proof fn lemma_compose_apply(a: TransformView, b: TransformView, value: ValueView)
    requires
        a.well_formed(),
    ensures
        a.apply(value) matches Ok(middle) ==> a.compose(b).apply(value) == b.apply(middle),
{
    match (a, b, value) {
        (TransformView::Add(k1, x), TransformView::Add(k2, y), ValueView::Num(k, n)) => {
            if k1 == k2 && k == k1 {
                k.lemma_wrap_absorbs(n + x, y);
                k.lemma_wrap_absorbs(n, x + y);
                assert(n + x + y == n + (x + y));
            }
        },
        (
            TransformView::AddKeys(first),
            TransformView::AddKeys(second),
            ValueView::Account(account),
        ) => {
            lemma_extend_extend(account.named_keys, first, second);
        },
        (
            TransformView::AddKeys(first),
            TransformView::AddKeys(second),
            ValueView::Contract(contract),
        ) => {
            lemma_extend_extend(contract.named_keys, first, second);
        },
        _ => {},
    }
}

/// Changes that are in order compose to a change that is in order.
pub proof fn lemma_compose_well_formed(a: TransformView, b: TransformView)
    requires
        a.well_formed(),
        b.well_formed(),
    ensures
        a.compose(b).well_formed(),
{
    match (a, b) {
        (TransformView::AddKeys(first), TransformView::AddKeys(second)) => {
            lemma_extend_distinct(first, second);
        },
        _ => {},
    }
}

/// A name that was put in is among the named keys afterwards, and so is
/// every name that was there before.
pub proof fn lemma_extend_has(base: NamedKeysView, more: NamedKeysView, name: Seq<char>)
    requires
        crate::assoc::assoc_has(more, name) || crate::assoc::assoc_has(base, name),
    ensures
        crate::assoc::assoc_has(named_keys_extend(base, more), name),
    decreases more.len(),
{
    if more.len() > 0 {
        let front = more.drop_last();
        let last = more.last();
        crate::assoc::lemma_assoc_insert_index(
            named_keys_extend(base, front),
            last.0,
            last.1,
            name,
        );
        if last.0 != name {
            if crate::assoc::assoc_has(more, name) {
                let at = crate::assoc::assoc_index(more, name);
                assert(more[at].0 == name);
                assert(front[at] == more[at]);
                crate::assoc::lemma_assoc_has(front, name, at);
            }
            lemma_extend_has(base, front, name);
        }
    } else if crate::assoc::assoc_has(more, name) {
        let at = crate::assoc::assoc_index(more, name);
        assert(more[at].0 == name);
    }
}

/// Named keys that are put into named keys without repeated names have no
/// repeated names.
pub proof fn lemma_extend_distinct(base: NamedKeysView, more: NamedKeysView)
    requires
        crate::assoc::assoc_distinct(base),
    ensures
        crate::assoc::assoc_distinct(named_keys_extend(base, more)),
    decreases more.len(),
{
    if more.len() > 0 {
        lemma_extend_distinct(base, more.drop_last());
        crate::assoc::lemma_assoc_insert_distinct(
            named_keys_extend(base, more.drop_last()),
            more.last().0,
            more.last().1,
        );
    }
}

/// To put in named keys to which one more was added is to put in the named
/// keys and then the one more, as long as no name is repeated among them.
pub proof fn lemma_extend_insert(
    base: NamedKeysView,
    more: NamedKeysView,
    name: Seq<char>,
    key: crate::key::Key,
)
    requires
        crate::assoc::assoc_distinct(more),
    ensures
        named_keys_extend(base, assoc_insert(more, name, key)) == assoc_insert(
            named_keys_extend(base, more),
            name,
            key,
        ),
    decreases more.len(),
{
    let added = assoc_insert(more, name, key);
    if more.len() == 0 {
        crate::assoc::lemma_assoc_absent(more, name);
        assert(added =~= seq![(name, key)]);
        assert(added.drop_last() =~= more);
    } else {
        let front = more.drop_last();
        let last = more.last();
        let n = front.len() as int;
        assert forall|i: int, j: int| 0 <= i < j < front.len() implies (#[trigger] front[i]).0 != (
        #[trigger] front[j]).0 by {
            assert(front[i] == more[i]);
            assert(front[j] == more[j]);
        }
        if crate::assoc::assoc_has(front, name) {
            let at = crate::assoc::assoc_index(front, name);
            assert(front[at].0 == name);
            assert(more[at] == front[at]);
            assert(more[at].0 != more[n].0);
            crate::assoc::lemma_assoc_has(more, name, at);
            assert(crate::assoc::assoc_first(more, name, at)) by {
                assert forall|j: int| 0 <= j < at implies (#[trigger] more[j]).0 != name by {
                    assert(more[j] == front[j]);
                }
            }
            crate::assoc::lemma_assoc_first_unique(
                more,
                name,
                at,
                crate::assoc::assoc_index(more, name),
            );
            assert(added =~= assoc_insert(front, name, key).push(last));
            assert(added.drop_last() =~= assoc_insert(front, name, key));
            assert(added.last() == last);
            lemma_extend_insert(base, front, name, key);
            lemma_extend_has(base, front, name);
            crate::assoc::lemma_assoc_insert_commute(
                named_keys_extend(base, front),
                name,
                key,
                last.0,
                last.1,
            );
        } else if last.0 == name {
            crate::assoc::lemma_assoc_has(more, name, n);
            assert(crate::assoc::assoc_first(more, name, n)) by {
                assert forall|j: int| 0 <= j < n implies (#[trigger] more[j]).0 != name by {
                    if more[j].0 == name {
                        assert(front[j] == more[j]);
                        crate::assoc::lemma_assoc_has(front, name, j);
                    }
                }
            }
            crate::assoc::lemma_assoc_first_unique(
                more,
                name,
                n,
                crate::assoc::assoc_index(more, name),
            );
            assert(added =~= front.push((name, key)));
            assert(added.drop_last() =~= front);
            crate::assoc::lemma_assoc_insert_twice(
                named_keys_extend(base, front),
                name,
                last.1,
                key,
            );
        } else {
            assert(!crate::assoc::assoc_has(more, name)) by {
                if crate::assoc::assoc_has(more, name) {
                    let at = crate::assoc::assoc_index(more, name);
                    assert(more[at].0 == name);
                    assert(front[at] == more[at]);
                    crate::assoc::lemma_assoc_has(front, name, at);
                }
            }
            assert(added.drop_last() =~= more);
        }
    }
}

/// To put in what comes of putting second named keys into first ones is to
/// put in the first and then the second, as long as no name is repeated
/// among the first.
pub proof fn lemma_extend_extend(base: NamedKeysView, first: NamedKeysView, second: NamedKeysView)
    requires
        crate::assoc::assoc_distinct(first),
    ensures
        named_keys_extend(base, named_keys_extend(first, second)) == named_keys_extend(
            named_keys_extend(base, first),
            second,
        ),
    decreases second.len(),
{
    if second.len() > 0 {
        let front = second.drop_last();
        lemma_extend_extend(base, first, front);
        lemma_extend_distinct(first, front);
        lemma_extend_insert(
            base,
            named_keys_extend(first, front),
            second.last().0,
            second.last().1,
        );
    }
}

} // verus!
