//! What the engine asks of the store that keeps the versions of global
//! state.

use vstd::prelude::*;

use crate::assoc::AssocList;
use crate::error::StorageError;
use crate::key::{Blake2bHash, Key};
use crate::transform::{Transform, TransformView};
use crate::value::{Value, ValueView};

verus! {

/// Names a request in the records of whoever serves it.
#[derive(Clone, Copy, Debug, PartialEq, Eq, Structural)]
pub struct CorrelationId(pub u64);

/// A snapshot of global state that can be read.
pub trait StateReader {
    /// What the snapshot holds under each key. Keys are in their stored form.
    spec fn state(&self) -> Map<Key, ValueView>;

    /// Reads the value under a key. A value that comes back is the one that
    /// the snapshot holds, and nothing comes back only where it holds
    /// nothing; the store may fail at any time.
    fn read(&self, correlation_id: CorrelationId, key: &Key) -> (r: Result<
        Option<Value>,
        StorageError,
    >)
        ensures
            r matches Ok(Some(value)) ==> self.state().contains_key(*key) && self.state()[*key]
                == value@,
            r matches Ok(None) ==> !self.state().contains_key(*key),
    ;
}

/// How a commit ended.
#[derive(Clone, Copy, Debug, PartialEq, Eq)]
pub enum CommitResult {
    /// The state that the changes were to be made to is not known.
    RootNotFound,
    /// The changes were made; the digest names the new state.
    Success { state_root: Blake2bHash },
    /// A change other than a write was to be made to a key without a value.
    KeyNotFound(Key),
    /// A change cannot be made to the value that its key holds.
    TypeMismatch,
}

/// The state after one change was made to the value under a key, where it
/// can be made: a write needs no value to be there, every other change does.
pub open spec fn commit_one(state: Map<Key, ValueView>, key: Key, transform: TransformView) -> Option<
    Map<Key, ValueView>,
> {
    if state.contains_key(key) {
        match transform.apply(state[key]) {
            Ok(value) => Some(state.insert(key, value)),
            Err(_) => None,
        }
    } else {
        match transform {
            TransformView::Write(value) => Some(state.insert(key, value)),
            _ => None,
        }
    }
}

/// The state after each of the changes was made, in order, where all of
/// them can be made.
pub open spec fn commit_state(state: Map<Key, ValueView>, effects: Seq<(Key, TransformView)>) -> Option<
    Map<Key, ValueView>,
>
    decreases effects.len(),
{
    if effects.len() == 0 {
        Some(state)
    } else {
        match commit_state(state, effects.drop_last()) {
            Some(earlier) => commit_one(earlier, effects.last().0, effects.last().1),
            None => None,
        }
    }
}

/// The store that keeps the versions of global state, each under the digest
/// that names it.
pub trait History {
    /// The readers that the store hands out.
    type Reader: StateReader;

    /// The versions of state that the store knows, by their digests.
    spec fn snapshots(&self) -> Map<Blake2bHash, Map<Key, ValueView>>;

    /// The digest that names a state: state is addressed by what it holds.
    spec fn root_of(state: Map<Key, ValueView>) -> Blake2bHash;

    /// A reader for the state that a digest names, if the store knows it.
    fn checkout(&self, prestate_hash: Blake2bHash) -> (r: Result<
        Option<Self::Reader>,
        StorageError,
    >)
        ensures
            r matches Ok(Some(reader)) ==> self.snapshots().contains_key(prestate_hash)
                && reader.state() == self.snapshots()[prestate_hash],
            r matches Ok(None) ==> !self.snapshots().contains_key(prestate_hash),
    ;

    /// Makes changes to the state that a digest names and keeps the outcome
    /// as a new version. Versions that the store knew stay as they were. On
    /// success the new version holds, under every key, what the changes
    /// make of the old version, and it is named by the digest of what it
    /// holds.
    fn commit(
        &mut self,
        correlation_id: CorrelationId,
        prestate_hash: Blake2bHash,
        effects: AssocList<Key, Transform>,
    ) -> (r: Result<CommitResult, StorageError>)
        ensures
            forall|root: Blake2bHash| #[trigger]
                old(self).snapshots().contains_key(root) ==> final(self).snapshots().contains_key(
                    root,
                ) && final(self).snapshots()[root] == old(self).snapshots()[root],
            r matches Ok(CommitResult::RootNotFound) ==> !old(self).snapshots().contains_key(
                prestate_hash,
            ),
            r matches Ok(CommitResult::Success { state_root }) ==> {
                &&& old(self).snapshots().contains_key(prestate_hash)
                &&& commit_state(old(self).snapshots()[prestate_hash], effects@) matches Some(
                    state,
                )
                &&& state_root == Self::root_of(state)
                &&& final(self).snapshots().contains_key(state_root)
                &&& final(self).snapshots()[state_root] == state
            },
            r matches Ok(CommitResult::KeyNotFound(_)) ==> old(self).snapshots().contains_key(
                prestate_hash,
            ) && commit_state(old(self).snapshots()[prestate_hash], effects@).is_none(),
            r matches Ok(CommitResult::TypeMismatch) ==> old(self).snapshots().contains_key(
                prestate_hash,
            ) && commit_state(old(self).snapshots()[prestate_hash], effects@).is_none(),
    ;

    /// The digest of the newest version.
    fn current_root(&self) -> (r: Blake2bHash)
        ensures
            self.snapshots().contains_key(r),
    ;

    /// The digest of the state that holds nothing.
    fn empty_root(&self) -> (r: Blake2bHash)
        ensures
            r == Self::root_of(Map::empty()),
            self.snapshots().contains_key(r),
            self.snapshots()[r] == Map::<Key, ValueView>::empty(),
    ;
}

/// What a change makes of the value that a state holds under a key, or of
/// there being none: a write needs no value, every other change does.
pub open spec fn change_at(state: Map<Key, ValueView>, key: Key, transform: TransformView) -> Option<
    ValueView,
> {
    if state.contains_key(key) {
        match transform.apply(state[key]) {
            Ok(value) => Some(value),
            Err(_) => None,
        }
    } else {
        match transform {
            TransformView::Write(value) => Some(value),
            _ => None,
        }
    }
}

/// A state that changes were committed to holds, under the key of each
/// change, what the change makes of the old value, and under every other
/// key what it held: this is what a reader of the new state reads. The
/// changes must have one change for each key.
pub proof fn lemma_commit_round_trip(
    state: Map<Key, ValueView>,
    effects: Seq<(Key, TransformView)>,
    committed: Map<Key, ValueView>,
)
    requires
        crate::assoc::assoc_distinct(effects),
        commit_state(state, effects) == Some(committed),
    ensures
        forall|i: int|
            0 <= i < effects.len() ==> committed.contains_key((#[trigger] effects[i]).0)
                && Some(committed[effects[i].0]) == change_at(state, effects[i].0, effects[i].1),
        forall|key: Key|
            !crate::assoc::assoc_has(effects, key) ==> (#[trigger] committed.contains_key(key)
                == state.contains_key(key)) && (state.contains_key(key) ==> committed[key]
                == state[key]),
    decreases effects.len(),
{
    if effects.len() == 0 {
        assert forall|key: Key| !crate::assoc::assoc_has(effects, key) implies (
        #[trigger] committed.contains_key(key) == state.contains_key(key)) && (state.contains_key(
            key,
        ) ==> committed[key] == state[key]) by {}
    } else {
        let front = effects.drop_last();
        let last = effects.last();
        let earlier = commit_state(state, front).unwrap();
        assert forall|i: int, j: int| 0 <= i < j < front.len() implies (#[trigger] front[i]).0 != (
        #[trigger] front[j]).0 by {
            assert(front[i] == effects[i]);
            assert(front[j] == effects[j]);
        }
        lemma_commit_round_trip(state, front, earlier);
        assert(!crate::assoc::assoc_has(front, last.0)) by {
            if crate::assoc::assoc_has(front, last.0) {
                let at = crate::assoc::assoc_index(front, last.0);
                assert(front[at] == effects[at]);
                assert(effects[at].0 != effects[effects.len() - 1].0);
            }
        }
        assert(earlier.contains_key(last.0) == state.contains_key(last.0));
        assert forall|i: int| 0 <= i < effects.len() implies committed.contains_key(
            (#[trigger] effects[i]).0,
        ) && Some(committed[effects[i].0]) == change_at(state, effects[i].0, effects[i].1) by {
            if i < front.len() {
                assert(front[i] == effects[i]);
                assert(effects[i].0 != effects[effects.len() - 1].0);
            }
        }
        assert forall|key: Key| !crate::assoc::assoc_has(effects, key) implies (
        #[trigger] committed.contains_key(key) == state.contains_key(key)) && (state.contains_key(
            key,
        ) ==> committed[key] == state[key]) by {
            if key == last.0 {
                crate::assoc::lemma_assoc_has(effects, key, effects.len() - 1);
            }
            if crate::assoc::assoc_has(front, key) {
                let at = crate::assoc::assoc_index(front, key);
                assert(front[at] == effects[at]);
                crate::assoc::lemma_assoc_has(effects, key, at);
            }
        }
    }
}

/// Whether each of the changes can be made to the value that the state
/// holds under its key.
pub open spec fn all_changes_apply(state: Map<Key, ValueView>, effects: Seq<(Key, TransformView)>) -> bool {
    forall|i: int|
        0 <= i < effects.len() ==> change_at(
            state,
            (#[trigger] effects[i]).0,
            effects[i].1,
        ).is_some()
}

/// The state in which each key that has a change holds what the change makes
/// of its old value, and every other key holds what it held.
pub open spec fn changed_state(state: Map<Key, ValueView>, effects: Seq<(Key, TransformView)>) -> Map<
    Key,
    ValueView,
> {
    Map::new(
        |key: Key| state.contains_key(key) || crate::assoc::assoc_has(effects, key),
        |key: Key|
            if crate::assoc::assoc_has(effects, key) {
                change_at(state, key, crate::assoc::assoc_get(effects, key).unwrap()).unwrap()
            } else {
                state[key]
            },
    )
}

/// Changes of which there is one for each key are committed key by key: the
/// commit succeeds where each change can be made to the old value under its
/// key, and then gives the state that holds the new values.
pub proof fn lemma_commit_key_by_key(state: Map<Key, ValueView>, effects: Seq<(Key, TransformView)>)
    requires
        crate::assoc::assoc_distinct(effects),
    ensures
        commit_state(state, effects) == if all_changes_apply(state, effects) {
            Some(changed_state(state, effects))
        } else {
            None
        },
    decreases effects.len(),
{
    if effects.len() == 0 {
        assert forall|key: Key| !crate::assoc::assoc_has(effects, key) by {
            if crate::assoc::assoc_has(effects, key) {
                let at = crate::assoc::assoc_index(effects, key);
                assert(effects[at].0 == key);
            }
        }
        assert(changed_state(state, effects) =~= state);
    } else {
        let front = effects.drop_last();
        let last = effects.last();
        let n = front.len() as int;
        assert forall|i: int, j: int| 0 <= i < j < front.len() implies (#[trigger] front[i]).0 != (
        #[trigger] front[j]).0 by {
            assert(front[i] == effects[i]);
            assert(front[j] == effects[j]);
        }
        lemma_commit_key_by_key(state, front);
        assert(!crate::assoc::assoc_has(front, last.0)) by {
            if crate::assoc::assoc_has(front, last.0) {
                let at = crate::assoc::assoc_index(front, last.0);
                assert(front[at] == effects[at]);
                assert(effects[at].0 != effects[n].0);
            }
        }
        assert(effects =~= crate::assoc::assoc_insert(front, last.0, last.1));
        if !all_changes_apply(state, front) {
            let bad = choose|i: int|
                0 <= i < front.len() && change_at(
                    state,
                    (#[trigger] front[i]).0,
                    front[i].1,
                ).is_none();
            assert(effects[bad] == front[bad]);
        } else {
            let earlier = changed_state(state, front);
            assert forall|i: int| 0 <= i < n implies change_at(
                state,
                (#[trigger] effects[i]).0,
                effects[i].1,
            ).is_some() by {
                assert(effects[i] == front[i]);
            }
            match change_at(state, last.0, last.1) {
                None => {
                    assert(effects[n] == last);
                },
                Some(value) => {
                    assert forall|i: int| 0 <= i < effects.len() implies change_at(
                        state,
                        (#[trigger] effects[i]).0,
                        effects[i].1,
                    ).is_some() by {
                        if i < n {
                            assert(effects[i] == front[i]);
                        }
                    }
                    let now = changed_state(state, effects);
                    let then = earlier.insert(last.0, value);
                    assert forall|key: Key| #[trigger]
                        now.dom().contains(key) == then.dom().contains(key) by {
                        crate::assoc::lemma_assoc_insert_index(front, last.0, last.1, key);
                    }
                    assert forall|key: Key| now.dom().contains(key) implies #[trigger] now[key]
                        == then[key] by {
                        crate::assoc::lemma_assoc_insert_index(front, last.0, last.1, key);
                        crate::assoc::lemma_assoc_insert_get(front, last.0, last.1, key);
                    }
                    assert(now =~= then);
                },
            }
        }
    }
}

/// What holds of a commit, of the versions that the store knew before it and
/// of those that it knows after it. Versions that the store knew stay as
/// they were. The commit finds no root only where the store does not know
/// the state that the changes were to be made to. It succeeds only where
/// the store knows that state and all the changes can be made to it; the
/// new version then holds what the changes make of the old one, and is
/// named by the digest of what it holds. It reports a key without a value,
/// or a mismatch, only where the store knows the state and the changes
/// cannot all be made to it. The store may fail at any time.
pub open spec fn commit_outcome<H: History>(
    before: Map<Blake2bHash, Map<Key, ValueView>>,
    after: Map<Blake2bHash, Map<Key, ValueView>>,
    prestate_hash: Blake2bHash,
    effects: Seq<(Key, TransformView)>,
    outcome: Result<CommitResult, StorageError>,
) -> bool {
    &&& forall|root: Blake2bHash| #[trigger]
        before.contains_key(root) ==> after.contains_key(root) && after[root] == before[root]
    &&& match outcome {
        Ok(CommitResult::RootNotFound) => !before.contains_key(prestate_hash),
        Ok(CommitResult::Success { state_root }) => {
            &&& before.contains_key(prestate_hash)
            &&& commit_state(before[prestate_hash], effects) matches Some(state)
            &&& state_root == H::root_of(state)
            &&& after.contains_key(state_root)
            &&& after[state_root] == state
        },
        Ok(CommitResult::KeyNotFound(_)) => before.contains_key(prestate_hash) && commit_state(
            before[prestate_hash],
            effects,
        ).is_none(),
        Ok(CommitResult::TypeMismatch) => before.contains_key(prestate_hash) && commit_state(
            before[prestate_hash],
            effects,
        ).is_none(),
        Err(_) => true,
    }
}

/// Whether every change is a write.
pub open spec fn all_writes(effects: Seq<(Key, TransformView)>) -> bool {
    forall|i: int| 0 <= i < effects.len() ==> (#[trigger] effects[i]).1 is Write
}

/// Writes can be committed to any state.
pub proof fn lemma_writes_commit(state: Map<Key, ValueView>, effects: Seq<(Key, TransformView)>)
    requires
        all_writes(effects),
    ensures
        commit_state(state, effects).is_some(),
    decreases effects.len(),
{
    if effects.len() > 0 {
        let front = effects.drop_last();
        assert forall|i: int| 0 <= i < front.len() implies (#[trigger] front[i]).1 is Write by {
            assert(front[i] == effects[i]);
        }
        lemma_writes_commit(state, front);
        assert(effects[effects.len() - 1].1 is Write);
    }
}

/// Whether a state holds, under the key of each change, what the change
/// makes of the value that an earlier state held there, and under every
/// other key what the earlier state held: what a reader of the later state
/// reads is what the changes make of what a reader of the earlier state
/// reads.
pub open spec fn changes_read_back(
    earlier: Map<Key, ValueView>,
    later: Map<Key, ValueView>,
    effects: Seq<(Key, TransformView)>,
) -> bool {
    &&& forall|i: int|
        0 <= i < effects.len() ==> later.contains_key((#[trigger] effects[i]).0) && Some(
            later[effects[i].0],
        ) == change_at(earlier, effects[i].0, effects[i].1)
    &&& forall|key: Key|
        !crate::assoc::assoc_has(effects, key) ==> (#[trigger] later.contains_key(key)
            == earlier.contains_key(key)) && (earlier.contains_key(key) ==> later[key]
            == earlier[key])
}

/// After a commit that succeeded, of changes of which there is one for each
/// key, the new version reads back as what the changes make of the version
/// that they were made to.
pub proof fn lemma_commit_outcome_reads_back<H: History>(
    before: Map<Blake2bHash, Map<Key, ValueView>>,
    after: Map<Blake2bHash, Map<Key, ValueView>>,
    prestate_hash: Blake2bHash,
    effects: Seq<(Key, TransformView)>,
    state_root: Blake2bHash,
)
    requires
        crate::assoc::assoc_distinct(effects),
        commit_outcome::<H>(
            before,
            after,
            prestate_hash,
            effects,
            Ok(CommitResult::Success { state_root }),
        ),
    ensures
        before.contains_key(prestate_hash),
        after.contains_key(state_root),
        changes_read_back(before[prestate_hash], after[state_root], effects),
{
    lemma_commit_round_trip(before[prestate_hash], effects, after[state_root]);
}

} // verus!
