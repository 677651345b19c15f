//! What a deploy did to global state: an operation and a change for each key
//! that it touched.

use vstd::prelude::*;

use crate::assoc::{assoc_get, assoc_insert, AssocList, Duplicate};
use crate::global_state::{change_at, changed_state, commit_state, lemma_commit_key_by_key};
use crate::key::Key;
use crate::op::Op;
use crate::transform::{Transform, TransformView};
use crate::value::ValueView;

verus! {

/// The operations `base` after one more operation on a key was joined in.
pub open spec fn ops_record(base: Seq<(Key, Op)>, key: Key, op: Op) -> Seq<(Key, Op)> {
    assoc_insert(
        base,
        key,
        match assoc_get(base, key) {
            Some(earlier) => earlier.spec_join(op),
            None => op,
        },
    )
}

/// The operations `base` after each entry of `more` was joined in, in order.
pub open spec fn ops_merge(base: Seq<(Key, Op)>, more: Seq<(Key, Op)>) -> Seq<(Key, Op)>
    decreases more.len(),
{
    if more.len() == 0 {
        base
    } else {
        ops_record(ops_merge(base, more.drop_last()), more.last().0, more.last().1)
    }
}

/// The changes `base` after one more change to a key was composed in: the key
/// ends with the one change that stands for all that was done to it.
pub open spec fn transforms_record(
    base: Seq<(Key, TransformView)>,
    key: Key,
    transform: TransformView,
) -> Seq<(Key, TransformView)> {
    assoc_insert(
        base,
        key,
        match assoc_get(base, key) {
            Some(earlier) => earlier.compose(transform),
            None => transform,
        },
    )
}

/// The changes `base` after each entry of `more` was composed in, in order.
pub open spec fn transforms_merge(
    base: Seq<(Key, TransformView)>,
    more: Seq<(Key, TransformView)>,
) -> Seq<(Key, TransformView)>
    decreases more.len(),
{
    if more.len() == 0 {
        base
    } else {
        transforms_record(
            transforms_merge(base, more.drop_last()),
            more.last().0,
            more.last().1,
        )
    }
}

/// Joins an operation on a key into a map of operations.
pub fn record_op(ops: &mut AssocList<Key, Op>, key: Key, op: Op)
    ensures
        final(ops)@ == ops_record(old(ops)@, key, op),
{
    let joined = match ops.get(&key) {
        Some(earlier) => earlier.join(op),
        None => op,
    };
    ops.insert(key, joined);
}

/// Composes a change to a key into a map of changes.
pub fn record_transform(transforms: &mut AssocList<Key, Transform>, key: Key, transform: Transform)
    ensures
        final(transforms)@ == transforms_record(old(transforms)@, key, transform@),
{
    let composed = match transforms.get(&key) {
        Some(earlier) => earlier.duplicate().compose(transform),
        None => transform,
    };
    transforms.insert(key, composed);
}

/// Merging a list is merging all but its last entry, then the last.
pub proof fn lemma_ops_merge_step(base: Seq<(Key, Op)>, more: Seq<(Key, Op)>, i: int)
    requires
        0 <= i < more.len(),
    ensures
        ops_merge(base, more.subrange(0, i + 1)) == ops_record(
            ops_merge(base, more.subrange(0, i)),
            more[i].0,
            more[i].1,
        ),
{
    let next = more.subrange(0, i + 1);
    assert(next.drop_last() =~= more.subrange(0, i));
    assert(next.last() == more[i]);
}

/// Merging a list is merging all but its last entry, then the last.
pub proof fn lemma_transforms_merge_step(
    base: Seq<(Key, TransformView)>,
    more: Seq<(Key, TransformView)>,
    i: int,
)
    requires
        0 <= i < more.len(),
    ensures
        transforms_merge(base, more.subrange(0, i + 1)) == transforms_record(
            transforms_merge(base, more.subrange(0, i)),
            more[i].0,
            more[i].1,
        ),
{
    let next = more.subrange(0, i + 1);
    assert(next.drop_last() =~= more.subrange(0, i));
    assert(next.last() == more[i]);
}

/// What a deploy did to global state.
#[derive(Debug, PartialEq, Eq)]
pub struct ExecutionEffect {
    /// What was done to each key.
    pub ops: AssocList<Key, Op>,
    /// The change to the value under each key.
    pub transforms: AssocList<Key, Transform>,
}

/// The mathematical value of an effect.
pub struct ExecutionEffectView {
    pub ops: Seq<(Key, Op)>,
    pub transforms: Seq<(Key, TransformView)>,
}

impl ExecutionEffectView {
    /// The effect of a deploy that did nothing.
    pub open spec fn empty() -> ExecutionEffectView {
        ExecutionEffectView { ops: Seq::empty(), transforms: Seq::empty() }
    }

    /// This effect followed by another.
    pub open spec fn merge(self, other: ExecutionEffectView) -> ExecutionEffectView {
        ExecutionEffectView {
            ops: ops_merge(self.ops, other.ops),
            transforms: transforms_merge(self.transforms, other.transforms),
        }
    }
}

impl View for ExecutionEffect {
    type V = ExecutionEffectView;

    open spec fn view(&self) -> ExecutionEffectView {
        ExecutionEffectView { ops: self.ops@, transforms: self.transforms@ }
    }
}

impl ExecutionEffect {
    /// The effect with the given operations and changes.
    pub fn new(ops: AssocList<Key, Op>, transforms: AssocList<Key, Transform>) -> (r: Self)
        ensures
            r@ == (ExecutionEffectView { ops: ops@, transforms: transforms@ }),
    {
        ExecutionEffect { ops, transforms }
    }

    /// The effect of a deploy that did nothing.
    pub fn empty() -> (r: Self)
        ensures
            r@ == ExecutionEffectView::empty(),
    {
        ExecutionEffect { ops: AssocList::new(), transforms: AssocList::new() }
    }

    /// Lets another effect follow this one.
    pub fn absorb(&mut self, other: &ExecutionEffect)
        ensures
            final(self)@ == old(self)@.merge(other@),
    {
        let mut i: usize = 0;
        while i < other.ops.len()
            invariant
                i <= other.ops@.len(),
                self.ops@ == ops_merge(old(self).ops@, other.ops@.subrange(0, i as int)),
                self.transforms@ == old(self).transforms@,
            decreases other.ops@.len() - i,
        {
            proof {
                lemma_ops_merge_step(old(self).ops@, other.ops@, i as int);
            }
            record_op(&mut self.ops, *other.ops.key_at(i), *other.ops.value_at(i));
            i += 1;
        }
        assert(other.ops@.subrange(0, i as int) =~= other.ops@);
        let mut j: usize = 0;
        while j < other.transforms.len()
            invariant
                j <= other.transforms@.len(),
                self.ops@ == ops_merge(old(self).ops@, other.ops@),
                self.transforms@ == transforms_merge(
                    old(self).transforms@,
                    other.transforms@.subrange(0, j as int),
                ),
            decreases other.transforms@.len() - j,
        {
            proof {
                lemma_transforms_merge_step(old(self).transforms@, other.transforms@, j as int);
            }
            record_transform(
                &mut self.transforms,
                *other.transforms.key_at(j),
                other.transforms.value_at(j).duplicate(),
            );
            j += 1;
        }
        assert(other.transforms@.subrange(0, j as int) =~= other.transforms@);
    }
}

impl Duplicate for ExecutionEffect {
    fn duplicate(&self) -> (r: Self) {
        ExecutionEffect { ops: self.ops.duplicate(), transforms: self.transforms.duplicate() }
    }
}

impl Clone for ExecutionEffect {
    fn clone(&self) -> (r: Self)
        ensures
            r@ == self@,
    {
        self.duplicate()
    }
}

/// Changes that are merged into changes without repeated keys have no
/// repeated keys.
pub proof fn lemma_transforms_merge_distinct(
    base: Seq<(Key, TransformView)>,
    more: Seq<(Key, TransformView)>,
)
    requires
        crate::assoc::assoc_distinct(base),
    ensures
        crate::assoc::assoc_distinct(transforms_merge(base, more)),
    decreases more.len(),
{
    if more.len() > 0 {
        lemma_transforms_merge_distinct(base, more.drop_last());
        let merged = transforms_merge(base, more.drop_last());
        crate::assoc::lemma_assoc_insert_distinct(
            merged,
            more.last().0,
            match assoc_get(merged, more.last().0) {
                Some(earlier) => earlier.compose(more.last().1),
                None => more.last().1,
            },
        );
    }
}

/// Whether every change in a log is in order.
pub open spec fn log_well_formed(log: Seq<(Key, TransformView)>) -> bool {
    forall|i: int| 0 <= i < log.len() ==> (#[trigger] log[i]).1.well_formed()
}

/// A log of changes that can be committed one after the other can be
/// committed as its merged changes, and that gives the same state.
pub proof fn lemma_merged_log_commits(
    state: Map<Key, ValueView>,
    log: Seq<(Key, TransformView)>,
    committed: Map<Key, ValueView>,
)
    requires
        log_well_formed(log),
        commit_state(state, log) == Some(committed),
    ensures
        commit_state(state, transforms_merge(Seq::empty(), log)) == Some(committed),
        crate::assoc::assoc_distinct(transforms_merge(Seq::empty(), log)),
        log_well_formed(transforms_merge(Seq::empty(), log)),
    decreases log.len(),
{
    if log.len() > 0 {
        let front = log.drop_last();
        let (key, transform) = log.last();
        assert(log[log.len() - 1].1.well_formed());
        assert forall|i: int| 0 <= i < front.len() implies (#[trigger] front[i]).1.well_formed() by {
            assert(front[i] == log[i]);
        }
        let earlier = commit_state(state, front).unwrap();
        lemma_merged_log_commits(state, front, earlier);
        let merged = transforms_merge(Seq::empty(), front);
        let recorded = transforms_record(merged, key, transform);
        assert(transforms_merge(Seq::empty(), log) == recorded);
        lemma_commit_key_by_key(state, merged);
        let composed = match assoc_get(merged, key) {
            Some(before) => before.compose(transform),
            None => transform,
        };
        crate::assoc::lemma_assoc_insert_distinct(merged, key, composed);
        lemma_commit_key_by_key(state, recorded);
        if crate::assoc::assoc_has(merged, key) {
            let at = crate::assoc::assoc_index(merged, key);
            let before = merged[at].1;
            assert(merged[at].0 == key);
            assert(before.well_formed());
            crate::transform::lemma_compose_well_formed(before, transform);
            assert(change_at(state, key, before).is_some());
            assert(earlier.contains_key(key));
            assert(Some(earlier[key]) == change_at(state, key, before));
            if state.contains_key(key) {
                crate::transform::lemma_compose_apply(before, transform, state[key]);
            }
            assert(Some(committed[key]) == change_at(state, key, composed));
            assert forall|i: int| 0 <= i < recorded.len() implies (
            #[trigger] recorded[i]).1.well_formed() by {
                if i != at {
                    assert(recorded[i] == merged[i]);
                }
            }
            assert forall|i: int| 0 <= i < recorded.len() implies change_at(
                state,
                (#[trigger] recorded[i]).0,
                recorded[i].1,
            ).is_some() by {
                if i != at {
                    assert(recorded[i] == merged[i]);
                }
            }
            let now = changed_state(state, recorded);
            assert(earlier == changed_state(state, merged));
            assert(committed == earlier.insert(key, committed[key]));
            assert forall|k: Key| #[trigger]
                now.dom().contains(k) == committed.dom().contains(k) by {
                crate::assoc::lemma_assoc_insert_index(merged, key, composed, k);
            }
            assert forall|k: Key| now.dom().contains(k) implies #[trigger] now[k]
                == committed[k] by {
                crate::assoc::lemma_assoc_insert_index(merged, key, composed, k);
                crate::assoc::lemma_assoc_insert_get(merged, key, composed, k);
            }
            assert(now =~= committed);
        } else {
            assert(recorded =~= merged.push((key, transform)));
            assert(recorded.drop_last() =~= merged);
            assert forall|i: int| 0 <= i < recorded.len() implies (
            #[trigger] recorded[i]).1.well_formed() by {
                if i < merged.len() {
                    assert(recorded[i] == merged[i]);
                }
            }
        }
    } else {
        assert(transforms_merge(Seq::empty(), log) =~= Seq::<(Key, TransformView)>::empty());
    }
}

/// Writes that are merged into writes are writes.
pub proof fn lemma_writes_merge(base: Seq<(Key, TransformView)>, more: Seq<(Key, TransformView)>)
    requires
        crate::global_state::all_writes(base),
        crate::global_state::all_writes(more),
    ensures
        crate::global_state::all_writes(transforms_merge(base, more)),
    decreases more.len(),
{
    if more.len() > 0 {
        let front = more.drop_last();
        assert forall|i: int| 0 <= i < front.len() implies (#[trigger] front[i]).1 is Write by {
            assert(front[i] == more[i]);
        }
        lemma_writes_merge(base, front);
        let merged = transforms_merge(base, front);
        let (key, transform) = more.last();
        assert(more[more.len() - 1].1 is Write);
        let recorded = transforms_record(merged, key, transform);
        if crate::assoc::assoc_has(merged, key) {
            let at = crate::assoc::assoc_index(merged, key);
            assert(merged[at].1 is Write);
            assert forall|i: int| 0 <= i < recorded.len() implies (
            #[trigger] recorded[i]).1 is Write by {
                if i != at {
                    assert(recorded[i] == merged[i]);
                }
            }
        } else {
            assert forall|i: int| 0 <= i < recorded.len() implies (
            #[trigger] recorded[i]).1 is Write by {
                if i < merged.len() {
                    assert(recorded[i] == merged[i]);
                }
            }
        }
    }
}

} // verus!
