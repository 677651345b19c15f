//! Association lists: small maps that keep their entries in the order in
//! which the keys first came in.

use vstd::prelude::*;

verus! {

/// Whether `i` is the first place at which the key `k` stands in `s`.
pub open spec fn assoc_first<K, V>(s: Seq<(K, V)>, k: K, i: int) -> bool {
    &&& 0 <= i < s.len()
    &&& s[i].0 == k
    &&& forall|j: int| 0 <= j < i ==> (#[trigger] s[j]).0 != k
}

/// Whether the key `k` stands in `s`.
pub open spec fn assoc_has<K, V>(s: Seq<(K, V)>, k: K) -> bool {
    exists|i: int| assoc_first(s, k, i)
}

/// The first place at which the key `k` stands in `s`.
pub open spec fn assoc_index<K, V>(s: Seq<(K, V)>, k: K) -> int {
    choose|i: int| assoc_first(s, k, i)
}

/// The value that `s` holds for the key `k`.
pub open spec fn assoc_get<K, V>(s: Seq<(K, V)>, k: K) -> Option<V> {
    if assoc_has(s, k) {
        Some(s[assoc_index(s, k)].1)
    } else {
        None
    }
}

/// The list `s` with the value `v` for the key `k`: in the place of the old
/// value where there was one, else at the end.
pub open spec fn assoc_insert<K, V>(s: Seq<(K, V)>, k: K, v: V) -> Seq<(K, V)> {
    if assoc_has(s, k) {
        s.update(assoc_index(s, k), (k, v))
    } else {
        s.push((k, v))
    }
}

/// A key has at most one first place.
pub proof fn lemma_assoc_first_unique<K, V>(s: Seq<(K, V)>, k: K, i: int, j: int)
    requires
        assoc_first(s, k, i),
        assoc_first(s, k, j),
    ensures
        i == j,
{
    if i < j {
        assert(s[i].0 != k);
    } else if j < i {
        assert(s[j].0 != k);
    }
}

/// A key that stands somewhere in the list has a first place.
pub proof fn lemma_assoc_has<K, V>(s: Seq<(K, V)>, k: K, i: int)
    requires
        0 <= i < s.len(),
        s[i].0 == k,
    ensures
        assoc_has(s, k),
        assoc_index(s, k) <= i,
    decreases i,
{
    if exists|j: int| 0 <= j < i && (#[trigger] s[j]).0 == k {
        let j = choose|j: int| 0 <= j < i && (#[trigger] s[j]).0 == k;
        lemma_assoc_has(s, k, j);
    } else {
        assert(assoc_first(s, k, i));
        lemma_assoc_first_unique(s, k, i, assoc_index(s, k));
    }
}

/// A key that stands nowhere in the list has no value in it.
pub proof fn lemma_assoc_absent<K, V>(s: Seq<(K, V)>, k: K)
    requires
        forall|j: int| 0 <= j < s.len() ==> (#[trigger] s[j]).0 != k,
    ensures
        !assoc_has(s, k),
{
    if assoc_has(s, k) {
        let i = assoc_index(s, k);
        assert(s[i].0 == k);
    }
}

/// Putting in the value that the list already holds for a key changes
/// nothing.
pub proof fn lemma_assoc_insert_same<K, V>(s: Seq<(K, V)>, k: K, v: V)
    requires
        assoc_get(s, k) == Some(v),
    ensures
        assoc_insert(s, k, v) == s,
{
    let i = assoc_index(s, k);
    assert(s[i] == (k, v));
    assert(s.update(i, (k, v)) =~= s);
}

/// After an insertion the list holds the new value for the key, and for
/// every other key what it held before.
pub proof fn lemma_assoc_insert_get<K, V>(s: Seq<(K, V)>, k: K, v: V, k2: K)
    ensures
        assoc_get(assoc_insert(s, k, v), k2) == if k2 == k {
            Some(v)
        } else {
            assoc_get(s, k2)
        },
{
    let t = assoc_insert(s, k, v);
    if assoc_has(s, k) {
        let i = assoc_index(s, k);
        assert(t.len() == s.len());
        assert(forall|j: int| 0 <= j < s.len() ==> (#[trigger] t[j]).0 == s[j].0);
        if k2 == k {
            assert(assoc_first(t, k, i));
            lemma_assoc_first_unique(t, k, i, assoc_index(t, k));
        } else if assoc_has(s, k2) {
            let i2 = assoc_index(s, k2);
            assert(assoc_first(t, k2, i2));
            lemma_assoc_first_unique(t, k2, i2, assoc_index(t, k2));
        } else {
            if assoc_has(t, k2) {
                let i2 = assoc_index(t, k2);
                assert(s[i2].0 == t[i2].0);
                assert forall|j: int| 0 <= j < i2 implies (#[trigger] s[j]).0 != k2 by {
                    assert(t[j].0 == s[j].0);
                }
                assert(assoc_first(s, k2, i2));
            }
        }
    } else {
        let n = s.len() as int;
        assert(forall|j: int| 0 <= j < n ==> (#[trigger] t[j]) == s[j]);
        if k2 == k {
            assert forall|j: int| 0 <= j < n implies (#[trigger] t[j]).0 != k by {
                if s[j].0 == k {
                    lemma_assoc_has(s, k, j);
                }
            }
            assert(assoc_first(t, k, n));
            lemma_assoc_first_unique(t, k, n, assoc_index(t, k));
        } else if assoc_has(s, k2) {
            let i2 = assoc_index(s, k2);
            assert(assoc_first(t, k2, i2));
            lemma_assoc_first_unique(t, k2, i2, assoc_index(t, k2));
        } else {
            if assoc_has(t, k2) {
                let i2 = assoc_index(t, k2);
                assert(t[n].0 == k);
                assert(i2 < n);
                assert(t[i2] == s[i2]);
                assert forall|j: int| 0 <= j < i2 implies (#[trigger] s[j]).0 != k2 by {
                    assert(t[j] == s[j]);
                }
                assert(assoc_first(s, k2, i2));
            }
        }
    }
}

/// What identifies a key of an association list, and how two keys are told
/// apart at run time.
pub trait AssocKey: Sized {
    /// The mathematical value by which keys are compared.
    type Id;

    /// The value by which this key is compared.
    spec fn id(&self) -> Self::Id;

    /// Whether two keys are the same key.
    fn same(&self, other: &Self) -> (r: bool)
        ensures
            r == (self.id() == other.id()),
    ;

    /// A copy of the key.
    fn duplicate(&self) -> (r: Self)
        ensures
            r.id() == self.id(),
    ;
}

/// A value that can be copied so that the copy stands for the same
/// mathematical value.
pub trait Duplicate: View + Sized {
    /// A copy with the same view.
    fn duplicate(&self) -> (r: Self)
        ensures
            r@ == self@,
    ;
}

impl AssocKey for String {
    type Id = Seq<char>;

    open spec fn id(&self) -> Seq<char> {
        self@
    }

    fn same(&self, other: &Self) -> (r: bool) {
        *self == *other
    }

    fn duplicate(&self) -> (r: Self) {
        self.clone()
    }
}

/// A map from keys to values that keeps its entries in the order in which the
/// keys first came in.
#[derive(Debug, PartialEq, Eq)]
pub struct AssocList<K: AssocKey, V: View> {
    entries: Vec<(K, V)>,
}

impl<K: AssocKey, V: View> View for AssocList<K, V> {
    type V = Seq<(K::Id, V::V)>;

    closed spec fn view(&self) -> Seq<(K::Id, V::V)> {
        entries_view(self.entries@)
    }
}

/// The mathematical value of the entries of a list.
spec fn entries_view<K: AssocKey, V: View>(entries: Seq<(K, V)>) -> Seq<(K::Id, V::V)> {
    Seq::new(entries.len(), |i: int| (entries[i].0.id(), entries[i].1@))
}

impl<K: AssocKey, V: View> AssocList<K, V> {
    /// No key stands twice in a list.
    #[verifier::type_invariant]
    pub open spec fn distinct(self) -> bool {
        assoc_distinct(self@)
    }

    /// The list without entries.
    pub fn new() -> (r: Self)
        ensures
            r@ == Seq::<(K::Id, V::V)>::empty(),
    {
        let entries: Vec<(K, V)> = Vec::new();
        assert(entries_view(entries@) =~= Seq::<(K::Id, V::V)>::empty());
        AssocList { entries }
    }

    /// The number of entries.
    pub fn len(&self) -> (r: usize)
        ensures
            r == self@.len(),
    {
        self.entries.len()
    }

    /// Whether the list has no entry.
    pub fn is_empty(&self) -> (r: bool)
        ensures
            r == (self@.len() == 0),
    {
        self.entries.len() == 0
    }

    /// The place of a key in the list, if it is there.
    pub fn position(&self, key: &K) -> (r: Option<usize>)
        ensures
            r matches Some(i) ==> assoc_first(self@, key.id(), i as int),
            r.is_some() == assoc_has(self@, key.id()),
    {
        let mut i: usize = 0;
        while i < self.entries.len()
            invariant
                i <= self.entries@.len(),
                forall|j: int| 0 <= j < i ==> (#[trigger] self@[j]).0 != key.id(),
            decreases self.entries@.len() - i,
        {
            if self.entries[i].0.same(key) {
                assert(self@[i as int].0 == key.id());
                assert(assoc_first(self@, key.id(), i as int));
                return Some(i);
            }
            assert(self@[i as int].0 != key.id());
            i += 1;
        }
        proof {
            lemma_assoc_absent(self@, key.id());
        }
        None
    }

    /// Whether the list has a value for the key.
    pub fn contains_key(&self, key: &K) -> (r: bool)
        ensures
            r == assoc_has(self@, key.id()),
    {
        self.position(key).is_some()
    }

    /// The value that the list holds for the key.
    pub fn get(&self, key: &K) -> (r: Option<&V>)
        ensures
            r.is_some() == assoc_has(self@, key.id()),
            r matches Some(v) ==> assoc_get(self@, key.id()) == Some(v@),
    {
        match self.position(key) {
            Some(i) => {
                proof {
                    lemma_assoc_first_unique(
                        self@,
                        key.id(),
                        i as int,
                        assoc_index(self@, key.id()),
                    );
                }
                Some(&self.entries[i].1)
            },
            None => None,
        }
    }

    /// The key of the entry at a place.
    pub fn key_at(&self, i: usize) -> (r: &K)
        requires
            i < self@.len(),
        ensures
            r.id() == self@[i as int].0,
    {
        &self.entries[i].0
    }

    /// The value of the entry at a place.
    pub fn value_at(&self, i: usize) -> (r: &V)
        requires
            i < self@.len(),
        ensures
            r@ == self@[i as int].1,
    {
        &self.entries[i].1
    }

    /// Gives the key a value: in the place of its old value where it had one,
    /// else at the end.
    pub fn insert(&mut self, key: K, value: V)
        ensures
            final(self)@ == assoc_insert(old(self)@, key.id(), value@),
    {
        let ghost before = self@;
        let ghost after = assoc_insert(before, key.id(), value@);
        proof {
            use_type_invariant(&*self);
            lemma_assoc_insert_distinct(before, key.id(), value@);
        }
        let place = self.position(&key);
        let mut entries: Vec<(K, V)> = Vec::new();
        assert(entries_view(entries@) =~= Seq::<(K::Id, V::V)>::empty());
        core::mem::swap(&mut self.entries, &mut entries);
        match place {
            Some(i) => {
                proof {
                    lemma_assoc_first_unique(before, key.id(), i as int, assoc_index(before, key.id()));
                }
                entries.set(i, (key, value));
                assert(entries_view(entries@) =~= before.update(i as int, (key.id(), value@)));
            },
            None => {
                entries.push((key, value));
                assert(entries_view(entries@) =~= before.push((key.id(), value@)));
            },
        }
        assert(entries_view(entries@) == after);
        self.entries = entries;
    }
}

impl<K: AssocKey, V: Duplicate> AssocList<K, V> {
    /// A copy of the list with the same view.
    pub fn duplicate(&self) -> (r: Self)
        ensures
            r@ == self@,
    {
        let mut entries: Vec<(K, V)> = Vec::new();
        let mut i: usize = 0;
        while i < self.entries.len()
            invariant
                i <= self.entries@.len(),
                entries@.len() == i,
                forall|j: int|
                    0 <= j < i ==> (#[trigger] entries@[j]).0.id() == self.entries@[j].0.id()
                        && entries@[j].1@ == self.entries@[j].1@,
            decreases self.entries@.len() - i,
        {
            let key = self.entries[i].0.duplicate();
            let value = self.entries[i].1.duplicate();
            entries.push((key, value));
            i += 1;
        }
        proof {
            use_type_invariant(self);
        }
        assert(entries_view(entries@) =~= self@);
        AssocList { entries }
    }
}

impl<K: AssocKey, V: Duplicate> Clone for AssocList<K, V> {
    fn clone(&self) -> (r: Self)
        ensures
            r@ == self@,
    {
        self.duplicate()
    }
}

/// Whether no key stands twice in the list.
pub open spec fn assoc_distinct<K, V>(s: Seq<(K, V)>) -> bool {
    forall|i: int, j: int| 0 <= i < j < s.len() ==> (#[trigger] s[i]).0 != (#[trigger] s[j]).0
}

/// An insertion into a list without repeated keys gives such a list.
pub proof fn lemma_assoc_insert_distinct<K, V>(s: Seq<(K, V)>, k: K, v: V)
    requires
        assoc_distinct(s),
    ensures
        assoc_distinct(assoc_insert(s, k, v)),
{
    let t = assoc_insert(s, k, v);
    if assoc_has(s, k) {
        let at = assoc_index(s, k);
        assert forall|i: int, j: int| 0 <= i < j < t.len() implies (#[trigger] t[i]).0 != (
        #[trigger] t[j]).0 by {
            assert(t[i].0 == s[i].0);
            assert(t[j].0 == s[j].0);
        }
    } else {
        let n = s.len() as int;
        assert forall|i: int, j: int| 0 <= i < j < t.len() implies (#[trigger] t[i]).0 != (
        #[trigger] t[j]).0 by {
            if j < n {
                assert(t[i] == s[i]);
                assert(t[j] == s[j]);
            } else {
                assert(t[i] == s[i]);
                if s[i].0 == k {
                    lemma_assoc_has(s, k, i);
                }
            }
        }
    }
}

/// Where a key has its first place after an insertion: the key that was put
/// in stands where it stood, or at the end if it is new; every other key
/// stands where it stood.
pub proof fn lemma_assoc_insert_index<K, V>(s: Seq<(K, V)>, k: K, v: V, k2: K)
    ensures
        assoc_has(assoc_insert(s, k, v), k),
        assoc_index(assoc_insert(s, k, v), k) == if assoc_has(s, k) {
            assoc_index(s, k)
        } else {
            s.len() as int
        },
        k2 != k ==> assoc_has(assoc_insert(s, k, v), k2) == assoc_has(s, k2),
        k2 != k && assoc_has(s, k2) ==> assoc_index(assoc_insert(s, k, v), k2) == assoc_index(
            s,
            k2,
        ),
{
    let t = assoc_insert(s, k, v);
    let n = s.len() as int;
    if assoc_has(s, k) {
        let i = assoc_index(s, k);
        assert forall|j: int| 0 <= j < n implies (#[trigger] t[j]).0 == s[j].0 by {}
        assert(assoc_first(t, k, i));
        lemma_assoc_first_unique(t, k, i, assoc_index(t, k));
        if k2 != k {
            if assoc_has(s, k2) {
                let i2 = assoc_index(s, k2);
                assert(assoc_first(t, k2, i2));
                lemma_assoc_first_unique(t, k2, i2, assoc_index(t, k2));
            } else if assoc_has(t, k2) {
                let i2 = assoc_index(t, k2);
                assert(s[i2].0 == t[i2].0);
                assert forall|j: int| 0 <= j < i2 implies (#[trigger] s[j]).0 != k2 by {
                    assert(t[j].0 == s[j].0);
                }
                assert(assoc_first(s, k2, i2));
            }
        }
    } else {
        assert forall|j: int| 0 <= j < n implies (#[trigger] t[j]) == s[j] by {}
        assert forall|j: int| 0 <= j < n implies (#[trigger] t[j]).0 != k by {
            if s[j].0 == k {
                lemma_assoc_has(s, k, j);
            }
        }
        assert(t[n].0 == k);
        assert(assoc_first(t, k, n));
        lemma_assoc_first_unique(t, k, n, assoc_index(t, k));
        if k2 != k {
            if assoc_has(s, k2) {
                let i2 = assoc_index(s, k2);
                assert(assoc_first(t, k2, i2));
                lemma_assoc_first_unique(t, k2, i2, assoc_index(t, k2));
            } else if assoc_has(t, k2) {
                let i2 = assoc_index(t, k2);
                assert(i2 < n);
                assert(t[i2] == s[i2]);
                assert forall|j: int| 0 <= j < i2 implies (#[trigger] s[j]).0 != k2 by {
                    assert(t[j] == s[j]);
                }
                assert(assoc_first(s, k2, i2));
            }
        }
    }
}

/// Of two insertions for one key, the later one counts.
pub proof fn lemma_assoc_insert_twice<K, V>(s: Seq<(K, V)>, k: K, a: V, b: V)
    ensures
        assoc_insert(assoc_insert(s, k, a), k, b) == assoc_insert(s, k, b),
{
    lemma_assoc_insert_index(s, k, a, k);
    let first = assoc_insert(s, k, a);
    if assoc_has(s, k) {
        assert(first.update(assoc_index(s, k), (k, b)) =~= s.update(assoc_index(s, k), (k, b)));
    } else {
        assert(first.update(s.len() as int, (k, b)) =~= s.push((k, b)));
    }
}

/// Insertions for two keys may be made in either order, as long as one of
/// the keys already stands in the list.
pub proof fn lemma_assoc_insert_commute<K, V>(s: Seq<(K, V)>, k: K, a: V, k2: K, b: V)
    requires
        k != k2,
        assoc_has(s, k),
    ensures
        assoc_insert(assoc_insert(s, k, a), k2, b) == assoc_insert(assoc_insert(s, k2, b), k, a),
{
    lemma_assoc_insert_index(s, k, a, k2);
    lemma_assoc_insert_index(s, k2, b, k);
    let i = assoc_index(s, k);
    assert(s[i].0 == k);
    if assoc_has(s, k2) {
        let j = assoc_index(s, k2);
        assert(s[j].0 == k2);
        assert(s.update(i, (k, a)).update(j, (k2, b)) =~= s.update(j, (k2, b)).update(i, (k, a)));
    } else {
        assert(s.update(i, (k, a)).push((k2, b)) =~= s.push((k2, b)).update(i, (k, a)));
    }
}

} // verus!
