//! The associative store: a unique-keyed mapping whose insertions return
//! reference handles that stay valid across later insertions.

use vstd::prelude::*;

use crate::stable::StaticType;

verus! {

/// The capability required of a key type of the associative store.
///
/// Keys are compared by equality of their views: the executable test
/// [`MapKey::key_eq`] must decide whether two keys have the same view.  This
/// is what lets the store prove that its keys stay unique and that a
/// duplicate insertion changes nothing.
pub trait MapKey: View + Sized {
    /// Decide whether `self` and `other` are the same key.
    fn key_eq(&self, other: &Self) -> (r: bool)
        ensures
            r == (self@ == other@),
    ;
}

impl MapKey for String {
    fn key_eq(&self, other: &Self) -> (r: bool) {
        *self == *other
    }
}

impl MapKey for u32 {
    fn key_eq(&self, other: &Self) -> (r: bool) {
        *self == *other
    }
}

impl MapKey for u64 {
    fn key_eq(&self, other: &Self) -> (r: bool) {
        *self == *other
    }
}

impl MapKey for usize {
    fn key_eq(&self, other: &Self) -> (r: bool) {
        *self == *other
    }
}

impl MapKey for i32 {
    fn key_eq(&self, other: &Self) -> (r: bool) {
        *self == *other
    }
}

impl MapKey for i64 {
    fn key_eq(&self, other: &Self) -> (r: bool) {
        *self == *other
    }
}

/// A reference handle into an associative store.
///
/// A handle is returned by a successful insertion and is dereferenced by
/// presenting it back to the store ([`HashMapOwner::get`] or
/// [`HashMapChild::get`]).  Its view is the position of its entry in
/// insertion order; entries are never removed or overwritten, so the payload
/// read through a handle never changes for the owner's whole lifetime.
#[derive(Clone, Copy, Debug, PartialEq, Eq)]
pub struct MapRef {
    idx: usize,
}

impl View for MapRef {
    type V = int;

    closed spec fn view(&self) -> int {
        self.idx as int
    }
}

/// Whether some entry of `entries` has a key with view `k`.
pub open spec fn seq_contains_key<K: MapKey, T>(entries: Seq<(K, T)>, k: K::V) -> bool {
    exists|i: int| 0 <= i < entries.len() && (#[trigger] entries[i]).0@ == k
}

/// Whether the keys of `entries` are pairwise distinct, by view.
pub open spec fn seq_keys_distinct<K: MapKey, T>(entries: Seq<(K, T)>) -> bool {
    forall|i: int, j: int|
        0 <= i < entries.len() && 0 <= j < entries.len() && i != j ==> (#[trigger] entries[i]).0@
            != (#[trigger] entries[j]).0@
}

/// The long-lived owner of a unique-keyed mapping from key to element.
///
/// Its view is the sequence of key/element entries in insertion order; the
/// store's invariant [`HashMapOwner::wf`] keeps the keys pairwise distinct,
/// so the entries also denote a mapping.  The owner alone holds storage;
/// insertions go through the scoped [`HashMapChild`] handle obtained from
/// [`HashMapOwner::child`].
#[derive(Debug)]
pub struct HashMapOwner<K, T> {
    entries: Vec<(K, T)>,
}

impl<K, T> View for HashMapOwner<K, T> {
    type V = Seq<(K, T)>;

    closed spec fn view(&self) -> Seq<(K, T)> {
        self.entries@
    }
}

impl<K: MapKey, T: StaticType> HashMapOwner<K, T> {
    /// The store's invariant: keys are unique.
    pub open spec fn wf(&self) -> bool {
        seq_keys_distinct(self@)
    }

    /// Whether a key with view `k` is present.
    pub open spec fn contains_key(&self, k: K::V) -> bool {
        seq_contains_key(self@, k)
    }

    /// Create a new empty store.
    pub fn new() -> (s: Self)
        ensures
            s@ == Seq::<(K, T)>::empty(),
            s.wf(),
    {
        HashMapOwner { entries: Vec::new() }
    }

    /// Insert `v` under `key` if `key` is not yet present.
    ///
    /// On a fresh key the entry is appended and a handle for it is returned.
    /// On a duplicate key nothing is stored or changed — `v` is discarded —
    /// and `None` signals the rejection.  The duplicate test scans the
    /// entries, so an insertion costs time linear in the store's size.
    pub(crate) fn try_insert(&mut self, key: K, v: T) -> (r: Option<MapRef>)
        requires
            old(self).wf(),
        ensures
            final(self).wf(),
            old(self)@.is_prefix_of(final(self)@),
            old(self).contains_key(key@) ==> r is None && final(self)@ == old(self)@,
            !old(self).contains_key(key@) ==> {
                &&& final(self)@ == old(self)@.push((key, v))
                &&& r matches Some(h) && h@ == old(self)@.len()
            },
    {
        let n: usize = self.entries.len();
        let mut i: usize = 0;
        while i < n
            invariant
                n == self@.len(),
                self@ == old(self)@,
                self.wf(),
                0 <= i <= n,
                forall|j: int| 0 <= j < i ==> (#[trigger] self@[j]).0@ != key@,
            decreases n - i,
        {
            if self.entries[i].0.key_eq(&key) {
                proof {
                    assert(old(self)@ =~= self@.subrange(0, old(self)@.len() as int));
                }
                return None;
            }
            i += 1;
        }
        self.entries.push((key, v));
        proof {
            assert(old(self)@ =~= self@.subrange(0, old(self)@.len() as int));
            assert forall|a: int, b: int|
                0 <= a < self@.len() && 0 <= b < self@.len() && a != b implies (
            #[trigger] self@[a]).0@ != (#[trigger] self@[b]).0@ by {
                if a < old(self)@.len() && b < old(self)@.len() {
                    assert(old(self)@[a].0@ != old(self)@[b].0@);
                }
            }
        }
        Some(MapRef { idx: n })
    }

    /// Obtain the exclusive insertion handle for this store.
    ///
    /// The owner moves into the handle, so no second insertion handle can be
    /// active at the same time; [`HashMapChild::finish`] gives the owner
    /// back.
    pub fn child(self) -> (c: HashMapChild<K, T>)
        ensures
            c@ == self@,
    {
        HashMapChild { owner: self }
    }

    /// Dereference a handle: read the payload of the element it was issued
    /// for.
    pub fn get(&self, r: MapRef) -> (out: &T::Ref)
        requires
            0 <= r@ < self@.len(),
        ensures
            *out == self@[r@].1.ref_spec(),
    {
        self.entries[r.idx].1.ref_value()
    }

    /// The number of entries inserted so far.
    pub fn len(&self) -> (n: usize)
        ensures
            n == self@.len(),
    {
        self.entries.len()
    }
}

/// The scoped, exclusive insertion handle over a [`HashMapOwner`].
///
/// It owns no storage of its own: it exists to mediate mutation and to shape
/// when insertions may happen.  Handles returned by insertions outlive it —
/// they are dereferenced against the owner after [`HashMapChild::finish`], or
/// against this handle while it is still active.
#[derive(Debug)]
pub struct HashMapChild<K, T> {
    owner: HashMapOwner<K, T>,
}

impl<K, T> View for HashMapChild<K, T> {
    type V = Seq<(K, T)>;

    closed spec fn view(&self) -> Seq<(K, T)> {
        self.owner@
    }
}

impl<K: MapKey, T: StaticType> HashMapChild<K, T> {
    /// The store's invariant: keys are unique.
    pub open spec fn wf(&self) -> bool {
        seq_keys_distinct(self@)
    }

    /// Whether a key with view `k` is present.
    pub open spec fn contains_key(&self, k: K::V) -> bool {
        seq_contains_key(self@, k)
    }

    /// Insert `v` under `key` if `key` is not yet present.
    ///
    /// On a fresh key the entry is appended and a handle for it is returned;
    /// the handle keeps its meaning after this insertion scope ends.  On a
    /// duplicate key nothing is stored or changed — `v` is discarded — and
    /// `None` signals the rejection.
    pub fn try_insert(&mut self, key: K, v: T) -> (r: Option<MapRef>)
        requires
            old(self).wf(),
        ensures
            final(self).wf(),
            old(self)@.is_prefix_of(final(self)@),
            old(self).contains_key(key@) ==> r is None && final(self)@ == old(self)@,
            !old(self).contains_key(key@) ==> {
                &&& final(self)@ == old(self)@.push((key, v))
                &&& r matches Some(h) && h@ == old(self)@.len()
            },
    {
        self.owner.try_insert(key, v)
    }

    /// Insert `v` under `key`, which must not be present yet.
    ///
    /// This is the shortcut for call sites where a duplicate key is a
    /// programming error rather than an expected outcome: the duplicate case
    /// is excluded by precondition, and an unverified caller that violates it
    /// hits a fatal failure — the store is never silently overwritten and no
    /// handle is produced for the rejected value.
    pub fn insert(&mut self, key: K, v: T) -> (r: MapRef)
        requires
            old(self).wf(),
            !old(self).contains_key(key@),
        ensures
            final(self).wf(),
            final(self)@ == old(self)@.push((key, v)),
            old(self)@.is_prefix_of(final(self)@),
            r@ == old(self)@.len(),
    {
        let inserted = self.try_insert(key, v);
        match inserted {
            Some(h) => h,
            None => vstd::pervasive::unreached(),
        }
    }

    /// Dereference a handle while the insertion scope is still active.
    pub fn get(&self, r: MapRef) -> (out: &T::Ref)
        requires
            0 <= r@ < self@.len(),
        ensures
            *out == self@[r@].1.ref_spec(),
    {
        self.owner.get(r)
    }

    /// End the insertion scope and give the owner back.
    ///
    /// Every handle issued so far keeps its meaning against the returned
    /// owner, and against any later insertion scope opened from it.
    pub fn finish(self) -> (o: HashMapOwner<K, T>)
        ensures
            o@ == self@,
    {
        self.owner
    }
}

/// Stability of associative reference handles.
///
/// If a store once held the entries `earlier` and, after any number of
/// further insertions, holds `later` (so `earlier` is a prefix of `later`),
/// then a handle `r` issued while the store held `earlier` still names the
/// same entry, and dereferencing it still yields that entry's payload,
/// unchanged.  In particular a rejected duplicate insertion, which leaves the
/// entries untouched, changes no read through any handle.
pub proof fn lemma_inserted_payload_stable<K: MapKey, T: StaticType>(
    earlier: Seq<(K, T)>,
    later: Seq<(K, T)>,
    r: MapRef,
)
    requires
        earlier.is_prefix_of(later),
        0 <= r@ < earlier.len(),
    ensures
        later[r@] == earlier[r@],
        later[r@].1.ref_spec() == earlier[r@].1.ref_spec(),
{
    assert(earlier[r@] == later.subrange(0, earlier.len() as int)[r@]);
}

} // verus!
