//! The sequential store: an ordered, append-only container whose `push`
//! returns a reference handle that stays valid across later pushes.

use vstd::prelude::*;

use crate::stable::StaticType;

verus! {

/// A reference handle into a sequential store.
///
/// A handle is returned by a push and is dereferenced by presenting it back
/// to the store ([`VecOwner::get`] or [`VecChild::get`]).  Its view is the
/// position of the element it was issued for; since the store is append-only,
/// that position — and the payload read through it — never goes stale for the
/// owner's whole lifetime.
#[derive(Clone, Copy, Debug, PartialEq, Eq)]
pub struct VecRef {
    idx: usize,
}

impl View for VecRef {
    type V = int;

    closed spec fn view(&self) -> int {
        self.idx as int
    }
}

/// The long-lived owner of an ordered, append-only sequence of elements.
///
/// Its view is the sequence of elements inserted so far, in order.  The owner
/// alone holds storage; insertions go through the scoped [`VecChild`] handle
/// obtained from [`VecOwner::child`].
#[derive(Debug)]
pub struct VecOwner<T> {
    elems: Vec<T>,
}

impl<T> View for VecOwner<T> {
    type V = Seq<T>;

    closed spec fn view(&self) -> Seq<T> {
        self.elems@
    }
}

impl<T: StaticType> VecOwner<T> {
    /// Create a new empty store.
    pub fn new() -> (s: Self)
        ensures
            s@ == Seq::<T>::empty(),
    {
        VecOwner { elems: Vec::new() }
    }

    /// Append `v` to the owned sequence and return a handle for it.
    ///
    /// The backing storage may grow and relocate; only the element's slot
    /// moves, so every handle issued earlier still reads its own element.
    pub(crate) fn push(&mut self, v: T) -> (r: VecRef)
        ensures
            final(self)@ == old(self)@.push(v),
            old(self)@.is_prefix_of(final(self)@),
            r@ == old(self)@.len(),
    {
        let idx: usize = self.elems.len();
        self.elems.push(v);
        proof {
            assert(old(self)@ =~= self@.subrange(0, old(self)@.len() as int));
        }
        VecRef { idx }
    }

    /// Obtain the exclusive insertion handle for this store.
    ///
    /// The owner moves into the handle, so no second insertion handle can be
    /// active at the same time; [`VecChild::finish`] gives the owner back.
    pub fn child(self) -> (c: VecChild<T>)
        ensures
            c@ == self@,
    {
        VecChild { owner: self }
    }

    /// Dereference a handle: read the payload of the element it was issued
    /// for.
    pub fn get(&self, r: VecRef) -> (out: &T::Ref)
        requires
            0 <= r@ < self@.len(),
        ensures
            *out == self@[r@].ref_spec(),
    {
        self.elems[r.idx].ref_value()
    }

    /// The number of elements inserted so far.
    pub fn len(&self) -> (n: usize)
        ensures
            n == self@.len(),
    {
        self.elems.len()
    }
}

/// The scoped, exclusive insertion handle over a [`VecOwner`].
///
/// It owns no storage of its own: it exists to mediate mutation and to shape
/// when insertions may happen.  Handles returned by [`VecChild::push`] outlive
/// it — they are dereferenced against the owner after [`VecChild::finish`],
/// or against this handle while it is still active.
#[derive(Debug)]
pub struct VecChild<T> {
    owner: VecOwner<T>,
}

impl<T> View for VecChild<T> {
    type V = Seq<T>;

    closed spec fn view(&self) -> Seq<T> {
        self.owner@
    }
}

impl<T: StaticType> VecChild<T> {
    /// Append `v` to the owner's sequence and return a handle for it.
    ///
    /// Always succeeds; the handle's view is the position the element was
    /// appended at.
    pub fn push(&mut self, v: T) -> (r: VecRef)
        ensures
            final(self)@ == old(self)@.push(v),
            old(self)@.is_prefix_of(final(self)@),
            r@ == old(self)@.len(),
    {
        self.owner.push(v)
    }

    /// Dereference a handle while the insertion scope is still active.
    pub fn get(&self, r: VecRef) -> (out: &T::Ref)
        requires
            0 <= r@ < self@.len(),
        ensures
            *out == self@[r@].ref_spec(),
    {
        self.owner.get(r)
    }

    /// End the insertion scope and give the owner back.
    ///
    /// Every handle issued so far keeps its meaning against the returned
    /// owner, and against any later insertion scope opened from it.
    pub fn finish(self) -> (o: VecOwner<T>)
        ensures
            o@ == self@,
    {
        self.owner
    }
}

/// Stability of sequential reference handles.
///
/// If a store once held the sequence `earlier` and, after any number of
/// further pushes, holds `later` (so `earlier` is a prefix of `later`), then
/// a handle `r` issued while the store held `earlier` still names the same
/// element, and dereferencing it still yields that element's payload,
/// unchanged.
pub proof fn lemma_pushed_payload_stable<T: StaticType>(earlier: Seq<T>, later: Seq<T>, r: VecRef)
    requires
        earlier.is_prefix_of(later),
        0 <= r@ < earlier.len(),
    ensures
        later[r@] == earlier[r@],
        later[r@].ref_spec() == earlier[r@].ref_spec(),
{
    assert(earlier[r@] == later.subrange(0, earlier.len() as int)[r@]);
}

} // verus!
