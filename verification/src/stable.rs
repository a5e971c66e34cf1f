//! The stability contract: the capability an element type must offer so that
//! a store can hand out payload references that stay meaningful while the
//! store keeps growing.

use vstd::prelude::*;

verus! {

/// The capability required of every storable element type.
///
/// An element carries a payload of type [`Self::Ref`]; dereferencing a
/// reference handle against a store yields that payload.  The contract ties
/// the executable accessor [`Self::ref_value`] to the specification-level
/// payload [`Self::ref_spec`], so the stores can prove that every read
/// through a handle returns the payload of the element that was inserted,
/// unchanged by later insertions or by growth of the backing storage.
///
/// Implementers typically reach the payload through heap indirection — the
/// element is a handle to a heap-held payload, as with [`Box`] — though with
/// index-based reference handles the stores never rely on the payload's
/// machine address: stability is proved structurally, for every implementer
/// of this trait.
pub trait StaticType: Sized {
    /// The payload type that a reference handle resolves to.
    type Ref;

    /// The payload carried by this element, as a specification-level value.
    spec fn ref_spec(&self) -> Self::Ref;

    /// Borrow the element's payload.
    fn ref_value(&self) -> (r: &Self::Ref)
        ensures
            *r == self.ref_spec(),
    ;
}

impl<T> StaticType for Box<T> {
    type Ref = T;

    open spec fn ref_spec(&self) -> T {
        **self
    }

    fn ref_value(&self) -> (r: &T) {
        &**self
    }
}

} // verus!
