//! An append-only storage library whose insertion operations hand out
//! reference handles that stay valid while further insertions happen.
//!
//! A growable container ordinarily invalidates references into it whenever its
//! backing storage relocates.  This library separates "where an element's slot
//! lives" from "how an element is reached": an insertion returns a small
//! [`VecRef`] or [`MapRef`] handle, and dereferencing a handle against the
//! store is proved to yield the very payload that was inserted, no matter how
//! many insertions — including ones that force the backing storage to grow —
//! happened in between.
//!
//! Two container shapes are provided, each with an owner/handle pair:
//!
//! - [`VecOwner`] / [`VecChild`]: an ordered, append-only sequential store;
//! - [`HashMapOwner`] / [`HashMapChild`]: a unique-keyed associative store.
//!
//! The owner is the long-lived holder of storage.  Mutation goes through a
//! scoped insertion handle (the "child"), obtained from the owner and holding
//! exclusive access to it until [`VecChild::finish`] or
//! [`HashMapChild::finish`] gives the owner back.  Reference handles returned
//! by insertions remain meaningful for the owner's whole lifetime, across any
//! number of child scopes.
//!
//! Element types state their part of the bargain through the [`StaticType`]
//! capability: an element exposes a payload, and a handle always reads that
//! payload unchanged.

mod map_store;
mod seq_store;
mod stable;

pub use map_store::lemma_inserted_payload_stable;
pub use map_store::seq_contains_key;
pub use map_store::seq_keys_distinct;
pub use map_store::HashMapChild;
pub use map_store::HashMapOwner;
pub use map_store::MapKey;
pub use map_store::MapRef;
pub use seq_store::lemma_pushed_payload_stable;
pub use seq_store::VecChild;
pub use seq_store::VecOwner;
pub use seq_store::VecRef;
pub use stable::StaticType;
