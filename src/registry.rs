//! The correlation registry: pending requests keyed by id, each with a single-use slot
//! through which its response is delivered.

use vstd::prelude::*;
use std::collections::HashMap;
use crate::error::LinkError;
use crate::request_id::RequestId;

verus! {

broadcast use vstd::std_specs::hash::group_hash_axioms;

/// A response handed out by the registry: the slot registered under `id`, to be given
/// `payload`.
pub struct Delivery<S> {
    pub id: RequestId,
    pub slot: S,
    pub payload: String,
}

/// Pending requests of one connection, each id with the slot of the caller awaiting it.
pub struct CorrelationRegistry<S> {
    slots: HashMap<RequestId, S>,
}

impl<S> View for CorrelationRegistry<S> {
    type V = Map<RequestId, S>;

    closed spec fn view(&self) -> Map<RequestId, S> {
        self.slots@
    }
}

impl<S> CorrelationRegistry<S> {
    /// A registry with no pending request.
    pub fn new() -> (r: Self)
        ensures
            r@ == Map::<RequestId, S>::empty(),
    {
        CorrelationRegistry { slots: HashMap::new() }
    }

    /// Records `slot` as the waiter for `id`. Fails with `Collision`, changing nothing,
    /// when `id` is already pending: an entry is never overwritten.
    pub fn register(&mut self, id: RequestId, slot: S) -> (r: Result<(), LinkError>)
        ensures
            old(self)@.contains_key(id) ==> r == Err::<(), LinkError>(LinkError::Collision)
                && final(self)@ == old(self)@,
            !old(self)@.contains_key(id) ==> r is Ok && final(self)@ == old(self)@.insert(
                id,
                slot,
            ),
    {
        if self.slots.contains_key(&id) {
            return Err(LinkError::Collision);
        }
        self.slots.insert(id, slot);
        Ok(())
    }

    /// Takes the slot pending under `id` and pairs it with `payload`; `None`, changing
    /// nothing, when no request is pending under `id` (a late or duplicate frame).
    pub fn resolve(&mut self, id: RequestId, payload: String) -> (r: Option<Delivery<S>>)
        ensures
            final(self)@ == old(self)@.remove(id),
            old(self)@.contains_key(id) ==> r == Some(
                Delivery { id, slot: old(self)@[id], payload },
            ),
            !old(self)@.contains_key(id) ==> r is None,
    {
        match self.slots.remove(&id) {
            Some(slot) => Some(Delivery { id, slot, payload }),
            None => {
                assert(old(self)@.remove(id) =~= old(self)@);
                None
            },
        }
    }

    /// Drops the slot pending under `id` without delivering anything, so that no later
    /// frame can reach it. Returns whether one was pending.
    pub fn abandon(&mut self, id: RequestId) -> (r: bool)
        ensures
            final(self)@ == old(self)@.remove(id),
            r == old(self)@.contains_key(id),
    {
        match self.slots.remove(&id) {
            Some(_) => true,
            None => {
                assert(old(self)@.remove(id) =~= old(self)@);
                false
            },
        }
    }

    /// Whether a request is pending under `id`.
    pub fn is_pending(&self, id: RequestId) -> (r: bool)
        ensures
            r == self@.contains_key(id),
    {
        self.slots.contains_key(&id)
    }

    /// Number of pending requests.
    pub fn len(&self) -> (r: usize)
        ensures
            r == self@.len(),
    {
        self.slots.len()
    }
}

} // verus!
