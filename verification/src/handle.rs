//! Handles: references to a resource that keep it alive, or only observe it.

use vstd::prelude::*;
use std::marker::PhantomData;
use crossbeam_channel::Sender;
use crate::channel::StrongRef;
use crate::key::{ChangeView, KeyView, RefChange, RefCompHandleId};
use crate::lifecycle::HandleEvent;
use crate::server::RefCompServer;

verus! {

/// What a handle is to its resource.
#[derive(Debug)]
enum RefCompHandleType {
    /// Observes the resource of the key it holds.
    Weak(RefCompHandleId),
    /// Keeps the resource alive through one counted reference.
    Strong(StrongRef),
}

impl RefCompHandleType {
    spec fn key(&self) -> KeyView {
        match self {
            RefCompHandleType::Weak(id) => id@,
            RefCompHandleType::Strong(held) => held.key(),
        }
    }

    /// What the drop sends: the decrement that a counted reference holds,
    /// and nothing for a weak handle.
    spec fn drop_sends(&self) -> Seq<ChangeView> {
        match self {
            RefCompHandleType::Weak(_) => Seq::empty(),
            RefCompHandleType::Strong(held) => match held.pending() {
                Some(change) => seq![change],
                None => Seq::empty(),
            },
        }
    }

    /// Whether the drop sends what the life of a handle of this key and
    /// strength is to send.
    spec fn settled(&self) -> bool {
        self.drop_sends() == (HandleEvent::Dropped {
            key: self.key(),
            strong: self is Strong,
        }).sends()
    }

    fn id(&self) -> (id: &RefCompHandleId)
        ensures
            id@ == self.key(),
    {
        match self {
            RefCompHandleType::Weak(id) => id,
            RefCompHandleType::Strong(held) => held.id(),
        }
    }

    fn is_strong(&self) -> (strong: bool)
        ensures
            strong == (self is Strong),
    {
        match self {
            RefCompHandleType::Weak(_) => false,
            RefCompHandleType::Strong(_) => true,
        }
    }

    /// A copy of the same strength: a strong one is counted anew.
    fn duplicate(&self) -> (copy: Self)
        ensures
            copy.key() == self.key(),
            (copy is Strong) == (self is Strong),
            copy.settled(),
    {
        match self {
            RefCompHandleType::Weak(id) => RefCompHandleType::Weak(id.clone()),
            RefCompHandleType::Strong(held) => RefCompHandleType::Strong(held.another()),
        }
    }

    fn weak_copy(&self) -> (copy: Self)
        ensures
            copy.key() == self.key(),
            copy is Weak,
            copy.settled(),
    {
        RefCompHandleType::Weak(self.id().clone())
    }

    /// Makes a weak handle strong, counted on `sender`. A strong one stays as
    /// it is, and `sender` is let go.
    fn strengthen(&mut self, sender: Sender<RefChange>)
        ensures
            final(self).key() == old(self).key(),
            *final(self) is Strong,
            *old(self) is Strong ==> *final(self) == *old(self),
            *old(self) is Weak ==> final(self).settled(),
    {
        let held = match &*self {
            RefCompHandleType::Weak(id) => Some(StrongRef::acquire(id.clone(), sender)),
            RefCompHandleType::Strong(_) => None,
        };
        match held {
            Some(held) => {
                *self = RefCompHandleType::Strong(held);
            },
            None => {},
        }
    }
}

/// A typed handle to the resource of type `T` on one owner.
///
/// A strong handle keeps its resource alive: the increment of its key is sent
/// when it comes to be, and the decrement when it is dropped. A weak handle
/// sends nothing, whatever is done with it.
#[derive(Debug)]
pub struct RefCompHandle<T> {
    handle_type: RefCompHandleType,
    marker: PhantomData<T>,
}

impl<T> RefCompHandle<T> {
    /// The key of the resource that the handle refers to.
    pub closed spec fn key(&self) -> KeyView {
        self.handle_type.key()
    }

    /// Whether the handle is strong, and so counted among the references to
    /// its key.
    pub closed spec fn counted(&self) -> bool {
        self.handle_type is Strong
    }

    /// What the drop of the handle sends to the sweep.
    pub closed spec fn drop_sends(&self) -> Seq<ChangeView> {
        self.handle_type.drop_sends()
    }

    /// The event of this handle coming to be.
    pub open spec fn created(&self) -> HandleEvent {
        HandleEvent::Created { key: self.key(), strong: self.counted() }
    }

    /// The event of this handle being dropped.
    pub open spec fn dropped(&self) -> HandleEvent {
        HandleEvent::Dropped { key: self.key(), strong: self.counted() }
    }

    /// A strong handle to `id`, counted on `sender`.
    pub(crate) fn strong(id: RefCompHandleId, sender: Sender<RefChange>) -> (handle: Self)
        ensures
            handle.key() == id@,
            handle.counted(),
            handle.drop_sends() == handle.dropped().sends(),
    {
        RefCompHandle {
            handle_type: RefCompHandleType::Strong(StrongRef::acquire(id, sender)),
            marker: PhantomData,
        }
    }

    /// A weak handle to `id`.
    pub fn weak(id: RefCompHandleId) -> (handle: Self)
        ensures
            handle.key() == id@,
            !handle.counted(),
            handle.drop_sends() == handle.dropped().sends(),
    {
        RefCompHandle { handle_type: RefCompHandleType::Weak(id), marker: PhantomData }
    }

    /// The key of the resource that the handle refers to.
    pub fn id(&self) -> (id: &RefCompHandleId)
        ensures
            id@ == self.key(),
    {
        self.handle_type.id()
    }

    /// A weak handle to the same key, typed as the caller asks.
    pub fn as_weak<U>(&self) -> (handle: RefCompHandle<U>)
        ensures
            handle.key() == self.key(),
            !handle.counted(),
            handle.drop_sends() == handle.dropped().sends(),
    {
        RefCompHandle { handle_type: self.handle_type.weak_copy(), marker: PhantomData }
    }

    pub fn is_weak(&self) -> (weak: bool)
        ensures
            weak == !self.counted(),
    {
        !self.handle_type.is_strong()
    }

    pub fn is_strong(&self) -> (strong: bool)
        ensures
            strong == self.counted(),
    {
        self.handle_type.is_strong()
    }

    /// Makes the handle strong if it was not, counted by `server`. A handle
    /// that is strong already is left as it is, and nothing is sent.
    pub fn make_strong<D>(&mut self, server: &RefCompServer<D>)
        ensures
            final(self).key() == old(self).key(),
            final(self).counted(),
            old(self).counted() ==> *final(self) == *old(self),
            !old(self).counted() ==> final(self).drop_sends() == final(self).dropped().sends(),
    {
        if !self.handle_type.is_strong() {
            self.handle_type.strengthen(server.sender());
        }
    }

    /// A weak handle to the same key.
    pub fn clone_weak(&self) -> (handle: Self)
        ensures
            handle.key() == self.key(),
            !handle.counted(),
            handle.drop_sends() == handle.dropped().sends(),
    {
        RefCompHandle { handle_type: self.handle_type.weak_copy(), marker: PhantomData }
    }

    /// An untyped handle to the same key and of the same strength.
    pub fn clone_untyped(&self) -> (handle: RefCompHandleUntyped)
        ensures
            handle.key() == self.key(),
            handle.counted() == self.counted(),
            handle.drop_sends() == handle.dropped().sends(),
    {
        RefCompHandleUntyped { handle_type: self.handle_type.duplicate() }
    }

    /// A weak untyped handle to the same key.
    pub fn clone_weak_untyped(&self) -> (handle: RefCompHandleUntyped)
        ensures
            handle.key() == self.key(),
            !handle.counted(),
            handle.drop_sends() == handle.dropped().sends(),
    {
        RefCompHandleUntyped { handle_type: self.handle_type.weak_copy() }
    }
}

impl<T> Clone for RefCompHandle<T> {
    /// A handle to the same key and of the same strength. The copy of a
    /// strong handle is counted as a reference of its own.
    fn clone(&self) -> (handle: Self)
        ensures
            handle.key() == self.key(),
            handle.counted() == self.counted(),
            handle.drop_sends() == handle.dropped().sends(),
    {
        RefCompHandle { handle_type: self.handle_type.duplicate(), marker: PhantomData }
    }
}

impl<T> Default for RefCompHandle<T> {
    /// A weak handle to the sentinel key.
    fn default() -> (handle: Self)
        ensures
            handle.key() == RefCompHandleId::sentinel(),
            !handle.counted(),
            handle.drop_sends() == handle.dropped().sends(),
    {
        RefCompHandle::weak(RefCompHandleId::default())
    }
}

/// A handle that does not say of what type its resource is.
#[derive(Debug)]
pub struct RefCompHandleUntyped {
    handle_type: RefCompHandleType,
}

impl RefCompHandleUntyped {
    /// The key of the resource that the handle refers to.
    pub closed spec fn key(&self) -> KeyView {
        self.handle_type.key()
    }

    /// Whether the handle is strong, and so counted among the references to
    /// its key.
    pub closed spec fn counted(&self) -> bool {
        self.handle_type is Strong
    }

    /// What the drop of the handle sends to the sweep.
    pub closed spec fn drop_sends(&self) -> Seq<ChangeView> {
        self.handle_type.drop_sends()
    }

    /// The event of this handle coming to be.
    pub open spec fn created(&self) -> HandleEvent {
        HandleEvent::Created { key: self.key(), strong: self.counted() }
    }

    /// The event of this handle being dropped.
    pub open spec fn dropped(&self) -> HandleEvent {
        HandleEvent::Dropped { key: self.key(), strong: self.counted() }
    }

    /// A weak handle to the resource tagged `type_id` on owner `entity`.
    pub fn weak_from_entity(entity: u64, type_id: String) -> (handle: Self)
        ensures
            handle.key() == (entity, type_id@),
            !handle.counted(),
            handle.drop_sends() == handle.dropped().sends(),
    {
        RefCompHandleUntyped {
            handle_type: RefCompHandleType::Weak(RefCompHandleId::new(entity, type_id)),
        }
    }

    /// A strong handle to `id`, counted on `sender`.
    pub(crate) fn strong(id: RefCompHandleId, sender: Sender<RefChange>) -> (handle: Self)
        ensures
            handle.key() == id@,
            handle.counted(),
            handle.drop_sends() == handle.dropped().sends(),
    {
        RefCompHandleUntyped {
            handle_type: RefCompHandleType::Strong(StrongRef::acquire(id, sender)),
        }
    }

    /// A weak handle to `id`.
    pub fn weak(id: RefCompHandleId) -> (handle: Self)
        ensures
            handle.key() == id@,
            !handle.counted(),
            handle.drop_sends() == handle.dropped().sends(),
    {
        RefCompHandleUntyped { handle_type: RefCompHandleType::Weak(id) }
    }

    /// The key of the resource that the handle refers to.
    pub fn id(&self) -> (id: &RefCompHandleId)
        ensures
            id@ == self.key(),
    {
        self.handle_type.id()
    }

    /// A weak handle to the same key.
    pub fn clone_weak(&self) -> (handle: RefCompHandleUntyped)
        ensures
            handle.key() == self.key(),
            !handle.counted(),
            handle.drop_sends() == handle.dropped().sends(),
    {
        RefCompHandleUntyped { handle_type: self.handle_type.weak_copy() }
    }

    pub fn is_weak(&self) -> (weak: bool)
        ensures
            weak == !self.counted(),
    {
        !self.handle_type.is_strong()
    }

    pub fn is_strong(&self) -> (strong: bool)
        ensures
            strong == self.counted(),
    {
        self.handle_type.is_strong()
    }

    /// Turns the handle into a typed one of the same key and strength.
    ///
    /// The counted reference of a strong handle moves into the new handle:
    /// nothing is sent, and the untyped handle is used up, so the reference
    /// is given back once and not twice.
    pub fn typed<T>(self) -> (handle: RefCompHandle<T>)
        ensures
            handle.key() == self.key(),
            handle.counted() == self.counted(),
            handle.drop_sends() == self.drop_sends(),
    {
        RefCompHandle { handle_type: self.handle_type, marker: PhantomData }
    }
}

} // verus!
