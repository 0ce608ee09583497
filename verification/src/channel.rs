//! The channel that carries count changes from the handles to the sweep.

use vstd::prelude::*;
use crossbeam_channel::{Receiver, Sender};
use crate::key::{ChangeView, KeyView, RefChange, RefCompHandleId};

verus! {

/// The sending end of a `crossbeam_channel` channel.
#[verifier::external_type_specification]
#[verifier::external_body]
#[verifier::reject_recursive_types(T)]
pub struct ExSender<T>(Sender<T>);

/// The receiving end of a `crossbeam_channel` channel.
#[verifier::external_type_specification]
#[verifier::external_body]
#[verifier::reject_recursive_types(T)]
pub struct ExReceiver<T>(Receiver<T>);

/// `crossbeam_channel::unbounded`: the two ends of a new channel without a
/// limit. Nothing is claimed of them.
pub assume_specification<T>[ crossbeam_channel::unbounded::<T> ]() -> (ends: (
    Sender<T>,
    Receiver<T>,
));

/// `Sender::clone`: one more sending end of the same channel. Nothing is
/// claimed of it.
pub assume_specification<T>[ <Sender<T> as Clone>::clone ](sender: &Sender<T>) -> (copy: Sender<T>);

/// `Receiver::try_iter`, collected: the messages that are in the channel at
/// the moment, in the order of their arrival, without waiting for more. What
/// they are depends on what the senders have done, so nothing is claimed of
/// them.
#[verifier::external_body]
fn drain_receiver(receiver: &Receiver<RefChange>) -> (changes: Vec<RefChange>) {
    receiver.try_iter().collect()
}

/// The channel of one manager: many senders, one for each strong handle, and
/// the one receiver that the sweep drains.
pub(crate) struct RefChangeChannel {
    sender: Sender<RefChange>,
    receiver: Receiver<RefChange>,
}

impl RefChangeChannel {
    /// A new channel without a limit, so that no sender ever waits.
    pub(crate) fn new() -> (channel: Self) {
        let (sender, receiver) = crossbeam_channel::unbounded();
        RefChangeChannel { sender, receiver }
    }

    /// One more sending end.
    pub(crate) fn sender(&self) -> (sender: Sender<RefChange>) {
        self.sender.clone()
    }

    /// Takes out the changes that have arrived so far, in the order of their
    /// arrival, and does not wait for more.
    pub(crate) fn drain(&self) -> (changes: Vec<RefChange>) {
        drain_receiver(&self.receiver)
    }
}

/// `Sender::send`, with the failure passed over: hands `change` to the
/// channel, or lets it go where every receiver is gone. Nothing is claimed of
/// what the channel then holds.
///
/// Trusted: sending on a channel without a limit neither waits nor unwinds.
/// Every sender that reaches this function is an end of such a channel: the
/// library makes its channels with `unbounded` alone and takes no sender from
/// outside.
#[verifier::external_body]
fn send_quietly(sender: &Sender<RefChange>, change: RefChange)
    opens_invariants none
    no_unwind
{
    let _ = sender.send(change);
}

/// One counted reference to a key: the increment is sent when the reference
/// comes to be, and the decrement when it is dropped.
#[derive(Debug)]
pub(crate) struct StrongRef {
    id: RefCompHandleId,
    sender: Sender<RefChange>,
    /// The decrement that the drop sends, made when the reference came to be.
    release: Option<RefChange>,
}

impl StrongRef {
    /// The key that the reference keeps alive.
    pub closed spec fn key(&self) -> KeyView {
        self.id@
    }

    /// What the drop of the reference sends, if anything.
    pub closed spec fn pending(&self) -> Option<ChangeView> {
        match self.release {
            Some(change) => Some(change@),
            None => None,
        }
    }

    /// Sends the increment of `id` on `sender` and returns the reference that
    /// stands for it, which holds the decrement of `id` for its drop. Where
    /// the receiver is gone nothing counts references any more, and the
    /// failure to send is passed over.
    pub(crate) fn acquire(id: RefCompHandleId, sender: Sender<RefChange>) -> (held: Self)
        ensures
            held.key() == id@,
            held.pending() == Some(ChangeView::Decrement(id@)),
    {
        let release = Some(RefChange::Decrement(id.clone()));
        send_quietly(&sender, RefChange::Increment(id.clone()));
        StrongRef { id, sender, release }
    }

    /// One more reference to the same key, counted on the same channel.
    pub(crate) fn another(&self) -> (held: Self)
        ensures
            held.key() == self.key(),
            held.pending() == Some(ChangeView::Decrement(self.key())),
    {
        StrongRef::acquire(self.id.clone(), self.sender.clone())
    }

    /// The key that the reference keeps alive.
    pub(crate) fn id(&self) -> (id: &RefCompHandleId)
        ensures
            id@ == self.key(),
    {
        &self.id
    }
}

impl Drop for StrongRef {
    /// Sends the decrement that the reference holds, once: the message is
    /// taken out, so nothing is left to send again.
    fn drop(&mut self)
        ensures
            final(self).pending() is None,
            final(self).key() == old(self).key(),
        opens_invariants none
        no_unwind
    {
        let mut change: Option<RefChange> = None;
        core::mem::swap(&mut self.release, &mut change);
        match change {
            Some(change) => {
                send_quietly(&self.sender, change);
            },
            None => {},
        }
    }
}

} // verus!
