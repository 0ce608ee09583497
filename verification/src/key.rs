//! Identity of a managed resource and the count changes that speak of it.

use vstd::prelude::*;
use vstd::std_specs::cmp::PartialEqSpecImpl;

verus! {

/// The mathematical form of a key: the owner's identifier and the tag of the
/// resource type.
pub type KeyView = (u64, Seq<char>);

/// Bits of the identifier that `bevy::ecs::entity::Entity::from_raw` builds
/// from `index`.
///
/// Trusted: `from_raw` gives the entity of that index in generation 0, and
/// `to_bits` puts the generation in the upper and the index in the lower 32
/// bits, so the bits are the index itself. That is how bevy 0.9 lays the bits
/// out; its documentation promises no layout, so the claim holds of that
/// version and has to be read again with another.
#[verifier::external_body]
fn raw_owner_bits(index: u32) -> (bits: u64)
    ensures
        bits == index,
{
    bevy::ecs::entity::Entity::from_raw(index).to_bits()
}

/// Names "the resource of type `type_id` attached to owner `entity`".
///
/// `entity` holds the bits of the owner's entity identifier, `type_id` a
/// string that is unique to the resource type. Two distinct types that share a
/// tag share one lifetime: the tag is taken on trust.
#[derive(Debug, Eq, Hash, PartialOrd, Ord)]
pub struct RefCompHandleId {
    pub entity: u64,
    pub type_id: String,
}

impl View for RefCompHandleId {
    type V = KeyView;

    open spec fn view(&self) -> KeyView {
        (self.entity, self.type_id@)
    }
}

impl RefCompHandleId {
    /// The key that a default handle points at: no live owner has it.
    pub open spec fn sentinel() -> KeyView {
        (0xFFFF_FFFFu64, Seq::<char>::empty())
    }

    /// The sentinel key, which belongs to no resource.
    pub fn default() -> (id: Self)
        ensures
            id@ == Self::sentinel(),
    {
        RefCompHandleId { entity: raw_owner_bits(u32::MAX), type_id: String::new() }
    }

    /// The key of the resource tagged `type_id` on owner `entity`.
    pub fn new(entity: u64, type_id: String) -> (id: Self)
        ensures
            id@ == (entity, type_id@),
            id.entity == entity,
            id.type_id == type_id,
    {
        RefCompHandleId { entity, type_id }
    }
}

impl Clone for RefCompHandleId {
    fn clone(&self) -> (copy: Self)
        ensures
            copy@ == self@,
    {
        RefCompHandleId { entity: self.entity, type_id: self.type_id.clone() }
    }
}

impl PartialEq for RefCompHandleId {
    fn eq(&self, other: &Self) -> (same: bool) {
        self.entity == other.entity && self.type_id == other.type_id
    }
}

impl PartialEqSpecImpl for RefCompHandleId {
    open spec fn obeys_eq_spec() -> bool {
        true
    }

    open spec fn eq_spec(&self, other: &Self) -> bool {
        self@ == other@
    }
}

/// The mathematical form of a [`RefChange`].
pub enum ChangeView {
    Increment(KeyView),
    Decrement(KeyView),
}

impl ChangeView {
    /// The key whose count the change is about.
    pub open spec fn key(self) -> KeyView {
        match self {
            ChangeView::Increment(k) => k,
            ChangeView::Decrement(k) => k,
        }
    }
}

/// One change of a reference count, as it travels from a handle to the sweep.
#[derive(Debug)]
pub enum RefChange {
    /// A strong handle to the key came to be.
    Increment(RefCompHandleId),
    /// A strong handle to the key went away.
    Decrement(RefCompHandleId),
}

impl View for RefChange {
    type V = ChangeView;

    open spec fn view(&self) -> ChangeView {
        match self {
            RefChange::Increment(id) => ChangeView::Increment(id@),
            RefChange::Decrement(id) => ChangeView::Decrement(id@),
        }
    }
}

impl RefChange {
    /// The key whose count the change is about.
    pub fn id(&self) -> (id: &RefCompHandleId)
        ensures
            id@ == self@.key(),
    {
        match self {
            RefChange::Increment(id) => id,
            RefChange::Decrement(id) => id,
        }
    }

    pub fn is_increment(&self) -> (r: bool)
        ensures
            r == (self@ is Increment),
    {
        match self {
            RefChange::Increment(_) => true,
            RefChange::Decrement(_) => false,
        }
    }
}

/// The keys of `ids`, each in its mathematical form.
pub open spec fn keys_view(ids: Seq<RefCompHandleId>) -> Seq<KeyView> {
    ids.map_values(|id: RefCompHandleId| id@)
}

/// The changes of `changes`, each in its mathematical form.
pub open spec fn changes_view(changes: Seq<RefChange>) -> Seq<ChangeView> {
    changes.map_values(|c: RefChange| c@)
}

} // verus!
