//! The registry of what destroys a resource, by the tag of its type.

use vstd::prelude::*;
use bevy::utils::HashMap;
use crate::key::{keys_view, KeyView, RefCompHandleId};

verus! {

/// A `bevy::utils::HashMap` from type tag to a position in the list of what
/// was registered.
///
/// The map's own type cannot be declared: its allocator parameter is bound by
/// a trait that the map's crate keeps private. So the map is held here, and
/// reached through the three functions below.
#[verifier::external_body]
pub struct TagIndex {
    map: HashMap<String, usize>,
}

/// The entries of the index: each tag that it holds, with its position.
pub uninterp spec fn tag_entries(index: TagIndex) -> Map<Seq<char>, usize>;

impl TagIndex {
    /// `HashMap::default`: an index without entries.
    #[verifier::external_body]
    fn empty() -> (made: TagIndex)
        ensures
            tag_entries(made) =~= Map::empty(),
    {
        TagIndex { map: HashMap::default() }
    }

    /// `HashMap::get`: the position stored under a tag of the same characters
    /// as `tag`, if the index holds one.
    #[verifier::external_body]
    fn get(&self, tag: &String) -> (found: Option<usize>)
        ensures
            found == if tag_entries(*self).contains_key(tag@) {
                Some(tag_entries(*self)[tag@])
            } else {
                None::<usize>
            },
    {
        self.map.get(tag).copied()
    }

    /// `HashMap::insert`: stores `slot` under `tag`, in place of what that tag
    /// had, and leaves every other entry as it was.
    #[verifier::external_body]
    fn insert(&mut self, tag: String, slot: usize)
        ensures
            tag_entries(*final(self)) == tag_entries(*old(self)).insert(tag@, slot),
    {
        self.map.insert(tag, slot);
    }
}

/// The registry after `spawner` is registered under `tag`: the first
/// registration of a tag stands.
pub open spec fn registered<D>(spawners: Map<Seq<char>, D>, tag: Seq<char>, spawner: D) -> Map<
    Seq<char>,
    D,
> {
    if spawners.contains_key(tag) {
        spawners
    } else {
        spawners.insert(tag, spawner)
    }
}

/// One resource that the host has to destroy.
pub struct Despawn<D> {
    /// The owner of the resource.
    pub entity: u64,
    /// What was registered for the type of the resource.
    pub delete: D,
}

/// What is to be destroyed of `candidates`, in their order: the resources
/// whose type is registered and whose owner is still there, as `alive` tells
/// for each candidate in turn.
pub open spec fn despawn_plan<D>(
    spawners: Map<Seq<char>, D>,
    candidates: Seq<KeyView>,
    alive: Seq<bool>,
) -> Seq<Despawn<D>>
    recommends
        alive.len() == candidates.len(),
    decreases candidates.len(),
{
    if candidates.len() == 0 {
        Seq::empty()
    } else {
        let before = despawn_plan(spawners, candidates.drop_last(), alive.drop_last());
        let key = candidates.last();
        if spawners.contains_key(key.1) && alive.last() {
            before.push(Despawn { entity: key.0, delete: spawners[key.1] })
        } else {
            before
        }
    }
}

/// What destroys the resources of each type that has been used so far.
///
/// A type is entered the first time a resource of it is asked for, and is
/// never taken out again. `D` is whatever the host needs to destroy one
/// resource of the type: the library stores it and hands it back.
///
/// The tags are looked up in a hash map that leads to a position in the list
/// of what was registered, so that the map itself holds plain values.
pub struct SpawnerRegistry<D> {
    index: TagIndex,
    spawners: Vec<D>,
}

impl<D> View for SpawnerRegistry<D> {
    type V = Map<Seq<char>, D>;

    closed spec fn view(&self) -> Map<Seq<char>, D> {
        Map::new(
            |tag: Seq<char>| tag_entries(self.index).contains_key(tag),
            |tag: Seq<char>| self.spawners@[tag_entries(self.index)[tag] as int],
        )
    }
}

impl<D> SpawnerRegistry<D> {
    /// What every registry that this module hands out meets: each tag leads
    /// to something that was registered.
    pub closed spec fn wf(&self) -> bool {
        forall|tag: Seq<char>| #[trigger]
            tag_entries(self.index).contains_key(tag) ==> tag_entries(self.index)[tag]
                < self.spawners@.len()
    }

    /// A registry without entries.
    pub fn new() -> (registry: Self)
        ensures
            registry.wf(),
            registry@ =~= Map::empty(),
    {
        SpawnerRegistry { index: TagIndex::empty(), spawners: Vec::new() }
    }

    /// Whether a type of this tag has been registered.
    pub fn contains(&self, tag: &String) -> (known: bool)
        requires
            self.wf(),
        ensures
            known == self@.contains_key(tag@),
    {
        self.index.get(tag).is_some()
    }

    /// What was registered for the type of this tag.
    pub fn get(&self, tag: &String) -> (found: Option<&D>)
        requires
            self.wf(),
        ensures
            found matches Some(spawner) ==> self@.contains_key(tag@) && *spawner == self@[tag@],
            found is None ==> !self@.contains_key(tag@),
    {
        match self.index.get(tag) {
            Some(slot) => Some(&self.spawners[slot]),
            None => None,
        }
    }

    /// Registers `spawner` for the type of this tag, unless the type has an
    /// entry already: the first registration stands.
    pub fn register(&mut self, tag: String, spawner: D)
        requires
            old(self).wf(),
        ensures
            final(self).wf(),
            final(self)@ == registered(old(self)@, tag@, spawner),
    {
        if self.index.get(&tag).is_none() {
            let slot = self.spawners.len();
            let ghost before = self@;
            let ghost key = tag@;
            self.spawners.push(spawner);
            self.index.insert(tag, slot);
            assert(self@ =~= before.insert(key, spawner));
        }
    }
}

impl<D: Copy> SpawnerRegistry<D> {
    /// Decides what is to be destroyed of `candidates`: the resources whose
    /// type is registered and whose owner is still there, as `alive` tells for
    /// each candidate in turn. A candidate whose owner is gone is passed over.
    pub fn plan_despawns(&self, candidates: &Vec<RefCompHandleId>, alive: &Vec<bool>) -> (plan: Vec<
        Despawn<D>,
    >)
        requires
            self.wf(),
            alive@.len() == candidates@.len(),
        ensures
            plan@ == despawn_plan(self@, keys_view(candidates@), alive@),
    {
        let mut plan: Vec<Despawn<D>> = Vec::new();
        let ghost keys = keys_view(candidates@);
        let mut i: usize = 0;
        while i < candidates.len()
            invariant
                self.wf(),
                i <= candidates.len(),
                alive@.len() == candidates@.len(),
                keys == keys_view(candidates@),
                plan@ == despawn_plan(self@, keys.take(i as int), alive@.take(i as int)),
            decreases candidates.len() - i,
        {
            proof {
                assert(keys.take(i + 1).drop_last() =~= keys.take(i as int));
                assert(alive@.take(i + 1).drop_last() =~= alive@.take(i as int));
                assert(keys.take(i + 1).last() == candidates@[i as int]@);
                assert(alive@.take(i + 1).last() == alive@[i as int]);
            }
            let id = &candidates[i];
            match self.get(&id.type_id) {
                Some(spawner) => {
                    if alive[i] {
                        plan.push(Despawn { entity: id.entity, delete: *spawner });
                    }
                },
                None => {},
            }
            i += 1;
        }
        proof {
            assert(keys.take(i as int) =~= keys);
            assert(alive@.take(i as int) =~= alive@);
        }
        plan
    }
}

} // verus!
