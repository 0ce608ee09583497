//! The manager: the channel, the count table and the registry in one place.

use vstd::prelude::*;
use crossbeam_channel::Sender;
use crate::channel::RefChangeChannel;
use crate::counts::RefCounts;
use crate::handle::{RefCompHandle, RefCompHandleUntyped};
use crate::insert::{FromWorldFactory, InsertCommand, InsertStep};
use crate::key::{changes_view, keys_view, ChangeView, RefChange, RefCompHandleId};
use crate::model::{apply, count_of, counts_wf, freed, Counts};
use crate::registry::{despawn_plan, registered, Despawn, SpawnerRegistry};

verus! {

/// The one manager of a host: it hands out strong handles, counts them, and
/// knows what destroys the resources of each type.
pub struct RefCompServer<D> {
    channel: RefChangeChannel,
    ref_counts: RefCounts,
    comp_spawner: SpawnerRegistry<D>,
}

impl<D> RefCompServer<D> {
    /// The counts that the sweep has arrived at.
    pub closed spec fn counts(&self) -> Counts {
        self.ref_counts@
    }

    /// What has been registered, by type tag.
    pub closed spec fn spawners(&self) -> Map<Seq<char>, D> {
        self.comp_spawner@
    }

    /// What every manager that this module hands out meets.
    pub closed spec fn wf(&self) -> bool {
        self.ref_counts.wf() && self.comp_spawner.wf()
    }

    /// No count of a manager stands at zero: a key is tracked while it is
    /// referenced, and no longer.
    pub proof fn lemma_counts_wf(&self)
        requires
            self.wf(),
        ensures
            counts_wf(self.counts()),
    {
    }

    /// A manager that counts nothing and knows no type.
    pub fn new() -> (server: Self)
        ensures
            server.wf(),
            server.counts() =~= Map::empty(),
            server.spawners() =~= Map::empty(),
    {
        RefCompServer {
            channel: RefChangeChannel::new(),
            ref_counts: RefCounts::new(),
            comp_spawner: SpawnerRegistry::new(),
        }
    }

    /// One more sending end of the manager's channel.
    pub(crate) fn sender(&self) -> (sender: Sender<RefChange>) {
        self.channel.sender()
    }

    /// A strong handle to `id`.
    pub fn get_handle<T>(&self, id: RefCompHandleId) -> (handle: RefCompHandle<T>)
        ensures
            handle.key() == id@,
            handle.counted(),
            handle.drop_sends() == handle.dropped().sends(),
    {
        RefCompHandle::strong(id, self.channel.sender())
    }

    /// A strong untyped handle to `id`.
    pub fn get_handle_untyped(&self, id: RefCompHandleId) -> (handle: RefCompHandleUntyped)
        ensures
            handle.key() == id@,
            handle.counted(),
            handle.drop_sends() == handle.dropped().sends(),
    {
        RefCompHandleUntyped::strong(id, self.channel.sender())
    }

    /// The count of `id` as of the last sweep: zero while the key is
    /// untracked.
    pub fn ref_count(&self, id: &RefCompHandleId) -> (n: usize)
        requires
            self.wf(),
        ensures
            n == count_of(self.counts(), id@),
            (n == 0) == !self.counts().contains_key(id@),
    {
        self.ref_counts.count(id)
    }

    /// Whether a type of this tag has been registered.
    pub fn is_registered(&self, type_id: &String) -> (known: bool)
        requires
            self.wf(),
        ensures
            known == self.spawners().contains_key(type_id@),
    {
        self.comp_spawner.contains(type_id)
    }
}

impl<D> RefCompServer<D> {
    /// Asks for the resource of type `T`, tagged `type_id`, on owner
    /// `entity`, to be carried out later. Registers `delete` for the type, the
    /// first time the type is seen, and returns a strong handle to the
    /// resource with the command that the host has to queue: `insert_fn`
    /// constructs the resource where the owner has none, `edit_fn` edits it
    /// where the owner has one.
    pub fn insert_ref_comp<T, F, E>(
        &mut self,
        entity: u64,
        type_id: String,
        delete: D,
        insert_fn: F,
        edit_fn: Option<E>,
    ) -> (out: (RefCompHandle<T>, InsertCommand<F, E>))
        requires
            old(self).wf(),
        ensures
            final(self).wf(),
            final(self).counts() == old(self).counts(),
            final(self).spawners() == registered(old(self).spawners(), type_id@, delete),
            out.0.key() == (entity, type_id@),
            out.0.counted(),
            out.0.drop_sends() == out.0.dropped().sends(),
            out.1 == (InsertCommand { entity, insert_fn, edit_fn }),
    {
        self.comp_spawner.register(type_id.clone(), delete);
        let handle = self.get_handle(RefCompHandleId::new(entity, type_id));
        (handle, InsertCommand { entity, insert_fn, edit_fn })
    }

    /// As [`RefCompServer::insert_ref_comp`], for a type that the host
    /// constructs from its own state.
    pub fn insert_ref_comp_fw<T, E>(
        &mut self,
        entity: u64,
        type_id: String,
        delete: D,
        edit_fn: Option<E>,
    ) -> (out: (RefCompHandle<T>, InsertCommand<FromWorldFactory, E>))
        requires
            old(self).wf(),
        ensures
            final(self).wf(),
            final(self).counts() == old(self).counts(),
            final(self).spawners() == registered(old(self).spawners(), type_id@, delete),
            out.0.key() == (entity, type_id@),
            out.0.counted(),
            out.0.drop_sends() == out.0.dropped().sends(),
            out.1 == (InsertCommand { entity, insert_fn: FromWorldFactory, edit_fn }),
    {
        self.insert_ref_comp(entity, type_id, delete, FromWorldFactory, edit_fn)
    }

    /// Asks for the resource of type `T`, tagged `type_id`, on owner
    /// `entity`, to be carried out at once by a caller that has exclusive
    /// access to the host, and that tells in `present` whether the owner has
    /// the resource already. Registers `delete` for the type, the first time
    /// the type is seen, and returns a strong handle to the resource with
    /// what the caller has to do.
    pub fn inner_insert_ref_comp<T, F, E>(
        &mut self,
        present: bool,
        entity: u64,
        type_id: String,
        delete: D,
        insert_fn: F,
        edit_fn: Option<E>,
    ) -> (out: (RefCompHandle<T>, InsertStep<F, E>))
        requires
            old(self).wf(),
        ensures
            final(self).wf(),
            final(self).counts() == old(self).counts(),
            final(self).spawners() == registered(old(self).spawners(), type_id@, delete),
            out.0.key() == (entity, type_id@),
            out.0.counted(),
            out.0.drop_sends() == out.0.dropped().sends(),
            out.1 == (InsertCommand { entity, insert_fn, edit_fn }).step(present),
    {
        let (handle, command) = self.insert_ref_comp(entity, type_id, delete, insert_fn, edit_fn);
        (handle, command.resolve(present))
    }

    /// As [`RefCompServer::inner_insert_ref_comp`], for a type that the host
    /// constructs from its own state.
    pub fn inner_insert_ref_comp_from_world<T, E>(
        &mut self,
        present: bool,
        entity: u64,
        type_id: String,
        delete: D,
        edit_fn: Option<E>,
    ) -> (out: (RefCompHandle<T>, InsertStep<FromWorldFactory, E>))
        requires
            old(self).wf(),
        ensures
            final(self).wf(),
            final(self).counts() == old(self).counts(),
            final(self).spawners() == registered(old(self).spawners(), type_id@, delete),
            out.0.key() == (entity, type_id@),
            out.0.counted(),
            out.0.drop_sends() == out.0.dropped().sends(),
            out.1 == (InsertCommand { entity, insert_fn: FromWorldFactory, edit_fn }).step(present),
    {
        self.inner_insert_ref_comp(present, entity, type_id, delete, FromWorldFactory, edit_fn)
    }
}

/// Whether a sweep that drained `changes` and got the answers `alive` from
/// `owner_exists` comes to the table `after` and to `plan`: `after` is the
/// table that the changes leave of `before`, and `plan` is what is to be
/// destroyed of the keys that they free, where `alive` holds what
/// `owner_exists` answered for the owner of each freed key whose type is
/// registered.
pub open spec fn sweep_of<D, A: Fn(u64) -> bool>(
    before: Counts,
    spawners: Map<Seq<char>, D>,
    owner_exists: A,
    changes: Seq<ChangeView>,
    alive: Seq<bool>,
    after: Counts,
    plan: Seq<Despawn<D>>,
) -> bool {
    &&& after == apply(before, changes)
    &&& alive.len() == freed(before, changes).len()
    &&& forall|i: int|
        0 <= i < alive.len() && spawners.contains_key(freed(before, changes)[i].1) ==> call_ensures(
            owner_exists,
            (freed(before, changes)[i].0,),
            #[trigger] alive[i],
        )
    &&& plan == despawn_plan(spawners, freed(before, changes), alive)
}

/// What one sweep may come to, whatever the channel held and whatever
/// `owner_exists` answered.
pub open spec fn swept<D, A: Fn(u64) -> bool>(
    before: Counts,
    spawners: Map<Seq<char>, D>,
    owner_exists: A,
    after: Counts,
    plan: Seq<Despawn<D>>,
) -> bool {
    exists|changes: Seq<ChangeView>, alive: Seq<bool>| #[trigger]
        sweep_of(before, spawners, owner_exists, changes, alive, after, plan)
}

impl<D: Copy> RefCompServer<D> {
    /// The sweep on changes that have been drained already. Applies
    /// `changes` to the count table in their order and returns what the host
    /// has to destroy: for each key that the drain frees, the owner and what
    /// was registered for the type, where the type is registered and
    /// `owner_exists` says that the owner is still there. A key is freed
    /// where its count fell to zero and it is untracked when the drain ends:
    /// one that was referenced again in the same drain is kept. A key whose
    /// owner is gone is passed over.
    pub fn sweep_changes<A: Fn(u64) -> bool>(
        &mut self,
        changes: &Vec<RefChange>,
        owner_exists: A,
    ) -> (plan: Vec<Despawn<D>>)
        requires
            old(self).wf(),
            forall|owner: u64| call_requires(owner_exists, (owner,)),
        ensures
            final(self).wf(),
            final(self).spawners() == old(self).spawners(),
            exists|alive: Seq<bool>| #[trigger]
                sweep_of(
                    old(self).counts(),
                    old(self).spawners(),
                    owner_exists,
                    changes_view(changes@),
                    alive,
                    final(self).counts(),
                    plan@,
                ),
    {
        let ghost before = self.counts();
        let candidates = self.ref_counts.apply_changes(changes);
        let ghost keys = keys_view(candidates@);
        let mut alive: Vec<bool> = Vec::new();
        let mut i: usize = 0;
        while i < candidates.len()
            invariant
                self.wf(),
                i <= candidates.len(),
                alive@.len() == i,
                keys == keys_view(candidates@),
                forall|owner: u64| call_requires(owner_exists, (owner,)),
                forall|j: int|
                    0 <= j < i && self.spawners().contains_key(keys[j].1) ==> call_ensures(
                        owner_exists,
                        (keys[j].0,),
                        #[trigger] alive@[j],
                    ),
            decreases candidates.len() - i,
        {
            let id = &candidates[i];
            assert(keys[i as int] == id@);
            let there = if self.comp_spawner.contains(&id.type_id) {
                owner_exists(id.entity)
            } else {
                false
            };
            alive.push(there);
            i += 1;
        }
        let plan = self.comp_spawner.plan_despawns(&candidates, &alive);
        proof {
            let drained = changes_view(changes@);
            assert(keys == freed(before, drained));
            assert(sweep_of(
                before,
                self.spawners(),
                owner_exists,
                drained,
                alive@,
                self.counts(),
                plan@,
            ));
        }
        plan
    }

    /// The sweep, to be run once per tick with exclusive access. Drains the
    /// changes that have arrived, without waiting for more, and sweeps them
    /// as [`RefCompServer::sweep_changes`] does.
    pub fn delete_unreferenced_components<A: Fn(u64) -> bool>(&mut self, owner_exists: A) -> (plan:
        Vec<Despawn<D>>)
        requires
            old(self).wf(),
            forall|owner: u64| call_requires(owner_exists, (owner,)),
        ensures
            final(self).wf(),
            final(self).spawners() == old(self).spawners(),
            swept(old(self).counts(), old(self).spawners(), owner_exists, final(self).counts(), plan@),
    {
        let changes = self.channel.drain();
        self.sweep_changes(&changes, owner_exists)
    }
}

impl<D> Default for RefCompServer<D> {
    fn default() -> (server: Self)
        ensures
            server.wf(),
            server.counts() =~= Map::empty(),
            server.spawners() =~= Map::empty(),
    {
        RefCompServer::new()
    }
}

} // verus!
