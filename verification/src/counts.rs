//! The table of reference counts, which only the sweep changes.

use vstd::prelude::*;
use bevy::utils::HashMap;
use crate::key::{changes_view, keys_view, KeyView, RefChange, RefCompHandleId};
use crate::model::{
    apply, bump, count_of, counts_wf, fell, freed, frees, lemma_apply_push, step, untracked_once,
    Counts,
};

verus! {

/// A `bevy::utils::HashMap` from key to count.
///
/// The map's own type cannot be declared: its allocator parameter is bound by
/// a trait that the map's crate keeps private. So the map is held here, and
/// reached through the four functions below.
#[verifier::external_body]
pub struct CountMap {
    map: HashMap<RefCompHandleId, usize>,
}

/// The entries of the map: each key that it holds, with its count.
pub uninterp spec fn count_entries(map: CountMap) -> Counts;

impl CountMap {
    /// `HashMap::default`: a map without entries.
    #[verifier::external_body]
    fn empty() -> (made: CountMap)
        ensures
            count_entries(made) =~= Map::empty(),
    {
        CountMap { map: HashMap::default() }
    }

    /// `HashMap::get`: the count stored under a key that is equal to `id`,
    /// if the map holds one.
    ///
    /// Trusted: two keys are equal, and hash alike, exactly when their owner
    /// and their tag are the same.
    #[verifier::external_body]
    fn get(&self, id: &RefCompHandleId) -> (found: Option<usize>)
        ensures
            found == if count_entries(*self).contains_key(id@) {
                Some(count_entries(*self)[id@])
            } else {
                None::<usize>
            },
    {
        self.map.get(id).copied()
    }

    /// `HashMap::insert`: stores `count` under `id`, in place of what a key
    /// equal to `id` had, and leaves every other entry as it was.
    #[verifier::external_body]
    fn insert(&mut self, id: RefCompHandleId, count: usize)
        ensures
            count_entries(*final(self)) == count_entries(*old(self)).insert(id@, count),
    {
        self.map.insert(id, count);
    }

    /// `HashMap::remove`: takes the entry of a key equal to `id` out, if there
    /// is one, and leaves every other entry as it was.
    #[verifier::external_body]
    fn remove(&mut self, id: &RefCompHandleId)
        ensures
            count_entries(*final(self)) == count_entries(*old(self)).remove(id@),
    {
        self.map.remove(id);
    }
}

/// The counts of the strong handles that the sweep has been told of.
///
/// A key is tracked while its count is at least one. The entry of a count that
/// falls to zero is evicted at once, so no entry ever stands at zero.
pub struct RefCounts {
    map: CountMap,
}

impl View for RefCounts {
    type V = Counts;

    closed spec fn view(&self) -> Counts {
        count_entries(self.map)
    }
}

impl RefCounts {
    /// What every table that this module hands out meets: no entry stands
    /// at zero.
    pub open spec fn wf(&self) -> bool {
        counts_wf(self@)
    }

    /// A table that tracks nothing.
    pub fn new() -> (table: Self)
        ensures
            table@ == Map::<KeyView, usize>::empty(),
            table.wf(),
    {
        RefCounts { map: CountMap::empty() }
    }

    /// The count of `id`: zero while the key is untracked.
    pub fn count(&self, id: &RefCompHandleId) -> (n: usize)
        requires
            self.wf(),
        ensures
            n == count_of(self@, id@),
            (n == 0) == !self@.contains_key(id@),
    {
        match self.map.get(id) {
            Some(n) => n,
            None => 0,
        }
    }

    /// Counts one more strong handle to `id`.
    pub fn increment(&mut self, id: &RefCompHandleId)
        requires
            old(self).wf(),
        ensures
            final(self)@ == step(old(self)@, RefChange::Increment(*id)@),
            final(self).wf(),
    {
        let current: usize = match self.map.get(id) {
            Some(n) => n,
            None => 0,
        };
        let next: usize = if current < usize::MAX {
            current + 1
        } else {
            current
        };
        assert(next == bump(count_of(self@, id@)));
        self.map.insert(id.clone(), next);
    }

    /// Counts one strong handle to `id` less, and says whether that was the
    /// last one. An untracked key is left alone.
    pub fn decrement(&mut self, id: &RefCompHandleId) -> (last: bool)
        requires
            old(self).wf(),
        ensures
            final(self)@ == step(old(self)@, RefChange::Decrement(*id)@),
            last == frees(old(self)@, RefChange::Decrement(*id)@),
            final(self).wf(),
    {
        match self.map.get(id) {
            None => false,
            Some(n) => {
                if n <= 1 {
                    self.map.remove(id);
                    true
                } else {
                    self.map.insert(id.clone(), n - 1);
                    false
                }
            },
        }
    }

    /// Applies a drained batch of changes in the order of their arrival and
    /// returns the keys whose count fell to zero, one for each time that
    /// happened, in the order in which it happened.
    fn apply_each(&mut self, changes: &Vec<RefChange>) -> (fallen: Vec<RefCompHandleId>)
        requires
            old(self).wf(),
        ensures
            final(self)@ == apply(old(self)@, changes_view(changes@)),
            keys_view(fallen@) == fell(old(self)@, changes_view(changes@)),
            final(self).wf(),
    {
        let mut fallen: Vec<RefCompHandleId> = Vec::new();
        let ghost start = self@;
        let ghost all = changes_view(changes@);
        let mut i: usize = 0;
        while i < changes.len()
            invariant
                i <= changes.len(),
                all == changes_view(changes@),
                self.wf(),
                self@ == apply(start, all.take(i as int)),
                keys_view(fallen@) == fell(start, all.take(i as int)),
            decreases changes.len() - i,
        {
            let ghost done = all.take(i as int);
            let ghost keys = keys_view(fallen@);
            proof {
                lemma_apply_push(start, done, all[i as int]);
                assert(all.take(i + 1) =~= done.push(all[i as int]));
                assert(all[i as int] == changes@[i as int]@);
            }
            match &changes[i] {
                RefChange::Increment(id) => {
                    self.increment(id);
                },
                RefChange::Decrement(id) => {
                    if self.decrement(id) {
                        let copy = id.clone();
                        fallen.push(copy);
                        assert(keys_view(fallen@) =~= keys.push(id@));
                    }
                },
            }
            i += 1;
        }
        proof {
            assert(all.take(i as int) =~= all);
        }
        fallen
    }

    /// The keys of `fallen` that the table does not track, each once, in the
    /// order in which they first stand in `fallen`.
    fn untracked(&self, fallen: Vec<RefCompHandleId>) -> (unreferenced: Vec<RefCompHandleId>)
        requires
            self.wf(),
        ensures
            keys_view(unreferenced@) == untracked_once(keys_view(fallen@), self@),
    {
        let mut unreferenced: Vec<RefCompHandleId> = Vec::new();
        let ghost all = keys_view(fallen@);
        let mut i: usize = 0;
        while i < fallen.len()
            invariant
                i <= fallen.len(),
                self.wf(),
                all == keys_view(fallen@),
                keys_view(unreferenced@) == untracked_once(all.take(i as int), self@),
            decreases fallen.len() - i,
        {
            let ghost kept = keys_view(unreferenced@);
            proof {
                assert(all.take(i + 1).drop_last() =~= all.take(i as int));
                assert(all.take(i + 1).last() == fallen@[i as int]@);
            }
            let id = &fallen[i];
            if self.count(id) == 0 && !holds(&unreferenced, id) {
                unreferenced.push(id.clone());
                assert(keys_view(unreferenced@) =~= kept.push(id@));
            }
            i += 1;
        }
        proof {
            assert(all.take(i as int) =~= all);
        }
        unreferenced
    }

    /// Applies a drained batch of changes in the order of their arrival and
    /// returns the keys that the drain frees: those whose count fell to zero
    /// and that are untracked when the drain ends, each once, in the order in
    /// which they first fell. A key that fell to zero and was referenced
    /// again in the same drain stays tracked and is not returned.
    pub fn apply_changes(&mut self, changes: &Vec<RefChange>) -> (unreferenced: Vec<RefCompHandleId>)
        requires
            old(self).wf(),
        ensures
            final(self)@ == apply(old(self)@, changes_view(changes@)),
            keys_view(unreferenced@) == freed(old(self)@, changes_view(changes@)),
            final(self).wf(),
    {
        let fallen = self.apply_each(changes);
        self.untracked(fallen)
    }
}

/// Whether `ids` holds a key of the owner and tag of `id`.
fn holds(ids: &Vec<RefCompHandleId>, id: &RefCompHandleId) -> (found: bool)
    ensures
        found == keys_view(ids@).contains(id@),
{
    let ghost keys = keys_view(ids@);
    let mut i: usize = 0;
    while i < ids.len()
        invariant
            i <= ids.len(),
            keys == keys_view(ids@),
            forall|j: int| 0 <= j < i ==> keys[j] != id@,
        decreases ids.len() - i,
    {
        assert(keys[i as int] == ids@[i as int]@);
        if ids[i] == *id {
            return true;
        }
        i += 1;
    }
    false
}

} // verus!
