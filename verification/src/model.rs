//! The count table as mathematics: what one change does to it, and what a
//! drained sequence of changes leaves behind.

use vstd::prelude::*;
use crate::key::{ChangeView, KeyView};

verus! {

/// The counts of a table, by key. A key without an entry is untracked.
pub type Counts = Map<KeyView, usize>;

/// No entry stands at zero: a count that falls to zero leaves the table.
pub open spec fn counts_wf(counts: Counts) -> bool {
    forall|k: KeyView| counts.contains_key(k) ==> #[trigger] counts[k] >= 1
}

/// The count of `k`, which is zero for an untracked key.
pub open spec fn count_of(counts: Counts, k: KeyView) -> nat {
    if counts.contains_key(k) {
        counts[k] as nat
    } else {
        0
    }
}

/// One more than `c`, unless `c` is the largest count the machine can hold.
pub open spec fn bump(c: nat) -> usize {
    if c < usize::MAX {
        (c + 1) as usize
    } else {
        usize::MAX
    }
}

/// The table after one change.
///
/// An increment adds one to the count of its key, starting from zero for an
/// untracked key. A decrement takes one from a tracked key and evicts the
/// entry when nothing is left; on an untracked key it changes nothing.
pub open spec fn step(counts: Counts, change: ChangeView) -> Counts {
    match change {
        ChangeView::Increment(k) => counts.insert(k, bump(count_of(counts, k))),
        ChangeView::Decrement(k) => if !counts.contains_key(k) {
            counts
        } else if counts[k] <= 1 {
            counts.remove(k)
        } else {
            counts.insert(k, (counts[k] - 1) as usize)
        },
    }
}

/// Whether `change` takes the last reference of its key away.
pub open spec fn frees(counts: Counts, change: ChangeView) -> bool {
    change matches ChangeView::Decrement(k) && counts.contains_key(k) && counts[k] <= 1
}

/// The table after the changes of `changes`, applied in order.
pub open spec fn apply(counts: Counts, changes: Seq<ChangeView>) -> Counts
    decreases changes.len(),
{
    if changes.len() == 0 {
        counts
    } else {
        step(apply(counts, changes.drop_last()), changes.last())
    }
}

/// The keys whose count falls to zero in the course of `changes`, one for
/// each time that happens, in the order in which it happens.
pub open spec fn fell(counts: Counts, changes: Seq<ChangeView>) -> Seq<KeyView>
    decreases changes.len(),
{
    if changes.len() == 0 {
        Seq::empty()
    } else {
        let before = fell(counts, changes.drop_last());
        if frees(apply(counts, changes.drop_last()), changes.last()) {
            before.push(changes.last().key())
        } else {
            before
        }
    }
}

/// The keys of `keys` that `table` does not track, each once, in the order in
/// which they first stand in `keys`.
pub open spec fn untracked_once(keys: Seq<KeyView>, table: Counts) -> Seq<KeyView>
    decreases keys.len(),
{
    if keys.len() == 0 {
        Seq::empty()
    } else {
        let before = untracked_once(keys.drop_last(), table);
        let key = keys.last();
        if !table.contains_key(key) && !before.contains(key) {
            before.push(key)
        } else {
            before
        }
    }
}

/// The keys that `changes` frees: those whose count fell to zero in the drain
/// and that are untracked when it ends, each once, in the order in which they
/// first fell.
///
/// A key that falls to zero and is referenced again before the drain ends is
/// not freed: a strong handle to it is live when the resources are destroyed.
pub open spec fn freed(counts: Counts, changes: Seq<ChangeView>) -> Seq<KeyView> {
    untracked_once(fell(counts, changes), apply(counts, changes))
}

/// One change keeps a table free of zero entries.
pub proof fn lemma_step_wf(counts: Counts, change: ChangeView)
    requires
        counts_wf(counts),
    ensures
        counts_wf(step(counts, change)),
{
}

/// A drain keeps a table free of zero entries.
pub proof fn lemma_apply_wf(counts: Counts, changes: Seq<ChangeView>)
    requires
        counts_wf(counts),
    ensures
        counts_wf(apply(counts, changes)),
    decreases changes.len(),
{
    if changes.len() > 0 {
        lemma_apply_wf(counts, changes.drop_last());
        lemma_step_wf(apply(counts, changes.drop_last()), changes.last());
    }
}

/// Applying one more change after `changes` is one step from the table that
/// `changes` leaves.
pub proof fn lemma_apply_push(counts: Counts, changes: Seq<ChangeView>, change: ChangeView)
    ensures
        apply(counts, changes.push(change)) == step(apply(counts, changes), change),
        fell(counts, changes.push(change)) == if frees(apply(counts, changes), change) {
            fell(counts, changes).push(change.key())
        } else {
            fell(counts, changes)
        },
{
    let longer = changes.push(change);
    assert(longer.drop_last() =~= changes);
    assert(longer.last() == change);
}

/// Draining in two goes leaves the table that draining in one leaves: the
/// counts depend on the changes and their order, not on where the stream of
/// changes is cut into drains. What is freed does depend on it: a key that
/// is untracked where the stream is cut is freed there.
pub proof fn lemma_apply_concat(counts: Counts, first: Seq<ChangeView>, second: Seq<ChangeView>)
    ensures
        apply(counts, first + second) == apply(apply(counts, first), second),
        fell(counts, first + second) == fell(counts, first) + fell(apply(counts, first), second),
    decreases second.len(),
{
    if second.len() == 0 {
        assert(first + second =~= first);
        assert(fell(counts, first) + fell(apply(counts, first), second) =~= fell(counts, first));
    } else {
        let shorter = second.drop_last();
        lemma_apply_concat(counts, first, shorter);
        assert((first + second).drop_last() =~= first + shorter);
        assert((first + second).last() == second.last());
        let middle = apply(counts, first);
        if frees(apply(middle, shorter), second.last()) {
            assert(fell(counts, first + second) =~= fell(counts, first) + fell(middle, second));
        }
    }
}

/// What stands in `untracked_once(keys, table)`: the keys of `keys` that
/// `table` does not track, and none of them twice.
pub proof fn lemma_untracked_once(keys: Seq<KeyView>, table: Counts)
    ensures
        forall|k: KeyView| #[trigger]
            untracked_once(keys, table).contains(k) <==> keys.contains(k) && !table.contains_key(k),
        untracked_once(keys, table).no_duplicates(),
    decreases keys.len(),
{
    let out = untracked_once(keys, table);
    if keys.len() > 0 {
        let shorter = keys.drop_last();
        let before = untracked_once(shorter, table);
        let last = keys.last();
        lemma_untracked_once(shorter, table);
        assert forall|k: KeyView| #[trigger]
            out.contains(k) <==> keys.contains(k) && !table.contains_key(k) by {
            if out.contains(k) {
                let at = choose|at: int| 0 <= at < out.len() && out[at] == k;
                if at < before.len() {
                    assert(before[at] == k);
                    assert(before.contains(k));
                    let from = choose|from: int| 0 <= from < shorter.len() && shorter[from] == k;
                    assert(keys[from] == k);
                } else {
                    assert(keys[keys.len() - 1] == k);
                }
            }
            if keys.contains(k) && !table.contains_key(k) {
                let from = choose|from: int| 0 <= from < keys.len() && keys[from] == k;
                if from < shorter.len() {
                    assert(shorter[from] == k);
                    assert(before.contains(k));
                    let at = choose|at: int| 0 <= at < before.len() && before[at] == k;
                    assert(out[at] == k);
                } else if before.contains(k) {
                    let at = choose|at: int| 0 <= at < before.len() && before[at] == k;
                    assert(out[at] == k);
                } else {
                    assert(out[out.len() - 1] == k);
                }
            }
        }
        assert forall|a: int, b: int| 0 <= a < out.len() && 0 <= b < out.len() && a != b implies out[a]
            != out[b] by {
            if a < before.len() && b < before.len() {
                assert(before[a] != before[b]);
            } else if a < before.len() {
                assert(before[a] == out[a]);
                assert(before.contains(out[a]));
            } else if b < before.len() {
                assert(before[b] == out[b]);
                assert(before.contains(out[b]));
            }
        }
    }
}

/// Each once. A drain frees no key twice, and every key that it frees is
/// untracked when it ends.
pub proof fn lemma_freed_once(counts: Counts, changes: Seq<ChangeView>)
    ensures
        freed(counts, changes).no_duplicates(),
        forall|k: KeyView| #[trigger]
            freed(counts, changes).contains(k) ==> fell(counts, changes).contains(k) && !apply(
                counts,
                changes,
            ).contains_key(k),
{
    lemma_untracked_once(fell(counts, changes), apply(counts, changes));
}

} // verus!
