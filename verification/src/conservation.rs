//! What a drain does to the count of one key, told from the changes alone.

use vstd::prelude::*;
use crate::key::{ChangeView, KeyView};
use crate::model::{
    apply, count_of, counts_wf, fell, freed, frees, lemma_untracked_once, step, Counts,
};

verus! {

/// What `change` adds to the number of strong handles to `k`.
pub open spec fn delta(change: ChangeView, k: KeyView) -> int {
    match change {
        ChangeView::Increment(j) => if j == k {
            1
        } else {
            0
        },
        ChangeView::Decrement(j) => if j == k {
            -1
        } else {
            0
        },
    }
}

/// The increments of `changes` to `k`, less its decrements.
pub open spec fn net(changes: Seq<ChangeView>, k: KeyView) -> int
    decreases changes.len(),
{
    if changes.len() == 0 {
        0
    } else {
        net(changes.drop_last(), k) + delta(changes.last(), k)
    }
}

/// The number of strong handles to `k` that are live once `changes` have been
/// sent, where `counts` told how many there were before.
pub open spec fn live(counts: Counts, changes: Seq<ChangeView>, k: KeyView) -> int {
    count_of(counts, k) + net(changes, k)
}

/// The changes to `k` come from handles that exist: at no point has more been
/// taken from `k` than was there, and the number of handles fits the machine.
pub open spec fn paired(counts: Counts, changes: Seq<ChangeView>, k: KeyView) -> bool {
    forall|i: int|
        0 <= i <= changes.len() ==> 0 <= #[trigger] live(counts, changes.take(i), k) <= usize::MAX
}

/// Whether `changes` hold an increment of `k`.
pub open spec fn increments(changes: Seq<ChangeView>, k: KeyView) -> bool {
    exists|i: int| 0 <= i < changes.len() && #[trigger] changes[i] == ChangeView::Increment(k)
}

/// A change leaves the count of every key but its own as it was.
pub proof fn lemma_step_other(counts: Counts, change: ChangeView, k: KeyView)
    requires
        change.key() != k,
    ensures
        count_of(step(counts, change), k) == count_of(counts, k),
        step(counts, change).contains_key(k) == counts.contains_key(k),
{
}

/// What holds of a sequence of changes holds of each of its prefixes.
proof fn lemma_paired_prefix(counts: Counts, changes: Seq<ChangeView>, k: KeyView)
    requires
        paired(counts, changes, k),
        changes.len() > 0,
    ensures
        paired(counts, changes.drop_last(), k),
        0 <= live(counts, changes.drop_last(), k) <= usize::MAX,
        0 <= live(counts, changes, k) <= usize::MAX,
{
    let shorter = changes.drop_last();
    assert forall|i: int| 0 <= i <= shorter.len() implies 0 <= #[trigger] live(
        counts,
        shorter.take(i),
        k,
    ) <= usize::MAX by {
        assert(shorter.take(i) =~= changes.take(i));
        assert(0 <= live(counts, changes.take(i), k) <= usize::MAX);
    }
    assert(changes.take(changes.len() - 1) =~= shorter);
    assert(0 <= live(counts, changes.take(changes.len() - 1), k) <= usize::MAX);
    assert(changes.take(changes.len() as int) =~= changes);
    assert(0 <= live(counts, changes.take(changes.len() as int), k) <= usize::MAX);
}

/// Count conservation. Take a table without zero entries and the changes that
/// the strong handles to `k` have sent since, in any interleaving with those
/// of other keys. Once all of them are drained, the table's count of `k` is
/// the number of strong handles to `k` that are live.
pub proof fn lemma_count_conservation(counts: Counts, changes: Seq<ChangeView>, k: KeyView)
    requires
        counts_wf(counts),
        paired(counts, changes, k),
    ensures
        count_of(apply(counts, changes), k) == live(counts, changes, k),
        counts_wf(apply(counts, changes)),
    decreases changes.len(),
{
    crate::model::lemma_apply_wf(counts, changes);
    if changes.len() > 0 {
        let shorter = changes.drop_last();
        let last = changes.last();
        lemma_paired_prefix(counts, changes, k);
        lemma_count_conservation(counts, shorter, k);
        if last.key() != k {
            lemma_step_other(apply(counts, shorter), last, k);
        }
    }
}

/// Under the conditions of count conservation, a key that had a strong
/// handle, before the drain or by an increment in it, and has none left when
/// the drain ends, is among the keys whose count fell to zero.
proof fn lemma_unreferenced_fell(counts: Counts, changes: Seq<ChangeView>, k: KeyView)
    requires
        counts_wf(counts),
        paired(counts, changes, k),
        live(counts, changes, k) == 0,
        count_of(counts, k) > 0 || increments(changes, k),
    ensures
        fell(counts, changes).contains(k),
    decreases changes.len(),
{
    lemma_count_conservation(counts, changes, k);
    if changes.len() > 0 {
        let shorter = changes.drop_last();
        let last = changes.last();
        lemma_paired_prefix(counts, changes, k);
        lemma_count_conservation(counts, shorter, k);
        if delta(last, k) == 0 {
            if count_of(counts, k) == 0 {
                let i = choose|i: int|
                    0 <= i < changes.len() && #[trigger] changes[i] == ChangeView::Increment(k);
                assert(i < shorter.len());
                assert(shorter[i] == ChangeView::Increment(k));
            }
            lemma_unreferenced_fell(counts, shorter, k);
            let before = fell(counts, shorter);
            let j = choose|j: int| 0 <= j < before.len() && before[j] == k;
            assert(fell(counts, changes)[j] == k);
        } else {
            assert(last == ChangeView::Decrement(k));
            assert(frees(apply(counts, shorter), last));
            let after = fell(counts, changes);
            assert(after[after.len() - 1] == k);
        }
    }
}

/// Within one sweep. Under the conditions of count conservation, a key that
/// had a strong handle, before the drain or by an increment in it, and has
/// none left when the drain ends, is untracked after the drain and among the
/// keys that the drain frees.
pub proof fn lemma_unreferenced_is_freed(counts: Counts, changes: Seq<ChangeView>, k: KeyView)
    requires
        counts_wf(counts),
        paired(counts, changes, k),
        live(counts, changes, k) == 0,
        count_of(counts, k) > 0 || increments(changes, k),
    ensures
        freed(counts, changes).contains(k),
        !apply(counts, changes).contains_key(k),
{
    lemma_count_conservation(counts, changes, k);
    lemma_unreferenced_fell(counts, changes, k);
    lemma_untracked_once(fell(counts, changes), apply(counts, changes));
}

/// No premature free. A key that has a strong handle when the drain ends is
/// not freed by it, whatever other handles to the key were dropped in the
/// drain, and even if its count was at zero in between.
pub proof fn lemma_no_premature_free(counts: Counts, changes: Seq<ChangeView>, k: KeyView)
    requires
        counts_wf(counts),
        count_of(apply(counts, changes), k) >= 1,
    ensures
        !freed(counts, changes).contains(k),
{
    lemma_untracked_once(fell(counts, changes), apply(counts, changes));
}

} // verus!
