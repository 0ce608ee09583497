//! What the lives of handles mean for the count table.
//!
//! A strong handle sends the increment of its key when it comes to be, by
//! construction or as the copy of another, and the decrement when it is
//! dropped. A weak handle sends nothing.

use vstd::prelude::*;
use crate::conservation::{
    delta, increments, lemma_count_conservation, lemma_no_premature_free,
    lemma_unreferenced_is_freed, live, net, paired,
};
use crate::key::{ChangeView, KeyView};
use crate::model::{apply, count_of, counts_wf, fell, freed, Counts};

verus! {

/// One event in the life of a handle.
pub enum HandleEvent {
    /// A handle to `key` came to be: it was constructed, or another handle
    /// was copied.
    Created { key: KeyView, strong: bool },
    /// A handle to `key` was dropped.
    Dropped { key: KeyView, strong: bool },
}

impl HandleEvent {
    /// Whether the event is in the life of a strong handle.
    pub open spec fn strong(self) -> bool {
        match self {
            HandleEvent::Created { strong, .. } => strong,
            HandleEvent::Dropped { strong, .. } => strong,
        }
    }

    /// What the event sends to the sweep.
    pub open spec fn sends(self) -> Seq<ChangeView> {
        match self {
            HandleEvent::Created { key, strong } => if strong {
                seq![ChangeView::Increment(key)]
            } else {
                Seq::empty()
            },
            HandleEvent::Dropped { key, strong } => if strong {
                seq![ChangeView::Decrement(key)]
            } else {
                Seq::empty()
            },
        }
    }

    /// What the event adds to the number of strong handles to `k`.
    pub open spec fn adds(self, k: KeyView) -> int {
        match self {
            HandleEvent::Created { key, strong } => if strong && key == k {
                1
            } else {
                0
            },
            HandleEvent::Dropped { key, strong } => if strong && key == k {
                -1
            } else {
                0
            },
        }
    }
}

/// What `events` send to the sweep, in their order.
pub open spec fn sent(events: Seq<HandleEvent>) -> Seq<ChangeView>
    decreases events.len(),
{
    if events.len() == 0 {
        Seq::empty()
    } else {
        sent(events.drop_last()) + events.last().sends()
    }
}

/// The number of strong handles to `k` that `events` leave, over those that
/// there were before.
pub open spec fn strong_handles(events: Seq<HandleEvent>, k: KeyView) -> int
    decreases events.len(),
{
    if events.len() == 0 {
        0
    } else {
        strong_handles(events.drop_last(), k) + events.last().adds(k)
    }
}

/// The net of two sequences of changes, one after the other, is the sum of
/// their nets.
pub proof fn lemma_net_concat(first: Seq<ChangeView>, second: Seq<ChangeView>, k: KeyView)
    ensures
        net(first + second, k) == net(first, k) + net(second, k),
    decreases second.len(),
{
    if second.len() == 0 {
        assert(first + second =~= first);
    } else {
        lemma_net_concat(first, second.drop_last(), k);
        assert((first + second).drop_last() =~= first + second.drop_last());
        assert((first + second).last() == second.last());
    }
}

/// The changes that the handles send count the strong handles: their net on a
/// key is the number of strong handles to it that have come to be, less those
/// that were dropped.
pub proof fn lemma_sent_counts_strong_handles(events: Seq<HandleEvent>, k: KeyView)
    ensures
        net(sent(events), k) == strong_handles(events, k),
    decreases events.len(),
{
    if events.len() > 0 {
        let last = events.last();
        lemma_sent_counts_strong_handles(events.drop_last(), k);
        lemma_net_concat(sent(events.drop_last()), last.sends(), k);
        let one = last.sends();
        if one.len() == 1 {
            assert(one.drop_last() =~= Seq::<ChangeView>::empty());
            assert(net(one.drop_last(), k) == 0);
            assert(net(one, k) == delta(one[0], k));
        }
    }
}

/// No handle to `k` is dropped that does not exist, and the number of strong
/// handles to `k` fits the machine: at every point of `events` that number,
/// where `counts` told how many there were before, is neither below zero nor
/// above what the machine can count.
pub open spec fn handles_within(counts: Counts, events: Seq<HandleEvent>, k: KeyView) -> bool {
    forall|j: int|
        0 <= j <= events.len() ==> 0 <= count_of(counts, k) + #[trigger] strong_handles(
            events.take(j),
            k,
        ) <= usize::MAX
}

/// Whether a strong handle to `k` comes to be in `events`.
pub open spec fn creates_strong(events: Seq<HandleEvent>, k: KeyView) -> bool {
    exists|j: int|
        0 <= j < events.len() && #[trigger] events[j] == (HandleEvent::Created {
            key: k,
            strong: true,
        })
}

/// What has been sent after some of the changes is what some of the events
/// send: every event sends one change or none.
proof fn lemma_sent_prefix(events: Seq<HandleEvent>, i: int) -> (j: int)
    requires
        0 <= i <= sent(events).len(),
    ensures
        0 <= j <= events.len(),
        sent(events.take(j)) == sent(events).take(i),
    decreases events.len(),
{
    if events.len() == 0 {
        assert(events.take(0) =~= events);
        assert(sent(events).take(i) =~= sent(events));
        0
    } else {
        let shorter = events.drop_last();
        if i <= sent(shorter).len() {
            let j = lemma_sent_prefix(shorter, i);
            assert(shorter.take(j) =~= events.take(j));
            assert(sent(events).take(i) =~= sent(shorter).take(i));
            j
        } else {
            assert(events.take(events.len() as int) =~= events);
            assert(sent(events).take(i) =~= sent(events));
            events.len() as int
        }
    }
}

/// Where the handles stay within bounds, so do the changes that they send.
proof fn lemma_handles_paired(counts: Counts, events: Seq<HandleEvent>, k: KeyView)
    requires
        handles_within(counts, events, k),
    ensures
        paired(counts, sent(events), k),
{
    let changes = sent(events);
    assert forall|i: int| 0 <= i <= changes.len() implies 0 <= #[trigger] live(
        counts,
        changes.take(i),
        k,
    ) <= usize::MAX by {
        let j = lemma_sent_prefix(events, i);
        lemma_sent_counts_strong_handles(events.take(j), k);
        assert(0 <= count_of(counts, k) + strong_handles(events.take(j), k) <= usize::MAX);
    }
}

/// Count conservation, told of the handles. Take a table without zero
/// entries that counts the strong handles to `k`, and any interleaving of
/// handles that come to be, are copied and are dropped, in which no handle is
/// dropped that does not exist. Once what they sent is drained, the table's
/// count of `k` is the number of strong handles to `k` that are live.
pub proof fn lemma_count_is_live_handles(counts: Counts, events: Seq<HandleEvent>, k: KeyView)
    requires
        counts_wf(counts),
        handles_within(counts, events, k),
    ensures
        count_of(apply(counts, sent(events)), k) == count_of(counts, k) + strong_handles(events, k),
        counts_wf(apply(counts, sent(events))),
{
    lemma_handles_paired(counts, events, k);
    lemma_count_conservation(counts, sent(events), k);
    lemma_sent_counts_strong_handles(events, k);
}

/// Within one sweep, told of the handles. Under the conditions of count
/// conservation, a key that had a strong handle, before or by one that came
/// to be, and has none left, is untracked after the drain and among the keys
/// that the drain frees.
pub proof fn lemma_no_handle_left_is_freed(counts: Counts, events: Seq<HandleEvent>, k: KeyView)
    requires
        counts_wf(counts),
        handles_within(counts, events, k),
        count_of(counts, k) + strong_handles(events, k) == 0,
        count_of(counts, k) > 0 || creates_strong(events, k),
    ensures
        freed(counts, sent(events)).contains(k),
        !apply(counts, sent(events)).contains_key(k),
{
    lemma_handles_paired(counts, events, k);
    lemma_sent_counts_strong_handles(events, k);
    if count_of(counts, k) == 0 {
        let j = choose|j: int|
            0 <= j < events.len() && #[trigger] events[j] == (HandleEvent::Created {
                key: k,
                strong: true,
            });
        lemma_created_is_sent(events, j);
    }
    lemma_unreferenced_is_freed(counts, sent(events), k);
}

/// The increment of a strong handle that comes to be is among what is sent.
proof fn lemma_created_is_sent(events: Seq<HandleEvent>, j: int)
    requires
        0 <= j < events.len(),
        events[j] matches HandleEvent::Created { strong: true, .. },
    ensures
        increments(sent(events), events[j]->Created_key),
    decreases events.len(),
{
    let k = events[j]->Created_key;
    let shorter = events.drop_last();
    let changes = sent(events);
    if j == events.len() - 1 {
        let at = sent(shorter).len() as int;
        assert(changes[at] == ChangeView::Increment(k));
    } else {
        lemma_created_is_sent(shorter, j);
        let at = choose|at: int|
            0 <= at < sent(shorter).len() && #[trigger] sent(shorter)[at] == ChangeView::Increment(
                k,
            );
        assert(changes[at] == ChangeView::Increment(k));
    }
}

/// No premature free, told of the handles. A key that has at least one
/// strong handle once `events` have happened is not freed by the drain of
/// what the handles sent, whatever other handles to it came and went.
pub proof fn lemma_live_handle_keeps_alive(counts: Counts, events: Seq<HandleEvent>, k: KeyView)
    requires
        counts_wf(counts),
        handles_within(counts, events, k),
        count_of(counts, k) + strong_handles(events, k) >= 1,
    ensures
        !freed(counts, sent(events)).contains(k),
{
    lemma_count_is_live_handles(counts, events, k);
    lemma_no_premature_free(counts, sent(events), k);
}

/// Handles made are handles counted. After `events` in which strong handles
/// to `k` come to be and nothing else happens, the drain of what they sent
/// leaves the count of `k` higher by their number.
pub proof fn lemma_handles_made_are_counted(counts: Counts, events: Seq<HandleEvent>, k: KeyView)
    requires
        counts_wf(counts),
        forall|j: int|
            0 <= j < events.len() ==> #[trigger] events[j] == (HandleEvent::Created {
                key: k,
                strong: true,
            }),
        count_of(counts, k) + events.len() <= usize::MAX,
    ensures
        strong_handles(events, k) == events.len(),
        count_of(apply(counts, sent(events)), k) == count_of(counts, k) + events.len(),
{
    assert forall|j: int| 0 <= j <= events.len() implies #[trigger] strong_handles(
        events.take(j),
        k,
    ) == j by {
        lemma_all_made(events.take(j), k);
    }
    assert(events.take(events.len() as int) =~= events);
    lemma_count_is_live_handles(counts, events, k);
}

/// Events that are each a strong handle to `k` coming to be leave as many
/// strong handles to `k` as there are events.
proof fn lemma_all_made(events: Seq<HandleEvent>, k: KeyView)
    requires
        forall|j: int|
            0 <= j < events.len() ==> #[trigger] events[j] == (HandleEvent::Created {
                key: k,
                strong: true,
            }),
    ensures
        strong_handles(events, k) == events.len(),
    decreases events.len(),
{
    if events.len() > 0 {
        lemma_all_made(events.drop_last(), k);
    }
}

/// Weak neutrality. Whatever number of weak handles is made, copied and
/// dropped, nothing is sent, and a sweep leaves every count as it was and
/// frees nothing.
pub proof fn lemma_weak_neutrality(counts: Counts, events: Seq<HandleEvent>)
    requires
        forall|i: int| 0 <= i < events.len() ==> !(#[trigger] events[i]).strong(),
    ensures
        sent(events) == Seq::<ChangeView>::empty(),
        apply(counts, sent(events)) == counts,
        freed(counts, sent(events)) == Seq::<KeyView>::empty(),
    decreases events.len(),
{
    if events.len() > 0 {
        lemma_weak_neutrality(counts, events.drop_last());
        assert(!events[events.len() - 1].strong());
        assert(sent(events) =~= Seq::<ChangeView>::empty());
    }
    assert(fell(counts, Seq::<ChangeView>::empty()) =~= Seq::<KeyView>::empty());
}

} // verus!
