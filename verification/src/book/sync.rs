//! Ordering, deduplication and contiguity checking of depth updates against
//! the update id of the last snapshot.

use vstd::prelude::*;
use crate::binance::types::DepthUpdate;

verus! {

/// What the synchroniser knows: the id of the last update reflected in the
/// book, if any, and the updates received before that id was known.
pub struct SyncState {
    last_update_id: Option<u64>,
    buffer: Vec<DepthUpdate>,
}

/// What a delta led to.
#[derive(Debug)]
pub enum SyncOutcome {
    /// These updates are to be applied to the book, in this order.
    Updates(Vec<DepthUpdate>),
    /// Nothing is to be applied.
    NoUpdates,
    /// Update ids are missing: the book has to be seeded again.
    GapBetweenUpdates,
}

/// The mathematical state of a [`SyncState`].
pub struct SyncModel {
    pub last_update_id: Option<u64>,
    pub buffer: Seq<DepthUpdate>,
}

/// The mathematical content of a [`SyncOutcome`].
pub enum OutcomeModel {
    Updates(Seq<DepthUpdate>),
    NoUpdates,
    Gap,
}

impl View for SyncState {
    type V = SyncModel;

    closed spec fn view(&self) -> SyncModel {
        SyncModel { last_update_id: self.last_update_id, buffer: self.buffer@ }
    }
}

impl View for SyncOutcome {
    type V = OutcomeModel;

    open spec fn view(&self) -> OutcomeModel {
        match self {
            SyncOutcome::Updates(batch) => OutcomeModel::Updates(batch@),
            SyncOutcome::NoUpdates => OutcomeModel::NoUpdates,
            SyncOutcome::GapBetweenUpdates => OutcomeModel::Gap,
        }
    }
}

/// `s` with `u` put behind every element whose first id is not above `u`'s.
/// On a sequence ordered by first id the result is ordered too, and `u`
/// comes after the elements that share its first id.
pub open spec fn insert_by_first_id(s: Seq<DepthUpdate>, u: DepthUpdate) -> Seq<DepthUpdate>
    decreases s.len(),
{
    if s.len() == 0 {
        seq![u]
    } else if s.last().first_update_id <= u.first_update_id {
        s.push(u)
    } else {
        insert_by_first_id(s.drop_last(), u).push(s.last())
    }
}

/// `s` ordered by ascending first id; elements with the same first id keep
/// the order they had in `s`.
pub open spec fn sort_by_first_id(s: Seq<DepthUpdate>) -> Seq<DepthUpdate>
    decreases s.len(),
{
    if s.len() == 0 {
        Seq::empty()
    } else {
        insert_by_first_id(sort_by_first_id(s.drop_last()), s.last())
    }
}

/// Whether the first ids of `s` never decrease.
pub open spec fn ordered_by_first_id(s: Seq<DepthUpdate>) -> bool {
    forall|i: int, j: int|
        0 <= i <= j < s.len() ==> s[i].first_update_id <= s[j].first_update_id
}

/// The updates of `candidates` that are applied when everything up to and
/// including id `through` is already reflected, or `None` where an id is
/// missing. A candidate that ends at or before `through` is stale and left
/// out; one that starts after `through + 1` leaves a gap; any other is
/// applied, and the candidates behind it are judged from its final id.
pub open spec fn select_contiguous(candidates: Seq<DepthUpdate>, through: int) -> Option<
    Seq<DepthUpdate>,
>
    decreases candidates.len(),
{
    if candidates.len() == 0 {
        Some(Seq::empty())
    } else {
        let head = candidates.first();
        let rest = candidates.drop_first();
        if head.final_update_id <= through {
            select_contiguous(rest, through)
        } else if head.first_update_id > through + 1 {
            None
        } else {
            match select_contiguous(rest, head.final_update_id as int) {
                Some(tail) => Some(seq![head] + tail),
                None => None,
            }
        }
    }
}

/// The state after `update` has been processed in state `pre`.
pub open spec fn next_state(pre: SyncModel, update: DepthUpdate) -> SyncModel {
    match pre.last_update_id {
        None => SyncModel { last_update_id: None, buffer: pre.buffer.push(update) },
        Some(last) => if update.final_update_id <= last {
            pre
        } else {
            match select_contiguous(sort_by_first_id(pre.buffer.push(update)), last as int) {
                Some(batch) => SyncModel {
                    last_update_id: if batch.len() > 0 {
                        Some(batch.last().final_update_id)
                    } else {
                        Some(last)
                    },
                    buffer: Seq::empty(),
                },
                None => SyncModel { last_update_id: Some(last), buffer: Seq::empty() },
            }
        },
    }
}

/// The outcome of processing `update` in state `pre`.
pub open spec fn outcome_of(pre: SyncModel, update: DepthUpdate) -> OutcomeModel {
    match pre.last_update_id {
        None => OutcomeModel::NoUpdates,
        Some(last) => if update.final_update_id <= last {
            OutcomeModel::NoUpdates
        } else {
            match select_contiguous(sort_by_first_id(pre.buffer.push(update)), last as int) {
                Some(batch) => OutcomeModel::Updates(batch),
                None => OutcomeModel::Gap,
            }
        },
    }
}

/// Whether `batch` continues a book that reflects everything through `last`
/// without a hole: its first update covers `last + 1`, and each later one
/// covers the id that follows the final id of the one before it.
pub open spec fn contiguous_from(batch: Seq<DepthUpdate>, last: int) -> bool {
    forall|i: int|
        0 <= i < batch.len() ==> {
            let before = if i == 0 {
                last
            } else {
                batch[i - 1].final_update_id as int
            };
            #[trigger] batch[i].first_update_id <= before + 1 <= batch[i].final_update_id
        }
}

proof fn lemma_insert_len(s: Seq<DepthUpdate>, u: DepthUpdate)
    ensures
        insert_by_first_id(s, u).len() == s.len() + 1,
    decreases s.len(),
{
    if s.len() > 0 && s.last().first_update_id > u.first_update_id {
        lemma_insert_len(s.drop_last(), u);
    }
}

/// Sorting neither adds nor drops an update.
pub proof fn lemma_sort_len(s: Seq<DepthUpdate>)
    ensures
        sort_by_first_id(s).len() == s.len(),
    decreases s.len(),
{
    if s.len() > 0 {
        lemma_sort_len(s.drop_last());
        lemma_insert_len(sort_by_first_id(s.drop_last()), s.last());
    }
}

proof fn lemma_insert_permutes(s: Seq<DepthUpdate>, u: DepthUpdate)
    ensures
        insert_by_first_id(s, u).to_multiset() == s.to_multiset().insert(u),
        forall|x: DepthUpdate|
            #[trigger] insert_by_first_id(s, u).contains(x) <==> (s.contains(x) || x == u),
    decreases s.len(),
{
    broadcast use vstd::seq_lib::group_to_multiset_ensures;

    let r = insert_by_first_id(s, u);
    if s.len() == 0 {
        assert(r =~= s.push(u));
    } else if s.last().first_update_id <= u.first_update_id {
    } else {
        let front = s.drop_last();
        lemma_insert_permutes(front, u);
        assert(s =~= front.push(s.last()));
        assert(r.to_multiset() =~= s.to_multiset().insert(u));
    }
    assert forall|x: DepthUpdate| #[trigger] r.contains(x) <==> (s.contains(x) || x == u) by {
        assert(r.to_multiset().count(x) == s.to_multiset().count(x) + if x == u {
            1int
        } else {
            0int
        });
    }
}

proof fn lemma_insert_ordered(s: Seq<DepthUpdate>, u: DepthUpdate)
    requires
        ordered_by_first_id(s),
    ensures
        ordered_by_first_id(insert_by_first_id(s, u)),
    decreases s.len(),
{
    let r = insert_by_first_id(s, u);
    if s.len() == 0 {
    } else if s.last().first_update_id <= u.first_update_id {
    } else {
        let front = s.drop_last();
        let inner = insert_by_first_id(front, u);
        lemma_insert_len(front, u);
        lemma_insert_ordered(front, u);
        lemma_insert_permutes(front, u);
        assert forall|i: int, j: int| 0 <= i <= j < r.len() implies r[i].first_update_id
            <= r[j].first_update_id by {
            if j < inner.len() {
                assert(r[i] == inner[i] && r[j] == inner[j]);
            } else if i < j {
                assert(r[j] == s.last());
                assert(r[i] == inner[i]);
                assert(inner.contains(inner[i]));
                if inner[i] != u {
                    assert(front.contains(inner[i]));
                    let k = choose|k: int| 0 <= k < front.len() && front[k] == inner[i];
                    assert(s[k] == inner[i]);
                    assert(s[s.len() - 1] == s.last());
                }
            }
        }
    }
}

/// Sorting gives a sequence ordered by first id that holds exactly the
/// updates it was given, each as often as before.
pub proof fn lemma_sort_orders_and_permutes(s: Seq<DepthUpdate>)
    ensures
        ordered_by_first_id(sort_by_first_id(s)),
        sort_by_first_id(s).to_multiset() == s.to_multiset(),
        sort_by_first_id(s).len() == s.len(),
        forall|x: DepthUpdate| #[trigger] sort_by_first_id(s).contains(x) <==> s.contains(x),
    decreases s.len(),
{
    broadcast use vstd::seq_lib::group_to_multiset_ensures;

    lemma_sort_len(s);
    if s.len() > 0 {
        let front = s.drop_last();
        lemma_sort_orders_and_permutes(front);
        lemma_insert_ordered(sort_by_first_id(front), s.last());
        lemma_insert_permutes(sort_by_first_id(front), s.last());
        assert(s =~= front.push(s.last()));
    } else {
        assert(sort_by_first_id(s) =~= s);
    }
    assert forall|x: DepthUpdate| #[trigger] sort_by_first_id(s).contains(x) <==> s.contains(
        x,
    ) by {
        assert(sort_by_first_id(s).to_multiset().count(x) == s.to_multiset().count(x));
    }
}

/// The updates of `s` whose first id is `id`, in their order.
pub open spec fn with_first_id(s: Seq<DepthUpdate>, id: u64) -> Seq<DepthUpdate> {
    s.filter(|u: DepthUpdate| u.first_update_id == id)
}

proof fn lemma_insert_keeps_order_of_equals(s: Seq<DepthUpdate>, u: DepthUpdate, id: u64)
    ensures
        with_first_id(insert_by_first_id(s, u), id) == if u.first_update_id == id {
            with_first_id(s, id).push(u)
        } else {
            with_first_id(s, id)
        },
    decreases s.len(),
{
    let same = |x: DepthUpdate| x.first_update_id == id;
    if s.len() == 0 {
        assert(insert_by_first_id(s, u) =~= s.push(u));
        s.lemma_filter_push(u, same);
    } else if s.last().first_update_id <= u.first_update_id {
        s.lemma_filter_push(u, same);
    } else {
        let front = s.drop_last();
        lemma_insert_keeps_order_of_equals(front, u, id);
        insert_by_first_id(front, u).lemma_filter_push(s.last(), same);
        front.lemma_filter_push(s.last(), same);
        assert(s =~= front.push(s.last()));
    }
}

/// Sorting is stable: updates that share a first id come out in the order
/// in which they went in.
pub proof fn lemma_sort_is_stable(s: Seq<DepthUpdate>, id: u64)
    ensures
        with_first_id(sort_by_first_id(s), id) == with_first_id(s, id),
    decreases s.len(),
{
    let same = |x: DepthUpdate| x.first_update_id == id;
    if s.len() > 0 {
        let front = s.drop_last();
        lemma_sort_is_stable(front, id);
        lemma_insert_keeps_order_of_equals(sort_by_first_id(front), s.last(), id);
        front.lemma_filter_push(s.last(), same);
        assert(s =~= front.push(s.last()));
    }
}

/// The final id that a batch ends at, or `through` for an empty one.
pub open spec fn end_of(batch: Seq<DepthUpdate>, through: int) -> int {
    if batch.len() > 0 {
        batch.last().final_update_id as int
    } else {
        through
    }
}

proof fn lemma_selected_is_contiguous(candidates: Seq<DepthUpdate>, through: int)
    requires
        select_contiguous(candidates, through) is Some,
    ensures
        contiguous_from(select_contiguous(candidates, through)->0, through),
        through <= end_of(select_contiguous(candidates, through)->0, through),
    decreases candidates.len(),
{
    let batch = select_contiguous(candidates, through)->0;
    if candidates.len() > 0 {
        let head = candidates.first();
        let rest = candidates.drop_first();
        if head.final_update_id <= through {
            lemma_selected_is_contiguous(rest, through);
        } else {
            let next = head.final_update_id as int;
            lemma_selected_is_contiguous(rest, next);
            let tail = select_contiguous(rest, next)->0;
            assert(batch =~= seq![head] + tail);
            assert forall|i: int| 0 <= i < batch.len() implies {
                let before = if i == 0 {
                    through
                } else {
                    batch[i - 1].final_update_id as int
                };
                #[trigger] batch[i].first_update_id <= before + 1 <= batch[i].final_update_id
            } by {
                if i > 0 {
                    assert(batch[i] == tail[i - 1]);
                    if i > 1 {
                        assert(batch[i - 1] == tail[i - 2]);
                    } else {
                        assert(batch[0] == head);
                    }
                }
            }
            if tail.len() > 0 {
                assert(batch.last() == tail.last());
            }
        }
    }
}

proof fn lemma_selected_comes_from_candidates(candidates: Seq<DepthUpdate>, through: int, i: int)
    requires
        select_contiguous(candidates, through) is Some,
        0 <= i < select_contiguous(candidates, through)->0.len(),
    ensures
        exists|k: int|
            0 <= k < candidates.len() && #[trigger] candidates[k] == select_contiguous(
                candidates,
                through,
            )->0[i],
    decreases candidates.len(),
{
    let batch = select_contiguous(candidates, through)->0;
    if candidates.len() > 0 {
        let head = candidates.first();
        let rest = candidates.drop_first();
        if head.final_update_id <= through {
            lemma_selected_comes_from_candidates(rest, through, i);
            let k = choose|k: int| 0 <= k < rest.len() && #[trigger] rest[k] == batch[i];
            assert(candidates[k + 1] == batch[i]);
        } else {
            let next = head.final_update_id as int;
            let tail = select_contiguous(rest, next)->0;
            assert(batch =~= seq![head] + tail);
            if i == 0 {
                assert(candidates[0] == batch[0]);
            } else {
                assert(batch[i] == tail[i - 1]);
                lemma_selected_comes_from_candidates(rest, next, i - 1);
                let k = choose|k: int| 0 <= k < rest.len() && #[trigger] rest[k] == tail[i - 1];
                assert(candidates[k + 1] == batch[i]);
            }
        }
    }
}

proof fn lemma_selected_covers_candidates(candidates: Seq<DepthUpdate>, through: int, k: int)
    requires
        select_contiguous(candidates, through) is Some,
        0 <= k < candidates.len(),
    ensures
        candidates[k].final_update_id <= end_of(select_contiguous(candidates, through)->0, through),
    decreases candidates.len(),
{
    let batch = select_contiguous(candidates, through)->0;
    let head = candidates.first();
    let rest = candidates.drop_first();
    if head.final_update_id <= through {
        lemma_selected_is_contiguous(rest, through);
        if k > 0 {
            assert(rest[k - 1] == candidates[k]);
            lemma_selected_covers_candidates(rest, through, k - 1);
        }
    } else {
        let next = head.final_update_id as int;
        let tail = select_contiguous(rest, next)->0;
        assert(batch =~= seq![head] + tail);
        lemma_selected_is_contiguous(rest, next);
        if tail.len() > 0 {
            assert(batch.last() == tail.last());
        } else {
            assert(batch.last() == head);
        }
        if k > 0 {
            assert(rest[k - 1] == candidates[k]);
            lemma_selected_covers_candidates(rest, next, k - 1);
        }
    }
}

proof fn lemma_selected_keeps_order(candidates: Seq<DepthUpdate>, through: int)
    requires
        select_contiguous(candidates, through) is Some,
        ordered_by_first_id(candidates),
    ensures
        ordered_by_first_id(select_contiguous(candidates, through)->0),
    decreases candidates.len(),
{
    let batch = select_contiguous(candidates, through)->0;
    if candidates.len() > 0 {
        let head = candidates.first();
        let rest = candidates.drop_first();
        assert(ordered_by_first_id(rest)) by {
            assert forall|i: int, j: int| 0 <= i <= j < rest.len() implies rest[i].first_update_id
                <= rest[j].first_update_id by {
                assert(rest[i] == candidates[i + 1]);
                assert(rest[j] == candidates[j + 1]);
            }
        }
        if head.final_update_id <= through {
            lemma_selected_keeps_order(rest, through);
        } else {
            let next = head.final_update_id as int;
            let tail = select_contiguous(rest, next)->0;
            lemma_selected_keeps_order(rest, next);
            assert(batch =~= seq![head] + tail);
            assert forall|i: int, j: int| 0 <= i <= j < batch.len() implies batch[i].first_update_id
                <= batch[j].first_update_id by {
                if i == 0 && j > 0 {
                    assert(batch[j] == tail[j - 1]);
                    lemma_selected_comes_from_candidates(rest, next, j - 1);
                    let k = choose|k: int| 0 <= k < rest.len() && #[trigger] rest[k] == tail[j - 1];
                    assert(candidates[k + 1] == batch[j]);
                    assert(candidates[0] == batch[0]);
                } else if i > 0 {
                    assert(batch[i] == tail[i - 1]);
                    assert(batch[j] == tail[j - 1]);
                }
            }
        }
    }
}

/// What a selected batch looks like: it is contiguous from `through`, taken
/// from the candidates in their order, and it ends at or behind the final
/// id of every candidate.
pub proof fn lemma_selected_batch(candidates: Seq<DepthUpdate>, through: int)
    requires
        select_contiguous(candidates, through) is Some,
    ensures
        ({
            let batch = select_contiguous(candidates, through)->0;
            &&& contiguous_from(batch, through)
            &&& through <= end_of(batch, through)
            &&& forall|i: int| 0 <= i < batch.len() ==> candidates.contains(#[trigger] batch[i])
            &&& forall|i: int|
                0 <= i < candidates.len() ==> (#[trigger] candidates[i]).final_update_id <= end_of(
                    batch,
                    through,
                )
            &&& ordered_by_first_id(candidates) ==> ordered_by_first_id(batch)
        }),
{
    let batch = select_contiguous(candidates, through)->0;
    lemma_selected_is_contiguous(candidates, through);
    assert forall|i: int| 0 <= i < batch.len() implies candidates.contains(
        #[trigger] batch[i],
    ) by {
        lemma_selected_comes_from_candidates(candidates, through, i);
    }
    assert forall|i: int| 0 <= i < candidates.len() implies (
    #[trigger] candidates[i]).final_update_id <= end_of(batch, through) by {
        lemma_selected_covers_candidates(candidates, through, i);
    }
    if ordered_by_first_id(candidates) {
        lemma_selected_keeps_order(candidates, through);
    }
}

/// A batch handed out from a state that reflects everything through `last`
/// is not empty, starts at or before `last + 1`, continues without a hole,
/// holds updates of the buffer or the new one in ascending order of first
/// id with strictly rising final ids, and ends at the new known id.
pub proof fn lemma_batch_is_contiguous(pre: SyncModel, update: DepthUpdate)
    requires
        pre.last_update_id is Some,
        outcome_of(pre, update) is Updates,
    ensures
        ({
            let last = pre.last_update_id->0;
            let batch = outcome_of(pre, update)->Updates_0;
            &&& batch.len() > 0
            &&& batch[0].first_update_id <= last + 1
            &&& contiguous_from(batch, last as int)
            &&& ordered_by_first_id(batch)
            &&& forall|i: int, j: int|
                0 <= i < j < batch.len() ==> batch[i].final_update_id < batch[j].final_update_id
            &&& forall|i: int|
                0 <= i < batch.len() ==> pre.buffer.push(update).contains(#[trigger] batch[i])
            &&& next_state(pre, update).last_update_id == Some(batch.last().final_update_id)
            &&& batch.last().final_update_id >= update.final_update_id
            &&& next_state(pre, update).buffer.len() == 0
        }),
{
    let last = pre.last_update_id->0;
    let input = pre.buffer.push(update);
    let sorted = sort_by_first_id(input);
    let batch = outcome_of(pre, update)->Updates_0;
    lemma_sort_orders_and_permutes(input);
    lemma_selected_batch(sorted, last as int);
    assert(input[input.len() - 1] == update);
    assert(input.contains(update));
    assert(sorted.contains(update));
    let k = choose|k: int| 0 <= k < sorted.len() && sorted[k] == update;
    assert(sorted[k].final_update_id > last);
    assert forall|i: int| 0 <= i < batch.len() implies input.contains(#[trigger] batch[i]) by {
        assert(sorted.contains(batch[i]));
    }
    lemma_contiguous_finals_rise(batch, last as int, 0, batch.len() - 1);
    assert forall|i: int, j: int| 0 <= i < j < batch.len() implies batch[i].final_update_id
        < batch[j].final_update_id by {
        lemma_contiguous_finals_rise(batch, last as int, i, j);
    }
}

proof fn lemma_contiguous_finals_rise(batch: Seq<DepthUpdate>, last: int, i: int, j: int)
    requires
        contiguous_from(batch, last),
        0 <= i <= j < batch.len(),
    ensures
        i < j ==> batch[i].final_update_id < batch[j].final_update_id,
        batch[i].final_update_id <= batch[j].final_update_id,
        i == 0 ==> last < batch[i].final_update_id,
    decreases j - i,
{
    assert(batch[i].first_update_id <= batch[i].final_update_id);
    if i < j {
        lemma_contiguous_finals_rise(batch, last, i, j - 1);
        assert(batch[j].first_update_id <= batch[j].final_update_id);
    }
}

/// The known id never falls, and it rises only with a batch of updates.
/// While no id is known, none becomes known by a delta.
pub proof fn lemma_last_update_id_monotone(pre: SyncModel, update: DepthUpdate)
    ensures
        pre.last_update_id is None ==> next_state(pre, update).last_update_id is None,
        pre.last_update_id is Some ==> {
            &&& next_state(pre, update).last_update_id is Some
            &&& pre.last_update_id->0 <= next_state(pre, update).last_update_id->0
            &&& pre.last_update_id->0 < next_state(pre, update).last_update_id->0
                ==> outcome_of(pre, update) is Updates
        },
{
    if pre.last_update_id is Some && outcome_of(pre, update) is Updates {
        lemma_batch_is_contiguous(pre, update);
    }
}

/// A delta that ends in a gap leaves the known id as it was, and the
/// buffer empty.
pub proof fn lemma_gap_keeps_last_update_id(pre: SyncModel, update: DepthUpdate)
    requires
        outcome_of(pre, update) is Gap,
    ensures
        next_state(pre, update).last_update_id == pre.last_update_id,
        next_state(pre, update).buffer.len() == 0,
{
}

proof fn lemma_insert_position(s: Seq<DepthUpdate>, u: DepthUpdate, at: int)
    requires
        0 <= at <= s.len(),
        forall|j: int| at <= j < s.len() ==> s[j].first_update_id > u.first_update_id,
        at > 0 ==> s[at - 1].first_update_id <= u.first_update_id,
    ensures
        insert_by_first_id(s, u) == s.insert(at, u),
    decreases s.len(),
{
    if s.len() == 0 {
        assert(s.insert(at, u) =~= seq![u]);
    } else if at == s.len() {
        assert(s.insert(at, u) =~= s.push(u));
    } else {
        lemma_insert_position(s.drop_last(), u, at);
        assert(s.insert(at, u) =~= s.drop_last().insert(at, u).push(s.last()));
    }
}

/// Puts `u` into `sorted` behind every update whose first id is not above
/// its own.
fn insert_ordered(sorted: &mut Vec<DepthUpdate>, u: DepthUpdate)
    ensures
        final(sorted)@ == insert_by_first_id(old(sorted)@, u),
{
    let mut at: usize = sorted.len();
    while at > 0 && sorted[at - 1].first_update_id > u.first_update_id
        invariant
            at <= sorted.len(),
            sorted@ == old(sorted)@,
            forall|j: int| at <= j < sorted.len() ==> sorted[j].first_update_id > u.first_update_id,
        decreases at,
    {
        at = at - 1;
    }
    proof {
        lemma_insert_position(sorted@, u, at as int);
    }
    sorted.insert(at, u);
}

/// Orders `candidates` by ascending first id, keeping the order of updates
/// that share one.
fn sort_candidates(candidates: Vec<DepthUpdate>) -> (sorted: Vec<DepthUpdate>)
    ensures
        sorted@ == sort_by_first_id(candidates@),
{
    let ghost input = candidates@;
    let mut sorted: Vec<DepthUpdate> = Vec::new();
    for u in it: candidates
        invariant
            it.seq() == input,
            sorted@ == sort_by_first_id(input.take(it.index())),
    {
        proof {
            assert(input.take(it.index() + 1).drop_last() =~= input.take(it.index()));
        }
        insert_ordered(&mut sorted, u);
    }
    proof {
        assert(input.take(input.len() as int) =~= input);
    }
    sorted
}

impl SyncState {
    /// The id of the last update reflected in the book, if it is known.
    pub open spec fn spec_last_update_id(&self) -> Option<u64> {
        self@.last_update_id
    }

    /// A fresh state: no id known, nothing buffered.
    pub fn new() -> (state: Self)
        ensures
            state@.last_update_id is None,
            state@.buffer == Seq::<DepthUpdate>::empty(),
    {
        Self { last_update_id: None, buffer: Vec::new() }
    }

    /// Seeds the state with the update id of a snapshot. The buffer stays.
    pub fn set_last_update_id(&mut self, last_update_id: u64)
        ensures
            final(self)@.last_update_id == Some(last_update_id),
            final(self)@.buffer == old(self)@.buffer,
    {
        self.last_update_id = Some(last_update_id);
    }

    /// The id of the last update reflected in the book, if it is known.
    pub fn last_update_id(&self) -> (id: Option<u64>)
        ensures
            id == self@.last_update_id,
    {
        self.last_update_id
    }

    /// The updates held back until a snapshot id is known.
    pub fn buffer(&self) -> (buffered: &Vec<DepthUpdate>)
        ensures
            buffered@ == self@.buffer,
    {
        &self.buffer
    }

    /// Takes in one depth update.
    ///
    /// While no snapshot id is known the update is buffered. One that ends
    /// at or before the known id is stale and dropped. Any other empties the
    /// buffer: the buffered updates and the new one are ordered by first id
    /// and checked for contiguity from the known id. Where they hold
    /// together, those that are not stale come back as a batch and the
    /// known id moves to the final id of the batch; where an id is missing
    /// the outcome is a gap and the known id stays.
    pub fn process_delta(&mut self, update: DepthUpdate) -> (outcome: SyncOutcome)
        ensures
            final(self)@ == next_state(old(self)@, update),
            outcome@ == outcome_of(old(self)@, update),
            outcome@ is Gap ==> final(self)@.last_update_id == old(self)@.last_update_id,
            old(self)@.last_update_id is None ==> final(self)@.last_update_id is None,
            old(self)@.last_update_id matches Some(last) ==> {
                &&& final(self)@.last_update_id matches Some(now)
                &&& last <= now
                &&& last < now ==> outcome@ is Updates
            },
            (old(self)@.last_update_id is Some && outcome@ is Updates) ==> {
                let batch = outcome@->Updates_0;
                &&& batch.len() > 0
                &&& contiguous_from(batch, old(self)@.last_update_id->0 as int)
                &&& final(self)@.last_update_id == Some(batch.last().final_update_id)
            },
    {
        proof {
            lemma_last_update_id_monotone(self@, update);
            if self@.last_update_id is Some && outcome_of(self@, update) is Updates {
                lemma_batch_is_contiguous(self@, update);
            }
        }
        let last_id = match self.last_update_id {
            None => {
                self.buffer.push(update);
                return SyncOutcome::NoUpdates;
            },
            Some(last_id) => last_id,
        };
        if update.final_update_id <= last_id {
            return SyncOutcome::NoUpdates;
        }
        let ghost all = sort_by_first_id(self.buffer@.push(update));
        let mut candidates = self.drain_buffer();
        candidates.push(update);
        let sorted = sort_candidates(candidates);

        let mut to_apply: Vec<DepthUpdate> = Vec::new();
        let mut through: u64 = last_id;
        proof {
            assert(all.skip(0) =~= all);
            let tail = select_contiguous(all, last_id as int);
            if tail is Some {
                assert(to_apply@ + tail->0 =~= tail->0);
            }
        }
        for u in it: sorted
            invariant
                it.seq() == all,
                all == sort_by_first_id(old(self)@.buffer.push(update)),
                old(self)@.last_update_id == Some(last_id),
                update.final_update_id > last_id,
                self.buffer@ == Seq::<DepthUpdate>::empty(),
                self.last_update_id == Some(last_id),
                through == if to_apply.len() > 0 {
                    to_apply@.last().final_update_id
                } else {
                    last_id
                },
                select_contiguous(all, last_id as int) == match select_contiguous(
                    all.skip(it.index()),
                    through as int,
                ) {
                    Some(tail) => Some(to_apply@ + tail),
                    None => None,
                },
        {
            proof {
                assert(all.skip(it.index()).drop_first() =~= all.skip(it.index() + 1));
                assert(all.skip(it.index()).first() == u);
            }
            if u.final_update_id > through {
                if u.first_update_id > through + 1 {
                    return SyncOutcome::GapBetweenUpdates;
                }
                proof {
                    let tail = select_contiguous(
                        all.skip(it.index() + 1),
                        u.final_update_id as int,
                    );
                    if tail is Some {
                        assert(to_apply@ + (seq![u] + tail->0) =~= to_apply@.push(u) + tail->0);
                    }
                }
                through = u.final_update_id;
                to_apply.push(u);
            }
        }
        proof {
            assert(all.skip(all.len() as int) =~= Seq::<DepthUpdate>::empty());
            assert(to_apply@ + Seq::<DepthUpdate>::empty() =~= to_apply@);
        }
        if to_apply.len() > 0 {
            self.set_last_update_id(through);
        }
        SyncOutcome::Updates(to_apply)
    }

    /// Hands the buffered updates to the caller and leaves the buffer empty.
    pub fn drain_buffer(&mut self) -> (drained: Vec<DepthUpdate>)
        ensures
            drained@ == old(self)@.buffer,
            final(self)@.buffer == Seq::<DepthUpdate>::empty(),
            final(self)@.last_update_id == old(self)@.last_update_id,
    {
        let mut drained: Vec<DepthUpdate> = Vec::new();
        std::mem::swap(&mut self.buffer, &mut drained);
        drained
    }
}

} // verus!
