//! What holds of the store over whole runs of requests, whichever caller
//! made them and in whatever order they reached the store.
//!
//! A store is changed through an exclusive borrow, so requests that arrive
//! side by side take effect one after the other. A run is the sequence in
//! which they did.

use vstd::prelude::*;
use vstd::set_lib::{lemma_int_range, set_int_range};
use crate::models::ToDoView;
use crate::store::{StoreView, FIRST_ID};

verus! {

/// A request to create an item: the two texts that a client supplies.
pub ghost struct NewToDo {
    pub title: Seq<char>,
    pub description: Seq<char>,
}

/// How many requests of a run the store accepts: those with a title.
pub open spec fn accepted(run: Seq<NewToDo>) -> nat
    decreases run.len(),
{
    if run.len() == 0 {
        0
    } else if run.last().title.len() > 0 {
        accepted(run.drop_last()) + 1
    } else {
        accepted(run.drop_last())
    }
}

/// Whether the store accepts every request of a run.
pub open spec fn all_accepted(run: Seq<NewToDo>) -> bool {
    forall|k: int| 0 <= k < run.len() ==> (#[trigger] run[k]).title.len() > 0
}

/// The store after a run of requests, taken one after the other.
pub open spec fn after_run(s: StoreView, run: Seq<NewToDo>) -> StoreView
    decreases run.len(),
{
    if run.len() == 0 {
        s
    } else {
        after_run(s, run.drop_last()).create(run.last().title, run.last().description)
    }
}

/// The identifiers that a run added to a store of `before` items.
pub open spec fn assigned_ids(before: StoreView, after: StoreView) -> Set<int> {
    Set::new(
        |id: int|
            exists|k: int|
                before.items.len() <= k < after.items.len() && (#[trigger] after.items[k]).id
                    == id,
    )
}

/// A run in which every request is accepted counts as many accepted
/// requests as it is long.
pub proof fn lemma_accepted_all(run: Seq<NewToDo>)
    requires
        all_accepted(run),
    ensures
        accepted(run) == run.len(),
    decreases run.len(),
{
    if run.len() > 0 {
        assert(run.last() == run[run.len() - 1]);
        assert forall|k: int| 0 <= k < run.drop_last().len() implies (
        #[trigger] run.drop_last()[k]).title.len() > 0 by {
            assert(run.drop_last()[k] == run[k]);
        }
        lemma_accepted_all(run.drop_last());
    }
}

/// A run leaves the store well-formed, keeps every earlier item where and as
/// it was, and adds one item for each accepted request: the `k`-th of them
/// carries the starting counter plus `k`, and the counter ends that many
/// higher.
pub proof fn lemma_run(s: StoreView, run: Seq<NewToDo>)
    requires
        s.wf(),
        s.next_id + accepted(run) <= u32::MAX,
    ensures
        after_run(s, run).wf(),
        after_run(s, run).next_id == s.next_id + accepted(run),
        after_run(s, run).items.len() == s.items.len() + accepted(run),
        forall|i: int| 0 <= i < s.items.len() ==> after_run(s, run).items[i] == s.items[i],
        forall|k: int|
            0 <= k < accepted(run) ==> (#[trigger] after_run(s, run).items[s.items.len() + k]).id
                == s.next_id + k,
    decreases run.len(),
{
    if run.len() > 0 {
        let front = run.drop_last();
        lemma_run(s, front);
        let mid = after_run(s, front);
        let last = run.last();
        if last.title.len() > 0 {
            let end = mid.create(last.title, last.description);
            assert(end == after_run(s, run));
            assert forall|k: int| 0 <= k < accepted(run) implies (#[trigger] end.items[s.items.len()
                + k]).id == s.next_id + k by {
                if k < accepted(front) {
                    assert(end.items[s.items.len() + k] == mid.items[s.items.len() + k]);
                }
            }
        }
    }
}

/// Where every request of a run is accepted, the items that the run added
/// stand in the order in which the requests reached the store: the `k`-th
/// request's texts, not done, under the starting counter plus `k`.
pub proof fn lemma_run_in_arrival_order(s: StoreView, run: Seq<NewToDo>)
    requires
        s.wf(),
        all_accepted(run),
        s.next_id + run.len() <= u32::MAX,
    ensures
        after_run(s, run).items.len() == s.items.len() + run.len(),
        forall|k: int|
            0 <= k < run.len() ==> #[trigger] after_run(s, run).items[s.items.len() + k] == (
            ToDoView {
                id: (s.next_id + k) as u32,
                title: run[k].title,
                description: run[k].description,
                done: false,
            }),
    decreases run.len(),
{
    lemma_accepted_all(run);
    if run.len() > 0 {
        let front = run.drop_last();
        assert forall|k: int| 0 <= k < front.len() implies (#[trigger] front[k]).title.len()
            > 0 by {
            assert(front[k] == run[k]);
        }
        lemma_accepted_all(front);
        lemma_run(s, front);
        lemma_run_in_arrival_order(s, front);
        let mid = after_run(s, front);
        let end = after_run(s, run);
        assert(run.last() == run[run.len() - 1]);
        assert forall|k: int| 0 <= k < run.len() implies #[trigger] end.items[s.items.len() + k]
            == (ToDoView {
            id: (s.next_id + k) as u32,
            title: run[k].title,
            description: run[k].description,
            done: false,
        }) by {
            if k < front.len() {
                assert(end.items[s.items.len() + k] == mid.items[s.items.len() + k]);
                assert(front[k] == run[k]);
            }
        }
    }
}

/// Any number of creations, side by side or not, all with a title, get
/// identifiers that are all different and fill the range that starts at the
/// counter's value before the first of them, with no gap.
pub proof fn lemma_assigned_ids_distinct_and_gapless(s: StoreView, run: Seq<NewToDo>)
    requires
        s.wf(),
        all_accepted(run),
        s.next_id + run.len() <= u32::MAX,
    ensures
        assigned_ids(s, after_run(s, run)) == set_int_range(
            s.next_id as int,
            (s.next_id + run.len()) as int,
        ),
        assigned_ids(s, after_run(s, run)).finite(),
        assigned_ids(s, after_run(s, run)).len() == run.len(),
        forall|j: int, k: int|
            s.items.len() <= j < k < after_run(s, run).items.len() ==> (
            #[trigger] after_run(s, run).items[j]).id != (#[trigger] after_run(s, run).items[k]).id,
{
    lemma_accepted_all(run);
    lemma_run(s, run);
    let after = after_run(s, run);
    let ids = assigned_ids(s, after);
    let range = set_int_range(s.next_id as int, (s.next_id + run.len()) as int);
    assert forall|id: int| ids.contains(id) <==> range.contains(id) by {
        if ids.contains(id) {
            let k = choose|k: int|
                s.items.len() <= k < after.items.len() && (#[trigger] after.items[k]).id == id;
            assert(after.items[s.items.len() + (k - s.items.len())].id == s.next_id + (k
                - s.items.len()));
        }
        if range.contains(id) {
            let k = s.items.len() + (id - s.next_id);
            assert(after.items[s.items.len() + (id - s.next_id)].id == id);
            assert(s.items.len() <= k < after.items.len() && after.items[k].id == id);
        }
    }
    assert(ids =~= range);
    lemma_int_range(s.next_id as int, (s.next_id + run.len()) as int);
}

/// Right after a creation the list ends with the item that the creation
/// returned, is one item longer, and holds the earlier items unchanged.
pub proof fn lemma_list_after_create(s: StoreView, title: Seq<char>, description: Seq<char>)
    requires
        s.wf(),
        s.has_room(),
        title.len() > 0,
    ensures
        s.create(title, description).wf(),
        s.create(title, description).items.len() == s.items.len() + 1,
        s.create(title, description).items.last() == s.fresh_item(title, description),
        s.create(title, description).items.drop_last() == s.items,
{
    assert(s.create(title, description).items.drop_last() =~= s.items);
}

/// A store that started empty holds as many items as it accepted requests,
/// no fewer and no more.
pub proof fn lemma_count_is_accepted(run: Seq<NewToDo>)
    requires
        FIRST_ID + accepted(run) <= u32::MAX,
    ensures
        after_run(StoreView::empty(), run).items.len() == accepted(run),
{
    lemma_run(StoreView::empty(), run);
}

/// The item that a creation returned is the one found under its identifier
/// right after, and every item that could be found before is found
/// unchanged.
pub proof fn lemma_get_after_create(s: StoreView, title: Seq<char>, description: Seq<char>)
    requires
        s.wf(),
        s.has_room(),
        title.len() > 0,
    ensures
        s.create(title, description).lookup(s.next_id as u32) == Some(
            s.fresh_item(title, description),
        ),
        forall|id: u32|
            s.has_id(id) ==> #[trigger] s.create(title, description).lookup(id) == s.lookup(id),
{
    let after = s.create(title, description);
    crate::store::lemma_lookup_at(after, s.items.len() as int);
    assert forall|id: u32| s.has_id(id) implies #[trigger] after.lookup(id) == s.lookup(id) by {
        let at = s.position(id);
        crate::store::lemma_lookup_at(s, at);
        assert(after.items[at] == s.items[at]);
        crate::store::lemma_lookup_at(after, at);
    }
}

/// An item stays the one found under its identifier through any run that
/// follows its creation.
pub proof fn lemma_get_after_run(s: StoreView, run: Seq<NewToDo>, id: u32)
    requires
        s.wf(),
        s.next_id + accepted(run) <= u32::MAX,
        s.has_id(id),
    ensures
        after_run(s, run).lookup(id) == s.lookup(id),
{
    lemma_run(s, run);
    let at = s.position(id);
    crate::store::lemma_lookup_at(s, at);
    assert(after_run(s, run).items[at] == s.items[at]);
    crate::store::lemma_lookup_at(after_run(s, run), at);
}

/// In a store that started empty, the identifiers under which an item is
/// found are those that were handed out: from the first one up to the
/// counter. Under any other, nothing is found.
pub proof fn lemma_found_iff_created(run: Seq<NewToDo>, id: u32)
    requires
        FIRST_ID + accepted(run) <= u32::MAX,
    ensures
        after_run(StoreView::empty(), run).lookup(id).is_some() <==> FIRST_ID <= id < after_run(
            StoreView::empty(),
            run,
        ).next_id,
{
    let start = StoreView::empty();
    let after = after_run(start, run);
    lemma_run(start, run);
    if FIRST_ID <= id < after.next_id {
        let k = id - FIRST_ID;
        assert(after.items[start.items.len() + k].id == start.next_id + k);
        crate::store::lemma_lookup_at(after, k);
    }
}

} // verus!
