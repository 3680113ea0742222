//! What joins of child runs and the cancelling of run trees promise.

use vstd::prelude::*;

use crate::event::EventKind;
use crate::ids::RunId;
use crate::json::JsonView;
use crate::run::{JoinMode, RunStatus, RunView, WaitView};
use crate::store::{QueueEntry, Store};
use crate::time::Timestamp;

verus! {

// ---- joins ---------------------------------------------------------------------

/// A run is final exactly when it has completed, failed or been cancelled.
pub proof fn a_final_run_has_ended(status: RunStatus)
    ensures
        status.terminal() <==> status == RunStatus::Completed || status == RunStatus::Failed
            || status == RunStatus::Cancelled,
{
}

/// Whether a run has ended.
pub open spec fn ended(run: RunView) -> bool {
    run.status is Completed || run.status is Failed || run.status is Cancelled
}

/// Whether a run `k` is there whose parent is `p`.
pub open spec fn kid(store: Store, p: RunId, k: u128) -> bool {
    store.runs.contains_key(k) && store.runs[k].parent_id == Some(p)
}

/// The children of `p` that have completed.
pub open spec fn winners(store: Store, p: RunId) -> Set<u128> {
    Set::new(|k: u128| kid(store, p, k) && store.runs[k].status is Completed)
}

/// Whether the report `after` of a child to `p` has woken it: it is pending, it waits for
/// nothing, and the queue has one entry more, which makes it runnable at once.
pub open spec fn woken(
    before: Store,
    p: RunId,
    now: Timestamp,
    entry_id: u128,
    after: Store,
) -> bool {
    &&& after.run(p) == (RunView {
        status: RunStatus::Pending,
        waiting: None,
        updated_at: now,
        ..before.run(p)
    })
    &&& after.queue == before.queue.push(
        QueueEntry { entry_id, run_id: p, ready_at: now, leased_until: None },
    )
}

/// Whether the report `after` of a child to `p` has left it parked: its record and the queue
/// are as they were.
pub open spec fn left_parked(before: Store, p: RunId, after: Store) -> bool {
    &&& after.runs == before.runs
    &&& after.queue == before.queue
}

/// A parent that waits for a quorum of `n` and has a child that has not ended is woken by a
/// report exactly when at least `n` of its children have completed; with fewer it stays
/// parked.
pub proof fn a_quorum_is_that_many_completions(
    store: Store,
    p: RunId,
    n: u32,
    unended: u128,
    now: Timestamp,
    entry_id: u128,
)
    requires
        store.wf(),
        store.has_run(p),
        store.run(p).waiting == Some(WaitView::ChildJoin { mode: JoinMode::Quorum(n) }),
        kid(store, p, unended),
        !ended(store.runs[unended]),
    ensures
        ({
            let after = store.child_reported(p, now, entry_id);
            &&& winners(store, p).len() >= n ==> woken(store, p, now, entry_id, after)
            &&& winners(store, p).len() < n ==> left_parked(store, p, after)
        }),
{
    assert(store.runs.contains_key(p.value));
    assert(winners(store, p) =~= store.completed_children(p.value));
    assert(store.child_of(unended, p.value));
    super::lemma_two(
        store.append(
            p,
            EventKind::ChildRunFinished,
            JsonView::empty_object().with(
                "satisfied"@,
                JsonView::Bool(store.joined(p.value, JoinMode::Quorum(n))),
            ),
            now,
        ),
        crate::decide::waking(store.run(p), entry_id, now),
    );
}

/// A parent that waits for all its children is woken by a report exactly when every one of
/// them has ended.
pub proof fn a_join_of_all_waits_for_every_child(
    store: Store,
    p: RunId,
    now: Timestamp,
    entry_id: u128,
)
    requires
        store.wf(),
        store.has_run(p),
        store.run(p).waiting == Some(WaitView::ChildJoin { mode: JoinMode::All }),
    ensures
        ({
            let after = store.child_reported(p, now, entry_id);
            let all = forall|k: u128| #[trigger] kid(store, p, k) ==> ended(store.runs[k]);
            &&& all ==> woken(store, p, now, entry_id, after)
            &&& !all ==> left_parked(store, p, after)
        }),
{
    assert(store.runs.contains_key(p.value));
    let all = forall|k: u128| #[trigger] kid(store, p, k) ==> ended(store.runs[k]);
    assert(all == store.all_children_final(p.value)) by {
        assert forall|k: u128| #[trigger] kid(store, p, k) == store.child_of(k, p.value) by {}
        if all {
            assert forall|k: u128| #[trigger] store.child_of(
                k,
                p.value,
            ) implies store.runs[k].status.terminal() by {
                assert(kid(store, p, k));
            }
        } else {
            let k = choose|k: u128| #[trigger] kid(store, p, k) && !ended(store.runs[k]);
            assert(store.child_of(k, p.value));
        }
    }
    super::lemma_two(
        store.append(
            p,
            EventKind::ChildRunFinished,
            JsonView::empty_object().with(
                "satisfied"@,
                JsonView::Bool(store.joined(p.value, JoinMode::All)),
            ),
            now,
        ),
        crate::decide::waking(store.run(p), entry_id, now),
    );
}

/// A parent that waits for any of its children is woken by a report exactly when one of them
/// has ended; a child that has ended stays as it is, and those that have not are cancelled.
/// The parent must not be below one of its own children.
pub proof fn a_join_of_any_takes_the_first_child(
    store: Store,
    p: RunId,
    now: Timestamp,
    entry_id: u128,
    k: u128,
)
    requires
        store.wf(),
        store.has_run(p),
        store.run(p).waiting == Some(WaitView::ChildJoin { mode: JoinMode::Any }),
        forall|c: u128| #[trigger] store.child_of(c, p.value) ==> !store.descends(c, p.value),
        kid(store, p, k),
    ensures
        ({
            let after = store.child_reported(p, now, entry_id);
            let any = exists|c: u128| #[trigger] kid(store, p, c) && ended(store.runs[c]);
            &&& any ==> {
                &&& woken(store, p, now, entry_id, after)
                &&& ended(store.runs[k]) ==> after.runs[k] == store.runs[k] && after.log(
                    RunId { value: k },
                ) == store.log(RunId { value: k })
                &&& !ended(store.runs[k]) ==> {
                    &&& after.runs[k].status is Cancelled
                    &&& after.runs[k].waiting is None
                    &&& after.log(RunId { value: k }).len() == store.log(RunId { value: k }).len()
                        + 1
                    &&& after.log(RunId { value: k }).last().kind is RunCancelled
                }
            }
            &&& !any ==> left_parked(store, p, after)
        }),
{
    assert(store.runs.contains_key(p.value));
    assert(store.runs.contains_key(k));
    let any = exists|c: u128| #[trigger] kid(store, p, c) && ended(store.runs[c]);
    assert(any == store.some_child_final(p.value)) by {
        if any {
            let c = choose|c: u128| #[trigger] kid(store, p, c) && ended(store.runs[c]);
            assert(store.child_of(c, p.value));
        } else if store.some_child_final(p.value) {
            let c = choose|c: u128| #[trigger]
                store.child_of(c, p.value) && store.runs[c].status.terminal();
            assert(kid(store, p, c));
        }
    }
    let told = store.append(
        p,
        EventKind::ChildRunFinished,
        JsonView::empty_object().with(
            "satisfied"@,
            JsonView::Bool(store.joined(p.value, JoinMode::Any)),
        ),
        now,
    );
    super::lemma_two(told, crate::decide::waking(store.run(p), entry_id, now));
    let here = told.apply_all(crate::decide::waking(store.run(p), entry_id, now));
    assert(store.child_of(k, p.value));
    assert(here.runs.dom() =~= store.runs.dom());
    assert forall|x: u128| here.runs.contains_key(x) implies (#[trigger] here.runs[x]).parent_id
        == store.runs[x].parent_id by {}
    crate::cancel::lemma_same_family(here, store);
    let brood = here.brood(store, p.value);
    if brood.contains(p.value) {
        let c = choose|c: u128| #[trigger]
            store.child_of(c, p.value) && store.live(c) && here.doomed(c, p.value);
        assert(store.descends(c, p.value));
    }
    crate::cancel::lemma_descends_self(store, k);
    assert(p.value != k) by {
        if p.value == k {
            assert(store.descends(k, p.value));
        }
    }
    assert(!ended(store.runs[k]) ==> brood.contains(k)) by {
        if !ended(store.runs[k]) {
            assert(store.child_of(k, p.value) && store.live(k) && here.doomed(k, k));
        }
    }
}

/// When a join of any is satisfied, what is below a child that has not ended ends with it, and
/// every other run but the parent is left as it is: also what is below a child that has ended.
pub proof fn a_join_of_any_ends_only_what_is_below_the_losers(
    store: Store,
    p: RunId,
    now: Timestamp,
    entry_id: u128,
    x: u128,
)
    requires
        store.wf(),
        store.has_run(p),
        store.run(p).waiting == Some(WaitView::ChildJoin { mode: JoinMode::Any }),
        store.runs.contains_key(x),
        x != p.value,
    ensures
        ({
            let after = store.child_reported(p, now, entry_id);
            let any = exists|c: u128| #[trigger] kid(store, p, c) && ended(store.runs[c]);
            let below = exists|c: u128| #[trigger]
                kid(store, p, c) && !ended(store.runs[c]) && store.descends(c, x);
            &&& any && below && !ended(store.runs[x]) ==> after.runs[x].status is Cancelled
            &&& !(any && below && !ended(store.runs[x])) ==> after.runs[x] == store.runs[x]
        }),
{
    assert(store.runs.contains_key(p.value));
    let any = exists|c: u128| #[trigger] kid(store, p, c) && ended(store.runs[c]);
    assert(any == store.some_child_final(p.value)) by {
        if any {
            let c = choose|c: u128| #[trigger] kid(store, p, c) && ended(store.runs[c]);
            assert(store.child_of(c, p.value));
        } else if store.some_child_final(p.value) {
            let c = choose|c: u128| #[trigger]
                store.child_of(c, p.value) && store.runs[c].status.terminal();
            assert(kid(store, p, c));
        }
    }
    let told = store.append(
        p,
        EventKind::ChildRunFinished,
        JsonView::empty_object().with(
            "satisfied"@,
            JsonView::Bool(store.joined(p.value, JoinMode::Any)),
        ),
        now,
    );
    super::lemma_two(told, crate::decide::waking(store.run(p), entry_id, now));
    let here = told.apply_all(crate::decide::waking(store.run(p), entry_id, now));
    assert(here.runs.dom() =~= store.runs.dom());
    assert forall|y: u128| here.runs.contains_key(y) implies (#[trigger] here.runs[y]).parent_id
        == store.runs[y].parent_id by {}
    crate::cancel::lemma_same_family(here, store);
    let brood = here.brood(store, p.value);
    let below = exists|c: u128| #[trigger]
        kid(store, p, c) && !ended(store.runs[c]) && store.descends(c, x);
    if brood.contains(x) {
        let c = choose|c: u128| #[trigger]
            store.child_of(c, p.value) && store.live(c) && here.doomed(c, x);
        assert(kid(store, p, c));
        assert(store.descends(c, x));
    }
    if below && !ended(store.runs[x]) {
        let c = choose|c: u128| #[trigger]
            kid(store, p, c) && !ended(store.runs[c]) && store.descends(c, x);
        assert(store.child_of(c, p.value) && store.live(c) && here.doomed(c, x));
        assert(brood.contains(x));
    }
}

/// No join waits for ever: once every child has ended, a report wakes the parent, whatever the
/// number of completions.
pub proof fn a_quorum_that_cannot_be_reached_wakes_the_parent(
    store: Store,
    p: RunId,
    n: u32,
    now: Timestamp,
    entry_id: u128,
)
    requires
        store.wf(),
        store.has_run(p),
        store.run(p).waiting == Some(WaitView::ChildJoin { mode: JoinMode::Quorum(n) }),
        forall|k: u128| #[trigger] kid(store, p, k) ==> ended(store.runs[k]),
    ensures
        woken(store, p, now, entry_id, store.child_reported(p, now, entry_id)),
{
    assert(store.runs.contains_key(p.value));
    assert forall|k: u128| #[trigger] store.child_of(
        k,
        p.value,
    ) implies store.runs[k].status.terminal() by {
        assert(kid(store, p, k));
    }
    super::lemma_two(
        store.append(
            p,
            EventKind::ChildRunFinished,
            JsonView::empty_object().with("satisfied"@, JsonView::Bool(true)),
            now,
        ),
        crate::decide::waking(store.run(p), entry_id, now),
    );
}

/// A report to a run that waits for its children is logged, and says whether the join is
/// satisfied: that is, whether the run was woken. A run that waits for something else, or for
/// nothing, or is not there, is not touched by a report, nor is anything else.
pub proof fn a_report_is_logged(store: Store, p: RunId, now: Timestamp, entry_id: u128)
    requires
        store.wf(),
    ensures
        ({
            let after = store.child_reported(p, now, entry_id);
            let waits = store.has_run(p) && (store.run(p).waiting matches Some(
                WaitView::ChildJoin { .. },
            ));
            let log = after.log(p);
            let n = store.log(p).len() as int;
            &&& !waits ==> after == store
            &&& waits ==> {
                &&& log.len() >= n + 1
                &&& log.take(n) == store.log(p)
                &&& log[n].kind is ChildRunFinished
                &&& log[n].at == now
                &&& log[n].payload.member("satisfied"@) == Some(
                    JsonView::Bool(after.queue.len() == store.queue.len() + 1),
                )
            }
        }),
{
    if store.has_run(p) {
        assert(store.runs.contains_key(p.value));
        if let Some(WaitView::ChildJoin { mode }) = store.run(p).waiting {
            let told = store.append(
                p,
                EventKind::ChildRunFinished,
                JsonView::empty_object().with(
                    "satisfied"@,
                    JsonView::Bool(store.joined(p.value, mode)),
                ),
                now,
            );
            super::lemma_two(told, crate::decide::waking(store.run(p), entry_id, now));
            let after = store.child_reported(p, now, entry_id);
            let n = store.log(p).len() as int;
            assert(after.log(p).take(n) =~= store.log(p));
        }
    }
}

/// What a parent reads of its children are their own records: the id, the goal, the status, the
/// output and the error of each.
pub proof fn a_child_outcome_is_its_record(run: RunView)
    ensures
        ({
            let seen = crate::driver::ChildOutcomeView::of_run(run);
            &&& seen.run_id == run.id
            &&& seen.goal == run.goal
            &&& seen.status == run.status
            &&& seen.output == run.output
            &&& seen.error == run.error
        }),
{
}

/// The outcomes that a parent reads are those of its children, one for each and in their
/// order.
pub proof fn outcomes_come_in_the_order_of_the_children(runs: Seq<RunView>, i: int)
    requires
        0 <= i < runs.len(),
    ensures
        crate::driver::ChildOutcomeView::of_runs(runs).len() == runs.len(),
        crate::driver::ChildOutcomeView::of_runs(runs)[i].run_id == runs[i].id,
        crate::driver::ChildOutcomeView::of_runs(runs)[i].output == runs[i].output,
{
}

/// The children of a run are listed each once, the oldest first: exactly the runs that have it
/// as their parent, as they are in the store.
pub proof fn children_are_listed_once(
    store: Store,
    p: RunId,
    kids: Seq<RunView>,
    k: u128,
    i: int,
    j: int,
)
    requires
        store.wf(),
        store.lists_children(p, kids),
        0 <= i < j < kids.len(),
    ensures
        kid(store, p, k) ==> kids.contains(store.runs[k]),
        kid(store, p, kids[i].id.value),
        store.runs[kids[i].id.value] == kids[i],
        kids[i].id != kids[j].id,
        kids[i].created_at.nanos <= kids[j].created_at.nanos,
{
}

// ---- cancelling ----------------------------------------------------------------

/// A run is below itself, and whatever has a run below it as its parent is below it; nothing
/// else is: every set of runs that has the root and, with a run, its children has all that are
/// below.
pub proof fn below_is_what_the_parents_say(
    store: Store,
    root: u128,
    closed: Set<u128>,
    k: u128,
    p: u128,
)
    requires
        store.wf(),
        store.runs.contains_key(root),
        closed.contains(root),
        forall|a: u128, b: u128|
            closed.contains(a) && #[trigger] kid(store, RunId { value: a }, b) ==> closed.contains(
                b,
            ),
    ensures
        store.descends(root, root),
        store.descends(root, p) && kid(store, RunId { value: p }, k) ==> store.descends(root, k),
        store.descends(root, k) ==> closed.contains(k),
{
    crate::cancel::lemma_descends_self(store, root);
    if store.descends(root, p) && kid(store, RunId { value: p }, k) {
        assert(store.child_of(k, p));
        crate::cancel::lemma_descends_child(store, root, p, k);
    }
    if store.descends(root, k) {
        let path = choose|path: Seq<u128>| #[trigger]
            store.chain(path) && path[0] == root && path.last() == k;
        lemma_path_inside(store, path, closed, path.len() - 1);
    }
}

proof fn lemma_path_inside(store: Store, path: Seq<u128>, closed: Set<u128>, i: int)
    requires
        store.chain(path),
        0 <= i < path.len(),
        closed.contains(path[0]),
        forall|a: u128, b: u128|
            closed.contains(a) && #[trigger] kid(store, RunId { value: a }, b) ==> closed.contains(
                b,
            ),
    ensures
        closed.contains(path[i]),
    decreases i,
{
    if i > 0 {
        lemma_path_inside(store, path, closed, i - 1);
        assert(store.child_of(path[i], path[i - 1]));
        assert(kid(store, RunId { value: path[i - 1] }, path[i]));
    }
}

/// Cancelling a run ends it and every run below it that has not ended: each is cancelled, waits
/// for nothing, keeps everything else, and has one more event in its log. A run that has ended,
/// one that is not below, and everything but records and logs stay as they are.
pub proof fn cancelling_ends_the_tree(store: Store, root: u128, now: Timestamp, k: u128)
    requires
        store.wf(),
        store.runs.contains_key(k),
    ensures
        ({
            let after = store.cancel_tree(root, now);
            let id = RunId { value: k };
            let hit = store.descends(root, k) && !ended(store.runs[k]);
            &&& after.runs.dom() == store.runs.dom()
            &&& hit ==> {
                &&& after.runs[k] == (RunView {
                    status: RunStatus::Cancelled,
                    waiting: None,
                    updated_at: now,
                    ..store.runs[k]
                })
                &&& after.log(id).len() == store.log(id).len() + 1
                &&& after.log(id).drop_last() == store.log(id)
                &&& after.log(id).last().kind is RunCancelled
                &&& after.log(id).last().at == now
                &&& after.log(id).last().seq == store.log(id).len() + 1
            }
            &&& !hit ==> after.runs[k] == store.runs[k] && after.log(id) == store.log(id)
            &&& after.queue == store.queue
            &&& after.signals == store.signals
            &&& after.steps == store.steps
            &&& after.resources == store.resources
            &&& after.artifacts == store.artifacts
            &&& after.fences == store.fences
        }),
{
    let after = store.cancel_tree(root, now);
    let id = RunId { value: k };
    assert(after.runs.dom() =~= store.runs.dom());
    if store.descends(root, k) && !ended(store.runs[k]) {
        assert(store.subtree(root).contains(k));
        assert(after.log(id).drop_last() =~= store.log(id));
    }
}

/// Cancelling a run that is there cancels it with what is below it and tells its parent, if it
/// has one; cancelling one that is not there changes nothing.
pub proof fn cancelling_tells_the_parent(store: Store, id: RunId, now: Timestamp, entry_id: u128)
    ensures
        ({
            let after = store.run_cancelled(id, now, entry_id);
            &&& !store.runs.contains_key(id.value) ==> after == store
            &&& store.runs.contains_key(id.value) && store.runs[id.value].parent_id is None
                ==> after == store.cancel_tree(id.value, now)
            &&& store.runs.contains_key(id.value) ==> (store.runs[id.value].parent_id matches Some(
                p,
            ) ==> after == store.cancel_tree(id.value, now).child_reported(p, now, entry_id))
        }),
{
}

} // verus!
