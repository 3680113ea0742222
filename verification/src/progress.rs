//! No run is forgotten: a run that is to go on has an entry in the queue.
//!
//! A run that is pending moves only when a worker claims an entry for it. So every
//! operation that makes a run pending enqueues it, and an acknowledgement, which takes an
//! entry away, comes after the turn that the entry stood for.

use vstd::prelude::*;

use crate::budget::{Budget, BudgetUsage};
use crate::change::ChangeView;
use crate::decide::{
    approving, births, child_run, creation, failing, settled_run, settling, signalling, spawning,
    waking, FreshIds,
};
use crate::driver::{AdvanceView, ChildSpecView};
use crate::error::ErrorView;
use crate::event::EventKind;
use crate::ids::RunId;
use crate::json::JsonView;
use crate::run::{JoinMode, RunSpecView, RunView, WaitView};
use crate::signal::ApprovalResolutionView;
use crate::store::Store;
use crate::time::Timestamp;

verus! {

/// Whether the run `k` has an entry in the queue other than those in `gone`.
pub open spec fn queued(store: Store, k: u128, gone: Set<u128>) -> bool {
    exists|j: int|
        0 <= j < store.queue.len() && (#[trigger] store.queue[j]).run_id.value == k
            && !gone.contains(store.queue[j].entry_id)
}

/// Whether every pending run, but those in `spared`, has an entry in the queue other than
/// those in `gone`.
pub open spec fn remembered(store: Store, spared: Set<u128>, gone: Set<u128>) -> bool {
    forall|k: u128| #[trigger]
        store.runs.contains_key(k) && store.runs[k].status is Pending && !spared.contains(k)
            ==> queued(store, k, gone)
}

/// The runs that need no entry after a change: one that is made pending needs one, and has
/// one once it is enqueued.
spec fn spared_by(change: ChangeView, spared: Set<u128>, gone: Set<u128>) -> Set<u128> {
    match change {
        ChangeView::CreateRun(run) => if run.status is Pending {
            spared.insert(run.id.value)
        } else {
            spared.remove(run.id.value)
        },
        ChangeView::UpdateRun(run) => if run.status is Pending {
            spared.insert(run.id.value)
        } else {
            spared.remove(run.id.value)
        },
        ChangeView::Enqueue { entry_id, run_id, .. } => if gone.contains(entry_id) {
            spared
        } else {
            spared.remove(run_id.value)
        },
        _ => spared,
    }
}

spec fn spared_by_all(changes: Seq<ChangeView>, spared: Set<u128>, gone: Set<u128>) -> Set<u128>
    decreases changes.len(),
{
    if changes.len() == 0 {
        spared
    } else {
        spared_by(changes.last(), spared_by_all(changes.drop_last(), spared, gone), gone)
    }
}

proof fn lemma_change(store: Store, change: ChangeView, spared: Set<u128>, gone: Set<u128>)
    requires
        remembered(store, spared, gone),
    ensures
        remembered(store.apply(change), spared_by(change, spared, gone), gone),
{
    let after = store.apply(change);
    assert forall|k: u128| #[trigger]
        after.runs.contains_key(k) && after.runs[k].status is Pending && !spared_by(
            change,
            spared,
            gone,
        ).contains(k) implies queued(after, k, gone) by {
        if let ChangeView::Enqueue { entry_id, run_id, ready_at } = change {
            if run_id.value == k && !gone.contains(entry_id) {
                assert(after.queue[store.queue.len() as int].run_id.value == k);
            } else {
                lemma_still_queued(store, after, k, gone);
            }
        } else {
            lemma_still_queued(store, after, k, gone);
        }
    }
}

proof fn lemma_still_queued(store: Store, after: Store, k: u128, gone: Set<u128>)
    requires
        queued(store, k, gone),
        store.queue.is_prefix_of(after.queue),
    ensures
        queued(after, k, gone),
{
    let j = choose|j: int|
        0 <= j < store.queue.len() && (#[trigger] store.queue[j]).run_id.value == k
            && !gone.contains(store.queue[j].entry_id);
    assert(after.queue[j] == store.queue[j]);
}

proof fn lemma_changes(
    store: Store,
    changes: Seq<ChangeView>,
    spared: Set<u128>,
    gone: Set<u128>,
)
    requires
        remembered(store, spared, gone),
    ensures
        remembered(store.apply_all(changes), spared_by_all(changes, spared, gone), gone),
    decreases changes.len(),
{
    if changes.len() > 0 {
        lemma_changes(store, changes.drop_last(), spared, gone);
        lemma_change(
            store.apply_all(changes.drop_last()),
            changes.last(),
            spared_by_all(changes.drop_last(), spared, gone),
            gone,
        );
    }
}

proof fn lemma_spared_one(change: ChangeView, spared: Set<u128>, gone: Set<u128>)
    ensures
        spared_by_all(seq![change], spared, gone) == spared_by(change, spared, gone),
{
    reveal_with_fuel(spared_by_all, 2);
    assert(seq![change].drop_last() =~= Seq::empty());
}

proof fn lemma_spared_two(
    a: ChangeView,
    b: ChangeView,
    spared: Set<u128>,
    gone: Set<u128>,
)
    ensures
        spared_by_all(seq![a, b], spared, gone) == spared_by(b, spared_by(a, spared, gone), gone),
{
    lemma_spared_one(a, spared, gone);
    assert(seq![a, b].drop_last() =~= seq![a]);
}

proof fn lemma_spared_three(
    a: ChangeView,
    b: ChangeView,
    c: ChangeView,
    spared: Set<u128>,
    gone: Set<u128>,
)
    ensures
        spared_by_all(seq![a, b, c], spared, gone) == spared_by(
            c,
            spared_by(b, spared_by(a, spared, gone), gone),
            gone,
        ),
{
    lemma_spared_two(a, b, spared, gone);
    assert(seq![a, b, c].drop_last() =~= seq![a, b]);
}

proof fn lemma_spared_joined(
    a: Seq<ChangeView>,
    b: Seq<ChangeView>,
    spared: Set<u128>,
    gone: Set<u128>,
)
    ensures
        spared_by_all(a + b, spared, gone) == spared_by_all(
            b,
            spared_by_all(a, spared, gone),
            gone,
        ),
    decreases b.len(),
{
    if b.len() == 0 {
        assert(a + b =~= a);
    } else {
        assert((a + b).drop_last() =~= a + b.drop_last());
        lemma_spared_joined(a, b.drop_last(), spared, gone);
    }
}

proof fn lemma_fewer_spared(store: Store, spared: Set<u128>, fewer: Set<u128>, gone: Set<u128>)
    requires
        remembered(store, fewer, gone),
        fewer.subset_of(spared),
    ensures
        remembered(store, spared, gone),
{
}

proof fn lemma_waking(store: Store, run: RunView, entry: u128, now: Timestamp, gone: Set<u128>)
    requires
        remembered(store, set![run.id.value], gone),
        !gone.contains(entry),
    ensures
        remembered(store.apply_all(waking(run, entry, now)), Set::empty(), gone),
{
    let list = waking(run, entry, now);
    let spared = set![run.id.value];
    lemma_changes(store, list, spared, gone);
    lemma_spared_two(list[0], list[1], spared, gone);
    assert(list =~= seq![list[0], list[1]]);
    assert(spared_by_all(list, spared, gone) =~= Set::empty());
}

proof fn lemma_births(
    parent: RunView,
    specs: Seq<ChildSpecView>,
    ids: Seq<u128>,
    now: Timestamp,
    spared: Set<u128>,
    gone: Set<u128>,
)
    requires
        forall|i: int| 0 <= i < specs.len() ==> !gone.contains(#[trigger] ids[2 * i + 1]),
    ensures
        spared_by_all(births(parent, specs, ids, now), spared, gone).subset_of(spared),
    decreases specs.len(),
{
    if specs.len() > 0 {
        let n = specs.len() - 1;
        let front = specs.drop_last();
        lemma_births(parent, front, ids, now, spared, gone);
        let child = child_run(parent, specs.last(), ids[2 * n], now);
        let list = creation(child, ids[2 * n + 1], now);
        lemma_spared_joined(births(parent, front, ids, now), list, spared, gone);
        let here = spared_by_all(births(parent, front, ids, now), spared, gone);
        lemma_spared_three(list[0], list[1], list[2], here, gone);
        assert(list =~= seq![list[0], list[1], list[2]]);
        assert(!gone.contains(ids[2 * n + 1]));
    }
}

/// Whether none of the fresh ids is in `gone`.
pub open spec fn apart_from(fresh: FreshIds, gone: Set<u128>) -> bool {
    &&& !gone.contains(fresh.entry)
    &&& !gone.contains(fresh.second_entry)
    &&& forall|i: int|
        0 <= i < fresh.children@.len() ==> !gone.contains(#[trigger] fresh.children@[i])
}

proof fn lemma_settling(
    store: Store,
    run: RunView,
    advance: AdvanceView,
    arrived: bool,
    now: Timestamp,
    fresh: FreshIds,
    gone: Set<u128>,
)
    requires
        remembered(store, set![run.id.value], gone),
        apart_from(fresh, gone),
        advance matches AdvanceView::SpawnChildren { specs, .. } ==> fresh.children@.len() == 2
            * specs.len(),
    ensures
        remembered(
            store.apply_all(
                settling(run, advance, arrived, now, fresh.entry, fresh.children@),
            ),
            Set::empty(),
            gone,
        ),
{
    let spared = set![run.id.value];
    let list = settling(run, advance, arrived, now, fresh.entry, fresh.children@);
    lemma_changes(store, list, spared, gone);
    if list.len() == 1 {
        lemma_spared_one(list[0], spared, gone);
        assert(list =~= seq![list[0]]);
    } else if list.len() == 2 {
        lemma_spared_two(list[0], list[1], spared, gone);
        assert(list =~= seq![list[0], list[1]]);
    } else if list.len() == 3 {
        lemma_spared_three(list[0], list[1], list[2], spared, gone);
        assert(list =~= seq![list[0], list[1], list[2]]);
    }
    let counted = settled_run(run, advance);
    if let AdvanceView::SpawnChildren { specs, join } = advance {
        if crate::decide::failure(run, advance) is None {
            lemma_spawning(counted, specs, join, fresh.children@, now, gone);
        }
    }
    assert(spared_by_all(list, spared, gone) =~= Set::empty());
}

proof fn lemma_spawning(
    run: RunView,
    specs: Seq<ChildSpecView>,
    join: JoinMode,
    ids: Seq<u128>,
    now: Timestamp,
    gone: Set<u128>,
)
    requires
        ids.len() == 2 * specs.len(),
        forall|i: int| 0 <= i < ids.len() ==> !gone.contains(#[trigger] ids[i]),
    ensures
        spared_by_all(spawning(run, specs, join, ids, now), set![run.id.value], gone)
            == Set::<u128>::empty(),
{
    let spared = set![run.id.value];
    let list = spawning(run, specs, join, ids, now);
    let born = births(run, specs, ids, now);
    let tail = list.skip(born.len() as int);
    assert(list =~= born + tail);
    lemma_births(run, specs, ids, now, spared, gone);
    lemma_spared_joined(born, tail, spared, gone);
    let here = spared_by_all(born, spared, gone);
    assert(tail =~= seq![tail[0], tail[1]]);
    lemma_spared_two(tail[0], tail[1], here, gone);
    assert(spared_by_all(list, spared, gone) =~= Set::empty());
}

proof fn lemma_cancelled(store: Store, dead: Set<u128>, now: Timestamp, gone: Set<u128>)
    requires
        remembered(store, Set::empty(), gone),
    ensures
        remembered(store.cancel_where(dead, now), Set::empty(), gone),
{
    let after = store.cancel_where(dead, now);
    assert forall|k: u128| #[trigger]
        after.runs.contains_key(k) && after.runs[k].status is Pending implies queued(
        after,
        k,
        gone,
    ) by {
        assert(store.runs.contains_key(k));
        lemma_still_queued(store, after, k, gone);
    }
}

proof fn lemma_reported(store: Store, p: RunId, now: Timestamp, entry: u128, gone: Set<u128>)
    requires
        store.wf(),
        remembered(store, Set::empty(), gone),
        !gone.contains(entry),
    ensures
        remembered(store.child_reported(p, now, entry), Set::empty(), gone),
{
    if store.has_run(p) {
        assert(store.runs.contains_key(p.value));
        if let Some(WaitView::ChildJoin { mode }) = store.run(p).waiting {
            let told = store.append(
                p,
                EventKind::ChildRunFinished,
                JsonView::empty_object().with(
                    "satisfied"@,
                    JsonView::Bool(store.joined(p.value, mode)),
                ),
                now,
            );
            assert(remembered(told, Set::empty(), gone)) by {
                assert forall|k: u128| #[trigger]
                    told.runs.contains_key(k) && told.runs[k].status is Pending implies queued(
                    told,
                    k,
                    gone,
                ) by {
                    assert(store.runs.contains_key(k));
                    lemma_still_queued(store, told, k, gone);
                }
            }
            if store.joined(p.value, mode) {
                lemma_fewer_spared(told, set![p.value], Set::empty(), gone);
                lemma_waking(told, store.run(p), entry, now, gone);
                let woken = told.apply_all(waking(store.run(p), entry, now));
                lemma_cancelled(woken, woken.brood(store, p.value), now, gone);
            }
        }
    }
}

proof fn lemma_told(
    store: Store,
    parent: Option<RunId>,
    now: Timestamp,
    entry: u128,
    gone: Set<u128>,
)
    requires
        store.wf(),
        remembered(store, Set::empty(), gone),
        !gone.contains(entry),
    ensures
        remembered(store.parent_told(parent, now, entry), Set::empty(), gone),
{
    if let Some(p) = parent {
        lemma_reported(store, p, now, entry, gone);
    }
}

proof fn lemma_failed(
    store: Store,
    run: RunView,
    error: Seq<char>,
    now: Timestamp,
    entry: u128,
    gone: Set<u128>,
)
    requires
        store.wf(),
        remembered(store, set![run.id.value], gone),
        !gone.contains(entry),
    ensures
        remembered(store.run_failed(run, error, now, entry), Set::empty(), gone),
{
    let list = failing(run, error, now);
    let spared = set![run.id.value];
    lemma_changes(store, list, spared, gone);
    lemma_spared_two(list[0], list[1], spared, gone);
    assert(list =~= seq![list[0], list[1]]);
    assert(spared_by_all(list, spared, gone) =~= Set::empty());
    crate::laws::lemma_well_formed(store, list);
    lemma_told(store.apply_all(list), run.parent_id, now, entry, gone);
}

// ---- the laws ------------------------------------------------------------------

/// A settled turn forgets nobody: when the turn of a claimed run is settled and the claim
/// is acknowledged, every pending run has an entry in the queue, the run itself and its
/// parent and children among them. Before the turn that holds of every other run, without
/// the claimed entry; the fresh ids are none of the claim's.
pub proof fn a_settled_turn_forgets_nobody(
    store: Store,
    run: RunView,
    delta: BudgetUsage,
    advanced: Result<AdvanceView, ErrorView>,
    now: Timestamp,
    fresh: FreshIds,
    lease_id: u128,
)
    requires
        store.wf(),
        remembered(store, set![run.id.value], set![lease_id]),
        apart_from(fresh, set![lease_id]),
        advanced matches Ok(AdvanceView::SpawnChildren { specs, .. }) ==> fresh.children@.len()
            == 2 * specs.len(),
    ensures
        remembered(
            store.turn_settled(run, delta, advanced, now, fresh).ack(lease_id),
            Set::empty(),
            Set::empty(),
        ),
{
    let gone = set![lease_id];
    let counted = run.charged(delta);
    let after = store.turn_settled(run, delta, advanced, now, fresh);
    match advanced {
        Err(e) => lemma_failed(store, counted, e.text(), now, fresh.second_entry, gone),
        Ok(advance) => match counted.breach(now) {
            Some(report) => lemma_failed(
                store,
                counted,
                Budget::exceeded(report),
                now,
                fresh.second_entry,
                gone,
            ),
            None => {
                let arrived = store.arrived(counted.id, advance);
                lemma_settling(store, counted, advance, arrived, now, fresh, gone);
                let list = settling(
                    counted,
                    advance,
                    arrived,
                    now,
                    fresh.entry,
                    fresh.children@,
                );
                crate::laws::lemma_well_formed(store, list);
                lemma_told(
                    store.apply_all(list),
                    counted.parent_id,
                    now,
                    fresh.second_entry,
                    gone,
                );
            },
        },
    }
    lemma_acknowledged(after, lease_id);
}

proof fn lemma_acknowledged(store: Store, lease_id: u128)
    requires
        remembered(store, Set::empty(), set![lease_id]),
    ensures
        remembered(store.ack(lease_id), Set::empty(), Set::empty()),
{
    let after = store.ack(lease_id);
    assert forall|k: u128| #[trigger]
        after.runs.contains_key(k) && after.runs[k].status is Pending implies queued(
        after,
        k,
        Set::empty(),
    ) by {
        assert(store.runs.contains_key(k));
        let j = choose|j: int|
            0 <= j < store.queue.len() && (#[trigger] store.queue[j]).run_id.value == k
                && !set![lease_id].contains(store.queue[j].entry_id);
        let entry = store.queue[j];
        assert(store.queue.contains(entry));
        crate::laws::an_acknowledgement_removes_only_its_entry(store, lease_id, entry);
        let i = choose|i: int| 0 <= i < after.queue.len() && after.queue[i] == entry;
        assert(after.queue[i].run_id.value == k);
    }
}

/// A claim leaves every other run remembered without the claimed entry, where the entries
/// with its id are those of the claimed run.
pub proof fn a_claim_takes_nothing_from_others(store: Store, lease_id: u128, id: RunId)
    requires
        remembered(store, Set::empty(), Set::empty()),
        forall|j: int|
            0 <= j < store.queue.len() && (#[trigger] store.queue[j]).entry_id == lease_id
                ==> store.queue[j].run_id == id,
    ensures
        remembered(store, set![id.value], set![lease_id]),
{
    assert forall|k: u128| #[trigger]
        store.runs.contains_key(k) && store.runs[k].status is Pending && !set![
            id.value,
        ].contains(k) implies queued(store, k, set![lease_id]) by {
        let j = choose|j: int|
            0 <= j < store.queue.len() && (#[trigger] store.queue[j]).run_id.value == k
                && !Set::<u128>::empty().contains(store.queue[j].entry_id);
        assert(store.queue[j].entry_id != lease_id);
    }
}

/// Creating, signalling, approving and cancelling forget nobody.
pub proof fn operations_forget_nobody(
    store: Store,
    spec: RunSpecView,
    id: RunId,
    name: Seq<char>,
    payload: JsonView,
    resolution: ApprovalResolutionView,
    now: Timestamp,
    entry_id: u128,
)
    requires
        store.wf(),
        remembered(store, Set::empty(), Set::empty()),
    ensures
        remembered(
            store.apply_all(creation(spec.fresh(id, now), entry_id, now)),
            Set::empty(),
            Set::empty(),
        ),
        remembered(
            store.signalled(id, name, payload, now, entry_id),
            Set::empty(),
            Set::empty(),
        ),
        remembered(store.approved(id, resolution, now, entry_id), Set::empty(), Set::empty()),
        remembered(store.run_cancelled(id, now, entry_id), Set::empty(), Set::empty()),
{
    let none = Set::<u128>::empty();
    let born = creation(spec.fresh(id, now), entry_id, now);
    lemma_changes(store, born, none, none);
    lemma_spared_three(born[0], born[1], born[2], none, none);
    assert(born =~= seq![born[0], born[1], born[2]]);
    assert(spared_by_all(born, none, none) =~= none);
    let told = signalling(id, name, payload, now);
    lemma_changes(store, told, none, none);
    lemma_spared_two(told[0], told[1], none, none);
    assert(told =~= seq![told[0], told[1]]);
    let answered = approving(id, resolution, now);
    lemma_changes(store, answered, none, none);
    lemma_spared_two(answered[0], answered[1], none, none);
    assert(answered =~= seq![answered[0], answered[1]]);
    if store.has_run(id) {
        assert(store.runs.contains_key(id.value));
        lemma_fewer_spared(store.apply_all(told), set![id.value], none, none);
        lemma_waking(store.apply_all(told), store.run(id), entry_id, now, none);
        lemma_fewer_spared(store.apply_all(answered), set![id.value], none, none);
        lemma_waking(store.apply_all(answered), store.run(id), entry_id, now, none);
        lemma_cancelled(store, store.subtree(id.value), now, none);
        crate::laws::cancelling_keeps_the_store_well_formed(store, id.value, now);
        lemma_told(
            store.cancel_tree(id.value, now),
            store.run(id).parent_id,
            now,
            entry_id,
            none,
        );
    }
}

} // verus!
