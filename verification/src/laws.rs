//! What holds of the runtime as a whole.
//!
//! The laws here relate the operations of the engine over the spec functions that their
//! contracts speak in. The submodules say what each operation is for: what it leaves in the
//! store, what its result holds and how two calls relate. `calls`, `engines`, `handlers`,
//! `backends`, `contexts`, `drivers`, `services`, `replies` and `columns` speak of calls, over
//! all that a call may take and give.

use vstd::prelude::*;

pub mod agents;
pub mod backends;
pub mod browsers;
pub mod budgets;
pub mod calls;
pub mod columns;
pub mod contexts;
pub mod documents;
pub mod drivers;
pub mod engines;
pub mod families;
pub mod handlers;
pub mod models;
pub mod replies;
pub mod requests;
pub mod rows;
pub mod sandboxes;
pub mod services;
pub mod steps;
pub mod storage;
pub mod turns;
pub mod values;
pub mod workers;

use crate::budget::{Budget, BudgetUsage};
use crate::change::ChangeView;
use crate::decide::{
    approving, births, child_run, creation, settling, signalling, waking, FreshIds,
};
use crate::driver::{memo, pending_payloads, step_completed, AdvanceView, ChildSpecView};
use crate::engine::{parked_on, timed_out, turn_taken, ClockRelation, DriverRelation};
use crate::error::ErrorView;
use crate::event::EventKind;
use crate::ids::RunId;
use crate::json::JsonView;
use crate::run::{JoinMode, RunSpecView, RunView, WaitView};
use crate::signal::{ApprovalResolutionView, SignalView, APPROVAL_SIGNAL};
use crate::store::{claim_made, claimed_at, numbered, signal_taken, Lease, Store};
use crate::time::{Duration, Timestamp};

verus! {

// ---- the event log -------------------------------------------------------------

/// A change keeps a store well formed; in particular the log of every run stays
/// numbered 1, 2, 3 and so on.
pub proof fn changes_keep_the_store_well_formed(store: Store, change: ChangeView)
    requires
        store.wf(),
    ensures
        store.apply(change).wf(),
{
    let after = store.apply(change);
    if let ChangeView::Append { run_id, kind, payload, at } = change {
        assert forall|k: u128| #[trigger] after.events.contains_key(k) implies numbered(
            k,
            after.events[k],
        ) by {
            if store.events.contains_key(k) {
                assert(numbered(k, store.events[k]));
            }
        }
    }
}

pub(crate) proof fn lemma_well_formed(store: Store, changes: Seq<ChangeView>)
    requires
        store.wf(),
    ensures
        store.apply_all(changes).wf(),
    decreases changes.len(),
{
    if changes.len() > 0 {
        lemma_well_formed(store, changes.drop_last());
        changes_keep_the_store_well_formed(
            store.apply_all(changes.drop_last()),
            changes.last(),
        );
    }
}

/// Cancelling keeps a store well formed.
pub proof fn cancelling_keeps_the_store_well_formed(store: Store, root: u128, now: Timestamp)
    requires
        store.wf(),
    ensures
        store.cancel_tree(root, now).wf(),
{
    let after = store.cancel_tree(root, now);
    assert(after.runs.dom() =~= store.runs.dom());
    assert forall|k: u128| #[trigger] after.events.contains_key(k) implies numbered(
        k,
        after.events[k],
    ) by {
        if store.events.contains_key(k) {
            assert(numbered(k, store.events[k]));
        }
    }
}

/// A reader that has read a log up to number `k` and reads on from `k` sees every
/// event exactly once and in order: the stream of events is resumable anywhere.
pub proof fn reading_resumes_anywhere(store: Store, id: RunId, k: nat)
    requires
        k <= store.log(id).len(),
    ensures
        store.log(id) == store.log(id).take(k as int) + store.events_after(id, k),
        store.events_after(id, 0) == store.log(id),
{
    assert(store.log(id) =~= store.log(id).take(k as int) + store.log(id).skip(k as int));
    assert(store.log(id).skip(0) =~= store.log(id));
}

/// What is read above number `k` is exactly what has a number above `k`.
pub proof fn a_read_gives_the_numbers_above(store: Store, id: RunId, k: nat, i: int)
    requires
        store.wf(),
        0 <= i < store.log(id).len(),
    ensures
        store.log(id)[i].seq > k <==> store.events_after(id, k).contains(store.log(id)[i]),
{
    let log = store.log(id);
    assert(numbered(id.value, log));
    if log[i].seq > k {
        assert(store.events_after(id, k)[i - k] == log[i]);
    } else if store.events_after(id, k).contains(log[i]) {
        let j = choose|j: int|
            0 <= j < store.events_after(id, k).len() && store.events_after(id, k)[j] == log[i];
        assert(log[j + k].seq == j + k + 1);
    }
}

/// Appends get numbers of their own: the second of two appends to one log gets the
/// number after that of the first.
pub proof fn appends_get_distinct_numbers(
    store: Store,
    id: RunId,
    first: (EventKind, JsonView, Timestamp),
    second: (EventKind, JsonView, Timestamp),
)
    ensures
        store.append(id, first.0, first.1, first.2).next_event(
            id,
            second.0,
            second.1,
            second.2,
        ).seq == store.next_event(id, first.0, first.1, first.2).seq + 1,
{
}

/// The log is append-only, and what it held keeps its place: after any changes the
/// old log is the beginning of the new one.
pub proof fn the_log_is_append_only(store: Store, changes: Seq<ChangeView>, id: RunId)
    ensures
        store.log(id).is_prefix_of(store.apply_all(changes).log(id)),
{
    crate::store::lemma_extends_reflexive(store);
    crate::change::lemma_apply_all_extends(store, store, changes);
}

// ---- durable steps -------------------------------------------------------------

/// A completed step is memoized: its key gives its output.
pub proof fn a_completed_step_is_memoized(
    store: Store,
    id: RunId,
    key: Seq<char>,
    output: JsonView,
    attempts: u32,
    at: Timestamp,
)
    ensures
        memo(step_completed(store, id, key, output, attempts, at), id, key) == Some(output),
{
}

/// The journaled output of a step stays: whatever engine operations follow, the step's key
/// still gives it. Where it does, [`durable_step`](crate::driver::RunContext::durable_step)
/// asks nothing of its closure, so a completed side effect does not run again.
pub proof fn a_memo_outlives_engine_operations(
    store: Store,
    after: Store,
    id: RunId,
    key: Seq<char>,
)
    requires
        after.extends(store),
    ensures
        memo(after, id, key) == memo(store, id, key),
{
}

/// Completing another step leaves a memo alone.
pub proof fn a_memo_outlives_other_steps(
    store: Store,
    id: RunId,
    key: Seq<char>,
    other_id: RunId,
    other_key: Seq<char>,
    output: JsonView,
    attempts: u32,
    at: Timestamp,
)
    requires
        (id, key) != (other_id, other_key),
    ensures
        memo(step_completed(store, other_id, other_key, output, attempts, at), id, key) == memo(
            store,
            id,
            key,
        ),
{
}

// ---- signals -------------------------------------------------------------------

/// A delivered signal is there to be taken.
pub proof fn a_delivered_signal_is_there(
    store: Store,
    id: RunId,
    name: Seq<char>,
    payload: JsonView,
    at: Timestamp,
)
    ensures
        store.deliver(id, name, payload, at).has_signal(id, name),
{
    let after = store.deliver(id, name, payload, at);
    assert(after.waits(id, name, store.inbox(id).len() as int));
}

/// Taking a signal consumes that signal and no other: every other signal, of the
/// same name or not, is as it was.
pub proof fn taking_a_signal_leaves_the_others(
    before: Store,
    id: RunId,
    name: Seq<char>,
    taken: SignalView,
    after: Store,
)
    requires
        signal_taken(before, id, name, Some(taken), after),
    ensures
        exists|i: int|
            {
                &&& 0 <= i < before.inbox(id).len()
                &&& taken == (SignalView { consumed: true, ..#[trigger] before.inbox(id)[i] })
                &&& after.inbox(id).len() == before.inbox(id).len()
                &&& forall|j: int|
                    0 <= j < before.inbox(id).len() && j != i ==> #[trigger] after.inbox(id)[j]
                        == before.inbox(id)[j]
            },
        forall|other: Seq<char>|
            other != name ==> #[trigger] after.has_signal(id, other) == before.has_signal(
                id,
                other,
            ),
        forall|other: RunId|
            other != id ==> #[trigger] after.inbox(other) == before.inbox(other),
{
    let i = choose|i: int|
        {
            &&& #[trigger] before.earliest(id, name, i)
            &&& after == before.consume(id, i)
            &&& taken == after.inbox(id)[i]
        };
    assert(before.waits(id, name, i));
    assert(taken == (SignalView { consumed: true, ..before.inbox(id)[i] }));
    assert forall|other: Seq<char>| other != name implies #[trigger] after.has_signal(id, other)
        == before.has_signal(id, other) by {
        if before.has_signal(id, other) {
            let j = choose|j: int| #[trigger] before.waits(id, other, j);
            assert(after.waits(id, other, j));
        }
        if after.has_signal(id, other) {
            let j = choose|j: int| #[trigger] after.waits(id, other, j);
            assert(before.waits(id, other, j));
        }
    }
}

/// Signals of one name are taken in the order of their delivery: of two taken one
/// after the other, the first one stands before the second one in the inbox.
pub proof fn signals_are_taken_in_order(
    before: Store,
    id: RunId,
    name: Seq<char>,
    first: SignalView,
    between: Store,
    second: SignalView,
    after: Store,
)
    requires
        signal_taken(before, id, name, Some(first), between),
        signal_taken(between, id, name, Some(second), after),
    ensures
        exists|i: int, j: int|
            {
                &&& 0 <= i < j < before.inbox(id).len()
                &&& first == (SignalView { consumed: true, ..#[trigger] before.inbox(id)[i] })
                &&& second == (SignalView { consumed: true, ..#[trigger] before.inbox(id)[j] })
            },
{
    let i = choose|i: int|
        {
            &&& #[trigger] before.earliest(id, name, i)
            &&& between == before.consume(id, i)
            &&& first == between.inbox(id)[i]
        };
    let j = choose|j: int|
        {
            &&& #[trigger] between.earliest(id, name, j)
            &&& after == between.consume(id, j)
            &&& second == after.inbox(id)[j]
        };
    assert(before.waits(id, name, i));
    assert(between.waits(id, name, j));
    assert(before.waits(id, name, j));
    assert(first == (SignalView { consumed: true, ..before.inbox(id)[i] }));
    assert(second == (SignalView { consumed: true, ..before.inbox(id)[j] }));
}

/// A run is never parked on a signal that is there: when an advance is settled, the
/// run is parked on a signal only where none of that name waits.
pub proof fn settling_never_parks_on_a_signal_that_is_there(
    store: Store,
    run: RunView,
    advance: AdvanceView,
    now: Timestamp,
    entry: u128,
    ids: Seq<u128>,
    name: Seq<char>,
)
    requires
        advance is WaitForSignal || advance is WaitForApproval,
        store.has_run(run.id),
    ensures
        ({
            let after = store.apply_all(
                settling(run, advance, store.arrived(run.id, advance), now, entry, ids),
            );
            &&& after.has_run(run.id)
            &&& parked_on(after.run(run.id), name) ==> !after.has_signal(run.id, name)
            &&& after.run(run.id).status is WaitingApproval ==> !after.has_signal(
                run.id,
                APPROVAL_SIGNAL@,
            )
        }),
{
    let arrived = store.arrived(run.id, advance);
    let list = settling(run, advance, arrived, now, entry, ids);
    let after = store.apply_all(list);
    reveal_with_fuel(Store::apply_all, 3);
    if list.len() == 2 {
        assert(list.drop_last().drop_last() =~= Seq::empty());
        assert(list.drop_last().last() == list[0]);
    } else {
        assert(list.len() == 1);
        assert(list.drop_last() =~= Seq::empty());
    }
    assert(after.signals == store.signals);
    assert forall|n: Seq<char>| #[trigger] after.has_signal(run.id, n) == store.has_signal(
        run.id,
        n,
    ) by {
        assert(forall|i: int| #[trigger]
            after.waits(run.id, n, i) == store.waits(run.id, n, i));
        if after.has_signal(run.id, n) {
            let i = choose|i: int| #[trigger] after.waits(run.id, n, i);
            assert(store.waits(run.id, n, i));
        }
        if store.has_signal(run.id, n) {
            let i = choose|i: int| #[trigger] store.waits(run.id, n, i);
            assert(after.waits(run.id, n, i));
        }
    }
}

/// A signal wakes the run that is parked on it: afterwards the run is pending, it
/// waits for nothing, and a queue entry makes it runnable at once.
pub proof fn a_signal_wakes_the_parked_run(
    store: Store,
    id: RunId,
    name: Seq<char>,
    payload: JsonView,
    now: Timestamp,
    entry_id: u128,
)
    requires
        store.wf(),
        store.has_run(id),
        parked_on(store.run(id), name),
    ensures
        ({
            let after = store.signalled(id, name, payload, now, entry_id);
            &&& after.has_signal(id, name)
            &&& after.run(id) == store.run(id).pending(now)
            &&& !timed_out(after, after.run(id), now)
            &&& after.claimable(after.queue.len() - 1, now)
            &&& after.queue.last().run_id == id
        }),
{
    assert(store.runs.contains_key(id.value));
    let told = store.apply_all(signalling(id, name, payload, now));
    let after = store.signalled(id, name, payload, now, entry_id);
    lemma_two(store, signalling(id, name, payload, now));
    lemma_two(told, waking(store.run(id), entry_id, now));
    assert(after.waits(id, name, store.inbox(id).len() as int));
}

/// A signal that comes while its run is being parked is not lost: when the inbox is looked
/// at again, the run is made runnable at once.
pub proof fn a_signal_that_came_meanwhile_wakes_the_run(
    store: Store,
    id: RunId,
    name: Seq<char>,
    now: Timestamp,
    entry_id: u128,
)
    requires
        store.wf(),
        store.has_run(id),
        parked_on(store.run(id), name),
        store.has_signal(id, name),
    ensures
        ({
            let after = store.looked_again(id, name, now, entry_id);
            &&& after.run(id).status is Pending
            &&& after.run(id).waiting is None
            &&& after.queue.last().run_id == id
            &&& after.queue.last().ready_at == now
            &&& after.has_signal(id, name)
        }),
{
    assert(store.runs.contains_key(id.value));
    lemma_two(store, waking(store.run(id), entry_id, now));
    let after = store.looked_again(id, name, now, entry_id);
    let i = choose|i: int| #[trigger] store.waits(id, name, i);
    assert(after.waits(id, name, i));
}

/// A signal that another writer delivers while its run is being parked is not lost. The
/// parking has found no signal in `store` and writes its changes; after the first `k` of
/// them the signal is delivered, by a writer that still sees the run as it was before, or,
/// where `sees` tells so, as it is then; the rest of the parking is written, and the inbox is
/// looked at again, which the settling of a turn has to show by a `Look`. Whenever the signal
/// came, the run is then pending and runnable at once, with the signal there to be taken.
pub proof fn a_signal_during_the_parking_is_not_lost(
    store: Store,
    run: RunView,
    name: Seq<char>,
    timeout: Option<Duration>,
    payload: JsonView,
    at: Timestamp,
    sees: bool,
    now: Timestamp,
    fresh: FreshIds,
    signal_entry: u128,
    k: int,
)
    requires
        store.wf(),
        store.has_run(run.id),
        0 <= k <= settling(
            run,
            AdvanceView::WaitForSignal { name, timeout },
            false,
            now,
            fresh.entry,
            fresh.children@,
        ).len(),
    ensures
        ({
            let advance = AdvanceView::WaitForSignal { name, timeout };
            let parking = settling(run, advance, false, now, fresh.entry, fresh.children@);
            let begun = store.apply_all(parking.take(k));
            let told = if sees {
                begun.signalled(run.id, name, payload, at, signal_entry)
            } else {
                begun.apply_all(signalling(run.id, name, payload, at))
            };
            let parked = told.apply_all(parking.skip(k));
            let after = parked.looked_again(run.id, name, now, fresh.second_entry);
            &&& after.run(run.id).status is Pending
            &&& after.run(run.id).waiting is None
            &&& after.has_signal(run.id, name)
            &&& after.queue.last().run_id == run.id
            &&& after.claimable(after.queue.len() - 1, now)
        }),
{
    let id = run.id;
    let advance = AdvanceView::WaitForSignal { name, timeout };
    let parking = settling(run, advance, false, now, fresh.entry, fresh.children@);
    let first = parking.take(k);
    let rest = parking.skip(k);
    let begun = store.apply_all(first);
    let delivery = signalling(id, name, payload, at);
    let heard = begun.apply_all(delivery);
    let told = if sees {
        begun.signalled(id, name, payload, at, signal_entry)
    } else {
        heard
    };
    let parked = told.apply_all(rest);
    assert(store.runs.contains_key(id.value));
    lemma_few(store, first);
    lemma_two(begun, delivery);
    lemma_two(heard, waking(begun.run(id), signal_entry, at));
    lemma_few(told, rest);
    let place = begun.inbox(id).len() as int;
    assert(heard.waits(id, name, place));
    assert(told.waits(id, name, place));
    assert(parked.waits(id, name, place));
    lemma_two(parked, waking(parked.run(id), fresh.second_entry, now));
    let after = parked.looked_again(id, name, now, fresh.second_entry);
    assert(after.waits(id, name, place));
}

proof fn lemma_few(store: Store, list: Seq<ChangeView>)
    requires
        list.len() <= 2,
    ensures
        list.len() == 0 ==> store.apply_all(list) == store,
        list.len() == 1 ==> store.apply_all(list) == store.apply(list[0]),
        list.len() == 2 ==> store.apply_all(list) == store.apply(list[0]).apply(list[1]),
{
    reveal_with_fuel(Store::apply_all, 3);
    if list.len() == 1 {
        assert(list.drop_last() =~= Seq::empty());
    } else if list.len() == 2 {
        lemma_two(store, list);
    }
}

/// An answer to an approval request reaches the run: the run that was parked on
/// approval is pending, and the answer is the last of the approvals to be taken.
pub proof fn an_answer_reaches_the_parked_run(
    store: Store,
    id: RunId,
    resolution: ApprovalResolutionView,
    now: Timestamp,
    entry_id: u128,
)
    requires
        store.wf(),
        store.has_run(id),
        store.run(id).status is WaitingApproval,
    ensures
        ({
            let after = store.approved(id, resolution, now, entry_id);
            &&& after.run(id) == store.run(id).pending(now)
            &&& pending_payloads(after.inbox(id), APPROVAL_SIGNAL@) == pending_payloads(
                store.inbox(id),
                APPROVAL_SIGNAL@,
            ).push(resolution.payload())
            &&& ApprovalResolutionView::of_payload(resolution.payload()) == Some(resolution)
        }),
{
    assert(store.runs.contains_key(id.value));
    let told = store.apply_all(approving(id, resolution, now));
    lemma_two(store, approving(id, resolution, now));
    lemma_two(told, waking(store.run(id), entry_id, now));
    crate::signal::resolution_payload_round_trip(resolution);
    lemma_pending_push(
        store.inbox(id),
        SignalView {
            run_id: id,
            name: APPROVAL_SIGNAL@,
            payload: resolution.payload(),
            created_at: now,
            consumed: false,
        },
    );
}

proof fn lemma_pending_push(inbox: Seq<SignalView>, signal: SignalView)
    requires
        !signal.consumed,
    ensures
        pending_payloads(inbox.push(signal), signal.name) == pending_payloads(
            inbox,
            signal.name,
        ).push(signal.payload),
    decreases inbox.len(),
{
    let longer = inbox.push(signal);
    if inbox.len() == 0 {
        assert(longer.skip(1) =~= inbox);
        assert(longer[0] == signal);
        assert(pending_payloads(inbox, signal.name) =~= Seq::empty());
        assert(pending_payloads(longer, signal.name) =~= seq![signal.payload]);
    } else {
        lemma_pending_push(inbox.skip(1), signal);
        assert(longer.skip(1) =~= inbox.skip(1).push(signal));
        assert(pending_payloads(longer, signal.name) =~= pending_payloads(
            inbox,
            signal.name,
        ).push(signal.payload));
    }
}

proof fn lemma_two(store: Store, list: Seq<ChangeView>)
    requires
        list.len() == 2,
    ensures
        store.apply_all(list) == store.apply(list[0]).apply(list[1]),
{
    reveal_with_fuel(Store::apply_all, 3);
    assert(list.drop_last().drop_last() =~= Seq::empty());
    assert(list.drop_last().last() == list[0]);
}

// ---- timers --------------------------------------------------------------------

/// A wait with a timeout ends, and not before its time: a run that parks on a signal with
/// a timeout is runnable when that span, or all time there is, has passed, and not
/// earlier; picked up then it counts as timed out where the signal has not arrived.
pub proof fn a_wait_times_out(
    store: Store,
    run: RunView,
    name: Seq<char>,
    timeout: Duration,
    now: Timestamp,
    entry: u128,
    ids: Seq<u128>,
)
    requires
        store.has_run(run.id),
        !store.has_signal(run.id, name),
    ensures
        ({
            let advance = AdvanceView::WaitForSignal { name, timeout: Some(timeout) };
            let due = now.later(timeout);
            let after = store.apply_all(settling(run, advance, false, now, entry, ids));
            &&& due.nanos == i128::MAX || due.nanos == now.nanos + timeout.nanos
            &&& parked_on(after.run(run.id), name)
            &&& after.queue.drop_last() == store.queue
            &&& forall|then: Timestamp|
                #![trigger after.claimable(after.queue.len() - 1, then)]
                after.claimable(after.queue.len() - 1, then) <==> due.nanos <= then.nanos
            &&& after.queue.last().run_id == run.id
            &&& timed_out(after, after.run(run.id), due)
        }),
{
    let advance = AdvanceView::WaitForSignal { name, timeout: Some(timeout) };
    let list = settling(run, advance, false, now, entry, ids);
    lemma_two(store, list);
    let after = store.apply_all(list);
    assert(after.signals == store.signals);
    if after.has_signal(run.id, name) {
        let i = choose|i: int| #[trigger] after.waits(run.id, name, i);
        assert(store.waits(run.id, name, i));
    }
}

/// A sleeping run is runnable from its instant on, and not before.
pub proof fn a_sleeping_run_wakes_in_time(
    store: Store,
    run: RunView,
    until: Timestamp,
    arrived: bool,
    now: Timestamp,
    entry: u128,
    ids: Seq<u128>,
    then: Timestamp,
)
    requires
        store.has_run(run.id),
    ensures
        ({
            let advance = AdvanceView::Sleep { until };
            let after = store.apply_all(settling(run, advance, arrived, now, entry, ids));
            &&& after.run(run.id).status is WaitingTimer
            &&& after.queue.len() == store.queue.len() + 1
            &&& after.queue.last().run_id == run.id
            &&& after.claimable(after.queue.len() - 1, then) <==> until.nanos <= then.nanos
        }),
{
    let list = settling(run, AdvanceView::Sleep { until }, arrived, now, entry, ids);
    reveal_with_fuel(Store::apply_all, 4);
    assert(list.drop_last().drop_last().drop_last() =~= Seq::empty());
    assert(list.drop_last().drop_last().last() == list[0]);
    assert(list.drop_last().last() == list[1]);
}

/// A wait without a deadline never times out.
pub proof fn a_wait_without_a_deadline_never_times_out(
    store: Store,
    run: RunView,
    name: Seq<char>,
    now: Timestamp,
)
    requires
        run.waiting == Some(WaitView::Signal { name, deadline: None }),
    ensures
        !timed_out(store, run, now),
{
}

// ---- the queue -----------------------------------------------------------------

/// A claim is exclusive until it expires, and the entry comes back when it does:
/// the claimed entry cannot be claimed before the lease's end and can be from then
/// on.
pub proof fn a_claim_is_exclusive_until_it_expires(
    before: Store,
    lease_ttl: Duration,
    now: Timestamp,
    lease: Lease<RunId>,
    after: Store,
    i: int,
    then: Timestamp,
)
    requires
        claimed_at(before, i, lease_ttl, now, lease, after),
        now.nanos <= then.nanos,
    ensures
        after.claimable(i, then) <==> lease.expires_at.nanos <= then.nanos,
{
}

/// Acknowledging removes the claimed entry and no other: an entry with another id,
/// such as one enqueued during the turn, is still there.
pub proof fn an_acknowledgement_removes_only_its_entry(
    store: Store,
    lease_id: u128,
    entry: crate::store::QueueEntry,
)
    ensures
        store.ack(lease_id).queue.contains(entry) <==> store.queue.contains(entry)
            && entry.entry_id != lease_id,
{
    let keep = |e: crate::store::QueueEntry| e.entry_id != lease_id;
    let kept = store.queue.filter(keep);
    if kept.contains(entry) {
        let j = choose|j: int| 0 <= j < kept.len() && kept[j] == entry;
        store.queue.lemma_filter_contains_rev(keep, entry);
        store.queue.lemma_filter_pred(keep, j);
    }
    if store.queue.contains(entry) && entry.entry_id != lease_id {
        let i = choose|i: int| 0 <= i < store.queue.len() && store.queue[i] == entry;
        assert(keep(store.queue[i]));
        store.queue.lemma_filter_contains(keep, i);
    }
}

/// A claim takes nothing that is not ready, and where something is ready it takes
/// what was ready first.
pub proof fn a_claim_takes_the_first_that_is_ready(
    before: Store,
    lease_ttl: Duration,
    now: Timestamp,
    lease: Lease<RunId>,
    after: Store,
)
    requires
        claim_made(before, lease_ttl, now, lease, after),
    ensures
        exists|i: int|
            {
                &&& #[trigger] before.claimable(i, now)
                &&& before.queue[i].run_id == lease.item
                &&& forall|j: int| #[trigger]
                    before.claimable(j, now) ==> before.queue[i].ready_at.nanos
                        <= before.queue[j].ready_at.nanos
            },
{
    let i = choose|i: int| #[trigger] claimed_at(before, i, lease_ttl, now, lease, after);
    assert(before.claimable(i, now));
}

/// Only one worker advances a run: while the processing lease on a run is held, a
/// turn of that run changes nothing.
pub proof fn a_held_run_is_not_advanced(
    reliable: bool,
    clock: ClockRelation,
    before: Store,
    id: RunId,
    now: Timestamp,
    lease_ttl: Duration,
    then: Timestamp,
    driver: Option<DriverRelation>,
    after: Store,
)
    requires
        ({
            let held = before.fence(id, now.later(lease_ttl));
            &&& then.nanos < now.later(lease_ttl).nanos
            &&& turn_taken(reliable, clock, held, id, then, lease_ttl, driver, after)
        }),
    ensures
        after == before.fence(id, now.later(lease_ttl)),
{
}

/// A crashed holder does not block a run for ever: the processing lease ends when
/// its time is up.
pub proof fn a_processing_lease_expires(
    before: Store,
    id: RunId,
    now: Timestamp,
    lease_ttl: Duration,
    then: Timestamp,
)
    requires
        now.later(lease_ttl).nanos <= then.nanos,
    ensures
        !before.fence(id, now.later(lease_ttl)).fenced(id, then),
{
}

/// A turn that a crashed worker leaves behind is taken up again: its claim and its
/// processing lease, both taken at `now`, end together, so that whoever claims the entry
/// again finds the run free.
pub proof fn a_turn_left_behind_is_taken_up_again(
    before: Store,
    i: int,
    lease_ttl: Duration,
    now: Timestamp,
    lease: Lease<RunId>,
    claimed: Store,
    then: Timestamp,
)
    requires
        claimed_at(before, i, lease_ttl, now, lease, claimed),
        now.nanos <= then.nanos,
    ensures
        ({
            let left = claimed.fence(lease.item, now.later(lease_ttl));
            left.claimable(i, then) <==> !left.fenced(lease.item, then)
        }),
{
}

/// A tick that fails keeps its claim: whatever else was written, the claimed entry is still
/// in the queue, leased, and can be claimed again when its lease ends, and not before.
pub proof fn a_failed_tick_keeps_its_claim(
    before: Store,
    lease_ttl: Duration,
    now: Timestamp,
    lease: Lease<RunId>,
    leased: Store,
    after: Store,
)
    requires
        claim_made(before, lease_ttl, now, lease, leased),
        leased.queue.is_prefix_of(after.queue),
    ensures
        exists|i: int|
            {
                &&& 0 <= i < after.queue.len()
                &&& (#[trigger] after.queue[i]).entry_id == lease.lease_id
                &&& after.queue[i].run_id == lease.item
                &&& after.queue[i].leased_until == Some(lease.expires_at)
                &&& forall|then: Timestamp|
                    now.nanos <= then.nanos ==> (#[trigger] after.claimable(i, then)
                        <==> lease.expires_at.nanos <= then.nanos)
            },
{
    let i = choose|i: int| #[trigger] claimed_at(before, i, lease_ttl, now, lease, leased);
    assert(after.queue.take(leased.queue.len() as int)[i] == leased.queue[i]);
    assert(after.queue[i] == leased.queue[i]);
}

// ---- final runs, cancelling, joining -------------------------------------------

/// A turn of a final run changes nothing.
pub proof fn a_final_run_is_not_advanced(
    reliable: bool,
    clock: ClockRelation,
    before: Store,
    id: RunId,
    now: Timestamp,
    lease_ttl: Duration,
    driver: Option<DriverRelation>,
    after: Store,
)
    requires
        before.run(id).status.terminal(),
        turn_taken(reliable, clock, before, id, now, lease_ttl, driver, after),
    ensures
        after == before,
{
}

/// Cancelling a run cancels it and every descendant that is not final: after it neither the
/// run nor any run below it, at whatever depth and below whatever runs, is live. Each that
/// was is cancelled and has one more event in its log.
pub proof fn cancelling_reaches_every_descendant(store: Store, root: u128, now: Timestamp)
    requires
        store.runs.contains_key(root),
    ensures
        store.descends(root, root),
        forall|k: u128, p: u128|
            store.descends(root, p) && #[trigger] store.child_of(k, p) ==> store.descends(root, k),
        forall|k: u128| #[trigger]
            store.descends(root, k) ==> !store.cancel_tree(root, now).live(k),
        forall|k: u128| #[trigger]
            store.descends(root, k) && store.live(k) ==> {
                let after = store.cancel_tree(root, now);
                let id = RunId { value: k };
                &&& after.runs[k] == store.runs[k].cancelled(now)
                &&& after.log(id) == store.log(id).push(
                    store.next_event(
                        id,
                        EventKind::RunCancelled,
                        JsonView::empty_object(),
                        now,
                    ),
                )
            },
{
    crate::cancel::lemma_descends_self(store, root);
    assert forall|k: u128, p: u128|
        store.descends(root, p) && #[trigger] store.child_of(k, p) implies store.descends(
        root,
        k,
    ) by {
        crate::cancel::lemma_descends_child(store, root, p, k);
    }
    assert forall|k: u128| #[trigger] store.descends(root, k) implies !store.cancel_tree(
        root,
        now,
    ).live(k) by {
        if store.live(k) {
            assert(store.subtree(root).contains(k));
        }
    }
    assert forall|k: u128| #[trigger] store.descends(root, k) && store.live(k) implies ({
        let after = store.cancel_tree(root, now);
        let id = RunId { value: k };
        &&& after.runs[k] == store.runs[k].cancelled(now)
        &&& after.log(id) == store.log(id).push(
            store.next_event(id, EventKind::RunCancelled, JsonView::empty_object(), now),
        )
    }) by {
        assert(store.subtree(root).contains(k));
    }
}

/// Cancelling touches nothing else: a run outside the cancelled subtree keeps its
/// record and its log, and a final run is always outside.
pub proof fn cancelling_leaves_the_rest_alone(store: Store, root: u128, now: Timestamp, k: u128)
    requires
        !store.subtree(root).contains(k) || !store.live(k),
    ensures
        store.runs.contains_key(k) ==> store.cancel_tree(root, now).runs[k] == store.runs[k],
        store.cancel_tree(root, now).log(RunId { value: k }) == store.log(RunId { value: k }),
{
}

/// Cancelling twice is cancelling once.
pub proof fn cancelling_twice_is_cancelling_once(
    store: Store,
    root: u128,
    now: Timestamp,
    later: Timestamp,
)
    ensures
        store.cancel_tree(root, now).cancel_tree(root, later) == store.cancel_tree(root, now),
{
    let once = store.cancel_tree(root, now);
    crate::cancel::lemma_same_family(once, store);
    assert(once.subtree(root) =~= Set::empty()) by {
        assert forall|x: u128| !once.doomed(root, x) by {
            if once.doomed(root, x) {
                assert(store.descends(root, x));
                assert(store.subtree(root).contains(x));
            }
        }
    }
    crate::cancel::lemma_cancel_none(once, later);
}

/// A satisfied join wakes the parent: it is pending, it no longer waits, and a
/// queue entry makes it runnable. The parent must not be below one of its own children.
pub proof fn a_satisfied_join_wakes_the_parent(
    store: Store,
    p: RunId,
    mode: JoinMode,
    now: Timestamp,
    entry_id: u128,
)
    requires
        store.wf(),
        store.has_run(p),
        store.run(p).waiting == Some(WaitView::ChildJoin { mode }),
        !store.run(p).status.terminal(),
        store.joined(p.value, mode),
        forall|c: u128| #[trigger]
            store.child_of(c, p.value) ==> !store.doomed(c, p.value),
    ensures
        ({
            let after = store.child_reported(p, now, entry_id);
            &&& after.run(p) == store.run(p).pending(now)
            &&& after.queue == store.queue.push(
                crate::store::QueueEntry {
                    entry_id,
                    run_id: p,
                    ready_at: now,
                    leased_until: None,
                },
            )
        }),
{
    assert(store.runs.contains_key(p.value));
    let told = store.append(
        p,
        EventKind::ChildRunFinished,
        JsonView::empty_object().with("satisfied"@, JsonView::Bool(true)),
        now,
    );
    lemma_two(told, waking(store.run(p), entry_id, now));
    let woken = told.apply_all(waking(store.run(p), entry_id, now));
    let dead = woken.brood(store, p.value);
    if dead.contains(p.value) {
        let c = choose|c: u128| #[trigger]
            store.child_of(c, p.value) && store.live(c) && woken.doomed(c, p.value);
        crate::cancel::lemma_same_family(woken, store);
        assert(store.descends(c, p.value));
        assert(store.doomed(c, p.value));
    }
}

/// A join that is not satisfied leaves the parent parked.
pub proof fn an_unsatisfied_join_leaves_the_parent_parked(
    store: Store,
    p: RunId,
    mode: JoinMode,
    now: Timestamp,
    entry_id: u128,
)
    requires
        store.has_run(p),
        store.run(p).waiting == Some(WaitView::ChildJoin { mode }),
        !store.joined(p.value, mode),
    ensures
        store.child_reported(p, now, entry_id).runs == store.runs,
        store.child_reported(p, now, entry_id).queue == store.queue,
{
}

/// A satisfied join of the kind `Any` leaves no live child: the winner is final and stays
/// as it is, the rest are cancelled with every run below them.
pub proof fn an_any_join_cancels_the_losers(store: Store, p: RunId, now: Timestamp, entry_id: u128)
    requires
        store.wf(),
        store.has_run(p),
        store.run(p).waiting == Some(WaitView::ChildJoin { mode: JoinMode::Any }),
        store.some_child_final(p.value),
        !store.run(p).status.terminal(),
    ensures
        forall|k: u128| #[trigger]
            store.child_of(k, p.value) && k != p.value ==> !store.child_reported(
                p,
                now,
                entry_id,
            ).live(k),
        forall|c: u128, k: u128|
            store.child_of(c, p.value) && store.live(c) && #[trigger] store.descends(c, k)
                ==> !store.child_reported(p, now, entry_id).live(k),
        forall|k: u128| #[trigger]
            store.child_of(k, p.value) && store.runs[k].status.terminal() && k != p.value
                ==> store.child_reported(p, now, entry_id).runs[k] == store.runs[k],
{
    assert(store.runs.contains_key(p.value));
    let told = store.append(
        p,
        EventKind::ChildRunFinished,
        JsonView::empty_object().with("satisfied"@, JsonView::Bool(true)),
        now,
    );
    let woken = told.apply_all(waking(store.run(p), entry_id, now));
    lemma_two(told, waking(store.run(p), entry_id, now));
    let dead = woken.brood(store, p.value);
    let after = woken.cancel_where(dead, now);
    assert(after == store.child_reported(p, now, entry_id));
    assert forall|k: u128| #[trigger]
        store.child_of(k, p.value) && k != p.value implies !after.live(
        k,
    ) by {
        if store.live(k) {
            assert(woken.live(k));
            crate::cancel::lemma_descends_self(woken, k);
            assert(woken.doomed(k, k));
            assert(dead.contains(k));
        }
    }
    crate::cancel::lemma_same_family(woken, store);
    assert forall|c: u128, k: u128|
        store.child_of(c, p.value) && store.live(c) && #[trigger] store.descends(
            c,
            k,
        ) implies !after.live(k) by {
        if after.live(k) {
            assert(woken.live(k));
            assert(woken.descends(c, k));
            assert(woken.doomed(c, k));
            assert(dead.contains(k));
        }
    }
    assert forall|k: u128| #[trigger]
        store.child_of(k, p.value) && store.runs[k].status.terminal() && k
            != p.value implies after.runs[k] == store.runs[k] by {
        if dead.contains(k) {
            let c = choose|c: u128| #[trigger]
                store.child_of(c, p.value) && store.live(c) && woken.doomed(c, k);
            assert(woken.live(k));
        }
    }
}

/// Telling a parent again that its children are final changes nothing once its join
/// has been satisfied.
pub proof fn a_woken_parent_is_told_nothing_more(
    store: Store,
    p: RunId,
    mode: JoinMode,
    now: Timestamp,
    entry_id: u128,
    later: Timestamp,
    other_entry: u128,
)
    requires
        store.wf(),
        store.has_run(p),
        store.run(p).waiting == Some(WaitView::ChildJoin { mode }),
        store.joined(p.value, mode),
    ensures
        ({
            let after = store.child_reported(p, now, entry_id);
            after.child_reported(p, later, other_entry) == after
        }),
{
    assert(store.runs.contains_key(p.value));
    let told = store.append(
        p,
        EventKind::ChildRunFinished,
        JsonView::empty_object().with("satisfied"@, JsonView::Bool(true)),
        now,
    );
    lemma_two(told, waking(store.run(p), entry_id, now));
    let after = store.child_reported(p, now, entry_id);
    assert(after.run(p).waiting is None);
}

/// No join waits for ever: once every child is final, and there is one, the join is
/// satisfied, of whatever kind it is.
pub proof fn all_final_children_satisfy_every_join(store: Store, p: u128, mode: JoinMode)
    requires
        store.all_children_final(p),
        exists|k: u128| store.child_of(k, p),
    ensures
        store.joined(p, mode),
{
    let k = choose|k: u128| store.child_of(k, p);
    assert(store.runs[k].status.terminal());
}

// ---- children ------------------------------------------------------------------

proof fn lemma_apply_joined(store: Store, a: Seq<ChangeView>, b: Seq<ChangeView>)
    ensures
        store.apply_all(a + b) == store.apply_all(a).apply_all(b),
    decreases b.len(),
{
    if b.len() == 0 {
        assert(a + b =~= a);
    } else {
        assert((a + b).drop_last() =~= a + b.drop_last());
        lemma_apply_joined(store, a, b.drop_last());
    }
}

/// Whether the children `a` and `b` get different ids.
pub open spec fn apart(ids: Seq<u128>, a: int, b: int) -> bool {
    ids[2 * a] != ids[2 * b]
}

/// Every child that is asked for is born: a pending run of its own, with its parent's id
/// and, unless it is given its own, a copy of its parent's budget, and with an entry in the
/// queue. The ids must be fresh: no two children have the same one.
pub proof fn every_child_is_born(
    store: Store,
    parent: RunView,
    specs: Seq<ChildSpecView>,
    ids: Seq<u128>,
    now: Timestamp,
    i: int,
)
    requires
        0 <= i < specs.len(),
        forall|a: int, b: int| 0 <= a < b < specs.len() ==> #[trigger] apart(ids, a, b),
    ensures
        ({
            let after = store.apply_all(births(parent, specs, ids, now));
            let child = RunId { value: ids[2 * i] };
            &&& after.has_run(child)
            &&& after.run(child) == child_run(parent, specs[i], ids[2 * i], now)
            &&& after.run(child).status is Pending
            &&& after.run(child).parent_id == Some(parent.id)
            &&& after.run(child).budget == (match specs[i].budget {
                Some(budget) => budget,
                None => parent.budget,
            })
            &&& after.queue.len() == store.queue.len() + specs.len()
            &&& after.queue[store.queue.len() + i].run_id == child
            &&& after.queue[store.queue.len() + i].ready_at == now
        }),
    decreases specs.len(),
{
    let front = specs.drop_last();
    let n = specs.len() - 1;
    let last = child_run(parent, specs.last(), ids[2 * n], now);
    let list = creation(last, ids[2 * n + 1], now);
    lemma_apply_joined(store, births(parent, front, ids, now), list);
    let here = store.apply_all(births(parent, front, ids, now));
    lemma_creation(here, last, ids[2 * n + 1], now);
    if n > 0 {
        let j = if i < n {
            i
        } else {
            0
        };
        every_child_is_born(store, parent, front, ids, now, j);
        if i < n {
            assert(specs[i] == front[i]);
            assert(apart(ids, i, n));
        }
    } else {
        assert(births(parent, front, ids, now) =~= Seq::<ChangeView>::empty());
    }
}

proof fn lemma_creation(store: Store, run: RunView, entry_id: u128, now: Timestamp)
    ensures
        ({
            let after = store.apply_all(creation(run, entry_id, now));
            &&& after.runs == store.runs.insert(run.id.value, run)
            &&& after.queue == store.queue.push(
                crate::store::QueueEntry {
                    entry_id,
                    run_id: run.id,
                    ready_at: now,
                    leased_until: None,
                },
            )
            &&& after.log(run.id).len() == store.log(run.id).len() + 1
            &&& after.log(run.id).last().kind is RunCreated
        }),
{
    let list = creation(run, entry_id, now);
    reveal_with_fuel(Store::apply_all, 4);
    assert(list.drop_last().drop_last().drop_last() =~= Seq::empty());
    assert(list.drop_last().drop_last().last() == list[0]);
    assert(list.drop_last().last() == list[1]);
}

/// Creating a run files it as pending, with nothing used and nothing waited for, begins its
/// log, and makes it runnable at once; every other run is left as it is.
pub proof fn a_created_run_is_pending_and_queued(
    store: Store,
    spec: RunSpecView,
    id: RunId,
    entry_id: u128,
    now: Timestamp,
    k: u128,
)
    ensures
        ({
            let run = spec.fresh(id, now);
            let after = store.apply_all(creation(run, entry_id, now));
            &&& after.has_run(id)
            &&& after.run(id) == run
            &&& after.run(id).status is Pending
            &&& after.run(id).waiting is None
            &&& after.run(id).usage == BudgetUsage::none()
            &&& after.log(id).len() == store.log(id).len() + 1
            &&& after.log(id).last().kind is RunCreated
            &&& after.queue == store.queue.push(
                crate::store::QueueEntry {
                    entry_id,
                    run_id: id,
                    ready_at: now,
                    leased_until: None,
                },
            )
            &&& k != id.value && store.runs.contains_key(k) ==> after.runs.contains_key(k)
                && after.runs[k] == store.runs[k]
        }),
{
    lemma_creation(store, spec.fresh(id, now), entry_id, now);
}

// ---- finishing, and what is finished -------------------------------------------

/// Telling a parent about a child leaves every final run as it is, but for a parent that is
/// final and still waits for its children.
pub proof fn reporting_leaves_final_runs_alone(
    store: Store,
    p: RunId,
    now: Timestamp,
    entry_id: u128,
    k: u128,
)
    requires
        store.wf(),
        store.runs.contains_key(k),
        store.runs[k].status.terminal(),
        store.runs[k].waiting is None,
    ensures
        store.child_reported(p, now, entry_id).runs[k] == store.runs[k],
{
    if store.has_run(p) {
        if let Some(WaitView::ChildJoin { mode }) = store.run(p).waiting {
            if store.joined(p.value, mode) {
                assert(store.runs.contains_key(p.value));
                let told = store.append(
                    p,
                    EventKind::ChildRunFinished,
                    JsonView::empty_object().with("satisfied"@, JsonView::Bool(true)),
                    now,
                );
                lemma_two(told, waking(store.run(p), entry_id, now));
                let woken = told.apply_all(waking(store.run(p), entry_id, now));
                assert(k != p.value);
                assert(woken.runs[k] == store.runs[k]);
                let dead = woken.brood(store, p.value);
                if dead.contains(k) {
                    let c = choose|c: u128| #[trigger]
                        store.child_of(c, p.value) && store.live(c) && woken.doomed(c, k);
                    assert(woken.live(k));
                }
            }
        }
    }
}

/// Signals and answers leave final runs alone: they are delivered, and wake nobody.
pub proof fn deliveries_leave_final_runs_alone(
    store: Store,
    id: RunId,
    name: Seq<char>,
    payload: JsonView,
    resolution: ApprovalResolutionView,
    now: Timestamp,
    entry_id: u128,
    k: u128,
)
    requires
        store.wf(),
        store.runs.contains_key(k),
        store.runs[k].status.terminal(),
    ensures
        store.signalled(id, name, payload, now, entry_id).runs[k] == store.runs[k],
        store.approved(id, resolution, now, entry_id).runs[k] == store.runs[k],
{
    lemma_two(store, signalling(id, name, payload, now));
    lemma_two(store, approving(id, resolution, now));
    let told = store.apply_all(signalling(id, name, payload, now));
    let answered = store.apply_all(approving(id, resolution, now));
    if store.has_run(id) {
        lemma_two(told, waking(store.run(id), entry_id, now));
        lemma_two(answered, waking(store.run(id), entry_id, now));
        assert(store.runs.contains_key(id.value));
    }
}

/// Cancelling leaves final runs alone, whatever is above or below them.
pub proof fn cancelling_leaves_final_runs_alone(
    store: Store,
    id: RunId,
    now: Timestamp,
    entry_id: u128,
    k: u128,
)
    requires
        store.wf(),
        store.runs.contains_key(k),
        store.runs[k].status.terminal(),
        store.runs[k].waiting is None,
    ensures
        store.run_cancelled(id, now, entry_id).runs[k] == store.runs[k],
{
    if store.has_run(id) {
        cancelling_leaves_the_rest_alone(store, id.value, now, k);
        cancelling_keeps_the_store_well_formed(store, id.value, now);
        if let Some(p) = store.run(id).parent_id {
            reporting_leaves_final_runs_alone(
                store.cancel_tree(id.value, now),
                p,
                now,
                entry_id,
                k,
            );
        }
    }
}

/// A driver that completes its run completes it, with the output it gave, unless what it
/// charged or its age breaches the budget.
pub proof fn a_completed_run_has_its_output(
    store: Store,
    run: RunView,
    delta: BudgetUsage,
    output: JsonView,
    now: Timestamp,
    fresh: FreshIds,
)
    requires
        store.wf(),
        store.has_run(run.id),
        run.charged(delta).breach(now) is None,
    ensures
        ({
            let after = store.turn_settled(
                run,
                delta,
                Ok::<AdvanceView, ErrorView>(AdvanceView::Complete { output }),
                now,
                fresh,
            );
            &&& after.run(run.id).status is Completed
            &&& after.run(run.id).output == Some(output)
            &&& after.run(run.id).waiting is None
            &&& after.run(run.id).usage == run.usage.sum(delta)
        }),
{
    let counted = run.charged(delta);
    let list = crate::decide::completing(counted, output, now);
    lemma_two(store, list);
    let done = store.apply_all(list);
    changes_keep_the_store_well_formed(store, list[0]);
    changes_keep_the_store_well_formed(store.apply(list[0]), list[1]);
    if let Some(p) = run.parent_id {
        reporting_leaves_final_runs_alone(done, p, now, fresh.second_entry, run.id.value);
    }
}

/// A breached budget fails the run, whatever the driver wanted, with a message that
/// names the breach. The limit on wall-clock seconds is breached by a run that is older.
pub proof fn a_breached_budget_fails_the_run(
    store: Store,
    run: RunView,
    delta: BudgetUsage,
    advance: AdvanceView,
    now: Timestamp,
    fresh: FreshIds,
)
    requires
        store.wf(),
        store.has_run(run.id),
        run.charged(delta).breach(now) is Some,
    ensures
        ({
            let after = store.turn_settled(
                run,
                delta,
                Ok::<AdvanceView, ErrorView>(advance),
                now,
                fresh,
            );
            let report = run.charged(delta).breach(now)->0;
            &&& after.run(run.id).status is Failed
            &&& after.run(run.id).error == Some("budget exceeded: "@ + report)
            &&& after.run(run.id).usage == run.usage.sum(delta)
        }),
{
    let counted = run.charged(delta);
    let report = counted.breach(now)->0;
    let list = crate::decide::failing(counted, Budget::exceeded(report), now);
    lemma_two(store, list);
    let failed = store.apply_all(list);
    changes_keep_the_store_well_formed(store, list[0]);
    changes_keep_the_store_well_formed(store.apply(list[0]), list[1]);
    assert(failed == store.apply(list[0]).apply(list[1]));
    if let Some(p) = run.parent_id {
        reporting_leaves_final_runs_alone(failed, p, now, fresh.second_entry, run.id.value);
    }
}

/// A driver that fails fails the run, with the message of its error; what it charged
/// counts.
pub proof fn a_driver_error_fails_the_run(
    store: Store,
    run: RunView,
    delta: BudgetUsage,
    e: ErrorView,
    now: Timestamp,
    fresh: FreshIds,
)
    requires
        store.wf(),
        store.has_run(run.id),
    ensures
        ({
            let after = store.turn_settled(
                run,
                delta,
                Err::<AdvanceView, ErrorView>(e),
                now,
                fresh,
            );
            &&& after.run(run.id).status is Failed
            &&& after.run(run.id).error == Some(e.text())
            &&& after.run(run.id).usage == run.usage.sum(delta)
        }),
{
    let counted = run.charged(delta);
    let list = crate::decide::failing(counted, e.text(), now);
    lemma_two(store, list);
    let failed = store.apply_all(list);
    changes_keep_the_store_well_formed(store, list[0]);
    changes_keep_the_store_well_formed(store.apply(list[0]), list[1]);
    if let Some(p) = run.parent_id {
        reporting_leaves_final_runs_alone(failed, p, now, fresh.second_entry, run.id.value);
    }
}

} // verus!
