//! What a store promises of its queue, its logs, its inboxes, its leases and its artifacts.

use vstd::prelude::*;

use crate::artifact::ArtifactView;
use crate::change::ChangeView;
use crate::driver::{
    artifact_recorded, consumed_first, drained, leased, pending_payloads, produced,
    resource_leased, resource_released,
};
use crate::error::Error;
use crate::event::{EventKind, EventView};
use crate::ids::{ArtifactId, ResourceId, RunId};
use crate::json::JsonView;
use crate::resource::{ResourceKind, ResourceStatus, ResourceView};
use crate::run::{RunSpecView, RunView, WaitView};
use crate::signal::{ApprovalDecision, ApprovalResolutionView, SignalView, APPROVAL_SIGNAL};
use crate::store::{claimed, committed, signal_taken, Lease, QueueEntry, Store};
use crate::time::{Duration, Timestamp};

verus! {

/// A call on storage that gives `Ok` has done what it says; one that gives `Err` has done that
/// or nothing, and no call on a store that can be relied on gives `Err`.
pub proof fn a_call_that_succeeds_is_carried_out<T>(
    r: Result<T, Error>,
    reliable: bool,
    before: Store,
    changed: Store,
    after: Store,
)
    requires
        committed(r, reliable, before, changed, after),
    ensures
        r is Ok ==> after == changed,
        r is Err ==> !reliable && (after == before || after == changed),
{
}

// ---- runs and logs -------------------------------------------------------------

/// A run that is filed is the one that is fetched under its id, and no other run is touched.
pub proof fn what_is_filed_is_fetched(store: Store, run: RunView, k: u128)
    ensures
        store.put_run(run).runs.contains_key(run.id.value),
        store.put_run(run).runs[run.id.value] == run,
        k != run.id.value ==> store.put_run(run).runs.contains_key(k) == store.runs.contains_key(k)
            && store.put_run(run).runs[k] == store.runs[k],
        store.put_run(run).queue == store.queue,
        store.put_run(run).events == store.events,
        store.put_run(run).steps == store.steps,
        store.put_run(run).signals == store.signals,
{
}

/// An appended event is the last of its log, with the kind, the payload and the time it was
/// recorded with and the next number; what the log held stays before it, and no other log is
/// touched.
pub proof fn an_event_is_appended_with_the_next_number(
    store: Store,
    id: RunId,
    kind: EventKind,
    payload: JsonView,
    at: Timestamp,
    other: RunId,
)
    ensures
        ({
            let after = store.append(id, kind, payload, at);
            let log = after.log(id);
            &&& log.len() == store.log(id).len() + 1
            &&& log.drop_last() == store.log(id)
            &&& log.last() == (EventView {
                run_id: id,
                seq: store.log(id).len() + 1,
                kind,
                payload,
                at,
            })
            &&& other != id ==> after.log(other) == store.log(other)
            &&& after.runs == store.runs
            &&& after.queue == store.queue
            &&& after.signals == store.signals
            &&& after.steps == store.steps
        }),
{
    assert(store.append(id, kind, payload, at).log(id).drop_last() =~= store.log(id));
}

/// Reading a log from a number on gives every event with a higher number, in order, and none
/// with a lower one.
pub proof fn a_read_gives_what_is_above(store: Store, id: RunId, from: nat, i: int)
    requires
        store.wf(),
    ensures
        ({
            let read = store.events_after(id, from);
            &&& from <= store.log(id).len() ==> read.len() == store.log(id).len() - from
            &&& from > store.log(id).len() ==> read.len() == 0
            &&& 0 <= i < read.len() ==> read[i] == store.log(id)[from + i] && read[i].seq == from
                + i + 1
        }),
{
    if store.events.contains_key(id.value) {
        assert(crate::store::numbered(id.value, store.log(id)));
    }
}

/// A created run is what its spec asks for, and starts from nothing: its agent type, goal,
/// input, session, budget and parent are those of the spec; it is pending, and its log tells
/// its agent type and its goal.
pub proof fn a_created_run_is_what_its_spec_asks_for(
    store: Store,
    spec: RunSpecView,
    id: RunId,
    entry_id: u128,
    now: Timestamp,
)
    ensures
        ({
            let run = spec.fresh(id, now);
            let after = store.apply_all(crate::decide::creation(run, entry_id, now));
            let kept = after.run(id);
            let log = after.log(id);
            &&& after.has_run(id)
            &&& kept.id == id
            &&& kept.agent_type == spec.agent_type
            &&& kept.goal == spec.goal
            &&& kept.input == spec.input
            &&& kept.session_ref == spec.session_ref
            &&& kept.budget == spec.budget
            &&& kept.parent_id == spec.parent_id
            &&& kept.status is Pending
            &&& kept.waiting is None
            &&& kept.output is None
            &&& kept.error is None
            &&& kept.usage.tokens == 0 && kept.usage.tool_calls == 0 && kept.usage.children == 0
                && kept.usage.cost_usd.nanos == 0
            &&& kept.created_at == now
            &&& kept.updated_at == now
            &&& log.len() == store.log(id).len() + 1
            &&& log.last().kind is RunCreated
            &&& log.last().at == now
            &&& log.last().payload.member("agent_type"@) == Some(
                JsonView::String(spec.agent_type),
            )
            &&& log.last().payload.member("goal"@) == Some(JsonView::String(spec.goal))
            &&& after.queue == store.queue.push(
                QueueEntry { entry_id, run_id: id, ready_at: now, leased_until: None },
            )
        }),
{
    reveal_strlit("agent_type");
    reveal_strlit("goal");
    assert("agent_type"@.len() == 10 && "goal"@.len() == 4);
    let list = crate::decide::creation(spec.fresh(id, now), entry_id, now);
    reveal_with_fuel(Store::apply_all, 4);
    assert(list.drop_last().drop_last().drop_last() =~= Seq::empty());
    assert(list.drop_last().drop_last().last() == list[0]);
    assert(list.drop_last().last() == list[1]);
}

/// Changes are carried out one after the other: the last of them on what the others left.
pub proof fn changes_are_carried_out_in_order(
    store: Store,
    first: Seq<ChangeView>,
    change: ChangeView,
)
    ensures
        store.apply_all(first.push(change)) == store.apply_all(first).apply(change),
        store.apply_all(Seq::<ChangeView>::empty()) == store,
{
    assert(first.push(change).drop_last() =~= first);
}

// ---- the queue -----------------------------------------------------------------

/// An entry that is put into the queue makes its run runnable from its instant on, under its
/// id, and nobody holds it.
pub proof fn an_entry_is_put_at_the_end(
    store: Store,
    entry_id: u128,
    run_id: RunId,
    ready_at: Timestamp,
)
    ensures
        ({
            let after = store.enqueue(entry_id, run_id, ready_at);
            &&& after.queue.len() == store.queue.len() + 1
            &&& after.queue.drop_last() == store.queue
            &&& after.queue.last().entry_id == entry_id
            &&& after.queue.last().run_id == run_id
            &&& after.queue.last().ready_at == ready_at
            &&& after.queue.last().leased_until is None
            &&& after.runs == store.runs
        }),
{
    assert(store.enqueue(entry_id, run_id, ready_at).queue.drop_last() =~= store.queue);
}

/// Whether an entry can be had at `now`: its instant has come and no claim on it lasts.
pub open spec fn to_be_had(entry: QueueEntry, now: Timestamp) -> bool {
    &&& entry.ready_at.nanos <= now.nanos
    &&& entry.leased_until is None || entry.leased_until->0.nanos <= now.nanos
}

/// A claim takes an entry that can be had, and of these one whose instant came first; it is
/// held for the length of the lease, and no other entry is touched. Where nothing is claimed,
/// nothing can be had and nothing is touched.
pub proof fn a_claim_takes_what_was_ready_first(
    before: Store,
    lease_ttl: Duration,
    now: Timestamp,
    lease: Option<Lease<RunId>>,
    after: Store,
)
    requires
        claimed(before, lease_ttl, now, lease, after),
        now.nanos + lease_ttl.nanos <= i128::MAX,
    ensures
        lease is None ==> after == before && forall|i: int|
            0 <= i < before.queue.len() ==> !to_be_had(#[trigger] before.queue[i], now),
        lease matches Some(lease) ==> exists|i: int|
            {
                &&& 0 <= i < before.queue.len()
                &&& to_be_had(#[trigger] before.queue[i], now)
                &&& forall|j: int|
                    0 <= j < before.queue.len() && to_be_had(#[trigger] before.queue[j], now)
                        ==> before.queue[i].ready_at.nanos <= before.queue[j].ready_at.nanos
                &&& lease.item == before.queue[i].run_id
                &&& lease.lease_id == before.queue[i].entry_id
                &&& lease.expires_at.nanos as int == now.nanos + lease_ttl.nanos
                &&& after.queue == before.queue.update(
                    i,
                    QueueEntry {
                        leased_until: Some(lease.expires_at),
                        ..before.queue[i]
                    },
                )
                &&& after == (Store { queue: after.queue, ..before })
            },
{
    assert forall|i: int| 0 <= i < before.queue.len() implies to_be_had(
        #[trigger] before.queue[i],
        now,
    ) == before.claimable(i, now) by {}
    if let Some(lease) = lease {
        let i = choose|i: int| #[trigger]
            crate::store::claimed_at(before, i, lease_ttl, now, lease, after);
        assert(to_be_had(before.queue[i], now));
        assert forall|j: int|
            0 <= j < before.queue.len() && to_be_had(
                #[trigger] before.queue[j],
                now,
            ) implies before.queue[i].ready_at.nanos <= before.queue[j].ready_at.nanos by {
            assert(before.claimable(j, now));
        }
    }
}

// ---- the processing lease ------------------------------------------------------

/// A run is held exactly while its lease lasts: from taking it to its instant, or until it is
/// given back. Holding one run does not hold another.
pub proof fn a_run_is_held_until_its_lease_ends(
    store: Store,
    id: RunId,
    until: Timestamp,
    now: Timestamp,
    other: RunId,
)
    ensures
        store.fence(id, until).fenced(id, now) <==> now.nanos < until.nanos,
        !store.unfence(id).fenced(id, now),
        other != id ==> store.fence(id, until).fenced(other, now) == store.fenced(other, now),
        other != id ==> store.unfence(id).fenced(other, now) == store.fenced(other, now),
        store.fenced(id, now) <==> store.fences.contains_key(id.value) && now.nanos
            < store.fences[id.value].nanos,
        store.fence(id, until).runs == store.runs,
        store.fence(id, until).queue == store.queue,
        store.unfence(id).queue == store.queue,
{
}

/// The instant some time after another is that much later, as far as instants go.
pub proof fn later_is_that_much_later(at: Timestamp, span: Duration)
    ensures
        at.nanos + span.nanos <= i128::MAX ==> at.later(span).nanos as int == at.nanos
            + span.nanos,
        at.nanos + span.nanos > i128::MAX ==> at.later(span).nanos == i128::MAX,
{
}

// ---- signals -------------------------------------------------------------------

/// A delivered signal is the last of its run's inbox, with its name, its payload and its time,
/// and nobody has taken it; what the inbox held stays before it, and no other inbox is touched.
pub proof fn a_signal_is_delivered_to_its_inbox(
    store: Store,
    id: RunId,
    name: Seq<char>,
    payload: JsonView,
    at: Timestamp,
    other: RunId,
)
    ensures
        ({
            let after = store.deliver(id, name, payload, at);
            &&& after.inbox(id) == store.inbox(id).push(
                SignalView { run_id: id, name, payload, created_at: at, consumed: false },
            )
            &&& other != id ==> after.inbox(other) == store.inbox(other)
            &&& after.runs == store.runs
            &&& after.queue == store.queue
        }),
{
}

/// A signal to a run is put into its inbox and logged, and wakes the run exactly where that is
/// parked on a signal of this name: then it is pending and runnable at once. Else no record and
/// no queue entry changes.
pub proof fn a_signal_wakes_exactly_who_waits_for_it(
    store: Store,
    id: RunId,
    name: Seq<char>,
    payload: JsonView,
    now: Timestamp,
    entry_id: u128,
)
    requires
        store.wf(),
        store.has_run(id),
    ensures
        ({
            let after = store.signalled(id, name, payload, now, entry_id);
            let run = store.run(id);
            let waits = run.status is WaitingSignal && (run.waiting matches Some(
                WaitView::Signal { name: own, .. },
            ) && own == name);
            &&& after.inbox(id) == store.inbox(id).push(
                SignalView { run_id: id, name, payload, created_at: now, consumed: false },
            )
            &&& after.log(id).len() == store.log(id).len() + 1
            &&& after.log(id).last().kind is SignalReceived
            &&& after.log(id).last().at == now
            &&& after.log(id).last().payload.member("name"@) == Some(JsonView::String(name))
            &&& waits ==> {
                &&& after.run(id) == (RunView {
                    status: crate::run::RunStatus::Pending,
                    waiting: None,
                    updated_at: now,
                    ..run
                })
                &&& after.queue == store.queue.push(
                    QueueEntry { entry_id, run_id: id, ready_at: now, leased_until: None },
                )
            }
            &&& !waits ==> after.runs == store.runs && after.queue == store.queue
        }),
{
    assert(store.runs.contains_key(id.value));
    let list = crate::decide::signalling(id, name, payload, now);
    super::lemma_two(store, list);
    let told = store.apply_all(list);
    super::lemma_two(told, crate::decide::waking(store.run(id), entry_id, now));
}

/// An answer to an approval request is put into the inbox under the approvals' own name, with
/// the call and the decision in its payload, and logged alike; it wakes the run exactly where
/// that is parked on approval.
pub proof fn an_answer_wakes_exactly_who_waits_for_approval(
    store: Store,
    id: RunId,
    resolution: ApprovalResolutionView,
    now: Timestamp,
    entry_id: u128,
)
    requires
        store.wf(),
        store.has_run(id),
    ensures
        ({
            let after = store.approved(id, resolution, now, entry_id);
            let run = store.run(id);
            let payload = after.inbox(id).last().payload;
            let said = match resolution.decision {
                ApprovalDecision::Allow => "allow"@,
                ApprovalDecision::AllowAlways => "allow_always"@,
                ApprovalDecision::Deny => "deny"@,
            };
            &&& after.inbox(id).len() == store.inbox(id).len() + 1
            &&& after.inbox(id).drop_last() == store.inbox(id)
            &&& after.inbox(id).last().name == APPROVAL_SIGNAL@
            &&& !after.inbox(id).last().consumed
            &&& payload.member("tool_call_id"@) == Some(
                JsonView::String(resolution.tool_call_id),
            )
            &&& payload.member("decision"@) == Some(JsonView::String(said))
            &&& after.log(id).len() == store.log(id).len() + 1
            &&& after.log(id).last().kind is ApprovalResolved
            &&& after.log(id).last().payload == payload
            &&& run.status is WaitingApproval ==> {
                &&& after.run(id) == (RunView {
                    status: crate::run::RunStatus::Pending,
                    waiting: None,
                    updated_at: now,
                    ..run
                })
                &&& after.queue == store.queue.push(
                    QueueEntry { entry_id, run_id: id, ready_at: now, leased_until: None },
                )
            }
            &&& !(run.status is WaitingApproval) ==> after.runs == store.runs && after.queue
                == store.queue
        }),
{
    reveal_strlit("tool_call_id");
    reveal_strlit("decision");
    assert("tool_call_id"@.len() == 12 && "decision"@.len() == 8);
    assert(store.runs.contains_key(id.value));
    let list = crate::decide::approving(id, resolution, now);
    super::lemma_two(store, list);
    let told = store.apply_all(list);
    super::lemma_two(told, crate::decide::waking(store.run(id), entry_id, now));
    let after = store.approved(id, resolution, now, entry_id);
    assert(after.inbox(id).drop_last() =~= store.inbox(id));
}

/// Who takes a signal is given the first of its name that nobody has taken; it is then taken,
/// and every other one is as it was. Nothing is given exactly where none of the name is left.
pub proof fn the_first_signal_is_taken(
    before: Store,
    id: RunId,
    name: Seq<char>,
    taken: Option<SignalView>,
    after: Store,
)
    requires
        signal_taken(before, id, name, taken, after),
    ensures
        taken is None ==> after == before && forall|i: int|
            0 <= i < before.inbox(id).len() ==> (#[trigger] before.inbox(id)[i]).consumed
                || before.inbox(id)[i].name != name,
        taken matches Some(signal) ==> exists|i: int|
            {
                &&& 0 <= i < before.inbox(id).len()
                &&& !(#[trigger] before.inbox(id)[i]).consumed
                &&& before.inbox(id)[i].name == name
                &&& forall|j: int|
                    0 <= j < i ==> (#[trigger] before.inbox(id)[j]).consumed || before.inbox(
                        id,
                    )[j].name != name
                &&& signal.payload == before.inbox(id)[i].payload
                &&& signal.name == name
                &&& signal.created_at == before.inbox(id)[i].created_at
                &&& after.inbox(id) == before.inbox(id).update(
                    i,
                    SignalView { consumed: true, ..before.inbox(id)[i] },
                )
                &&& after == (Store { signals: after.signals, ..before })
            },
{
    match taken {
        None => {
            assert forall|i: int| 0 <= i < before.inbox(id).len() implies (
            #[trigger] before.inbox(id)[i]).consumed || before.inbox(id)[i].name != name by {
                if !before.inbox(id)[i].consumed && before.inbox(id)[i].name == name {
                    assert(before.waits(id, name, i));
                }
            }
        },
        Some(signal) => {
            let i = choose|i: int|
                {
                    &&& #[trigger] before.earliest(id, name, i)
                    &&& after == before.consume(id, i)
                    &&& signal == after.inbox(id)[i]
                };
            assert(before.waits(id, name, i));
            assert forall|j: int| 0 <= j < i implies (#[trigger] before.inbox(id)[j]).consumed
                || before.inbox(id)[j].name != name by {
                if !before.inbox(id)[j].consumed && before.inbox(id)[j].name == name {
                    assert(before.waits(id, name, j));
                }
            }
            assert(!before.inbox(id)[i].consumed);
        },
    }
}

/// What waits in an inbox under a name are the payloads of the signals of that name that nobody
/// has taken, in the order of their delivery.
pub proof fn what_waits_is_what_nobody_took(inbox: Seq<SignalView>, name: Seq<char>)
    ensures
        pending_payloads(inbox, name) == inbox.filter(
            |s: SignalView| !s.consumed && s.name == name,
        ).map_values(|s: SignalView| s.payload),
    decreases inbox.len(),
{
    let waits = |s: SignalView| !s.consumed && s.name == name;
    let payload = |s: SignalView| s.payload;
    if inbox.len() == 0 {
        reveal(Seq::filter);
        assert(inbox.filter(waits).map_values(payload) =~= Seq::<JsonView>::empty());
    } else {
        let head = seq![inbox[0]];
        let rest = inbox.skip(1);
        what_waits_is_what_nobody_took(rest, name);
        assert(inbox =~= head + rest);
        Seq::filter_distributes_over_add(head, rest, waits);
        assert(head.filter(waits) =~= if waits(inbox[0]) {
            head
        } else {
            Seq::<SignalView>::empty()
        }) by {
            reveal(Seq::filter);
            assert(head.drop_last() =~= Seq::<SignalView>::empty());
            assert(head.drop_last().filter(waits) =~= Seq::<SignalView>::empty());
        }
        assert(inbox.filter(waits).map_values(payload) =~= head.filter(waits).map_values(payload)
            + rest.filter(waits).map_values(payload));
        if waits(inbox[0]) {
            assert(head.map_values(payload) =~= seq![inbox[0].payload]);
        } else {
            assert(pending_payloads(inbox, name) =~= pending_payloads(rest, name));
        }
    }
}

/// Draining an inbox takes every signal of a name and none of another, and keeps each in its
/// place with its payload.
pub proof fn draining_takes_every_signal_of_a_name(
    inbox: Seq<SignalView>,
    name: Seq<char>,
    i: int,
)
    requires
        0 <= i < inbox.len(),
    ensures
        drained(inbox, name).len() == inbox.len(),
        inbox[i].name == name ==> drained(inbox, name)[i].consumed,
        inbox[i].name != name ==> drained(inbox, name)[i] == inbox[i],
        drained(inbox, name)[i].payload == inbox[i].payload,
        drained(inbox, name)[i].name == inbox[i].name,
{
}

/// When the approvals of a run have been taken, none is left to be taken again, and the signals
/// of other names wait as they did.
pub proof fn approvals_are_taken_once(store: Store, id: RunId, other: Seq<char>)
    ensures
        !crate::driver::approvals_drained(store, id).has_signal(id, APPROVAL_SIGNAL@),
        other != APPROVAL_SIGNAL@ ==> crate::driver::approvals_drained(store, id).has_signal(
            id,
            other,
        ) == store.has_signal(id, other),
{
    let after = crate::driver::approvals_drained(store, id);
    if after.has_signal(id, APPROVAL_SIGNAL@) {
        let i = choose|i: int| #[trigger] after.waits(id, APPROVAL_SIGNAL@, i);
        assert(after.inbox(id)[i].name == APPROVAL_SIGNAL@);
    }
    if other != APPROVAL_SIGNAL@ {
        if after.has_signal(id, other) {
            let i = choose|i: int| #[trigger] after.waits(id, other, i);
            assert(store.waits(id, other, i));
        }
        if store.has_signal(id, other) {
            let i = choose|i: int| #[trigger] store.waits(id, other, i);
            assert(after.waits(id, other, i));
        }
    }
}

/// Looking again wakes a run exactly where a signal of the name waits and the run has not ended.
pub proof fn looking_again_wakes_only_for_a_signal(
    store: Store,
    id: RunId,
    name: Seq<char>,
    now: Timestamp,
    entry_id: u128,
)
    requires
        store.wf(),
        store.has_run(id),
    ensures
        ({
            let after = store.looked_again(id, name, now, entry_id);
            let run = store.run(id);
            let ended = run.status is Completed || run.status is Failed || run.status is Cancelled;
            let waits = pending_payloads(store.inbox(id), name).len() > 0;
            &&& waits && !ended ==> {
                &&& after.run(id).status is Pending
                &&& after.queue.len() == store.queue.len() + 1
                &&& after.queue.last().run_id == id
                &&& after.queue.last().ready_at == now
            }
            &&& !waits || ended ==> after == store
            &&& after.signals == store.signals
        }),
{
    super::lemma_two(store, crate::decide::waking(store.run(id), entry_id, now));
    assert(store.has_signal(id, name) == (pending_payloads(store.inbox(id), name).len() > 0)) by {
        if store.has_signal(id, name) {
            let i = choose|i: int| #[trigger] store.waits(id, name, i);
            lemma_waits(store.inbox(id), name, i);
        }
        if pending_payloads(store.inbox(id), name).len() > 0 {
            let i = super::drivers::lemma_some_payload(store.inbox(id), name);
            assert(store.waits(id, name, i));
        }
    }
}

/// Where a signal waits, so does its payload.
proof fn lemma_waits(inbox: Seq<SignalView>, name: Seq<char>, i: int)
    requires
        0 <= i < inbox.len(),
        !inbox[i].consumed,
        inbox[i].name == name,
    ensures
        pending_payloads(inbox, name).len() > 0,
    decreases inbox.len(),
{
    if i > 0 {
        assert(inbox.skip(1)[i - 1] == inbox[i]);
        lemma_waits(inbox.skip(1), name, i - 1);
    }
}

/// Where an answer cannot be read, it and those before it are taken, and those after it wait.
pub proof fn an_unreadable_answer_is_taken(before: Store, id: RunId, after: Store)
    requires
        crate::driver::approvals_stopped(before, id, after),
    ensures
        ({
            let waited = pending_payloads(before.inbox(id), APPROVAL_SIGNAL@);
            let waiting = pending_payloads(after.inbox(id), APPROVAL_SIGNAL@);
            let taken = waited.len() - waiting.len();
            &&& taken > 0
            &&& waiting == waited.skip(taken)
            &&& ApprovalResolutionView::of_payload(waited[taken - 1]) is None
            &&& forall|j: int|
                0 <= j < taken - 1 ==> ApprovalResolutionView::of_payload(
                    #[trigger] waited[j],
                ) is Some
        }),
{
    let waited = pending_payloads(before.inbox(id), APPROVAL_SIGNAL@);
    let k = choose|k: int|
        {
            &&& #[trigger] crate::driver::first_undecoded(waited, k)
            &&& after == crate::driver::approvals_taken(before, id, (k + 1) as nat)
        };
    the_first_ones_are_taken(before.inbox(id), APPROVAL_SIGNAL@, (k + 1) as nat);
}

/// Taking some of the signals of a name takes the first ones: what waits afterwards is what
/// waited before without as many from its beginning.
pub proof fn the_first_ones_are_taken(inbox: Seq<SignalView>, name: Seq<char>, n: nat)
    requires
        n <= pending_payloads(inbox, name).len(),
    ensures
        consumed_first(inbox, name, n).len() == inbox.len(),
        pending_payloads(consumed_first(inbox, name, n), name) == pending_payloads(
            inbox,
            name,
        ).skip(n as int),
    decreases inbox.len(),
{
    let after = consumed_first(inbox, name, n);
    let all = pending_payloads(inbox, name);
    if inbox.len() == 0 || n == 0 {
        assert(all.skip(0) =~= all);
    } else if !inbox[0].consumed && inbox[0].name == name {
        let rest = inbox.skip(1);
        the_first_ones_are_taken(rest, name, (n - 1) as nat);
        assert(after.skip(1) =~= consumed_first(rest, name, (n - 1) as nat));
        assert(all.skip(n as int) =~= pending_payloads(rest, name).skip(n - 1));
        assert(after[0].consumed);
    } else {
        let rest = inbox.skip(1);
        the_first_ones_are_taken(rest, name, n);
        assert(after.skip(1) =~= consumed_first(rest, name, n));
        assert(after[0] == inbox[0]);
    }
}

/// An answer is read from its payload: the call from the member of that name, the decision from
/// its text. What has another decision, or no call, is no answer.
pub proof fn an_answer_is_read_from_its_payload(payload: JsonView, call: Seq<char>)
    requires
        payload.member("tool_call_id"@) == Some(JsonView::String(call)),
    ensures
        payload.member("decision"@) == Some(JsonView::String("allow"@))
            ==> ApprovalResolutionView::of_payload(payload) == Some(
            ApprovalResolutionView { tool_call_id: call, decision: ApprovalDecision::Allow },
        ),
        payload.member("decision"@) == Some(JsonView::String("allow_always"@))
            ==> ApprovalResolutionView::of_payload(payload) == Some(
            ApprovalResolutionView { tool_call_id: call, decision: ApprovalDecision::AllowAlways },
        ),
        payload.member("decision"@) == Some(JsonView::String("deny"@))
            ==> ApprovalResolutionView::of_payload(payload) == Some(
            ApprovalResolutionView { tool_call_id: call, decision: ApprovalDecision::Deny },
        ),
        payload.member("decision"@) is None ==> ApprovalResolutionView::of_payload(payload)
            is None,
{
    reveal_strlit("allow");
    reveal_strlit("allow_always");
    reveal_strlit("deny");
    assert("allow"@.len() == 5 && "allow_always"@.len() == 12 && "deny"@.len() == 4);
}

// ---- resources and artifacts ---------------------------------------------------

/// A resource that a run leases is filed as its own and active, with its kind, its metadata and
/// the end of its lease, and the log of the run says so.
pub proof fn a_leased_resource_is_active(
    store: Store,
    id: ResourceId,
    run_id: RunId,
    kind: ResourceKind,
    metadata: JsonView,
    lease_expires_at: Option<Timestamp>,
    at: Timestamp,
    k: u128,
)
    ensures
        ({
            let resource = leased(id, run_id, kind, metadata, lease_expires_at, at);
            let after = resource_leased(store, resource, at);
            let kept = after.resources[id.value];
            let log = after.log(run_id);
            &&& after.resources.contains_key(id.value)
            &&& kept.id == id
            &&& kept.run_id == run_id
            &&& kept.kind == kind
            &&& kept.status is Active
            &&& kept.metadata == metadata
            &&& kept.lease_expires_at == lease_expires_at
            &&& kept.created_at == at
            &&& log.len() == store.log(run_id).len() + 1
            &&& log.last().kind is ResourceLeased
            &&& log.last().payload.member("resource_id"@) == Some(
                JsonView::String(crate::ids::uuid_hyphenated(id.value)),
            )
            &&& k != id.value ==> after.resources.contains_key(k) == store.resources.contains_key(
                k,
            ) && after.resources[k] == store.resources[k]
        }),
{
    reveal_strlit("resource_id");
    reveal_strlit("kind");
    assert("resource_id"@.len() == 11 && "kind"@.len() == 4);
}

/// A resource that is released is no longer active and keeps the rest of its record; no other
/// resource is touched, and the log says so.
pub proof fn a_released_resource_is_released(
    store: Store,
    run_id: RunId,
    id: ResourceId,
    at: Timestamp,
    k: u128,
)
    ensures
        ({
            let after = resource_released(store, run_id, id, at);
            let log = after.log(run_id);
            &&& store.resources.contains_key(id.value) ==> after.resources[id.value] == (
            ResourceView { status: ResourceStatus::Released, ..store.resources[id.value] })
            &&& after.resources.dom() == store.resources.dom()
            &&& k != id.value ==> after.resources[k] == store.resources[k]
            &&& log.len() == store.log(run_id).len() + 1
            &&& log.last().kind is ResourceReleased
            &&& log.last().payload.member("resource_id"@) == Some(
                JsonView::String(crate::ids::uuid_hyphenated(id.value)),
            )
        }),
{
    let after = resource_released(store, run_id, id, at);
    assert(after.resources.dom() =~= store.resources.dom());
}

/// A heartbeat moves the end of a lease and nothing else; of a resource that is not there it
/// makes nothing.
pub proof fn a_heartbeat_moves_the_end_of_a_lease(
    store: Store,
    id: ResourceId,
    until: Timestamp,
    k: u128,
)
    ensures
        ({
            let after = store.extend_lease(id, until);
            &&& store.resources.contains_key(id.value) ==> after.resources[id.value] == (
            ResourceView { lease_expires_at: Some(until), ..store.resources[id.value] })
            &&& !store.resources.contains_key(id.value) ==> after == store
            &&& k != id.value ==> after.resources.contains_key(k) == store.resources.contains_key(
                k,
            ) && after.resources[k] == store.resources[k]
            &&& after.events == store.events
        }),
{
}

/// The resources of a run are listed each once: exactly those that it leased, as they are in
/// the store.
pub proof fn resources_are_listed_once(
    store: Store,
    run_id: RunId,
    list: Seq<ResourceView>,
    k: u128,
    i: int,
    j: int,
)
    requires
        store.lists_resources(run_id, list),
        0 <= i < j < list.len(),
    ensures
        store.resources.contains_key(k) && store.resources[k].run_id == run_id ==> list.contains(
            store.resources[k],
        ),
        list[i].run_id == run_id,
        store.resources.contains_key(list[i].id.value),
        store.resources[list[i].id.value] == list[i],
        list[i].id != list[j].id,
{
}

/// An artifact that a run produces is the last on its shelf, with its kind, its place and its
/// metadata, and the log says so; what the shelf held stays before it, and no other shelf is
/// touched.
pub proof fn an_artifact_is_put_on_the_shelf(
    store: Store,
    id: ArtifactId,
    run_id: RunId,
    kind: Seq<char>,
    uri: Seq<char>,
    metadata: JsonView,
    at: Timestamp,
    other: RunId,
)
    ensures
        ({
            let artifact = produced(id, run_id, kind, uri, metadata, at);
            let after = artifact_recorded(store, artifact, at);
            let log = after.log(run_id);
            &&& after.shelf(run_id) == store.shelf(run_id).push(
                ArtifactView { id, run_id, kind, uri, metadata, created_at: at },
            )
            &&& other != run_id ==> after.shelf(other) == store.shelf(other)
            &&& log.len() == store.log(run_id).len() + 1
            &&& log.last().kind is ArtifactCreated
            &&& log.last().payload.member("artifact_id"@) == Some(
                JsonView::String(crate::ids::uuid_hyphenated(id.value)),
            )
            &&& log.last().payload.member("kind"@) == Some(JsonView::String(kind))
        }),
{
    reveal_strlit("artifact_id");
    reveal_strlit("kind");
    assert("artifact_id"@.len() == 11 && "kind"@.len() == 4);
}

} // verus!
