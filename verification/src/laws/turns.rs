//! What comes of a turn: how each answer of a driver settles its run.

use vstd::prelude::*;

use crate::budget::BudgetUsage;
use crate::decide::{settling, FreshIds};
use crate::driver::{AdvanceView, ApprovalRequestView, ChildSpecView, TurnView};
use crate::engine::{
    counts, driven, handed, timed_out, turn_taken, undriven, ClockRelation, DriverRelation,
};
use crate::error::ErrorView;
use crate::ids::RunId;
use crate::json::JsonView;
use crate::laws::{lemma_few, lemma_two};
use crate::run::{JoinMode, RunView, WaitView};
use crate::signal::APPROVAL_SIGNAL;
use crate::store::{QueueEntry, Store};
use crate::time::{Duration, Timestamp};

verus! {

pub(crate) proof fn lemma_settled_record(
    store: Store,
    run: RunView,
    delta: BudgetUsage,
    advanced: Result<AdvanceView, ErrorView>,
    now: Timestamp,
    fresh: FreshIds,
)
    requires
        store.has_run(run.id),
        run.parent_id is None,
        !(advanced matches Ok(advance) && advance is SpawnChildren),
    ensures
        store.turn_settled(run, delta, advanced, now, fresh).run(run.id).usage == run.usage.sum(
            delta,
        ),
{
    let counted = run.charged(delta);
    let list = match advanced {
        Err(e) => crate::decide::failing(counted, e.text(), now),
        Ok(advance) => match counted.breach(now) {
            Some(report) => crate::decide::failing(
                counted,
                crate::budget::Budget::exceeded(report),
                now,
            ),
            None => settling(
                counted,
                advance,
                store.arrived(run.id, advance),
                now,
                fresh.entry,
                fresh.children@,
            ),
        },
    };
    reveal_with_fuel(Store::apply_all, 4);
    if list.len() > 0 {
        assert(list.last() == list[list.len() - 1]);
    }
    if list.len() == 3 {
        assert(list.drop_last().last() == list[1]);
        assert(list.drop_last().drop_last().last() == list[0]);
        assert(list.drop_last().drop_last().drop_last() =~= Seq::empty());
    } else if list.len() == 2 {
        lemma_two(store, list);
    } else {
        lemma_few(store, list);
    }
}

/// A driver that wants to go on, or to be tried again, keeps its run going: the run is
/// pending, it waits for nothing, and one more queue entry makes it runnable at once. Nothing
/// else is touched.
pub proof fn a_run_that_goes_on_is_queued_again(
    store: Store,
    run: RunView,
    delta: BudgetUsage,
    advance: AdvanceView,
    now: Timestamp,
    fresh: FreshIds,
)
    requires
        store.has_run(run.id),
        run.charged(delta).breach(now) is None,
        advance is Continue || (advance matches AdvanceView::Fail { retry, .. } && retry),
    ensures
        ({
            let after = store.turn_settled(
                run,
                delta,
                Ok::<AdvanceView, ErrorView>(advance),
                now,
                fresh,
            );
            let kept = after.run(run.id);
            &&& kept.status is Pending
            &&& kept.waiting is None
            &&& kept.updated_at == now
            &&& kept.error == run.error
            &&& kept.output == run.output
            &&& kept.agent_type == run.agent_type
            &&& kept.goal == run.goal
            &&& kept.input == run.input
            &&& kept.session_ref == run.session_ref
            &&& kept.budget == run.budget
            &&& kept.parent_id == run.parent_id
            &&& kept.created_at == run.created_at
            &&& after.queue == store.queue.push(
                QueueEntry {
                    entry_id: fresh.entry,
                    run_id: run.id,
                    ready_at: now,
                    leased_until: None,
                },
            )
            &&& after.runs.remove(run.id.value) == store.runs.remove(run.id.value)
            &&& after.events == store.events
            &&& after.signals == store.signals
            &&& after.steps == store.steps
        }),
{
    let counted = run.charged(delta);
    let list = settling(counted, advance, false, now, fresh.entry, fresh.children@);
    lemma_two(store, list);
    let after = store.apply_all(list);
    assert(after.runs.remove(run.id.value) =~= store.runs.remove(run.id.value));
}

/// A driver that fails its run for good fails it: the run has the driver's message, it waits
/// for nothing, its log ends with the failure, and nothing makes it runnable again. The parent
/// is told.
pub proof fn a_failure_for_good_is_final(
    store: Store,
    run: RunView,
    delta: BudgetUsage,
    error: Seq<char>,
    now: Timestamp,
    fresh: FreshIds,
)
    requires
        store.has_run(run.id),
        run.charged(delta).breach(now) is None,
    ensures
        ({
            let wanted = AdvanceView::Fail { error, retry: false };
            let after = store.turn_settled(
                run,
                delta,
                Ok::<AdvanceView, ErrorView>(wanted),
                now,
                fresh,
            );
            let written = store.apply_all(
                settling(
                    run.charged(delta),
                    wanted,
                    false,
                    now,
                    fresh.entry,
                    fresh.children@,
                ),
            );
            let kept = written.run(run.id);
            let log = written.log(run.id);
            &&& kept.status is Failed
            &&& kept.error == Some(error)
            &&& kept.output == run.output
            &&& kept.waiting is None
            &&& log.len() == store.log(run.id).len() + 1
            &&& log.last().kind is RunFailed
            &&& log.last().at == now
            &&& log.last().payload.member("error"@) == Some(JsonView::String(error))
            &&& written.queue == store.queue
            &&& run.parent_id is None ==> after == written
            &&& run.parent_id matches Some(p) ==> after == written.child_reported(
                p,
                now,
                fresh.second_entry,
            )
        }),
{
    let wanted = AdvanceView::Fail { error, retry: false };
    lemma_two(
        store,
        settling(run.charged(delta), wanted, false, now, fresh.entry, fresh.children@),
    );
}

/// A driver that completes its run leaves the output in it, ends its log with that, and tells
/// the parent; nothing makes the run runnable again.
pub proof fn a_completion_is_final(
    store: Store,
    run: RunView,
    delta: BudgetUsage,
    output: JsonView,
    now: Timestamp,
    fresh: FreshIds,
)
    requires
        store.has_run(run.id),
        run.charged(delta).breach(now) is None,
    ensures
        ({
            let wanted = AdvanceView::Complete { output };
            let after = store.turn_settled(
                run,
                delta,
                Ok::<AdvanceView, ErrorView>(wanted),
                now,
                fresh,
            );
            let written = store.apply_all(
                settling(
                    run.charged(delta),
                    wanted,
                    false,
                    now,
                    fresh.entry,
                    fresh.children@,
                ),
            );
            let kept = written.run(run.id);
            let log = written.log(run.id);
            &&& kept.status is Completed
            &&& kept.output == Some(output)
            &&& kept.error == run.error
            &&& kept.waiting is None
            &&& kept.updated_at == now
            &&& log.len() == store.log(run.id).len() + 1
            &&& log.last().kind is RunCompleted
            &&& log.last().at == now
            &&& written.queue == store.queue
            &&& run.parent_id is None ==> after == written
            &&& run.parent_id matches Some(p) ==> after == written.child_reported(
                p,
                now,
                fresh.second_entry,
            )
        }),
{
    let wanted = AdvanceView::Complete { output };
    lemma_two(
        store,
        settling(run.charged(delta), wanted, false, now, fresh.entry, fresh.children@),
    );
}

/// A driver that waits for an approval parks its run on it: the log tells the call, the summary
/// and the risk as the request has them, and nothing makes the run runnable but an answer. An
/// answer that is there already keeps the run going instead.
pub proof fn an_approval_is_asked_for(
    store: Store,
    run: RunView,
    delta: BudgetUsage,
    request: ApprovalRequestView,
    now: Timestamp,
    fresh: FreshIds,
)
    requires
        store.has_run(run.id),
        run.charged(delta).breach(now) is None,
    ensures
        ({
            let after = store.turn_settled(
                run,
                delta,
                Ok::<AdvanceView, ErrorView>(AdvanceView::WaitForApproval { request }),
                now,
                fresh,
            );
            let kept = after.run(run.id);
            let log = after.log(run.id);
            &&& !store.has_signal(run.id, APPROVAL_SIGNAL@) ==> {
                &&& kept.status is WaitingApproval
                &&& kept.waiting == Some(WaitView::Approval)
                &&& after.queue == store.queue
                &&& log.len() == store.log(run.id).len() + 1
                &&& log.last().kind is ApprovalRequested
                &&& log.last().at == now
                &&& log.last().payload.member("tool_call_id"@) == Some(
                    JsonView::String(request.tool_call_id),
                )
                &&& log.last().payload.member("summary"@) == Some(
                    JsonView::String(request.summary),
                )
                &&& log.last().payload.member("risk"@) == Some(JsonView::String(request.risk))
            }
            &&& store.has_signal(run.id, APPROVAL_SIGNAL@) ==> {
                &&& kept.status is Pending
                &&& kept.waiting is None
                &&& after.events == store.events
                &&& after.queue.len() == store.queue.len() + 1
                &&& after.queue.last().run_id == run.id
                &&& after.queue.last().ready_at == now
                &&& after.queue.last().leased_until is None
            }
        }),
{
    reveal_strlit("tool_call_id");
    reveal_strlit("summary");
    reveal_strlit("risk");
    assert("tool_call_id"@.len() == 12 && "summary"@.len() == 7 && "risk"@.len() == 4);
    let wanted = AdvanceView::WaitForApproval { request };
    lemma_two(
        store,
        settling(
            run.charged(delta),
            wanted,
            store.arrived(run.id, wanted),
            now,
            fresh.entry,
            fresh.children@,
        ),
    );
}

/// A driver that waits for a signal parks its run on that signal. With a timeout one queue
/// entry makes the run runnable when that much time has passed, and the run knows the instant;
/// without one nothing makes it runnable but the signal. A signal that is there already keeps
/// the run going instead.
pub proof fn a_signal_is_waited_for(
    store: Store,
    run: RunView,
    delta: BudgetUsage,
    name: Seq<char>,
    timeout: Option<Duration>,
    now: Timestamp,
    fresh: FreshIds,
)
    requires
        store.has_run(run.id),
        run.charged(delta).breach(now) is None,
        timeout matches Some(span) ==> now.nanos + span.nanos <= i128::MAX,
    ensures
        ({
            let after = store.turn_settled(
                run,
                delta,
                Ok::<AdvanceView, ErrorView>(AdvanceView::WaitForSignal { name, timeout }),
                now,
                fresh,
            );
            let kept = after.run(run.id);
            &&& !store.has_signal(run.id, name) ==> {
                &&& kept.status is WaitingSignal
                &&& after.events == store.events
                &&& timeout is None ==> {
                    &&& kept.waiting == Some(WaitView::Signal { name, deadline: None })
                    &&& after.queue == store.queue
                }
                &&& timeout matches Some(span) ==> {
                    let due = Timestamp { nanos: (now.nanos + span.nanos) as i128 };
                    &&& kept.waiting == Some(WaitView::Signal { name, deadline: Some(due) })
                    &&& after.queue == store.queue.push(
                        QueueEntry {
                            entry_id: fresh.entry,
                            run_id: run.id,
                            ready_at: due,
                            leased_until: None,
                        },
                    )
                }
            }
            &&& store.has_signal(run.id, name) ==> {
                &&& kept.status is Pending
                &&& kept.waiting is None
                &&& after.queue.len() == store.queue.len() + 1
                &&& after.queue.last().run_id == run.id
                &&& after.queue.last().ready_at == now
                &&& after.queue.last().leased_until is None
            }
        }),
{
    let wanted = AdvanceView::WaitForSignal { name, timeout };
    let list = settling(
        run.charged(delta),
        wanted,
        store.arrived(run.id, wanted),
        now,
        fresh.entry,
        fresh.children@,
    );
    lemma_few(store, list);
}

/// A driver that sleeps parks its run on a timer: one queue entry makes it runnable at the
/// instant it asked for, and the log tells that a timer was set.
pub proof fn a_sleep_sets_a_timer(
    store: Store,
    run: RunView,
    delta: BudgetUsage,
    until: Timestamp,
    now: Timestamp,
    fresh: FreshIds,
)
    requires
        store.has_run(run.id),
        run.charged(delta).breach(now) is None,
    ensures
        ({
            let after = store.turn_settled(
                run,
                delta,
                Ok::<AdvanceView, ErrorView>(AdvanceView::Sleep { until }),
                now,
                fresh,
            );
            let kept = after.run(run.id);
            let log = after.log(run.id);
            &&& kept.status is WaitingTimer
            &&& kept.waiting == Some(WaitView::Timer)
            &&& after.queue == store.queue.push(
                QueueEntry {
                    entry_id: fresh.entry,
                    run_id: run.id,
                    ready_at: until,
                    leased_until: None,
                },
            )
            &&& log.len() == store.log(run.id).len() + 1
            &&& log.last().kind is TimerSet
            &&& log.last().at == now
            &&& log.last().payload.member("until"@) == Some(
                match until.rfc3339() {
                    Some(text) => JsonView::String(text),
                    None => JsonView::Null,
                },
            )
        }),
{
    let list = settling(
        run.charged(delta),
        AdvanceView::Sleep { until },
        false,
        now,
        fresh.entry,
        fresh.children@,
    );
    reveal_with_fuel(Store::apply_all, 4);
    assert(list.drop_last().drop_last().drop_last() =~= Seq::empty());
    assert(list.drop_last().drop_last().last() == list[0]);
    assert(list.drop_last().last() == list[1]);
}

/// Whether the child `i` gets another id than `id`.
pub open spec fn born_elsewhere(ids: Seq<u128>, i: int, id: RunId) -> bool {
    ids[2 * i] != id.value
}

/// A driver that spawns children parks its run until they are joined as it asked for: the run
/// is charged one child for each and knows the mode of the join, its log ends with the ids of
/// the children in their order, and no queue entry is added for the run itself. The children
/// must have ids of their own.
pub proof fn spawning_parks_the_parent(
    store: Store,
    run: RunView,
    delta: BudgetUsage,
    specs: Seq<ChildSpecView>,
    join: JoinMode,
    now: Timestamp,
    fresh: FreshIds,
)
    requires
        store.has_run(run.id),
        run.charged(delta).breach(now) is None,
        run.usage.children + delta.children + specs.len() <= u64::MAX,
        run.budget.max_children matches Some(max) ==> run.usage.children + delta.children
            + specs.len() <= max,
        forall|i: int|
            0 <= i < specs.len() ==> #[trigger] born_elsewhere(fresh.children@, i, run.id),
    ensures
        ({
            let after = store.turn_settled(
                run,
                delta,
                Ok::<AdvanceView, ErrorView>(AdvanceView::SpawnChildren { specs, join }),
                now,
                fresh,
            );
            let kept = after.run(run.id);
            let log = after.log(run.id);
            let listed = log.last().payload.member("children"@);
            &&& kept.status is WaitingSignal
            &&& kept.waiting == Some(WaitView::ChildJoin { mode: join })
            &&& kept.usage.children as int == run.usage.children + delta.children + specs.len()
            &&& kept.usage.tokens == run.charged(delta).usage.tokens
            &&& kept.usage.tool_calls == run.charged(delta).usage.tool_calls
            &&& log.len() == store.log(run.id).len() + 1
            &&& log.last().kind is ChildRunSpawned
            &&& listed matches Some(JsonView::Array(names)) && names.len() == specs.len()
                && forall|i: int|
                0 <= i < specs.len() ==> #[trigger] names[i] == JsonView::String(
                    crate::ids::uuid_hyphenated(fresh.children@[2 * i]),
                )
            &&& after.queue.len() == store.queue.len() + specs.len()
        }),
{
    let counted = run.charged(delta);
    let wanted = AdvanceView::SpawnChildren { specs, join };
    let paid = crate::decide::settled_run(counted, wanted);
    let births = crate::decide::births(paid, specs, fresh.children@, now);
    super::budgets::a_budget_is_breached_by_more_than_it_allows(counted.budget, counted.usage);
    super::budgets::a_budget_is_breached_by_more_than_it_allows(paid.budget, paid.usage);
    let list = settling(counted, wanted, false, now, fresh.entry, fresh.children@);
    let tail = seq![list[list.len() - 2], list[list.len() - 1]];
    assert(list =~= births + tail);
    super::lemma_apply_joined(store, births, tail);
    let born = store.apply_all(births);
    lemma_two(born, tail);
    lemma_births_elsewhere(store, paid, specs, fresh.children@, now, run.id);
}

/// Spawning past the limit on children fails the run, and no child is born.
pub proof fn spawning_past_the_limit_fails_the_run(
    store: Store,
    run: RunView,
    delta: BudgetUsage,
    specs: Seq<ChildSpecView>,
    join: JoinMode,
    now: Timestamp,
    fresh: FreshIds,
    max: u64,
)
    requires
        store.wf(),
        store.has_run(run.id),
        run.parent_id is None,
        run.charged(delta).breach(now) is None,
        run.usage.children + delta.children + specs.len() <= u64::MAX,
        run.budget.max_children == Some(max),
        run.usage.children + delta.children + specs.len() > max,
    ensures
        ({
            let after = store.turn_settled(
                run,
                delta,
                Ok::<AdvanceView, ErrorView>(AdvanceView::SpawnChildren { specs, join }),
                now,
                fresh,
            );
            &&& after.run(run.id).status is Failed
            &&& after.run(run.id).waiting is None
            &&& after.run(run.id).error == Some(
                "budget exceeded: "@ + ("children "@ + crate::text::decimal(
                    (run.usage.children + delta.children + specs.len()) as nat,
                ) + " > "@ + crate::text::decimal(max as nat)),
            )
            &&& after.runs.dom() == store.runs.dom()
            &&& after.queue == store.queue
        }),
{
    let counted = run.charged(delta);
    let wanted = AdvanceView::SpawnChildren { specs, join };
    let paid = crate::decide::settled_run(counted, wanted);
    super::budgets::a_budget_is_breached_by_more_than_it_allows(counted.budget, counted.usage);
    super::budgets::a_report_names_the_first_breach(paid.budget, paid.usage);
    let list = settling(counted, wanted, false, now, fresh.entry, fresh.children@);
    lemma_two(store, list);
    assert(store.apply_all(list).runs.dom() =~= store.runs.dom());
}

proof fn lemma_births_elsewhere(
    store: Store,
    parent: RunView,
    specs: Seq<ChildSpecView>,
    ids: Seq<u128>,
    now: Timestamp,
    id: RunId,
)
    requires
        store.has_run(id),
        forall|i: int| 0 <= i < specs.len() ==> #[trigger] born_elsewhere(ids, i, id),
    ensures
        ({
            let after = store.apply_all(crate::decide::births(parent, specs, ids, now));
            &&& after.has_run(id)
            &&& after.run(id) == store.run(id)
            &&& after.log(id) == store.log(id)
            &&& after.queue.len() == store.queue.len() + specs.len()
        }),
    decreases specs.len(),
{
    if specs.len() > 0 {
        let front = specs.drop_last();
        let n = specs.len() - 1;
        lemma_births_elsewhere(store, parent, front, ids, now, id);
        let last = crate::decide::child_run(parent, specs.last(), ids[2 * n], now);
        let list = crate::decide::creation(last, ids[2 * n + 1], now);
        let births = crate::decide::births(parent, front, ids, now);
        super::lemma_apply_joined(store, births, list);
        let here = store.apply_all(births);
        reveal_with_fuel(Store::apply_all, 4);
        assert(list.drop_last().drop_last().drop_last() =~= Seq::empty());
        assert(list.drop_last().drop_last().last() == list[0]);
        assert(list.drop_last().last() == list[1]);
        assert(born_elsewhere(ids, n, id));
    }
}

/// A child is what its spec asks for: its agent type, goal, input and session are those of the
/// spec, its budget is its own or its parent's, its parent is the run that spawned it, and it
/// starts from nothing. The first entry of its log says what it is for.
pub proof fn a_child_is_what_its_spec_asks_for(
    store: Store,
    parent: RunView,
    specs: Seq<ChildSpecView>,
    ids: Seq<u128>,
    now: Timestamp,
    i: int,
)
    requires
        0 <= i < specs.len(),
        forall|a: int, b: int| 0 <= a < b < specs.len() ==> #[trigger] super::apart(ids, a, b),
    ensures
        ({
            let after = store.apply_all(crate::decide::births(parent, specs, ids, now));
            let child = after.run(RunId { value: ids[2 * i] });
            &&& after.has_run(RunId { value: ids[2 * i] })
            &&& child.id.value == ids[2 * i]
            &&& child.parent_id == Some(parent.id)
            &&& child.agent_type == specs[i].agent_type
            &&& child.goal == specs[i].goal
            &&& child.input == specs[i].input
            &&& child.session_ref == specs[i].session_ref
            &&& specs[i].budget matches Some(own) ==> child.budget == own
            &&& specs[i].budget is None ==> child.budget == parent.budget
            &&& child.usage.tokens == 0 && child.usage.tool_calls == 0 && child.usage.children == 0
                && child.usage.cost_usd.nanos == 0
            &&& child.status is Pending
            &&& child.waiting is None
            &&& child.output is None
            &&& child.error is None
            &&& child.created_at == now
            &&& child.updated_at == now
        }),
{
    super::every_child_is_born(store, parent, specs, ids, now, i);
}

/// A wait is over because of its deadline exactly where there is one, it has been reached, and
/// no signal of the name that was waited for is there to be taken.
pub proof fn a_wait_is_over_at_its_deadline(store: Store, run: RunView, now: Timestamp)
    ensures
        timed_out(store, run, now) <==> {
            &&& run.waiting matches Some(WaitView::Signal { name, deadline: Some(due) })
            &&& due.nanos <= now.nanos
            &&& forall|i: int|
                0 <= i < store.inbox(run.id).len() ==> (#[trigger] store.inbox(run.id)[i]).consumed
                    || store.inbox(run.id)[i].name != name
        },
{
    if let Some(WaitView::Signal { name, deadline: Some(due) }) = run.waiting {
        assert(store.has_signal(run.id, name) <==> !(forall|i: int|
            0 <= i < store.inbox(run.id).len() ==> (#[trigger] store.inbox(run.id)[i]).consumed
                || store.inbox(run.id)[i].name != name)) by {
            if store.has_signal(run.id, name) {
                let i = choose|i: int| #[trigger] store.waits(run.id, name, i);
                assert(!store.inbox(run.id)[i].consumed);
            } else if exists|i: int|
                0 <= i < store.inbox(run.id).len() && !(#[trigger] store.inbox(
                    run.id,
                )[i]).consumed && store.inbox(run.id)[i].name == name {
                let i = choose|i: int|
                    0 <= i < store.inbox(run.id).len() && !(#[trigger] store.inbox(
                        run.id,
                    )[i]).consumed && store.inbox(run.id)[i].name == name;
                assert(store.waits(run.id, name, i));
            }
        }
    }
}

/// A driver is handed its run as it is, but marked as running, here and in the store; nothing
/// is charged yet, and it is told whether a wait was over because of its deadline.
pub proof fn a_driver_is_handed_its_run(store: Store, run: RunView, now: Timestamp)
    ensures
        ({
            let given = handed(store, run, now);
            &&& given.run.status is Running
            &&& given.run.updated_at == now
            &&& given.run == (RunView {
                status: given.run.status,
                updated_at: given.run.updated_at,
                ..run
            })
            &&& given.store.run(run.id) == given.run
            &&& given.store.runs.remove(run.id.value) == store.runs.remove(run.id.value)
            &&& given.store == (Store { runs: given.store.runs, ..store })
            &&& given.charged.tokens == 0 && given.charged.tool_calls == 0
                && given.charged.children == 0 && given.charged.cost_usd.nanos == 0
            &&& given.late == timed_out(store, run, now)
        }),
{
    assert(handed(store, run, now).store.runs.remove(run.id.value) =~= store.runs.remove(
        run.id.value,
    ));
}

/// A turn of a run that is neither final nor held by another worker is taken by the driver for
/// its agent type: the driver is handed the run while this worker holds it for the length of a
/// lease, and what the driver answered is settled. When the turn is over nobody holds the run.
pub proof fn a_turn_is_taken_by_the_driver(
    reliable: bool,
    clock: ClockRelation,
    before: Store,
    id: RunId,
    now: Timestamp,
    lease_ttl: Duration,
    driver: DriverRelation,
    after: Store,
)
    requires
        before.wf(),
        before.has_run(id),
        turn_taken(reliable, clock, before, id, now, lease_ttl, Some(driver), after),
        !(before.run(id).status is Completed || before.run(id).status is Failed || before.run(
            id,
        ).status is Cancelled),
        !(before.fences.contains_key(id.value) && before.fences[id.value].nanos > now.nanos),
        now.nanos + lease_ttl.nanos <= i128::MAX,
    ensures
        exists|
            given: TurnView,
            left: TurnView,
            advanced: Result<AdvanceView, ErrorView>,
            later: Timestamp,
            fresh: FreshIds,
        |
            {
                &&& driver(given, left, advanced)
                &&& given.run.id == id
                &&& given.run.status is Running
                &&& given.run.waiting == before.run(id).waiting
                &&& given.store.fences.contains_key(id.value)
                &&& given.store.fences[id.value].nanos as int == now.nanos + lease_ttl.nanos
                &&& given.late == timed_out(before, before.run(id), now)
                &&& clock(later)
                &&& reliable ==> after == (#[trigger] left.store.turn_settled(
                    given.run,
                    left.charged,
                    advanced,
                    later,
                    fresh,
                )).unfence(id)
            },
        reliable ==> !after.fences.contains_key(id.value),
{
    let run = before.run(id);
    let fenced = before.fence(id, now.later(lease_ttl));
    assert(before.runs.contains_key(id.value));
    let turned = choose|turned: Store|
        {
            &&& #[trigger] crate::engine::turn_made(
                reliable,
                clock,
                fenced,
                run,
                now,
                Some(driver),
                turned,
            )
            &&& after == turned.unfence(id) || (!reliable && after == turned)
        };
    assert(driven(reliable, clock, fenced, run, now, driver, turned));
    let (left, advanced, later, fresh) = choose|
        left: TurnView,
        advanced: Result<AdvanceView, ErrorView>,
        later: Timestamp,
        fresh: FreshIds,
    |
        crate::engine::driven_by(
            reliable,
            clock,
            fenced,
            run,
            now,
            driver,
            left,
            advanced,
            later,
            fresh,
            turned,
        );
    let given = handed(fenced, run, now);
    assert(driver(given, left, advanced));
    a_wait_is_over_at_its_deadline(fenced, run, now);
    a_wait_is_over_at_its_deadline(before, run, now);
    assert(fenced.inbox(run.id) == before.inbox(run.id));
    let settled = left.store.turn_settled(given.run, left.charged, advanced, later, fresh);
    assert(reliable ==> after == settled.unfence(id));
}

/// A run for whose agent type there is no driver fails, and its error names the agent type.
pub proof fn a_run_without_a_driver_fails(
    reliable: bool,
    store: Store,
    run: RunView,
    now: Timestamp,
    after: Store,
)
    requires
        store.wf(),
        store.has_run(run.id),
        undriven(reliable, store, run, now, after),
    ensures
        after.run(run.id).status is Failed,
        after.run(run.id).error == Some(
            "no driver for agent_type "@ + crate::text::debug_quoted(run.agent_type),
        ),
{
    let message = crate::engine::no_driver_text(run.agent_type);
    let list = crate::decide::failing(run, message, now);
    lemma_two(store, list);
    let failed = store.apply_all(list);
    super::changes_keep_the_store_well_formed(store, list[0]);
    super::changes_keep_the_store_well_formed(store.apply(list[0]), list[1]);
    if exists|entry_id: u128|
        crate::ids::time_ordered(entry_id) && after == #[trigger] store.run_failed(
            run,
            message,
            now,
            entry_id,
        ) {
        let entry_id = choose|entry_id: u128|
            crate::ids::time_ordered(entry_id) && after == #[trigger] store.run_failed(
                run,
                message,
                now,
                entry_id,
            );
        if let Some(p) = run.parent_id {
            super::reporting_leaves_final_runs_alone(failed, p, now, entry_id, run.id.value);
        }
    }
}

/// Of the drivers for one agent type the one that was registered last counts, and none that is
/// registered for another type.
pub proof fn the_last_registered_driver_counts<D>(
    drivers: Seq<(String, D)>,
    agent_type: Seq<char>,
    i: int,
    j: int,
)
    requires
        0 <= i < drivers.len(),
        0 <= j < drivers.len(),
        counts(drivers, agent_type, i),
        drivers[j].0@ == agent_type,
    ensures
        drivers[i].0@ == agent_type,
        j <= i,
{
}

/// A signal is there exactly where the inbox has one of its name that nobody has taken.
pub proof fn an_inbox_has_a_signal_that_nobody_took(store: Store, id: RunId, name: Seq<char>)
    ensures
        store.has_signal(id, name) <==> exists|i: int|
            0 <= i < store.inbox(id).len() && (#[trigger] store.inbox(id)[i]).name == name
                && !store.inbox(id)[i].consumed,
{
    if store.has_signal(id, name) {
        let i = choose|i: int| #[trigger] store.waits(id, name, i);
        assert(store.inbox(id)[i].name == name);
    }
    if exists|i: int|
        0 <= i < store.inbox(id).len() && (#[trigger] store.inbox(id)[i]).name == name
            && !store.inbox(id)[i].consumed {
        let i = choose|i: int|
            0 <= i < store.inbox(id).len() && (#[trigger] store.inbox(id)[i]).name == name
                && !store.inbox(id)[i].consumed;
        assert(store.waits(id, name, i));
    }
}

} // verus!
