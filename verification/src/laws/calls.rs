//! What calls of the runtime's own operations come to, over the whole of what they take and
//! give: how a call leaves its engine, its context or its store, and what it returns.

use vstd::prelude::*;

use crate::budget::{BudgetUsage, Usd};
use crate::driver::{AgentDriver, RunContext};
use crate::engine::Engine;
use crate::error::{Error, ErrorView};
use crate::ids::RunId;
use crate::join::report_child;
use crate::json::{Json, JsonView};
use crate::laws::families::{ended, kid, left_parked, winners, woken};
use crate::laws::storage::to_be_had;
use crate::run::{JoinMode, Run, RunSpec, WaitView};
use crate::signal::{ApprovalResolution, APPROVAL_SIGNAL};
use crate::step::RetryPolicy;
use crate::store::{Backend, Store};
use crate::time::{Duration, Timestamp};

verus! {

/// Whether a step has completed: the record under its key says so.
pub open spec fn step_done(store: Store, id: RunId, key: Seq<char>) -> bool {
    store.steps.contains_key((id.value, key)) && store.steps[(id.value, key)].status is Completed
}

// ---- durable steps -------------------------------------------------------------

/// Beginning a step gives an output only where the step has completed, and then the output of
/// its record; a step that failed, or was never tried, begins: that is logged and nothing is
/// given.
pub proof fn beginning_a_step_gives_only_what_completed<B: Backend>(
    ctx: &mut RunContext<B>,
    key: &str,
    at: Timestamp,
    r: Result<Option<Json>, Error>,
)
    requires
        call_ensures(RunContext::<B>::begin_step, (ctx, key, at), r),
        old(ctx).reliable(),
    ensures
        r is Ok,
        step_done(old(ctx).store(), old(ctx).id(), key@) ==> {
            let record = old(ctx).store().steps[(old(ctx).id().value, key@)];
            &&& r->Ok_0 is Some
            &&& record.output matches Some(output) ==> r->Ok_0->0@ == output
            &&& record.output is None ==> r->Ok_0->0@ == JsonView::Null
            &&& final(ctx).store() == old(ctx).store()
        },
        !step_done(old(ctx).store(), old(ctx).id(), key@) ==> {
            let log = final(ctx).store().log(old(ctx).id());
            &&& r->Ok_0 is None
            &&& final(ctx).store().steps == old(ctx).store().steps
            &&& log.len() == old(ctx).store().log(old(ctx).id()).len() + 1
            &&& log.last().kind is StepStarted
            &&& log.last().payload.member("key"@) == Some(JsonView::String(key@))
        },
{
}

/// A durable step gives the journaled output where it has completed, and changes nothing then.
/// Else its closure was called: what it gave last is what the step returns; a success is
/// journaled with it, and a failure is journaled as one.
pub proof fn a_durable_step_runs_until_it_has_completed<
    B: Backend,
    F: Fn() -> Result<Json, String>,
    P: Fn(Duration),
>(
    ctx: &mut RunContext<B>,
    key: &str,
    retry: RetryPolicy,
    f: F,
    pause: P,
    r: Result<Json, Error>,
)
    requires
        call_ensures(RunContext::<B>::durable_step::<F, P>, (ctx, key, retry, f, pause), r),
        old(ctx).reliable(),
    ensures
        step_done(old(ctx).store(), old(ctx).id(), key@) ==> {
            let record = old(ctx).store().steps[(old(ctx).id().value, key@)];
            &&& r is Ok
            &&& record.output matches Some(output) ==> r->Ok_0@ == output
            &&& record.output is None ==> r->Ok_0@ == JsonView::Null
            &&& final(ctx).store() == old(ctx).store()
        },
        !step_done(old(ctx).store(), old(ctx).id(), key@) ==> {
            let record = final(ctx).store().steps[(old(ctx).id().value, key@)];
            &&& final(ctx).store().steps.contains_key((old(ctx).id().value, key@))
            &&& r matches Ok(value) ==> {
                &&& record.status is Completed
                &&& record.output == Some(value@)
                &&& exists|given: Result<Json, String>| #[trigger]
                    call_ensures(f, (), given) && (given matches Ok(own) && own@ == value@)
            }
            &&& r matches Err(e) ==> {
                &&& record.status is Failed
                &&& exists|given: Result<Json, String>|
                    {
                        &&& #[trigger] call_ensures(f, (), given)
                        &&& given matches Err(message)
                        &&& record.error == Some(message@)
                        &&& e@ matches ErrorView::StepExhausted { key: own, message: told, .. }
                        &&& own == key@
                        &&& told == message@
                    }
            }
            &&& final(ctx).store().log(old(ctx).id()).len() == old(ctx).store().log(
                old(ctx).id(),
            ).len() + 2
        },
{
    if !step_done(old(ctx).store(), old(ctx).id(), key@) {
        let (results, start, end) = choose|
            results: Seq<Result<Json, String>>,
            start: Timestamp,
            end: Timestamp,
        |
            {
                let attempts = crate::driver::outcomes(results);
                &&& forall|i: int|
                    0 <= i < results.len() ==> call_ensures(f, (), #[trigger] results[i])
                &&& crate::driver::tried(attempts, retry.max_attempts)
                &&& B::may_show(start)
                &&& B::may_show(end)
                &&& final(ctx).store() == #[trigger] crate::driver::step_ran(
                    old(ctx).store(),
                    old(ctx).id(),
                    key@,
                    crate::driver::outcomes(results),
                    start,
                    end,
                )
                &&& crate::driver::step_result(r, key@, attempts)
            };
        let last = results[results.len() - 1];
        assert(crate::driver::outcomes(results).last() == crate::driver::outcome(last));
        assert(call_ensures(f, (), last));
    }
}

// ---- charging ------------------------------------------------------------------

/// Folding a usage into another adds each counter, short of its largest value.
pub proof fn folding_adds_each_counter(used: &mut BudgetUsage, delta: &BudgetUsage)
    requires
        call_ensures(BudgetUsage::add, (used, delta), ()),
        old(used).tokens + delta.tokens <= u64::MAX,
        old(used).tool_calls + delta.tool_calls <= u64::MAX,
        old(used).children + delta.children <= u64::MAX,
        i128::MIN <= old(used).cost_usd.nanos + delta.cost_usd.nanos <= i128::MAX,
    ensures
        final(used).tokens as int == old(used).tokens + delta.tokens,
        final(used).tool_calls as int == old(used).tool_calls + delta.tool_calls,
        final(used).children as int == old(used).children + delta.children,
        final(used).cost_usd.nanos as int == old(used).cost_usd.nanos + delta.cost_usd.nanos,
{
}

/// A driver that charges tokens is charged that many more, and nothing else.
pub proof fn charging_tokens_charges_that_many<B: Backend>(ctx: &mut RunContext<B>, n: u64)
    requires
        call_ensures(RunContext::<B>::charge_tokens, (ctx, n), ()),
        old(ctx).charged().tokens + n <= u64::MAX,
    ensures
        final(ctx).charged() == (BudgetUsage {
            tokens: (old(ctx).charged().tokens + n) as u64,
            ..old(ctx).charged()
        }),
        final(ctx).store() == old(ctx).store(),
{
}

/// A driver that charges a tool call is charged one more, and nothing else.
pub proof fn charging_a_tool_call_charges_one<B: Backend>(ctx: &mut RunContext<B>)
    requires
        call_ensures(RunContext::<B>::charge_tool_call, (ctx,), ()),
        old(ctx).charged().tool_calls < u64::MAX,
    ensures
        final(ctx).charged() == (BudgetUsage {
            tool_calls: (old(ctx).charged().tool_calls + 1) as u64,
            ..old(ctx).charged()
        }),
        final(ctx).store() == old(ctx).store(),
{
}

/// A driver that charges a cost is charged that much more, and nothing else.
pub proof fn charging_a_cost_charges_that_much<B: Backend>(ctx: &mut RunContext<B>, cost: Usd)
    requires
        call_ensures(RunContext::<B>::charge_cost, (ctx, cost), ()),
        i128::MIN <= old(ctx).charged().cost_usd.nanos + cost.nanos <= i128::MAX,
    ensures
        final(ctx).charged() == (BudgetUsage {
            cost_usd: Usd { nanos: (old(ctx).charged().cost_usd.nanos + cost.nanos) as i128 },
            ..old(ctx).charged()
        }),
        final(ctx).store() == old(ctx).store(),
{
}

// ---- joins ---------------------------------------------------------------------

/// Telling a parent that a child is final wakes it exactly where its join is satisfied: with
/// all children ended, with one ended, or with as many completed as the quorum asks for, and in
/// any case when every child has ended. Else its record and the queue are unchanged.
pub proof fn a_parent_is_woken_exactly_when_its_join_is_satisfied<B: Backend>(
    backend: &mut B,
    p: RunId,
    now: Timestamp,
    entry_id: u128,
    r: Result<(), Error>,
    mode: JoinMode,
    unended: u128,
)
    requires
        call_ensures(report_child::<B>, (backend, p, now, entry_id), r),
        old(backend).reliable(),
        old(backend).store().wf(),
        old(backend).store().has_run(p),
        old(backend).store().run(p).waiting == Some(WaitView::ChildJoin { mode }),
        kid(old(backend).store(), p, unended),
        !ended(old(backend).store().runs[unended]),
    ensures
        r is Ok,
        mode is All ==> left_parked(old(backend).store(), p, final(backend).store()),
        mode matches JoinMode::Quorum(n) ==> {
            &&& winners(old(backend).store(), p).len() >= n ==> woken(
                old(backend).store(),
                p,
                now,
                entry_id,
                final(backend).store(),
            )
            &&& winners(old(backend).store(), p).len() < n ==> left_parked(
                old(backend).store(),
                p,
                final(backend).store(),
            )
        },
        mode is Any && (forall|k: u128| #[trigger]
            kid(old(backend).store(), p, k) ==> !ended(old(backend).store().runs[k]))
            ==> left_parked(old(backend).store(), p, final(backend).store()),
{
    let store = old(backend).store();
    match mode {
        JoinMode::All => {
            super::families::a_join_of_all_waits_for_every_child(store, p, now, entry_id);
        },
        JoinMode::Any => {
            if forall|k: u128| #[trigger] kid(store, p, k) ==> !ended(store.runs[k]) {
                assert(!store.some_child_final(p.value)) by {
                    if store.some_child_final(p.value) {
                        let c = choose|c: u128| #[trigger]
                            store.child_of(c, p.value) && store.runs[c].status.terminal();
                        assert(kid(store, p, c));
                    }
                }
            }
        },
        JoinMode::Quorum(n) => {
            super::families::a_quorum_is_that_many_completions(
                store,
                p,
                n,
                unended,
                now,
                entry_id,
            );
        },
    }
}

// ---- the engine ----------------------------------------------------------------

/// Creating a run files what its spec asks for, under a new id that is returned, and makes it
/// runnable at once.
pub proof fn creating_a_run_files_what_its_spec_asks_for<B: Backend, D: AgentDriver<B>>(
    engine: &mut Engine<B, D>,
    spec: RunSpec,
    r: Result<RunId, Error>,
)
    requires
        call_ensures(Engine::<B, D>::create_run, (engine, spec), r),
        old(engine).reliable(),
    ensures
        r is Ok,
        ({
            let run = final(engine).store().run(r->Ok_0);
            &&& final(engine).store().has_run(r->Ok_0)
            &&& run.id == r->Ok_0
            &&& run.agent_type == spec.agent_type@
            &&& run.goal == spec.goal@
            &&& run.input == crate::json::opt_json(spec.input)
            &&& run.session_ref == crate::text::opt_text(spec.session_ref)
            &&& run.budget == spec.budget
            &&& run.parent_id == spec.parent_id
            &&& run.status is Pending
            &&& B::may_show(run.created_at)
            &&& final(engine).store().queue.len() == old(engine).store().queue.len() + 1
            &&& final(engine).store().queue.last().run_id == r->Ok_0
            &&& final(engine).store().queue.last().ready_at == run.created_at
        }),
{
    let (id, entry_id, now) = choose|id: RunId, entry_id: u128, now: Timestamp|
        {
            &&& B::may_show(now)
            &&& crate::ids::time_ordered(id.value)
            &&& crate::ids::time_ordered(entry_id)
            &&& r matches Ok(new) ==> new == id
            &&& r is Ok ==> final(engine).store().has_run(id) && final(engine).store().run(id)
                == spec@.fresh(id, now)
            &&& #[trigger] crate::change::written(
                r,
                old(engine).reliable(),
                old(engine).store(),
                crate::decide::creation(spec@.fresh(id, now), entry_id, now),
                final(engine).store(),
            )
        };
    super::storage::a_created_run_is_what_its_spec_asks_for(
        old(engine).store(),
        spec@,
        id,
        entry_id,
        now,
    );
}

/// Fetching a run gives the record that is filed under its id, and says so where there is none.
pub proof fn fetching_a_run_gives_its_record<B: Backend, D: AgentDriver<B>>(
    engine: &Engine<B, D>,
    id: RunId,
    r: Result<Run, Error>,
)
    requires
        call_ensures(Engine::<B, D>::get_run, (engine, id), r),
        engine.reliable(),
    ensures
        r is Ok <==> engine.store().runs.contains_key(id.value),
        r matches Ok(run) ==> run@ == engine.store().runs[id.value],
        r matches Err(e) ==> e@ == ErrorView::RunNotFound(id),
{
}

/// A signal is delivered with its name and its payload, and wakes its run exactly where that is
/// parked on it; a run that is not there is an error.
pub proof fn a_signal_is_delivered<B: Backend, D: AgentDriver<B>>(
    engine: &mut Engine<B, D>,
    id: RunId,
    name: &str,
    payload: Json,
    r: Result<(), Error>,
)
    requires
        call_ensures(Engine::<B, D>::signal, (engine, id, name, payload), r),
        old(engine).reliable(),
        old(engine).store().wf(),
    ensures
        r is Ok <==> old(engine).store().has_run(id),
        r is Ok ==> {
            let run = old(engine).store().run(id);
            let waits = run.status is WaitingSignal && (run.waiting matches Some(
                WaitView::Signal { name: own, .. },
            ) && own == name@);
            let inbox = final(engine).store().inbox(id);
            &&& inbox.len() == old(engine).store().inbox(id).len() + 1
            &&& inbox.last().name == name@
            &&& inbox.last().payload == payload@
            &&& !inbox.last().consumed
            &&& waits ==> {
                &&& final(engine).store().run(id).status is Pending
                &&& final(engine).store().run(id).waiting is None
                &&& final(engine).store().queue.len() == old(engine).store().queue.len() + 1
                &&& final(engine).store().queue.last().run_id == id
            }
            &&& !waits ==> final(engine).store().runs == old(engine).store().runs
                && final(engine).store().queue == old(engine).store().queue
        },
{
    if r is Ok {
        let (now, entry_id) = choose|now: Timestamp, entry_id: u128|
            {
                &&& B::may_show(now)
                &&& crate::ids::time_ordered(entry_id)
                &&& final(engine).store() == #[trigger] old(engine).store().signalled(
                    id,
                    name@,
                    payload@,
                    now,
                    entry_id,
                )
            };
        super::storage::a_signal_wakes_exactly_who_waits_for_it(
            old(engine).store(),
            id,
            name@,
            payload@,
            now,
            entry_id,
        );
    }
}

/// An answer to an approval request is delivered with its call and its decision, and wakes its
/// run exactly where that is parked on approval; a run that is not there is an error.
pub proof fn an_answer_is_delivered<B: Backend, D: AgentDriver<B>>(
    engine: &mut Engine<B, D>,
    id: RunId,
    resolution: ApprovalResolution,
    r: Result<(), Error>,
)
    requires
        call_ensures(Engine::<B, D>::approve, (engine, id, resolution), r),
        old(engine).reliable(),
        old(engine).store().wf(),
    ensures
        r is Ok <==> old(engine).store().has_run(id),
        r is Ok ==> {
            let run = old(engine).store().run(id);
            let inbox = final(engine).store().inbox(id);
            let said = inbox.last().payload.member("decision"@);
            &&& inbox.len() == old(engine).store().inbox(id).len() + 1
            &&& inbox.last().name == APPROVAL_SIGNAL@
            &&& inbox.last().payload.member("tool_call_id"@) == Some(
                JsonView::String(resolution.tool_call_id@),
            )
            &&& resolution.decision is Allow ==> said == Some(JsonView::String("allow"@))
            &&& resolution.decision is AllowAlways ==> said == Some(
                JsonView::String("allow_always"@),
            )
            &&& resolution.decision is Deny ==> said == Some(JsonView::String("deny"@))
            &&& run.status is WaitingApproval ==> final(engine).store().run(id).status is Pending
                && final(engine).store().queue.len() == old(engine).store().queue.len() + 1
                && final(engine).store().queue.last().run_id == id
            &&& !(run.status is WaitingApproval) ==> final(engine).store().runs
                == old(engine).store().runs && final(engine).store().queue
                == old(engine).store().queue
        },
{
    if r is Ok {
        let (now, entry_id) = choose|now: Timestamp, entry_id: u128|
            {
                &&& B::may_show(now)
                &&& crate::ids::time_ordered(entry_id)
                &&& final(engine).store() == #[trigger] old(engine).store().approved(
                    id,
                    resolution@,
                    now,
                    entry_id,
                )
            };
        super::storage::an_answer_wakes_exactly_who_waits_for_approval(
            old(engine).store(),
            id,
            resolution@,
            now,
            entry_id,
        );
    }
}

/// Cancelling a run at a given time leaves neither it nor any run below it unended, and no run
/// elsewhere cancelled; a run that is not there is nothing to cancel. The run must have no
/// parent.
pub proof fn cancelling_ends_the_run_and_what_is_below<B: Backend, D: AgentDriver<B>>(
    engine: &mut Engine<B, D>,
    id: RunId,
    now: Timestamp,
    entry_id: u128,
    r: Result<(), Error>,
    k: u128,
)
    requires
        call_ensures(Engine::<B, D>::cancel_at, (engine, id, now, entry_id), r),
        old(engine).reliable(),
        old(engine).store().wf(),
        old(engine).store().has_run(id),
        old(engine).store().run(id).parent_id is None,
        old(engine).store().runs.contains_key(k),
    ensures
        r is Ok,
        ended(final(engine).store().run(id)),
        ({
            let before = old(engine).store();
            let after = final(engine).store();
            let hit = before.descends(id.value, k) && !ended(before.runs[k]);
            &&& hit ==> after.runs[k].status is Cancelled && after.runs[k].waiting is None
            &&& !hit ==> after.runs[k] == before.runs[k]
            &&& after.queue == before.queue
        }),
{
    let before = old(engine).store();
    crate::cancel::lemma_descends_self(before, id.value);
    super::families::cancelling_ends_the_tree(before, id.value, now, k);
    super::families::cancelling_ends_the_tree(before, id.value, now, id.value);
}

/// A tick at a given time works exactly where something can be had then; where it finds
/// nothing it changes nothing.
pub proof fn a_tick_works_where_something_is_ready<B: Backend, D: AgentDriver<B>>(
    engine: &mut Engine<B, D>,
    worker_id: &str,
    now: Timestamp,
    r: Result<bool, Error>,
    i: int,
)
    requires
        call_ensures(Engine::<B, D>::tick_at, (engine, worker_id, now), r),
    ensures
        r matches Ok(false) ==> final(engine).store() == old(engine).store() && (0 <= i
            < old(engine).store().queue.len() ==> !to_be_had(
            old(engine).store().queue[i],
            now,
        )),
{
    if let Ok(worked) = r {
        super::workers::a_tick_takes_one_turn(
            *old(engine),
            old(engine).store(),
            now,
            worked,
            final(engine).store(),
        );
    }
}

} // verus!
