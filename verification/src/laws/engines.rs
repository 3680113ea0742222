//! What an engine is made as, and what its operations at a given time come to.

use vstd::prelude::*;

use crate::api;
use crate::api::ApiError;
use crate::driver::AgentDriver;
use crate::engine::{Engine, WorkerRound};
use crate::error::{Error, ErrorView};
use crate::event::EventKind;
use crate::ids::{uuid_parsed, RunId};
use crate::json::{Json, JsonView};
use crate::laws::families::ended;
use crate::laws::storage::to_be_had;
use crate::run::{RunSpec, RunStatus, WaitView};
use crate::signal::ApprovalResolution;
use crate::store::{Backend, Store};
use crate::time::{Duration, Timestamp};

verus! {

/// An engine begins without drivers, on the store of its backend, with a lease of thirty
/// seconds and a rest of fifty milliseconds; each of the two can be set alone.
pub proof fn an_engine_is_what_it_was_made_as<B: Backend, D: AgentDriver<B>>(
    backend: B,
    made: Engine<B, D>,
    ttl: Duration,
    leasing: Engine<B, D>,
    interval: Duration,
    resting: Engine<B, D>,
    rest: Duration,
)
    requires
        call_ensures(Engine::<B, D>::new, (backend,), made),
        call_ensures(Engine::<B, D>::with_lease_ttl, (made, ttl), leasing),
        call_ensures(Engine::<B, D>::with_poll_interval, (made, interval), resting),
        call_ensures(Engine::<B, D>::poll_interval, (&resting,), rest),
    ensures
        made.store() == backend.store(),
        made.registered().len() == 0,
        made.ttl().nanos == 30_000_000_000,
        made.idle_span().nanos == 50_000_000,
        leasing.ttl() == ttl && leasing.idle_span() == made.idle_span() && leasing.store()
            == backend.store(),
        resting.idle_span() == interval && resting.ttl() == made.ttl() && resting.store()
            == backend.store(),
        rest == interval,
{
}

/// A run that is created at a given time is filed under the id that was asked for, pending, with
/// what its spec says, and is in the queue from that time on.
pub proof fn a_run_is_created_at_a_time<B: Backend, D: AgentDriver<B>>(
    engine: &mut Engine<B, D>,
    spec: RunSpec,
    id: RunId,
    entry_id: u128,
    now: Timestamp,
    r: Result<RunId, Error>,
)
    requires
        call_ensures(Engine::<B, D>::create_run_at, (engine, spec, id, entry_id, now), r),
        old(engine).reliable(),
    ensures
        r == Ok::<RunId, Error>(id),
        ({
            let store = final(engine).store();
            let run = store.runs[id.value];
            let entry = store.queue.last();
            let event = store.log(id).last();
            &&& store.runs.dom() == old(engine).store().runs.dom().insert(id.value)
            &&& run.id == id
            &&& run.agent_type == spec.agent_type@
            &&& run.goal == spec.goal@
            &&& run.input == crate::json::opt_json(spec.input)
            &&& run.session_ref == crate::text::opt_text(spec.session_ref)
            &&& run.budget == spec.budget
            &&& run.parent_id == spec.parent_id
            &&& run.status is Pending
            &&& run.created_at == now
            &&& run.usage.tokens == 0 && run.usage.tool_calls == 0 && run.usage.children == 0
            &&& store.queue.len() == old(engine).store().queue.len() + 1
            &&& entry.run_id == id && entry.ready_at == now && entry.leased_until is None
            &&& entry.entry_id == entry_id
            &&& store.log(id).len() == old(engine).store().log(id).len() + 1
            &&& event.kind == EventKind::RunCreated
            &&& event.payload.member("agent_type"@) == Some(JsonView::String(spec.agent_type@))
            &&& event.payload.member("goal"@) == Some(JsonView::String(spec.goal@))
        }),
{
    let before = old(engine).store();
    let run = spec@.fresh(id, now);
    super::storage::a_created_run_is_what_its_spec_asks_for(before, spec@, id, entry_id, now);
    let steps = crate::decide::creation(run, entry_id, now);
    super::lemma_few(before, steps.drop_last());
    assert(before.apply_all(steps) == before.apply_all(steps.drop_last()).apply(steps.last()));
    reveal_strlit("agent_type");
    reveal_strlit("goal");
    assert("agent_type"@.len() == 10 && "goal"@.len() == 4);
    assert(final(engine).store().runs.dom() =~= before.runs.dom().insert(id.value));
}

/// A signal that is sent at a given time is in the inbox with that time, is logged, and queues
/// its run from that time on exactly where that is parked on it; a run that is not there is an
/// error.
pub proof fn a_signal_is_delivered_at_a_time<B: Backend, D: AgentDriver<B>>(
    engine: &mut Engine<B, D>,
    id: RunId,
    name: &str,
    payload: Json,
    now: Timestamp,
    entry_id: u128,
    r: Result<(), Error>,
)
    requires
        call_ensures(Engine::<B, D>::signal_at, (engine, id, name, payload, now, entry_id), r),
        old(engine).reliable(),
        old(engine).store().wf(),
    ensures
        r is Ok <==> old(engine).store().has_run(id),
        r matches Err(e) ==> e@ == ErrorView::RunNotFound(id),
        r is Ok ==> {
            let before = old(engine).store();
            let after = final(engine).store();
            let run = before.run(id);
            let waits = run.status is WaitingSignal && (run.waiting matches Some(
                WaitView::Signal { name: own, .. },
            ) && own == name@);
            &&& after.inbox(id).len() == before.inbox(id).len() + 1
            &&& after.inbox(id).last().name == name@
            &&& after.inbox(id).last().payload == payload@
            &&& !after.inbox(id).last().consumed
            &&& after.inbox(id).last().created_at == now
            &&& after.log(id).len() == before.log(id).len() + 1
            &&& after.log(id).last().kind == EventKind::SignalReceived
            &&& waits ==> {
                &&& after.run(id).status == RunStatus::Pending
                &&& after.queue.len() == before.queue.len() + 1
                &&& after.queue.last().run_id == id
                &&& after.queue.last().ready_at == now
            }
            &&& !waits ==> after.runs == before.runs && after.queue == before.queue
        },
{
    if r is Ok {
        let before = old(engine).store();
        super::storage::a_signal_wakes_exactly_who_waits_for_it(
            before,
            id,
            name@,
            payload@,
            now,
            entry_id,
        );
        let told = before.apply_all(crate::decide::signalling(id, name@, payload@, now));
        super::lemma_two(before, crate::decide::signalling(id, name@, payload@, now));
        super::lemma_two(told, crate::decide::waking(before.run(id), entry_id, now));
    }
}

/// An answer that is given at a given time is in the inbox, is logged, and queues its run from
/// that time on exactly where that is parked on approval; a run that is not there is an error.
pub proof fn an_answer_is_delivered_at_a_time<B: Backend, D: AgentDriver<B>>(
    engine: &mut Engine<B, D>,
    id: RunId,
    resolution: ApprovalResolution,
    now: Timestamp,
    entry_id: u128,
    r: Result<(), Error>,
)
    requires
        call_ensures(Engine::<B, D>::approve_at, (engine, id, resolution, now, entry_id), r),
        old(engine).reliable(),
        old(engine).store().wf(),
    ensures
        r is Ok <==> old(engine).store().has_run(id),
        r matches Err(e) ==> e@ == ErrorView::RunNotFound(id),
        r is Ok ==> {
            let before = old(engine).store();
            let after = final(engine).store();
            let waits = before.run(id).status is WaitingApproval;
            let call = Some(JsonView::String(resolution.tool_call_id@));
            &&& after.inbox(id).len() == before.inbox(id).len() + 1
            &&& after.inbox(id).last().payload.member("tool_call_id"@) == call
            &&& after.inbox(id).last().created_at == now
            &&& after.log(id).len() == before.log(id).len() + 1
            &&& after.log(id).last().kind == EventKind::ApprovalResolved
            &&& after.log(id).last().payload.member("tool_call_id"@) == call
            &&& waits ==> {
                &&& after.run(id).status == RunStatus::Pending
                &&& after.queue.len() == before.queue.len() + 1
                &&& after.queue.last().run_id == id
                &&& after.queue.last().ready_at == now
            }
            &&& !waits ==> after.runs == before.runs && after.queue == before.queue
        },
{
    if r is Ok {
        let before = old(engine).store();
        super::storage::an_answer_wakes_exactly_who_waits_for_approval(
            before,
            id,
            resolution@,
            now,
            entry_id,
        );
        let told = before.apply_all(crate::decide::approving(id, resolution@, now));
        super::lemma_two(before, crate::decide::approving(id, resolution@, now));
        super::lemma_two(told, crate::decide::waking(before.run(id), entry_id, now));
        reveal_strlit("tool_call_id");
        reveal_strlit("decision");
        assert("tool_call_id"@.len() == 12 && "decision"@.len() == 8);
    }
}

/// Cancelling a run that has no parent ends it and every run below it, and leaves every other
/// run as it is.
pub proof fn cancelling_a_run_ends_what_is_below<B: Backend, D: AgentDriver<B>>(
    engine: &mut Engine<B, D>,
    id: RunId,
    r: Result<(), Error>,
    k: u128,
)
    requires
        call_ensures(Engine::<B, D>::cancel, (engine, id), r),
        old(engine).reliable(),
        old(engine).store().wf(),
        old(engine).store().has_run(id),
        old(engine).store().run(id).parent_id is None,
        old(engine).store().runs.contains_key(k),
    ensures
        r is Ok,
        ({
            let before = old(engine).store();
            let after = final(engine).store();
            let hit = before.descends(id.value, k) && !ended(before.runs[k]);
            &&& hit ==> after.runs[k].status is Cancelled
            &&& !hit ==> after.runs[k] == before.runs[k]
        }),
        ended(final(engine).store().run(id)),
{
    lemma_cancelled(
        old(engine).store(),
        crate::engine::clock_of::<B>(),
        id,
        final(engine).store(),
        k,
    );
    lemma_cancelled(
        old(engine).store(),
        crate::engine::clock_of::<B>(),
        id,
        final(engine).store(),
        id.value,
    );
    crate::cancel::lemma_descends_self(old(engine).store(), id.value);
}

/// A request to cancel is answered with `ok` and ends the run and what is below it; an id that
/// is none is a bad request.
pub proof fn a_request_to_cancel_ends_what_is_below<B: Backend, D: AgentDriver<B>>(
    engine: &mut Engine<B, D>,
    text: &str,
    r: Result<Json, ApiError>,
    id: RunId,
    k: u128,
)
    requires
        call_ensures(api::cancel::<B, D>, (engine, text), r),
        old(engine).reliable(),
        old(engine).store().wf(),
        old(engine).store().has_run(id),
        old(engine).store().run(id).parent_id is None,
        old(engine).store().runs.contains_key(k),
    ensures
        uuid_parsed(text@) is Err ==> (r matches Err(e) && e is BadRequest)
            && final(engine).store() == old(engine).store(),
        uuid_parsed(text@) == Ok::<u128, Seq<char>>(id.value) ==> {
            let before = old(engine).store();
            let after = final(engine).store();
            let hit = before.descends(id.value, k) && !ended(before.runs[k]);
            &&& r matches Ok(doc) && doc@.member("status"@) == Some(JsonView::String("ok"@))
            &&& hit ==> after.runs[k].status is Cancelled
            &&& !hit ==> after.runs[k] == before.runs[k]
        },
{
    if uuid_parsed(text@) == Ok::<u128, Seq<char>>(id.value) {
        assert(api::id_in(text@) == Ok::<RunId, api::ApiErrorView>(id));
        lemma_cancelled(
            old(engine).store(),
            crate::engine::clock_of::<B>(),
            id,
            final(engine).store(),
            k,
        );
    }
}

/// Cancelling at some time comes to the same at every time.
proof fn lemma_cancelled(
    before: Store,
    clock: crate::engine::ClockRelation,
    id: RunId,
    after: Store,
    k: u128,
)
    requires
        before.wf(),
        before.has_run(id),
        before.run(id).parent_id is None,
        before.runs.contains_key(k),
        before.got_cancelled(true, clock, id, after),
    ensures
        ({
            let hit = before.descends(id.value, k) && !ended(before.runs[k]);
            &&& hit ==> after.runs[k].status is Cancelled
            &&& !hit ==> after.runs[k] == before.runs[k]
        }),
{
    let (now, entry_id) = choose|now: Timestamp, entry_id: u128|
        clock(now) && crate::ids::time_ordered(entry_id) && #[trigger] before.cancelled_at(
            true,
            id,
            now,
            entry_id,
            after,
        );
    super::families::cancelling_ends_the_tree(before, id.value, now, k);
}

/// A run that is not there cannot be processed; one that has ended, or that another worker
/// holds, is left alone.
pub proof fn a_run_is_processed_by_one_worker_while_it_goes_on<B: Backend, D: AgentDriver<B>>(
    engine: &mut Engine<B, D>,
    id: RunId,
    now: Timestamp,
    r: Result<(), Error>,
)
    requires
        call_ensures(Engine::<B, D>::process, (engine, id, now), r),
        old(engine).reliable(),
    ensures
        r is Ok <==> old(engine).store().runs.contains_key(id.value),
        r matches Err(e) ==> e@ == ErrorView::RunNotFound(id) && final(engine).store()
            == old(engine).store(),
        r is Ok && ended(old(engine).store().run(id)) ==> final(engine).store()
            == old(engine).store(),
        r is Ok && old(engine).store().fences.contains_key(id.value)
            && old(engine).store().fences[id.value].nanos > now.nanos ==> final(engine).store()
            == old(engine).store(),
{
    super::families::a_final_run_has_ended(old(engine).store().run(id).status);
}

/// A tick on an engine whose queue is empty finds nothing and changes nothing; one that finds
/// nothing always changes nothing.
pub proof fn a_tick_without_work_changes_nothing<B: Backend, D: AgentDriver<B>>(
    engine: &mut Engine<B, D>,
    worker_id: &str,
    r: Result<bool, Error>,
)
    requires
        call_ensures(Engine::<B, D>::tick, (engine, worker_id), r),
        old(engine).reliable(),
    ensures
        r matches Ok(false) ==> final(engine).store() == old(engine).store(),
        old(engine).store().queue.len() == 0 ==> r == Ok::<bool, Error>(false),
{
    let now = choose|now: Timestamp|
        {
            &&& B::may_show(now)
            &&& #[trigger] crate::engine::tick_outcome(
                *old(engine),
                old(engine).store(),
                now,
                crate::engine::tick_view(r),
                final(engine).store(),
            )
        };
    if old(engine).store().queue.len() == 0 {
        let before = old(engine).store();
        assert forall|i: int| !before.claimable(i, now) by {}
    }
}

/// Working until idle at a given time ends, where it says so, with nothing left that could be
/// had then; where nothing could be had from the start it changes nothing.
pub proof fn working_until_idle_leaves_nothing_to_be_had<B: Backend, D: AgentDriver<B>>(
    engine: &mut Engine<B, D>,
    worker_id: &str,
    most: u64,
    now: Timestamp,
    r: Result<bool, Error>,
    i: int,
)
    requires
        call_ensures(Engine::<B, D>::run_until_idle_at, (engine, worker_id, most, now), r),
    ensures
        r matches Ok(true) && 0 <= i < final(engine).store().queue.len() ==> !to_be_had(
            final(engine).store().queue[i],
            now,
        ),
        old(engine).reliable() && most > 0 && (forall|j: int|
            0 <= j < old(engine).store().queue.len() ==> !to_be_had(
                #[trigger] old(engine).store().queue[j],
                now,
            )) ==> r == Ok::<bool, Error>(true) && final(engine).store() == old(engine).store(),
{
    if r matches Ok(true) && 0 <= i < final(engine).store().queue.len() {
        assert(!final(engine).store().claimable(i, now));
    }
    let before = old(engine).store();
    if forall|j: int| 0 <= j < before.queue.len() ==> !to_be_had(#[trigger] before.queue[j], now) {
        assert forall|j: int| !before.claimable(j, now) by {
            if 0 <= j < before.queue.len() {
                assert(!to_be_had(before.queue[j], now));
            }
        }
    }
}

/// A worker rests for as long as its engine says, exactly where it found nothing or failed.
pub proof fn a_round_rests_where_nothing_is_to_be_had<B: Backend, D: AgentDriver<B>>(
    engine: &mut Engine<B, D>,
    worker_id: &str,
    now: Timestamp,
    round: WorkerRound,
)
    requires
        call_ensures(Engine::<B, D>::worker_round_at, (engine, worker_id, now), round),
        old(engine).reliable(),
    ensures
        round.pause matches Some(pause) ==> pause == old(engine).idle_span(),
        round.error is Some ==> round.pause is Some,
        round.error is None && round.pause is Some ==> final(engine).store()
            == old(engine).store(),
        (forall|j: int|
            0 <= j < old(engine).store().queue.len() ==> !to_be_had(
                #[trigger] old(engine).store().queue[j],
                now,
            )) ==> round.pause is Some && round.error is None,
{
    let before = old(engine).store();
    if forall|j: int| 0 <= j < before.queue.len() ==> !to_be_had(#[trigger] before.queue[j], now) {
        assert forall|j: int| !before.claimable(j, now) by {
            if 0 <= j < before.queue.len() {
                assert(!to_be_had(before.queue[j], now));
            }
        }
    }
}

} // verus!
