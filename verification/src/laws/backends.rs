//! What calls on storage and on the context of a turn come to.

use vstd::prelude::*;

use crate::budget::BudgetUsage;
use crate::decide::FreshIds;
use crate::driver::{pending_payloads, Advance, AgentDriver, ChildOutcome, RunContext};
use crate::engine::{settle_turn, Engine};
use crate::error::{Error, ErrorView};
use crate::event::{Event, EventKind};
use crate::ids::{ArtifactId, ResourceId, RunId};
use crate::json::{Json, JsonView};
use crate::laws::families::kid;
use crate::laws::storage::to_be_had;
use crate::look::Look;
use crate::resource::{ResourceKind, ResourceStatus, ResourceView};
use crate::run::{Run, RunSpec};
use crate::signal::{ApprovalResolution, ApprovalResolutionView, SignalView, APPROVAL_SIGNAL};
use crate::step::StepRecord;
use crate::store::{views, Backend, Lease, QueueEntry};
use crate::time::{Duration, Timestamp};

verus! {

// ---- runs ----------------------------------------------------------------------

/// A run that is filed is fetched under its id, and overwriting it overwrites it; a run that is
/// not there is neither fetched nor overwritten.
pub proof fn runs_are_filed_fetched_and_overwritten<B: Backend>(
    backend: &mut B,
    run: &Run,
    r: Result<(), Error>,
    updating: bool,
)
    requires
        old(backend).reliable(),
        !updating ==> call_ensures(B::create_run, (backend, run), r),
        updating ==> call_ensures(B::update_run, (backend, run), r),
    ensures
        r is Ok <==> !updating || old(backend).store().runs.contains_key(run.id.value),
        r is Ok ==> final(backend).store().runs == old(backend).store().runs.insert(
            run.id.value,
            run@,
        ) && final(backend).store().queue == old(backend).store().queue
            && final(backend).store().events == old(backend).store().events,
        r matches Err(e) ==> e@ == ErrorView::RunNotFound(run.id) && final(backend).store()
            == old(backend).store(),
{
    assert(run@.id == run.id);
}

/// What is fetched is what is filed.
pub proof fn a_run_is_fetched_as_it_is_filed<B: Backend>(
    backend: &B,
    id: RunId,
    r: Result<Run, Error>,
)
    requires
        backend.reliable(),
        call_ensures(B::get_run, (backend, id), r),
    ensures
        r is Ok <==> backend.store().runs.contains_key(id.value),
        r matches Ok(run) ==> run@ == backend.store().runs[id.value],
        r matches Err(e) ==> e@ == ErrorView::RunNotFound(id),
{
}

/// Exactly the children of a run are listed.
pub proof fn children_are_listed<B: Backend>(
    backend: &B,
    p: RunId,
    r: Result<Vec<Run>, Error>,
    k: u128,
)
    requires
        backend.reliable(),
        call_ensures(B::list_children, (backend, p), r),
    ensures
        r is Ok,
        kid(backend.store(), p, k) ==> views(r->Ok_0@).contains(backend.store().runs[k]),
        forall|i: int|
            0 <= i < r->Ok_0@.len() ==> (#[trigger] r->Ok_0@[i]).parent_id == Some(p)
                && backend.store().runs.contains_key(r->Ok_0@[i].id.value),
{
    let kids = views(r->Ok_0@);
    assert forall|i: int| 0 <= i < r->Ok_0@.len() implies (#[trigger] r->Ok_0@[i]).parent_id
        == Some(p) && backend.store().runs.contains_key(r->Ok_0@[i].id.value) by {
        assert(kids[i] == r->Ok_0@[i]@);
    }
}

/// The processing lease of a run is had exactly where nobody has it, or whoever had it has let
/// its time pass; it lasts as long as was asked for.
pub proof fn only_one_worker_has_a_run<B: Backend>(
    backend: &mut B,
    id: RunId,
    lease_ttl: Duration,
    now: Timestamp,
    r: Result<bool, Error>,
)
    requires
        old(backend).reliable(),
        call_ensures(B::try_acquire_run, (backend, id, lease_ttl, now), r),
        now.nanos + lease_ttl.nanos <= i128::MAX,
    ensures
        r is Ok,
        r == Ok::<bool, Error>(true) <==> !old(backend).store().fences.contains_key(id.value)
            || old(backend).store().fences[id.value].nanos <= now.nanos,
        r == Ok::<bool, Error>(true) ==> final(backend).store().fences
            == old(backend).store().fences.insert(
            id.value,
            Timestamp { nanos: (now.nanos + lease_ttl.nanos) as i128 },
        ),
        r == Ok::<bool, Error>(false) ==> final(backend).store() == old(backend).store(),
        final(backend).store().runs == old(backend).store().runs,
{
}

/// A processing lease that is given back is nobody's.
pub proof fn a_run_that_is_given_back_is_free<B: Backend>(
    backend: &mut B,
    id: RunId,
    r: Result<(), Error>,
)
    requires
        old(backend).reliable(),
        call_ensures(B::release_run, (backend, id), r),
    ensures
        r is Ok,
        final(backend).store().fences == old(backend).store().fences.remove(id.value),
        final(backend).store().runs == old(backend).store().runs,
        final(backend).store().queue == old(backend).store().queue,
{
}

// ---- the log -------------------------------------------------------------------

/// An event is appended with the next number, which is returned.
pub proof fn an_event_gets_the_next_number<B: Backend>(
    backend: &mut B,
    id: RunId,
    kind: EventKind,
    payload: Json,
    at: Timestamp,
    r: Result<u64, Error>,
)
    requires
        old(backend).reliable(),
        call_ensures(B::append, (backend, id, kind, payload, at), r),
    ensures
        r is Ok,
        ({
            let log = final(backend).store().log(id);
            &&& r->Ok_0 as nat == old(backend).store().log(id).len() + 1
            &&& log.len() == old(backend).store().log(id).len() + 1
            &&& log.drop_last() == old(backend).store().log(id)
            &&& log.last().seq == r->Ok_0 as nat
            &&& log.last().kind == kind
            &&& log.last().payload == payload@
            &&& log.last().at == at
            &&& log.last().run_id == id
        }),
        final(backend).store().runs == old(backend).store().runs,
{
    super::storage::an_event_is_appended_with_the_next_number(
        old(backend).store(),
        id,
        kind,
        payload@,
        at,
        id,
    );
}

/// Reading gives the events above a number.
pub proof fn reading_gives_the_events_above<B: Backend>(
    backend: &B,
    id: RunId,
    from: u64,
    r: Result<Vec<Event>, Error>,
    i: int,
)
    requires
        backend.reliable(),
        backend.store().wf(),
        call_ensures(B::read, (backend, id, from), r),
    ensures
        r is Ok,
        from <= backend.store().log(id).len() ==> r->Ok_0@.len() == backend.store().log(id).len()
            - from,
        from > backend.store().log(id).len() ==> r->Ok_0@.len() == 0,
        0 <= i < r->Ok_0@.len() ==> r->Ok_0@[i]@ == backend.store().log(id)[from + i]
            && r->Ok_0@[i].seq == from + i + 1,
{
    super::storage::a_read_gives_what_is_above(backend.store(), id, from as nat, i);
    let read = views(r->Ok_0@);
    assert(read.len() == r->Ok_0@.len());
    if 0 <= i < read.len() {
        assert(read[i] == r->Ok_0@[i]@);
    }
}

// ---- the journal ---------------------------------------------------------------

/// A record is found under its run and its key, and journaling one replaces it.
pub proof fn a_record_is_found_under_its_key<B: Backend>(
    backend: &B,
    id: RunId,
    key: &str,
    r: Result<Option<StepRecord>, Error>,
)
    requires
        backend.reliable(),
        call_ensures(B::lookup_step, (backend, id, key), r),
    ensures
        r is Ok,
        r->Ok_0 is Some <==> backend.store().steps.contains_key((id.value, key@)),
        r->Ok_0 matches Some(record) ==> record@ == backend.store().steps[(id.value, key@)],
{
}

/// A record that is journaled is the one under its run and its key; no other is touched.
pub proof fn a_record_is_journaled_under_its_key<B: Backend>(
    backend: &mut B,
    record: &StepRecord,
    r: Result<(), Error>,
)
    requires
        old(backend).reliable(),
        call_ensures(B::record_step, (backend, record), r),
    ensures
        r is Ok,
        final(backend).store().steps == old(backend).store().steps.insert(
            (record.run_id.value, record.key@),
            record@,
        ),
        final(backend).store().events == old(backend).store().events,
{
    assert(record@.run_id == record.run_id);
    assert(record@.key == record.key@);
}

// ---- the queue -----------------------------------------------------------------

/// An entry is put at the end of the queue; a claim takes what was ready first, for as long as
/// the lease lasts; an acknowledgement removes the entry and no other.
pub proof fn an_entry_is_queued<B: Backend>(
    backend: &mut B,
    entry_id: u128,
    id: RunId,
    ready_at: Timestamp,
    r: Result<(), Error>,
)
    requires
        old(backend).reliable(),
        call_ensures(B::enqueue, (backend, entry_id, id, ready_at), r),
    ensures
        r is Ok,
        final(backend).store().queue == old(backend).store().queue.push(
            QueueEntry { entry_id, run_id: id, ready_at, leased_until: None },
        ),
        final(backend).store().runs == old(backend).store().runs,
{
}

/// Whether a lease is on an entry that can be had and was ready first, and lasts as long as it
/// should, the rest of the queue being as it was.
pub open spec fn first_claimed(
    before: Seq<QueueEntry>,
    lease_ttl: Duration,
    now: Timestamp,
    lease: Lease<RunId>,
    after: Seq<QueueEntry>,
) -> bool {
    exists|i: int|
        {
            &&& 0 <= i < before.len()
            &&& to_be_had(#[trigger] before[i], now)
            &&& lease.item == before[i].run_id
            &&& lease.lease_id == before[i].entry_id
            &&& lease.expires_at.nanos as int == now.nanos + lease_ttl.nanos
            &&& forall|j: int|
                0 <= j < before.len() && to_be_had(#[trigger] before[j], now)
                    ==> before[i].ready_at.nanos <= before[j].ready_at.nanos
            &&& after == before.update(
                i,
                QueueEntry { leased_until: Some(lease.expires_at), ..before[i] },
            )
        }
}

/// A claim takes what was ready first; without anything ready there is none.
pub proof fn a_claim_takes_the_first<B: Backend>(
    backend: &mut B,
    worker_id: &str,
    lease_ttl: Duration,
    now: Timestamp,
    r: Result<Option<Lease<RunId>>, Error>,
)
    requires
        old(backend).reliable(),
        call_ensures(B::claim, (backend, worker_id, lease_ttl, now), r),
        now.nanos + lease_ttl.nanos <= i128::MAX,
    ensures
        r is Ok,
        r->Ok_0 is None ==> final(backend).store() == old(backend).store() && forall|i: int|
            0 <= i < old(backend).store().queue.len() ==> !to_be_had(
                #[trigger] old(backend).store().queue[i],
                now,
            ),
        r->Ok_0 matches Some(lease) ==> first_claimed(
            old(backend).store().queue,
            lease_ttl,
            now,
            lease,
            final(backend).store().queue,
        ),
{
    super::storage::a_claim_takes_what_was_ready_first(
        old(backend).store(),
        lease_ttl,
        now,
        r->Ok_0,
        final(backend).store(),
    );
}

/// An acknowledgement removes the entry of its lease and no other.
pub proof fn an_acknowledged_entry_is_gone<B: Backend>(
    backend: &mut B,
    lease: &Lease<RunId>,
    r: Result<(), Error>,
    entry: QueueEntry,
)
    requires
        old(backend).reliable(),
        call_ensures(B::ack, (backend, lease), r),
    ensures
        r is Ok,
        final(backend).store().queue.contains(entry) <==> old(backend).store().queue.contains(
            entry,
        ) && entry.entry_id != lease.lease_id,
        final(backend).store().runs == old(backend).store().runs,
{
    super::an_acknowledgement_removes_only_its_entry(old(backend).store(), lease.lease_id, entry);
}

// ---- signals -------------------------------------------------------------------

/// A signal is delivered to the end of its run's inbox.
pub proof fn a_signal_goes_to_the_inbox<B: Backend>(
    backend: &mut B,
    id: RunId,
    name: &str,
    payload: Json,
    at: Timestamp,
    r: Result<(), Error>,
)
    requires
        old(backend).reliable(),
        call_ensures(B::deliver, (backend, id, name, payload, at), r),
    ensures
        r is Ok,
        ({
            let inbox = final(backend).store().inbox(id);
            &&& inbox.len() == old(backend).store().inbox(id).len() + 1
            &&& inbox.drop_last() == old(backend).store().inbox(id)
            &&& inbox.last().name == name@
            &&& inbox.last().payload == payload@
            &&& inbox.last().created_at == at
            &&& !inbox.last().consumed
        }),
{
    let before = old(backend).store().inbox(id);
    assert(final(backend).store().inbox(id).drop_last() =~= before);
}

/// Whether a signal is there is told without taking it.
pub proof fn a_signal_is_seen_where_it_is<B: Backend>(
    backend: &B,
    id: RunId,
    name: &str,
    r: Result<bool, Error>,
)
    requires
        backend.reliable(),
        call_ensures(B::has_unconsumed, (backend, id, name), r),
    ensures
        r is Ok,
        r->Ok_0 <==> exists|i: int|
            0 <= i < backend.store().inbox(id).len() && (#[trigger] backend.store().inbox(
                id,
            )[i]).name == name@ && !backend.store().inbox(id)[i].consumed,
{
    super::turns::an_inbox_has_a_signal_that_nobody_took(backend.store(), id, name@);
}

/// Whether the first signal of a name that nobody has taken has the payload, and is taken.
pub open spec fn first_taken(
    inbox: Seq<SignalView>,
    name: Seq<char>,
    payload: JsonView,
    after: Seq<SignalView>,
) -> bool {
    exists|i: int|
        {
            &&& 0 <= i < inbox.len()
            &&& !(#[trigger] inbox[i]).consumed
            &&& inbox[i].name == name
            &&& inbox[i].payload == payload
            &&& forall|j: int|
                0 <= j < i ==> (#[trigger] inbox[j]).consumed || inbox[j].name != name
            &&& after == inbox.update(i, SignalView { consumed: true, ..inbox[i] })
        }
}

/// A driver that takes a signal is given the payload of the first of its name that nobody has
/// taken, which is then taken; it is given none exactly where none is there.
pub proof fn a_driver_takes_the_first_signal<B: Backend>(
    ctx: &mut RunContext<B>,
    name: &str,
    r: Result<Option<Json>, Error>,
)
    requires
        old(ctx).reliable(),
        call_ensures(RunContext::<B>::take_signal, (ctx, name), r),
    ensures
        r is Ok,
        r->Ok_0 is None ==> final(ctx).store() == old(ctx).store() && forall|i: int|
            0 <= i < old(ctx).store().inbox(old(ctx).id()).len() ==> (
            #[trigger] old(ctx).store().inbox(old(ctx).id())[i]).consumed
                || old(ctx).store().inbox(
                old(ctx).id(),
            )[i].name != name@,
        r->Ok_0 matches Some(payload) ==> first_taken(
            old(ctx).store().inbox(old(ctx).id()),
            name@,
            payload@,
            final(ctx).store().inbox(old(ctx).id()),
        ),
{
    let id = old(ctx).id();
    match r->Ok_0 {
        None => {
            super::storage::the_first_signal_is_taken(
                old(ctx).store(),
                id,
                name@,
                None,
                final(ctx).store(),
            );
        },
        Some(payload) => {
            let signal = choose|signal: SignalView|
                {
                    &&& #[trigger] crate::store::signal_taken(
                        old(ctx).store(),
                        id,
                        name@,
                        Some(signal),
                        final(ctx).store(),
                    )
                    &&& signal.payload == payload@
                };
            super::storage::the_first_signal_is_taken(
                old(ctx).store(),
                id,
                name@,
                Some(signal),
                final(ctx).store(),
            );
            let inbox = old(ctx).store().inbox(id);
            let i = choose|i: int|
                {
                    &&& 0 <= i < inbox.len()
                    &&& !(#[trigger] inbox[i]).consumed
                    &&& inbox[i].name == name@
                    &&& forall|j: int|
                        0 <= j < i ==> (#[trigger] inbox[j]).consumed || inbox[j].name != name@
                    &&& signal.payload == inbox[i].payload
                    &&& final(ctx).store().inbox(id) == inbox.update(
                        i,
                        SignalView { consumed: true, ..inbox[i] },
                    )
                };
            assert(!inbox[i].consumed);
        },
    }
}

/// A driver that takes its approvals is given an answer for each that waits, in order, with the
/// call and the decision that were delivered, and none is left to be taken again.
pub proof fn a_driver_takes_every_answer<B: Backend>(
    ctx: &mut RunContext<B>,
    r: Result<Vec<ApprovalResolution>, Error>,
    i: int,
)
    requires
        old(ctx).reliable(),
        call_ensures(RunContext::<B>::take_approvals, (ctx,), r),
        r is Ok,
        0 <= i < r->Ok_0@.len(),
    ensures
        ({
            let waiting = pending_payloads(
                old(ctx).store().inbox(old(ctx).id()),
                APPROVAL_SIGNAL@,
            );
            &&& r->Ok_0@.len() == waiting.len()
            &&& waiting[i].member("tool_call_id"@) == Some(
                JsonView::String(r->Ok_0@[i].tool_call_id@),
            )
            &&& waiting[i].member("decision"@) == Some(JsonView::String("allow"@))
                ==> r->Ok_0@[i].decision is Allow
            &&& waiting[i].member("decision"@) == Some(JsonView::String("deny"@))
                ==> r->Ok_0@[i].decision is Deny
            &&& waiting[i].member("decision"@) == Some(JsonView::String("allow_always"@))
                ==> r->Ok_0@[i].decision is AllowAlways
        }),
        !final(ctx).store().has_signal(old(ctx).id(), APPROVAL_SIGNAL@),
{
    let waiting = pending_payloads(old(ctx).store().inbox(old(ctx).id()), APPROVAL_SIGNAL@);
    let answers = views(r->Ok_0@);
    assert(answers[i] == r->Ok_0@[i]@);
    assert(ApprovalResolutionView::of_payload(waiting[i]) == Some(answers[i]));
    super::storage::an_answer_is_read_from_its_payload(waiting[i], r->Ok_0@[i].tool_call_id@);
    super::storage::approvals_are_taken_once(old(ctx).store(), old(ctx).id(), Seq::empty());
}

/// A driver reads of its children what is filed: for every child its id, its status, its output
/// and its error.
pub proof fn a_driver_reads_its_children<B: Backend>(
    ctx: &RunContext<B>,
    r: Result<Vec<ChildOutcome>, Error>,
    k: u128,
)
    requires
        ctx.reliable(),
        call_ensures(RunContext::<B>::children, (ctx,), r),
        kid(ctx.store(), ctx.id(), k),
    ensures
        r is Ok,
        exists|i: int|
            {
                let run = ctx.store().runs[k];
                &&& 0 <= i < r->Ok_0@.len()
                &&& (#[trigger] r->Ok_0@[i]).run_id == run.id
                &&& r->Ok_0@[i].status == run.status
                &&& crate::json::opt_json(r->Ok_0@[i].output) == run.output
                &&& crate::text::opt_text(r->Ok_0@[i].error) == run.error
                &&& r->Ok_0@[i].goal@ == run.goal
            },
{
    let kids = choose|kids: Seq<crate::run::RunView>|
        {
            &&& #[trigger] ctx.store().lists_children(ctx.id(), kids)
            &&& views(r->Ok_0@) == crate::driver::ChildOutcomeView::of_runs(kids)
        };
    assert(kids.contains(ctx.store().runs[k]));
    let i = choose|i: int| 0 <= i < kids.len() && kids[i] == ctx.store().runs[k];
    assert(crate::driver::ChildOutcomeView::of_runs(kids).len() == kids.len());
    assert(views(r->Ok_0@).len() == r->Ok_0@.len());
    assert(views(r->Ok_0@)[i] == r->Ok_0@[i]@);
    assert(r->Ok_0@[i]@ == crate::driver::ChildOutcomeView::of_run(kids[i]));
    assert(r->Ok_0@[i].run_id == kids[i].id);
}

// ---- resources and artifacts ---------------------------------------------------

/// A driver that leases a resource at a given time has it filed as active, as it was described.
pub proof fn a_driver_leases_a_resource<B: Backend>(
    ctx: &mut RunContext<B>,
    id: ResourceId,
    kind: ResourceKind,
    metadata: Json,
    lease_expires_at: Option<Timestamp>,
    at: Timestamp,
    r: Result<ResourceId, Error>,
)
    requires
        old(ctx).reliable(),
        call_ensures(
            RunContext::<B>::lease_resource_at,
            (ctx, id, kind, metadata, lease_expires_at, at),
            r,
        ),
    ensures
        r is Ok && r->Ok_0 == id,
        final(ctx).store().resources == old(ctx).store().resources.insert(
            id.value,
            ResourceView {
                id,
                run_id: old(ctx).id(),
                kind,
                status: ResourceStatus::Active,
                metadata: metadata@,
                lease_expires_at,
                created_at: at,
            },
        ),
        final(ctx).store().log(old(ctx).id()).len() == old(ctx).store().log(old(ctx).id()).len()
            + 1,
        final(ctx).store().log(old(ctx).id()).last().kind is ResourceLeased,
{
}

/// A driver that releases a resource at a given time has it released, and the log says so.
pub proof fn a_driver_releases_a_resource<B: Backend>(
    ctx: &mut RunContext<B>,
    id: ResourceId,
    at: Timestamp,
    r: Result<(), Error>,
    k: u128,
)
    requires
        old(ctx).reliable(),
        call_ensures(RunContext::<B>::release_resource_at, (ctx, id, at), r),
    ensures
        r is Ok,
        old(ctx).store().resources.contains_key(id.value)
            ==> final(ctx).store().resources[id.value] == (ResourceView {
            status: ResourceStatus::Released,
            ..old(ctx).store().resources[id.value]
        }),
        k != id.value ==> final(ctx).store().resources[k] == old(ctx).store().resources[k],
        final(ctx).store().log(old(ctx).id()).last().kind is ResourceReleased,
{
    super::storage::a_released_resource_is_released(
        old(ctx).store(),
        old(ctx).id(),
        id,
        at,
        k,
    );
}

/// A heartbeat of a driver moves the end of the lease.
pub proof fn a_driver_extends_a_lease<B: Backend>(
    ctx: &mut RunContext<B>,
    id: ResourceId,
    until: Timestamp,
    r: Result<(), Error>,
)
    requires
        old(ctx).reliable(),
        call_ensures(RunContext::<B>::heartbeat_resource, (ctx, id, until), r),
        old(ctx).store().resources.contains_key(id.value),
    ensures
        r is Ok,
        final(ctx).store().resources == old(ctx).store().resources.insert(
            id.value,
            ResourceView {
                lease_expires_at: Some(until),
                ..old(ctx).store().resources[id.value]
            },
        ),
{
}

/// A driver that puts an artifact at a given time has it at the end of its run's shelf.
pub proof fn a_driver_puts_an_artifact<B: Backend>(
    ctx: &mut RunContext<B>,
    id: ArtifactId,
    kind: &str,
    uri: &str,
    metadata: Json,
    at: Timestamp,
    r: Result<ArtifactId, Error>,
)
    requires
        old(ctx).reliable(),
        call_ensures(RunContext::<B>::put_artifact_at, (ctx, id, kind, uri, metadata, at), r),
    ensures
        r is Ok && r->Ok_0 == id,
        ({
            let shelf = final(ctx).store().shelf(old(ctx).id());
            &&& shelf.len() == old(ctx).store().shelf(old(ctx).id()).len() + 1
            &&& shelf.last().id == id
            &&& shelf.last().run_id == old(ctx).id()
            &&& shelf.last().kind == kind@
            &&& shelf.last().uri == uri@
            &&& shelf.last().metadata == metadata@
            &&& shelf.last().created_at == at
        }),
        final(ctx).store().log(old(ctx).id()).last().kind is ArtifactCreated,
{
}

// ---- turns ---------------------------------------------------------------------

/// Settling a turn does with the run what the driver answered: it completes it with its output,
/// fails it with its message, keeps it going or parks it, and adds what was charged. The
/// budget must not be breached.
pub proof fn a_settled_turn_does_what_the_driver_answered<B: Backend>(
    backend: &mut B,
    run: Run,
    delta: BudgetUsage,
    advanced: Result<Advance, Error>,
    now: Timestamp,
    fresh: &FreshIds,
    r: Result<Option<Look>, Error>,
)
    requires
        old(backend).reliable(),
        old(backend).store().wf(),
        old(backend).store().has_run(run.id),
        run.parent_id is None,
        run.budget == (crate::budget::Budget {
            max_tokens: None,
            max_cost_usd: None,
            max_wall_clock_secs: None,
            max_tool_calls: None,
            max_children: None,
        }),
        run.usage.tool_calls + delta.tool_calls <= u64::MAX,
        call_ensures(settle_turn::<B>, (backend, run, delta, advanced, now, fresh), r),
    ensures
        r is Ok,
        ({
            let after = final(backend).store().run(run.id);
            let queue = final(backend).store().queue;
            let before = old(backend).store().queue;
            match advanced {
                Err(e) => after.status is Failed && after.error == Some(e@.text()) && queue
                    == before,
                Ok(Advance::Continue) => after.status is Pending && queue.len() == before.len() + 1
                    && queue.last().run_id == run.id && queue.last().ready_at == now,
                Ok(Advance::Complete { output }) => after.status is Completed && after.output
                    == Some(output@) && queue == before,
                Ok(Advance::Fail { error, retry }) => if retry {
                    after.status is Pending && queue.len() == before.len() + 1
                        && queue.last().run_id == run.id
                } else {
                    after.status is Failed && after.error == Some(error@) && queue == before
                },
                Ok(Advance::Sleep { until }) => after.status is WaitingTimer && queue.len()
                    == before.len() + 1 && queue.last().run_id == run.id && queue.last().ready_at
                    == until,
                Ok(Advance::WaitForApproval { request }) => old(backend).store().has_signal(
                    run.id,
                    APPROVAL_SIGNAL@,
                ) || (after.status is WaitingApproval && queue == before),
                Ok(Advance::WaitForSignal { name, timeout }) => old(backend).store().has_signal(
                    run.id,
                    name@,
                ) || (after.status is WaitingSignal && (timeout is None ==> queue == before)),
                Ok(Advance::SpawnChildren { .. }) => true,
            }
        }),
        !(advanced matches Ok(Advance::SpawnChildren { .. })) ==> final(backend).store().run(
            run.id,
        ).usage.tool_calls as int == run.usage.tool_calls + delta.tool_calls,
{
    let store = old(backend).store();
    let result = crate::driver::advanced_view(advanced);
    let counted = run@.charged(delta);
    assert(counted.breach(now) is None);
    if !(advanced matches Ok(Advance::SpawnChildren { .. })) {
        super::turns::lemma_settled_record(store, run@, delta, result, now, *fresh);
    }
    match advanced {
        Err(e) => {
            super::lemma_two(store, crate::decide::failing(counted, e@.text(), now));
        },
        Ok(advance) => {
            match advance {
                Advance::Continue => super::turns::a_run_that_goes_on_is_queued_again(
                    store,
                    run@,
                    delta,
                    advance@,
                    now,
                    *fresh,
                ),
                Advance::Complete { output } => super::turns::a_completion_is_final(
                    store,
                    run@,
                    delta,
                    output@,
                    now,
                    *fresh,
                ),
                Advance::Fail { error, retry } => {
                    if retry {
                        super::turns::a_run_that_goes_on_is_queued_again(
                            store,
                            run@,
                            delta,
                            advance@,
                            now,
                            *fresh,
                        );
                    } else {
                        super::turns::a_failure_for_good_is_final(
                            store,
                            run@,
                            delta,
                            error@,
                            now,
                            *fresh,
                        );
                    }
                },
                Advance::Sleep { until } => super::turns::a_sleep_sets_a_timer(
                    store,
                    run@,
                    delta,
                    until,
                    now,
                    *fresh,
                ),
                Advance::WaitForApproval { request } => super::turns::an_approval_is_asked_for(
                    store,
                    run@,
                    delta,
                    request@,
                    now,
                    *fresh,
                ),
                Advance::WaitForSignal { name, timeout } => {
                    let list = crate::decide::settling(
                        counted,
                        advance@,
                        store.arrived(run.id, advance@),
                        now,
                        fresh.entry,
                        fresh.children@,
                    );
                    super::lemma_few(store, list);
                },
                Advance::SpawnChildren { .. } => {},
            }
        },
    }
}

/// A driver is registered under its agent type, at the end, and so counts for that type from
/// then on; nothing else of the engine changes.
pub proof fn a_driver_is_registered_last<B: Backend, D: AgentDriver<B>>(
    engine: Engine<B, D>,
    agent_type: &str,
    driver: D,
    r: Engine<B, D>,
)
    requires
        call_ensures(Engine::<B, D>::with_driver, (engine, agent_type, driver), r),
    ensures
        r.registered().len() == engine.registered().len() + 1,
        r.registered().last().0@ == agent_type@,
        r.registered().last().1 == driver,
        r.registered().drop_last() == engine.registered(),
        crate::engine::counts(r.registered(), agent_type@, r.registered().len() - 1),
        r.store() == engine.store(),
        r.ttl() == engine.ttl(),
{
    let name = choose|name: String|
        name@ == agent_type@ && r.registered() == #[trigger] engine.registered().push(
            (name, driver),
        );
    assert(r.registered().drop_last() =~= engine.registered());
}

/// A run is made from its spec.
pub proof fn a_run_is_made_from_its_spec(spec: RunSpec, id: RunId, now: Timestamp, run: Run)
    requires
        call_ensures(Run::from_spec_with_id, (spec, id, now), run),
    ensures
        run.id == id,
        run.agent_type@ == spec.agent_type@,
        run.goal@ == spec.goal@,
        crate::json::opt_json(run.input) == crate::json::opt_json(spec.input),
        crate::text::opt_text(run.session_ref) == crate::text::opt_text(spec.session_ref),
        run.budget == spec.budget,
        run.parent_id == spec.parent_id,
        run.status is Pending,
        run.waiting is None,
        run.usage.tokens == 0 && run.usage.tool_calls == 0 && run.usage.children == 0,
        run.created_at == now,
{
    assert(run@.agent_type == run.agent_type@);
    assert(run@.waiting == crate::run::opt_wait(run.waiting));
}

} // verus!
