//! What a driver's calls on its context leave behind, and what it reads there.

use vstd::prelude::*;

use crate::budget::BudgetUsage;
use crate::cancel::cancel_tree;
use crate::driver::RunContext;
use crate::error::Error;
use crate::event::EventKind;
use crate::ids::{ArtifactId, ResourceId, RunId};
use crate::json::{Json, JsonView, NumberView};
use crate::laws::calls::step_done;
use crate::laws::families::ended;
use crate::resource::{Resource, ResourceKind, ResourceStatus, ResourceView};
use crate::run::{Run, RunSpec};
use crate::sandbox::settle_reap;
use crate::signal::{ApprovalDecision, ApprovalResolution};
use crate::store::{views, Backend};
use crate::sweet::{wrap_tool, DurableTool};
use crate::time::Timestamp;

verus! {

/// A context tells the run of its turn: its id, its goal, its input and its session.
pub proof fn a_context_tells_its_run<B: Backend>(
    ctx: &RunContext<B>,
    id: RunId,
    goal: &str,
    input: Option<&Json>,
    session: Option<&str>,
    late: bool,
    charged: BudgetUsage,
)
    requires
        call_ensures(RunContext::<B>::run_id, (ctx,), id),
        call_ensures(RunContext::<B>::goal, (ctx,), goal),
        call_ensures(RunContext::<B>::input, (ctx,), input),
        call_ensures(RunContext::<B>::session_ref, (ctx,), session),
        call_ensures(RunContext::<B>::timed_out, (ctx,), late),
        call_ensures(RunContext::<B>::usage_delta, (ctx,), charged),
    ensures
        id == ctx.turn().run.id,
        goal@ == ctx.turn().run.goal,
        input is Some <==> ctx.turn().run.input is Some,
        input matches Some(doc) ==> ctx.turn().run.input == Some(doc@),
        session is Some <==> ctx.turn().run.session_ref is Some,
        session matches Some(text) ==> ctx.turn().run.session_ref == Some(text@),
        late == ctx.turn().late,
        charged == ctx.turn().charged,
{
}

/// An event that a driver emits is the last of its run's log, under the next number, which is
/// given back.
pub proof fn an_emitted_event_is_logged<B: Backend>(
    ctx: &mut RunContext<B>,
    kind: EventKind,
    payload: Json,
    at: Timestamp,
    r: Result<u64, Error>,
)
    requires
        call_ensures(RunContext::<B>::emit_at, (ctx, kind, payload, at), r),
        old(ctx).reliable(),
    ensures
        r is Ok,
        ({
            let before = old(ctx).store().log(old(ctx).id());
            let after = final(ctx).store().log(old(ctx).id());
            &&& after.len() == before.len() + 1
            &&& after.last().kind == kind
            &&& after.last().payload == payload@
            &&& after.last().at == at
            &&& after.last().run_id == old(ctx).id()
            &&& after.last().seq == r->Ok_0
            &&& r->Ok_0 == before.len() + 1
            &&& after.drop_last() == before
        }),
        final(ctx).store().runs == old(ctx).store().runs,
{
    assert(final(ctx).store().log(old(ctx).id()).drop_last() =~= old(ctx).store().log(
        old(ctx).id(),
    ));
}

/// A step that completes is journaled with its output and its attempts, and one that fails with
/// its message and its attempts; only the first answers from then on.
pub proof fn a_step_is_journaled_as_it_ended<B: Backend>(
    done: &mut RunContext<B>,
    undone: &mut RunContext<B>,
    key: &str,
    output: &Json,
    message: &str,
    attempts: u32,
    at: Timestamp,
    completed: Result<(), Error>,
    failed: Result<(), Error>,
)
    requires
        call_ensures(RunContext::<B>::complete_step, (done, key, output, attempts, at), completed),
        call_ensures(RunContext::<B>::fail_step, (undone, key, message, attempts, at), failed),
        old(done).reliable(),
        old(undone).reliable(),
    ensures
        completed is Ok && failed is Ok,
        ({
            let record = final(done).store().steps[(old(done).id().value, key@)];
            let event = final(done).store().log(old(done).id()).last();
            &&& step_done(final(done).store(), old(done).id(), key@)
            &&& record.output == Some(output@)
            &&& record.attempts == attempts
            &&& record.error is None
            &&& event.kind is StepCompleted
            &&& event.payload.member("key"@) == Some(JsonView::String(key@))
            &&& event.payload.member("attempts"@) == Some(
                JsonView::Number(NumberView::Unsigned(attempts as u64)),
            )
        }),
        ({
            let record = final(undone).store().steps[(old(undone).id().value, key@)];
            let event = final(undone).store().log(old(undone).id()).last();
            &&& !step_done(final(undone).store(), old(undone).id(), key@)
            &&& record.status is Failed
            &&& record.output is None
            &&& record.error == Some(message@)
            &&& record.attempts == attempts
            &&& event.kind is StepFailed
            &&& event.payload.member("key"@) == Some(JsonView::String(key@))
            &&& event.payload.member("error"@) == Some(JsonView::String(message@))
        }),
{
    reveal_strlit("key");
    reveal_strlit("attempts");
    reveal_strlit("error");
    assert("key"@.len() == 3 && "attempts"@.len() == 8 && "error"@.len() == 5);
}

/// A resource that a driver leases is filed under the id that it gets, active, as it was
/// described.
pub proof fn a_leased_resource_is_filed<B: Backend>(
    ctx: &mut RunContext<B>,
    kind: ResourceKind,
    metadata: Json,
    until: Option<Timestamp>,
    r: Result<ResourceId, Error>,
)
    requires
        call_ensures(RunContext::<B>::lease_resource, (ctx, kind, metadata, until), r),
        old(ctx).reliable(),
    ensures
        r is Ok,
        ({
            let held = final(ctx).store().resources[r->Ok_0.value];
            &&& final(ctx).store().resources == old(ctx).store().resources.insert(
                r->Ok_0.value,
                held,
            )
            &&& held.id == r->Ok_0
            &&& held.run_id == old(ctx).id()
            &&& held.kind == kind
            &&& held.status == ResourceStatus::Active
            &&& held.metadata == metadata@
            &&& held.lease_expires_at == until
        }),
        final(ctx).store().log(old(ctx).id()).last().kind is ResourceLeased,
{
    let (id, at) = choose|id: ResourceId, at: Timestamp|
        #![trigger crate::driver::leased(id, old(ctx).id(), kind, metadata@, until, at)]
        {
            let resource = crate::driver::leased(id, old(ctx).id(), kind, metadata@, until, at);
            &&& B::may_show(at)
            &&& crate::ids::time_ordered(id.value)
            &&& r matches Ok(new) ==> new == id
            &&& crate::driver::committed_twice(
                r,
                old(ctx).reliable(),
                old(ctx).store(),
                old(ctx).store().put_resource(resource),
                crate::driver::resource_leased(old(ctx).store(), resource, at),
                final(ctx).store(),
            )
        };
    let resource = crate::driver::leased(id, old(ctx).id(), kind, metadata@, until, at);
    assert(final(ctx).store() == crate::driver::resource_leased(
        old(ctx).store(),
        resource,
        at,
    ));
    assert(final(ctx).store().resources =~= old(ctx).store().resources.insert(
        r->Ok_0.value,
        final(ctx).store().resources[r->Ok_0.value],
    ));
}

/// A resource that a driver releases is released, and nothing else of it changes.
pub proof fn a_released_resource_stays_filed<B: Backend>(
    ctx: &mut RunContext<B>,
    id: ResourceId,
    r: Result<(), Error>,
)
    requires
        call_ensures(RunContext::<B>::release_resource, (ctx, id), r),
        old(ctx).reliable(),
        old(ctx).store().resources.contains_key(id.value),
    ensures
        r is Ok,
        final(ctx).store().resources == old(ctx).store().resources.insert(
            id.value,
            ResourceView {
                status: ResourceStatus::Released,
                ..old(ctx).store().resources[id.value]
            },
        ),
        final(ctx).store().log(old(ctx).id()).last().kind is ResourceReleased,
{
}

/// An artifact that a driver puts is the last on its run's shelf, under the id that it gets.
pub proof fn an_artifact_is_shelved<B: Backend>(
    ctx: &mut RunContext<B>,
    kind: &str,
    uri: &str,
    metadata: Json,
    r: Result<ArtifactId, Error>,
)
    requires
        call_ensures(RunContext::<B>::put_artifact, (ctx, kind, uri, metadata), r),
        old(ctx).reliable(),
    ensures
        r is Ok,
        ({
            let before = old(ctx).store().shelf(old(ctx).id());
            let after = final(ctx).store().shelf(old(ctx).id());
            &&& after.len() == before.len() + 1
            &&& after.last().id == r->Ok_0
            &&& after.last().run_id == old(ctx).id()
            &&& after.last().kind == kind@
            &&& after.last().uri == uri@
            &&& after.last().metadata == metadata@
            &&& after.drop_last() == before
        }),
        final(ctx).store().log(old(ctx).id()).last().kind is ArtifactCreated,
{
    let (id, at) = choose|id: ArtifactId, at: Timestamp|
        #![trigger crate::driver::produced(id, old(ctx).id(), kind@, uri@, metadata@, at)]
        {
            let artifact = crate::driver::produced(
                id,
                old(ctx).id(),
                kind@,
                uri@,
                metadata@,
                at,
            );
            &&& B::may_show(at)
            &&& crate::ids::time_ordered(id.value)
            &&& r matches Ok(new) ==> new == id
            &&& crate::driver::committed_twice(
                r,
                old(ctx).reliable(),
                old(ctx).store(),
                old(ctx).store().put_artifact(artifact),
                crate::driver::artifact_recorded(old(ctx).store(), artifact, at),
                final(ctx).store(),
            )
        };
    let artifact = crate::driver::produced(id, old(ctx).id(), kind@, uri@, metadata@, at);
    assert(final(ctx).store() == crate::driver::artifact_recorded(
        old(ctx).store(),
        artifact,
        at,
    ));
    assert(final(ctx).store().shelf(old(ctx).id()).drop_last() =~= old(ctx).store().shelf(
        old(ctx).id(),
    ));
}

/// A driver is shown every resource of its run, and none of another.
pub proof fn a_driver_sees_its_resources<B: Backend>(
    ctx: &RunContext<B>,
    r: Result<Vec<Resource>, Error>,
    i: int,
    k: u128,
)
    requires
        call_ensures(RunContext::<B>::resources, (ctx,), r),
        ctx.reliable(),
    ensures
        r is Ok,
        0 <= i < r->Ok_0@.len() ==> r->Ok_0@[i].run_id == ctx.id(),
        ctx.store().resources.contains_key(k) && ctx.store().resources[k].run_id == ctx.id()
            ==> views(r->Ok_0@).contains(ctx.store().resources[k]),
{
    if 0 <= i < r->Ok_0@.len() {
        assert(views(r->Ok_0@)[i].run_id == ctx.id());
    }
}

/// A lease is released where its sandbox was destroyed, and kept where it was not.
pub proof fn a_lease_goes_with_its_sandbox<B: Backend>(
    ctx: &mut RunContext<B>,
    id: ResourceId,
    destroyed: &Result<(), String>,
    r: Result<(), Error>,
)
    requires
        call_ensures(settle_reap::<B>, (ctx, id, destroyed), r),
        old(ctx).reliable(),
        old(ctx).store().resources.contains_key(id.value),
    ensures
        r is Ok,
        *destroyed is Err ==> final(ctx).store() == old(ctx).store(),
        *destroyed is Ok ==> final(ctx).store().resources[id.value].status
            == ResourceStatus::Released,
{
}

/// Cancelling a tree ends its root and every run below it that has not ended, and leaves every
/// other run alone.
pub proof fn a_cancelled_tree_has_ended<B: Backend>(
    backend: &mut B,
    root: RunId,
    now: Timestamp,
    r: Result<(), Error>,
    k: u128,
)
    requires
        call_ensures(cancel_tree::<B>, (backend, root, now), r),
        old(backend).reliable(),
        old(backend).store().wf(),
        old(backend).store().has_run(root),
        old(backend).store().runs.contains_key(k),
    ensures
        r is Ok,
        ({
            let before = old(backend).store();
            let after = final(backend).store();
            let hit = before.descends(root.value, k) && !ended(before.runs[k]);
            &&& hit ==> after.runs[k].status is Cancelled && after.runs[k].waiting is None
            &&& !hit ==> after.runs[k] == before.runs[k]
        }),
{
    super::families::cancelling_ends_the_tree(old(backend).store(), root.value, now, k);
}

/// A run that is made from its spec at a given time is pending and has what the spec says.
pub proof fn a_run_has_what_its_spec_says(spec: RunSpec, now: Timestamp, run: Run)
    requires
        call_ensures(Run::from_spec, (spec, now), run),
    ensures
        run.agent_type@ == spec.agent_type@,
        run.goal@ == spec.goal@,
        crate::json::opt_json(run.input) == crate::json::opt_json(spec.input),
        crate::text::opt_text(run.session_ref) == crate::text::opt_text(spec.session_ref),
        run.budget == spec.budget,
        run.parent_id == spec.parent_id,
        run.status is Pending,
        run.created_at == now,
        run.waiting is None,
{
    assert(run@.goal == run.goal@);
    assert(run@.status == run.status && run@.budget == run.budget);
    assert(run@.created_at == run.created_at && run@.parent_id == run.parent_id);
    assert(run@.waiting == crate::run::opt_wait(run.waiting));
}

/// An answer goes through its payload: what is written is read back.
pub proof fn an_answer_goes_through_its_payload(
    answer: &ApprovalResolution,
    payload: Json,
    back: Result<ApprovalResolution, Error>,
)
    requires
        call_ensures(ApprovalResolution::to_payload, (answer,), payload),
        call_ensures(ApprovalResolution::from_payload, (&payload,), back),
    ensures
        back is Ok,
        back->Ok_0.tool_call_id@ == answer.tool_call_id@,
        back->Ok_0.decision == answer.decision,
        payload@.member("decision"@) == Some(
            JsonView::String(
                match answer.decision {
                    ApprovalDecision::Allow => "allow"@,
                    ApprovalDecision::AllowAlways => "allow_always"@,
                    ApprovalDecision::Deny => "deny"@,
                },
            ),
        ),
{
    crate::signal::resolution_payload_round_trip(answer@);
    assert(back->Ok_0@.decision == back->Ok_0.decision);
    assert(back->Ok_0@.tool_call_id == back->Ok_0.tool_call_id@);
    assert(answer@.tool_call_id == answer.tool_call_id@);
}

/// A tool's output is saved under its run and its key, and only a completed one is given again.
pub proof fn a_tool_saves_its_output<B: Backend>(
    name: &str,
    run_id: RunId,
    tool: DurableTool,
    backend: &mut B,
    key: String,
    output: &Json,
    at: Timestamp,
    looked: &B,
    text: &str,
    saved: Option<Json>,
)
    requires
        call_ensures(wrap_tool, (name, run_id), tool),
        call_ensures(DurableTool::save::<B>, (&tool, backend, key, output, at), ()),
        call_ensures(DurableTool::saved::<B>, (&tool, looked, text), saved),
        old(backend).reliable(),
        looked.reliable(),
    ensures
        tool.tool_name@ == name@,
        tool.run_id == run_id,
        step_done(final(backend).store(), run_id, key@),
        final(backend).store().steps[(run_id.value, key@)].output == Some(output@),
        saved is Some ==> step_done(looked.store(), run_id, text@) && looked.store().steps[(
            run_id.value,
            text@,
        )].output == Some(saved->0@),
        step_done(looked.store(), run_id, text@) && looked.store().steps[(
            run_id.value,
            text@,
        )].output is Some ==> saved is Some,
{
}

} // verus!
