//! What the handlers of requests and the parts of an agent adapter answer when they are called.

use vstd::prelude::*;

use crate::api;
use crate::api::{ApiError, CreateRunRequest, EventStream, SignalRequest, StreamStep};
use crate::budget::{Budget, BudgetUsage};
use crate::driver::{Advance, AgentDriver, RunContext};
use crate::engine::Engine;
use crate::error::{Error, ErrorView};
use crate::event::Event;
use crate::ids::{uuid_hyphenated, uuid_parsed, RunId};
use crate::json::{opt_json, Json, JsonView};
use crate::run::RunSpec;
use crate::signal::ApprovalResolution;
use crate::step::RetryPolicy;
use crate::store::{views, Backend};
use crate::sweet::{BuildContext, DurableIo, PendingCall, ToolApproval, Turn, TurnOutcome};
use crate::text::opt_text;
use crate::time::{Duration, Timestamp};

verus! {

// ---- requests ------------------------------------------------------------------

/// A request is read from its body member by member.
pub proof fn a_request_is_read_member_by_member(
    body: &Json,
    r: Option<CreateRunRequest>,
    parsed: Option<Budget>,
)
    requires
        call_ensures(CreateRunRequest::from_doc, (body,), r),
    ensures
        r is Some ==> {
            let request = r->0;
            &&& body@.member("agent_type"@) == Some(JsonView::String(request.agent_type@))
            &&& body@.member("goal"@) == Some(JsonView::String(request.goal@))
            &&& opt_json(request.input) == body@.given("input"@)
            &&& request.session_ref matches Some(text) ==> body@.member("session_ref"@) == Some(
                JsonView::String(text@),
            )
            &&& request.session_ref is None ==> body@.given("session_ref"@) is None
            &&& request.parent_id matches Some(text) ==> body@.member("parent_id"@) == Some(
                JsonView::String(text@),
            )
            &&& request.parent_id is None ==> body@.given("parent_id"@) is None
            &&& request.budget is None ==> body@.given("budget"@) is None
            &&& request.budget matches Some(budget) ==> (body@.given("budget"@) matches Some(doc)
                && Budget::of_doc(doc) == Some(budget))
        },
        r is None ==> {
            ||| body@.member_text("agent_type"@) is None
            ||| body@.member_text("goal"@) is None
            ||| body@.given("session_ref"@) is Some && body@.member_text("session_ref"@) is None
            ||| body@.given("parent_id"@) is Some && body@.member_text("parent_id"@) is None
            ||| body@.given("budget"@) is Some && Budget::of_doc(body@.given("budget"@)->0) is None
        },
{
    if let Some(request) = r {
        assert(opt_json(request.input) == request@.input);
        assert(opt_text(request.session_ref) == request@.session_ref);
        assert(opt_text(request.parent_id) == request@.parent_id);
    }
}

/// The spec of a request asks for what the request has: its agent type, its goal, its input and
/// its session as they are, its budget or one without limits, and the parent whose id it has. A
/// parent that is no id is a bad request.
pub proof fn a_spec_asks_for_what_the_request_has(
    request: CreateRunRequest,
    r: Result<RunSpec, ApiError>,
)
    requires
        call_ensures(CreateRunRequest::into_spec, (request,), r),
    ensures
        r is Err <==> request.parent_id is Some && uuid_parsed(request.parent_id->0@) is Err,
        r matches Err(e) ==> e is BadRequest,
        r matches Ok(spec) ==> {
            &&& spec.agent_type@ == request.agent_type@
            &&& spec.goal@ == request.goal@
            &&& opt_json(spec.input) == opt_json(request.input)
            &&& opt_text(spec.session_ref) == opt_text(request.session_ref)
            &&& request.budget matches Some(budget) ==> spec.budget == budget
            &&& request.budget is None ==> spec.budget == (Budget {
                max_tokens: None,
                max_cost_usd: None,
                max_wall_clock_secs: None,
                max_tool_calls: None,
                max_children: None,
            })
            &&& request.parent_id is None ==> spec.parent_id is None
            &&& request.parent_id matches Some(text) ==> (spec.parent_id matches Some(p)
                && uuid_parsed(text@) == Ok::<u128, Seq<char>>(p.value))
        },
{
    if let Ok(spec) = r {
        assert(opt_json(spec.input) == spec@.input);
        assert(opt_text(spec.session_ref) == spec@.session_ref);
    }
}

/// A run that was created by a request is there under the id of the answer, with what the
/// request gave.
pub proof fn a_request_creates_the_run_it_asks_for<B: Backend, D: AgentDriver<B>>(
    engine: &mut Engine<B, D>,
    request: CreateRunRequest,
    r: Result<Json, ApiError>,
)
    requires
        call_ensures(api::create_run::<B, D>, (engine, request), r),
        old(engine).reliable(),
        request.parent_id is None,
    ensures
        r is Ok,
        exists|id: RunId|
            {
                let run = final(engine).store().run(id);
                &&& #[trigger] final(engine).store().has_run(id)
                &&& r->Ok_0@.member("run_id"@) == Some(JsonView::String(uuid_hyphenated(id.value)))
                &&& run.id == id
                &&& run.agent_type == request.agent_type@
                &&& run.goal == request.goal@
                &&& run.input == opt_json(request.input)
                &&& run.session_ref == opt_text(request.session_ref)
                &&& request.budget matches Some(budget) ==> run.budget == budget
                &&& request.budget is None ==> run.budget == (Budget {
                    max_tokens: None,
                    max_cost_usd: None,
                    max_wall_clock_secs: None,
                    max_tool_calls: None,
                    max_children: None,
                })
                &&& run.parent_id is None
                &&& run.status is Pending
                &&& B::may_show(run.created_at)
            },
{
    let spec = request@.run_spec()->Ok_0;
    let (id, entry_id, now) = choose|id: RunId, entry_id: u128, now: Timestamp|
        {
            &&& B::may_show(now)
            &&& crate::ids::time_ordered(id.value)
            &&& crate::ids::time_ordered(entry_id)
            &&& r->Ok_0@ == api::created_doc(id)
            &&& #[trigger] crate::change::written(
                Ok::<RunId, Error>(id),
                old(engine).reliable(),
                old(engine).store(),
                crate::decide::creation(spec.fresh(id, now), entry_id, now),
                final(engine).store(),
            )
        };
    super::storage::a_created_run_is_what_its_spec_asks_for(
        old(engine).store(),
        spec,
        id,
        entry_id,
        now,
    );
    assert(final(engine).store().has_run(id));
}

/// A parent that is no id creates nothing and is a bad request.
pub proof fn a_request_with_a_wrong_parent_creates_nothing<B: Backend, D: AgentDriver<B>>(
    engine: &mut Engine<B, D>,
    request: CreateRunRequest,
    r: Result<Json, ApiError>,
    parent: String,
)
    requires
        call_ensures(api::create_run::<B, D>, (engine, request), r),
        request.parent_id == Some(parent),
        uuid_parsed(parent@) is Err,
    ensures
        r matches Err(e) && e is BadRequest,
        final(engine).store() == old(engine).store(),
{
}

/// Fetching a run answers with its document; a run that is not there is not found, and a text
/// that is no id is a bad request.
pub proof fn fetching_answers_with_the_document_of_the_run<B: Backend, D: AgentDriver<B>>(
    engine: &Engine<B, D>,
    id: &str,
    r: Result<Json, ApiError>,
    value: u128,
)
    requires
        call_ensures(api::get_run::<B, D>, (engine, id), r),
        engine.reliable(),
    ensures
        uuid_parsed(id@) is Err ==> (r matches Err(e) && e is BadRequest),
        uuid_parsed(id@) == Ok::<u128, Seq<char>>(value) ==> {
            &&& r is Ok <==> engine.store().runs.contains_key(value)
            &&& r matches Ok(doc) ==> {
                let run = engine.store().runs[value];
                &&& doc@.member("agent_type"@) == Some(JsonView::String(run.agent_type))
                &&& doc@.member("goal"@) == Some(JsonView::String(run.goal))
                &&& doc@.member("status"@) == Some(run.status.doc())
                &&& run.input matches Some(input) ==> doc@.member("input"@) == Some(input)
                &&& run.output matches Some(output) ==> doc@.member("output"@) == Some(output)
                &&& run.error matches Some(error) ==> doc@.member("error"@) == Some(
                    JsonView::String(error),
                )
            }
            &&& r matches Err(e) ==> e is NotFound
        },
{
    if uuid_parsed(id@) == Ok::<u128, Seq<char>>(value) && r is Ok {
        super::documents::the_document_of_a_run_tells_its_record(engine.store().runs[value]);
    }
}

/// Listing the events answers with every event above the number that was asked for, in order.
pub proof fn listing_events_answers_with_what_is_above<B: Backend, D: AgentDriver<B>>(
    engine: &Engine<B, D>,
    id: &str,
    from: Option<u64>,
    r: Result<Json, ApiError>,
    value: u128,
    i: int,
)
    requires
        call_ensures(api::get_events::<B, D>, (engine, id, from), r),
        engine.reliable(),
        engine.store().wf(),
        uuid_parsed(id@) == Ok::<u128, Seq<char>>(value),
    ensures
        r matches Ok(doc) && (doc@ matches JsonView::Array(docs) && {
            let log = engine.store().log(RunId { value });
            let start = if from is Some {
                from->0 as int
            } else {
                0
            };
            &&& docs.len() == (if start <= log.len() {
                log.len() - start
            } else {
                0
            })
            &&& 0 <= i < docs.len() ==> docs[i] == log[start + i].doc()
        }),
{
    let start = if from is Some {
        from->0 as nat
    } else {
        0
    };
    super::storage::a_read_gives_what_is_above(engine.store(), RunId { value }, start, i);
}

/// Listing artifacts answers with all of the run, in order.
pub proof fn listing_artifacts_answers_with_the_shelf<B: Backend, D: AgentDriver<B>>(
    engine: &Engine<B, D>,
    id: &str,
    r: Result<Json, ApiError>,
    value: u128,
    i: int,
)
    requires
        call_ensures(api::list_artifacts::<B, D>, (engine, id), r),
        engine.reliable(),
        uuid_parsed(id@) == Ok::<u128, Seq<char>>(value),
    ensures
        r matches Ok(doc) && (doc@ matches JsonView::Array(docs) && {
            let shelf = engine.store().shelf(RunId { value });
            &&& docs.len() == shelf.len()
            &&& 0 <= i < docs.len() ==> docs[i] == shelf[i].doc()
        }),
{
}

/// Listing children answers with every run that has the run as its parent.
pub proof fn listing_children_answers_with_every_child<B: Backend, D: AgentDriver<B>>(
    engine: &Engine<B, D>,
    id: &str,
    r: Result<Json, ApiError>,
    value: u128,
    k: u128,
)
    requires
        call_ensures(api::list_children::<B, D>, (engine, id), r),
        engine.reliable(),
        engine.store().wf(),
        uuid_parsed(id@) == Ok::<u128, Seq<char>>(value),
        engine.store().runs.contains_key(k),
        engine.store().runs[k].parent_id == Some(RunId { value }),
    ensures
        r matches Ok(doc) && (doc@ matches JsonView::Array(docs) && docs.contains(
            engine.store().runs[k].doc(),
        )),
{
    if let Ok(doc) = r {
        super::requests::every_child_is_answered(engine.store(), RunId { value }, doc@, k);
    }
}

/// A request to signal a run delivers the signal it names with the payload it has, `null` where
/// it has none, and is answered with `ok`; of a run that is not there it is answered that it is
/// not found.
pub proof fn a_request_delivers_its_signal<B: Backend, D: AgentDriver<B>>(
    engine: &mut Engine<B, D>,
    id: &str,
    body: &Json,
    request: SignalRequest,
    r: Result<Json, ApiError>,
    value: u128,
)
    requires
        call_ensures(SignalRequest::from_doc, (body,), Some(request)),
        call_ensures(api::signal::<B, D>, (engine, id, request), r),
        old(engine).reliable(),
        old(engine).store().wf(),
        uuid_parsed(id@) == Ok::<u128, Seq<char>>(value),
    ensures
        r is Ok <==> old(engine).store().runs.contains_key(value),
        r matches Err(e) ==> e is NotFound,
        r matches Ok(doc) ==> {
            let run_id = RunId { value };
            let inbox = final(engine).store().inbox(run_id);
            &&& doc@.member("status"@) == Some(JsonView::String("ok"@))
            &&& inbox.len() == old(engine).store().inbox(run_id).len() + 1
            &&& body@.member("name"@) == Some(JsonView::String(inbox.last().name))
            &&& body@.member("payload"@) matches Some(payload) ==> inbox.last().payload == payload
            &&& body@.member("payload"@) is None ==> inbox.last().payload == JsonView::Null
        },
{
    if r is Ok {
        let run_id = RunId { value };
        let (now, entry_id) = choose|now: Timestamp, entry_id: u128|
            crate::engine::clock_of::<B>()(now) && crate::ids::time_ordered(entry_id)
                && final(engine).store() == #[trigger] old(engine).store().signalled(
                run_id,
                request.name@,
                request.payload@,
                now,
                entry_id,
            );
        super::storage::a_signal_wakes_exactly_who_waits_for_it(
            old(engine).store(),
            run_id,
            request.name@,
            request.payload@,
            now,
            entry_id,
        );
    }
}

/// An approval request's answer is delivered by its request, and wakes the run that waits for
/// approval.
pub proof fn a_request_delivers_its_answer<B: Backend, D: AgentDriver<B>>(
    engine: &mut Engine<B, D>,
    id: &str,
    resolution: ApprovalResolution,
    r: Result<Json, ApiError>,
    value: u128,
)
    requires
        call_ensures(api::approve::<B, D>, (engine, id, resolution), r),
        old(engine).reliable(),
        old(engine).store().wf(),
        uuid_parsed(id@) == Ok::<u128, Seq<char>>(value),
    ensures
        r is Ok <==> old(engine).store().runs.contains_key(value),
        r matches Err(e) ==> e is NotFound,
        r is Ok ==> {
            let run_id = RunId { value };
            let inbox = final(engine).store().inbox(run_id);
            &&& inbox.len() == old(engine).store().inbox(run_id).len() + 1
            &&& inbox.last().payload.member("tool_call_id"@) == Some(
                JsonView::String(resolution.tool_call_id@),
            )
            &&& old(engine).store().run(run_id).status is WaitingApproval
                ==> final(engine).store().run(run_id).status is Pending
        },
{
    if r is Ok {
        let run_id = RunId { value };
        let (now, entry_id) = choose|now: Timestamp, entry_id: u128|
            crate::engine::clock_of::<B>()(now) && crate::ids::time_ordered(entry_id)
                && final(engine).store() == #[trigger] old(engine).store().approved(
                run_id,
                resolution@,
                now,
                entry_id,
            );
        super::storage::an_answer_wakes_exactly_who_waits_for_approval(
            old(engine).store(),
            run_id,
            resolution@,
            now,
            entry_id,
        );
    }
}

/// A stream is opened where it was left: above the number that was asked for, or from the
/// beginning; a run that is not there has none.
pub proof fn a_stream_is_opened_where_it_was_left<B: Backend, D: AgentDriver<B>>(
    engine: &Engine<B, D>,
    id: &str,
    from: Option<u64>,
    r: Result<EventStream, ApiError>,
    value: u128,
)
    requires
        call_ensures(EventStream::open::<B, D>, (engine, id, from), r),
        engine.reliable(),
        uuid_parsed(id@) == Ok::<u128, Seq<char>>(value),
    ensures
        r is Ok <==> engine.store().runs.contains_key(value),
        r matches Ok(stream) ==> {
            &&& stream.run_id.value == value
            &&& from matches Some(from) ==> stream.cursor == from
            &&& from is None ==> stream.cursor == 0
            &&& stream.errors == 0
        },
        r matches Err(e) ==> e is NotFound,
{
}

/// A round of a stream gives the events above its cursor, and ends the stream where the run has
/// ended.
pub proof fn a_round_gives_the_events_above_the_cursor<B: Backend>(
    stream: &mut EventStream,
    backend: &B,
    r: (Vec<Event>, StreamStep),
)
    requires
        call_ensures(EventStream::round::<B>, (stream, backend), r),
        backend.reliable(),
        backend.store().wf(),
        backend.store().has_run(old(stream).run_id),
        old(stream).cursor <= backend.store().log(old(stream).run_id).len(),
    ensures
        views(r.0@) == backend.store().log(old(stream).run_id).skip(old(stream).cursor as int),
        final(stream).cursor as nat == backend.store().log(old(stream).run_id).len(),
        final(stream).run_id == old(stream).run_id,
        r.1 is Finish <==> {
            let status = backend.store().run(old(stream).run_id).status;
            status is Completed || status is Failed || status is Cancelled
        },
{
    super::requests::a_round_gives_what_is_new(
        *old(stream),
        backend.store(),
        views(r.0@),
        *final(stream),
        r.1,
    );
}

// ---- agents --------------------------------------------------------------------

/// A turn that pauses waits for the approval of the first call that waits, and whoever answers
/// for the call that is asked for has that call decided when the turn is resumed.
pub proof fn a_paused_turn_is_resumed_by_its_answer(
    pending: Vec<PendingCall>,
    advance: Advance,
    io: &DurableIo,
    call: &str,
    said: ToolApproval,
)
    requires
        pending@.len() > 0,
        call_ensures(TurnOutcome::into_advance, (TurnOutcome::Paused { pending },), advance),
        call_ensures(DurableIo::on_tool_approval, (io, call), said),
        call@ == pending@[0].id@,
        io.approvals@.len() > 0,
        advance matches Advance::WaitForApproval { request } ==> io.approvals@.last().tool_call_id@
            == request.tool_call_id@,
    ensures
        advance is WaitForApproval,
        io.approvals@.last().decision is Allow <==> said is Allow,
        io.approvals@.last().decision is AllowAlways <==> said is AllowSession,
        io.approvals@.last().decision is Deny <==> said is Deny,
        !(said is Defer),
{
    let answers = views(io.approvals@);
    assert(answers.last() == io.approvals@.last()@);
    assert(answers =~= answers.drop_last().push(answers.last()));
    answering_is_heard(pending, answers.drop_last(), answers.last());
}

proof fn answering_is_heard(
    pending: Vec<PendingCall>,
    answers: Seq<crate::signal::ApprovalResolutionView>,
    answer: crate::signal::ApprovalResolutionView,
)
    requires
        pending@.len() > 0,
    ensures
        answer.tool_call_id == pending@[0].id@ ==> crate::sweet::decision_on(
            answers.push(answer),
            pending@[0].id@,
        ) == Some(answer.decision),
{
    crate::sweet::the_last_answer_counts(answers, answer, pending@[0].id@);
}

/// A call that nobody has answered is deferred.
pub proof fn a_call_without_an_answer_is_deferred(io: &DurableIo, call: &str, said: ToolApproval)
    requires
        call_ensures(DurableIo::on_tool_approval, (io, call), said),
        forall|i: int|
            0 <= i < io.approvals@.len() ==> (#[trigger] io.approvals@[i]).tool_call_id@ != call@,
    ensures
        said is Defer,
{
    let answers = views(io.approvals@);
    assert forall|i: int| 0 <= i < answers.len() implies (#[trigger] answers[i]).tool_call_id
        != call@ by {
        assert(answers[i] == io.approvals@[i]@);
    }
    super::agents::a_call_without_an_answer_is_not_decided(answers, call@);
}

/// What an agent says completes its run with the text; what it hands over completes it with the
/// target and the payload.
pub proof fn an_outcome_becomes_the_output(
    text: String,
    target: String,
    payload: Json,
    said: Advance,
    handed: Advance,
)
    requires
        call_ensures(TurnOutcome::into_advance, (TurnOutcome::Message { text },), said),
        call_ensures(
            TurnOutcome::into_advance,
            (TurnOutcome::Handoff { target, payload },),
            handed,
        ),
    ensures
        said matches Advance::Complete { output } && output@.member("text"@) == Some(
            JsonView::String(text@),
        ),
        handed matches Advance::Complete { output } && (output@.member("handoff"@) matches Some(
            handoff,
        ) && handoff.member("target"@) == Some(JsonView::String(target@)) && handoff.member(
            "payload"@,
        ) == Some(payload@)),
{
    super::agents::an_outcome_advances_the_run(TurnOutcome::Message { text });
    super::agents::an_outcome_advances_the_run(TurnOutcome::Handoff { target, payload });
}

/// A turn resumes where calls wait for approval, and begins with the run's goal where none do;
/// an error of the framework is the driver's.
pub proof fn a_turn_begins_with_the_goal(
    waits: bool,
    goal: &str,
    turn: Turn,
    message: String,
    failed: Result<Advance, Error>,
)
    requires
        call_ensures(crate::sweet::choose_turn, (waits, goal), turn),
        call_ensures(crate::sweet::turn_result, (Err(message),), failed),
    ensures
        waits ==> turn is Resume,
        !waits ==> (turn matches Turn::Begin(said) && said@ == goal@),
        failed matches Err(e) && e@ == ErrorView::Driver(message@),
{
}

/// An agent is built from the goal, the input and the session of its run.
pub proof fn an_agent_is_built_from_its_run<B: Backend>(ctx: &RunContext<B>, built: BuildContext)
    requires
        call_ensures(BuildContext::of::<B>, (ctx,), built),
    ensures
        built.run_id == ctx.snapshot().id,
        built.goal@ == ctx.snapshot().goal,
        opt_json(built.input) == ctx.snapshot().input,
        opt_text(built.session_ref) == ctx.snapshot().session_ref,
{
}

// ---- values --------------------------------------------------------------------

/// A budget check fails exactly where a limit is passed.
pub proof fn a_check_fails_where_a_limit_is_passed(
    budget: &Budget,
    used: &BudgetUsage,
    r: Result<(), String>,
)
    requires
        call_ensures(Budget::check, (budget, used), r),
    ensures
        r is Err <==> {
            ||| budget.max_tokens is Some && used.tokens > budget.max_tokens->0
            ||| budget.max_cost_usd is Some && used.cost_usd.nanos > budget.max_cost_usd->0.nanos
            ||| budget.max_tool_calls is Some && used.tool_calls > budget.max_tool_calls->0
            ||| budget.max_children is Some && used.children > budget.max_children->0
        },
{
}

/// A check of the age fails exactly where more time has passed than the limit.
pub proof fn a_check_of_the_age_fails_when_time_is_up(
    budget: &Budget,
    created: Timestamp,
    now: Timestamp,
    r: Result<(), String>,
)
    requires
        call_ensures(Budget::check_age, (budget, created, now), r),
    ensures
        r is Err <==> budget.max_wall_clock_secs is Some && now.nanos - created.nanos
            > budget.max_wall_clock_secs->0 * 1_000_000_000,
{
    super::budgets::a_run_is_overdue_when_its_time_is_up(*budget, created, now);
}

/// The pause after a failed attempt is twice the one before, up to the longest.
pub proof fn a_pause_is_twice_the_one_before(
    policy: &RetryPolicy,
    failed: u32,
    first: Duration,
    second: Duration,
)
    requires
        1 <= failed < 32,
        call_ensures(RetryPolicy::backoff_for, (policy, failed), first),
        call_ensures(RetryPolicy::backoff_for, (policy, (failed + 1) as u32), second),
    ensures
        first.nanos <= policy.max_delay.nanos,
        2 * first.nanos <= policy.max_delay.nanos ==> second.nanos == 2 * first.nanos,
        2 * first.nanos > policy.max_delay.nanos ==> second.nanos == policy.max_delay.nanos,
        failed == 1 && policy.base_delay.nanos <= policy.max_delay.nanos ==> first.nanos
            == policy.base_delay.nanos,
{
    super::steps::pauses_double_up_to_the_cap(*policy, failed as nat);
}

} // verus!
