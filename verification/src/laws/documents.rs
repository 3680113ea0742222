//! What JSON documents of the runtime's values tell.

use vstd::prelude::*;

use crate::artifact::ArtifactView;
use crate::budget::{Budget, BudgetUsage};
use crate::event::{EventKind, EventView};
use crate::ids::uuid_hyphenated;
use crate::json::{JsonView, NumberView};
use crate::resource::{ResourceKind, ResourceStatus};
use crate::run::{JoinMode, RunStatus, RunView, WaitView};
use crate::step::StepStatus;

verus! {

/// A member that is set is the member that is read; setting it again replaces it, and every
/// other member is as it was. An object without members has none.
pub proof fn a_member_that_is_set_is_read(
    doc: JsonView,
    name: Seq<char>,
    value: JsonView,
    again: JsonView,
    other: Seq<char>,
)
    ensures
        doc.with(name, value).member(name) == Some(value),
        doc.with(name, value).with(name, again).member(name) == Some(again),
        doc is Object && other != name ==> doc.with(name, value).member(other) == doc.member(
            other,
        ),
        !(doc is Object) && other != name ==> doc.with(name, value).member(other) is None,
        JsonView::empty_object().member(other) is None,
        !(doc is Object) ==> doc.member(other) is None,
{
}

/// What a member gives: its text where it is a string, its number where it is a count, and
/// nothing where it is missing or `null`.
pub proof fn a_member_gives_what_it_holds(doc: JsonView, name: Seq<char>)
    ensures
        doc.member_text(name) is Some <==> (doc.member(name) matches Some(JsonView::String(_))),
        doc.member_text(name) matches Some(text) ==> doc.member(name) == Some(
            JsonView::String(text),
        ),
        doc.given(name) is None <==> doc.member(name) is None || doc.member(name) == Some(
            JsonView::Null,
        ),
        doc.given(name) matches Some(value) ==> doc.member(name) == Some(value),
        doc.count() matches Some(n) ==> doc == JsonView::Number(NumberView::Unsigned(n)),
        doc.count() is None ==> !(doc matches JsonView::Number(NumberView::Unsigned(_))),
{
}

/// An optional text: none where the member is missing or `null`, its text where it is a string,
/// and an error where it is anything else. An optional count alike.
pub proof fn an_optional_member_is_read(doc: JsonView, name: Seq<char>)
    ensures
        doc.member(name) is None || doc.member(name) == Some(JsonView::Null) ==> {
            &&& crate::document::opt_text_in(doc, name) == Some(None::<Seq<char>>)
            &&& crate::document::opt_count_in(doc, name) == Some(None::<u64>)
        },
        doc.member(name) matches Some(JsonView::String(text)) ==> {
            &&& crate::document::opt_text_in(doc, name) == Some(Some(text))
            &&& crate::document::opt_count_in(doc, name) is None
        },
        doc.member(name) matches Some(JsonView::Number(NumberView::Unsigned(n))) ==> {
            &&& crate::document::opt_text_in(doc, name) is None
            &&& crate::document::opt_count_in(doc, name) == Some(Some(n))
            &&& crate::document::count_in(doc, name) == Some(n)
        },
        doc.member(name) matches Some(JsonView::Bool(_)) ==> {
            &&& crate::document::opt_text_in(doc, name) is None
            &&& crate::document::opt_count_in(doc, name) is None
            &&& crate::document::count_in(doc, name) is None
        },
{
}

/// The statuses of runs have different names, by which clients know them.
pub proof fn statuses_have_their_names(status: RunStatus)
    ensures
        status.doc() == JsonView::String(
            match status {
                RunStatus::Pending => "pending"@,
                RunStatus::Running => "running"@,
                RunStatus::WaitingApproval => "waiting_approval"@,
                RunStatus::WaitingSignal => "waiting_signal"@,
                RunStatus::WaitingTimer => "waiting_timer"@,
                RunStatus::Completed => "completed"@,
                RunStatus::Failed => "failed"@,
                RunStatus::Cancelled => "cancelled"@,
            },
        ),
        RunStatus::of_doc(status.doc()) == Some(status),
{
    crate::document::run_status_round_trip(status);
}

/// The kinds of events have different names, by which clients know them.
pub proof fn event_kinds_have_their_names(kind: EventKind)
    ensures
        kind.doc() == JsonView::String(
            match kind {
                EventKind::RunCreated => "run_created"@,
                EventKind::StepStarted => "step_started"@,
                EventKind::StepCompleted => "step_completed"@,
                EventKind::StepFailed => "step_failed"@,
                EventKind::ToolCallRecorded => "tool_call_recorded"@,
                EventKind::ApprovalRequested => "approval_requested"@,
                EventKind::ApprovalResolved => "approval_resolved"@,
                EventKind::SignalReceived => "signal_received"@,
                EventKind::TimerSet => "timer_set"@,
                EventKind::TimerFired => "timer_fired"@,
                EventKind::ResourceLeased => "resource_leased"@,
                EventKind::ResourceReleased => "resource_released"@,
                EventKind::ChildRunSpawned => "child_run_spawned"@,
                EventKind::ChildRunFinished => "child_run_finished"@,
                EventKind::ArtifactCreated => "artifact_created"@,
                EventKind::RunCompleted => "run_completed"@,
                EventKind::RunFailed => "run_failed"@,
                EventKind::RunCancelled => "run_cancelled"@,
            },
        ),
        EventKind::of_doc(kind.doc()) == Some(kind),
{
    crate::document::event_kind_round_trip(kind);
}

/// A value without content is written by its name, alone or as the name of a member that is
/// `null`; a member with content is no such value, and neither is anything else.
pub proof fn a_value_without_content_is_its_name(name: Seq<char>, content: JsonView, n: NumberView)
    ensures
        JsonView::String(name).unit_variant() == Some(name),
        JsonView::empty_object().with(name, JsonView::Null).unit_variant() == Some(name),
        !(content is Null) ==> JsonView::empty_object().with(name, content).unit_variant() is None,
        JsonView::Null.unit_variant() is None,
        JsonView::Number(n).unit_variant() is None,
{
    crate::json::a_tagged_document_is_a_variant(name, JsonView::Null);
    crate::json::a_tagged_document_is_a_variant(name, content);
    assert(JsonView::tagged(name, content) == JsonView::empty_object().with(name, content));
}

/// The document of a value is read back as the value.
pub proof fn small_values_are_read_back(
    step: StepStatus,
    kind: ResourceKind,
    status: ResourceStatus,
)
    ensures
        StepStatus::of_doc(step.doc()) == Some(step),
        ResourceKind::of_doc(kind.doc()) == Some(kind),
        ResourceStatus::of_doc(status.doc()) == Some(status),
{
    crate::document::step_status_round_trip(step);
    crate::document::resource_kind_round_trip(kind);
    crate::document::resource_status_round_trip(status);
}

/// A run's document tells its record, member by member: a client reads in it what the run is
/// for, how far it is and what came of it.
pub proof fn the_document_of_a_run_tells_its_record(run: RunView)
    ensures
        ({
            let doc = run.doc();
            &&& doc.member("id"@) == Some(JsonView::String(uuid_hyphenated(run.id.value)))
            &&& run.parent_id matches Some(p) ==> doc.member("parent_id"@) == Some(
                JsonView::String(uuid_hyphenated(p.value)),
            )
            &&& run.parent_id is None ==> doc.member("parent_id"@) == Some(JsonView::Null)
            &&& doc.member("agent_type"@) == Some(JsonView::String(run.agent_type))
            &&& doc.member("goal"@) == Some(JsonView::String(run.goal))
            &&& run.input matches Some(input) ==> doc.member("input"@) == Some(input)
            &&& run.input is None ==> doc.member("input"@) == Some(JsonView::Null)
            &&& doc.member("status"@) == Some(run.status.doc())
            &&& run.waiting matches Some(wait) ==> doc.member("waiting"@) == Some(wait.doc())
            &&& run.waiting is None ==> doc.member("waiting"@) == Some(JsonView::Null)
            &&& run.session_ref matches Some(s) ==> doc.member("session_ref"@) == Some(
                JsonView::String(s),
            )
            &&& run.session_ref is None ==> doc.member("session_ref"@) == Some(JsonView::Null)
            &&& doc.member("budget"@) == Some(run.budget.doc())
            &&& doc.member("usage"@) == Some(run.usage.doc())
            &&& run.output matches Some(output) ==> doc.member("output"@) == Some(output)
            &&& run.output is None ==> doc.member("output"@) == Some(JsonView::Null)
            &&& run.error matches Some(error) ==> doc.member("error"@) == Some(
                JsonView::String(error),
            )
            &&& run.error is None ==> doc.member("error"@) == Some(JsonView::Null)
            &&& doc.member("created_at"@) == Some(run.created_at.doc())
            &&& doc.member("updated_at"@) == Some(run.updated_at.doc())
        }),
{
    lemma_run_names();
}

proof fn lemma_run_names()
    ensures
        "id"@.len() == 2,
        "parent_id"@.len() == 9,
        "agent_type"@.len() == 10 && "agent_type"@[0] == 'a',
        "goal"@.len() == 4,
        "input"@.len() == 5 && "input"@[0] == 'i',
        "status"@.len() == 6 && "status"@[0] == 's',
        "waiting"@.len() == 7,
        "session_ref"@.len() == 11,
        "budget"@.len() == 6 && "budget"@[0] == 'b',
        "usage"@.len() == 5 && "usage"@[0] == 'u',
        "output"@.len() == 6 && "output"@[0] == 'o',
        "error"@.len() == 5 && "error"@[0] == 'e',
        "created_at"@.len() == 10 && "created_at"@[0] == 'c',
        "updated_at"@.len() == 10 && "updated_at"@[0] == 'u',
{
    reveal_strlit("id");
    reveal_strlit("parent_id");
    reveal_strlit("agent_type");
    reveal_strlit("goal");
    reveal_strlit("input");
    reveal_strlit("status");
    reveal_strlit("waiting");
    reveal_strlit("session_ref");
    reveal_strlit("budget");
    reveal_strlit("usage");
    reveal_strlit("output");
    reveal_strlit("error");
    reveal_strlit("created_at");
    reveal_strlit("updated_at");
}

/// An event's document tells the event: its run, its number, its kind, its payload and its time.
pub proof fn the_document_of_an_event_tells_it(event: EventView)
    requires
        event.seq <= u64::MAX,
    ensures
        ({
            let doc = event.doc();
            &&& doc.member("run_id"@) == Some(
                JsonView::String(uuid_hyphenated(event.run_id.value)),
            )
            &&& doc.member("seq"@) == Some(
                JsonView::Number(NumberView::Unsigned(event.seq as u64)),
            )
            &&& doc.member("kind"@) == Some(event.kind.doc())
            &&& doc.member("payload"@) == Some(event.payload)
            &&& doc.member("at"@) == Some(event.at.doc())
        }),
{
    reveal_strlit("run_id");
    reveal_strlit("seq");
    reveal_strlit("kind");
    reveal_strlit("payload");
    reveal_strlit("at");
    assert("run_id"@.len() == 6 && "seq"@.len() == 3 && "kind"@.len() == 4 && "payload"@.len() == 7
        && "at"@.len() == 2);
}

/// An artifact's document tells the artifact: its ids, its kind, its place and its metadata.
pub proof fn the_document_of_an_artifact_tells_it(artifact: ArtifactView)
    ensures
        ({
            let doc = artifact.doc();
            &&& doc.member("id"@) == Some(JsonView::String(uuid_hyphenated(artifact.id.value)))
            &&& doc.member("run_id"@) == Some(
                JsonView::String(uuid_hyphenated(artifact.run_id.value)),
            )
            &&& doc.member("kind"@) == Some(JsonView::String(artifact.kind))
            &&& doc.member("uri"@) == Some(JsonView::String(artifact.uri))
            &&& doc.member("metadata"@) == Some(artifact.metadata)
            &&& doc.member("created_at"@) == Some(artifact.created_at.doc())
        }),
{
    reveal_strlit("id");
    reveal_strlit("run_id");
    reveal_strlit("kind");
    reveal_strlit("uri");
    reveal_strlit("metadata");
    reveal_strlit("created_at");
    assert("id"@.len() == 2 && "run_id"@.len() == 6 && "kind"@.len() == 4 && "uri"@.len() == 3
        && "metadata"@.len() == 8 && "created_at"@.len() == 10);
}

/// A budget's document tells each limit under its name, `null` where there is none; the usage's
/// tells each counter under its name.
pub proof fn limits_and_counters_stand_under_their_names(budget: Budget, usage: BudgetUsage)
    ensures
        ({
            let doc = budget.doc();
            let limit = |limit: Option<u64>|
                match limit {
                    Some(n) => Some(JsonView::Number(NumberView::Unsigned(n))),
                    None => Some(JsonView::Null),
                };
            &&& doc.member("max_tokens"@) == limit(budget.max_tokens)
            &&& doc.member("max_wall_clock_secs"@) == limit(budget.max_wall_clock_secs)
            &&& doc.member("max_tool_calls"@) == limit(budget.max_tool_calls)
            &&& doc.member("max_children"@) == limit(budget.max_children)
            &&& budget.max_cost_usd is None ==> doc.member("max_cost_usd"@) == Some(
                JsonView::Null,
            )
        }),
        ({
            let doc = usage.doc();
            &&& doc.member("tokens"@) == Some(
                JsonView::Number(NumberView::Unsigned(usage.tokens)),
            )
            &&& doc.member("tool_calls"@) == Some(
                JsonView::Number(NumberView::Unsigned(usage.tool_calls)),
            )
            &&& doc.member("children"@) == Some(
                JsonView::Number(NumberView::Unsigned(usage.children)),
            )
        }),
{
    reveal_strlit("max_tokens");
    reveal_strlit("max_wall_clock_secs");
    reveal_strlit("max_tool_calls");
    reveal_strlit("max_children");
    reveal_strlit("max_cost_usd");
    reveal_strlit("tokens");
    reveal_strlit("cost_usd");
    reveal_strlit("tool_calls");
    reveal_strlit("children");
    assert("max_tokens"@.len() == 10 && "max_wall_clock_secs"@.len() == 19
        && "max_tool_calls"@.len() == 14 && "max_children"@.len() == 12 && "max_cost_usd"@.len()
        == 12 && "max_children"@[5] == 'h' && "max_cost_usd"@[5] == 'o');
    assert("tokens"@.len() == 6 && "cost_usd"@.len() == 8 && "tool_calls"@.len() == 10
        && "children"@.len() == 8 && "cost_usd"@[1] == 'o' && "children"@[1] == 'h');
}

/// A budget is read limit by limit from the members of their names; a limit that is missing or
/// `null` is none.
pub proof fn a_budget_is_read_limit_by_limit(doc: JsonView, budget: Budget)
    requires
        Budget::of_doc(doc) == Some(budget),
    ensures
        budget.max_tokens matches Some(n) ==> doc.member("max_tokens"@) == Some(
            JsonView::Number(NumberView::Unsigned(n)),
        ),
        budget.max_tokens is None ==> doc.given("max_tokens"@) is None,
        budget.max_tool_calls matches Some(n) ==> doc.member("max_tool_calls"@) == Some(
            JsonView::Number(NumberView::Unsigned(n)),
        ),
        budget.max_tool_calls is None ==> doc.given("max_tool_calls"@) is None,
        budget.max_children matches Some(n) ==> doc.member("max_children"@) == Some(
            JsonView::Number(NumberView::Unsigned(n)),
        ),
        budget.max_children is None ==> doc.given("max_children"@) is None,
        budget.max_wall_clock_secs matches Some(n) ==> doc.member("max_wall_clock_secs"@) == Some(
            JsonView::Number(NumberView::Unsigned(n)),
        ),
        budget.max_wall_clock_secs is None ==> doc.given("max_wall_clock_secs"@) is None,
        budget.max_cost_usd is None ==> doc.given("max_cost_usd"@) is None,
        budget.max_cost_usd matches Some(amount) ==> (doc.member("max_cost_usd"@) matches Some(
            JsonView::Number(number),
        ) && crate::budget::Usd::of_number(number) == Some(amount)),
{
}

/// The document of a wait tells what is waited for, and is read back where its deadline can be
/// written.
pub proof fn the_document_of_a_wait_tells_it(wait: WaitView)
    ensures
        match wait {
            WaitView::Approval => wait.doc() == JsonView::String("approval"@),
            WaitView::Timer => wait.doc() == JsonView::String("timer"@),
            WaitView::Signal { name, deadline } => {
                let held = wait.doc().member("signal"@);
                &&& held is Some
                &&& held->0.member("name"@) == Some(JsonView::String(name))
                &&& deadline is None ==> held->0.member("deadline"@) == Some(JsonView::Null)
                &&& deadline matches Some(due) ==> held->0.member("deadline"@) == Some(due.doc())
            },
            WaitView::ChildJoin { mode } => {
                let held = wait.doc().member("child_join"@);
                &&& held is Some
                &&& held->0.member("mode"@) == Some(mode.doc())
            },
        },
{
    reveal_strlit("name");
    reveal_strlit("deadline");
    assert("name"@.len() == 4 && "deadline"@.len() == 8);
}

/// The document of a join tells its mode and its number, and is read back.
pub proof fn the_document_of_a_join_tells_it(mode: JoinMode)
    ensures
        match mode {
            JoinMode::All => mode.doc() == JsonView::String("all"@),
            JoinMode::Any => mode.doc() == JsonView::String("any"@),
            JoinMode::Quorum(n) => mode.doc().member("quorum"@) == Some(
                JsonView::Number(NumberView::Unsigned(n as u64)),
            ),
        },
        JoinMode::of_doc(mode.doc()) == Some(mode),
{
    crate::document::join_mode_round_trip(mode);
}

} // verus!
