//! What running the agents of a framework promises.

use vstd::prelude::*;

use crate::budget::BudgetUsage;
use crate::decide::FreshIds;
use crate::driver::{decoded, pending_payloads, AdvanceView};
use crate::error::ErrorView;
use crate::ids::RunId;
use crate::json::JsonView;
use crate::run::RunView;
use crate::signal::{ApprovalDecision, ApprovalResolutionView, APPROVAL_SIGNAL};
use crate::step::StepStatus;
use crate::store::Store;
use crate::sweet::{
    approval_of, call_payload, decision_on, journaled, memo_record, memoized, preview_of,
    saved_as, DurableIo, PendingCall, ToolApproval, TurnOutcome,
};
use crate::time::Timestamp;

verus! {

/// A message completes the run with its text, a handoff with its target and its payload, and a
/// pause waits for approval.
pub proof fn an_outcome_advances_the_run(outcome: TurnOutcome)
    ensures
        match outcome {
            TurnOutcome::Message { text } => outcome.advance() matches AdvanceView::Complete {
                output,
            } && output.member("text"@) == Some(JsonView::String(text@)),
            TurnOutcome::Handoff { target, payload } => outcome.advance()
                matches AdvanceView::Complete { output } && output.member("handoff"@) is Some && {
                let handoff = output.member("handoff"@)->0;
                &&& handoff.member("target"@) == Some(JsonView::String(target@))
                &&& handoff.member("payload"@) == Some(payload@)
            },
            TurnOutcome::Paused { pending } => outcome.advance() is WaitForApproval,
        },
{
    reveal_strlit("target");
    reveal_strlit("payload");
    assert("target"@.len() == 6 && "payload"@.len() == 7);
}

/// A decision answers the framework as it says; without one the turn pauses.
pub proof fn a_decision_answers_as_it_says(decision: Option<ApprovalDecision>)
    ensures
        decision == Some(ApprovalDecision::Allow) <==> approval_of(decision)
            == ToolApproval::Allow,
        decision == Some(ApprovalDecision::AllowAlways) <==> approval_of(decision)
            == ToolApproval::AllowSession,
        decision == Some(ApprovalDecision::Deny) <==> approval_of(decision)
            == ToolApproval::Deny,
        decision is None <==> approval_of(decision) == ToolApproval::Defer,
{
}

/// The last answer on a call decides it: where an answer is on the call and none after it is,
/// its decision is the decision.
pub proof fn the_last_answer_on_a_call_decides(
    answers: Seq<ApprovalResolutionView>,
    call: Seq<char>,
    i: int,
)
    requires
        0 <= i < answers.len(),
        answers[i].tool_call_id == call,
        forall|j: int| i < j < answers.len() ==> (#[trigger] answers[j]).tool_call_id != call,
    ensures
        decision_on(answers, call) == Some(answers[i].decision),
    decreases answers.len(),
{
    if i < answers.len() - 1 {
        assert(answers[answers.len() - 1].tool_call_id != call);
        the_last_answer_on_a_call_decides(answers.drop_last(), call, i);
    }
}

/// A call that nobody has answered is not decided.
pub proof fn a_call_without_an_answer_is_not_decided(
    answers: Seq<ApprovalResolutionView>,
    call: Seq<char>,
)
    requires
        forall|i: int| 0 <= i < answers.len() ==> (#[trigger] answers[i]).tool_call_id != call,
    ensures
        decision_on(answers, call) is None,
    decreases answers.len(),
{
    if answers.len() > 0 {
        assert(answers[answers.len() - 1].tool_call_id != call);
        a_call_without_an_answer_is_not_decided(answers.drop_last(), call);
    }
}

/// Answering the request decides the call that waits: where a turn pauses with pending calls,
/// an answer to the call that the request names makes the framework's question about the first
/// pending call be answered with that decision, and not deferred, whatever was answered before.
/// The request tells the name and the risk of that call.
pub proof fn answering_the_request_decides_the_call(
    pending: Vec<PendingCall>,
    answers: Seq<ApprovalResolutionView>,
    answer: ApprovalResolutionView,
)
    requires
        pending@.len() > 0,
    ensures
        (TurnOutcome::Paused { pending }).advance() matches AdvanceView::WaitForApproval { request }
            && {
            &&& request.tool_call_id == pending@[0].id@
            &&& request.summary == "Approve tool call: "@ + pending@[0].name@
            &&& request.risk == pending@[0].risk@
            &&& answer.tool_call_id == request.tool_call_id ==> {
                let said = approval_of(decision_on(answers.push(answer), pending@[0].id@));
                &&& said != ToolApproval::Defer
                &&& answer.decision is Allow <==> said == ToolApproval::Allow
                &&& answer.decision is AllowAlways <==> said == ToolApproval::AllowSession
                &&& answer.decision is Deny <==> said == ToolApproval::Deny
            }
        },
{
    crate::sweet::the_last_answer_counts(answers, answer, pending@[0].id@);
}

/// An approval runs full circle. A turn pauses with pending calls and its run is parked; the
/// call that the log of the run names in its last event is answered; when the run is taken up
/// again, the answer is the last of those that its turn takes, and the framework's question
/// about the first pending call is answered with its decision.
pub proof fn an_approval_runs_full_circle(
    store: Store,
    run: RunView,
    delta: BudgetUsage,
    pending: Vec<PendingCall>,
    now: Timestamp,
    fresh: FreshIds,
    answer: ApprovalResolutionView,
    later: Timestamp,
    entry_id: u128,
    answers: Seq<ApprovalResolutionView>,
)
    requires
        store.wf(),
        store.has_run(run.id),
        run.charged(delta).breach(now) is None,
        pending@.len() > 0,
        !store.has_signal(run.id, APPROVAL_SIGNAL@),
        ({
            let parked = store.turn_settled(
                run,
                delta,
                Ok::<AdvanceView, ErrorView>((TurnOutcome::Paused { pending }).advance()),
                now,
                fresh,
            );
            let answered = parked.approved(run.id, answer, later, entry_id);
            &&& parked.log(run.id).last().payload.member("tool_call_id"@) == Some(
                JsonView::String(answer.tool_call_id),
            )
            &&& decoded(pending_payloads(answered.inbox(run.id), APPROVAL_SIGNAL@), answers)
        }),
    ensures
        answer.tool_call_id == pending@[0].id@,
        answers.len() > 0 && answers.last() == answer,
        decision_on(answers, pending@[0].id@) == Some(answer.decision),
{
    let outcome = TurnOutcome::Paused { pending };
    let request = crate::sweet::request_of(pending@);
    let parked = store.turn_settled(
        run,
        delta,
        Ok::<AdvanceView, ErrorView>(outcome.advance()),
        now,
        fresh,
    );
    super::turns::an_approval_is_asked_for(store, run, delta, request, now, fresh);
    let wanted = outcome.advance();
    let list = crate::decide::settling(
        run.charged(delta),
        wanted,
        store.arrived(run.id, wanted),
        now,
        fresh.entry,
        fresh.children@,
    );
    super::lemma_two(store, list);
    super::changes_keep_the_store_well_formed(store, list[0]);
    super::changes_keep_the_store_well_formed(store.apply(list[0]), list[1]);
    super::an_answer_reaches_the_parked_run(parked, run.id, answer, later, entry_id);
    let payloads = pending_payloads(parked.inbox(run.id), APPROVAL_SIGNAL@);
    let all = payloads.push(answer.payload());
    assert(ApprovalResolutionView::of_payload(all[all.len() - 1]) == Some(
        answers[all.len() - 1],
    ));
    assert(answers.last() == answer);
}

/// Of a tool's result the first five hundred characters are journaled, all of it where it is
/// shorter.
pub proof fn a_preview_is_the_beginning(result: Seq<char>)
    ensures
        preview_of(result).is_prefix_of(result),
        preview_of(result).len() == (if result.len() <= 500 {
            result.len()
        } else {
            500
        }),
{
    assert(result.take(result.len() as int) =~= result);
}

/// What is journaled of a tool call is in the log of the run, as a tool call, with its id and
/// its name; a store that can be relied on does not lose it.
pub proof fn a_tool_call_is_journaled(
    io: DurableIo,
    before: Store,
    id: Seq<char>,
    name: Seq<char>,
    at: Timestamp,
    after: Store,
)
    requires
        journaled(io, before, true, call_payload(id, name), at, after),
    ensures
        after.log(io.run_id).len() == before.log(io.run_id).len() + 1,
        after.log(io.run_id).last().kind is ToolCallRecorded,
        after.log(io.run_id).last().payload.member("id"@) == Some(JsonView::String(id)),
        after.log(io.run_id).last().payload.member("name"@) == Some(JsonView::String(name)),
        after.log(io.run_id).last().at == at,
        after.runs == before.runs,
{
    reveal_strlit("id");
    reveal_strlit("name");
    assert("id"@.len() == 2 && "name"@.len() == 4);
}

/// A tool's output is given from the journal exactly where a completed record under the key of
/// the call has one, and then that one.
pub proof fn only_a_completed_call_is_memoized(store: Store, id: RunId, key: Seq<char>)
    ensures
        memoized(store, id, key) is Some <==> store.steps.contains_key((id.value, key))
            && store.steps[(id.value, key)].status == StepStatus::Completed && store.steps[(
            id.value,
            key,
        )].output is Some,
        memoized(store, id, key) is Some ==> memoized(store, id, key) == store.steps[(
            id.value,
            key,
        )].output,
{
}

/// A call that was saved is given from then on, to calls with the same key in the same run, and
/// to no others.
pub proof fn a_saved_call_is_given_from_then_on(
    before: Store,
    id: RunId,
    key: Seq<char>,
    output: JsonView,
    at: Timestamp,
    after: Store,
    other_id: RunId,
    other_key: Seq<char>,
)
    requires
        saved_as(before, true, memo_record(id, key, output, at), after),
    ensures
        memoized(after, id, key) == Some(output),
        crate::driver::memo(after, id, key) == Some(output),
        (other_id, other_key) != (id, key) ==> memoized(after, other_id, other_key) == memoized(
            before,
            other_id,
            other_key,
        ),
        after.steps[(id.value, key)].attempts == 1,
        after.steps[(id.value, key)].updated_at == at,
        after.runs == before.runs,
        after.events == before.events,
{
}

} // verus!
