//! What the answers to requests promise.

use vstd::prelude::*;

use crate::api::{
    artifact_docs, children_listed, created_doc, event_docs, id_in, last_seq, ok_doc, run_docs,
    ApiErrorView, CreateRunRequestView, EventStream, StreamStep, MAX_CONSECUTIVE_ERRORS,
};
use crate::artifact::ArtifactView;
use crate::budget::Budget;
use crate::change::written;
use crate::decide::creation;
use crate::error::{Error, ErrorView};
use crate::event::EventView;
use crate::ids::{uuid_hyphenated, uuid_parsed, RunId};
use crate::json::JsonView;
use crate::run::RunView;
use crate::store::Store;
use crate::time::Timestamp;

verus! {

/// A body asks for a run exactly where its agent type and its goal are texts, and its session,
/// its parent and its budget are what they should be or are not given.
pub proof fn a_body_asks_for_a_run(body: JsonView)
    ensures
        CreateRunRequestView::of_doc(body) is Some <==> {
            &&& body.member("agent_type"@) matches Some(JsonView::String(_))
            &&& body.member("goal"@) matches Some(JsonView::String(_))
            &&& body.given("session_ref"@) is None || (body.member("session_ref"@) matches Some(
                JsonView::String(_),
            ))
            &&& body.given("parent_id"@) is None || (body.member("parent_id"@) matches Some(
                JsonView::String(_),
            ))
            &&& body.given("budget"@) is None || Budget::of_doc(body.given("budget"@)->0) is Some
        },
{
}

/// A run that is created from a body carries what the body gave: once the creation has
/// succeeded, the stored run's agent type, goal, input and session are the members of those
/// names, its budget is the one that was given, or without limits, and its parent is the run
/// whose id was given, or none. Fetching the run then shows the same members.
pub proof fn a_run_created_from_a_body_carries_what_the_body_gave(
    body: JsonView,
    request: CreateRunRequestView,
    reliable: bool,
    before: Store,
    id: RunId,
    entry_id: u128,
    now: Timestamp,
    after: Store,
)
    requires
        CreateRunRequestView::of_doc(body) == Some(request),
        request.run_spec() is Ok,
        written(
            Ok::<RunId, Error>(id),
            reliable,
            before,
            creation(request.run_spec()->Ok_0.fresh(id, now), entry_id, now),
            after,
        ),
    ensures
        ({
            let run = after.run(id);
            let shown = run.doc();
            &&& after.has_run(id)
            &&& run.id == id
            &&& body.member("agent_type"@) == Some(JsonView::String(run.agent_type))
            &&& body.member("goal"@) == Some(JsonView::String(run.goal))
            &&& run.input matches Some(input) ==> body.member("input"@) == Some(input)
            &&& run.input is None ==> body.member("input"@) is None || body.member("input"@)
                == Some(JsonView::Null)
            &&& body.member("input"@) matches Some(input) ==> input == JsonView::Null || run.input
                == Some(input)
            &&& run.session_ref matches Some(text) ==> body.member("session_ref"@) == Some(
                JsonView::String(text),
            )
            &&& run.session_ref is None ==> body.member("session_ref"@) is None || body.member(
                "session_ref"@,
            ) == Some(JsonView::Null)
            &&& body.given("budget"@) is None ==> run.budget == (Budget {
                max_tokens: None,
                max_cost_usd: None,
                max_wall_clock_secs: None,
                max_tool_calls: None,
                max_children: None,
            })
            &&& body.given("budget"@) matches Some(budget) ==> Budget::of_doc(budget) == Some(
                run.budget,
            )
            &&& run.parent_id is None <==> body.given("parent_id"@) is None
            &&& run.parent_id matches Some(p) ==> (body.member("parent_id"@) matches Some(
                JsonView::String(text),
            ) && uuid_parsed(text) == Ok::<u128, Seq<char>>(p.value))
            &&& run.status is Pending
            &&& run.created_at == now
            &&& shown.member("agent_type"@) == body.member("agent_type"@)
            &&& shown.member("goal"@) == body.member("goal"@)
            &&& body.given("input"@) is Some ==> shown.member("input"@) == body.member("input"@)
            &&& body.given("session_ref"@) is Some ==> shown.member("session_ref"@)
                == body.member("session_ref"@)
        }),
{
    let spec = request.run_spec()->Ok_0;
    super::storage::a_created_run_is_what_its_spec_asks_for(before, spec, id, entry_id, now);
    super::documents::the_document_of_a_run_tells_its_record(after.run(id));
}

/// A parent that is no id makes a bad request: the message says that the run id is invalid.
pub proof fn a_parent_that_is_no_id_is_a_bad_request(request: CreateRunRequestView)
    ensures
        request.run_spec() is Err <==> request.parent_id is Some && uuid_parsed(
            request.parent_id->0,
        ) is Err,
        request.run_spec() is Err ==> request.run_spec() == Err::<
            crate::run::RunSpecView,
            ApiErrorView,
        >(
            ApiErrorView::BadRequest(
                "invalid run id: "@ + uuid_parsed(request.parent_id->0)->Err_0,
            ),
        ),
{
}

/// The id in a path is the id that its text spells; a text that spells none is a bad request.
pub proof fn a_path_names_a_run_by_its_id(text: Seq<char>)
    ensures
        uuid_parsed(text) matches Ok(value) ==> id_in(text) == Ok::<RunId, ApiErrorView>(
            RunId { value },
        ),
        uuid_parsed(text) is Err ==> (id_in(text) matches Err(e) && e.status() == 400),
{
}

/// A run that is not there is answered with 404, a bad request with 400, and whatever goes
/// wrong besides with 500; the message is that of the error.
pub proof fn errors_are_answered_with_their_status(e: ErrorView, message: Seq<char>)
    ensures
        e is RunNotFound ==> ApiErrorView::of_error(e).status() == 404,
        !(e is RunNotFound) ==> ApiErrorView::of_error(e).status() == 500,
        ApiErrorView::of_error(e).message() == e.text(),
        ApiErrorView::BadRequest(message).status() == 400,
        ApiErrorView::BadRequest(message).message() == message,
        ApiErrorView::NotFound(message).status() == 404,
        ApiErrorView::NotFound(message).message() == message,
        ApiErrorView::Internal(message).status() == 500,
        ApiErrorView::Internal(message).message() == message,
{
}

/// The message of an error tells what went wrong.
pub proof fn messages_tell_the_error(
    id: RunId,
    text: Seq<char>,
    key: Seq<char>,
    attempts: u32,
)
    ensures
        ErrorView::RunNotFound(id).text() == "run not found: "@ + uuid_hyphenated(id.value),
        ErrorView::NoDriver(text).text() == "no driver registered for agent_type "@
            + crate::text::debug_quoted(text),
        ErrorView::Serde(text).text() == "serialization: "@ + text,
        ErrorView::Storage(text).text() == "storage: "@ + text,
        ErrorView::BudgetExceeded(text).text() == "budget exceeded: "@ + text,
        ErrorView::Driver(text).text() == "driver: "@ + text,
        ErrorView::Message(text).text() == text,
        (ErrorView::StepExhausted { key, attempts, message: text }).text() == "step "@
            + crate::text::debug_quoted(key) + " exhausted after "@ + crate::text::decimal(
            attempts as nat,
        ) + " attempts: "@ + text,
{
}

/// Creating a run is answered with its id, and what was carried out with `ok`.
pub proof fn what_was_done_is_answered(id: RunId)
    ensures
        created_doc(id).member("run_id"@) == Some(JsonView::String(uuid_hyphenated(id.value))),
        ok_doc().member("status"@) == Some(JsonView::String("ok"@)),
{
}

/// Lists are answered in full and in order: one document for each entry.
pub proof fn lists_are_answered_in_full(
    runs: Seq<RunView>,
    events: Seq<EventView>,
    artifacts: Seq<ArtifactView>,
    i: int,
)
    ensures
        run_docs(runs) matches JsonView::Array(docs) && docs.len() == runs.len() && (0 <= i
            < runs.len() ==> docs[i] == runs[i].doc()),
        event_docs(events) matches JsonView::Array(docs) && docs.len() == events.len() && (0 <= i
            < events.len() ==> docs[i] == events[i].doc()),
        artifact_docs(artifacts) matches JsonView::Array(docs) && docs.len() == artifacts.len()
            && (0 <= i < artifacts.len() ==> docs[i] == artifacts[i].doc()),
{
}

/// The children of a run are answered in full: every run that has it as its parent is among the
/// documents.
pub proof fn every_child_is_answered(store: Store, id: RunId, doc: JsonView, k: u128)
    requires
        store.wf(),
        children_listed(store, id, doc),
        store.runs.contains_key(k),
        store.runs[k].parent_id == Some(id),
    ensures
        doc matches JsonView::Array(docs) && docs.contains(store.runs[k].doc()),
{
    let kids = choose|kids: Seq<RunView>| #[trigger]
        store.lists_children(id, kids) && doc == run_docs(kids);
    assert(kids.contains(store.runs[k]));
    let i = choose|i: int| 0 <= i < kids.len() && kids[i] == store.runs[k];
    if let JsonView::Array(docs) = doc {
        assert(docs[i] == store.runs[k].doc());
    }
}

// ---- streams -------------------------------------------------------------------

/// A stream goes on from where it was: a round gives the events above its cursor, each once and
/// in order, and moves the cursor to the last of them. So the rounds of a stream together give
/// the log without a gap and without an event twice.
pub proof fn a_round_gives_what_is_new(
    stream: EventStream,
    store: Store,
    events: Seq<EventView>,
    after: EventStream,
    step: StreamStep,
)
    requires
        store.wf(),
        store.has_run(stream.run_id),
        stream.cursor <= store.log(stream.run_id).len(),
        stream.round_made(store, true, events, after, step),
    ensures
        events == store.log(stream.run_id).skip(stream.cursor as int),
        after.cursor as nat == store.log(stream.run_id).len(),
        after.run_id == stream.run_id,
        step is Finish <==> {
            ||| store.run(stream.run_id).status is Completed
            ||| store.run(stream.run_id).status is Failed
            ||| store.run(stream.run_id).status is Cancelled
        },
        !(step is Finish) ==> step is Wait && after.errors == 0,
{
    let reads = choose|reads: crate::api::RoundReads| #[trigger]
        stream.rounded(store, true, reads, events, after, step);
    let log = store.log(stream.run_id);
    if store.events.contains_key(stream.run_id.value) {
        assert(crate::store::numbered(stream.run_id.value, log));
    }
    if events.len() > 0 {
        assert(events.last() == log[log.len() - 1]);
    } else {
        assert(log.len() == stream.cursor);
    }
}

/// The cursor of a stream is the number of the last event that it has given; a round without
/// events leaves it where it is.
pub proof fn the_cursor_is_the_last_number(events: Seq<EventView>, cursor: nat)
    ensures
        events.len() > 0 ==> last_seq(events, cursor) == events[events.len() - 1].seq,
        events.len() == 0 ==> last_seq(events, cursor) == cursor,
{
}

/// A stream ends when its run has ended, whatever failed before; it gives up exactly at the
/// twentieth failed round in a row, and one round that does not fail makes it count from the
/// beginning.
pub proof fn a_stream_gives_up_after_twenty_failures(
    stream: EventStream,
    read_failed: bool,
    found: Option<bool>,
)
    requires
        stream.errors < MAX_CONSECUTIVE_ERRORS,
    ensures
        MAX_CONSECUTIVE_ERRORS == 20,
        ({
            let (after, step) = stream.judged(read_failed, found);
            &&& found == Some(true) ==> step is Finish
            &&& found != Some(true) && (read_failed || found is None) ==> {
                &&& step is GiveUp <==> stream.errors == 19
                &&& !(step is GiveUp) ==> step is Wait
                &&& after.errors == stream.errors + 1
            }
            &&& !read_failed && found == Some(false) ==> step is Wait && after.errors == 0
            &&& after.cursor == stream.cursor
            &&& after.run_id == stream.run_id
        }),
{
}

} // verus!
