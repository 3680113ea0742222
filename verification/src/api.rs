//! The HTTP surface: what each request does to an engine and what it is answered.
//!
//! The host owns the server, authentication and tenancy; here an id comes as text and a
//! body as a document. An answer is a document, or an [`ApiError`] with its status.
//!
//! The events of a run can be read from any number on and streamed: a client that comes
//! back with the last number it saw goes on exactly where it was.

use vstd::prelude::*;

use crate::artifact::{Artifact, ArtifactView};
use crate::budget::Budget;
use crate::change::written;
use crate::decide::creation;
use crate::document::{opt_text_from, opt_text_in};
use crate::driver::AgentDriver;
use crate::engine::{clock_of, ClockRelation, Engine};
use crate::error::{Error, ErrorView};
use crate::event::{Event, EventView};
use crate::ids::{time_ordered, uuid_hyphenated, uuid_parsed, RunId};
use crate::json::{items_view, opt_json, Json, JsonView};
use crate::run::{Run, RunSpec, RunSpecView, RunView};
use crate::signal::{ApprovalResolution, ApprovalResolutionView};
use crate::store::{views, Backend, Store};
use crate::text::{concat2, opt_text};
use crate::time::Timestamp;

verus! {

// ---- errors --------------------------------------------------------------------

/// Why a request failed, with the message.
#[derive(Debug, PartialEq, Eq)]
pub enum ApiError {
    /// There is no such run.
    NotFound(String),
    /// The request makes no sense.
    BadRequest(String),
    /// The runtime failed.
    Internal(String),
}

/// The model of an [`ApiError`].
pub enum ApiErrorView {
    /// There is no such run.
    NotFound(Seq<char>),
    /// The request makes no sense.
    BadRequest(Seq<char>),
    /// The runtime failed.
    Internal(Seq<char>),
}

impl View for ApiError {
    type V = ApiErrorView;

    open spec fn view(&self) -> ApiErrorView {
        match *self {
            ApiError::NotFound(message) => ApiErrorView::NotFound(message@),
            ApiError::BadRequest(message) => ApiErrorView::BadRequest(message@),
            ApiError::Internal(message) => ApiErrorView::Internal(message@),
        }
    }
}

impl ApiErrorView {
    /// How an error of the runtime is answered: a missing run as one, any other error as
    /// a failure, both with the error's message.
    pub open spec fn of_error(e: ErrorView) -> ApiErrorView {
        match e {
            ErrorView::RunNotFound(_) => ApiErrorView::NotFound(e.text()),
            _ => ApiErrorView::Internal(e.text()),
        }
    }

    /// The message.
    pub open spec fn message(self) -> Seq<char> {
        match self {
            ApiErrorView::NotFound(message) => message,
            ApiErrorView::BadRequest(message) => message,
            ApiErrorView::Internal(message) => message,
        }
    }

    /// The HTTP status.
    pub open spec fn status(self) -> u16 {
        match self {
            ApiErrorView::NotFound(_) => 404,
            ApiErrorView::BadRequest(_) => 400,
            ApiErrorView::Internal(_) => 500,
        }
    }
}

impl ApiError {
    /// How an error of the runtime is answered.
    pub fn from_error(e: Error) -> (r: ApiError)
        ensures
            r@ == ApiErrorView::of_error(e@),
    {
        let message: String = e.message();
        match e {
            Error::RunNotFound(_) => ApiError::NotFound(message),
            _ => ApiError::Internal(message),
        }
    }

    /// The HTTP status.
    pub fn status(&self) -> (r: u16)
        ensures
            r == self@.status(),
    {
        match self {
            ApiError::NotFound(_) => 404,
            ApiError::BadRequest(_) => 400,
            ApiError::Internal(_) => 500,
        }
    }

    /// The body: `{ "error": message }`.
    pub fn body(&self) -> (r: Json)
        ensures
            r@ == JsonView::empty_object().with("error"@, JsonView::String(self@.message())),
    {
        let message: &String = match self {
            ApiError::NotFound(message) => message,
            ApiError::BadRequest(message) => message,
            ApiError::Internal(message) => message,
        };
        Json::object().with("error", Json::String(message.clone()))
    }
}

/// The run that a text in a request names; a text that spells no id is answered as a bad
/// request.
pub open spec fn id_in(s: Seq<char>) -> Result<RunId, ApiErrorView> {
    match uuid_parsed(s) {
        Ok(value) => Ok(RunId { value }),
        Err(message) => Err(ApiErrorView::BadRequest("invalid run id: "@ + message)),
    }
}

/// The model of an id that was read.
pub open spec fn id_read(r: Result<RunId, ApiError>) -> Result<RunId, ApiErrorView> {
    match r {
        Ok(id) => Ok(id),
        Err(e) => Err(e@),
    }
}

/// The run that a text in a request names.
pub fn parse_id(s: &str) -> (r: Result<RunId, ApiError>)
    ensures
        id_read(r) == id_in(s@),
{
    match RunId::parse(s) {
        Ok(id) => Ok(id),
        Err(message) => Err(
            ApiError::BadRequest(concat2("invalid run id: ", message.as_str())),
        ),
    }
}

/// Whether a request about the run that `id` names is answered as a bad request because
/// `id` names none.
pub open spec fn misnamed<T>(r: Result<T, ApiError>, id: Seq<char>) -> bool {
    r is Err && id_in(id) == Err::<RunId, ApiErrorView>(r->Err_0@)
}

/// Whether a failed read of the run `id` is answered rightly: as missing only where it is,
/// and on a backend on which no call fails only so.
pub open spec fn rightly_refused(e: ApiError, store: Store, reliable: bool, id: RunId) -> bool {
    &&& e is NotFound ==> !store.has_run(id) && e@ == ApiErrorView::of_error(
        ErrorView::RunNotFound(id),
    )
    &&& reliable ==> e is NotFound
}

// ---- lists of documents --------------------------------------------------------

/// The documents of runs.
pub open spec fn run_docs(runs: Seq<RunView>) -> JsonView {
    JsonView::Array(runs.map_values(|run: RunView| run.doc()))
}

/// The documents of events.
pub open spec fn event_docs(events: Seq<EventView>) -> JsonView {
    JsonView::Array(events.map_values(|event: EventView| event.doc()))
}

/// The documents of artifacts.
pub open spec fn artifact_docs(artifacts: Seq<ArtifactView>) -> JsonView {
    JsonView::Array(artifacts.map_values(|artifact: ArtifactView| artifact.doc()))
}

fn list_runs(runs: &Vec<Run>) -> (r: Json)
    ensures
        r@ == run_docs(views(runs@)),
{
    let mut docs: Vec<Json> = Vec::new();
    let mut i: usize = 0;
    while i < runs.len()
        invariant
            i <= runs@.len(),
            items_view(docs@) =~= views(runs@).take(i as int).map_values(
                |run: RunView| run.doc(),
            ),
        decreases runs@.len() - i,
    {
        let ghost before = docs@;
        docs.push(runs[i].to_doc());
        proof {
            assert(docs@.drop_last() =~= before);
        }
        i = i + 1;
    }
    proof {
        assert(views(runs@).take(i as int) =~= views(runs@));
    }
    Json::Array(docs)
}

fn list_events(events: &Vec<Event>) -> (r: Json)
    ensures
        r@ == event_docs(views(events@)),
{
    let mut docs: Vec<Json> = Vec::new();
    let mut i: usize = 0;
    while i < events.len()
        invariant
            i <= events@.len(),
            items_view(docs@) =~= views(events@).take(i as int).map_values(
                |event: EventView| event.doc(),
            ),
        decreases events@.len() - i,
    {
        let ghost before = docs@;
        docs.push(events[i].to_doc());
        proof {
            assert(docs@.drop_last() =~= before);
        }
        i = i + 1;
    }
    proof {
        assert(views(events@).take(i as int) =~= views(events@));
    }
    Json::Array(docs)
}

fn list_shelf(artifacts: &Vec<Artifact>) -> (r: Json)
    ensures
        r@ == artifact_docs(views(artifacts@)),
{
    let mut docs: Vec<Json> = Vec::new();
    let mut i: usize = 0;
    while i < artifacts.len()
        invariant
            i <= artifacts@.len(),
            items_view(docs@) =~= views(artifacts@).take(i as int).map_values(
                |artifact: ArtifactView| artifact.doc(),
            ),
        decreases artifacts@.len() - i,
    {
        let ghost before = docs@;
        docs.push(artifacts[i].to_doc());
        proof {
            assert(docs@.drop_last() =~= before);
        }
        i = i + 1;
    }
    proof {
        assert(views(artifacts@).take(i as int) =~= views(artifacts@));
    }
    Json::Array(docs)
}

// ---- requests ------------------------------------------------------------------

/// The body of a request to create a run.
#[derive(Debug)]
pub struct CreateRunRequest {
    /// Selects the driver.
    pub agent_type: String,
    /// The goal.
    pub goal: String,
    /// Structured input, if any.
    pub input: Option<Json>,
    /// Session pointer, if any.
    pub session_ref: Option<String>,
    /// Budget ceilings; none leave the run without limits.
    pub budget: Option<Budget>,
    /// The id of the parent, if any.
    pub parent_id: Option<String>,
}

/// The model of a [`CreateRunRequest`].
pub struct CreateRunRequestView {
    /// Selects the driver.
    pub agent_type: Seq<char>,
    /// The goal.
    pub goal: Seq<char>,
    /// Structured input, if any.
    pub input: Option<JsonView>,
    /// Session pointer, if any.
    pub session_ref: Option<Seq<char>>,
    /// Budget ceilings; none leave the run without limits.
    pub budget: Option<Budget>,
    /// The id of the parent, if any.
    pub parent_id: Option<Seq<char>>,
}

impl View for CreateRunRequest {
    type V = CreateRunRequestView;

    open spec fn view(&self) -> CreateRunRequestView {
        CreateRunRequestView {
            agent_type: self.agent_type@,
            goal: self.goal@,
            input: opt_json(self.input),
            session_ref: opt_text(self.session_ref),
            budget: self.budget,
            parent_id: opt_text(self.parent_id),
        }
    }
}

/// The optional budget in a body.
pub open spec fn opt_budget_in(doc: JsonView) -> Option<Option<Budget>> {
    match doc.given("budget"@) {
        Some(value) => match Budget::of_doc(value) {
            Some(budget) => Some(Some(budget)),
            None => None,
        },
        None => Some(None),
    }
}

impl CreateRunRequestView {
    /// The request that a body stands for: an object with the texts `agent_type` and
    /// `goal`, and optionally `input`, the text `session_ref`, the object `budget` and the
    /// text `parent_id`.
    pub open spec fn of_doc(doc: JsonView) -> Option<CreateRunRequestView> {
        if doc.member_text("agent_type"@) is Some && doc.member_text("goal"@) is Some
            && opt_text_in(doc, "session_ref"@) is Some && opt_budget_in(doc) is Some
            && opt_text_in(doc, "parent_id"@) is Some {
            Some(
                CreateRunRequestView {
                    agent_type: doc.member_text("agent_type"@)->0,
                    goal: doc.member_text("goal"@)->0,
                    input: doc.given("input"@),
                    session_ref: opt_text_in(doc, "session_ref"@)->0,
                    budget: opt_budget_in(doc)->0,
                    parent_id: opt_text_in(doc, "parent_id"@)->0,
                },
            )
        } else {
            None
        }
    }

    /// The run that is asked for, with the given parent.
    pub open spec fn spec_under(self, parent_id: Option<RunId>) -> RunSpecView {
        RunSpecView {
            agent_type: self.agent_type,
            goal: self.goal,
            input: self.input,
            session_ref: self.session_ref,
            budget: match self.budget {
                Some(budget) => budget,
                None => Budget::unlimited(),
            },
            parent_id,
        }
    }

    /// The run that is asked for, or how a parent that is no id is answered.
    pub open spec fn run_spec(self) -> Result<RunSpecView, ApiErrorView> {
        match self.parent_id {
            Some(text) => match id_in(text) {
                Ok(id) => Ok(self.spec_under(Some(id))),
                Err(e) => Err(e),
            },
            None => Ok(self.spec_under(None)),
        }
    }
}

/// The model of a request that was read.
pub open spec fn opt_request(r: Option<CreateRunRequest>) -> Option<CreateRunRequestView> {
    match r {
        Some(request) => Some(request@),
        None => None,
    }
}

/// The model of a run that was asked for.
pub open spec fn spec_read(r: Result<RunSpec, ApiError>) -> Result<RunSpecView, ApiErrorView> {
    match r {
        Ok(spec) => Ok(spec@),
        Err(e) => Err(e@),
    }
}

impl CreateRunRequest {
    /// The request that a body stands for; `None` where it stands for none.
    pub fn from_doc(doc: &Json) -> (r: Option<CreateRunRequest>)
        ensures
            opt_request(r) == CreateRunRequestView::of_doc(doc@),
    {
        let budget: Option<Option<Budget>> = match doc.given("budget") {
            Some(value) => match Budget::from_doc(value) {
                Some(budget) => Some(Some(budget)),
                None => None,
            },
            None => Some(None),
        };
        let input: Option<Json> = match doc.given("input") {
            Some(value) => Some(value.clone()),
            None => None,
        };
        let session_ref: Option<Option<String>> = opt_text_from(doc, "session_ref");
        let parent_id: Option<Option<String>> = opt_text_from(doc, "parent_id");
        match (doc.get_str("agent_type"), doc.get_str("goal"), session_ref, budget, parent_id) {
            (
                Some(agent_type),
                Some(goal),
                Some(session_ref),
                Some(budget),
                Some(parent_id),
            ) => Some(
                CreateRunRequest {
                    agent_type: agent_type.to_owned(),
                    goal: goal.to_owned(),
                    input,
                    session_ref,
                    budget,
                    parent_id,
                },
            ),
            _ => None,
        }
    }

    /// The run that is asked for.
    pub fn into_spec(self) -> (r: Result<RunSpec, ApiError>)
        ensures
            spec_read(r) == self@.run_spec(),
    {
        let parent_id: Option<RunId> = match &self.parent_id {
            Some(text) => match parse_id(text.as_str()) {
                Ok(id) => Some(id),
                Err(e) => return Err(e),
            },
            None => None,
        };
        let budget: Budget = match self.budget {
            Some(budget) => budget,
            None => Budget::default(),
        };
        Ok(
            RunSpec {
                agent_type: self.agent_type,
                goal: self.goal,
                input: self.input,
                session_ref: self.session_ref,
                budget,
                parent_id,
            },
        )
    }
}

/// The body of a request to deliver a signal.
#[derive(Debug)]
pub struct SignalRequest {
    /// The name.
    pub name: String,
    /// The payload.
    pub payload: Json,
}

impl SignalRequest {
    /// The request that a body stands for: an object with the text `name` and optionally
    /// `payload`, which is `null` where it is missing.
    pub fn from_doc(doc: &Json) -> (r: Option<SignalRequest>)
        ensures
            match r {
                Some(request) => doc@.member_text("name"@) == Some(request.name@)
                    && request.payload@ == (match doc@.member("payload"@) {
                    Some(payload) => payload,
                    None => JsonView::Null,
                }),
                None => doc@.member_text("name"@) is None,
            },
    {
        let payload: Json = match doc.get("payload") {
            Some(payload) => payload.clone(),
            None => Json::Null,
        };
        match doc.get_str("name") {
            Some(name) => Some(SignalRequest { name: name.to_owned(), payload }),
            None => None,
        }
    }
}

// ---- handlers ------------------------------------------------------------------

/// The answer to the creation of a run.
pub open spec fn created_doc(id: RunId) -> JsonView {
    JsonView::empty_object().with("run_id"@, JsonView::String(uuid_hyphenated(id.value)))
}

/// The answer to a request that was carried out.
pub open spec fn ok_doc() -> JsonView {
    JsonView::empty_object().with("status"@, JsonView::String("ok"@))
}

fn ok_reply() -> (r: Json)
    ensures
        r@ == ok_doc(),
{
    Json::object().with("status", Json::string("ok"))
}

/// Creates a run. A parent that is no id is a bad request that changes nothing.
pub fn create_run<B: Backend, D: AgentDriver<B>>(
    engine: &mut Engine<B, D>,
    request: CreateRunRequest,
) -> (r: Result<Json, ApiError>)
    requires
        old(engine).inv(),
    ensures
        final(engine).same_setup(old(engine)),
        match request@.run_spec() {
            Err(e) => r is Err && r->Err_0@ == e && final(engine).store() == old(engine).store(),
            Ok(spec) => {
                &&& old(engine).reliable() ==> r is Ok
                &&& r is Ok ==> exists|id: RunId, entry_id: u128, now: Timestamp|
                    {
                        &&& B::may_show(now)
                        &&& time_ordered(id.value)
                        &&& time_ordered(entry_id)
                        &&& r->Ok_0@ == created_doc(id)
                        &&& #[trigger] written(
                            Ok::<RunId, Error>(id),
                            old(engine).reliable(),
                            old(engine).store(),
                            creation(spec.fresh(id, now), entry_id, now),
                            final(engine).store(),
                        )
                    }
            },
        },
{
    let spec: RunSpec = match request.into_spec() {
        Ok(spec) => spec,
        Err(e) => return Err(e),
    };
    match engine.create_run(spec) {
        Ok(id) => Ok(Json::object().with("run_id", Json::String(id.text()))),
        Err(e) => Err(ApiError::from_error(e)),
    }
}

/// Fetches a run.
pub fn get_run<B: Backend, D: AgentDriver<B>>(engine: &Engine<B, D>, id: &str) -> (r: Result<
    Json,
    ApiError,
>)
    requires
        engine.inv(),
    ensures
        match id_in(id@) {
            Err(_) => misnamed(r, id@),
            Ok(run_id) => match r {
                Ok(doc) => engine.store().has_run(run_id) && doc@ == engine.store().run(
                    run_id,
                ).doc(),
                Err(e) => rightly_refused(e, engine.store(), engine.reliable(), run_id),
            },
        },
{
    let run_id: RunId = match parse_id(id) {
        Ok(run_id) => run_id,
        Err(e) => return Err(e),
    };
    match engine.get_run(run_id) {
        Ok(run) => Ok(run.to_doc()),
        Err(e) => Err(ApiError::from_error(e)),
    }
}

/// Whether `doc` lists the children of a run.
pub open spec fn children_listed(store: Store, run_id: RunId, doc: JsonView) -> bool {
    exists|kids: Seq<RunView>| #[trigger]
        store.lists_children(run_id, kids) && doc == run_docs(kids)
}

/// Lists the children of a run; a run that is not there has none.
pub fn list_children<B: Backend, D: AgentDriver<B>>(engine: &Engine<B, D>, id: &str) -> (r: Result<
    Json,
    ApiError,
>)
    requires
        engine.inv(),
    ensures
        match id_in(id@) {
            Err(_) => misnamed(r, id@),
            Ok(run_id) => match r {
                Ok(doc) => children_listed(engine.store(), run_id, doc@),
                Err(_) => !engine.reliable(),
            },
        },
{
    let run_id: RunId = match parse_id(id) {
        Ok(run_id) => run_id,
        Err(e) => return Err(e),
    };
    match engine.backend().list_children(run_id) {
        Ok(kids) => {
            let doc: Json = list_runs(&kids);
            proof {
                assert(engine.store().lists_children(run_id, views(kids@)));
            }
            Ok(doc)
        },
        Err(e) => Err(ApiError::from_error(e)),
    }
}

/// The number from which events are read: that of the request, or 0.
pub open spec fn read_from(from: Option<u64>) -> nat {
    match from {
        Some(from) => from as nat,
        None => 0,
    }
}

/// Lists the events of a run with a number above `from`.
pub fn get_events<B: Backend, D: AgentDriver<B>>(
    engine: &Engine<B, D>,
    id: &str,
    from: Option<u64>,
) -> (r: Result<Json, ApiError>)
    requires
        engine.inv(),
    ensures
        match id_in(id@) {
            Err(_) => misnamed(r, id@),
            Ok(run_id) => match r {
                Ok(doc) => doc@ == event_docs(
                    engine.store().events_after(run_id, read_from(from)),
                ),
                Err(_) => !engine.reliable(),
            },
        },
{
    let run_id: RunId = match parse_id(id) {
        Ok(run_id) => run_id,
        Err(e) => return Err(e),
    };
    let from: u64 = match from {
        Some(from) => from,
        None => 0,
    };
    match engine.backend().read(run_id, from) {
        Ok(events) => Ok(list_events(&events)),
        Err(e) => Err(ApiError::from_error(e)),
    }
}

/// Lists the artifacts of a run.
pub fn list_artifacts<B: Backend, D: AgentDriver<B>>(
    engine: &Engine<B, D>,
    id: &str,
) -> (r: Result<Json, ApiError>)
    requires
        engine.inv(),
    ensures
        match id_in(id@) {
            Err(_) => misnamed(r, id@),
            Ok(run_id) => match r {
                Ok(doc) => doc@ == artifact_docs(engine.store().shelf(run_id)),
                Err(_) => !engine.reliable(),
            },
        },
{
    let run_id: RunId = match parse_id(id) {
        Ok(run_id) => run_id,
        Err(e) => return Err(e),
    };
    match engine.backend().list_artifacts(run_id) {
        Ok(artifacts) => Ok(list_shelf(&artifacts)),
        Err(e) => Err(ApiError::from_error(e)),
    }
}

impl Store {
    /// Whether `after` is this store after a signal was delivered at a time that the clock
    /// shows.
    pub open spec fn got_signal(
        self,
        clock: ClockRelation,
        run_id: RunId,
        name: Seq<char>,
        payload: JsonView,
        after: Store,
    ) -> bool {
        exists|now: Timestamp, entry_id: u128|
            clock(now) && time_ordered(entry_id) && after == #[trigger] self.signalled(
                run_id,
                name,
                payload,
                now,
                entry_id,
            )
    }

    /// Whether `after` is this store after the answer to an approval request was delivered
    /// at a time that the clock shows.
    pub open spec fn got_answer(
        self,
        clock: ClockRelation,
        run_id: RunId,
        resolution: ApprovalResolutionView,
        after: Store,
    ) -> bool {
        exists|now: Timestamp, entry_id: u128|
            clock(now) && time_ordered(entry_id) && after == #[trigger] self.approved(
                run_id,
                resolution,
                now,
                entry_id,
            )
    }
}

/// Delivers a signal.
pub fn signal<B: Backend, D: AgentDriver<B>>(
    engine: &mut Engine<B, D>,
    id: &str,
    request: SignalRequest,
) -> (r: Result<Json, ApiError>)
    requires
        old(engine).inv(),
    ensures
        final(engine).same_setup(old(engine)),
        match id_in(id@) {
            Err(_) => misnamed(r, id@) && final(engine).store() == old(engine).store(),
            Ok(run_id) => {
                &&& old(engine).reliable() ==> r is Ok == old(engine).store().has_run(run_id)
                &&& old(engine).reliable() ==> (r matches Err(e) ==> e@
                    == ApiErrorView::of_error(ErrorView::RunNotFound(run_id)))
                &&& r matches Ok(doc) ==> doc@ == ok_doc()
                &&& r is Ok ==> old(engine).store().got_signal(
                    clock_of::<B>(),
                    run_id,
                    request.name@,
                    request.payload@,
                    final(engine).store(),
                )
            },
        },
{
    let run_id: RunId = match parse_id(id) {
        Ok(run_id) => run_id,
        Err(e) => return Err(e),
    };
    let ghost before = engine.store();
    match engine.signal(run_id, request.name.as_str(), request.payload) {
        Ok(_) => {
            proof {
                assert(before.got_signal(
                    clock_of::<B>(),
                    run_id,
                    request.name@,
                    request.payload@,
                    engine.store(),
                ));
            }
            Ok(ok_reply())
        },
        Err(e) => Err(ApiError::from_error(e)),
    }
}

/// Delivers the answer to an approval request.
pub fn approve<B: Backend, D: AgentDriver<B>>(
    engine: &mut Engine<B, D>,
    id: &str,
    resolution: ApprovalResolution,
) -> (r: Result<Json, ApiError>)
    requires
        old(engine).inv(),
    ensures
        final(engine).same_setup(old(engine)),
        match id_in(id@) {
            Err(_) => misnamed(r, id@) && final(engine).store() == old(engine).store(),
            Ok(run_id) => {
                &&& old(engine).reliable() ==> r is Ok == old(engine).store().has_run(run_id)
                &&& old(engine).reliable() ==> (r matches Err(e) ==> e@
                    == ApiErrorView::of_error(ErrorView::RunNotFound(run_id)))
                &&& r matches Ok(doc) ==> doc@ == ok_doc()
                &&& r is Ok ==> old(engine).store().got_answer(
                    clock_of::<B>(),
                    run_id,
                    resolution@,
                    final(engine).store(),
                )
            },
        },
{
    let run_id: RunId = match parse_id(id) {
        Ok(run_id) => run_id,
        Err(e) => return Err(e),
    };
    let ghost before = engine.store();
    match engine.approve(run_id, resolution) {
        Ok(_) => {
            proof {
                assert(before.got_answer(
                    clock_of::<B>(),
                    run_id,
                    resolution@,
                    engine.store(),
                ));
            }
            Ok(ok_reply())
        },
        Err(e) => Err(ApiError::from_error(e)),
    }
}

/// Cancels a run and what is below it; a run that is not there is nothing to cancel.
pub fn cancel<B: Backend, D: AgentDriver<B>>(engine: &mut Engine<B, D>, id: &str) -> (r: Result<
    Json,
    ApiError,
>)
    requires
        old(engine).inv(),
    ensures
        final(engine).same_setup(old(engine)),
        match id_in(id@) {
            Err(_) => misnamed(r, id@) && final(engine).store() == old(engine).store(),
            Ok(run_id) => {
                &&& r matches Ok(doc) ==> doc@ == ok_doc()
                &&& old(engine).reliable() ==> r is Ok
                &&& r is Ok ==> old(engine).store().got_cancelled(
                    old(engine).reliable(),
                    clock_of::<B>(),
                    run_id,
                    final(engine).store(),
                )
            },
        },
{
    let run_id: RunId = match parse_id(id) {
        Ok(run_id) => run_id,
        Err(e) => return Err(e),
    };
    match engine.cancel(run_id) {
        Ok(_) => Ok(ok_reply()),
        Err(e) => Err(ApiError::from_error(e)),
    }
}

// ---- the stream of events ------------------------------------------------------

/// After this many failed rounds in a row a stream gives up.
pub const MAX_CONSECUTIVE_ERRORS: u32 = 20;

/// How many milliseconds pass between two rounds of a stream.
pub const STREAM_PAUSE_MILLIS: u64 = 250;

/// A stream of the events of one run: the number of the last event it has handed out, and
/// how many rounds in a row have failed.
#[derive(Clone, Copy, Debug, PartialEq, Eq, Structural)]
pub struct EventStream {
    /// The run.
    pub run_id: RunId,
    /// The number of the last event handed out.
    pub cursor: u64,
    /// How many rounds in a row have failed.
    pub errors: u32,
}

/// What a stream does next.
#[derive(Clone, Copy, Debug, PartialEq, Eq, Structural)]
pub enum StreamStep {
    /// Wait, and go on with another round.
    Wait,
    /// Hand out what was read and close with `done`.
    Finish,
    /// Close with an error.
    GiveUp,
}

/// The number of the last of some events, or `cursor` where there are none.
pub open spec fn last_seq(events: Seq<EventView>, cursor: nat) -> nat {
    if events.len() > 0 {
        events.last().seq
    } else {
        cursor
    }
}

/// How the reads of a round of a stream came out.
pub struct RoundReads {
    /// Whether the events could not be read.
    pub read_failed: bool,
    /// Whether the run is final, if it could be read.
    pub found: Option<bool>,
}

impl EventStream {
    /// The step after a round: where the run was found final, the stream finishes; a round
    /// in which a read failed counts, and too many in a row end the stream; any other round
    /// ends the count.
    pub open spec fn judged(self, read_failed: bool, found: Option<bool>) -> (
        EventStream,
        StreamStep,
    ) {
        if found == Some(true) {
            (self, StreamStep::Finish)
        } else if read_failed || found is None {
            if self.errors + 1 >= MAX_CONSECUTIVE_ERRORS {
                (
                    EventStream { errors: MAX_CONSECUTIVE_ERRORS, ..self },
                    StreamStep::GiveUp,
                )
            } else {
                (EventStream { errors: (self.errors + 1) as u32, ..self }, StreamStep::Wait)
            }
        } else {
            (EventStream { errors: 0, ..self }, StreamStep::Wait)
        }
    }

    /// Whether a round of this stream over `store`, in which the reads came out as `reads`
    /// says, gives `events`, leaves `after` and ends with `step`.
    pub open spec fn rounded(
        self,
        store: Store,
        reliable: bool,
        reads: RoundReads,
        events: Seq<EventView>,
        after: EventStream,
        step: StreamStep,
    ) -> bool {
        let wanted = store.events_after(self.run_id, self.cursor as nat);
        let judged = self.judged(reads.read_failed, reads.found);
        &&& reliable ==> !reads.read_failed && reads.found is Some == store.has_run(self.run_id)
        &&& reads.found matches Some(is_final) ==> {
            &&& store.has_run(self.run_id)
            &&& is_final == store.run(self.run_id).status.terminal()
        }
        &&& events == wanted || (reads.read_failed && events.len() == 0)
        &&& after == (EventStream {
            cursor: after.cursor,
            ..judged.0
        })
        &&& after.cursor == last_seq(events, self.cursor as nat)
        &&& step == judged.1
    }

    /// Whether a round of this stream over `store` may give `events`, leave `after` and end
    /// with `step`.
    pub open spec fn round_made(
        self,
        store: Store,
        reliable: bool,
        events: Seq<EventView>,
        after: EventStream,
        step: StreamStep,
    ) -> bool {
        exists|reads: RoundReads| #[trigger]
            self.rounded(store, reliable, reads, events, after, step)
    }

    /// A stream of the events of the run that `id` names with a number above `from`. A run
    /// that is not there is answered as one.
    pub fn open<B: Backend, D: AgentDriver<B>>(
        engine: &Engine<B, D>,
        id: &str,
        from: Option<u64>,
    ) -> (r: Result<EventStream, ApiError>)
        requires
            engine.inv(),
        ensures
            match id_in(id@) {
                Err(_) => misnamed(r, id@),
                Ok(run_id) => match r {
                    Ok(stream) => engine.store().has_run(run_id) && stream.run_id == run_id
                        && stream.cursor == read_from(from) && stream.errors == 0,
                    Err(e) => rightly_refused(e, engine.store(), engine.reliable(), run_id),
                },
            },
    {
        let run_id: RunId = match parse_id(id) {
            Ok(run_id) => run_id,
            Err(e) => return Err(e),
        };
        match engine.get_run(run_id) {
            Ok(_) => {},
            Err(e) => return Err(ApiError::from_error(e)),
        }
        let cursor: u64 = match from {
            Some(from) => from,
            None => 0,
        };
        Ok(EventStream { run_id, cursor, errors: 0 })
    }

    /// Notes that `events` are handed out.
    pub fn advance(&mut self, events: &Vec<Event>)
        ensures
            final(self).cursor == last_seq(views(events@), old(self).cursor as nat),
            final(self).run_id == old(self).run_id,
            final(self).errors == old(self).errors,
    {
        if events.len() > 0 {
            self.cursor = events[events.len() - 1].seq;
        }
    }

    /// Decides what to do after a round: `read_failed` tells whether the events could not
    /// be read, `found` whether the run is final, if it could be read.
    pub fn judge(&mut self, read_failed: bool, found: Option<bool>) -> (r: StreamStep)
        requires
            old(self).errors <= MAX_CONSECUTIVE_ERRORS,
        ensures
            (*final(self), r) == old(self).judged(read_failed, found),
            final(self).errors <= MAX_CONSECUTIVE_ERRORS,
    {
        if let Some(true) = found {
            return StreamStep::Finish;
        }
        if read_failed || found.is_none() {
            if self.errors >= MAX_CONSECUTIVE_ERRORS - 1 {
                self.errors = MAX_CONSECUTIVE_ERRORS;
                return StreamStep::GiveUp;
            }
            self.errors = self.errors + 1;
        } else {
            self.errors = 0;
        }
        StreamStep::Wait
    }

    /// One round: the events that are new, and what to do next. Where the stream finishes,
    /// what was recorded since the events were read is read too, so that the event that
    /// ended the run is not missed.
    pub fn round<B: Backend>(&mut self, backend: &B) -> (r: (Vec<Event>, StreamStep))
        requires
            backend.inv(),
            old(self).errors <= MAX_CONSECUTIVE_ERRORS,
        ensures
            final(self).run_id == old(self).run_id,
            final(self).errors <= MAX_CONSECUTIVE_ERRORS,
            old(self).round_made(
                backend.store(),
                backend.reliable(),
                views(r.0@),
                *final(self),
                r.1,
            ),
            r.1 is Finish ==> {
                &&& backend.store().has_run(old(self).run_id)
                &&& backend.store().run(old(self).run_id).status.terminal()
            },
            r.1 is GiveUp ==> old(self).errors + 1 >= MAX_CONSECUTIVE_ERRORS,
            views(r.0@).is_prefix_of(
                backend.store().events_after(old(self).run_id, old(self).cursor as nat),
            ),
            final(self).cursor == last_seq(views(r.0@), old(self).cursor as nat),
            backend.reliable() && backend.store().has_run(old(self).run_id) ==> {
                &&& views(r.0@) == backend.store().events_after(
                    old(self).run_id,
                    old(self).cursor as nat,
                )
                &&& r.1 == (if backend.store().run(old(self).run_id).status.terminal() {
                    StreamStep::Finish
                } else {
                    StreamStep::Wait
                })
                &&& r.1 is Wait ==> final(self).errors == 0
            },
    {
        let ghost store = backend.store();
        let ghost start = self.cursor as nat;
        let ghost wanted = store.events_after(self.run_id, start);
        proof {
            backend.inv_gives_wf();
            assert(wanted.take(0) =~= Seq::<EventView>::empty());
            assert(wanted.take(wanted.len() as int) =~= wanted);
        }
        let mut read_failed: bool = false;
        let mut events: Vec<Event> = match backend.read(self.run_id, self.cursor) {
            Ok(events) => events,
            Err(_) => {
                read_failed = true;
                Vec::new()
            },
        };
        proof {
            assert(read_failed ==> views(events@) =~= Seq::<EventView>::empty());
        }
        self.advance(&events);
        let found: Option<bool> = match backend.get_run(self.run_id) {
            Ok(run) => Some(run.status.is_terminal()),
            Err(_) => None,
        };
        let step: StreamStep = self.judge(read_failed, found);
        if let StreamStep::Finish = step {
            if let Ok(mut late) = backend.read(self.run_id, self.cursor) {
                let ghost first = views(events@);
                let ghost second = views(late@);
                self.advance(&late);
                events.append(&mut late);
                proof {
                    assert(views(events@) =~= first + second);
                    lemma_events_follow(store, self.run_id, start, first);
                    assert(views(events@) =~= wanted);
                }
            }
        }
        proof {
            let reads = RoundReads { read_failed, found };
            assert(old(self).rounded(
                store,
                backend.reliable(),
                reads,
                views(events@),
                *self,
                step,
            ));
        }
        (events, step)
    }
}

/// What follows the events after `from` in a log, once they are all read or none is.
proof fn lemma_events_follow(store: Store, id: RunId, from: nat, first: Seq<EventView>)
    requires
        store.wf(),
        first == store.events_after(id, from) || first.len() == 0,
    ensures
        first + store.events_after(id, last_seq(first, from)) == store.events_after(id, from),
        first.len() > 0 ==> store.events_after(id, last_seq(first, from)).len() == 0,
{
    let log = store.log(id);
    let rest = store.events_after(id, last_seq(first, from));
    if first.len() > 0 {
        assert(crate::store::numbered(id.value, log));
        assert(first.last() == log[log.len() - 1]);
        assert(last_seq(first, from) == log.len());
        assert(rest =~= Seq::<EventView>::empty());
    }
    assert(first + rest =~= store.events_after(id, from));
}

/// A stream can be resumed: the events that a first read of a log after `from` gives,
/// followed by those that a later read of the grown log gives after the last number seen,
/// are the events of the grown log after `from`, each once and in order.
pub proof fn a_stream_resumes_where_it_was(before: Store, after: Store, id: RunId, from: nat)
    requires
        before.wf(),
        after.wf(),
        before.log(id).is_prefix_of(after.log(id)),
    ensures
        ({
            let seen = before.events_after(id, from);
            seen + after.events_after(id, last_seq(seen, from)) == after.events_after(id, from)
        }),
{
    let seen = before.events_after(id, from);
    let log = before.log(id);
    if seen.len() > 0 {
        assert(crate::store::numbered(id.value, log));
        assert(seen.last() == log[log.len() - 1]);
        assert(last_seq(seen, from) == log.len());
    }
    assert forall|i: int| 0 <= i < log.len() implies log[i] == after.log(id)[i] by {
        assert(after.log(id).take(log.len() as int)[i] == log[i]);
    }
    assert(seen + after.events_after(id, last_seq(seen, from)) =~= after.events_after(id, from));
}

/// A stream whose run is gone from reach gives up: after [`MAX_CONSECUTIVE_ERRORS`] failed
/// rounds in a row, and not before.
pub proof fn a_stream_gives_up_after_too_many_failures(stream: EventStream, found: Option<bool>)
    requires
        found != Some(true),
        stream.errors < MAX_CONSECUTIVE_ERRORS,
    ensures
        stream.judged(true, found).1 is GiveUp <==> stream.errors == MAX_CONSECUTIVE_ERRORS - 1,
        !(stream.judged(true, found).1 is GiveUp) ==> stream.judged(true, found).0.errors
            == stream.errors + 1,
        found is Some ==> stream.judged(false, found).0.errors == 0,
{
}

} // verus!
