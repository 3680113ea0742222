//! Running Sweet agents: what an adapter to that agent framework decides.
//!
//! The adapter builds an agent for a run, lets it take one turn, and hands back what came
//! of it. Here stand which turn is taken, how its outcome advances the run, what is
//! journaled of tool calls, how a delivered approval decides a call, and how a tool's
//! result is memoized, so that a side effect that is done is not done again.

use vstd::prelude::*;

use crate::driver::{
    all_decode, approvals_drained, decoded, pending_payloads, Advance, AdvanceView,
    ApprovalRequest, ApprovalRequestView, RunContext,
};
use crate::error::Error;
use crate::event::EventKind;
use crate::ids::RunId;
use crate::json::{opt_json, Json, JsonView};
use crate::signal::{
    ApprovalDecision, ApprovalResolution, ApprovalResolutionView, APPROVAL_SIGNAL,
};
use crate::spelling::{
    different_documents_are_told_apart, plain, tellable, told, what_is_told_is_readable,
};
use crate::step::{StepKey, StepRecord, StepRecordView, StepStatus};
use crate::store::{views, Backend, Store};
use crate::text::{chars_of, concat2, concat3, concat4, decimal, decimal_text, opt_text, same_text};
use crate::time::Timestamp;
use crate::wire::{as_kept, json_printed, reads_as};

verus! {

// ---- building an agent ---------------------------------------------------------

/// What an agent for a run is built or rehydrated from.
#[derive(Debug)]
pub struct BuildContext {
    /// The run that is advanced.
    pub run_id: RunId,
    /// The run's goal, which is the user's message of the turn.
    pub goal: String,
    /// Structured input, if any.
    pub input: Option<Json>,
    /// The session to rehydrate, if any.
    pub session_ref: Option<String>,
}

impl BuildContext {
    /// What an agent for the run of `ctx` is built from.
    pub fn of<B: Backend>(ctx: &RunContext<B>) -> (r: BuildContext)
        ensures
            r.run_id == ctx.id(),
            r.goal@ == ctx.snapshot().goal,
            opt_json(r.input) == ctx.snapshot().input,
            opt_text(r.session_ref) == ctx.snapshot().session_ref,
    {
        let input: Option<Json> = match ctx.input() {
            Some(input) => Some(input.clone()),
            None => None,
        };
        let session_ref: Option<String> = match ctx.session_ref() {
            Some(session_ref) => Some(session_ref.to_owned()),
            None => None,
        };
        BuildContext { run_id: ctx.run_id(), goal: ctx.goal().to_owned(), input, session_ref }
    }
}

/// The turn that an agent takes.
#[derive(Debug, PartialEq, Eq)]
pub enum Turn {
    /// Finish the turn that waits for approvals.
    Resume,
    /// Begin a turn with this message of the user.
    Begin(String),
}

/// The turn that an agent takes: a rehydrated turn that waits for approvals is finished,
/// which asks the model for nothing that it has said already; else one begins with the
/// run's goal.
pub fn choose_turn(has_pending_approvals: bool, goal: &str) -> (r: Turn)
    ensures
        has_pending_approvals ==> r is Resume,
        !has_pending_approvals ==> (r matches Turn::Begin(message) && message@ == goal@),
{
    if has_pending_approvals {
        Turn::Resume
    } else {
        Turn::Begin(goal.to_owned())
    }
}

// ---- the outcome of a turn -----------------------------------------------------

/// A tool call that waits for approval.
#[derive(Debug, PartialEq, Eq)]
pub struct PendingCall {
    /// The id of the call.
    pub id: String,
    /// The name of the tool.
    pub name: String,
    /// The risk, as the framework prints it.
    pub risk: String,
}

/// What came of a turn.
#[derive(Debug)]
pub enum TurnOutcome {
    /// The agent said something.
    Message {
        /// The text.
        text: String,
    },
    /// The agent handed the task over.
    Handoff {
        /// To whom.
        target: String,
        /// With what.
        payload: Json,
    },
    /// The turn waits for approvals.
    Paused {
        /// The calls that wait.
        pending: Vec<PendingCall>,
    },
}

/// The request for the first of the calls that wait; a general one where there is none.
pub open spec fn request_of(pending: Seq<PendingCall>) -> ApprovalRequestView {
    if pending.len() > 0 {
        ApprovalRequestView {
            tool_call_id: pending[0].id@,
            summary: "Approve tool call: "@ + pending[0].name@,
            risk: pending[0].risk@,
        }
    } else {
        ApprovalRequestView {
            tool_call_id: Seq::<char>::empty(),
            summary: "approval required"@,
            risk: "unknown"@,
        }
    }
}

impl TurnOutcome {
    /// How an outcome advances the run: a message or a handoff completes it, a pause parks
    /// it for approval.
    pub open spec fn advance(self) -> AdvanceView {
        match self {
            TurnOutcome::Message { text } => AdvanceView::Complete {
                output: JsonView::empty_object().with("text"@, JsonView::String(text@)),
            },
            TurnOutcome::Handoff { target, payload } => AdvanceView::Complete {
                output: JsonView::empty_object().with(
                    "handoff"@,
                    JsonView::empty_object().with("target"@, JsonView::String(target@)).with(
                        "payload"@,
                        payload@,
                    ),
                ),
            },
            TurnOutcome::Paused { pending } => AdvanceView::WaitForApproval {
                request: request_of(pending@),
            },
        }
    }

    /// How this outcome advances the run.
    pub fn into_advance(self) -> (r: Advance)
        ensures
            r@ == self.advance(),
    {
        match self {
            TurnOutcome::Message { text } => Advance::Complete {
                output: Json::object().with("text", Json::String(text)),
            },
            TurnOutcome::Handoff { target, payload } => Advance::Complete {
                output: Json::object().with(
                    "handoff",
                    Json::object().with("target", Json::String(target)).with("payload", payload),
                ),
            },
            TurnOutcome::Paused { pending } => {
                let request: ApprovalRequest = if pending.len() > 0 {
                    ApprovalRequest {
                        tool_call_id: pending[0].id.clone(),
                        summary: concat2("Approve tool call: ", pending[0].name.as_str()),
                        risk: pending[0].risk.clone(),
                    }
                } else {
                    ApprovalRequest {
                        tool_call_id: String::new(),
                        summary: "approval required".to_owned(),
                        risk: "unknown".to_owned(),
                    }
                };
                Advance::WaitForApproval { request }
            },
        }
    }
}

/// What a turn that the framework ran gives the engine: its advance, or the error as an
/// error of the driver.
pub fn turn_result(outcome: Result<TurnOutcome, String>) -> (r: Result<Advance, Error>)
    ensures
        match outcome {
            Ok(outcome) => r matches Ok(advance) && advance@ == outcome.advance(),
            Err(message) => r matches Err(e) && e@ == crate::error::ErrorView::Driver(message@),
        },
{
    match outcome {
        Ok(outcome) => Ok(outcome.into_advance()),
        Err(message) => Err(Error::driver(message)),
    }
}

// ---- journaling and approvals --------------------------------------------------

/// How the framework is answered when it asks for the approval of a tool call.
#[derive(Clone, Copy, Debug, PartialEq, Eq, Structural)]
pub enum ToolApproval {
    /// Allow this one call.
    Allow,
    /// Allow this call and those like it for the session.
    AllowSession,
    /// Deny it.
    Deny,
    /// Nobody has decided yet: pause the turn.
    Defer,
}

/// The decision on a tool call among delivered answers: the last one on it counts.
pub open spec fn decision_on(
    answers: Seq<ApprovalResolutionView>,
    tool_call_id: Seq<char>,
) -> Option<ApprovalDecision>
    decreases answers.len(),
{
    if answers.len() == 0 {
        None
    } else if answers.last().tool_call_id == tool_call_id {
        Some(answers.last().decision)
    } else {
        decision_on(answers.drop_last(), tool_call_id)
    }
}

/// How a decision answers the framework.
pub open spec fn approval_of(decision: Option<ApprovalDecision>) -> ToolApproval {
    match decision {
        Some(ApprovalDecision::Allow) => ToolApproval::Allow,
        Some(ApprovalDecision::AllowAlways) => ToolApproval::AllowSession,
        Some(ApprovalDecision::Deny) => ToolApproval::Deny,
        None => ToolApproval::Defer,
    }
}

/// How many characters of a tool's result are journaled.
pub const PREVIEW_CHARS: usize = 500;

/// The beginning of a tool's result.
pub open spec fn preview_of(result: Seq<char>) -> Seq<char> {
    if result.len() <= PREVIEW_CHARS {
        result
    } else {
        result.take(PREVIEW_CHARS as int)
    }
}

/// The payload of the event that records a tool call.
pub open spec fn call_payload(id: Seq<char>, name: Seq<char>) -> JsonView {
    JsonView::empty_object().with("id"@, JsonView::String(id)).with(
        "name"@,
        JsonView::String(name),
    )
}

fn preview_text(result: &str) -> (r: String)
    ensures
        r@ == preview_of(result@),
{
    let chars: Vec<char> = chars_of(result);
    let mut text: String = String::new();
    let mut i: usize = 0;
    while i < chars.len() && i < PREVIEW_CHARS
        invariant
            i <= chars@.len(),
            i <= PREVIEW_CHARS,
            chars@ == result@,
            text@ =~= result@.take(i as int),
        decreases chars@.len() - i,
    {
        text.push(chars[i]);
        i = i + 1;
    }
    proof {
        if result@.len() <= PREVIEW_CHARS {
            assert(result@.take(i as int) =~= result@);
        }
    }
    text
}

/// What an agent's turn is told and tells while it runs: the tool calls are journaled for
/// the run, and the answers delivered for it decide its approvals.
#[derive(Debug)]
pub struct DurableIo {
    /// The run.
    pub run_id: RunId,
    /// The answers delivered for the run.
    pub approvals: Vec<ApprovalResolution>,
}

impl DurableIo {
    /// For `run_id`, without answers: a call that needs approval pauses the turn.
    pub fn new(run_id: RunId) -> (r: DurableIo)
        ensures
            r.run_id == run_id,
            r.approvals@ == Seq::<ApprovalResolution>::empty(),
    {
        DurableIo::with_approvals(run_id, Vec::new())
    }

    /// For `run_id`, with the answers that [`RunContext::take_approvals`] gave.
    pub fn with_approvals(run_id: RunId, approvals: Vec<ApprovalResolution>) -> (r: DurableIo)
        ensures
            r.run_id == run_id,
            r.approvals == approvals,
    {
        DurableIo { run_id, approvals }
    }

    /// For the run of `ctx`, with every answer that was delivered since the run was parked.
    pub fn of<B: Backend>(ctx: &mut RunContext<B>) -> (r: Result<DurableIo, Error>)
        requires
            old(ctx).inv(),
        ensures
            final(ctx).same_turn(old(ctx)),
            ({
                let payloads = pending_payloads(
                    old(ctx).store().inbox(old(ctx).id()),
                    APPROVAL_SIGNAL@,
                );
                match r {
                    Ok(io) => io.run_id == old(ctx).id() && decoded(payloads, views(io.approvals@))
                        && final(ctx).store() == approvals_drained(
                        old(ctx).store(),
                        old(ctx).id(),
                    ),
                    Err(e) => old(ctx).reliable() ==> e is Serde && !all_decode(payloads),
                }
            }),
            final(ctx).store().runs == old(ctx).store().runs,
    {
        match ctx.take_approvals() {
            Ok(approvals) => Ok(DurableIo::with_approvals(ctx.run_id(), approvals)),
            Err(e) => Err(e),
        }
    }

    /// Journals a tool call. A journal that fails does not break the turn.
    pub fn on_tool_call<B: Backend>(
        &self,
        backend: &mut B,
        id: &str,
        name: &str,
        at: Timestamp,
    )
        requires
            old(backend).inv(),
        ensures
            final(backend).inv(),
            final(backend).reliable() == old(backend).reliable(),
            journaled(
                *self,
                old(backend).store(),
                old(backend).reliable(),
                call_payload(id@, name@),
                at,
                final(backend).store(),
            ),
    {
        let payload: Json = Json::object().with("id", Json::string(id)).with(
            "name",
            Json::string(name),
        );
        let _ = backend.append(self.run_id, EventKind::ToolCallRecorded, payload, at);
    }

    /// Journals the result of a tool call, with the beginning of its text. A journal that
    /// fails does not break the turn.
    pub fn on_tool_result<B: Backend>(
        &self,
        backend: &mut B,
        id: &str,
        name: &str,
        result: &str,
        at: Timestamp,
    )
        requires
            old(backend).inv(),
        ensures
            final(backend).inv(),
            final(backend).reliable() == old(backend).reliable(),
            journaled(
                *self,
                old(backend).store(),
                old(backend).reliable(),
                call_payload(id@, name@).with(
                    "result_preview"@,
                    JsonView::String(preview_of(result@)),
                ),
                at,
                final(backend).store(),
            ),
    {
        let payload: Json = Json::object().with("id", Json::string(id)).with(
            "name",
            Json::string(name),
        ).with("result_preview", Json::String(preview_text(result)));
        let _ = backend.append(self.run_id, EventKind::ToolCallRecorded, payload, at);
    }

    /// How the framework is answered when it asks for the approval of the call `id`: by the
    /// delivered decision, or with a pause where there is none.
    pub fn on_tool_approval(&self, id: &str) -> (r: ToolApproval)
        ensures
            r == approval_of(decision_on(views(self.approvals@), id@)),
    {
        let mut i: usize = self.approvals.len();
        let ghost answers = views(self.approvals@);
        proof {
            assert(answers.take(answers.len() as int) =~= answers);
        }
        while i > 0
            invariant
                i <= self.approvals@.len(),
                answers == views(self.approvals@),
                decision_on(answers, id@) == decision_on(answers.take(i as int), id@),
            decreases i,
        {
            i = i - 1;
            proof {
                assert(answers.take(i + 1).drop_last() =~= answers.take(i as int));
                assert(answers.take(i + 1).last() == self.approvals@[i as int]@);
            }
            if same_text(self.approvals[i].tool_call_id.as_str(), id) {
                return match self.approvals[i].decision {
                    ApprovalDecision::Allow => ToolApproval::Allow,
                    ApprovalDecision::AllowAlways => ToolApproval::AllowSession,
                    ApprovalDecision::Deny => ToolApproval::Deny,
                };
            }
        }
        ToolApproval::Defer
    }
}

/// Prepares the turn of an agent that was built for the run of `ctx`, or could not be built.
/// `built` says whether the agent has a turn that waits for approvals, or why there is no
/// agent: then the run's answers are left where they are, and the error is the driver's.
/// Else the answers delivered since the run was parked are taken for the turn.
pub fn prepare_turn<B: Backend>(ctx: &mut RunContext<B>, built: Result<bool, String>) -> (r: Result<
    (DurableIo, Turn),
    Error,
>)
    requires
        old(ctx).inv(),
    ensures
        final(ctx).same_turn(old(ctx)),
        final(ctx).store().runs == old(ctx).store().runs,
        match built {
            Err(message) => {
                &&& r matches Err(e)
                &&& e@ == crate::error::ErrorView::Driver(message@)
                &&& final(ctx).store() == old(ctx).store()
            },
            Ok(waits) => {
                let payloads = pending_payloads(
                    old(ctx).store().inbox(old(ctx).id()),
                    APPROVAL_SIGNAL@,
                );
                match r {
                    Ok((io, turn)) => {
                        &&& io.run_id == old(ctx).id()
                        &&& decoded(payloads, views(io.approvals@))
                        &&& final(ctx).store() == approvals_drained(
                            old(ctx).store(),
                            old(ctx).id(),
                        )
                        &&& waits ==> turn is Resume
                        &&& !waits ==> (turn matches Turn::Begin(message) && message@
                            == old(ctx).snapshot().goal)
                    },
                    Err(e) => old(ctx).reliable() ==> e is Serde && !all_decode(payloads),
                }
            },
        },
{
    let waits: bool = match built {
        Ok(waits) => waits,
        Err(message) => return Err(Error::driver(message)),
    };
    match DurableIo::of(ctx) {
        Ok(io) => {
            let turn: Turn = choose_turn(waits, ctx.goal());
            Ok((io, turn))
        },
        Err(e) => Err(e),
    }
}

/// Whether an event was journaled for the run of `io`; a backend on which calls may fail may
/// have lost it.
pub open spec fn journaled(
    io: DurableIo,
    before: Store,
    reliable: bool,
    payload: JsonView,
    at: Timestamp,
    after: Store,
) -> bool {
    ||| after == before.append(io.run_id, EventKind::ToolCallRecorded, payload, at)
    ||| !reliable && after == before
}

// ---- memoized tools ------------------------------------------------------------

/// The key under which a call of a tool with the given arguments is memoized: the name and
/// the printed arguments, then the length of the name, by which the two are told apart. The
/// key of arguments that are spelled, as those with fractions are, ends in a letter.
pub open spec fn call_key(tool_name: Seq<char>, args: JsonView) -> Seq<char> {
    "tool:"@ + tool_name + ":"@ + args_text(args) + (":"@ + decimal(tool_name.len())) + (if plain(
        args,
    ) {
        ""@
    } else {
        "s"@
    })
}

/// The printed arguments of a call; arguments that are not plain are spelled first.
pub open spec fn args_text(args: JsonView) -> Seq<char> {
    json_printed(as_kept(told(args)))
}

/// Whether the printed arguments of a call tell the arguments: what stands for the arguments
/// is read back from the text. [`DurableTool::step_key`] states of which arguments this holds.
pub open spec fn tells(args: JsonView) -> bool {
    reads_as(vstd::utf8::encode_utf8(args_text(args)), told(args))
}

/// Different calls have different keys: where two keys are equal, so are the tools and the
/// printed arguments, and the arguments themselves where these tell them.
pub proof fn different_calls_have_different_keys(
    tool: Seq<char>,
    args: JsonView,
    other_tool: Seq<char>,
    other_args: JsonView,
)
    requires
        call_key(tool, args) == call_key(other_tool, other_args),
    ensures
        tool == other_tool,
        args_text(args) == args_text(other_args),
        tells(args) && tells(other_args) ==> args == other_args,
{
    reveal_strlit("tool:");
    reveal_strlit(":");
    reveal_strlit("s");
    reveal_strlit("");
    let whole_key = call_key(tool, args);
    let a = decimal(tool.len());
    let b = decimal(other_tool.len());
    crate::digits::lemma_decimal(tool.len());
    crate::digits::lemma_decimal(other_tool.len());
    assert(!crate::digits::is_digit('s'));
    let end_of_key = whole_key.len() - 1;
    assert(plain(args) ==> whole_key[end_of_key] == a[a.len() - 1]);
    assert(plain(other_args) ==> whole_key[end_of_key] == b[b.len() - 1]);
    assert(!plain(args) ==> whole_key[end_of_key] == 's');
    assert(!plain(other_args) ==> whole_key[end_of_key] == 's');
    assert(plain(args) == plain(other_args));
    let key = "tool:"@ + tool + ":"@ + args_text(args) + (":"@ + a);
    let other_key = "tool:"@ + other_tool + ":"@ + args_text(other_args) + (":"@ + b);
    assert(key =~= whole_key.take(if plain(args) {
        whole_key.len() as int
    } else {
        end_of_key
    }));
    assert(other_key =~= key);
    let n = key.len() as int;
    assert(!crate::digits::is_digit(':'));
    assert(key[n - 1 - a.len()] == ':');
    assert(key[n - 1 - b.len()] == ':');
    if a.len() < b.len() {
        assert(key[n - 1 - a.len()] == b[b.len() - 1 - a.len()]);
    }
    if b.len() < a.len() {
        assert(key[n - 1 - b.len()] == a[a.len() - 1 - b.len()]);
    }
    assert(a =~= key.skip(n - a.len()));
    assert(b =~= key.skip(n - b.len()));
    assert(tool.len() == other_tool.len());
    let m = tool.len() as int;
    assert(tool =~= key.subrange(5, 5 + m));
    assert(other_tool =~= key.subrange(5, 5 + m));
    let end = n - 1 - a.len();
    assert(args_text(args) =~= key.subrange(6 + m, end));
    assert(args_text(other_args) =~= key.subrange(6 + m, end));
    if tells(args) && tells(other_args) {
        different_documents_are_told_apart(args, other_args);
    }
}

/// A tool whose results are memoized for one run. Calls with the same arguments are one
/// step: a second one gives the saved result. So only a tool whose equal calls may be
/// collapsed should be wrapped.
#[derive(Debug)]
pub struct DurableTool {
    /// The name of the tool.
    pub tool_name: String,
    /// The run.
    pub run_id: RunId,
}

/// The output that is memoized under `key`, where there is one.
pub open spec fn memoized(store: Store, run_id: RunId, key: Seq<char>) -> Option<JsonView> {
    match store.step(run_id, key) {
        Some(record) => if record.status is Completed {
            record.output
        } else {
            None
        },
        None => None,
    }
}

/// Whether a tool is to be called where its call has the key `key`: no output is saved, or
/// `reads` may refuse the one that is, or the journal may fail and hide it.
pub open spec fn to_be_called<R: Fn(&Json) -> bool>(
    reads: R,
    store: Store,
    reliable: bool,
    run_id: RunId,
    key: Seq<char>,
) -> bool {
    match memoized(store, run_id, key) {
        Some(saved) => !reliable || exists|doc: Json|
            doc@ == saved && #[trigger] call_ensures(reads, (&doc,), false),
        None => true,
    }
}

/// The record that memoizes an output.
pub open spec fn memo_record(run_id: RunId, key: Seq<char>, output: JsonView, at: Timestamp) ->
    StepRecordView {
    StepRecordView {
        run_id,
        key,
        status: StepStatus::Completed,
        output: Some(output),
        error: None,
        attempts: 1,
        updated_at: at,
    }
}

/// The tool `tool_name`, memoized for the run `run_id`.
pub fn wrap_tool(tool_name: &str, run_id: RunId) -> (r: DurableTool)
    ensures
        r.tool_name@ == tool_name@,
        r.run_id == run_id,
{
    DurableTool { tool_name: tool_name.to_owned(), run_id }
}

impl DurableTool {
    /// The key of a call with the given arguments.
    pub fn step_key(&self, args: &Json) -> (r: String)
        ensures
            r@ == call_key(self.tool_name@, args@),
            tellable(args@) ==> tells(args@),
    {
        let is_plain: bool = args.is_plain();
        let printed: String = args.tell().print();
        proof {
            if tellable(args@) {
                what_is_told_is_readable(args@);
            }
        }
        let length: usize = chars_of(self.tool_name.as_str()).len();
        let named: String = concat4("tool:", self.tool_name.as_str(), ":", printed.as_str());
        let ending: String = concat2(":", decimal_text(length as u128).as_str());
        concat3(named.as_str(), ending.as_str(), if is_plain {
            ""
        } else {
            "s"
        })
    }

    /// The saved output of a call, where there is one; a journal that fails has none.
    pub fn saved<B: Backend>(&self, backend: &B, key: &str) -> (r: Option<Json>)
        requires
            backend.inv(),
        ensures
            r matches Some(output) ==> memoized(backend.store(), self.run_id, key@) == Some(
                output@,
            ),
            backend.reliable() ==> opt_json(r) == memoized(backend.store(), self.run_id, key@),
    {
        match backend.lookup_step(self.run_id, key) {
            Ok(Some(record)) => if record.status == StepStatus::Completed {
                record.output
            } else {
                None
            },
            _ => None,
        }
    }

    /// Saves the output of a call that succeeded. A journal that fails does not break the
    /// call.
    pub fn save<B: Backend>(&self, backend: &mut B, key: String, output: &Json, at: Timestamp)
        requires
            old(backend).inv(),
        ensures
            final(backend).inv(),
            final(backend).reliable() == old(backend).reliable(),
            saved_as(
                old(backend).store(),
                old(backend).reliable(),
                memo_record(self.run_id, key@, output@, at),
                final(backend).store(),
            ),
    {
        let record = StepRecord {
            run_id: self.run_id,
            key: StepKey(key),
            status: StepStatus::Completed,
            output: Some(output.clone()),
            error: None,
            attempts: 1,
            updated_at: at,
        };
        let _ = backend.record_step(&record);
    }

    /// Calls the tool at `at`. A saved output that `reads` accepts is given back and `inner`
    /// is not called; else `inner` is called, and its output is saved where it succeeds. An
    /// error is not saved, so the call can be tried again. That `inner` is left alone where a
    /// saved output is given back shows in that nothing is then asked of it.
    pub fn call_rich<B: Backend, R: Fn(&Json) -> bool, F: Fn(&Json) -> Result<Json, String>>(
        &self,
        backend: &mut B,
        args: &Json,
        reads: R,
        inner: F,
        at: Timestamp,
    ) -> (r: Result<Json, String>)
        requires
            old(backend).inv(),
            to_be_called(
                reads,
                old(backend).store(),
                old(backend).reliable(),
                self.run_id,
                call_key(self.tool_name@, args@),
            ) ==> call_requires(inner, (args,)),
            forall|doc: &Json|
                memoized(
                    old(backend).store(),
                    self.run_id,
                    call_key(self.tool_name@, args@),
                ) == Some(doc@) ==> #[trigger] call_requires(reads, (doc,)),
        ensures
            final(backend).inv(),
            final(backend).reliable() == old(backend).reliable(),
            ({
                let key = call_key(self.tool_name@, args@);
                let before = old(backend).store();
                let after = final(backend).store();
                ||| {
                    &&& r matches Ok(output)
                    &&& memoized(before, self.run_id, key) == Some(output@)
                    &&& call_ensures(reads, (&output,), true)
                    &&& after == before
                }
                ||| {
                    &&& call_ensures(inner, (args,), r)
                    &&& to_be_called(reads, before, old(backend).reliable(), self.run_id, key)
                    &&& match r {
                        Ok(output) => saved_as(
                            before,
                            old(backend).reliable(),
                            memo_record(self.run_id, key, output@, at),
                            after,
                        ),
                        Err(_) => after == before,
                    }
                }
            }),
    {
        let key: String = self.step_key(args);
        if let Some(output) = self.saved(backend, key.as_str()) {
            if reads(&output) {
                return Ok(output);
            }
            proof {
                assert(call_ensures(reads, (&output,), false));
            }
        }
        match inner(args) {
            Ok(output) => {
                self.save(backend, key, &output, at);
                Ok(output)
            },
            Err(message) => Err(message),
        }
    }
}

/// Whether `record` was journaled; a backend on which calls may fail may have lost it.
pub open spec fn saved_as(
    before: Store,
    reliable: bool,
    record: StepRecordView,
    after: Store,
) -> bool {
    ||| after == before.put_step(record)
    ||| !reliable && after == before
}

/// A side effect that is done is not done again: once the output of a call is saved, it is
/// what a call of the same tool with the same arguments in the same run is given, and calls
/// under other keys, which are all different calls, are given what they were given before.
pub proof fn a_saved_call_is_not_repeated(
    store: Store,
    run_id: RunId,
    tool_name: Seq<char>,
    args: JsonView,
    output: JsonView,
    at: Timestamp,
    other: Seq<char>,
)
    ensures
        ({
            let key = call_key(tool_name, args);
            let after = store.put_step(memo_record(run_id, key, output, at));
            &&& memoized(after, run_id, key) == Some(output)
            &&& other != key ==> memoized(after, run_id, other) == memoized(store, run_id, other)
        }),
{
}

/// The last answer on a call counts, and answers on other calls do not matter.
pub proof fn the_last_answer_counts(
    answers: Seq<ApprovalResolutionView>,
    answer: ApprovalResolutionView,
    other: Seq<char>,
)
    ensures
        decision_on(answers.push(answer), answer.tool_call_id) == Some(answer.decision),
        other != answer.tool_call_id ==> decision_on(answers.push(answer), other) == decision_on(
            answers,
            other,
        ),
{
    assert(answers.push(answer).drop_last() =~= answers);
}

} // verus!
