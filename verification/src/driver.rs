//! The seam to an agent framework.
//!
//! [`AgentDriver`] is the one trait an adapter implements. Given a
//! [`RunContext`] it advances a run by one unit and returns an [`Advance`] that
//! tells the engine what to do next. A driver never touches the queue, the
//! status of a run or a timer itself: it states what it wants, and the engine
//! makes that durable.

use vstd::prelude::*;

use crate::artifact::{Artifact, ArtifactView};
use crate::budget::{Budget, BudgetUsage, Usd};
use crate::error::{Error, ErrorView};
use crate::event::EventKind;
use crate::ids::{time_ordered, ArtifactId, ResourceId, RunId};
use crate::json::{opt_json, Json, JsonView, NumberView};
use crate::resource::{Resource, ResourceKind, ResourceStatus, ResourceView};
use crate::run::{JoinMode, Run, RunStatus, RunView};
use crate::signal::{ApprovalResolution, ApprovalResolutionView, SignalView, APPROVAL_SIGNAL};
use crate::step::{RetryPolicy, StepKey, StepRecord, StepRecordView, StepStatus};
use crate::store::{committed, signal_taken, views, Backend, Store};
use crate::text::opt_text;
use crate::time::{Duration, Timestamp};

verus! {

/// A request to pause a run until a human approves one tool call.
#[derive(Debug, PartialEq, Eq)]
pub struct ApprovalRequest {
    /// The tool call that waits for approval.
    pub tool_call_id: String,
    /// What will happen, for a human to read.
    pub summary: String,
    /// The risk class, as the host's policy names it.
    pub risk: String,
}

/// The model of an [`ApprovalRequest`].
pub struct ApprovalRequestView {
    /// The tool call that waits for approval.
    pub tool_call_id: Seq<char>,
    /// What will happen, for a human to read.
    pub summary: Seq<char>,
    /// The risk class, as the host's policy names it.
    pub risk: Seq<char>,
}

impl View for ApprovalRequest {
    type V = ApprovalRequestView;

    open spec fn view(&self) -> ApprovalRequestView {
        ApprovalRequestView {
            tool_call_id: self.tool_call_id@,
            summary: self.summary@,
            risk: self.risk@,
        }
    }
}

impl ApprovalRequestView {
    /// The payload of the event that records this request.
    pub open spec fn payload(self) -> JsonView {
        JsonView::empty_object().with(
            "tool_call_id"@,
            JsonView::String(self.tool_call_id),
        ).with("summary"@, JsonView::String(self.summary)).with(
            "risk"@,
            JsonView::String(self.risk),
        )
    }
}

impl ApprovalRequest {
    /// The payload of the event that records this request.
    pub fn to_payload(&self) -> (r: Json)
        ensures
            r@ == self@.payload(),
    {
        Json::object().with("tool_call_id", Json::String(self.tool_call_id.clone())).with(
            "summary",
            Json::String(self.summary.clone()),
        ).with("risk", Json::String(self.risk.clone()))
    }
}

/// A child run to spawn.
#[derive(Debug)]
pub struct ChildSpec {
    /// Selects the child's driver.
    pub agent_type: String,
    /// The child's goal.
    pub goal: String,
    /// Structured input.
    pub input: Option<Json>,
    /// Session pointer.
    pub session_ref: Option<String>,
    /// The child's budget; `None` copies the parent's.
    pub budget: Option<Budget>,
}

/// The model of a [`ChildSpec`].
pub struct ChildSpecView {
    /// Selects the child's driver.
    pub agent_type: Seq<char>,
    /// The child's goal.
    pub goal: Seq<char>,
    /// Structured input.
    pub input: Option<JsonView>,
    /// Session pointer.
    pub session_ref: Option<Seq<char>>,
    /// The child's budget; `None` copies the parent's.
    pub budget: Option<Budget>,
}

impl View for ChildSpec {
    type V = ChildSpecView;

    open spec fn view(&self) -> ChildSpecView {
        ChildSpecView {
            agent_type: self.agent_type@,
            goal: self.goal@,
            input: opt_json(self.input),
            session_ref: opt_text(self.session_ref),
            budget: self.budget,
        }
    }
}

impl Clone for ChildSpec {
    fn clone(&self) -> (r: Self)
        ensures
            r@ == self@,
    {
        ChildSpec {
            agent_type: self.agent_type.clone(),
            goal: self.goal.clone(),
            input: crate::json::clone_opt_json(&self.input),
            session_ref: crate::text::clone_opt_text(&self.session_ref),
            budget: self.budget,
        }
    }
}

impl Default for ChildSpec {
    fn default() -> (r: ChildSpec)
        ensures
            r.agent_type@ == Seq::<char>::empty(),
            r.goal@ == Seq::<char>::empty(),
            r.input is None,
            r.session_ref is None,
            r.budget is None,
    {
        ChildSpec {
            agent_type: String::new(),
            goal: String::new(),
            input: None,
            session_ref: None,
            budget: None,
        }
    }
}

/// How a child run ended or stands, as its parent sees it on the join.
#[derive(Debug)]
pub struct ChildOutcome {
    /// The child run.
    pub run_id: RunId,
    /// The child's goal.
    pub goal: String,
    /// The child's status.
    pub status: RunStatus,
    /// The output of a completed child.
    pub output: Option<Json>,
    /// The message of a failed child.
    pub error: Option<String>,
}

/// The model of a [`ChildOutcome`].
pub struct ChildOutcomeView {
    /// The child run.
    pub run_id: RunId,
    /// The child's goal.
    pub goal: Seq<char>,
    /// The child's status.
    pub status: RunStatus,
    /// The output of a completed child.
    pub output: Option<JsonView>,
    /// The message of a failed child.
    pub error: Option<Seq<char>>,
}

impl View for ChildOutcome {
    type V = ChildOutcomeView;

    open spec fn view(&self) -> ChildOutcomeView {
        ChildOutcomeView {
            run_id: self.run_id,
            goal: self.goal@,
            status: self.status,
            output: opt_json(self.output),
            error: opt_text(self.error),
        }
    }
}

impl ChildOutcomeView {
    /// What a parent sees of a child.
    pub open spec fn of_run(run: RunView) -> ChildOutcomeView {
        ChildOutcomeView {
            run_id: run.id,
            goal: run.goal,
            status: run.status,
            output: run.output,
            error: run.error,
        }
    }
}

impl ChildOutcomeView {
    /// What a parent sees of its children.
    pub open spec fn of_runs(runs: Seq<RunView>) -> Seq<ChildOutcomeView> {
        runs.map_values(|run: RunView| ChildOutcomeView::of_run(run))
    }
}

/// What a driver wants the engine to do next.
#[derive(Debug)]
pub enum Advance {
    /// Run again at once.
    Continue,
    /// Park until a human decides on the request.
    WaitForApproval {
        /// The pending approval.
        request: ApprovalRequest,
    },
    /// Park until a named signal arrives.
    WaitForSignal {
        /// The name to resume on.
        name: String,
        /// Where the signal has not arrived within this span, the run resumes
        /// all the same, with [`RunContext::timed_out`] set. Waiting again starts
        /// the span again.
        timeout: Option<Duration>,
    },
    /// Park until an instant.
    Sleep {
        /// When to resume.
        until: Timestamp,
    },
    /// Spawn child runs and park until they join.
    SpawnChildren {
        /// The children to create.
        specs: Vec<ChildSpec>,
        /// How to join them.
        join: JoinMode,
    },
    /// Finish successfully.
    Complete {
        /// The run's result.
        output: Json,
    },
    /// Finish with an error, or try the run again.
    Fail {
        /// The failure message.
        error: String,
        /// Whether to try the run again instead of failing it.
        retry: bool,
    },
}

/// The model of an [`Advance`].
pub enum AdvanceView {
    /// Run again at once.
    Continue,
    /// Park until a human decides on the request.
    WaitForApproval {
        /// The pending approval.
        request: ApprovalRequestView,
    },
    /// Park until a named signal arrives.
    WaitForSignal {
        /// The name to resume on.
        name: Seq<char>,
        /// The longest wait, if there is one.
        timeout: Option<Duration>,
    },
    /// Park until an instant.
    Sleep {
        /// When to resume.
        until: Timestamp,
    },
    /// Spawn child runs and park until they join.
    SpawnChildren {
        /// The children to create.
        specs: Seq<ChildSpecView>,
        /// How to join them.
        join: JoinMode,
    },
    /// Finish successfully.
    Complete {
        /// The run's result.
        output: JsonView,
    },
    /// Finish with an error, or try the run again.
    Fail {
        /// The failure message.
        error: Seq<char>,
        /// Whether to try the run again instead of failing it.
        retry: bool,
    },
}

impl View for Advance {
    type V = AdvanceView;

    open spec fn view(&self) -> AdvanceView {
        match *self {
            Advance::Continue => AdvanceView::Continue,
            Advance::WaitForApproval { request } => AdvanceView::WaitForApproval {
                request: request@,
            },
            Advance::WaitForSignal { name, timeout } => AdvanceView::WaitForSignal {
                name: name@,
                timeout,
            },
            Advance::Sleep { until } => AdvanceView::Sleep { until },
            Advance::SpawnChildren { specs, join } => AdvanceView::SpawnChildren {
                specs: views(specs@),
                join,
            },
            Advance::Complete { output } => AdvanceView::Complete { output: output@ },
            Advance::Fail { error, retry } => AdvanceView::Fail { error: error@, retry },
        }
    }
}

/// The model of what a driver returned.
pub open spec fn advanced_view(advanced: Result<Advance, Error>) -> Result<
    AdvanceView,
    ErrorView,
> {
    match advanced {
        Ok(advance) => Ok(advance@),
        Err(e) => Err(e@),
    }
}

/// A turn of a run as its driver sees it.
pub struct TurnView {
    /// The store.
    pub store: Store,
    /// The run as it stood when the turn began.
    pub run: RunView,
    /// What the driver has charged so far.
    pub charged: BudgetUsage,
    /// Whether the turn was resumed by a timeout.
    pub late: bool,
}

/// The policy that decides what a run does next. Whatever a driver does, no run
/// vanishes: nothing in storage removes one. The queue is the engine's: a driver leaves it
/// alone.
pub trait AgentDriver<B: Backend> {
    /// Whether a turn that begins as `given` may end as `left` with `advanced`. A driver
    /// of which nothing is to be said allows every end.
    open spec fn may(
        &self,
        given: TurnView,
        left: TurnView,
        advanced: Result<AdvanceView, ErrorView>,
    ) -> bool {
        true
    }

    /// Advances the run by one unit of work.
    fn advance(&self, ctx: &mut RunContext<B>) -> (r: Result<Advance, Error>)
        requires
            old(ctx).inv(),
        ensures
            final(ctx).inv(),
            final(ctx).reliable() == old(ctx).reliable(),
            old(ctx).store().runs.dom().subset_of(final(ctx).store().runs.dom()),
            final(ctx).store().queue == old(ctx).store().queue,
            self.may(old(ctx).turn(), final(ctx).turn(), advanced_view(r)),
    ;
}

/// What a driver holds during one advance: it does durable work and reads the
/// state of its run through it.
pub struct RunContext<B: Backend> {
    pub(crate) backend: B,
    pub(crate) run: Run,
    pub(crate) usage_delta: BudgetUsage,
    pub(crate) timed_out: bool,
}

impl<B: Backend> RunContext<B> {
    /// The store behind the context.
    pub closed spec fn store(&self) -> Store {
        self.backend.store()
    }

    /// Whether no call on the backend fails for a reason of its own.
    pub closed spec fn reliable(&self) -> bool {
        self.backend.reliable()
    }

    /// Whether the backend is in a state that its own operations lead to.
    pub closed spec fn inv(&self) -> bool {
        self.backend.inv()
    }

    /// The run as it stood when the advance began.
    pub closed spec fn snapshot(&self) -> RunView {
        self.run@
    }

    /// The id of the run.
    pub open spec fn id(&self) -> RunId {
        self.snapshot().id
    }

    /// What the driver has charged so far.
    pub closed spec fn charged(&self) -> BudgetUsage {
        self.usage_delta
    }

    /// Whether the advance was resumed by a timeout.
    pub closed spec fn late(&self) -> bool {
        self.timed_out
    }

    /// The turn as the driver sees it.
    pub open spec fn turn(&self) -> TurnView {
        TurnView {
            store: self.store(),
            run: self.snapshot(),
            charged: self.charged(),
            late: self.late(),
        }
    }

    /// Whether `self` and `other` differ in the store alone, and there neither in the runs
    /// nor in the queue nor in who holds which run.
    pub open spec fn same_turn(&self, other: &RunContext<B>) -> bool {
        &&& self.inv()
        &&& self.store().runs == other.store().runs
        &&& self.store().queue == other.store().queue
        &&& self.store().fences == other.store().fences
        &&& self.reliable() == other.reliable()
        &&& self.snapshot() == other.snapshot()
        &&& self.id() == other.id()
        &&& self.charged() == other.charged()
        &&& self.late() == other.late()
    }

    /// What the model of a context says of its parts.
    pub(crate) proof fn model(&self)
        ensures
            self.store() == self.backend.store(),
            self.reliable() == self.backend.reliable(),
            self.inv() == self.backend.inv(),
            self.charged() == self.usage_delta,
            self.snapshot() == self.run@,
            self.late() == self.timed_out,
    {
    }

    /// The context of one advance of `run`.
    pub fn new(backend: B, run: Run, timed_out: bool) -> (r: RunContext<B>)
        ensures
            r.store() == backend.store(),
            r.inv() == backend.inv(),
            r.reliable() == backend.reliable(),
            r.snapshot() == run@,
            r.id() == run.id,
            r.charged() == BudgetUsage::none(),
            r.late() == timed_out,
    {
        RunContext { backend, run, usage_delta: BudgetUsage::default(), timed_out }
    }

    /// Whether this advance was resumed because the timeout of a
    /// [`Advance::WaitForSignal`] fired without the signal. It is false on the
    /// first advance and on one that the signal resumed.
    pub fn timed_out(&self) -> (r: bool)
        ensures
            r == self.late(),
    {
        self.timed_out
    }

    /// What the driver has charged.
    pub fn usage_delta(&self) -> (r: BudgetUsage)
        ensures
            r == self.charged(),
    {
        self.usage_delta
    }

    /// The run id.
    pub fn run_id(&self) -> (r: RunId)
        ensures
            r == self.id(),
    {
        self.run.id
    }

    /// The storage backend. Adapters journal events or memoize tool calls with
    /// it.
    pub fn backend(&self) -> (r: &B)
        ensures
            r.store() == self.store(),
            r.inv() == self.inv(),
            r.reliable() == self.reliable(),
    {
        &self.backend
    }

    /// The run record, as it stood when the advance began.
    pub fn run(&self) -> (r: &Run)
        ensures
            r@ == self.snapshot(),
    {
        &self.run
    }

    /// The run's goal.
    pub fn goal(&self) -> (r: &str)
        ensures
            r@ == self.snapshot().goal,
    {
        self.run.goal.as_str()
    }

    /// The structured input, if any.
    pub fn input(&self) -> (r: Option<&Json>)
        ensures
            match r {
                Some(input) => self.snapshot().input == Some(input@),
                None => self.snapshot().input is None,
            },
    {
        match &self.run.input {
            Some(input) => Some(input),
            None => None,
        }
    }

    /// The session pointer, if any.
    pub fn session_ref(&self) -> (r: Option<&str>)
        ensures
            match r {
                Some(text) => self.snapshot().session_ref == Some(text@),
                None => self.snapshot().session_ref is None,
            },
    {
        match &self.run.session_ref {
            Some(text) => Some(text.as_str()),
            None => None,
        }
    }

    /// Charges LLM tokens.
    pub fn charge_tokens(&mut self, n: u64)
        ensures
            final(self).charged() == (BudgetUsage {
                tokens: crate::budget::counter_sum(old(self).charged().tokens, n),
                ..old(self).charged()
            }),
            final(self).store() == old(self).store(),
            final(self).inv() == old(self).inv(),
            final(self).reliable() == old(self).reliable(),
            final(self).snapshot() == old(self).snapshot(),
            final(self).id() == old(self).id(),
            final(self).late() == old(self).late(),
    {
        self.usage_delta.tokens = self.usage_delta.tokens.saturating_add(n);
    }

    /// Charges cost.
    pub fn charge_cost(&mut self, cost: Usd)
        ensures
            final(self).charged() == (BudgetUsage {
                cost_usd: old(self).charged().cost_usd.sum(cost),
                ..old(self).charged()
            }),
            final(self).store() == old(self).store(),
            final(self).inv() == old(self).inv(),
            final(self).reliable() == old(self).reliable(),
            final(self).snapshot() == old(self).snapshot(),
            final(self).id() == old(self).id(),
            final(self).late() == old(self).late(),
    {
        self.usage_delta.cost_usd = self.usage_delta.cost_usd.plus(cost);
    }

    /// Charges one tool call.
    pub fn charge_tool_call(&mut self)
        ensures
            final(self).charged() == (BudgetUsage {
                tool_calls: crate::budget::counter_sum(old(self).charged().tool_calls, 1),
                ..old(self).charged()
            }),
            final(self).store() == old(self).store(),
            final(self).inv() == old(self).inv(),
            final(self).reliable() == old(self).reliable(),
            final(self).snapshot() == old(self).snapshot(),
            final(self).id() == old(self).id(),
            final(self).late() == old(self).late(),
    {
        self.usage_delta.tool_calls = self.usage_delta.tool_calls.saturating_add(1);
    }

    /// Appends an event to the log of the run and returns its number.
    pub fn emit(&mut self, kind: EventKind, payload: Json) -> (r: Result<u64, Error>)
        requires
            old(self).inv(),
        ensures
            final(self).same_turn(old(self)),
            r matches Ok(seq) ==> seq == old(self).store().log(old(self).id()).len() + 1,
            exists|at: Timestamp|
                B::may_show(at) && #[trigger] committed(
                    r,
                    old(self).reliable(),
                    old(self).store(),
                    old(self).store().append(old(self).id(), kind, payload@, at),
                    final(self).store(),
                ),
    {
        let at: Timestamp = self.backend.now();
        self.emit_at(kind, payload, at)
    }

    /// Appends an event recorded at `at` to the log of the run and returns its
    /// number.
    pub fn emit_at(&mut self, kind: EventKind, payload: Json, at: Timestamp) -> (r: Result<
        u64,
        Error,
    >)
        requires
            old(self).inv(),
        ensures
            final(self).same_turn(old(self)),
            r matches Ok(seq) ==> seq == old(self).store().log(old(self).id()).len() + 1,
            committed(
                r,
                old(self).reliable(),
                old(self).store(),
                old(self).store().append(old(self).id(), kind, payload@, at),
                final(self).store(),
            ),
    {
        self.backend.append(self.run.id, kind, payload, at)
    }

    /// Takes the payload of the earliest unconsumed signal named `name`. No other
    /// signal is consumed, not even a further one of the same name.
    pub fn take_signal(&mut self, name: &str) -> (r: Result<Option<Json>, Error>)
        requires
            old(self).inv(),
        ensures
            final(self).same_turn(old(self)),
            r matches Ok(None) ==> signal_taken(
                old(self).store(),
                old(self).id(),
                name@,
                None,
                final(self).store(),
            ),
            r matches Ok(Some(payload)) ==> exists|signal: SignalView|
                {
                    &&& #[trigger] signal_taken(
                        old(self).store(),
                        old(self).id(),
                        name@,
                        Some(signal),
                        final(self).store(),
                    )
                    &&& signal.payload == payload@
                },
            r is Err ==> !old(self).reliable(),
            final(self).store().runs == old(self).store().runs,
    {
        match self.backend.take_signal(self.run.id, name) {
            Ok(Some(signal)) => {
                proof {
                    assert(signal_taken(
                        old(self).store(),
                        old(self).id(),
                        name@,
                        Some(signal@),
                        self.store(),
                    ));
                }
                Ok(Some(signal.payload))
            },
            Ok(None) => Ok(None),
            Err(e) => Err(e),
        }
    }
}

// ---- durable steps -------------------------------------------------------------

/// The model of what one attempt at a step gives.
pub open spec fn outcome(attempt: Result<Json, String>) -> Result<JsonView, Seq<char>> {
    match attempt {
        Ok(value) => Ok(value@),
        Err(message) => Err(message@),
    }
}

/// The model of what a sequence of attempts gives.
pub open spec fn outcomes(attempts: Seq<Result<Json, String>>) -> Seq<
    Result<JsonView, Seq<char>>,
> {
    attempts.map_values(|attempt: Result<Json, String>| outcome(attempt))
}

/// The output that the journal holds for a step, where the step is completed; a
/// record without an output stands for `null`.
pub open spec fn memo(store: Store, id: RunId, key: Seq<char>) -> Option<JsonView> {
    match store.step(id, key) {
        Some(record) => match record.status {
            StepStatus::Completed => match record.output {
                Some(output) => Some(output),
                None => Some(JsonView::Null),
            },
            StepStatus::Failed => None,
        },
        None => None,
    }
}

/// The store after a step has been announced.
pub open spec fn step_started(store: Store, id: RunId, key: Seq<char>, at: Timestamp) -> Store {
    store.append(
        id,
        EventKind::StepStarted,
        JsonView::empty_object().with("key"@, JsonView::String(key)),
        at,
    )
}

/// The journal record of a step that gave `output` on attempt `attempts`.
pub open spec fn completed_record(
    id: RunId,
    key: Seq<char>,
    output: JsonView,
    attempts: u32,
    at: Timestamp,
) -> StepRecordView {
    StepRecordView {
        run_id: id,
        key,
        status: StepStatus::Completed,
        output: Some(output),
        error: None,
        attempts,
        updated_at: at,
    }
}

/// The journal record of a step whose last attempt failed with `message`.
pub open spec fn failed_record(
    id: RunId,
    key: Seq<char>,
    message: Seq<char>,
    attempts: u32,
    at: Timestamp,
) -> StepRecordView {
    StepRecordView {
        run_id: id,
        key,
        status: StepStatus::Failed,
        output: None,
        error: Some(message),
        attempts,
        updated_at: at,
    }
}

/// The store after a step has given `output` on attempt `attempts`.
pub open spec fn step_completed(
    store: Store,
    id: RunId,
    key: Seq<char>,
    output: JsonView,
    attempts: u32,
    at: Timestamp,
) -> Store {
    store.put_step(completed_record(id, key, output, attempts, at)).append(
        id,
        EventKind::StepCompleted,
        JsonView::empty_object().with("key"@, JsonView::String(key)).with(
            "attempts"@,
            JsonView::Number(NumberView::Unsigned(attempts as u64)),
        ),
        at,
    )
}

/// The store after a step has failed for good with `message`.
pub open spec fn step_failed(
    store: Store,
    id: RunId,
    key: Seq<char>,
    message: Seq<char>,
    attempts: u32,
    at: Timestamp,
) -> Store {
    store.put_step(failed_record(id, key, message, attempts, at)).append(
        id,
        EventKind::StepFailed,
        JsonView::empty_object().with("key"@, JsonView::String(key)).with(
            "attempts"@,
            JsonView::Number(NumberView::Unsigned(attempts as u64)),
        ).with("error"@, JsonView::String(message)),
        at,
    )
}

/// Whether `attempts` are attempts at a step that ended as the policy says: all
/// but the last failed; the last one succeeded, or it failed and was the last one
/// allowed. There is always a first attempt.
pub open spec fn tried(
    attempts: Seq<Result<JsonView, Seq<char>>>,
    max_attempts: u32,
) -> bool {
    &&& 1 <= attempts.len()
    &&& attempts.len() == 1 || attempts.len() <= max_attempts
    &&& forall|i: int| 0 <= i < attempts.len() - 1 ==> (#[trigger] attempts[i]) is Err
    &&& attempts.last() is Err ==> attempts.len() >= max_attempts
}

/// The store after a step, not completed before, whose attempts were `attempts`:
/// announced at `start`, its end recorded at `end`.
pub open spec fn step_ran(
    before: Store,
    id: RunId,
    key: Seq<char>,
    attempts: Seq<Result<JsonView, Seq<char>>>,
    start: Timestamp,
    end: Timestamp,
) -> Store {
    let begun = step_started(before, id, key, start);
    match attempts.last() {
        Ok(output) => step_completed(begun, id, key, output, attempts.len() as u32, end),
        Err(message) => step_failed(begun, id, key, message, attempts.len() as u32, end),
    }
}

/// Whether a durable step under `key` turns `before` into `after` and gives
/// `output`: it was memoized and nothing changed, or it ran and its last attempt
/// gave the output.
pub open spec fn stepped(
    before: Store,
    id: RunId,
    key: Seq<char>,
    output: JsonView,
    after: Store,
) -> bool {
    match memo(before, id, key) {
        Some(saved) => output == saved && after == before,
        None => exists|
            attempts: Seq<Result<JsonView, Seq<char>>>,
            start: Timestamp,
            end: Timestamp,
        |
            {
                &&& attempts.len() > 0
                &&& attempts.last() == Ok::<JsonView, Seq<char>>(output)
                &&& after == #[trigger] step_ran(before, id, key, attempts, start, end)
            },
    }
}

/// What [`RunContext::durable_step`] returns after `attempts`.
pub open spec fn step_result(
    r: Result<Json, Error>,
    key: Seq<char>,
    attempts: Seq<Result<JsonView, Seq<char>>>,
) -> bool {
    match attempts.last() {
        Ok(output) => r matches Ok(value) && value@ == output,
        Err(message) => r matches Err(e) && e@ == (ErrorView::StepExhausted {
            key,
            attempts: attempts.len() as u32,
            message,
        }),
    }
}

impl<B: Backend> RunContext<B> {
    /// Begins a step at `at`: the output where the journal holds one, in which
    /// case nothing is written; else the step is announced.
    pub fn begin_step(&mut self, key: &str, at: Timestamp) -> (r: Result<Option<Json>, Error>)
        requires
            old(self).inv(),
        ensures
            final(self).same_turn(old(self)),
            match r {
                Ok(Some(output)) => memo(old(self).store(), old(self).id(), key@) == Some(output@)
                    && final(self).store() == old(self).store(),
                Ok(None) => {
                    &&& memo(old(self).store(), old(self).id(), key@) is None
                    &&& final(self).store() == step_started(
                        old(self).store(),
                        old(self).id(),
                        key@,
                        at,
                    )
                },
                Err(_) => !old(self).reliable() && (final(self).store() == old(self).store() || (
                memo(old(self).store(), old(self).id(), key@) is None && final(self).store()
                    == step_started(old(self).store(), old(self).id(), key@, at))),
            },
    {
        match self.backend.lookup_step(self.run.id, key) {
            Err(e) => return Err(e),
            Ok(Some(record)) => {
                if record.status == StepStatus::Completed {
                    return match record.output {
                        Some(output) => Ok(Some(output)),
                        None => Ok(Some(Json::Null)),
                    };
                }
            },
            Ok(None) => {},
        }
        let payload: Json = Json::object().with("key", Json::string(key));
        match self.emit_at(EventKind::StepStarted, payload, at) {
            Ok(_) => Ok(None),
            Err(e) => Err(e),
        }
    }

    /// Journals that attempt `attempts` at a step gave `output`, and says so in
    /// the log.
    pub fn complete_step(
        &mut self,
        key: &str,
        output: &Json,
        attempts: u32,
        at: Timestamp,
    ) -> (r: Result<(), Error>)
        requires
            old(self).inv(),
        ensures
            final(self).same_turn(old(self)),
            ({
                let s = old(self).store();
                let recorded = s.put_step(
                    completed_record(old(self).id(), key@, output@, attempts, at),
                );
                let done = step_completed(s, old(self).id(), key@, output@, attempts, at);
                match r {
                    Ok(_) => final(self).store() == done,
                    Err(_) => !old(self).reliable() && {
                        ||| final(self).store() == s
                        ||| final(self).store() == recorded
                        ||| final(self).store() == done
                    },
                }
            }),
    {
        let record = StepRecord {
            run_id: self.run.id,
            key: StepKey(key.to_owned()),
            status: StepStatus::Completed,
            output: Some(output.clone()),
            error: None,
            attempts,
            updated_at: at,
        };
        proof {
            assert(record@ == completed_record(old(self).id(), key@, output@, attempts, at));
        }
        match self.backend.record_step(&record) {
            Ok(_) => {},
            Err(e) => return Err(e),
        }
        let payload: Json = Json::object().with("key", Json::string(key)).with(
            "attempts",
            Json::number(attempts as u64),
        );
        match self.emit_at(EventKind::StepCompleted, payload, at) {
            Ok(_) => Ok(()),
            Err(e) => Err(e),
        }
    }

    /// Journals that a step failed for good with `message` on attempt `attempts`,
    /// and says so in the log.
    pub fn fail_step(
        &mut self,
        key: &str,
        message: &str,
        attempts: u32,
        at: Timestamp,
    ) -> (r: Result<(), Error>)
        requires
            old(self).inv(),
        ensures
            final(self).same_turn(old(self)),
            ({
                let s = old(self).store();
                let recorded = s.put_step(
                    failed_record(old(self).id(), key@, message@, attempts, at),
                );
                let done = step_failed(s, old(self).id(), key@, message@, attempts, at);
                match r {
                    Ok(_) => final(self).store() == done,
                    Err(_) => !old(self).reliable() && {
                        ||| final(self).store() == s
                        ||| final(self).store() == recorded
                        ||| final(self).store() == done
                    },
                }
            }),
    {
        let record = StepRecord {
            run_id: self.run.id,
            key: StepKey(key.to_owned()),
            status: StepStatus::Failed,
            output: None,
            error: Some(message.to_owned()),
            attempts,
            updated_at: at,
        };
        proof {
            assert(record@ == failed_record(old(self).id(), key@, message@, attempts, at));
        }
        match self.backend.record_step(&record) {
            Ok(_) => {},
            Err(e) => return Err(e),
        }
        let payload: Json = Json::object().with("key", Json::string(key)).with(
            "attempts",
            Json::number(attempts as u64),
        ).with("error", Json::string(message));
        match self.emit_at(EventKind::StepFailed, payload, at) {
            Ok(_) => Ok(()),
            Err(e) => Err(e),
        }
    }

    /// Runs a durable step. Where a completed result is journaled under `key`, it
    /// is returned and `f` is not called: a journaled side effect never happens
    /// again. Else `f` is called until it succeeds or the policy allows no further
    /// attempt, with `pause` called between two attempts for the policy's backoff,
    /// and the result is journaled before it is returned. That `f` and `pause` are left alone
    /// where a result is journaled shows in that nothing is then asked of them: they need not
    /// allow to be called at all. `pause` need only allow the policy's own delays.
    ///
    /// A crash after `f` succeeded and before its result is journaled makes the
    /// next advance call `f` again.
    pub fn durable_step<F: Fn() -> Result<Json, String>, P: Fn(Duration)>(
        &mut self,
        key: &str,
        retry: RetryPolicy,
        f: F,
        pause: P,
    ) -> (r: Result<Json, Error>)
        requires
            old(self).inv(),
            memo(old(self).store(), old(self).id(), key@) is None ==> call_requires(f, ()),
            memo(old(self).store(), old(self).id(), key@) is None ==> forall|delay: Duration|
                retry.pauses_for(delay) ==> #[trigger] call_requires(pause, (delay,)),
        ensures
            final(self).same_turn(old(self)),
            match memo(old(self).store(), old(self).id(), key@) {
                Some(output) => final(self).store() == old(self).store() && match r {
                    Ok(value) => value@ == output,
                    Err(_) => !old(self).reliable(),
                },
                None => {
                    ||| exists|
                        results: Seq<Result<Json, String>>,
                        start: Timestamp,
                        end: Timestamp,
                    |
                        {
                            let attempts = outcomes(results);
                            &&& forall|i: int|
                                0 <= i < results.len() ==> call_ensures(
                                    f,
                                    (),
                                    #[trigger] results[i],
                                )
                            &&& tried(attempts, retry.max_attempts)
                            &&& B::may_show(start)
                            &&& B::may_show(end)
                            &&& final(self).store() == #[trigger] step_ran(
                                old(self).store(),
                                old(self).id(),
                                key@,
                                outcomes(results),
                                start,
                                end,
                            )
                            &&& step_result(r, key@, attempts)
                        }
                    ||| r is Err && !old(self).reliable()
                },
            },
            r matches Ok(value) ==> stepped(
                old(self).store(),
                old(self).id(),
                key@,
                value@,
                final(self).store(),
            ),
            final(self).store().runs == old(self).store().runs,
    {
        let start: Timestamp = self.backend.now();
        match self.begin_step(key, start) {
            Err(e) => return Err(e),
            Ok(Some(output)) => return Ok(output),
            Ok(None) => {},
        }
        let ghost begun = self.store();
        let ghost mut results: Seq<Result<Json, String>> = Seq::empty();
        let mut attempt: u32 = 0;
        loop
            invariant
                call_requires(f, ()),
                forall|delay: Duration|
                    retry.pauses_for(delay) ==> #[trigger] call_requires(pause, (delay,)),
                memo(old(self).store(), old(self).id(), key@) is None,
                B::may_show(start),
                begun == step_started(old(self).store(), old(self).id(), key@, start),
                self.same_turn(old(self)),
                self.store() == begun,
                results.len() == attempt,
                attempt == 0 || attempt < retry.max_attempts,
                forall|i: int|
                    0 <= i < results.len() ==> call_ensures(f, (), #[trigger] results[i])
                        && results[i] is Err,
            decreases u32::MAX - attempt,
        {
            attempt = attempt + 1;
            let result: Result<Json, String> = f();
            proof {
                results = results.push(result);
            }
            let ghost attempts = outcomes(results);
            match result {
                Ok(value) => {
                    let end: Timestamp = self.backend.now();
                    match self.complete_step(key, &value, attempt, end) {
                        Ok(_) => {},
                        Err(e) => return Err(e),
                    }
                    proof {
                        assert(attempts.last() == outcome(result));
                        assert(self.store() == step_ran(
                            old(self).store(),
                            old(self).id(),
                            key@,
                            attempts,
                            start,
                            end,
                        ));
                    }
                    return Ok(value);
                },
                Err(message) => {
                    if attempt >= retry.max_attempts {
                        let end: Timestamp = self.backend.now();
                        match self.fail_step(key, message.as_str(), attempt, end) {
                            Ok(_) => {},
                            Err(e) => return Err(e),
                        }
                        proof {
                            assert(attempts.last() == outcome(result));
                            assert(self.store() == step_ran(
                                old(self).store(),
                                old(self).id(),
                                key@,
                                attempts,
                                start,
                                end,
                            ));
                        }
                        return Err(
                            Error::StepExhausted {
                                key: key.to_owned(),
                                attempts: attempt,
                                message,
                            },
                        );
                    }
                    let delay: Duration = retry.backoff_for(attempt);
                    if !delay.is_zero() {
                        proof {
                            assert(delay.nanos == retry.backoff(attempt as nat));
                            assert(retry.pauses_for(delay));
                        }
                        pause(delay);
                    }
                },
            }
        }
    }
}

// ---- approvals -----------------------------------------------------------------

/// The payloads of the signals in `inbox` that wait under `name`, in order.
pub open spec fn pending_payloads(inbox: Seq<SignalView>, name: Seq<char>) -> Seq<JsonView>
    decreases inbox.len(),
{
    if inbox.len() == 0 {
        Seq::empty()
    } else if !inbox[0].consumed && inbox[0].name == name {
        seq![inbox[0].payload] + pending_payloads(inbox.skip(1), name)
    } else {
        pending_payloads(inbox.skip(1), name)
    }
}

/// `inbox` with every signal named `name` consumed.
pub open spec fn drained(inbox: Seq<SignalView>, name: Seq<char>) -> Seq<SignalView> {
    inbox.map_values(
        |signal: SignalView|
            if signal.name == name {
                SignalView { consumed: true, ..signal }
            } else {
                signal
            },
    )
}

/// The answers that payloads carry, where each of them carries one.
pub open spec fn decoded(payloads: Seq<JsonView>, answers: Seq<ApprovalResolutionView>) -> bool {
    &&& answers.len() == payloads.len()
    &&& forall|i: int|
        0 <= i < payloads.len() ==> ApprovalResolutionView::of_payload(#[trigger] payloads[i])
            == Some(answers[i])
}

/// Whether each payload carries an answer.
pub open spec fn all_decode(payloads: Seq<JsonView>) -> bool {
    forall|i: int|
        0 <= i < payloads.len() ==> ApprovalResolutionView::of_payload(
            #[trigger] payloads[i],
        ) is Some
}

proof fn lemma_pending_after_take(inbox: Seq<SignalView>, name: Seq<char>, i: int)
    requires
        0 <= i < inbox.len(),
        !inbox[i].consumed,
        inbox[i].name == name,
        forall|j: int| 0 <= j < i ==> !(!(#[trigger] inbox[j]).consumed && inbox[j].name == name),
    ensures
        pending_payloads(inbox, name) == seq![inbox[i].payload] + pending_payloads(
            inbox.update(i, SignalView { consumed: true, ..inbox[i] }),
            name,
        ),
        drained(inbox.update(i, SignalView { consumed: true, ..inbox[i] }), name) == drained(
            inbox,
            name,
        ),
    decreases i,
{
    let after = inbox.update(i, SignalView { consumed: true, ..inbox[i] });
    assert(drained(after, name) =~= drained(inbox, name));
    if i == 0 {
        assert(after.skip(1) =~= inbox.skip(1));
    } else {
        lemma_pending_after_take(inbox.skip(1), name, i - 1);
        assert(after.skip(1) =~= inbox.skip(1).update(
            i - 1,
            SignalView { consumed: true, ..inbox.skip(1)[i - 1] },
        ));
        assert(after[0] == inbox[0]);
    }
}

proof fn lemma_nothing_pending(inbox: Seq<SignalView>, name: Seq<char>)
    requires
        forall|j: int|
            0 <= j < inbox.len() ==> !(!(#[trigger] inbox[j]).consumed && inbox[j].name == name),
    ensures
        pending_payloads(inbox, name).len() == 0,
        drained(inbox, name) == inbox,
    decreases inbox.len(),
{
    assert forall|j: int| 0 <= j < inbox.len() implies #[trigger] drained(inbox, name)[j]
        == inbox[j] by {
        assert(!(!inbox[j].consumed && inbox[j].name == name));
    }
    assert(drained(inbox, name) =~= inbox);
    if inbox.len() > 0 {
        let rest = inbox.skip(1);
        assert forall|j: int| 0 <= j < rest.len() implies !(!(#[trigger] rest[j]).consumed
            && rest[j].name == name) by {
            assert(rest[j] == inbox[j + 1]);
        }
        lemma_nothing_pending(rest, name);
    }
}

/// `inbox` with the first `n` signals that wait under `name` consumed.
pub open spec fn consumed_first(inbox: Seq<SignalView>, name: Seq<char>, n: nat) -> Seq<SignalView>
    decreases inbox.len(),
{
    if inbox.len() == 0 || n == 0 {
        inbox
    } else if !inbox[0].consumed && inbox[0].name == name {
        seq![SignalView { consumed: true, ..inbox[0] }] + consumed_first(
            inbox.skip(1),
            name,
            (n - 1) as nat,
        )
    } else {
        seq![inbox[0]] + consumed_first(inbox.skip(1), name, n)
    }
}

/// To consume the first signal that waits after `n` were consumed is to consume one more.
proof fn lemma_consumed_one_more(inbox: Seq<SignalView>, name: Seq<char>, n: nat, i: int)
    requires
        ({
            let rest = consumed_first(inbox, name, n);
            &&& 0 <= i < rest.len()
            &&& !rest[i].consumed
            &&& rest[i].name == name
            &&& forall|j: int|
                0 <= j < i ==> !(!(#[trigger] rest[j]).consumed && rest[j].name == name)
        }),
    ensures
        ({
            let rest = consumed_first(inbox, name, n);
            rest.update(i, SignalView { consumed: true, ..rest[i] }) == consumed_first(
                inbox,
                name,
                n + 1,
            )
        }),
    decreases inbox.len(),
{
    let rest = consumed_first(inbox, name, n);
    let waits = !inbox[0].consumed && inbox[0].name == name;
    let fewer: nat = if waits && n > 0 {
        (n - 1) as nat
    } else {
        n
    };
    let tail = consumed_first(inbox.skip(1), name, fewer);
    assert(rest.skip(1) =~= tail);
    if waits && n == 0 {
        assert(!(!rest[0].consumed && rest[0].name == name) || i == 0);
        assert(consumed_first(inbox.skip(1), name, 0) == inbox.skip(1));
        assert(rest.update(0, SignalView { consumed: true, ..rest[0] }) =~= consumed_first(
            inbox,
            name,
            1,
        ));
    } else {
        assert forall|j: int| 0 <= j < i - 1 implies !(!(#[trigger] tail[j]).consumed
            && tail[j].name == name) by {
            assert(tail[j] == rest[j + 1]);
        }
        assert(tail[i - 1] == rest[i]);
        lemma_consumed_one_more(inbox.skip(1), name, fewer, i - 1);
        assert(rest.update(i, SignalView { consumed: true, ..rest[i] }) =~= seq![rest[0]]
            + tail.update(i - 1, SignalView { consumed: true, ..tail[i - 1] }));
    }
}

/// Whether the payload at `k` is the first that carries no answer.
pub open spec fn first_undecoded(payloads: Seq<JsonView>, k: int) -> bool {
    &&& 0 <= k < payloads.len()
    &&& ApprovalResolutionView::of_payload(payloads[k]) is None
    &&& forall|j: int|
        0 <= j < k ==> ApprovalResolutionView::of_payload(#[trigger] payloads[j]) is Some
}

/// The store with the first `n` waiting approval answers of the run `id` consumed.
pub open spec fn approvals_taken(store: Store, id: RunId, n: nat) -> Store {
    Store {
        signals: store.signals.insert(
            id.value,
            consumed_first(store.inbox(id), APPROVAL_SIGNAL@, n),
        ),
        ..store
    }
}

/// Whether taking the approval answers of the run `id` stops at a payload that carries none
/// and leaves `after`: that payload and those before it are consumed.
pub open spec fn approvals_stopped(before: Store, id: RunId, after: Store) -> bool {
    exists|k: int|
        {
            &&& #[trigger] first_undecoded(
                pending_payloads(before.inbox(id), APPROVAL_SIGNAL@),
                k,
            )
            &&& after == approvals_taken(before, id, (k + 1) as nat)
        }
}

/// The store with every approval answer of the run `id` consumed.
pub open spec fn approvals_drained(store: Store, id: RunId) -> Store {
    if store.signals.contains_key(id.value) {
        Store {
            signals: store.signals.insert(
                id.value,
                drained(store.inbox(id), APPROVAL_SIGNAL@),
            ),
            ..store
        }
    } else {
        store
    }
}

impl<B: Backend> RunContext<B> {
    /// Takes all approval answers delivered so far, in order. A payload that
    /// carries no answer is an error, not dropped: dropping it would leave the run
    /// parked for ever.
    pub fn take_approvals(&mut self) -> (r: Result<Vec<ApprovalResolution>, Error>)
        requires
            old(self).inv(),
        ensures
            final(self).same_turn(old(self)),
            ({
                let payloads = pending_payloads(
                    old(self).store().inbox(old(self).id()),
                    APPROVAL_SIGNAL@,
                );
                match r {
                    Ok(answers) => decoded(payloads, views(answers@)) && final(self).store()
                        == approvals_drained(old(self).store(), old(self).id()),
                    Err(e) => old(self).reliable() ==> {
                        &&& e is Serde
                        &&& !all_decode(payloads)
                        &&& approvals_stopped(
                            old(self).store(),
                            old(self).id(),
                            final(self).store(),
                        )
                    },
                }
            }),
            final(self).store().runs == old(self).store().runs,
    {
        let mut answers: Vec<ApprovalResolution> = Vec::new();
        let ghost name = APPROVAL_SIGNAL@;
        let ghost id = self.id();
        let ghost before = self.store();
        let ghost payloads = pending_payloads(before.inbox(id), name);
        let ghost mut left = payloads;
        let ghost mut taken: Seq<JsonView> = Seq::empty();
        proof {
            assert(taken + left =~= payloads);
        }
        loop
            invariant
                name == APPROVAL_SIGNAL@,
                id == old(self).id(),
                before == old(self).store(),
                payloads == pending_payloads(before.inbox(id), name),
                self.same_turn(old(self)),
                left == pending_payloads(self.store().inbox(id), name),
                payloads == taken + left,
                decoded(taken, views(answers@)),
                self.store().inbox(id) == consumed_first(before.inbox(id), name, taken.len()),
                drained(self.store().inbox(id), name) == drained(before.inbox(id), name),
                before.signals.contains_key(id.value) || self.store() == before,
                before.signals.contains_key(id.value) ==> self.store() == (Store {
                    signals: before.signals.insert(id.value, self.store().inbox(id)),
                    ..before
                }),
            decreases left.len(),
        {
            let ghost here = self.store();
            match self.backend.take_signal(self.run.id, APPROVAL_SIGNAL) {
                Err(e) => return Err(e),
                Ok(None) => {
                    proof {
                        assert forall|j: int| 0 <= j < here.inbox(id).len() implies !(!(
                        #[trigger] here.inbox(id)[j]).consumed && here.inbox(id)[j].name
                            == name) by {
                            assert(!here.waits(id, name, j));
                        }
                        lemma_nothing_pending(here.inbox(id), name);
                        assert(taken =~= payloads);
                        assert(self.store() =~= approvals_drained(before, id));
                    }
                    return Ok(answers);
                },
                Ok(Some(signal)) => {
                    proof {
                        let i = choose|i: int|
                            {
                                &&& #[trigger] here.earliest(id, name, i)
                                &&& self.store() == here.consume(id, i)
                                &&& signal@ == self.store().inbox(id)[i]
                            };
                        assert(here.waits(id, name, i));
                        assert forall|j: int| 0 <= j < i implies !(!(
                        #[trigger] here.inbox(id)[j]).consumed && here.inbox(id)[j].name
                            == name) by {
                            assert(here.waits(id, name, j) ==> i <= j);
                        }
                        lemma_pending_after_take(here.inbox(id), name, i);
                        lemma_consumed_one_more(before.inbox(id), name, taken.len(), i);
                        left = pending_payloads(self.store().inbox(id), name);
                        taken = taken.push(signal@.payload);
                        assert(payloads =~= taken + left);
                        assert(self.store() =~= (Store {
                            signals: before.signals.insert(id.value, self.store().inbox(id)),
                            ..before
                        }));
                    }
                    match ApprovalResolution::from_payload(&signal.payload) {
                        Err(e) => {
                            proof {
                                let k = taken.len() - 1;
                                assert(payloads[k] == signal@.payload);
                                assert forall|j: int| 0 <= j < k implies
                                    ApprovalResolutionView::of_payload(
                                    #[trigger] payloads[j],
                                ) is Some by {
                                    assert(payloads[j] == taken[j]);
                                }
                                assert(first_undecoded(payloads, k));
                                assert(self.store() =~= approvals_taken(
                                    before,
                                    id,
                                    (k + 1) as nat,
                                ));
                            }
                            return Err(e);
                        },
                        Ok(answer) => {
                            let ghost prior = answers@;
                            answers.push(answer);
                            proof {
                                assert(views(answers@) =~= views(prior).push(answer@));
                            }
                        },
                    }
                },
            }
        }
    }

    /// How the children of this run stand, the earlier created ones first.
    pub fn children(&self) -> (r: Result<Vec<ChildOutcome>, Error>)
        requires
            self.inv(),
        ensures
            match r {
                Ok(outcomes) => exists|kids: Seq<RunView>|
                    {
                        &&& #[trigger] self.store().lists_children(self.id(), kids)
                        &&& views(outcomes@) == ChildOutcomeView::of_runs(kids)
                    },
                Err(_) => !self.reliable(),
            },
    {
        let kids: Vec<Run> = match self.backend.list_children(self.run.id) {
            Ok(kids) => kids,
            Err(e) => return Err(e),
        };
        let mut outcomes: Vec<ChildOutcome> = Vec::new();
        let mut i: usize = 0;
        while i < kids.len()
            invariant
                i <= kids@.len(),
                outcomes@.len() == i,
                forall|j: int|
                    0 <= j < i ==> (#[trigger] outcomes@[j])@ == ChildOutcomeView::of_run(
                        kids@[j]@,
                    ),
            decreases kids@.len() - i,
        {
            let kid: Run = kids[i].clone();
            outcomes.push(
                ChildOutcome {
                    run_id: kid.id,
                    goal: kid.goal,
                    status: kid.status,
                    output: kid.output,
                    error: kid.error,
                },
            );
            i = i + 1;
        }
        proof {
            assert(self.store().lists_children(self.id(), views(kids@)));
            assert(views(outcomes@) =~= ChildOutcomeView::of_runs(views(kids@)));
        }
        Ok(outcomes)
    }
}

// ---- resources and artifacts ---------------------------------------------------

/// The resource that a run leases.
pub open spec fn leased(
    id: ResourceId,
    run_id: RunId,
    kind: ResourceKind,
    metadata: JsonView,
    lease_expires_at: Option<Timestamp>,
    at: Timestamp,
) -> ResourceView {
    ResourceView {
        id,
        run_id,
        kind,
        status: ResourceStatus::Active,
        metadata,
        lease_expires_at,
        created_at: at,
    }
}

/// The artifact that a run produces.
pub open spec fn produced(
    id: ArtifactId,
    run_id: RunId,
    kind: Seq<char>,
    uri: Seq<char>,
    metadata: JsonView,
    at: Timestamp,
) -> ArtifactView {
    ArtifactView { id, run_id, kind, uri, metadata, created_at: at }
}

/// The store after a run has leased `resource`: recorded, and said so in the log.
pub open spec fn resource_leased(store: Store, resource: ResourceView, at: Timestamp) -> Store {
    store.put_resource(resource).append(
        resource.run_id,
        EventKind::ResourceLeased,
        JsonView::empty_object().with(
            "resource_id"@,
            JsonView::String(crate::ids::uuid_hyphenated(resource.id.value)),
        ).with("kind"@, JsonView::String(resource.kind.tag())),
        at,
    )
}

/// The store after the run `run_id` has released the resource `id`: marked, and
/// said so in the log.
pub open spec fn resource_released(
    store: Store,
    run_id: RunId,
    id: ResourceId,
    at: Timestamp,
) -> Store {
    store.release(id).append(
        run_id,
        EventKind::ResourceReleased,
        JsonView::empty_object().with(
            "resource_id"@,
            JsonView::String(crate::ids::uuid_hyphenated(id.value)),
        ),
        at,
    )
}

/// The store after a run has recorded `artifact`, and said so in the log.
pub open spec fn artifact_recorded(store: Store, artifact: ArtifactView, at: Timestamp) -> Store {
    store.put_artifact(artifact).append(
        artifact.run_id,
        EventKind::ArtifactCreated,
        JsonView::empty_object().with(
            "artifact_id"@,
            JsonView::String(crate::ids::uuid_hyphenated(artifact.id.value)),
        ).with("kind"@, JsonView::String(artifact.kind)),
        at,
    )
}

/// What two writes in a row leave of `before`: with `Ok` both are made; with
/// `Err`, on a backend on which calls may fail, none, the first, or both.
pub open spec fn committed_twice<T>(
    r: Result<T, Error>,
    reliable: bool,
    before: Store,
    first: Store,
    both: Store,
    after: Store,
) -> bool {
    match r {
        Ok(_) => after == both,
        Err(_) => !reliable && (after == before || after == first || after == both),
    }
}

impl<B: Backend> RunContext<B> {
    /// Leases a resource for this run and records it. Its id lets a worker that
    /// recovers attach to the same resource again.
    pub fn lease_resource(
        &mut self,
        kind: ResourceKind,
        metadata: Json,
        lease_expires_at: Option<Timestamp>,
    ) -> (r: Result<ResourceId, Error>)
        requires
            old(self).inv(),
        ensures
            final(self).same_turn(old(self)),
            exists|id: ResourceId, at: Timestamp|
                #![trigger leased(id, old(self).id(), kind, metadata@, lease_expires_at, at)]
                {
                    let resource = leased(
                        id,
                        old(self).id(),
                        kind,
                        metadata@,
                        lease_expires_at,
                        at,
                    );
                    &&& B::may_show(at)
                    &&& time_ordered(id.value)
                    &&& r matches Ok(new) ==> new == id
                    &&& committed_twice(
                        r,
                        old(self).reliable(),
                        old(self).store(),
                        old(self).store().put_resource(resource),
                        resource_leased(old(self).store(), resource, at),
                        final(self).store(),
                    )
                },
    {
        let at: Timestamp = self.backend.now();
        self.lease_resource_at(ResourceId::new(), kind, metadata, lease_expires_at, at)
    }

    /// Leases the resource `id` for this run at `at` and records it.
    pub fn lease_resource_at(
        &mut self,
        id: ResourceId,
        kind: ResourceKind,
        metadata: Json,
        lease_expires_at: Option<Timestamp>,
        at: Timestamp,
    ) -> (r: Result<ResourceId, Error>)
        requires
            old(self).inv(),
        ensures
            final(self).same_turn(old(self)),
            r matches Ok(new) ==> new == id,
            ({
                let resource = leased(id, old(self).id(), kind, metadata@, lease_expires_at, at);
                committed_twice(
                    r,
                    old(self).reliable(),
                    old(self).store(),
                    old(self).store().put_resource(resource),
                    resource_leased(old(self).store(), resource, at),
                    final(self).store(),
                )
            }),
    {
        let resource = Resource {
            id,
            run_id: self.run.id,
            kind,
            status: ResourceStatus::Active,
            metadata,
            lease_expires_at,
            created_at: at,
        };
        match self.backend.lease_resource(&resource) {
            Ok(_) => {},
            Err(e) => return Err(e),
        }
        let payload: Json = Json::object().with("resource_id", Json::String(id.text())).with(
            "kind",
            Json::string(kind.to_tag()),
        );
        match self.emit_at(EventKind::ResourceLeased, payload, at) {
            Ok(_) => Ok(id),
            Err(e) => Err(e),
        }
    }

    /// Extends the lease on a resource.
    pub fn heartbeat_resource(&mut self, id: ResourceId, expires_at: Timestamp) -> (r: Result<
        (),
        Error,
    >)
        requires
            old(self).inv(),
        ensures
            final(self).same_turn(old(self)),
            committed(
                r,
                old(self).reliable(),
                old(self).store(),
                old(self).store().extend_lease(id, expires_at),
                final(self).store(),
            ),
    {
        self.backend.heartbeat(id, expires_at)
    }

    /// Releases a resource.
    pub fn release_resource(&mut self, id: ResourceId) -> (r: Result<(), Error>)
        requires
            old(self).inv(),
        ensures
            final(self).same_turn(old(self)),
            exists|at: Timestamp|
                B::may_show(at) && committed_twice(
                    r,
                    old(self).reliable(),
                    old(self).store(),
                    old(self).store().release(id),
                    #[trigger] resource_released(old(self).store(), old(self).id(), id, at),
                    final(self).store(),
                ),
    {
        let at: Timestamp = self.backend.now();
        self.release_resource_at(id, at)
    }

    /// Releases a resource at `at`.
    pub fn release_resource_at(&mut self, id: ResourceId, at: Timestamp) -> (r: Result<(), Error>)
        requires
            old(self).inv(),
        ensures
            final(self).same_turn(old(self)),
            committed_twice(
                r,
                old(self).reliable(),
                old(self).store(),
                old(self).store().release(id),
                resource_released(old(self).store(), old(self).id(), id, at),
                final(self).store(),
            ),
    {
        match self.backend.release_resource(id) {
            Ok(_) => {},
            Err(e) => return Err(e),
        }
        let payload: Json = Json::object().with("resource_id", Json::String(id.text()));
        match self.emit_at(EventKind::ResourceReleased, payload, at) {
            Ok(_) => Ok(()),
            Err(e) => Err(e),
        }
    }

    /// The resources leased to this run.
    pub fn resources(&self) -> (r: Result<Vec<Resource>, Error>)
        requires
            self.inv(),
        ensures
            match r {
                Ok(list) => self.store().lists_resources(self.id(), views(list@)),
                Err(_) => !self.reliable(),
            },
    {
        self.backend.list_resources(self.run.id)
    }

    /// Records an artifact of this run and returns its id.
    pub fn put_artifact(&mut self, kind: &str, uri: &str, metadata: Json) -> (r: Result<
        ArtifactId,
        Error,
    >)
        requires
            old(self).inv(),
        ensures
            final(self).same_turn(old(self)),
            exists|id: ArtifactId, at: Timestamp|
                #![trigger produced(id, old(self).id(), kind@, uri@, metadata@, at)]
                {
                    let artifact = produced(id, old(self).id(), kind@, uri@, metadata@, at);
                    &&& B::may_show(at)
                    &&& time_ordered(id.value)
                    &&& r matches Ok(new) ==> new == id
                    &&& committed_twice(
                        r,
                        old(self).reliable(),
                        old(self).store(),
                        old(self).store().put_artifact(artifact),
                        artifact_recorded(old(self).store(), artifact, at),
                        final(self).store(),
                    )
                },
    {
        let at: Timestamp = self.backend.now();
        self.put_artifact_at(ArtifactId::new(), kind, uri, metadata, at)
    }

    /// Records the artifact `id` of this run at `at`.
    pub fn put_artifact_at(
        &mut self,
        id: ArtifactId,
        kind: &str,
        uri: &str,
        metadata: Json,
        at: Timestamp,
    ) -> (r: Result<ArtifactId, Error>)
        requires
            old(self).inv(),
        ensures
            final(self).same_turn(old(self)),
            r matches Ok(new) ==> new == id,
            ({
                let artifact = produced(id, old(self).id(), kind@, uri@, metadata@, at);
                committed_twice(
                    r,
                    old(self).reliable(),
                    old(self).store(),
                    old(self).store().put_artifact(artifact),
                    artifact_recorded(old(self).store(), artifact, at),
                    final(self).store(),
                )
            }),
    {
        let artifact = Artifact {
            id,
            run_id: self.run.id,
            kind: kind.to_owned(),
            uri: uri.to_owned(),
            metadata,
            created_at: at,
        };
        match self.backend.put_artifact(&artifact) {
            Ok(_) => {},
            Err(e) => return Err(e),
        }
        let payload: Json = Json::object().with("artifact_id", Json::String(id.text())).with(
            "kind",
            Json::string(kind),
        );
        match self.emit_at(EventKind::ArtifactCreated, payload, at) {
            Ok(_) => Ok(id),
            Err(e) => Err(e),
        }
    }
}

} // verus!
