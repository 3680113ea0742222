//! The [`Run`], one durable attempt to accomplish a goal, and its state.

use vstd::prelude::*;

use crate::budget::{Budget, BudgetUsage};
use crate::ids::{time_ordered, RunId};
use crate::json::{clone_opt_json, opt_json, Json, JsonView};
use crate::text::{clone_opt_text, opt_text};
use crate::time::Timestamp;

verus! {

/// Lifecycle state of a run.
#[derive(Clone, Copy, Debug, PartialEq, Eq, Structural)]
pub enum RunStatus {
    /// Created, enqueued, not yet picked up.
    Pending,
    /// Being advanced by a worker.
    Running,
    /// Parked until a human decides on an approval.
    WaitingApproval,
    /// Parked until a named signal arrives.
    WaitingSignal,
    /// Parked until a timer fires.
    WaitingTimer,
    /// Finished successfully.
    Completed,
    /// Finished with an error.
    Failed,
    /// Cancelled by the caller or with a cancelled ancestor.
    Cancelled,
}

impl RunStatus {
    /// Whether the state is final.
    pub open spec fn terminal(self) -> bool {
        self is Completed || self is Failed || self is Cancelled
    }

    /// Whether the run has reached a final state.
    pub fn is_terminal(&self) -> (r: bool)
        ensures
            r == self.terminal(),
    {
        matches!(*self, RunStatus::Completed | RunStatus::Failed | RunStatus::Cancelled)
    }
}

/// How a parent waits for the children it spawned.
#[derive(Clone, Copy, Debug, PartialEq, Eq, Structural)]
pub enum JoinMode {
    /// Wake the parent when every child has reached a final state.
    All,
    /// Wake the parent with the first child to finish and cancel the rest.
    Any,
    /// Wake the parent once this many children have completed, or all are final.
    Quorum(u32),
}

/// What a parked run waits for.
#[derive(Debug, PartialEq, Eq)]
pub enum Wait {
    /// A named signal.
    Signal {
        /// The name to resume on.
        name: String,
        /// Once it has passed, the run resumes as timed out; `None` waits for
        /// ever.
        deadline: Option<Timestamp>,
    },
    /// A human decision on an approval.
    Approval,
    /// A timer.
    Timer,
    /// The children of the run.
    ChildJoin {
        /// The join policy.
        mode: JoinMode,
    },
}

/// The model of a [`Wait`].
pub enum WaitView {
    /// A named signal.
    Signal {
        /// The name to resume on.
        name: Seq<char>,
        /// The deadline, if there is one.
        deadline: Option<Timestamp>,
    },
    /// A human decision on an approval.
    Approval,
    /// A timer.
    Timer,
    /// The children of the run.
    ChildJoin {
        /// The join policy.
        mode: JoinMode,
    },
}

impl View for Wait {
    type V = WaitView;

    open spec fn view(&self) -> WaitView {
        match *self {
            Wait::Signal { name, deadline } => WaitView::Signal { name: name@, deadline },
            Wait::Approval => WaitView::Approval,
            Wait::Timer => WaitView::Timer,
            Wait::ChildJoin { mode } => WaitView::ChildJoin { mode },
        }
    }
}

impl Clone for Wait {
    fn clone(&self) -> (r: Self)
        ensures
            r@ == self@,
    {
        match self {
            Wait::Signal { name, deadline } => Wait::Signal {
                name: name.clone(),
                deadline: *deadline,
            },
            Wait::Approval => Wait::Approval,
            Wait::Timer => Wait::Timer,
            Wait::ChildJoin { mode } => Wait::ChildJoin { mode: *mode },
        }
    }
}

/// The model of what a run waits for, if it waits.
pub open spec fn opt_wait(wait: Option<Wait>) -> Option<WaitView> {
    match wait {
        Some(wait) => Some(wait@),
        None => None,
    }
}

fn clone_opt_wait(wait: &Option<Wait>) -> (r: Option<Wait>)
    ensures
        opt_wait(r) == opt_wait(*wait),
{
    match wait {
        Some(wait) => Some(wait.clone()),
        None => None,
    }
}

/// One durable attempt to accomplish a goal.
#[derive(Debug)]
pub struct Run {
    /// Unique id.
    pub id: RunId,
    /// The parent, if this is a child.
    pub parent_id: Option<RunId>,
    /// Selects the driver that advances this run.
    pub agent_type: String,
    /// The goal in natural language.
    pub goal: String,
    /// Structured input for the driver, if any.
    pub input: Option<Json>,
    /// Lifecycle state.
    pub status: RunStatus,
    /// What this run is parked on, while it is parked.
    pub waiting: Option<Wait>,
    /// Opaque pointer to a session of the agent framework.
    pub session_ref: Option<String>,
    /// Resource ceilings.
    pub budget: Budget,
    /// Usage charged against `budget`.
    pub usage: BudgetUsage,
    /// The output of a completed run.
    pub output: Option<Json>,
    /// The message of a failed run.
    pub error: Option<String>,
    /// When the run was created.
    pub created_at: Timestamp,
    /// When the run was last updated.
    pub updated_at: Timestamp,
}

/// The model of a [`Run`].
pub struct RunView {
    /// Unique id.
    pub id: RunId,
    /// The parent, if this is a child.
    pub parent_id: Option<RunId>,
    /// Selects the driver that advances this run.
    pub agent_type: Seq<char>,
    /// The goal in natural language.
    pub goal: Seq<char>,
    /// Structured input for the driver, if any.
    pub input: Option<JsonView>,
    /// Lifecycle state.
    pub status: RunStatus,
    /// What this run is parked on, while it is parked.
    pub waiting: Option<WaitView>,
    /// Opaque pointer to a session of the agent framework.
    pub session_ref: Option<Seq<char>>,
    /// Resource ceilings.
    pub budget: Budget,
    /// Usage charged against `budget`.
    pub usage: BudgetUsage,
    /// The output of a completed run.
    pub output: Option<JsonView>,
    /// The message of a failed run.
    pub error: Option<Seq<char>>,
    /// When the run was created.
    pub created_at: Timestamp,
    /// When the run was last updated.
    pub updated_at: Timestamp,
}

impl View for Run {
    type V = RunView;

    open spec fn view(&self) -> RunView {
        RunView {
            id: self.id,
            parent_id: self.parent_id,
            agent_type: self.agent_type@,
            goal: self.goal@,
            input: opt_json(self.input),
            status: self.status,
            waiting: opt_wait(self.waiting),
            session_ref: opt_text(self.session_ref),
            budget: self.budget,
            usage: self.usage,
            output: opt_json(self.output),
            error: opt_text(self.error),
            created_at: self.created_at,
            updated_at: self.updated_at,
        }
    }
}

impl Clone for Run {
    fn clone(&self) -> (r: Self)
        ensures
            r@ == self@,
    {
        Run {
            id: self.id,
            parent_id: self.parent_id,
            agent_type: self.agent_type.clone(),
            goal: self.goal.clone(),
            input: clone_opt_json(&self.input),
            status: self.status,
            waiting: clone_opt_wait(&self.waiting),
            session_ref: clone_opt_text(&self.session_ref),
            budget: self.budget,
            usage: self.usage,
            output: clone_opt_json(&self.output),
            error: clone_opt_text(&self.error),
            created_at: self.created_at,
            updated_at: self.updated_at,
        }
    }
}

/// Parameters for creating a run.
#[derive(Debug)]
pub struct RunSpec {
    /// Selects the driver.
    pub agent_type: String,
    /// The goal.
    pub goal: String,
    /// Structured input, if any.
    pub input: Option<Json>,
    /// Session pointer, if any.
    pub session_ref: Option<String>,
    /// Budget ceilings.
    pub budget: Budget,
    /// The parent, if spawned as a child.
    pub parent_id: Option<RunId>,
}

/// The model of a [`RunSpec`].
pub struct RunSpecView {
    /// Selects the driver.
    pub agent_type: Seq<char>,
    /// The goal.
    pub goal: Seq<char>,
    /// Structured input, if any.
    pub input: Option<JsonView>,
    /// Session pointer, if any.
    pub session_ref: Option<Seq<char>>,
    /// Budget ceilings.
    pub budget: Budget,
    /// The parent, if spawned as a child.
    pub parent_id: Option<RunId>,
}

impl View for RunSpec {
    type V = RunSpecView;

    open spec fn view(&self) -> RunSpecView {
        RunSpecView {
            agent_type: self.agent_type@,
            goal: self.goal@,
            input: opt_json(self.input),
            session_ref: opt_text(self.session_ref),
            budget: self.budget,
            parent_id: self.parent_id,
        }
    }
}

impl Default for RunSpec {
    fn default() -> (r: RunSpec)
        ensures
            r.agent_type@ == Seq::<char>::empty(),
            r.goal@ == Seq::<char>::empty(),
            r.input is None,
            r.session_ref is None,
            r.budget == Budget::unlimited(),
            r.parent_id is None,
    {
        RunSpec {
            agent_type: String::new(),
            goal: String::new(),
            input: None,
            session_ref: None,
            budget: Budget::default(),
            parent_id: None,
        }
    }
}

impl RunSpecView {
    /// The fresh run that this spec describes, with the id `id`, at `now`.
    pub open spec fn fresh(self, id: RunId, now: Timestamp) -> RunView {
        RunView {
            id,
            parent_id: self.parent_id,
            agent_type: self.agent_type,
            goal: self.goal,
            input: self.input,
            status: RunStatus::Pending,
            waiting: None,
            session_ref: self.session_ref,
            budget: self.budget,
            usage: BudgetUsage::none(),
            output: None,
            error: None,
            created_at: now,
            updated_at: now,
        }
    }
}

impl RunView {
    /// This run, runnable again.
    pub open spec fn pending(self, now: Timestamp) -> RunView {
        RunView { status: RunStatus::Pending, waiting: None, updated_at: now, ..self }
    }

    /// This run while a worker advances it.
    pub open spec fn running(self, now: Timestamp) -> RunView {
        RunView { status: RunStatus::Running, updated_at: now, ..self }
    }

    /// This run, parked in `status` until `wait`.
    pub open spec fn parked(self, status: RunStatus, wait: WaitView, now: Timestamp) -> RunView {
        RunView { status, waiting: Some(wait), updated_at: now, ..self }
    }

    /// This run, finished with `output`.
    pub open spec fn completed(self, output: JsonView, now: Timestamp) -> RunView {
        RunView {
            status: RunStatus::Completed,
            output: Some(output),
            waiting: None,
            updated_at: now,
            ..self
        }
    }

    /// This run, failed with `error`.
    pub open spec fn failed(self, error: Seq<char>, now: Timestamp) -> RunView {
        RunView {
            status: RunStatus::Failed,
            error: Some(error),
            waiting: None,
            updated_at: now,
            ..self
        }
    }

    /// This run, cancelled.
    pub open spec fn cancelled(self, now: Timestamp) -> RunView {
        RunView { status: RunStatus::Cancelled, waiting: None, updated_at: now, ..self }
    }

    /// The report of the first limit that this run breaches at `now`: one on its usage, or
    /// the one on its age; `None` where it keeps all of them.
    pub open spec fn breach(self, now: Timestamp) -> Option<Seq<char>> {
        match self.budget.breach(self.usage) {
            Some(report) => Some(report),
            None => self.budget.overdue(self.created_at, now),
        }
    }

    /// This run with `delta` charged.
    pub open spec fn charged(self, delta: BudgetUsage) -> RunView {
        RunView { usage: self.usage.sum(delta), ..self }
    }
}

impl Run {
    /// `Err` with a report where this run breaches a limit of its budget at `now`.
    pub fn check(&self, now: Timestamp) -> (r: Result<(), String>)
        ensures
            match r {
                Ok(_) => self@.breach(now) is None,
                Err(report) => self@.breach(now) == Some(report@),
            },
    {
        match self.budget.check(&self.usage) {
            Err(report) => Err(report),
            Ok(_) => self.budget.check_age(self.created_at, now),
        }
    }

    /// A fresh pending run from a spec at `now`, with a fresh id.
    pub fn from_spec(spec: RunSpec, now: Timestamp) -> (r: Run)
        ensures
            r@ == spec@.fresh(r.id, now),
            time_ordered(r.id.value),
    {
        Run::from_spec_with_id(spec, RunId::new(), now)
    }

    /// The pending run that a spec describes, with the id `id`, at `now`.
    pub fn from_spec_with_id(spec: RunSpec, id: RunId, now: Timestamp) -> (r: Run)
        ensures
            r@ == spec@.fresh(id, now),
    {
        Run {
            id,
            parent_id: spec.parent_id,
            agent_type: spec.agent_type,
            goal: spec.goal,
            input: spec.input,
            status: RunStatus::Pending,
            waiting: None,
            session_ref: spec.session_ref,
            budget: spec.budget,
            usage: BudgetUsage::default(),
            output: None,
            error: None,
            created_at: now,
            updated_at: now,
        }
    }

    /// This run, runnable again.
    pub(crate) fn into_pending(self, now: Timestamp) -> (r: Run)
        ensures
            r@ == self@.pending(now),
    {
        Run { status: RunStatus::Pending, waiting: None, updated_at: now, ..self }
    }

    /// This run while a worker advances it.
    pub(crate) fn into_running(self, now: Timestamp) -> (r: Run)
        ensures
            r@ == self@.running(now),
    {
        Run { status: RunStatus::Running, updated_at: now, ..self }
    }

    /// This run, parked in `status` until `wait`.
    pub(crate) fn into_parked(self, status: RunStatus, wait: Wait, now: Timestamp) -> (r: Run)
        ensures
            r@ == self@.parked(status, wait@, now),
    {
        Run { status, waiting: Some(wait), updated_at: now, ..self }
    }

    /// This run, finished with `output`.
    pub(crate) fn into_completed(self, output: Json, now: Timestamp) -> (r: Run)
        ensures
            r@ == self@.completed(output@, now),
    {
        Run {
            status: RunStatus::Completed,
            output: Some(output),
            waiting: None,
            updated_at: now,
            ..self
        }
    }

    /// This run, failed with `error`.
    pub(crate) fn into_failed(self, error: String, now: Timestamp) -> (r: Run)
        ensures
            r@ == self@.failed(error@, now),
    {
        Run {
            status: RunStatus::Failed,
            error: Some(error),
            waiting: None,
            updated_at: now,
            ..self
        }
    }

    /// This run, cancelled.
    pub(crate) fn into_cancelled(self, now: Timestamp) -> (r: Run)
        ensures
            r@ == self@.cancelled(now),
    {
        Run { status: RunStatus::Cancelled, waiting: None, updated_at: now, ..self }
    }
}

} // verus!
