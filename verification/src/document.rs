//! How the values of the runtime are written as JSON documents, and read from them.
//!
//! A state or a kind is a string in snake case. What holds more is an object. An optional
//! member that is missing or `null` is none.

use vstd::prelude::*;

use crate::artifact::{Artifact, ArtifactView};
use crate::budget::{Budget, BudgetUsage, Usd};
use crate::event::{Event, EventKind, EventView};
use crate::ids::{uuid_hyphenated, RunId};
use crate::json::{opt_json, Json, JsonView, Number, NumberView};
use crate::resource::{ResourceKind, ResourceStatus};
use crate::run::{opt_wait, JoinMode, Run, RunStatus, RunView, Wait, WaitView};
use crate::step::StepStatus;
use crate::text::{opt_text, same_text};
use crate::time::Timestamp;

verus! {

impl RunStatus {
    /// How the state of a run is written.
    pub open spec fn tag(self) -> Seq<char> {
        match self {
            RunStatus::Pending => "pending"@,
            RunStatus::Running => "running"@,
            RunStatus::WaitingApproval => "waiting_approval"@,
            RunStatus::WaitingSignal => "waiting_signal"@,
            RunStatus::WaitingTimer => "waiting_timer"@,
            RunStatus::Completed => "completed"@,
            RunStatus::Failed => "failed"@,
            RunStatus::Cancelled => "cancelled"@,
        }
    }

    /// How the state of a run is written.
    pub fn to_tag(self) -> (r: &'static str)
        ensures
            r@ == self.tag(),
    {
        match self {
            RunStatus::Pending => "pending",
            RunStatus::Running => "running",
            RunStatus::WaitingApproval => "waiting_approval",
            RunStatus::WaitingSignal => "waiting_signal",
            RunStatus::WaitingTimer => "waiting_timer",
            RunStatus::Completed => "completed",
            RunStatus::Failed => "failed",
            RunStatus::Cancelled => "cancelled",
        }
    }

    /// What a text stands for.
    pub open spec fn of_tag(tag: Seq<char>) -> Option<RunStatus> {
        if tag == "pending"@ {
            Some(RunStatus::Pending)
        } else if tag == "running"@ {
            Some(RunStatus::Running)
        } else if tag == "waiting_approval"@ {
            Some(RunStatus::WaitingApproval)
        } else if tag == "waiting_signal"@ {
            Some(RunStatus::WaitingSignal)
        } else if tag == "waiting_timer"@ {
            Some(RunStatus::WaitingTimer)
        } else if tag == "completed"@ {
            Some(RunStatus::Completed)
        } else if tag == "failed"@ {
            Some(RunStatus::Failed)
        } else if tag == "cancelled"@ {
            Some(RunStatus::Cancelled)
        } else {
            None
        }
    }

    /// What `tag` stands for.
    pub fn from_tag(tag: &str) -> (r: Option<RunStatus>)
        ensures
            r == RunStatus::of_tag(tag@),
    {
        if same_text(tag, "pending") {
            Some(RunStatus::Pending)
        } else if same_text(tag, "running") {
            Some(RunStatus::Running)
        } else if same_text(tag, "waiting_approval") {
            Some(RunStatus::WaitingApproval)
        } else if same_text(tag, "waiting_signal") {
            Some(RunStatus::WaitingSignal)
        } else if same_text(tag, "waiting_timer") {
            Some(RunStatus::WaitingTimer)
        } else if same_text(tag, "completed") {
            Some(RunStatus::Completed)
        } else if same_text(tag, "failed") {
            Some(RunStatus::Failed)
        } else if same_text(tag, "cancelled") {
            Some(RunStatus::Cancelled)
        } else {
            None
        }
    }

    /// What a document stands for.
    pub open spec fn of_doc(doc: JsonView) -> Option<RunStatus> {
        match doc.unit_variant() {
            Some(tag) => RunStatus::of_tag(tag),
            None => None,
        }
    }

    /// What `doc` stands for.
    pub fn from_doc(doc: &Json) -> (r: Option<RunStatus>)
        ensures
            r == RunStatus::of_doc(doc@),
    {
        match doc.unit_variant() {
            Some(tag) => RunStatus::from_tag(tag),
            None => None,
        }
    }

    /// The document of this value.
    pub open spec fn doc(self) -> JsonView {
        JsonView::String(self.tag())
    }

    /// The document of this value.
    pub fn to_doc(self) -> (r: Json)
        ensures
            r@ == self.doc(),
    {
        Json::string(self.to_tag())
    }
}

/// The state of a run survives its document.
pub proof fn run_status_round_trip(value: RunStatus)
    ensures
        RunStatus::of_doc(value.doc()) == Some(value),
        crate::wire::readable(value.doc()),
{
    reveal_strlit("pending");
    reveal_strlit("running");
    reveal_strlit("waiting_approval");
    reveal_strlit("waiting_signal");
    reveal_strlit("waiting_timer");
    reveal_strlit("completed");
    reveal_strlit("failed");
    reveal_strlit("cancelled");
    assert("pending"@.len() == 7);
    assert("running"@.len() == 7);
    assert("waiting_approval"@.len() == 16);
    assert("waiting_signal"@.len() == 14);
    assert("waiting_timer"@.len() == 13);
    assert("completed"@.len() == 9);
    assert("failed"@.len() == 6);
    assert("cancelled"@.len() == 9);
    assert("running"@[0] != "pending"@[0]);
    assert("cancelled"@[1] != "completed"@[1]);
}

impl EventKind {
    /// How the kind of an event is written.
    pub open spec fn tag(self) -> Seq<char> {
        match self {
            EventKind::RunCreated => "run_created"@,
            EventKind::StepStarted => "step_started"@,
            EventKind::StepCompleted => "step_completed"@,
            EventKind::StepFailed => "step_failed"@,
            EventKind::ToolCallRecorded => "tool_call_recorded"@,
            EventKind::ApprovalRequested => "approval_requested"@,
            EventKind::ApprovalResolved => "approval_resolved"@,
            EventKind::SignalReceived => "signal_received"@,
            EventKind::TimerSet => "timer_set"@,
            EventKind::TimerFired => "timer_fired"@,
            EventKind::ResourceLeased => "resource_leased"@,
            EventKind::ResourceReleased => "resource_released"@,
            EventKind::ChildRunSpawned => "child_run_spawned"@,
            EventKind::ChildRunFinished => "child_run_finished"@,
            EventKind::ArtifactCreated => "artifact_created"@,
            EventKind::RunCompleted => "run_completed"@,
            EventKind::RunFailed => "run_failed"@,
            EventKind::RunCancelled => "run_cancelled"@,
        }
    }

    /// How the kind of an event is written.
    pub fn to_tag(self) -> (r: &'static str)
        ensures
            r@ == self.tag(),
    {
        match self {
            EventKind::RunCreated => "run_created",
            EventKind::StepStarted => "step_started",
            EventKind::StepCompleted => "step_completed",
            EventKind::StepFailed => "step_failed",
            EventKind::ToolCallRecorded => "tool_call_recorded",
            EventKind::ApprovalRequested => "approval_requested",
            EventKind::ApprovalResolved => "approval_resolved",
            EventKind::SignalReceived => "signal_received",
            EventKind::TimerSet => "timer_set",
            EventKind::TimerFired => "timer_fired",
            EventKind::ResourceLeased => "resource_leased",
            EventKind::ResourceReleased => "resource_released",
            EventKind::ChildRunSpawned => "child_run_spawned",
            EventKind::ChildRunFinished => "child_run_finished",
            EventKind::ArtifactCreated => "artifact_created",
            EventKind::RunCompleted => "run_completed",
            EventKind::RunFailed => "run_failed",
            EventKind::RunCancelled => "run_cancelled",
        }
    }

    /// What a text stands for.
    pub open spec fn of_tag(tag: Seq<char>) -> Option<EventKind> {
        if tag == "run_created"@ {
            Some(EventKind::RunCreated)
        } else if tag == "step_started"@ {
            Some(EventKind::StepStarted)
        } else if tag == "step_completed"@ {
            Some(EventKind::StepCompleted)
        } else if tag == "step_failed"@ {
            Some(EventKind::StepFailed)
        } else if tag == "tool_call_recorded"@ {
            Some(EventKind::ToolCallRecorded)
        } else if tag == "approval_requested"@ {
            Some(EventKind::ApprovalRequested)
        } else if tag == "approval_resolved"@ {
            Some(EventKind::ApprovalResolved)
        } else if tag == "signal_received"@ {
            Some(EventKind::SignalReceived)
        } else if tag == "timer_set"@ {
            Some(EventKind::TimerSet)
        } else if tag == "timer_fired"@ {
            Some(EventKind::TimerFired)
        } else if tag == "resource_leased"@ {
            Some(EventKind::ResourceLeased)
        } else if tag == "resource_released"@ {
            Some(EventKind::ResourceReleased)
        } else if tag == "child_run_spawned"@ {
            Some(EventKind::ChildRunSpawned)
        } else if tag == "child_run_finished"@ {
            Some(EventKind::ChildRunFinished)
        } else if tag == "artifact_created"@ {
            Some(EventKind::ArtifactCreated)
        } else if tag == "run_completed"@ {
            Some(EventKind::RunCompleted)
        } else if tag == "run_failed"@ {
            Some(EventKind::RunFailed)
        } else if tag == "run_cancelled"@ {
            Some(EventKind::RunCancelled)
        } else {
            None
        }
    }

    /// What `tag` stands for.
    pub fn from_tag(tag: &str) -> (r: Option<EventKind>)
        ensures
            r == EventKind::of_tag(tag@),
    {
        if same_text(tag, "run_created") {
            Some(EventKind::RunCreated)
        } else if same_text(tag, "step_started") {
            Some(EventKind::StepStarted)
        } else if same_text(tag, "step_completed") {
            Some(EventKind::StepCompleted)
        } else if same_text(tag, "step_failed") {
            Some(EventKind::StepFailed)
        } else if same_text(tag, "tool_call_recorded") {
            Some(EventKind::ToolCallRecorded)
        } else if same_text(tag, "approval_requested") {
            Some(EventKind::ApprovalRequested)
        } else if same_text(tag, "approval_resolved") {
            Some(EventKind::ApprovalResolved)
        } else if same_text(tag, "signal_received") {
            Some(EventKind::SignalReceived)
        } else if same_text(tag, "timer_set") {
            Some(EventKind::TimerSet)
        } else if same_text(tag, "timer_fired") {
            Some(EventKind::TimerFired)
        } else if same_text(tag, "resource_leased") {
            Some(EventKind::ResourceLeased)
        } else if same_text(tag, "resource_released") {
            Some(EventKind::ResourceReleased)
        } else if same_text(tag, "child_run_spawned") {
            Some(EventKind::ChildRunSpawned)
        } else if same_text(tag, "child_run_finished") {
            Some(EventKind::ChildRunFinished)
        } else if same_text(tag, "artifact_created") {
            Some(EventKind::ArtifactCreated)
        } else if same_text(tag, "run_completed") {
            Some(EventKind::RunCompleted)
        } else if same_text(tag, "run_failed") {
            Some(EventKind::RunFailed)
        } else if same_text(tag, "run_cancelled") {
            Some(EventKind::RunCancelled)
        } else {
            None
        }
    }

    /// What a document stands for.
    pub open spec fn of_doc(doc: JsonView) -> Option<EventKind> {
        match doc.unit_variant() {
            Some(tag) => EventKind::of_tag(tag),
            None => None,
        }
    }

    /// What `doc` stands for.
    pub fn from_doc(doc: &Json) -> (r: Option<EventKind>)
        ensures
            r == EventKind::of_doc(doc@),
    {
        match doc.unit_variant() {
            Some(tag) => EventKind::from_tag(tag),
            None => None,
        }
    }

    /// The document of this value.
    pub open spec fn doc(self) -> JsonView {
        JsonView::String(self.tag())
    }

    /// The document of this value.
    pub fn to_doc(self) -> (r: Json)
        ensures
            r@ == self.doc(),
    {
        Json::string(self.to_tag())
    }
}

/// The kind of an event survives its document.
pub proof fn event_kind_round_trip(value: EventKind)
    ensures
        EventKind::of_doc(value.doc()) == Some(value),
        crate::wire::readable(value.doc()),
{
    reveal_strlit("run_created");
    reveal_strlit("step_started");
    reveal_strlit("step_completed");
    reveal_strlit("step_failed");
    reveal_strlit("tool_call_recorded");
    reveal_strlit("approval_requested");
    reveal_strlit("approval_resolved");
    reveal_strlit("signal_received");
    reveal_strlit("timer_set");
    reveal_strlit("timer_fired");
    reveal_strlit("resource_leased");
    reveal_strlit("resource_released");
    reveal_strlit("child_run_spawned");
    reveal_strlit("child_run_finished");
    reveal_strlit("artifact_created");
    reveal_strlit("run_completed");
    reveal_strlit("run_failed");
    reveal_strlit("run_cancelled");
    assert("run_created"@.len() == 11);
    assert("step_started"@.len() == 12);
    assert("step_completed"@.len() == 14);
    assert("step_failed"@.len() == 11);
    assert("tool_call_recorded"@.len() == 18);
    assert("approval_requested"@.len() == 18);
    assert("approval_resolved"@.len() == 17);
    assert("signal_received"@.len() == 15);
    assert("timer_set"@.len() == 9);
    assert("timer_fired"@.len() == 11);
    assert("resource_leased"@.len() == 15);
    assert("resource_released"@.len() == 17);
    assert("child_run_spawned"@.len() == 17);
    assert("child_run_finished"@.len() == 18);
    assert("artifact_created"@.len() == 16);
    assert("run_completed"@.len() == 13);
    assert("run_failed"@.len() == 10);
    assert("run_cancelled"@.len() == 13);
    assert("step_failed"@[0] != "run_created"@[0]);
    assert("approval_requested"@[0] != "tool_call_recorded"@[0]);
    assert("timer_fired"@[0] != "run_created"@[0]);
    assert("timer_fired"@[0] != "step_failed"@[0]);
    assert("resource_leased"@[0] != "signal_received"@[0]);
    assert("resource_released"@[0] != "approval_resolved"@[0]);
    assert("child_run_spawned"@[0] != "approval_resolved"@[0]);
    assert("child_run_spawned"@[0] != "resource_released"@[0]);
    assert("child_run_finished"@[0] != "tool_call_recorded"@[0]);
    assert("child_run_finished"@[0] != "approval_requested"@[0]);
    assert("run_cancelled"@[5] != "run_completed"@[5]);
}

impl ResourceKind {
    /// What a text stands for.
    pub open spec fn of_tag(tag: Seq<char>) -> Option<ResourceKind> {
        if tag == "code_sandbox"@ {
            Some(ResourceKind::CodeSandbox)
        } else if tag == "shell_session"@ {
            Some(ResourceKind::ShellSession)
        } else if tag == "browser_session"@ {
            Some(ResourceKind::BrowserSession)
        } else if tag == "file_workspace"@ {
            Some(ResourceKind::FileWorkspace)
        } else if tag == "database_connection"@ {
            Some(ResourceKind::DatabaseConnection)
        } else if tag == "external_api"@ {
            Some(ResourceKind::ExternalApi)
        } else if tag == "human_approval"@ {
            Some(ResourceKind::HumanApproval)
        } else if tag == "other"@ {
            Some(ResourceKind::Other)
        } else {
            None
        }
    }

    /// What `tag` stands for.
    pub fn from_tag(tag: &str) -> (r: Option<ResourceKind>)
        ensures
            r == ResourceKind::of_tag(tag@),
    {
        if same_text(tag, "code_sandbox") {
            Some(ResourceKind::CodeSandbox)
        } else if same_text(tag, "shell_session") {
            Some(ResourceKind::ShellSession)
        } else if same_text(tag, "browser_session") {
            Some(ResourceKind::BrowserSession)
        } else if same_text(tag, "file_workspace") {
            Some(ResourceKind::FileWorkspace)
        } else if same_text(tag, "database_connection") {
            Some(ResourceKind::DatabaseConnection)
        } else if same_text(tag, "external_api") {
            Some(ResourceKind::ExternalApi)
        } else if same_text(tag, "human_approval") {
            Some(ResourceKind::HumanApproval)
        } else if same_text(tag, "other") {
            Some(ResourceKind::Other)
        } else {
            None
        }
    }

    /// What a document stands for.
    pub open spec fn of_doc(doc: JsonView) -> Option<ResourceKind> {
        match doc.unit_variant() {
            Some(tag) => ResourceKind::of_tag(tag),
            None => None,
        }
    }

    /// What `doc` stands for.
    pub fn from_doc(doc: &Json) -> (r: Option<ResourceKind>)
        ensures
            r == ResourceKind::of_doc(doc@),
    {
        match doc.unit_variant() {
            Some(tag) => ResourceKind::from_tag(tag),
            None => None,
        }
    }

    /// The document of this value.
    pub open spec fn doc(self) -> JsonView {
        JsonView::String(self.tag())
    }

    /// The document of this value.
    pub fn to_doc(self) -> (r: Json)
        ensures
            r@ == self.doc(),
    {
        Json::string(self.to_tag())
    }
}

/// The class of a resource survives its document.
pub proof fn resource_kind_round_trip(value: ResourceKind)
    ensures
        ResourceKind::of_doc(value.doc()) == Some(value),
        crate::wire::readable(value.doc()),
{
    reveal_strlit("code_sandbox");
    reveal_strlit("shell_session");
    reveal_strlit("browser_session");
    reveal_strlit("file_workspace");
    reveal_strlit("database_connection");
    reveal_strlit("external_api");
    reveal_strlit("human_approval");
    reveal_strlit("other");
    assert("code_sandbox"@.len() == 12);
    assert("shell_session"@.len() == 13);
    assert("browser_session"@.len() == 15);
    assert("file_workspace"@.len() == 14);
    assert("database_connection"@.len() == 19);
    assert("external_api"@.len() == 12);
    assert("human_approval"@.len() == 14);
    assert("other"@.len() == 5);
    assert("external_api"@[0] != "code_sandbox"@[0]);
    assert("human_approval"@[0] != "file_workspace"@[0]);
}

impl ResourceStatus {
    /// How the state of a lease is written.
    pub open spec fn tag(self) -> Seq<char> {
        match self {
            ResourceStatus::Active => "active"@,
            ResourceStatus::Released => "released"@,
            ResourceStatus::Expired => "expired"@,
        }
    }

    /// How the state of a lease is written.
    pub fn to_tag(self) -> (r: &'static str)
        ensures
            r@ == self.tag(),
    {
        match self {
            ResourceStatus::Active => "active",
            ResourceStatus::Released => "released",
            ResourceStatus::Expired => "expired",
        }
    }

    /// What a text stands for.
    pub open spec fn of_tag(tag: Seq<char>) -> Option<ResourceStatus> {
        if tag == "active"@ {
            Some(ResourceStatus::Active)
        } else if tag == "released"@ {
            Some(ResourceStatus::Released)
        } else if tag == "expired"@ {
            Some(ResourceStatus::Expired)
        } else {
            None
        }
    }

    /// What `tag` stands for.
    pub fn from_tag(tag: &str) -> (r: Option<ResourceStatus>)
        ensures
            r == ResourceStatus::of_tag(tag@),
    {
        if same_text(tag, "active") {
            Some(ResourceStatus::Active)
        } else if same_text(tag, "released") {
            Some(ResourceStatus::Released)
        } else if same_text(tag, "expired") {
            Some(ResourceStatus::Expired)
        } else {
            None
        }
    }

    /// What a document stands for.
    pub open spec fn of_doc(doc: JsonView) -> Option<ResourceStatus> {
        match doc.unit_variant() {
            Some(tag) => ResourceStatus::of_tag(tag),
            None => None,
        }
    }

    /// What `doc` stands for.
    pub fn from_doc(doc: &Json) -> (r: Option<ResourceStatus>)
        ensures
            r == ResourceStatus::of_doc(doc@),
    {
        match doc.unit_variant() {
            Some(tag) => ResourceStatus::from_tag(tag),
            None => None,
        }
    }

    /// The document of this value.
    pub open spec fn doc(self) -> JsonView {
        JsonView::String(self.tag())
    }

    /// The document of this value.
    pub fn to_doc(self) -> (r: Json)
        ensures
            r@ == self.doc(),
    {
        Json::string(self.to_tag())
    }
}

/// The state of a lease survives its document.
pub proof fn resource_status_round_trip(value: ResourceStatus)
    ensures
        ResourceStatus::of_doc(value.doc()) == Some(value),
        crate::wire::readable(value.doc()),
{
    reveal_strlit("active");
    reveal_strlit("released");
    reveal_strlit("expired");
    assert("active"@.len() == 6);
    assert("released"@.len() == 8);
    assert("expired"@.len() == 7);
}

impl StepStatus {
    /// How the state of a step is written.
    pub open spec fn tag(self) -> Seq<char> {
        match self {
            StepStatus::Completed => "completed"@,
            StepStatus::Failed => "failed"@,
        }
    }

    /// How the state of a step is written.
    pub fn to_tag(self) -> (r: &'static str)
        ensures
            r@ == self.tag(),
    {
        match self {
            StepStatus::Completed => "completed",
            StepStatus::Failed => "failed",
        }
    }

    /// What a text stands for.
    pub open spec fn of_tag(tag: Seq<char>) -> Option<StepStatus> {
        if tag == "completed"@ {
            Some(StepStatus::Completed)
        } else if tag == "failed"@ {
            Some(StepStatus::Failed)
        } else {
            None
        }
    }

    /// What `tag` stands for.
    pub fn from_tag(tag: &str) -> (r: Option<StepStatus>)
        ensures
            r == StepStatus::of_tag(tag@),
    {
        if same_text(tag, "completed") {
            Some(StepStatus::Completed)
        } else if same_text(tag, "failed") {
            Some(StepStatus::Failed)
        } else {
            None
        }
    }

    /// What a document stands for.
    pub open spec fn of_doc(doc: JsonView) -> Option<StepStatus> {
        match doc.unit_variant() {
            Some(tag) => StepStatus::of_tag(tag),
            None => None,
        }
    }

    /// What `doc` stands for.
    pub fn from_doc(doc: &Json) -> (r: Option<StepStatus>)
        ensures
            r == StepStatus::of_doc(doc@),
    {
        match doc.unit_variant() {
            Some(tag) => StepStatus::from_tag(tag),
            None => None,
        }
    }

    /// The document of this value.
    pub open spec fn doc(self) -> JsonView {
        JsonView::String(self.tag())
    }

    /// The document of this value.
    pub fn to_doc(self) -> (r: Json)
        ensures
            r@ == self.doc(),
    {
        Json::string(self.to_tag())
    }
}

/// The state of a step survives its document.
pub proof fn step_status_round_trip(value: StepStatus)
    ensures
        StepStatus::of_doc(value.doc()) == Some(value),
        crate::wire::readable(value.doc()),
{
    reveal_strlit("completed");
    reveal_strlit("failed");
    assert("completed"@.len() == 9);
    assert("failed"@.len() == 6);
}

// ---- parts ---------------------------------------------------------------------

/// A number document.
pub open spec fn count_doc(n: u64) -> JsonView {
    JsonView::Number(NumberView::Unsigned(n))
}

/// An optional number: `null` for none.
pub open spec fn opt_count_doc(n: Option<u64>) -> JsonView {
    match n {
        Some(n) => count_doc(n),
        None => JsonView::Null,
    }
}

/// The optional number in the member `name`; `None` where it is something else.
pub open spec fn opt_count_in(doc: JsonView, name: Seq<char>) -> Option<Option<u64>> {
    match doc.given(name) {
        Some(value) => match value.count() {
            Some(n) => Some(Some(n)),
            None => None,
        },
        None => Some(None),
    }
}

/// The number in the member `name`; `None` where it is something else or missing.
pub open spec fn count_in(doc: JsonView, name: Seq<char>) -> Option<u64> {
    match doc.member(name) {
        Some(value) => value.count(),
        None => None,
    }
}

/// The amount that a document stands for.
pub open spec fn amount_in(doc: JsonView) -> Option<Usd> {
    match doc {
        JsonView::Number(number) => Usd::of_number(number),
        _ => None,
    }
}

/// An optional amount: `null` for none.
pub open spec fn opt_amount_doc(amount: Option<Usd>) -> JsonView {
    match amount {
        Some(amount) => JsonView::Number(amount.number()),
        None => JsonView::Null,
    }
}

/// The optional text in the member `name`; `None` where it is something else.
pub open spec fn opt_text_in(doc: JsonView, name: Seq<char>) -> Option<Option<Seq<char>>> {
    match doc.given(name) {
        Some(value) => match value.text() {
            Some(text) => Some(Some(text)),
            None => None,
        },
        None => Some(None),
    }
}

/// An optional text: `null` for none.
pub open spec fn opt_text_doc(text: Option<Seq<char>>) -> JsonView {
    match text {
        Some(text) => JsonView::String(text),
        None => JsonView::Null,
    }
}

/// An optional document: `null` for none.
pub open spec fn opt_doc(doc: Option<JsonView>) -> JsonView {
    match doc {
        Some(doc) => doc,
        None => JsonView::Null,
    }
}

/// The id of a run.
pub open spec fn run_id_doc(id: RunId) -> JsonView {
    JsonView::String(uuid_hyphenated(id.value))
}

fn opt_count_to_doc(n: Option<u64>) -> (r: Json)
    ensures
        r@ == opt_count_doc(n),
{
    match n {
        Some(n) => Json::number(n),
        None => Json::Null,
    }
}

/// The optional number in the member `name`.
pub(crate) fn opt_count_from(doc: &Json, name: &str) -> (r: Option<Option<u64>>)
    ensures
        r == opt_count_in(doc@, name@),
{
    match doc.given(name) {
        Some(value) => match value.count() {
            Some(n) => Some(Some(n)),
            None => None,
        },
        None => Some(None),
    }
}

fn count_from(doc: &Json, name: &str) -> (r: Option<u64>)
    ensures
        r == count_in(doc@, name@),
{
    match doc.get(name) {
        Some(value) => value.count(),
        None => None,
    }
}

fn amount_from(doc: &Json) -> (r: Option<Usd>)
    ensures
        r == amount_in(doc@),
{
    match doc {
        Json::Number(number) => Usd::from_number(number),
        _ => None,
    }
}

/// The model of an optional text that was read.
pub open spec fn read_text(r: Option<Option<String>>) -> Option<Option<Seq<char>>> {
    match r {
        Some(text) => Some(opt_text(text)),
        None => None,
    }
}

/// The optional text in the member `name`.
pub(crate) fn opt_text_from(doc: &Json, name: &str) -> (r: Option<Option<String>>)
    ensures
        read_text(r) == opt_text_in(doc@, name@),
{
    match doc.given(name) {
        Some(value) => match value.as_str() {
            Some(text) => Some(Some(text.to_owned())),
            None => None,
        },
        None => Some(None),
    }
}

fn opt_text_to_doc(text: &Option<String>) -> (r: Json)
    ensures
        r@ == opt_text_doc(opt_text(*text)),
{
    match text {
        Some(text) => Json::String(text.clone()),
        None => Json::Null,
    }
}

fn opt_to_doc(doc: &Option<Json>) -> (r: Json)
    ensures
        r@ == opt_doc(opt_json(*doc)),
{
    match doc {
        Some(doc) => doc.clone(),
        None => Json::Null,
    }
}

impl Timestamp {
    /// The document of an instant: its RFC 3339 form, or `null` where the calendar does
    /// not reach that far.
    pub open spec fn doc(self) -> JsonView {
        match self.rfc3339() {
            Some(text) => JsonView::String(text),
            None => JsonView::Null,
        }
    }

    /// The document of an instant. One in a year of four digits is read back from it.
    pub fn to_doc(self) -> (r: Json)
        ensures
            r@ == self.doc(),
            self.writable() ==> Timestamp::of_doc(r@) == Some(self),
    {
        match self.to_rfc3339() {
            Some(text) => Json::String(text),
            None => Json::Null,
        }
    }

    /// The instant that a document stands for.
    pub open spec fn of_doc(doc: JsonView) -> Option<Timestamp> {
        match doc {
            JsonView::String(text) => Timestamp::of_text(text),
            _ => None,
        }
    }

    /// The instant that `doc` stands for.
    pub fn from_doc(doc: &Json) -> (r: Option<Timestamp>)
        ensures
            r == Timestamp::of_doc(doc@),
    {
        match doc {
            Json::String(text) => Timestamp::from_text(text.as_str()),
            _ => None,
        }
    }
}

// ---- waits ---------------------------------------------------------------------

/// Whether a variant holds nothing: no value, or `null`.
pub open spec fn bare(content: Option<JsonView>) -> bool {
    content is None || content == Some(JsonView::Null)
}

fn is_bare(content: &Option<&Json>) -> (r: bool)
    ensures
        r == bare(
            match *content {
                Some(content) => Some(content@),
                None => None,
            },
        ),
{
    match content {
        Some(Json::Null) => true,
        Some(_) => false,
        None => true,
    }
}

impl JoinMode {
    /// The document of a join policy: `"all"`, `"any"` or `{ "quorum": .. }`.
    pub open spec fn doc(self) -> JsonView {
        match self {
            JoinMode::All => JsonView::String("all"@),
            JoinMode::Any => JsonView::String("any"@),
            JoinMode::Quorum(n) => JsonView::tagged("quorum"@, count_doc(n as u64)),
        }
    }

    /// The join policy that a document stands for.
    pub open spec fn of_doc(doc: JsonView) -> Option<JoinMode> {
        match doc.variant() {
            Some((tag, content)) => if tag == "all"@ && bare(content) {
                Some(JoinMode::All)
            } else if tag == "any"@ && bare(content) {
                Some(JoinMode::Any)
            } else if tag == "quorum"@ && content is Some {
                match content->0.count() {
                    Some(n) => if n <= u32::MAX {
                        Some(JoinMode::Quorum(n as u32))
                    } else {
                        None
                    },
                    None => None,
                }
            } else {
                None
            },
            None => None,
        }
    }

    /// The document of this join policy.
    pub fn to_doc(self) -> (r: Json)
        ensures
            r@ == self.doc(),
    {
        match self {
            JoinMode::All => Json::string("all"),
            JoinMode::Any => Json::string("any"),
            JoinMode::Quorum(n) => Json::object().with("quorum", Json::number(n as u64)),
        }
    }

    /// The join policy that `doc` stands for.
    pub fn from_doc(doc: &Json) -> (r: Option<JoinMode>)
        ensures
            r == JoinMode::of_doc(doc@),
    {
        let (tag, content) = match doc.variant() {
            Some(variant) => variant,
            None => return None,
        };
        if same_text(tag, "all") && is_bare(&content) {
            return Some(JoinMode::All);
        }
        if same_text(tag, "any") && is_bare(&content) {
            return Some(JoinMode::Any);
        }
        if same_text(tag, "quorum") {
            if let Some(content) = content {
                if let Some(n) = content.count() {
                    if n <= 0xFFFF_FFFF {
                        return Some(JoinMode::Quorum(n as u32));
                    }
                }
            }
        }
        None
    }
}

/// A join policy survives its document.
pub proof fn join_mode_round_trip(value: JoinMode)
    ensures
        JoinMode::of_doc(value.doc()) == Some(value),
        crate::wire::nested_within(value.doc(), 1),
        crate::wire::whole(value.doc()),
        crate::wire::unmarked(value.doc()),
{
    reveal_strlit("all");
    reveal_strlit("any");
    reveal_strlit("quorum");
    assert("all"@.len() == 3);
    assert("any"@.len() == 3);
    assert("quorum"@.len() == 6);
    assert("all"@[1] != "any"@[1]);
    if let JoinMode::Quorum(n) = value {
        crate::json::a_tagged_document_is_a_variant("quorum"@, count_doc(n as u64));
        reveal_with_fuel(crate::wire::nested_within, 2);
        reveal_with_fuel(crate::wire::whole, 2);
        crate::wire::lemma_unmarked_with(
            JsonView::empty_object(),
            "quorum"@,
            count_doc(n as u64),
        );
    }
}

impl WaitView {
    /// What a wait for a signal holds.
    pub open spec fn signal_doc(name: Seq<char>, deadline: Option<Timestamp>) -> JsonView {
        JsonView::empty_object().with("name"@, JsonView::String(name)).with(
            "deadline"@,
            match deadline {
                Some(deadline) => deadline.doc(),
                None => JsonView::Null,
            },
        )
    }

    /// The document of a wait: `"approval"`, `"timer"`, `{ "signal": { "name": ..,
    /// "deadline": .. } }` or `{ "child_join": { "mode": .. } }`.
    pub open spec fn doc(self) -> JsonView {
        match self {
            WaitView::Signal { name, deadline } => JsonView::tagged(
                "signal"@,
                WaitView::signal_doc(name, deadline),
            ),
            WaitView::Approval => JsonView::String("approval"@),
            WaitView::Timer => JsonView::String("timer"@),
            WaitView::ChildJoin { mode } => JsonView::tagged(
                "child_join"@,
                JsonView::empty_object().with("mode"@, mode.doc()),
            ),
        }
    }

    /// The wait for a signal that a document stands for.
    pub open spec fn of_signal_doc(doc: JsonView) -> Option<WaitView> {
        match doc.member_text("name"@) {
            Some(name) => match doc.given("deadline"@) {
                Some(value) => match Timestamp::of_doc(value) {
                    Some(deadline) => Some(WaitView::Signal { name, deadline: Some(deadline) }),
                    None => None,
                },
                None => Some(WaitView::Signal { name, deadline: None }),
            },
            None => None,
        }
    }

    /// The wait that a document stands for.
    pub open spec fn of_doc(doc: JsonView) -> Option<WaitView> {
        match doc.variant() {
            Some((tag, content)) => if tag == "approval"@ && bare(content) {
                Some(WaitView::Approval)
            } else if tag == "timer"@ && bare(content) {
                Some(WaitView::Timer)
            } else if tag == "signal"@ && content is Some {
                WaitView::of_signal_doc(content->0)
            } else if tag == "child_join"@ && content is Some {
                match content->0.member("mode"@) {
                    Some(value) => match JoinMode::of_doc(value) {
                        Some(mode) => Some(WaitView::ChildJoin { mode }),
                        None => None,
                    },
                    None => None,
                }
            } else {
                None
            },
            None => None,
        }
    }

    /// Whether a wait has no deadline outside the years of four digits.
    pub open spec fn writable(self) -> bool {
        self matches WaitView::Signal { deadline: Some(deadline), .. } ==> deadline.writable()
    }
}

proof fn lemma_wait_doc(wait: WaitView)
    requires
        wait matches WaitView::Signal { deadline: Some(deadline), .. } ==> Timestamp::of_doc(
            deadline.doc(),
        ) == Some(deadline),
    ensures
        WaitView::of_doc(wait.doc()) == Some(wait),
{
    reveal_strlit("approval");
    reveal_strlit("timer");
    reveal_strlit("signal");
    reveal_strlit("child_join");
    reveal_strlit("name");
    reveal_strlit("deadline");
    assert("approval"@.len() == 8);
    assert("timer"@.len() == 5);
    assert("signal"@.len() == 6);
    assert("child_join"@.len() == 10);
    assert("name"@.len() == 4);
    assert("deadline"@.len() == 8);
    match wait {
        WaitView::Signal { name, deadline } => {
            crate::json::a_tagged_document_is_a_variant(
                "signal"@,
                WaitView::signal_doc(name, deadline),
            );
        },
        WaitView::ChildJoin { mode } => {
            crate::json::a_tagged_document_is_a_variant(
                "child_join"@,
                JsonView::empty_object().with("mode"@, mode.doc()),
            );
            join_mode_round_trip(mode);
        },
        _ => {},
    }
}

proof fn lemma_wait_readable(wait: WaitView)
    ensures
        crate::wire::readable(wait.doc()),
{
    reveal_with_fuel(crate::wire::nested_within, 3);
    reveal_with_fuel(crate::wire::whole, 3);
    reveal_strlit("signal");
    reveal_strlit("child_join");
    reveal_strlit("name");
    reveal_strlit("deadline");
    reveal_strlit("mode");
    let none = JsonView::empty_object();
    match wait {
        WaitView::Signal { name, deadline } => {
            let due = match deadline {
                Some(deadline) => deadline.doc(),
                None => JsonView::Null,
            };
            crate::wire::lemma_unmarked_with(none, "name"@, JsonView::String(name));
            let named = none.with("name"@, JsonView::String(name));
            crate::wire::lemma_unmarked_with(named, "deadline"@, due);
            crate::wire::lemma_unmarked_with(
                none,
                "signal"@,
                WaitView::signal_doc(name, deadline),
            );
        },
        WaitView::ChildJoin { mode } => {
            join_mode_round_trip(mode);
            lemma_nested_deeper(mode.doc(), 1, 125);
            crate::wire::lemma_unmarked_with(none, "mode"@, mode.doc());
            crate::wire::lemma_unmarked_with(
                none,
                "child_join"@,
                none.with("mode"@, mode.doc()),
            );
        },
        _ => {},
    }
}

proof fn lemma_nested_deeper(doc: JsonView, a: nat, b: nat)
    requires
        a <= b,
        crate::wire::nested_within(doc, a),
    ensures
        crate::wire::nested_within(doc, b),
    decreases a,
{
    match doc {
        JsonView::Array(items) => {
            assert forall|i: int| 0 <= i < items.len() implies crate::wire::nested_within(
                #[trigger] items[i],
                (b - 1) as nat,
            ) by {
                lemma_nested_deeper(items[i], (a - 1) as nat, (b - 1) as nat);
            }
        },
        JsonView::Object(members) => {
            assert forall|name: Seq<char>| #[trigger]
                members.contains_key(name) implies crate::wire::nested_within(
                members[name],
                (b - 1) as nat,
            ) by {
                lemma_nested_deeper(members[name], (a - 1) as nat, (b - 1) as nat);
            }
        },
        _ => {},
    }
}

impl Wait {
    /// The document of this wait. A wait without a deadline outside the years of four
    /// digits is read back from it.
    pub fn to_doc(&self) -> (r: Json)
        ensures
            r@ == self@.doc(),
            crate::wire::readable(r@),
            self@.writable() ==> WaitView::of_doc(r@) == Some(self@),
    {
        proof {
            lemma_wait_readable(self@);
        }
        match self {
            Wait::Signal { name, deadline } => {
                let due: Json = match deadline {
                    Some(deadline) => deadline.to_doc(),
                    None => Json::Null,
                };
                proof {
                    if self@.writable() {
                        lemma_wait_doc(self@);
                    }
                }
                let held: Json = Json::object().with("name", Json::String(name.clone())).with(
                    "deadline",
                    due,
                );
                Json::object().with("signal", held)
            },
            Wait::Approval => {
                proof {
                    lemma_wait_doc(self@);
                }
                Json::string("approval")
            },
            Wait::Timer => {
                proof {
                    lemma_wait_doc(self@);
                }
                Json::string("timer")
            },
            Wait::ChildJoin { mode } => {
                proof {
                    lemma_wait_doc(self@);
                }
                Json::object().with("child_join", Json::object().with("mode", mode.to_doc()))
            },
        }
    }

    /// The wait that `doc` stands for.
    pub fn from_doc(doc: &Json) -> (r: Option<Wait>)
        ensures
            opt_wait(r) == WaitView::of_doc(doc@),
    {
        let (tag, content) = match doc.variant() {
            Some(variant) => variant,
            None => return None,
        };
        if same_text(tag, "approval") && is_bare(&content) {
            return Some(Wait::Approval);
        }
        if same_text(tag, "timer") && is_bare(&content) {
            return Some(Wait::Timer);
        }
        let content: &Json = match content {
            Some(content) => content,
            None => return None,
        };
        if same_text(tag, "signal") {
            let name: String = match content.get_str("name") {
                Some(name) => name.to_owned(),
                None => return None,
            };
            return match content.given("deadline") {
                Some(value) => match Timestamp::from_doc(value) {
                    Some(deadline) => Some(Wait::Signal { name, deadline: Some(deadline) }),
                    None => None,
                },
                None => Some(Wait::Signal { name, deadline: None }),
            };
        }
        if same_text(tag, "child_join") {
            return match content.get("mode") {
                Some(value) => match JoinMode::from_doc(value) {
                    Some(mode) => Some(Wait::ChildJoin { mode }),
                    None => None,
                },
                None => None,
            };
        }
        None
    }
}

// ---- budgets -------------------------------------------------------------------

impl Budget {
    /// The document of a budget: an object with a member for each limit.
    pub open spec fn doc(self) -> JsonView {
        JsonView::empty_object().with("max_tokens"@, opt_count_doc(self.max_tokens)).with(
            "max_cost_usd"@,
            opt_amount_doc(self.max_cost_usd),
        ).with("max_wall_clock_secs"@, opt_count_doc(self.max_wall_clock_secs)).with(
            "max_tool_calls"@,
            opt_count_doc(self.max_tool_calls),
        ).with("max_children"@, opt_count_doc(self.max_children))
    }

    /// The limit on the cost that a document stands for.
    pub open spec fn cost_limit_in(doc: JsonView) -> Option<Option<Usd>> {
        match doc.given("max_cost_usd"@) {
            Some(value) => match amount_in(value) {
                Some(amount) => Some(Some(amount)),
                None => None,
            },
            None => Some(None),
        }
    }

    /// The budget that a document stands for.
    pub open spec fn of_doc(doc: JsonView) -> Option<Budget> {
        if doc is Object && opt_count_in(doc, "max_tokens"@) is Some && Budget::cost_limit_in(
            doc,
        ) is Some && opt_count_in(doc, "max_wall_clock_secs"@) is Some && opt_count_in(
            doc,
            "max_tool_calls"@,
        ) is Some && opt_count_in(doc, "max_children"@) is Some {
            Some(
                Budget {
                    max_tokens: opt_count_in(doc, "max_tokens"@)->0,
                    max_cost_usd: Budget::cost_limit_in(doc)->0,
                    max_wall_clock_secs: opt_count_in(doc, "max_wall_clock_secs"@)->0,
                    max_tool_calls: opt_count_in(doc, "max_tool_calls"@)->0,
                    max_children: opt_count_in(doc, "max_children"@)->0,
                },
            )
        } else {
            None
        }
    }

    /// Whether the limit on the cost, if there is one, is a whole number of dollars.
    pub open spec fn in_dollars(self) -> bool {
        self.max_cost_usd matches Some(amount) ==> amount.in_dollars()
    }

    /// The document of this budget.
    pub fn to_doc(&self) -> (r: Json)
        ensures
            r@ == self.doc(),
    {
        let cost: Json = match self.max_cost_usd {
            Some(amount) => Json::Number(amount.to_number()),
            None => Json::Null,
        };
        Json::object().with("max_tokens", opt_count_to_doc(self.max_tokens)).with(
            "max_cost_usd",
            cost,
        ).with("max_wall_clock_secs", opt_count_to_doc(self.max_wall_clock_secs)).with(
            "max_tool_calls",
            opt_count_to_doc(self.max_tool_calls),
        ).with("max_children", opt_count_to_doc(self.max_children))
    }

    /// The budget that `doc` stands for: an object whose members, if they are there and
    /// not `null`, are numbers.
    pub fn from_doc(doc: &Json) -> (r: Option<Budget>)
        ensures
            r == Budget::of_doc(doc@),
    {
        if !doc.is_object() {
            return None;
        }
        let max_cost_usd: Option<Option<Usd>> = match doc.given("max_cost_usd") {
            Some(value) => match amount_from(value) {
                Some(amount) => Some(Some(amount)),
                None => None,
            },
            None => Some(None),
        };
        match (
            opt_count_from(doc, "max_tokens"),
            max_cost_usd,
            opt_count_from(doc, "max_wall_clock_secs"),
            opt_count_from(doc, "max_tool_calls"),
            opt_count_from(doc, "max_children"),
        ) {
            (
                Some(max_tokens),
                Some(max_cost_usd),
                Some(max_wall_clock_secs),
                Some(max_tool_calls),
                Some(max_children),
            ) => Some(
                Budget {
                    max_tokens,
                    max_cost_usd,
                    max_wall_clock_secs,
                    max_tool_calls,
                    max_children,
                },
            ),
            _ => None,
        }
    }
}

/// A budget survives its document.
pub proof fn budget_round_trip(value: Budget)
    ensures
        Budget::of_doc(value.doc()) == Some(value),
        value.in_dollars() ==> crate::wire::readable(value.doc()),
{
    reveal_strlit("max_tokens");
    reveal_strlit("max_cost_usd");
    reveal_strlit("max_wall_clock_secs");
    reveal_strlit("max_tool_calls");
    reveal_strlit("max_children");
    assert("max_tokens"@.len() == 10);
    assert("max_cost_usd"@.len() == 12);
    assert("max_wall_clock_secs"@.len() == 19);
    assert("max_tool_calls"@.len() == 14);
    assert("max_children"@.len() == 12);
    assert("max_cost_usd"@[5] != "max_children"@[5]);
    if let Some(amount) = value.max_cost_usd {
        crate::money::amount_number_round_trip(amount);
    }
    reveal_with_fuel(crate::wire::nested_within, 2);
    reveal_with_fuel(crate::wire::whole, 2);
    let none = JsonView::empty_object();
    let a = none.with("max_tokens"@, opt_count_doc(value.max_tokens));
    let b = a.with("max_cost_usd"@, opt_amount_doc(value.max_cost_usd));
    let c = b.with("max_wall_clock_secs"@, opt_count_doc(value.max_wall_clock_secs));
    let d = c.with("max_tool_calls"@, opt_count_doc(value.max_tool_calls));
    crate::wire::lemma_unmarked_with(none, "max_tokens"@, opt_count_doc(value.max_tokens));
    crate::wire::lemma_unmarked_with(a, "max_cost_usd"@, opt_amount_doc(value.max_cost_usd));
    crate::wire::lemma_unmarked_with(
        b,
        "max_wall_clock_secs"@,
        opt_count_doc(value.max_wall_clock_secs),
    );
    crate::wire::lemma_unmarked_with(c, "max_tool_calls"@, opt_count_doc(value.max_tool_calls));
    crate::wire::lemma_unmarked_with(d, "max_children"@, opt_count_doc(value.max_children));
}

impl BudgetUsage {
    /// The document of a usage: an object with a member for each count.
    pub open spec fn doc(self) -> JsonView {
        JsonView::empty_object().with("tokens"@, count_doc(self.tokens)).with(
            "cost_usd"@,
            JsonView::Number(self.cost_usd.number()),
        ).with("tool_calls"@, count_doc(self.tool_calls)).with(
            "children"@,
            count_doc(self.children),
        )
    }

    /// The cost that a document stands for.
    pub open spec fn cost_in(doc: JsonView) -> Option<Usd> {
        match doc.member("cost_usd"@) {
            Some(value) => amount_in(value),
            None => None,
        }
    }

    /// The usage that a document stands for.
    pub open spec fn of_doc(doc: JsonView) -> Option<BudgetUsage> {
        match (
            count_in(doc, "tokens"@),
            BudgetUsage::cost_in(doc),
            count_in(doc, "tool_calls"@),
            count_in(doc, "children"@),
        ) {
            (Some(tokens), Some(cost_usd), Some(tool_calls), Some(children)) => Some(
                BudgetUsage { tokens, cost_usd, tool_calls, children },
            ),
            _ => None,
        }
    }

    /// The document of this usage.
    pub fn to_doc(&self) -> (r: Json)
        ensures
            r@ == self.doc(),
    {
        Json::object().with("tokens", Json::number(self.tokens)).with(
            "cost_usd",
            Json::Number(self.cost_usd.to_number()),
        ).with("tool_calls", Json::number(self.tool_calls)).with(
            "children",
            Json::number(self.children),
        )
    }

    /// The usage that `doc` stands for: an object whose members are all there and
    /// numbers.
    pub fn from_doc(doc: &Json) -> (r: Option<BudgetUsage>)
        ensures
            r == BudgetUsage::of_doc(doc@),
    {
        let cost: Option<Usd> = match doc.get("cost_usd") {
            Some(value) => amount_from(value),
            None => None,
        };
        match (
            count_from(doc, "tokens"),
            cost,
            count_from(doc, "tool_calls"),
            count_from(doc, "children"),
        ) {
            (Some(tokens), Some(cost_usd), Some(tool_calls), Some(children)) => Some(
                BudgetUsage { tokens, cost_usd, tool_calls, children },
            ),
            _ => None,
        }
    }
}

/// A usage survives its document.
pub proof fn usage_round_trip(value: BudgetUsage)
    ensures
        BudgetUsage::of_doc(value.doc()) == Some(value),
        value.cost_usd.in_dollars() ==> crate::wire::readable(value.doc()),
{
    reveal_strlit("tokens");
    reveal_strlit("cost_usd");
    reveal_strlit("tool_calls");
    reveal_strlit("children");
    assert("tokens"@.len() == 6);
    assert("cost_usd"@.len() == 8);
    assert("tool_calls"@.len() == 10);
    assert("children"@.len() == 8);
    assert("cost_usd"@[0] == 'c' && "cost_usd"@[1] != "children"@[1]);
    crate::money::amount_number_round_trip(value.cost_usd);
    reveal_with_fuel(crate::wire::nested_within, 2);
    reveal_with_fuel(crate::wire::whole, 2);
    let none = JsonView::empty_object();
    let cost = JsonView::Number(value.cost_usd.number());
    let a = none.with("tokens"@, count_doc(value.tokens));
    let b = a.with("cost_usd"@, cost);
    let c = b.with("tool_calls"@, count_doc(value.tool_calls));
    crate::wire::lemma_unmarked_with(none, "tokens"@, count_doc(value.tokens));
    crate::wire::lemma_unmarked_with(a, "cost_usd"@, cost);
    crate::wire::lemma_unmarked_with(b, "tool_calls"@, count_doc(value.tool_calls));
    crate::wire::lemma_unmarked_with(c, "children"@, count_doc(value.children));
}

// ---- records -------------------------------------------------------------------

impl RunView {
    /// The document of a run: an object with a member for each field.
    pub open spec fn doc(self) -> JsonView {
        JsonView::empty_object().with("id"@, run_id_doc(self.id)).with(
            "parent_id"@,
            match self.parent_id {
                Some(parent_id) => run_id_doc(parent_id),
                None => JsonView::Null,
            },
        ).with("agent_type"@, JsonView::String(self.agent_type)).with(
            "goal"@,
            JsonView::String(self.goal),
        ).with("input"@, opt_doc(self.input)).with("status"@, self.status.doc()).with(
            "waiting"@,
            match self.waiting {
                Some(wait) => wait.doc(),
                None => JsonView::Null,
            },
        ).with("session_ref"@, opt_text_doc(self.session_ref)).with(
            "budget"@,
            self.budget.doc(),
        ).with("usage"@, self.usage.doc()).with("output"@, opt_doc(self.output)).with(
            "error"@,
            opt_text_doc(self.error),
        ).with("created_at"@, self.created_at.doc()).with("updated_at"@, self.updated_at.doc())
    }
}

impl Run {
    /// The document of this run.
    pub fn to_doc(&self) -> (r: Json)
        ensures
            r@ == self@.doc(),
    {
        let parent_id: Json = match self.parent_id {
            Some(parent_id) => Json::String(parent_id.text()),
            None => Json::Null,
        };
        let waiting: Json = match &self.waiting {
            Some(wait) => wait.to_doc(),
            None => Json::Null,
        };
        Json::object().with("id", Json::String(self.id.text())).with("parent_id", parent_id).with(
            "agent_type",
            Json::String(self.agent_type.clone()),
        ).with("goal", Json::String(self.goal.clone())).with(
            "input",
            opt_to_doc(&self.input),
        ).with("status", self.status.to_doc()).with("waiting", waiting).with(
            "session_ref",
            opt_text_to_doc(&self.session_ref),
        ).with("budget", self.budget.to_doc()).with("usage", self.usage.to_doc()).with(
            "output",
            opt_to_doc(&self.output),
        ).with("error", opt_text_to_doc(&self.error)).with(
            "created_at",
            self.created_at.to_doc(),
        ).with("updated_at", self.updated_at.to_doc())
    }
}

impl EventView {
    /// The document of an event: an object with a member for each field.
    pub open spec fn doc(self) -> JsonView {
        JsonView::empty_object().with("run_id"@, run_id_doc(self.run_id)).with(
            "seq"@,
            count_doc(self.seq as u64),
        ).with("kind"@, self.kind.doc()).with("payload"@, self.payload).with(
            "at"@,
            self.at.doc(),
        )
    }
}

impl Event {
    /// The document of this event.
    pub fn to_doc(&self) -> (r: Json)
        ensures
            r@ == self@.doc(),
    {
        Json::object().with("run_id", Json::String(self.run_id.text())).with(
            "seq",
            Json::number(self.seq),
        ).with("kind", self.kind.to_doc()).with("payload", self.payload.clone()).with(
            "at",
            self.at.to_doc(),
        )
    }
}

impl ArtifactView {
    /// The document of an artifact: an object with a member for each field.
    pub open spec fn doc(self) -> JsonView {
        JsonView::empty_object().with(
            "id"@,
            JsonView::String(uuid_hyphenated(self.id.value)),
        ).with("run_id"@, run_id_doc(self.run_id)).with("kind"@, JsonView::String(self.kind)).with(
            "uri"@,
            JsonView::String(self.uri),
        ).with("metadata"@, self.metadata).with("created_at"@, self.created_at.doc())
    }
}

impl Artifact {
    /// The document of this artifact.
    pub fn to_doc(&self) -> (r: Json)
        ensures
            r@ == self@.doc(),
    {
        Json::object().with("id", Json::String(self.id.text())).with(
            "run_id",
            Json::String(self.run_id.text()),
        ).with("kind", Json::String(self.kind.clone())).with(
            "uri",
            Json::String(self.uri.clone()),
        ).with("metadata", self.metadata.clone()).with("created_at", self.created_at.to_doc())
    }
}

} // verus!
