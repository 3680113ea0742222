//! How records are kept in the tables of a SQL backend.
//!
//! Every SQL backend keeps the same columns: documents as JSON text, instants as
//! milliseconds since the Unix epoch, ids as text. Here stand what a record is as a row
//! and what record a row is; a backend only carries rows to and from its tables.

use vstd::prelude::*;

use crate::artifact::{Artifact, ArtifactView};
use crate::budget::{Budget, BudgetUsage};
use crate::error::{Error, ErrorView};
use crate::event::{Event, EventKind, EventView};
use crate::ids::{
    parse_uuid, uuid_hyphenated, uuid_parsed, uuid_text, ArtifactId, ResourceId, RunId,
};
use crate::json::{opt_json, Json, JsonView};
use crate::resource::{Resource, ResourceKind, ResourceStatus, ResourceView};
use crate::run::{opt_wait, Run, RunStatus, RunView, Wait, WaitView};
use crate::signal::{Signal, SignalView};
use crate::step::{StepKey, StepRecord, StepRecordView, StepStatus};
use crate::text::{clone_opt_text, opt_text};
use crate::time::{in_calendar, Duration, Timestamp};
use crate::wire::{as_kept, json_parsed, json_printed, readable};

verus! {

/// The columns of the table of runs, in order.
pub const RUN_COLUMNS: &'static str = "id, parent_id, agent_type, goal, input, status, waiting, session_ref, budget, usage, output, error, created_at, updated_at";

// ---- instants ------------------------------------------------------------------

/// The milliseconds of an instant since the Unix epoch, rounded down and held at the ends
/// of the range.
pub open spec fn millis_of(at: Timestamp) -> i64 {
    let millis: int = at.nanos as int / 1_000_000;
    if millis > i64::MAX {
        i64::MAX
    } else if millis < i64::MIN {
        i64::MIN
    } else {
        millis as i64
    }
}

/// The instant of a number of milliseconds since the Unix epoch; the epoch itself where
/// the calendar does not reach that far.
pub open spec fn instant_at(millis: i64) -> Timestamp {
    if in_calendar((millis as int / 1000) as i64) {
        Timestamp { nanos: (millis * 1_000_000) as i128 }
    } else {
        Timestamp { nanos: 0 }
    }
}

/// The seconds and the nanoseconds of the second of an instant in milliseconds:
/// `chrono::DateTime::from_timestamp_millis`, read by `timestamp` and
/// `timestamp_subsec_nanos`; `None` exactly outside its calendar.
#[verifier::external_body]
fn millis_parts(millis: i64) -> (r: Option<(i64, u32)>)
    ensures
        match r {
            Some((secs, nanos)) => in_calendar((millis as int / 1000) as i64) && secs
                == millis as int / 1000 && nanos == (millis as int % 1000) * 1_000_000,
            None => !in_calendar((millis as int / 1000) as i64),
        },
{
    chrono::DateTime::from_timestamp_millis(millis)
        .map(|t| (t.timestamp(), t.timestamp_subsec_nanos()))
}

/// The milliseconds of an instant since the Unix epoch.
pub fn ms(at: Timestamp) -> (r: i64)
    ensures
        r == millis_of(at),
{
    let millis: i128 = match at.nanos.checked_div_euclid(1_000_000) {
        Some(millis) => millis,
        None => 0,
    };
    if millis > 0x7FFF_FFFF_FFFF_FFFF {
        i64::MAX
    } else if millis < -0x8000_0000_0000_0000 {
        i64::MIN
    } else {
        millis as i64
    }
}

/// From when on a queue entry can be claimed that was put in at `now`, in milliseconds: at
/// once where it is due by then, else from the first millisecond that is not before the
/// instant at which it is due.
pub open spec fn claimable_from(ready_at: Timestamp, now: Timestamp) -> i64 {
    let due = millis_of(ready_at);
    if ready_at.nanos > now.nanos && due < i64::MAX && due * 1_000_000 < ready_at.nanos {
        (due + 1) as i64
    } else {
        due
    }
}

/// From when on a queue entry can be claimed that was put in at `now`, in milliseconds.
pub fn ready_ms(ready_at: Timestamp, now: Timestamp) -> (r: i64)
    ensures
        r == claimable_from(ready_at, now),
{
    let due: i64 = ms(ready_at);
    if ready_at.nanos > now.nanos && due < i64::MAX && (due as i128) * 1_000_000
        < ready_at.nanos {
        due + 1
    } else {
        due
    }
}

/// An entry that is due when it is put in can be claimed at once, and one that is due later
/// cannot be claimed before it is.
pub proof fn an_entry_is_claimed_when_it_is_due(
    ready_at: Timestamp,
    now: Timestamp,
    then: Timestamp,
)
    requires
        in_range(ready_at),
    ensures
        ready_at.nanos <= now.nanos ==> claimable_from(ready_at, now) <= millis_of(now),
        ready_at.nanos > now.nanos && claimable_from(ready_at, now) <= millis_of(then)
            ==> ready_at.nanos <= then.nanos,
{
}

/// The instant of a number of milliseconds since the Unix epoch.
pub fn dt(ms: i64) -> (r: Timestamp)
    ensures
        r == instant_at(ms),
{
    match millis_parts(ms) {
        Some((secs, nanos)) => Timestamp::from_parts(secs, nanos),
        None => Timestamp::epoch(),
    }
}

/// This instant without what is below a millisecond.
pub open spec fn to_the_millisecond(at: Timestamp) -> Timestamp {
    Timestamp { nanos: (at.nanos as int / 1_000_000 * 1_000_000) as i128 }
}

/// Whether a column can hold an instant.
pub open spec fn in_range(at: Timestamp) -> bool {
    -8_334_601_228_800_000_000_000 <= at.nanos < 8_210_266_876_800_000_000_000
}

/// An instant survives its column but for what is below a millisecond.
pub proof fn instant_column_round_trip(at: Timestamp)
    requires
        in_range(at),
    ensures
        instant_at(millis_of(at)) == to_the_millisecond(at),
{
}

/// Until when a claim made at `now` lasts, in milliseconds.
pub fn lease_until(now: i64, lease_ttl: Duration) -> (r: i64)
    ensures
        r == (if now + lease_ttl.nanos / 1_000_000 <= i64::MAX {
            now + lease_ttl.nanos / 1_000_000
        } else {
            i64::MAX as int
        }),
{
    let span: u128 = lease_ttl.nanos / 1_000_000;
    if span > 0x1_0000_0000_0000_0000 {
        return i64::MAX;
    }
    let until: i128 = now as i128 + span as i128;
    if until > 0x7FFF_FFFF_FFFF_FFFF {
        i64::MAX
    } else {
        until as i64
    }
}

// ---- texts ---------------------------------------------------------------------

/// The model of what was read from a row.
pub open spec fn shown<T: View>(r: Result<T, Error>) -> Result<T::V, ErrorView> {
    match r {
        Ok(value) => Ok(value@),
        Err(e) => Err(e@),
    }
}

/// The model of a plain value that was read from a column.
pub open spec fn outcome<T>(r: Result<T, Error>) -> Result<T, ErrorView> {
    match r {
        Ok(value) => Ok(value),
        Err(e) => Err(e@),
    }
}

/// The text of a document.
pub open spec fn doc_text(doc: JsonView) -> Seq<char> {
    json_printed(as_kept(doc))
}

/// The document that a column holds.
pub open spec fn doc_in(text: Seq<char>) -> Result<JsonView, ErrorView> {
    match json_parsed(vstd::utf8::encode_utf8(text)) {
        Ok(doc) => Ok(doc),
        Err(message) => Err(ErrorView::Serde(message)),
    }
}

/// The optional document that a column holds.
pub open spec fn opt_doc_in(text: Option<Seq<char>>) -> Result<Option<JsonView>, ErrorView> {
    match text {
        Some(text) => match doc_in(text) {
            Ok(doc) => Ok(Some(doc)),
            Err(e) => Err(e),
        },
        None => Ok(None),
    }
}

/// The number of the id that a column holds.
pub open spec fn uuid_in(text: Seq<char>) -> Result<u128, ErrorView> {
    match uuid_parsed(text) {
        Ok(value) => Ok(value),
        Err(message) => Err(ErrorView::Storage(message)),
    }
}

/// The run id that a column holds.
pub open spec fn run_id_in(text: Seq<char>) -> Result<RunId, ErrorView> {
    match uuid_in(text) {
        Ok(value) => Ok(RunId { value }),
        Err(e) => Err(e),
    }
}

/// What a column holds, where its document is a value; else an error with `message`.
pub open spec fn value_in<T>(
    doc: Result<JsonView, ErrorView>,
    value: spec_fn(JsonView) -> Option<T>,
    message: Seq<char>,
) -> Result<T, ErrorView> {
    match doc {
        Ok(doc) => match value(doc) {
            Some(value) => Ok(value),
            None => Err(ErrorView::Serde(message)),
        },
        Err(e) => Err(e),
    }
}

/// Whether a document is read back from its text as it was: it is readable, or its text
/// reads so all the same.
pub open spec fn survives(doc: JsonView) -> bool {
    readable(doc) || doc_in(doc_text(doc)) == Ok::<JsonView, ErrorView>(doc)
}

/// The text of a document.
pub fn to_json(doc: &Json) -> (r: String)
    ensures
        r@ == doc_text(doc@),
        survives(doc@) ==> doc_in(r@) == Ok::<JsonView, ErrorView>(doc@),
{
    doc.print()
}

/// The model of an optional text of an optional document.
pub open spec fn opt_doc_text(doc: Option<JsonView>) -> Option<Seq<char>> {
    match doc {
        Some(doc) => Some(doc_text(doc)),
        None => None,
    }
}

/// Whether an optional document is read back from its text as it was.
pub open spec fn opt_survives(doc: Option<JsonView>) -> bool {
    doc matches Some(doc) ==> survives(doc)
}

/// The optional text of an optional document.
pub fn opt_value_to_json(doc: &Option<Json>) -> (r: Option<String>)
    ensures
        opt_text(r) == opt_doc_text(opt_json(*doc)),
        opt_survives(opt_json(*doc)) ==> opt_doc_in(opt_text(r)) == Ok::<
            Option<JsonView>,
            ErrorView,
        >(opt_json(*doc)),
{
    match doc {
        Some(doc) => Some(to_json(doc)),
        None => None,
    }
}

/// The run id that a text spells.
pub fn parse_run_id(s: &str) -> (r: Result<RunId, Error>)
    ensures
        outcome(r) == run_id_in(s@),
{
    match read_uuid(s) {
        Ok(value) => Ok(RunId { value }),
        Err(e) => Err(e),
    }
}

fn read_uuid(s: &str) -> (r: Result<u128, Error>)
    ensures
        outcome(r) == uuid_in(s@),
{
    match parse_uuid(s) {
        Ok(value) => Ok(value),
        Err(message) => Err(Error::storage(message)),
    }
}

fn read_doc(text: &str) -> (r: Result<Json, Error>)
    ensures
        shown(r) == doc_in(text@),
{
    match Json::parse(text.as_bytes()) {
        Ok(doc) => Ok(doc),
        Err(message) => Err(Error::Serde(message)),
    }
}

/// The model of an optional document that was read.
pub open spec fn shown_opt(r: Result<Option<Json>, Error>) -> Result<Option<JsonView>, ErrorView> {
    match r {
        Ok(doc) => Ok(opt_json(doc)),
        Err(e) => Err(e@),
    }
}

fn read_opt_doc(text: &Option<String>) -> (r: Result<Option<Json>, Error>)
    ensures
        shown_opt(r) == opt_doc_in(opt_text(*text)),
{
    match text {
        Some(text) => match read_doc(text.as_str()) {
            Ok(doc) => Ok(Some(doc)),
            Err(e) => Err(e),
        },
        None => Ok(None),
    }
}

// ---- typed columns -------------------------------------------------------------

/// The state of a run that a column holds.
pub open spec fn run_status_in(text: Seq<char>) -> Result<RunStatus, ErrorView> {
    value_in(doc_in(text), |doc: JsonView| RunStatus::of_doc(doc), "not a run status"@)
}

/// The wait that a column holds.
pub open spec fn wait_in(text: Option<Seq<char>>) -> Result<Option<WaitView>, ErrorView> {
    match text {
        Some(text) => match value_in(
            doc_in(text),
            |doc: JsonView| WaitView::of_doc(doc),
            "not a wait"@,
        ) {
            Ok(wait) => Ok(Some(wait)),
            Err(e) => Err(e),
        },
        None => Ok(None),
    }
}

/// The budget that a column holds.
pub open spec fn budget_in(text: Seq<char>) -> Result<Budget, ErrorView> {
    value_in(doc_in(text), |doc: JsonView| Budget::of_doc(doc), "not a budget"@)
}

/// The usage that a column holds.
pub open spec fn usage_in(text: Seq<char>) -> Result<BudgetUsage, ErrorView> {
    value_in(doc_in(text), |doc: JsonView| BudgetUsage::of_doc(doc), "not a usage"@)
}

/// The event kind that a column holds.
pub open spec fn event_kind_in(text: Seq<char>) -> Result<EventKind, ErrorView> {
    value_in(doc_in(text), |doc: JsonView| EventKind::of_doc(doc), "not an event kind"@)
}

/// The step status that a column holds.
pub open spec fn step_status_in(text: Seq<char>) -> Result<StepStatus, ErrorView> {
    value_in(doc_in(text), |doc: JsonView| StepStatus::of_doc(doc), "not a step status"@)
}

/// The resource class that a column holds.
pub open spec fn resource_kind_in(text: Seq<char>) -> Result<ResourceKind, ErrorView> {
    value_in(doc_in(text), |doc: JsonView| ResourceKind::of_doc(doc), "not a resource kind"@)
}

/// The state of a lease that a column holds.
pub open spec fn resource_status_in(text: Seq<char>) -> Result<ResourceStatus, ErrorView> {
    value_in(doc_in(text), |doc: JsonView| ResourceStatus::of_doc(doc), "not a resource status"@)
}

/// The optional run id that a column holds.
pub open spec fn opt_run_id_in(text: Option<Seq<char>>) -> Result<Option<RunId>, ErrorView> {
    match text {
        Some(text) => match run_id_in(text) {
            Ok(id) => Ok(Some(id)),
            Err(e) => Err(e),
        },
        None => Ok(None),
    }
}

fn no_value<T>(message: &str) -> (r: Result<T, Error>)
    ensures
        outcome(r) == Err::<T, ErrorView>(ErrorView::Serde(message@)),
{
    Err(Error::Serde(message.to_owned()))
}

fn read_run_status(text: &str) -> (r: Result<RunStatus, Error>)
    ensures
        outcome(r) == run_status_in(text@),
{
    match read_doc(text) {
        Ok(doc) => match RunStatus::from_doc(&doc) {
            Some(value) => Ok(value),
            None => no_value("not a run status"),
        },
        Err(e) => Err(e),
    }
}

/// The model of a wait that was read.
pub open spec fn shown_wait(r: Result<Option<Wait>, Error>) -> Result<Option<WaitView>, ErrorView> {
    match r {
        Ok(wait) => Ok(opt_wait(wait)),
        Err(e) => Err(e@),
    }
}

fn read_wait(text: &Option<String>) -> (r: Result<Option<Wait>, Error>)
    ensures
        shown_wait(r) == wait_in(opt_text(*text)),
{
    match text {
        Some(text) => match read_doc(text.as_str()) {
            Ok(doc) => match Wait::from_doc(&doc) {
                Some(wait) => Ok(Some(wait)),
                None => Err(Error::Serde("not a wait".to_owned())),
            },
            Err(e) => Err(e),
        },
        None => Ok(None),
    }
}

fn read_budget(text: &str) -> (r: Result<Budget, Error>)
    ensures
        outcome(r) == budget_in(text@),
{
    match read_doc(text) {
        Ok(doc) => match Budget::from_doc(&doc) {
            Some(value) => Ok(value),
            None => no_value("not a budget"),
        },
        Err(e) => Err(e),
    }
}

fn read_usage(text: &str) -> (r: Result<BudgetUsage, Error>)
    ensures
        outcome(r) == usage_in(text@),
{
    match read_doc(text) {
        Ok(doc) => match BudgetUsage::from_doc(&doc) {
            Some(value) => Ok(value),
            None => no_value("not a usage"),
        },
        Err(e) => Err(e),
    }
}

fn read_event_kind(text: &str) -> (r: Result<EventKind, Error>)
    ensures
        outcome(r) == event_kind_in(text@),
{
    match read_doc(text) {
        Ok(doc) => match EventKind::from_doc(&doc) {
            Some(value) => Ok(value),
            None => no_value("not an event kind"),
        },
        Err(e) => Err(e),
    }
}

fn read_step_status(text: &str) -> (r: Result<StepStatus, Error>)
    ensures
        outcome(r) == step_status_in(text@),
{
    match read_doc(text) {
        Ok(doc) => match StepStatus::from_doc(&doc) {
            Some(value) => Ok(value),
            None => no_value("not a step status"),
        },
        Err(e) => Err(e),
    }
}

fn read_resource_kind(text: &str) -> (r: Result<ResourceKind, Error>)
    ensures
        outcome(r) == resource_kind_in(text@),
{
    match read_doc(text) {
        Ok(doc) => match ResourceKind::from_doc(&doc) {
            Some(value) => Ok(value),
            None => no_value("not a resource kind"),
        },
        Err(e) => Err(e),
    }
}

fn read_resource_status(text: &str) -> (r: Result<ResourceStatus, Error>)
    ensures
        outcome(r) == resource_status_in(text@),
{
    match read_doc(text) {
        Ok(doc) => match ResourceStatus::from_doc(&doc) {
            Some(value) => Ok(value),
            None => no_value("not a resource status"),
        },
        Err(e) => Err(e),
    }
}

fn read_opt_run_id(text: &Option<String>) -> (r: Result<Option<RunId>, Error>)
    ensures
        outcome(r) == opt_run_id_in(opt_text(*text)),
{
    match text {
        Some(text) => match parse_run_id(text.as_str()) {
            Ok(id) => Ok(Some(id)),
            Err(e) => Err(e),
        },
        None => Ok(None),
    }
}

// ---- runs ----------------------------------------------------------------------

/// A row of the table of runs.
#[derive(Debug)]
pub struct RunRow {
    /// The id.
    pub id: String,
    /// The id of the parent.
    pub parent_id: Option<String>,
    /// The agent type.
    pub agent_type: String,
    /// The goal.
    pub goal: String,
    /// The input as JSON text.
    pub input: Option<String>,
    /// The state as JSON text.
    pub status: String,
    /// The wait as JSON text.
    pub waiting: Option<String>,
    /// The session pointer.
    pub session_ref: Option<String>,
    /// The budget as JSON text.
    pub budget: String,
    /// The usage as JSON text.
    pub usage: String,
    /// The output as JSON text.
    pub output: Option<String>,
    /// The message of a failed run.
    pub error: Option<String>,
    /// When the run was created, in milliseconds.
    pub created_at: i64,
    /// When the run was last updated, in milliseconds.
    pub updated_at: i64,
}

/// The model of a [`RunRow`].
pub struct RunRowView {
    /// The id.
    pub id: Seq<char>,
    /// The id of the parent.
    pub parent_id: Option<Seq<char>>,
    /// The agent type.
    pub agent_type: Seq<char>,
    /// The goal.
    pub goal: Seq<char>,
    /// The input as JSON text.
    pub input: Option<Seq<char>>,
    /// The state as JSON text.
    pub status: Seq<char>,
    /// The wait as JSON text.
    pub waiting: Option<Seq<char>>,
    /// The session pointer.
    pub session_ref: Option<Seq<char>>,
    /// The budget as JSON text.
    pub budget: Seq<char>,
    /// The usage as JSON text.
    pub usage: Seq<char>,
    /// The output as JSON text.
    pub output: Option<Seq<char>>,
    /// The message of a failed run.
    pub error: Option<Seq<char>>,
    /// When the run was created, in milliseconds.
    pub created_at: i64,
    /// When the run was last updated, in milliseconds.
    pub updated_at: i64,
}

impl View for RunRow {
    type V = RunRowView;

    open spec fn view(&self) -> RunRowView {
        RunRowView {
            id: self.id@,
            parent_id: opt_text(self.parent_id),
            agent_type: self.agent_type@,
            goal: self.goal@,
            input: opt_text(self.input),
            status: self.status@,
            waiting: opt_text(self.waiting),
            session_ref: opt_text(self.session_ref),
            budget: self.budget@,
            usage: self.usage@,
            output: opt_text(self.output),
            error: opt_text(self.error),
            created_at: self.created_at,
            updated_at: self.updated_at,
        }
    }
}

impl RunRowView {
    /// The run that a row holds, or the error of its first column that holds none, in the
    /// order of the columns.
    pub open spec fn run(self) -> Result<RunView, ErrorView> {
        if run_id_in(self.id) is Err {
            Err(run_id_in(self.id)->Err_0)
        } else if opt_run_id_in(self.parent_id) is Err {
            Err(opt_run_id_in(self.parent_id)->Err_0)
        } else if opt_doc_in(self.input) is Err {
            Err(opt_doc_in(self.input)->Err_0)
        } else if run_status_in(self.status) is Err {
            Err(run_status_in(self.status)->Err_0)
        } else if wait_in(self.waiting) is Err {
            Err(wait_in(self.waiting)->Err_0)
        } else if budget_in(self.budget) is Err {
            Err(budget_in(self.budget)->Err_0)
        } else if usage_in(self.usage) is Err {
            Err(usage_in(self.usage)->Err_0)
        } else if opt_doc_in(self.output) is Err {
            Err(opt_doc_in(self.output)->Err_0)
        } else {
            Ok(
                RunView {
                    id: run_id_in(self.id)->Ok_0,
                    parent_id: opt_run_id_in(self.parent_id)->Ok_0,
                    agent_type: self.agent_type,
                    goal: self.goal,
                    input: opt_doc_in(self.input)->Ok_0,
                    status: run_status_in(self.status)->Ok_0,
                    waiting: wait_in(self.waiting)->Ok_0,
                    session_ref: self.session_ref,
                    budget: budget_in(self.budget)->Ok_0,
                    usage: usage_in(self.usage)->Ok_0,
                    output: opt_doc_in(self.output)->Ok_0,
                    error: self.error,
                    created_at: instant_at(self.created_at),
                    updated_at: instant_at(self.updated_at),
                },
            )
        }
    }

    /// The row of a run.
    pub open spec fn of_run(run: RunView) -> RunRowView {
        RunRowView {
            id: uuid_hyphenated(run.id.value),
            parent_id: match run.parent_id {
                Some(id) => Some(uuid_hyphenated(id.value)),
                None => None,
            },
            agent_type: run.agent_type,
            goal: run.goal,
            input: opt_doc_text(run.input),
            status: doc_text(run.status.doc()),
            waiting: match run.waiting {
                Some(wait) => Some(doc_text(wait.doc())),
                None => None,
            },
            session_ref: run.session_ref,
            budget: doc_text(run.budget.doc()),
            usage: doc_text(run.usage.doc()),
            output: opt_doc_text(run.output),
            error: run.error,
            created_at: millis_of(run.created_at),
            updated_at: millis_of(run.updated_at),
        }
    }
}

/// Whether a budget is read back from its text: its limit on the cost is a whole number of
/// dollars, or its text reads as it all the same.
pub open spec fn budget_survives(budget: Budget) -> bool {
    budget.in_dollars() || budget_in(doc_text(budget.doc())) == Ok::<Budget, ErrorView>(budget)
}

/// Whether a usage is read back from its text: its cost is a whole number of dollars, or its
/// text reads as it all the same.
pub open spec fn usage_survives(usage: BudgetUsage) -> bool {
    usage.cost_usd.in_dollars() || usage_in(doc_text(usage.doc())) == Ok::<
        BudgetUsage,
        ErrorView,
    >(usage)
}

/// Whether a wait is read back from its text: it has no deadline outside the years of four
/// digits, or its text reads as it all the same.
pub open spec fn wait_survives(wait: WaitView) -> bool {
    wait.writable() || wait_in(Some(doc_text(wait.doc()))) == Ok::<Option<WaitView>, ErrorView>(
        Some(wait),
    )
}

/// Whether a run is read back from its row: its documents, its wait, its budget and its
/// usage are read back from their texts, and its instants are in range.
pub open spec fn storable(run: RunView) -> bool {
    &&& opt_survives(run.input)
    &&& opt_survives(run.output)
    &&& run.waiting matches Some(wait) ==> wait_survives(wait)
    &&& budget_survives(run.budget)
    &&& usage_survives(run.usage)
    &&& in_range(run.created_at)
    &&& in_range(run.updated_at)
}

/// The run that a row holds.
pub fn run_from_row(r: RunRow) -> (run: Result<Run, Error>)
    ensures
        shown(run) == r@.run(),
{
    let id: RunId = match parse_run_id(r.id.as_str()) {
        Ok(id) => id,
        Err(e) => return Err(e),
    };
    let parent_id: Option<RunId> = match read_opt_run_id(&r.parent_id) {
        Ok(parent_id) => parent_id,
        Err(e) => return Err(e),
    };
    let input: Option<Json> = match read_opt_doc(&r.input) {
        Ok(input) => input,
        Err(e) => return Err(e),
    };
    let status: RunStatus = match read_run_status(r.status.as_str()) {
        Ok(status) => status,
        Err(e) => return Err(e),
    };
    let waiting: Option<Wait> = match read_wait(&r.waiting) {
        Ok(waiting) => waiting,
        Err(e) => return Err(e),
    };
    let budget: Budget = match read_budget(r.budget.as_str()) {
        Ok(budget) => budget,
        Err(e) => return Err(e),
    };
    let usage: BudgetUsage = match read_usage(r.usage.as_str()) {
        Ok(usage) => usage,
        Err(e) => return Err(e),
    };
    let output: Option<Json> = match read_opt_doc(&r.output) {
        Ok(output) => output,
        Err(e) => return Err(e),
    };
    Ok(
        Run {
            id,
            parent_id,
            agent_type: r.agent_type,
            goal: r.goal,
            input,
            status,
            waiting,
            session_ref: r.session_ref,
            budget,
            usage,
            output,
            error: r.error,
            created_at: dt(r.created_at),
            updated_at: dt(r.updated_at),
        },
    )
}

/// The row of a run. A storable run is read back from it, but for what is below a
/// millisecond.
pub fn row_from_run(run: &Run) -> (r: RunRow)
    ensures
        r@ == RunRowView::of_run(run@),
        storable(run@) ==> r@.run() == Ok::<RunView, ErrorView>(
            RunView {
                created_at: to_the_millisecond(run@.created_at),
                updated_at: to_the_millisecond(run@.updated_at),
                ..run@
            },
        ),
{
    let parent_id: Option<String> = match &run.parent_id {
        Some(id) => Some(id.text()),
        None => None,
    };
    let waiting: Option<String> = match &run.waiting {
        Some(wait) => Some(to_json(&wait.to_doc())),
        None => None,
    };
    proof {
        crate::document::run_status_round_trip(run.status);
        crate::document::budget_round_trip(run.budget);
        crate::document::usage_round_trip(run.usage);
        if in_range(run.created_at) && in_range(run.updated_at) {
            instant_column_round_trip(run.created_at);
            instant_column_round_trip(run.updated_at);
        }
    }
    RunRow {
        id: run.id.text(),
        parent_id,
        agent_type: run.agent_type.clone(),
        goal: run.goal.clone(),
        input: opt_value_to_json(&run.input),
        status: to_json(&run.status.to_doc()),
        waiting,
        session_ref: clone_opt_text(&run.session_ref),
        budget: to_json(&run.budget.to_doc()),
        usage: to_json(&run.usage.to_doc()),
        output: opt_value_to_json(&run.output),
        error: clone_opt_text(&run.error),
        created_at: ms(run.created_at),
        updated_at: ms(run.updated_at),
    }
}

// ---- events --------------------------------------------------------------------

/// A row of the table of events, for one run.
#[derive(Debug)]
pub struct EventRow {
    /// The number within the run.
    pub seq: i64,
    /// The kind as JSON text.
    pub kind: String,
    /// The payload as JSON text.
    pub payload: String,
    /// When the event was recorded, in milliseconds.
    pub at: i64,
}

impl EventRow {
    /// The event of the run `run_id` that this row holds.
    pub open spec fn event(self, run_id: RunId) -> Result<EventView, ErrorView> {
        match (event_kind_in(self.kind@), doc_in(self.payload@)) {
            (Err(e), _) => Err(e),
            (Ok(_), Err(e)) => Err(e),
            (Ok(kind), Ok(payload)) => Ok(
                EventView {
                    run_id,
                    seq: (self.seq as u64) as nat,
                    kind,
                    payload,
                    at: instant_at(self.at),
                },
            ),
        }
    }
}

/// The event of the run `run_id` that a row holds.
pub fn event_from_row(run_id: RunId, r: EventRow) -> (event: Result<Event, Error>)
    ensures
        shown(event) == r.event(run_id),
{
    let kind: EventKind = match read_event_kind(r.kind.as_str()) {
        Ok(kind) => kind,
        Err(e) => return Err(e),
    };
    let payload: Json = match read_doc(r.payload.as_str()) {
        Ok(payload) => payload,
        Err(e) => return Err(e),
    };
    Ok(Event { run_id, seq: r.seq as u64, kind, payload, at: dt(r.at) })
}

/// The row of an event. Where its payload is read back from its text, its instant is in range
/// and a column holds its number, it is read back from the row, but for what is below a
/// millisecond.
pub fn row_from_event(event: &Event) -> (r: EventRow)
    ensures
        r.seq == event.seq as i64,
        r.kind@ == doc_text(event.kind.doc()),
        r.payload@ == doc_text(event.payload@),
        r.at == millis_of(event.at),
        survives(event.payload@) && in_range(event.at) && event.seq <= i64::MAX ==> r.event(
            event.run_id,
        ) == Ok::<EventView, ErrorView>(
            EventView { at: to_the_millisecond(event.at), ..event@ },
        ),
{
    proof {
        crate::document::event_kind_round_trip(event.kind);
        if in_range(event.at) {
            instant_column_round_trip(event.at);
        }
    }
    EventRow {
        seq: event.seq as i64,
        kind: to_json(&event.kind.to_doc()),
        payload: to_json(&event.payload),
        at: ms(event.at),
    }
}

// ---- steps ---------------------------------------------------------------------

/// A row of the table of durable steps, for one run and key.
#[derive(Debug)]
pub struct StepRow {
    /// The status as JSON text.
    pub status: String,
    /// The output as JSON text.
    pub output: Option<String>,
    /// The message of a failed step.
    pub error: Option<String>,
    /// How many attempts were made.
    pub attempts: i64,
    /// When the record was written, in milliseconds.
    pub updated_at: i64,
}

impl StepRow {
    /// The record of the run `run_id` and the key `key` that this row holds.
    pub open spec fn record(self, run_id: RunId, key: Seq<char>) -> Result<
        StepRecordView,
        ErrorView,
    > {
        match (step_status_in(self.status@), opt_doc_in(opt_text(self.output))) {
            (Err(e), _) => Err(e),
            (Ok(_), Err(e)) => Err(e),
            (Ok(status), Ok(output)) => Ok(
                StepRecordView {
                    run_id,
                    key,
                    status,
                    output,
                    error: opt_text(self.error),
                    attempts: self.attempts as u32,
                    updated_at: instant_at(self.updated_at),
                },
            ),
        }
    }
}

/// The record of the run `run_id` and the key `key` that a row holds.
pub fn step_from_row(run_id: RunId, key: &str, r: StepRow) -> (record: Result<StepRecord, Error>)
    ensures
        shown(record) == r.record(run_id, key@),
{
    let status: StepStatus = match read_step_status(r.status.as_str()) {
        Ok(status) => status,
        Err(e) => return Err(e),
    };
    let output: Option<Json> = match read_opt_doc(&r.output) {
        Ok(output) => output,
        Err(e) => return Err(e),
    };
    Ok(
        StepRecord {
            run_id,
            key: StepKey(key.to_owned()),
            status,
            output,
            error: r.error,
            attempts: r.attempts as u32,
            updated_at: dt(r.updated_at),
        },
    )
}

/// The row of a step record. Where its output is read back from its text and its instant is
/// in range, it is read back from the row, but for what is below a millisecond: a memoized
/// output survives.
pub fn row_from_step(record: &StepRecord) -> (r: StepRow)
    ensures
        r.status@ == doc_text(record.status.doc()),
        opt_text(r.output) == opt_doc_text(opt_json(record.output)),
        opt_text(r.error) == opt_text(record.error),
        r.attempts == record.attempts,
        r.updated_at == millis_of(record.updated_at),
        opt_survives(opt_json(record.output)) && in_range(record.updated_at) ==> r.record(
            record.run_id,
            record.key@,
        ) == Ok::<StepRecordView, ErrorView>(
            StepRecordView { updated_at: to_the_millisecond(record.updated_at), ..record@ },
        ),
{
    proof {
        crate::document::step_status_round_trip(record.status);
        if in_range(record.updated_at) {
            instant_column_round_trip(record.updated_at);
        }
    }
    StepRow {
        status: to_json(&record.status.to_doc()),
        output: opt_value_to_json(&record.output),
        error: clone_opt_text(&record.error),
        attempts: record.attempts as i64,
        updated_at: ms(record.updated_at),
    }
}

// ---- signals -------------------------------------------------------------------

/// A row of the table of signals, for one run, as it is handed out when it is consumed.
#[derive(Debug)]
pub struct SignalRow {
    /// The name.
    pub name: String,
    /// The payload as JSON text.
    pub payload: String,
    /// When the signal was delivered, in milliseconds.
    pub created_at: i64,
}

impl SignalRow {
    /// The consumed signal of the run `run_id` that this row holds.
    pub open spec fn signal(self, run_id: RunId) -> Result<SignalView, ErrorView> {
        match doc_in(self.payload@) {
            Err(e) => Err(e),
            Ok(payload) => Ok(
                SignalView {
                    run_id,
                    name: self.name@,
                    payload,
                    created_at: instant_at(self.created_at),
                    consumed: true,
                },
            ),
        }
    }
}

/// The consumed signal of the run `run_id` that a row holds.
pub fn signal_from_row(run_id: RunId, r: SignalRow) -> (signal: Result<Signal, Error>)
    ensures
        shown(signal) == r.signal(run_id),
{
    match read_doc(r.payload.as_str()) {
        Ok(payload) => Ok(
            Signal {
                run_id,
                name: r.name,
                payload,
                created_at: dt(r.created_at),
                consumed: true,
            },
        ),
        Err(e) => Err(e),
    }
}

/// The row of a signal named `name` with a payload, delivered at `at`. A payload
/// that is read back from its text is read back from the row.
pub fn row_from_signal(name: &str, payload: &Json, at: Timestamp) -> (r: SignalRow)
    ensures
        r.name@ == name@,
        r.payload@ == doc_text(payload@),
        r.created_at == millis_of(at),
        forall|run_id: RunId|
            survives(payload@) && in_range(at) ==> #[trigger] r.signal(run_id) == Ok::<
                SignalView,
                ErrorView,
            >(
                SignalView {
                    run_id,
                    name: name@,
                    payload: payload@,
                    created_at: to_the_millisecond(at),
                    consumed: true,
                },
            ),
{
    proof {
        if in_range(at) {
            instant_column_round_trip(at);
        }
    }
    SignalRow { name: name.to_owned(), payload: to_json(payload), created_at: ms(at) }
}

// ---- resources -----------------------------------------------------------------

/// A row of the table of resources, for one run.
#[derive(Debug)]
pub struct ResourceRow {
    /// The id.
    pub id: String,
    /// The class as JSON text.
    pub kind: String,
    /// The state of the lease as JSON text.
    pub status: String,
    /// The metadata as JSON text.
    pub metadata: String,
    /// When the lease expires, in milliseconds.
    pub lease_expires_at: Option<i64>,
    /// When it was leased, in milliseconds.
    pub created_at: i64,
}

/// The optional instant of an optional number of milliseconds.
pub open spec fn opt_instant_at(millis: Option<i64>) -> Option<Timestamp> {
    match millis {
        Some(millis) => Some(instant_at(millis)),
        None => None,
    }
}

impl ResourceRow {
    /// The resource of the run `run_id` that this row holds, or the error of its first
    /// column that holds none.
    pub open spec fn resource(self, run_id: RunId) -> Result<ResourceView, ErrorView> {
        if uuid_in(self.id@) is Err {
            Err(uuid_in(self.id@)->Err_0)
        } else if resource_kind_in(self.kind@) is Err {
            Err(resource_kind_in(self.kind@)->Err_0)
        } else if resource_status_in(self.status@) is Err {
            Err(resource_status_in(self.status@)->Err_0)
        } else if doc_in(self.metadata@) is Err {
            Err(doc_in(self.metadata@)->Err_0)
        } else {
            Ok(
                ResourceView {
                    id: ResourceId { value: uuid_in(self.id@)->Ok_0 },
                    run_id,
                    kind: resource_kind_in(self.kind@)->Ok_0,
                    status: resource_status_in(self.status@)->Ok_0,
                    metadata: doc_in(self.metadata@)->Ok_0,
                    lease_expires_at: opt_instant_at(self.lease_expires_at),
                    created_at: instant_at(self.created_at),
                },
            )
        }
    }
}

/// The resource of the run `run_id` that a row holds.
pub fn resource_from_row(run_id: RunId, r: ResourceRow) -> (resource: Result<Resource, Error>)
    ensures
        shown(resource) == r.resource(run_id),
{
    let value: u128 = match read_uuid(r.id.as_str()) {
        Ok(value) => value,
        Err(e) => return Err(e),
    };
    let kind: ResourceKind = match read_resource_kind(r.kind.as_str()) {
        Ok(kind) => kind,
        Err(e) => return Err(e),
    };
    let status: ResourceStatus = match read_resource_status(r.status.as_str()) {
        Ok(status) => status,
        Err(e) => return Err(e),
    };
    let metadata: Json = match read_doc(r.metadata.as_str()) {
        Ok(metadata) => metadata,
        Err(e) => return Err(e),
    };
    let lease_expires_at: Option<Timestamp> = match r.lease_expires_at {
        Some(millis) => Some(dt(millis)),
        None => None,
    };
    Ok(
        Resource {
            id: ResourceId { value },
            run_id,
            kind,
            status,
            metadata,
            lease_expires_at,
            created_at: dt(r.created_at),
        },
    )
}

/// An optional instant without what is below a millisecond.
pub open spec fn opt_to_the_millisecond(at: Option<Timestamp>) -> Option<Timestamp> {
    match at {
        Some(at) => Some(to_the_millisecond(at)),
        None => None,
    }
}

/// The row of a resource. Where its metadata are read back from their text and its instants
/// are in range, it is read back from the row, but for what is below a millisecond: a lease
/// survives.
pub fn row_from_resource(resource: &Resource) -> (r: ResourceRow)
    ensures
        r.id@ == uuid_hyphenated(resource.id.value),
        r.kind@ == doc_text(resource.kind.doc()),
        r.status@ == doc_text(resource.status.doc()),
        r.metadata@ == doc_text(resource.metadata@),
        r.lease_expires_at == (match resource.lease_expires_at {
            Some(at) => Some(millis_of(at)),
            None => None,
        }),
        r.created_at == millis_of(resource.created_at),
        survives(resource.metadata@) && in_range(resource.created_at) && (
        resource.lease_expires_at matches Some(at) ==> in_range(at)) ==> r.resource(
            resource.run_id,
        ) == Ok::<ResourceView, ErrorView>(
            ResourceView {
                lease_expires_at: opt_to_the_millisecond(resource.lease_expires_at),
                created_at: to_the_millisecond(resource.created_at),
                ..resource@
            },
        ),
{
    proof {
        crate::document::resource_kind_round_trip(resource.kind);
        crate::document::resource_status_round_trip(resource.status);
        if in_range(resource.created_at) {
            instant_column_round_trip(resource.created_at);
        }
        if let Some(at) = resource.lease_expires_at {
            if in_range(at) {
                instant_column_round_trip(at);
            }
        }
    }
    let lease_expires_at: Option<i64> = match resource.lease_expires_at {
        Some(at) => Some(ms(at)),
        None => None,
    };
    ResourceRow {
        id: uuid_text(resource.id.value),
        kind: to_json(&resource.kind.to_doc()),
        status: to_json(&resource.status.to_doc()),
        metadata: to_json(&resource.metadata),
        lease_expires_at,
        created_at: ms(resource.created_at),
    }
}

// ---- artifacts -----------------------------------------------------------------

/// A row of the table of artifacts, for one run.
#[derive(Debug)]
pub struct ArtifactRow {
    /// The id.
    pub id: String,
    /// The type tag.
    pub kind: String,
    /// Where the bytes live.
    pub uri: String,
    /// The metadata as JSON text.
    pub metadata: String,
    /// When it was created, in milliseconds.
    pub created_at: i64,
}

impl ArtifactRow {
    /// The artifact of the run `run_id` that this row holds, or the error of its first
    /// column that holds none.
    pub open spec fn artifact(self, run_id: RunId) -> Result<ArtifactView, ErrorView> {
        match (uuid_in(self.id@), doc_in(self.metadata@)) {
            (Err(e), _) => Err(e),
            (Ok(_), Err(e)) => Err(e),
            (Ok(value), Ok(metadata)) => Ok(
                ArtifactView {
                    id: ArtifactId { value },
                    run_id,
                    kind: self.kind@,
                    uri: self.uri@,
                    metadata,
                    created_at: instant_at(self.created_at),
                },
            ),
        }
    }
}

/// The artifact of the run `run_id` that a row holds.
pub fn artifact_from_row(run_id: RunId, r: ArtifactRow) -> (artifact: Result<Artifact, Error>)
    ensures
        shown(artifact) == r.artifact(run_id),
{
    let value: u128 = match read_uuid(r.id.as_str()) {
        Ok(value) => value,
        Err(e) => return Err(e),
    };
    let metadata: Json = match read_doc(r.metadata.as_str()) {
        Ok(metadata) => metadata,
        Err(e) => return Err(e),
    };
    Ok(
        Artifact {
            id: ArtifactId { value },
            run_id,
            kind: r.kind,
            uri: r.uri,
            metadata,
            created_at: dt(r.created_at),
        },
    )
}

/// The row of an artifact. Where its metadata are read back from their text and its instant
/// is in range, it is read back from the row, but for what is below a millisecond.
pub fn row_from_artifact(artifact: &Artifact) -> (r: ArtifactRow)
    ensures
        r.id@ == uuid_hyphenated(artifact.id.value),
        r.kind@ == artifact.kind@,
        r.uri@ == artifact.uri@,
        r.metadata@ == doc_text(artifact.metadata@),
        r.created_at == millis_of(artifact.created_at),
        survives(artifact.metadata@) && in_range(artifact.created_at) ==> r.artifact(
            artifact.run_id,
        ) == Ok::<ArtifactView, ErrorView>(
            ArtifactView { created_at: to_the_millisecond(artifact.created_at), ..artifact@ },
        ),
{
    proof {
        if in_range(artifact.created_at) {
            instant_column_round_trip(artifact.created_at);
        }
    }
    ArtifactRow {
        id: uuid_text(artifact.id.value),
        kind: artifact.kind.clone(),
        uri: artifact.uri.clone(),
        metadata: to_json(&artifact.metadata),
        created_at: ms(artifact.created_at),
    }
}

} // verus!
