//! What the rows of a SQL store tell.

use vstd::prelude::*;

use crate::error::ErrorView;
use crate::ids::{uuid_hyphenated, uuid_parsed, RunId};
use crate::json::JsonView;
use crate::run::RunView;
use crate::sql_encoding::{
    doc_in, doc_text, in_range, instant_at, millis_of, opt_doc_in, run_id_in, storable,
    survives, ArtifactRow, EventRow, ResourceRow, RunRowView, SignalRow, StepRow,
};
use crate::text::opt_text;
use crate::time::Timestamp;
use crate::wire::json_parsed;

verus! {

/// An instant is kept in milliseconds, cut down to the one in which it lies, and read back as
/// that millisecond.
pub proof fn an_instant_is_kept_to_the_millisecond(at: Timestamp)
    requires
        in_range(at),
    ensures
        millis_of(at) * 1_000_000 <= at.nanos < (millis_of(at) + 1) * 1_000_000,
        instant_at(millis_of(at)).nanos as int == millis_of(at) * 1_000_000,
{
}

/// A number of milliseconds beyond the calendar is read as the epoch; one beyond 64 bits is
/// written as the nearest that there is.
pub proof fn an_instant_beyond_the_calendar_is_the_epoch(millis: i64, at: Timestamp)
    ensures
        millis as int / 1000 > 8_210_266_876_799 ==> instant_at(millis).nanos == 0,
        (millis as int) / 1000 < -8_334_601_228_800 ==> instant_at(millis).nanos == 0,
        at.nanos as int / 1_000_000 > i64::MAX ==> millis_of(at) == i64::MAX,
        (at.nanos as int) / 1_000_000 < i64::MIN ==> millis_of(at) == i64::MIN,
{
}

/// A document that is kept as text is read back where it is readable, and a text that is no
/// document is an error of serialization.
pub proof fn a_document_is_kept_as_text(text: Seq<char>, doc: JsonView)
    ensures
        doc_in(text) == Ok::<JsonView, ErrorView>(doc) <==> crate::wire::reads_as(
            vstd::utf8::encode_utf8(text),
            doc,
        ),
        doc_in(text) matches Err(e) ==> e is Serde,
        opt_doc_in(None) == Ok::<Option<JsonView>, ErrorView>(None),
        doc_in(text) == Ok::<JsonView, ErrorView>(doc) ==> opt_doc_in(Some(text)) == Ok::<
            Option<JsonView>,
            ErrorView,
        >(Some(doc)),
{
}

/// The row of a run has its record, column by column: ids as text, documents as JSON text,
/// instants in milliseconds, and texts as they are.
pub proof fn the_row_of_a_run_tells_its_record(run: RunView)
    ensures
        ({
            let row = RunRowView::of_run(run);
            &&& row.id == uuid_hyphenated(run.id.value)
            &&& run.parent_id matches Some(p) ==> row.parent_id == Some(uuid_hyphenated(p.value))
            &&& run.parent_id is None ==> row.parent_id is None
            &&& row.agent_type == run.agent_type
            &&& row.goal == run.goal
            &&& run.input matches Some(doc) ==> row.input == Some(doc_text(doc))
            &&& run.input is None ==> row.input is None
            &&& row.status == doc_text(run.status.doc())
            &&& run.waiting matches Some(wait) ==> row.waiting == Some(doc_text(wait.doc()))
            &&& run.waiting is None ==> row.waiting is None
            &&& row.session_ref == run.session_ref
            &&& row.budget == doc_text(run.budget.doc())
            &&& row.usage == doc_text(run.usage.doc())
            &&& run.output matches Some(doc) ==> row.output == Some(doc_text(doc))
            &&& run.output is None ==> row.output is None
            &&& row.error == run.error
            &&& row.created_at == millis_of(run.created_at)
            &&& row.updated_at == millis_of(run.updated_at)
        }),
{
}

/// The run that a row holds has what the columns say.
pub proof fn a_run_is_read_column_by_column(row: RunRowView, run: RunView)
    requires
        row.run() == Ok::<RunView, ErrorView>(run),
    ensures
        run_id_in(row.id) == Ok::<RunId, ErrorView>(run.id),
        run.parent_id is Some <==> row.parent_id is Some,
        run.parent_id matches Some(p) ==> run_id_in(row.parent_id->0) == Ok::<RunId, ErrorView>(p),
        run.agent_type == row.agent_type,
        run.goal == row.goal,
        run.input is Some <==> row.input is Some,
        run.input matches Some(doc) ==> doc_in(row.input->0) == Ok::<JsonView, ErrorView>(doc),
        run.session_ref == row.session_ref,
        run.error == row.error,
        run.output is Some <==> row.output is Some,
        run.output matches Some(doc) ==> doc_in(row.output->0) == Ok::<JsonView, ErrorView>(doc),
        run.waiting is Some <==> row.waiting is Some,
        run.created_at == instant_at(row.created_at),
        run.updated_at == instant_at(row.updated_at),
        doc_in(row.status) matches Ok(doc) && crate::run::RunStatus::of_doc(doc) == Some(
            run.status,
        ),
        doc_in(row.budget) matches Ok(doc) && crate::budget::Budget::of_doc(doc) == Some(
            run.budget,
        ),
        doc_in(row.usage) matches Ok(doc) && crate::budget::BudgetUsage::of_doc(doc) == Some(
            run.usage,
        ),
{
}

/// A run can be stored whose documents are readable, whose costs are whole dollars, whose
/// deadline can be written and whose instants are within the calendar.
pub proof fn an_ordinary_run_can_be_stored(run: RunView)
    requires
        run.input matches Some(doc) ==> crate::wire::readable(doc),
        run.output matches Some(doc) ==> crate::wire::readable(doc),
        run.waiting matches Some(wait) ==> wait.writable(),
        run.budget.max_cost_usd is None,
        run.usage.cost_usd.nanos == 0,
        in_range(run.created_at),
        in_range(run.updated_at),
    ensures
        storable(run),
{
}

/// The rows of events, steps, signals, resources and artifacts hold what their columns say.
pub proof fn records_are_read_column_by_column(
    event: EventRow,
    step: StepRow,
    signal: SignalRow,
    resource: ResourceRow,
    artifact: ArtifactRow,
    run_id: RunId,
    key: Seq<char>,
)
    ensures
        event.event(run_id) matches Ok(it) ==> {
            &&& it.run_id == run_id
            &&& event.seq >= 0 ==> it.seq == event.seq
            &&& doc_in(event.payload@) == Ok::<JsonView, ErrorView>(it.payload)
            &&& doc_in(event.kind@) matches Ok(doc) && crate::event::EventKind::of_doc(doc)
                == Some(it.kind)
            &&& it.at == instant_at(event.at)
        },
        step.record(run_id, key) matches Ok(it) ==> {
            &&& it.run_id == run_id
            &&& it.key == key
            &&& doc_in(step.status@) matches Ok(doc) && crate::step::StepStatus::of_doc(doc)
                == Some(it.status)
            &&& it.output is Some <==> step.output is Some
            &&& it.output matches Some(doc) ==> doc_in(step.output->0@) == Ok::<
                JsonView,
                ErrorView,
            >(doc)
            &&& it.error == opt_text(step.error)
            &&& 0 <= step.attempts <= u32::MAX ==> it.attempts == step.attempts
            &&& it.updated_at == instant_at(step.updated_at)
        },
        signal.signal(run_id) matches Ok(it) ==> {
            &&& it.run_id == run_id
            &&& it.name == signal.name@
            &&& doc_in(signal.payload@) == Ok::<JsonView, ErrorView>(it.payload)
            &&& it.created_at == instant_at(signal.created_at)
            &&& it.consumed
        },
        resource.resource(run_id) matches Ok(it) ==> {
            &&& it.run_id == run_id
            &&& crate::ids::spells(resource.id@, it.id.value)
            &&& doc_in(resource.metadata@) == Ok::<JsonView, ErrorView>(it.metadata)
            &&& doc_in(resource.kind@) matches Ok(doc)
                && crate::resource::ResourceKind::of_doc(doc) == Some(it.kind)
            &&& doc_in(resource.status@) matches Ok(doc)
                && crate::resource::ResourceStatus::of_doc(doc) == Some(it.status)
            &&& it.lease_expires_at is Some <==> resource.lease_expires_at is Some
            &&& it.lease_expires_at matches Some(at) ==> at == instant_at(
                resource.lease_expires_at->0,
            )
            &&& it.created_at == instant_at(resource.created_at)
        },
        artifact.artifact(run_id) matches Ok(it) ==> {
            &&& it.run_id == run_id
            &&& crate::ids::spells(artifact.id@, it.id.value)
            &&& it.kind == artifact.kind@
            &&& it.uri == artifact.uri@
            &&& doc_in(artifact.metadata@) == Ok::<JsonView, ErrorView>(it.metadata)
            &&& it.created_at == instant_at(artifact.created_at)
        },
{
}

/// Whether a text column holds a document of a certain form.
pub open spec fn column_holds<T>(text: Seq<char>, value: spec_fn(JsonView) -> Option<T>) -> bool {
    json_parsed(vstd::utf8::encode_utf8(text)) matches Ok(doc) && value(doc) is Some
}

/// Whether a text column holds a document.
pub open spec fn column_is_document(text: Seq<char>) -> bool {
    json_parsed(vstd::utf8::encode_utf8(text)) is Ok
}

/// A row is read exactly where every column of it can be.
pub proof fn a_row_is_read_where_its_columns_can_be(
    event: EventRow,
    step: StepRow,
    signal: SignalRow,
    resource: ResourceRow,
    artifact: ArtifactRow,
    run_id: RunId,
    key: Seq<char>,
)
    ensures
        event.event(run_id) is Ok <==> column_holds(
            event.kind@,
            |doc: JsonView| crate::event::EventKind::of_doc(doc),
        ) && column_is_document(event.payload@),
        step.record(run_id, key) is Ok <==> column_holds(
            step.status@,
            |doc: JsonView| crate::step::StepStatus::of_doc(doc),
        ) && (step.output matches Some(text) ==> column_is_document(text@)),
        signal.signal(run_id) is Ok <==> column_is_document(signal.payload@),
        resource.resource(run_id) is Ok <==> uuid_parsed(resource.id@) is Ok && column_holds(
            resource.kind@,
            |doc: JsonView| crate::resource::ResourceKind::of_doc(doc),
        ) && column_holds(
            resource.status@,
            |doc: JsonView| crate::resource::ResourceStatus::of_doc(doc),
        ) && column_is_document(resource.metadata@),
        artifact.artifact(run_id) is Ok <==> uuid_parsed(artifact.id@) is Ok
            && column_is_document(artifact.metadata@),
{
}

/// The row of a run is read exactly where every column of it can be, and its wait is the one
/// that its column holds.
pub proof fn the_row_of_a_run_is_read_where_its_columns_can_be(row: RunRowView)
    ensures
        row.run() is Ok <==> {
            &&& uuid_parsed(row.id) is Ok
            &&& row.parent_id matches Some(text) ==> uuid_parsed(text) is Ok
            &&& row.input matches Some(text) ==> column_is_document(text)
            &&& column_holds(row.status, |doc: JsonView| crate::run::RunStatus::of_doc(doc))
            &&& row.waiting matches Some(text) ==> column_holds(
                text,
                |doc: JsonView| crate::run::WaitView::of_doc(doc),
            )
            &&& column_holds(row.budget, |doc: JsonView| crate::budget::Budget::of_doc(doc))
            &&& column_holds(row.usage, |doc: JsonView| crate::budget::BudgetUsage::of_doc(doc))
            &&& row.output matches Some(text) ==> column_is_document(text)
        },
        row.run() is Ok ==> (row.waiting matches Some(text) ==> (json_parsed(
            vstd::utf8::encode_utf8(text),
        ) matches Ok(doc) && row.run()->Ok_0.waiting == crate::run::WaitView::of_doc(doc))),
{
}

/// A readable document survives its column.
pub proof fn a_readable_document_survives(doc: JsonView)
    requires
        crate::wire::readable(doc),
    ensures
        survives(doc),
{
}

} // verus!
