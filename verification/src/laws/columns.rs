//! What goes into the rows of a SQL store comes out of them.

use vstd::prelude::*;

use crate::artifact::Artifact;
use crate::error::Error;
use crate::event::Event;
use crate::ids::{uuid_parsed, RunId};
use crate::json::{opt_json, Json};
use crate::resource::Resource;
use crate::run::{opt_wait, Run};
use crate::signal::Signal;
use crate::sql_encoding;
use crate::sql_encoding::{
    in_range, storable, ArtifactRow, EventRow, ResourceRow, RunRow, SignalRow, StepRow,
};
use crate::step::StepRecord;
use crate::text::opt_text;
use crate::time::Timestamp;
use crate::wire::readable;

verus! {

/// Whether an instant is another one, cut down to its millisecond.
pub open spec fn same_millisecond(at: Timestamp, kept: Timestamp) -> bool {
    kept.nanos <= at.nanos < kept.nanos + 1_000_000 && kept.nanos as int % 1_000_000 == 0
}

/// A run that is written into its row and read again is the run that it was; its instants are
/// kept to the millisecond.
pub proof fn a_run_goes_through_its_row(run: &Run, row: RunRow, back: Result<Run, Error>)
    requires
        call_ensures(sql_encoding::row_from_run, (run,), row),
        call_ensures(sql_encoding::run_from_row, (row,), back),
        storable(run@),
    ensures
        back is Ok,
        ({
            let kept = back->Ok_0;
            &&& kept.id == run.id
            &&& kept.parent_id == run.parent_id
            &&& kept.agent_type@ == run.agent_type@
            &&& kept.goal@ == run.goal@
            &&& opt_json(kept.input) == opt_json(run.input)
            &&& kept.status == run.status
            &&& opt_wait(kept.waiting) == opt_wait(run.waiting)
            &&& opt_text(kept.session_ref) == opt_text(run.session_ref)
            &&& kept.budget == run.budget
            &&& kept.usage == run.usage
            &&& opt_json(kept.output) == opt_json(run.output)
            &&& opt_text(kept.error) == opt_text(run.error)
            &&& same_millisecond(run.created_at, kept.created_at)
            &&& same_millisecond(run.updated_at, kept.updated_at)
        }),
{
    let kept = back->Ok_0;
    assert(kept@.id == kept.id && kept@.parent_id == kept.parent_id);
    assert(kept@.status == kept.status && kept@.budget == kept.budget && kept@.usage
        == kept.usage);
    assert(kept@.created_at == kept.created_at && kept@.updated_at == kept.updated_at);
}

/// An event that is written into its row and read again is the event that it was.
pub proof fn an_event_goes_through_its_row(event: &Event, row: EventRow, back: Result<Event, Error>)
    requires
        call_ensures(sql_encoding::row_from_event, (event,), row),
        call_ensures(sql_encoding::event_from_row, (event.run_id, row), back),
        readable(event.payload@),
        in_range(event.at),
        event.seq <= i64::MAX,
    ensures
        back is Ok,
        ({
            let kept = back->Ok_0;
            &&& kept.run_id == event.run_id
            &&& kept.seq == event.seq
            &&& kept.kind == event.kind
            &&& kept.payload@ == event.payload@
            &&& same_millisecond(event.at, kept.at)
        }),
{
    let kept = back->Ok_0;
    assert(kept@.run_id == kept.run_id && kept@.seq == kept.seq && kept@.kind == kept.kind);
    assert(kept@.at == kept.at);
}

/// A step record that is written into its row and read again is the record that it was.
pub proof fn a_record_goes_through_its_row(
    record: &StepRecord,
    row: StepRow,
    key: &str,
    back: Result<StepRecord, Error>,
)
    requires
        call_ensures(sql_encoding::row_from_step, (record,), row),
        call_ensures(sql_encoding::step_from_row, (record.run_id, key, row), back),
        key@ == record.key@,
        record.output matches Some(output) ==> readable(output@),
        in_range(record.updated_at),
    ensures
        back is Ok,
        ({
            let kept = back->Ok_0;
            &&& kept.run_id == record.run_id
            &&& kept.key@ == record.key@
            &&& kept.status == record.status
            &&& opt_json(kept.output) == opt_json(record.output)
            &&& opt_text(kept.error) == opt_text(record.error)
            &&& kept.attempts == record.attempts
            &&& same_millisecond(record.updated_at, kept.updated_at)
        }),
{
    let kept = back->Ok_0;
    assert(kept@.run_id == kept.run_id && kept@.status == kept.status && kept@.attempts
        == kept.attempts);
    assert(kept@.updated_at == kept.updated_at);
}

/// A signal that is written into its row and taken from it has its name and its payload, and is
/// taken then.
pub proof fn a_signal_goes_through_its_row(
    run_id: RunId,
    name: &str,
    payload: &Json,
    at: Timestamp,
    row: SignalRow,
    back: Result<Signal, Error>,
)
    requires
        call_ensures(sql_encoding::row_from_signal, (name, payload, at), row),
        call_ensures(sql_encoding::signal_from_row, (run_id, row), back),
        readable(payload@),
        in_range(at),
    ensures
        back is Ok,
        ({
            let kept = back->Ok_0;
            &&& kept.run_id == run_id
            &&& kept.name@ == name@
            &&& kept.payload@ == payload@
            &&& kept.consumed
            &&& same_millisecond(at, kept.created_at)
        }),
{
    let kept = back->Ok_0;
    assert(row.signal(run_id) is Ok);
    assert(kept@.run_id == kept.run_id && kept@.consumed == kept.consumed && kept@.created_at
        == kept.created_at);
}

/// A resource that is written into its row and read again is the resource that it was.
pub proof fn a_resource_goes_through_its_row(
    resource: &Resource,
    row: ResourceRow,
    back: Result<Resource, Error>,
)
    requires
        call_ensures(sql_encoding::row_from_resource, (resource,), row),
        call_ensures(sql_encoding::resource_from_row, (resource.run_id, row), back),
        readable(resource.metadata@),
        in_range(resource.created_at),
        resource.lease_expires_at matches Some(at) ==> in_range(at),
    ensures
        back is Ok,
        ({
            let kept = back->Ok_0;
            &&& kept.id == resource.id
            &&& kept.run_id == resource.run_id
            &&& kept.kind == resource.kind
            &&& kept.status == resource.status
            &&& kept.metadata@ == resource.metadata@
            &&& kept.lease_expires_at is Some <==> resource.lease_expires_at is Some
            &&& resource.lease_expires_at is Some ==> same_millisecond(
                resource.lease_expires_at->0,
                kept.lease_expires_at->0,
            )
            &&& same_millisecond(resource.created_at, kept.created_at)
        }),
{
    let kept = back->Ok_0;
    assert(kept@.id == kept.id && kept@.run_id == kept.run_id && kept@.kind == kept.kind);
    assert(kept@.status == kept.status && kept@.lease_expires_at == kept.lease_expires_at);
    assert(kept@.created_at == kept.created_at);
}

/// An artifact that is written into its row and read again is the artifact that it was.
pub proof fn an_artifact_goes_through_its_row(
    artifact: &Artifact,
    row: ArtifactRow,
    back: Result<Artifact, Error>,
)
    requires
        call_ensures(sql_encoding::row_from_artifact, (artifact,), row),
        call_ensures(sql_encoding::artifact_from_row, (artifact.run_id, row), back),
        readable(artifact.metadata@),
        in_range(artifact.created_at),
    ensures
        back is Ok,
        ({
            let kept = back->Ok_0;
            &&& kept.id == artifact.id
            &&& kept.run_id == artifact.run_id
            &&& kept.kind@ == artifact.kind@
            &&& kept.uri@ == artifact.uri@
            &&& kept.metadata@ == artifact.metadata@
            &&& same_millisecond(artifact.created_at, kept.created_at)
        }),
{
    let kept = back->Ok_0;
    assert(kept@.id == kept.id && kept@.run_id == kept.run_id && kept@.created_at
        == kept.created_at);
}

/// An entry can be claimed from a whole millisecond on that is not before it is due, where it is
/// due later than now, and less than a millisecond after.
pub proof fn an_entry_is_ready_when_it_is_due(ready_at: Timestamp, now: Timestamp, ms: i64)
    requires
        call_ensures(sql_encoding::ready_ms, (ready_at, now), ms),
        in_range(ready_at),
    ensures
        ready_at.nanos > now.nanos ==> ready_at.nanos <= ms * 1_000_000 < ready_at.nanos
            + 1_000_000,
        ready_at.nanos <= now.nanos ==> ms * 1_000_000 <= ready_at.nanos < (ms + 1) * 1_000_000,
{
}

/// The id in a column is the one that it spells; a text that is no id is an error of storage.
pub proof fn an_id_is_read_from_its_column(text: &str, r: Result<RunId, Error>)
    requires
        call_ensures(sql_encoding::parse_run_id, (text,), r),
    ensures
        uuid_parsed(text@) matches Ok(value) ==> (r matches Ok(id) && id.value == value),
        uuid_parsed(text@) is Err ==> (r matches Err(e) && e is Storage),
{
}

} // verus!
