//! The models that the contracts speak in leave nothing out: values with the same model have the
//! same parts.

use vstd::prelude::*;

use crate::api::{ApiError, CreateRunRequest};
use crate::artifact::Artifact;
use crate::bridge::{CommandOutput, E2bSandbox, ProcessEvent, SandboxError};
use crate::change::Change;
use crate::computer::ObserveDoc;
use crate::driver::{Advance, ApprovalRequest, ChildOutcome, ChildSpec};
use crate::e2b::CreatedSandbox;
use crate::envelope::Frame;
use crate::error::Error;
use crate::event::Event;
use crate::json::{opt_json, Json, Number};
use crate::resource::Resource;
use crate::run::{opt_wait, Run, RunSpec, Wait};
use crate::sandbox::SandboxHandle;
use crate::signal::{ApprovalResolution, Signal};
use crate::step::StepRecord;
use crate::store::views;
use crate::text::opt_text;

verus! {

/// An optional part is modelled exactly where it is there, and a list item by item.
pub proof fn an_optional_part_is_there_where_it_is(
    text: String,
    doc: Json,
    wait: Wait,
    docs: Seq<Json>,
    i: int,
)
    ensures
        opt_text(Some(text)) == Some(text@) && opt_text(None) is None,
        opt_json(Some(doc)) == Some(doc@) && opt_json(None) is None,
        opt_wait(Some(wait)) == Some(wait@) && opt_wait(None) is None,
        views(docs).len() == docs.len(),
        0 <= i < docs.len() ==> views(docs)[i] == docs[i]@,
        Json::String(text)@ == crate::json::JsonView::String(text@),
        Json::Null@ == crate::json::JsonView::Null,
{
}

/// Runs with the same model have the same parts, and so have their specs.
pub proof fn a_run_is_its_parts(a: Run, b: Run, s: RunSpec, t: RunSpec)
    ensures
        a@ == b@ ==> {
            &&& a.id == b.id && a.parent_id == b.parent_id
            &&& a.agent_type@ == b.agent_type@ && a.goal@ == b.goal@
            &&& opt_json(a.input) == opt_json(b.input)
            &&& a.status == b.status && opt_wait(a.waiting) == opt_wait(b.waiting)
            &&& opt_text(a.session_ref) == opt_text(b.session_ref)
            &&& a.budget == b.budget && a.usage == b.usage
            &&& opt_json(a.output) == opt_json(b.output) && opt_text(a.error) == opt_text(b.error)
            &&& a.created_at == b.created_at && a.updated_at == b.updated_at
        },
        s@ == t@ ==> {
            &&& s.agent_type@ == t.agent_type@ && s.goal@ == t.goal@
            &&& opt_json(s.input) == opt_json(t.input)
            &&& opt_text(s.session_ref) == opt_text(t.session_ref)
            &&& s.budget == t.budget && s.parent_id == t.parent_id
        },
{
}

/// Waits with the same model are the same wait.
pub proof fn a_wait_is_its_parts(a: Wait, b: Wait)
    requires
        a@ == b@,
    ensures
        a is Approval <==> b is Approval,
        a is Timer <==> b is Timer,
        a matches Wait::Signal { name, deadline } ==> (b matches Wait::Signal {
            name: other,
            deadline: until,
        } && name@ == other@ && deadline == until),
        a matches Wait::ChildJoin { mode } ==> (b matches Wait::ChildJoin { mode: other } && mode
            == other),
{
}

/// Children that are asked for, and what became of children, with the same model have the same
/// parts.
pub proof fn a_child_is_its_parts(a: ChildSpec, b: ChildSpec, s: ChildOutcome, t: ChildOutcome)
    ensures
        a@ == b@ ==> {
            &&& a.agent_type@ == b.agent_type@ && a.goal@ == b.goal@
            &&& opt_json(a.input) == opt_json(b.input)
            &&& opt_text(a.session_ref) == opt_text(b.session_ref)
            &&& a.budget == b.budget
        },
        s@ == t@ ==> {
            &&& s.run_id == t.run_id && s.goal@ == t.goal@ && s.status == t.status
            &&& opt_json(s.output) == opt_json(t.output) && opt_text(s.error) == opt_text(t.error)
        },
{
}

/// Requests and answers with the same model have the same parts.
pub proof fn a_request_and_its_answer_are_their_parts(
    a: ApprovalRequest,
    b: ApprovalRequest,
    s: ApprovalResolution,
    t: ApprovalResolution,
)
    ensures
        a@ == b@ ==> a.tool_call_id@ == b.tool_call_id@ && a.summary@ == b.summary@ && a.risk@
            == b.risk@,
        s@ == t@ ==> s.tool_call_id@ == t.tool_call_id@ && s.decision == t.decision,
{
}

/// What drivers answer with the same model is the same answer.
pub proof fn an_advance_is_its_parts(a: Advance, b: Advance)
    requires
        a@ == b@,
    ensures
        a is Continue <==> b is Continue,
        a matches Advance::WaitForApproval { request } ==> (b matches Advance::WaitForApproval {
            request: other,
        } && request.tool_call_id@ == other.tool_call_id@),
        a matches Advance::WaitForSignal { name, timeout } ==> (b matches Advance::WaitForSignal {
            name: other,
            timeout: span,
        } && name@ == other@ && timeout == span),
        a matches Advance::Sleep { until } ==> (b matches Advance::Sleep { until: other } && until
            == other),
        a matches Advance::SpawnChildren { specs, join } ==> (b matches Advance::SpawnChildren {
            specs: others,
            join: mode,
        } && join == mode && specs@.len() == others@.len()),
        a matches Advance::Complete { output } ==> (b matches Advance::Complete { output: other }
            && output@ == other@),
        a matches Advance::Fail { error, retry } ==> (b matches Advance::Fail {
            error: other,
            retry: again,
        } && error@ == other@ && retry == again),
{
    if let Advance::SpawnChildren { specs, .. } = a {
        if let Advance::SpawnChildren { specs: others, .. } = b {
            assert(views(specs@).len() == views(others@).len());
        }
    }
}

/// Records of a run with the same model have the same parts: its events, signals, steps,
/// resources and artifacts.
pub proof fn records_are_their_parts(
    e: (Event, Event),
    s: (Signal, Signal),
    r: (StepRecord, StepRecord),
    l: (Resource, Resource),
    a: (Artifact, Artifact),
)
    ensures
        e.0@ == e.1@ ==> e.0.run_id == e.1.run_id && e.0.seq == e.1.seq && e.0.kind == e.1.kind
            && e.0.payload@ == e.1.payload@ && e.0.at == e.1.at,
        s.0@ == s.1@ ==> s.0.run_id == s.1.run_id && s.0.name@ == s.1.name@ && s.0.payload@
            == s.1.payload@ && s.0.created_at == s.1.created_at && s.0.consumed == s.1.consumed,
        r.0@ == r.1@ ==> r.0.run_id == r.1.run_id && r.0.key@ == r.1.key@ && r.0.status
            == r.1.status && opt_json(r.0.output) == opt_json(r.1.output) && opt_text(r.0.error)
            == opt_text(r.1.error) && r.0.attempts == r.1.attempts && r.0.updated_at
            == r.1.updated_at,
        l.0@ == l.1@ ==> l.0.id == l.1.id && l.0.run_id == l.1.run_id && l.0.kind == l.1.kind
            && l.0.status == l.1.status && l.0.metadata@ == l.1.metadata@ && l.0.lease_expires_at
            == l.1.lease_expires_at && l.0.created_at == l.1.created_at,
        a.0@ == a.1@ ==> a.0.id == a.1.id && a.0.run_id == a.1.run_id && a.0.kind@ == a.1.kind@
            && a.0.uri@ == a.1.uri@ && a.0.metadata@ == a.1.metadata@ && a.0.created_at
            == a.1.created_at,
{
}

/// Changes with the same model are the same change.
pub proof fn a_change_is_its_parts(a: Change, b: Change)
    requires
        a@ == b@,
    ensures
        a matches Change::CreateRun(run) ==> (b matches Change::CreateRun(other) && run.id
            == other.id),
        a matches Change::UpdateRun(run) ==> (b matches Change::UpdateRun(other) && run.id
            == other.id && run.status == other.status),
        a matches Change::Append { run_id, kind, payload, at } ==> (b matches Change::Append {
            run_id: id,
            kind: class,
            payload: doc,
            at: time,
        } && run_id == id && kind == class && payload@ == doc@ && at == time),
        a matches Change::Enqueue { entry_id, run_id, ready_at } ==> (b matches Change::Enqueue {
            entry_id: entry,
            run_id: id,
            ready_at: time,
        } && entry_id == entry && run_id == id && ready_at == time),
        a matches Change::Deliver { run_id, name, payload, at } ==> (b matches Change::Deliver {
            run_id: id,
            name: text,
            payload: doc,
            at: time,
        } && run_id == id && name@ == text@ && payload@ == doc@ && at == time),
{
    if let Change::CreateRun(run) = a {
        if let Change::CreateRun(other) = b {
            a_run_is_its_parts(run, other, arbitrary(), arbitrary());
        }
    }
    if let Change::UpdateRun(run) = a {
        if let Change::UpdateRun(other) = b {
            a_run_is_its_parts(run, other, arbitrary(), arbitrary());
        }
    }
}

/// Requests to create a run with the same model have the same parts.
pub proof fn a_creation_request_is_its_parts(a: CreateRunRequest, b: CreateRunRequest)
    requires
        a@ == b@,
    ensures
        a.agent_type@ == b.agent_type@,
        a.goal@ == b.goal@,
        opt_json(a.input) == opt_json(b.input),
        opt_text(a.session_ref) == opt_text(b.session_ref),
        a.budget == b.budget,
        opt_text(a.parent_id) == opt_text(b.parent_id),
{
}

/// Errors with the same model are the same error.
pub proof fn an_error_is_its_parts(a: Error, b: Error, s: ApiError, t: ApiError)
    ensures
        a@ == b@ ==> {
            &&& a matches Error::RunNotFound(id) ==> (b matches Error::RunNotFound(other) && id
                == other)
            &&& a matches Error::NoDriver(text) ==> (b matches Error::NoDriver(other) && text@
                == other@)
            &&& a matches Error::Serde(text) ==> (b matches Error::Serde(other) && text@ == other@)
            &&& a matches Error::Storage(text) ==> (b matches Error::Storage(other) && text@
                == other@)
            &&& a matches Error::BudgetExceeded(text) ==> (b matches Error::BudgetExceeded(other)
                && text@ == other@)
            &&& a matches Error::Driver(text) ==> (b matches Error::Driver(other) && text@
                == other@)
            &&& a matches Error::Message(text) ==> (b matches Error::Message(other) && text@
                == other@)
            &&& a matches Error::StepExhausted { key, attempts, message } ==> (
            b matches Error::StepExhausted { key: k, attempts: n, message: m } && key@ == k@
                && attempts == n && message@ == m@)
        },
        s@ == t@ ==> {
            &&& s is NotFound <==> t is NotFound
            &&& s is BadRequest <==> t is BadRequest
            &&& s is Internal <==> t is Internal
        },
{
}

/// Documents with the same model have the same parts.
pub proof fn a_document_is_its_parts(a: Json, b: Json, m: Number, n: Number)
    ensures
        a@ == b@ ==> {
            &&& a is Null <==> b is Null
            &&& a matches Json::Bool(one) ==> (b matches Json::Bool(other) && one == other)
            &&& a matches Json::String(one) ==> (b matches Json::String(other) && one@ == other@)
            &&& a matches Json::Number(one) ==> (b matches Json::Number(other) && one@ == other@)
            &&& a is Array <==> b is Array
            &&& a is Object <==> b is Object
        },
        m@ == n@ ==> {
            &&& m matches Number::Unsigned(one) ==> (n matches Number::Unsigned(other) && one
                == other)
            &&& m matches Number::Signed(one) ==> (n matches Number::Signed(other) && one == other)
            &&& m matches Number::Fraction(one) ==> (n matches Number::Fraction(other) && one@
                == other@)
        },
{
}

/// What the services hand over with the same model has the same parts.
pub proof fn replies_are_their_parts(
    s: (E2bSandbox, E2bSandbox),
    c: (CreatedSandbox, CreatedSandbox),
    o: (CommandOutput, CommandOutput),
    p: (ProcessEvent, ProcessEvent),
    d: (ObserveDoc, ObserveDoc),
    h: (SandboxHandle, SandboxHandle),
    f: (Frame, Frame),
    e: (SandboxError, SandboxError),
)
    ensures
        s.0@ == s.1@ ==> s.0.host_base@ == s.1.host_base@ && s.0.user@ == s.1.user@ && opt_text(
            s.0.access_token,
        ) == opt_text(s.1.access_token),
        c.0@ == c.1@ ==> c.0.sandbox_id@ == c.1.sandbox_id@ && opt_text(c.0.domain) == opt_text(
            c.1.domain,
        ) && opt_text(c.0.envd_access_token) == opt_text(c.1.envd_access_token),
        o.0@ == o.1@ ==> o.0.stdout@ == o.1.stdout@ && o.0.stderr@ == o.1.stderr@
            && o.0.exit_code == o.1.exit_code,
        p.0@ == p.1@ ==> opt_text(p.0.stdout) == opt_text(p.1.stdout) && opt_text(p.0.stderr)
            == opt_text(p.1.stderr) && (p.0.end is Some <==> p.1.end is Some) && (p.0.end is Some
            ==> p.0.end->0.exit_code == p.1.end->0.exit_code),
        d.0@ == d.1@ ==> opt_text(d.0.title) == opt_text(d.1.title) && opt_text(d.0.url)
            == opt_text(d.1.url) && d.0.width == d.1.width && d.0.height == d.1.height && opt_text(
            d.0.outline,
        ) == opt_text(d.1.outline) && opt_text(d.0.screenshot_b64) == opt_text(
            d.1.screenshot_b64,
        ),
        h.0@ == h.1@ ==> h.0.id@ == h.1.id@ && h.0.metadata@ == h.1.metadata@,
        f.0@ == f.1@ ==> f.0.flags == f.1.flags && f.0.payload@ == f.1.payload@,
        e.0@ == e.1@ ==> (e.0 matches SandboxError::Backend(one) && e.1 matches
            SandboxError::Backend(other) && one@ == other@),
{
}

} // verus!
