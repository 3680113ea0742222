//! The decisions of the engine: from values that were read to the changes that
//! are to be written.
//!
//! Nothing here reads or writes. Times and fresh ids come in as arguments.

use vstd::prelude::*;

use crate::budget::{Budget, BudgetUsage};
use crate::change::{Change, ChangeView};
use crate::driver::{Advance, AdvanceView, ApprovalRequestView, ChildSpec, ChildSpecView};
use crate::event::EventKind;
use crate::ids::{time_ordered, RunId};
use crate::json::{items_view, Json, JsonView};
use crate::run::{JoinMode, Run, RunSpec, RunSpecView, RunStatus, RunView, Wait, WaitView};
use crate::signal::{ApprovalResolution, ApprovalResolutionView, APPROVAL_SIGNAL};
use crate::store::views;
use crate::time::{Duration, Timestamp};

verus! {

// ---- creating, waking, signalling ----------------------------------------------

/// The payload of the event that records the creation of a run.
pub open spec fn created_payload(run: RunView) -> JsonView {
    JsonView::empty_object().with("agent_type"@, JsonView::String(run.agent_type)).with(
        "goal"@,
        JsonView::String(run.goal),
    )
}

/// Creating a run: it is filed, its creation is logged, and it is runnable at
/// once.
pub open spec fn creation(run: RunView, entry_id: u128, now: Timestamp) -> Seq<ChangeView> {
    seq![
        ChangeView::CreateRun(run),
        ChangeView::Append {
            run_id: run.id,
            kind: EventKind::RunCreated,
            payload: created_payload(run),
            at: now,
        },
        ChangeView::Enqueue { entry_id, run_id: run.id, ready_at: now },
    ]
}

/// The changes that create a run.
pub fn plan_creation(run: Run, entry_id: u128, now: Timestamp) -> (r: Vec<Change>)
    ensures
        views(r@) == creation(run@, entry_id, now),
{
    let run_id: RunId = run.id;
    let payload: Json = Json::object().with(
        "agent_type",
        Json::String(run.agent_type.clone()),
    ).with("goal", Json::String(run.goal.clone()));
    let mut r: Vec<Change> = Vec::new();
    r.push(Change::CreateRun(run));
    r.push(Change::Append { run_id, kind: EventKind::RunCreated, payload, at: now });
    r.push(Change::Enqueue { entry_id, run_id, ready_at: now });
    proof {
        assert(views(r@) =~= creation(run@, entry_id, now));
    }
    r
}

/// Making a run runnable again at once.
pub open spec fn waking(run: RunView, entry_id: u128, now: Timestamp) -> Seq<ChangeView> {
    seq![
        ChangeView::UpdateRun(run.pending(now)),
        ChangeView::Enqueue { entry_id, run_id: run.id, ready_at: now },
    ]
}

/// The changes that make a run runnable again.
pub fn plan_waking(run: Run, entry_id: u128, now: Timestamp) -> (r: Vec<Change>)
    ensures
        views(r@) == waking(run@, entry_id, now),
{
    let run_id: RunId = run.id;
    let mut r: Vec<Change> = Vec::new();
    r.push(Change::UpdateRun(run.into_pending(now)));
    r.push(Change::Enqueue { entry_id, run_id, ready_at: now });
    proof {
        assert(views(r@) =~= waking(run@, entry_id, now));
    }
    r
}

/// Delivering a signal: it is put into the inbox, and its arrival is logged.
pub open spec fn signalling(
    run_id: RunId,
    name: Seq<char>,
    payload: JsonView,
    now: Timestamp,
) -> Seq<ChangeView> {
    seq![
        ChangeView::Deliver { run_id, name, payload, at: now },
        ChangeView::Append {
            run_id,
            kind: EventKind::SignalReceived,
            payload: JsonView::empty_object().with("name"@, JsonView::String(name)),
            at: now,
        },
    ]
}

/// The changes that deliver a signal.
pub fn plan_signalling(run_id: RunId, name: &str, payload: Json, now: Timestamp) -> (r: Vec<
    Change,
>)
    ensures
        views(r@) == signalling(run_id, name@, payload@, now),
{
    let mut r: Vec<Change> = Vec::new();
    r.push(Change::Deliver { run_id, name: name.to_owned(), payload, at: now });
    r.push(
        Change::Append {
            run_id,
            kind: EventKind::SignalReceived,
            payload: Json::object().with("name", Json::string(name)),
            at: now,
        },
    );
    proof {
        assert(views(r@) =~= signalling(run_id, name@, payload@, now));
    }
    r
}

/// Delivering the answer to an approval request: it is put into the inbox under
/// the reserved name, and logged.
pub open spec fn approving(
    run_id: RunId,
    resolution: ApprovalResolutionView,
    now: Timestamp,
) -> Seq<ChangeView> {
    seq![
        ChangeView::Deliver {
            run_id,
            name: APPROVAL_SIGNAL@,
            payload: resolution.payload(),
            at: now,
        },
        ChangeView::Append {
            run_id,
            kind: EventKind::ApprovalResolved,
            payload: resolution.payload(),
            at: now,
        },
    ]
}

/// The changes that deliver the answer to an approval request.
pub fn plan_approving(run_id: RunId, resolution: &ApprovalResolution, now: Timestamp) -> (r: Vec<
    Change,
>)
    ensures
        views(r@) == approving(run_id, resolution@, now),
{
    let mut r: Vec<Change> = Vec::new();
    r.push(
        Change::Deliver {
            run_id,
            name: APPROVAL_SIGNAL.to_owned(),
            payload: resolution.to_payload(),
            at: now,
        },
    );
    r.push(
        Change::Append {
            run_id,
            kind: EventKind::ApprovalResolved,
            payload: resolution.to_payload(),
            at: now,
        },
    );
    proof {
        assert(views(r@) =~= approving(run_id, resolution@, now));
    }
    r
}

// ---- finishing -----------------------------------------------------------------

/// Failing a run with a message.
pub open spec fn failing(run: RunView, error: Seq<char>, now: Timestamp) -> Seq<ChangeView> {
    seq![
        ChangeView::UpdateRun(run.failed(error, now)),
        ChangeView::Append {
            run_id: run.id,
            kind: EventKind::RunFailed,
            payload: JsonView::empty_object().with("error"@, JsonView::String(error)),
            at: now,
        },
    ]
}

/// The changes that fail a run.
pub fn plan_failing(run: Run, error: String, now: Timestamp) -> (r: Vec<Change>)
    ensures
        views(r@) == failing(run@, error@, now),
{
    let run_id: RunId = run.id;
    let payload: Json = Json::object().with("error", Json::String(error.clone()));
    let mut r: Vec<Change> = Vec::new();
    r.push(Change::UpdateRun(run.into_failed(error, now)));
    r.push(Change::Append { run_id, kind: EventKind::RunFailed, payload, at: now });
    proof {
        assert(views(r@) =~= failing(run@, error@, now));
    }
    r
}

/// Completing a run with an output.
pub open spec fn completing(run: RunView, output: JsonView, now: Timestamp) -> Seq<ChangeView> {
    seq![
        ChangeView::UpdateRun(run.completed(output, now)),
        ChangeView::Append {
            run_id: run.id,
            kind: EventKind::RunCompleted,
            payload: JsonView::empty_object(),
            at: now,
        },
    ]
}

fn plan_completing(run: Run, output: Json, now: Timestamp) -> (r: Vec<Change>)
    ensures
        views(r@) == completing(run@, output@, now),
{
    let run_id: RunId = run.id;
    let mut r: Vec<Change> = Vec::new();
    r.push(Change::UpdateRun(run.into_completed(output, now)));
    r.push(
        Change::Append { run_id, kind: EventKind::RunCompleted, payload: Json::object(), at: now },
    );
    proof {
        assert(views(r@) =~= completing(run@, output@, now));
    }
    r
}

// ---- parking -------------------------------------------------------------------

/// Parking a run until a human decides.
pub open spec fn asking(
    run: RunView,
    request: ApprovalRequestView,
    now: Timestamp,
) -> Seq<ChangeView> {
    seq![
        ChangeView::UpdateRun(
            run.parked(RunStatus::WaitingApproval, WaitView::Approval, now),
        ),
        ChangeView::Append {
            run_id: run.id,
            kind: EventKind::ApprovalRequested,
            payload: request.payload(),
            at: now,
        },
    ]
}

/// When a wait that begins at `now` times out: `timeout` later, or at the last instant
/// there is.
pub open spec fn deadline(timeout: Option<Duration>, now: Timestamp) -> Option<Timestamp> {
    match timeout {
        Some(span) => Some(now.later(span)),
        None => None,
    }
}

/// Parking a run until a named signal arrives; with a deadline the run is also
/// runnable from that instant on.
pub open spec fn listening(
    run: RunView,
    name: Seq<char>,
    timeout: Option<Duration>,
    entry_id: u128,
    now: Timestamp,
) -> Seq<ChangeView> {
    let parked = ChangeView::UpdateRun(
        run.parked(
            RunStatus::WaitingSignal,
            WaitView::Signal { name, deadline: deadline(timeout, now) },
            now,
        ),
    );
    match deadline(timeout, now) {
        Some(ready_at) => seq![
            parked,
            ChangeView::Enqueue { entry_id, run_id: run.id, ready_at },
        ],
        None => seq![parked],
    }
}

/// How an instant is written in a payload; `null` beyond the calendar.
pub open spec fn instant_payload(t: Timestamp) -> JsonView {
    match t.rfc3339() {
        Some(text) => JsonView::String(text),
        None => JsonView::Null,
    }
}

/// Parking a run until an instant.
pub open spec fn sleeping(
    run: RunView,
    until: Timestamp,
    entry_id: u128,
    now: Timestamp,
) -> Seq<ChangeView> {
    seq![
        ChangeView::UpdateRun(run.parked(RunStatus::WaitingTimer, WaitView::Timer, now)),
        ChangeView::Append {
            run_id: run.id,
            kind: EventKind::TimerSet,
            payload: JsonView::empty_object().with("until"@, instant_payload(until)),
            at: now,
        },
        ChangeView::Enqueue { entry_id, run_id: run.id, ready_at: until },
    ]
}

// ---- spawning ------------------------------------------------------------------

/// The run that a child spec describes: a child of `parent` with the id `id`, and
/// with a copy of the parent's budget unless it has its own.
pub open spec fn child_run(
    parent: RunView,
    spec: ChildSpecView,
    id: u128,
    now: Timestamp,
) -> RunView {
    (RunSpecView {
        agent_type: spec.agent_type,
        goal: spec.goal,
        input: spec.input,
        session_ref: spec.session_ref,
        budget: match spec.budget {
            Some(budget) => budget,
            None => parent.budget,
        },
        parent_id: Some(parent.id),
    }).fresh(RunId { value: id }, now)
}

/// Creating the children of `parent`, one after the other. Child `i` has the id
/// `ids[2 * i]`, and its queue entry the id `ids[2 * i + 1]`.
pub open spec fn births(
    parent: RunView,
    specs: Seq<ChildSpecView>,
    ids: Seq<u128>,
    now: Timestamp,
) -> Seq<ChangeView>
    decreases specs.len(),
{
    if specs.len() == 0 {
        Seq::empty()
    } else {
        let n = specs.len() - 1;
        births(parent, specs.drop_last(), ids, now) + creation(
            child_run(parent, specs.last(), ids[2 * n], now),
            ids[2 * n + 1],
            now,
        )
    }
}

/// How the ids of `n` spawned children are written in a payload.
pub open spec fn child_list(ids: Seq<u128>, n: nat) -> JsonView {
    JsonView::Array(
        Seq::new(n, |i: int| JsonView::String(crate::ids::uuid_hyphenated(ids[2 * i]))),
    )
}

/// Spawning children and parking until they join.
pub open spec fn spawning(
    run: RunView,
    specs: Seq<ChildSpecView>,
    join: JoinMode,
    ids: Seq<u128>,
    now: Timestamp,
) -> Seq<ChangeView> {
    births(run, specs, ids, now) + seq![
        ChangeView::UpdateRun(
            run.parked(RunStatus::WaitingSignal, WaitView::ChildJoin { mode: join }, now),
        ),
        ChangeView::Append {
            run_id: run.id,
            kind: EventKind::ChildRunSpawned,
            payload: JsonView::empty_object().with("children"@, child_list(ids, specs.len())),
            at: now,
        },
    ]
}

/// The usage of spawning `n` children.
pub open spec fn spawn_usage(n: nat) -> BudgetUsage {
    BudgetUsage {
        children: if n <= u64::MAX {
            n as u64
        } else {
            u64::MAX
        },
        ..BudgetUsage::none()
    }
}

// ---- settling an advance -------------------------------------------------------

/// Fresh ids for the settling of one advance.
#[derive(Debug)]
pub struct FreshIds {
    /// For a queue entry of the run.
    pub entry: u128,
    /// For a second queue entry: one of the run's parent, or one of the run where
    /// a signal arrives while the run parks.
    pub second_entry: u128,
    /// Two for each spawned child: the child's id and the id of its queue entry.
    pub children: Vec<u128>,
}

impl FreshIds {
    /// Whether these ids are time-ordered UUIDs.
    pub open spec fn drawn(self) -> bool {
        &&& time_ordered(self.entry)
        &&& time_ordered(self.second_entry)
        &&& forall|i: int|
            0 <= i < self.children@.len() ==> time_ordered(#[trigger] self.children@[i])
    }
}

/// How many fresh ids the children of an advance take.
pub open spec fn child_ids_needed(advance: AdvanceView) -> nat {
    match advance {
        AdvanceView::SpawnChildren { specs, .. } => 2 * specs.len(),
        _ => 0,
    }
}

/// The name of the signal that an advance would park the run on.
pub open spec fn awaited(advance: AdvanceView) -> Option<Seq<char>> {
    match advance {
        AdvanceView::WaitForApproval { .. } => Some(APPROVAL_SIGNAL@),
        AdvanceView::WaitForSignal { name, .. } => Some(name),
        _ => None,
    }
}

/// The failure that ends the run, where an advance fails it: its own message, or
/// the breach of the limit on children.
pub open spec fn failure(run: RunView, advance: AdvanceView) -> Option<Seq<char>> {
    match advance {
        AdvanceView::Fail { error, retry } => if retry {
            None
        } else {
            Some(error)
        },
        AdvanceView::SpawnChildren { specs, .. } => match run.budget.breach(
            run.charged(spawn_usage(specs.len())).usage,
        ) {
            Some(report) => Some(Budget::exceeded(report)),
            None => None,
        },
        _ => None,
    }
}

/// The run as it counts when an advance is settled: spawning charges the
/// children.
pub open spec fn settled_run(run: RunView, advance: AdvanceView) -> RunView {
    match advance {
        AdvanceView::SpawnChildren { specs, .. } => run.charged(spawn_usage(specs.len())),
        _ => run,
    }
}

/// Whether an advance brings the run into a final state.
pub open spec fn finishes(run: RunView, advance: AdvanceView) -> bool {
    advance is Complete || failure(run, advance) is Some
}

/// What an advance makes of the run: the changes to write. `arrived` tells
/// whether the signal that the run would park on is there already; then the run
/// does not park, it goes on at once and its driver consumes the signal.
pub open spec fn settling(
    run: RunView,
    advance: AdvanceView,
    arrived: bool,
    now: Timestamp,
    entry: u128,
    ids: Seq<u128>,
) -> Seq<ChangeView> {
    let counted = settled_run(run, advance);
    match failure(run, advance) {
        Some(error) => failing(counted, error, now),
        None => if arrived && awaited(advance) is Some {
            waking(run, entry, now)
        } else {
            match advance {
                AdvanceView::Continue => waking(run, entry, now),
                AdvanceView::Fail { .. } => waking(run, entry, now),
                AdvanceView::Complete { output } => completing(run, output, now),
                AdvanceView::WaitForApproval { request } => asking(run, request, now),
                AdvanceView::WaitForSignal { name, timeout } => listening(
                    run,
                    name,
                    timeout,
                    entry,
                    now,
                ),
                AdvanceView::Sleep { until } => sleeping(run, until, entry, now),
                AdvanceView::SpawnChildren { specs, join } => spawning(
                    counted,
                    specs,
                    join,
                    ids,
                    now,
                ),
            }
        },
    }
}

fn plan_asking(run: Run, payload: Json, now: Timestamp) -> (r: Vec<Change>)
    ensures
        forall|request: ApprovalRequestView|
            payload@ == #[trigger] request.payload() ==> views(r@) == asking(run@, request, now),
{
    let run_id: RunId = run.id;
    let mut r: Vec<Change> = Vec::new();
    r.push(
        Change::UpdateRun(run.into_parked(RunStatus::WaitingApproval, Wait::Approval, now)),
    );
    r.push(Change::Append { run_id, kind: EventKind::ApprovalRequested, payload, at: now });
    proof {
        assert forall|request: ApprovalRequestView|
            payload@ == #[trigger] request.payload() implies views(r@) == asking(
            run@,
            request,
            now,
        ) by {
            assert(views(r@) =~= asking(run@, request, now));
        }
    }
    r
}

fn plan_listening(
    run: Run,
    name: String,
    timeout: Option<Duration>,
    entry_id: u128,
    now: Timestamp,
) -> (r: Vec<Change>)
    ensures
        views(r@) == listening(run@, name@, timeout, entry_id, now),
{
    let run_id: RunId = run.id;
    let deadline: Option<Timestamp> = match timeout {
        Some(span) => Some(now.after(span)),
        None => None,
    };
    let mut r: Vec<Change> = Vec::new();
    r.push(
        Change::UpdateRun(
            run.into_parked(RunStatus::WaitingSignal, Wait::Signal { name, deadline }, now),
        ),
    );
    if let Some(ready_at) = deadline {
        r.push(Change::Enqueue { entry_id, run_id, ready_at });
    }
    proof {
        assert(views(r@) =~= listening(run@, name@, timeout, entry_id, now));
    }
    r
}

fn plan_sleeping(run: Run, until: Timestamp, entry_id: u128, now: Timestamp) -> (r: Vec<Change>)
    ensures
        views(r@) == sleeping(run@, until, entry_id, now),
{
    let run_id: RunId = run.id;
    let instant: Json = match until.to_rfc3339() {
        Some(text) => Json::String(text),
        None => Json::Null,
    };
    let mut r: Vec<Change> = Vec::new();
    r.push(Change::UpdateRun(run.into_parked(RunStatus::WaitingTimer, Wait::Timer, now)));
    r.push(
        Change::Append {
            run_id,
            kind: EventKind::TimerSet,
            payload: Json::object().with("until", instant),
            at: now,
        },
    );
    r.push(Change::Enqueue { entry_id, run_id, ready_at: until });
    proof {
        assert(views(r@) =~= sleeping(run@, until, entry_id, now));
    }
    r
}

fn plan_spawning(
    run: Run,
    specs: Vec<ChildSpec>,
    join: JoinMode,
    ids: &Vec<u128>,
    now: Timestamp,
) -> (r: Vec<Change>)
    requires
        ids@.len() == 2 * specs@.len(),
    ensures
        views(r@) == spawning(run@, views(specs@), join, ids@, now),
{
    let ghost all = views(specs@);
    let n: usize = specs.len();
    let total: usize = ids.len();
    let mut r: Vec<Change> = Vec::new();
    let mut listed: Vec<Json> = Vec::new();
    let mut i: usize = 0;
    let mut rest: Vec<ChildSpec> = specs;
    let run_id: RunId = run.id;
    let budget: Budget = run.budget;
    proof {
        assert(all.take(0) =~= Seq::<ChildSpecView>::empty());
    }
    while i < n
        invariant
            i <= n,
            n == all.len(),
            ids@.len() == 2 * n,
            ids@.len() == total,
            run_id == run.id,
            budget == run.budget,
            rest@.len() == n - i,
            forall|j: int| 0 <= j < n - i ==> (#[trigger] rest@[j])@ == all[i + j],
            views(r@) == births(run@, all.take(i as int), ids@, now),
            items_view(listed@) == Seq::new(
                i as nat,
                |j: int| JsonView::String(crate::ids::uuid_hyphenated(ids@[2 * j])),
            ),
        decreases n - i,
    {
        let ghost before = rest@;
        let spec: ChildSpec = rest.remove(0);
        proof {
            assert(before[0]@ == all[i as int]);
            assert forall|j: int| 0 <= j < n - (i + 1) implies (#[trigger] rest@[j])@ == all[i + 1
                + j] by {
                assert(rest@[j] == before[j + 1]);
            }
        }
        let child_id = RunId { value: ids[2 * i] };
        let child: Run = Run::from_spec_with_id(
            RunSpec {
                agent_type: spec.agent_type,
                goal: spec.goal,
                input: spec.input,
                session_ref: spec.session_ref,
                budget: match spec.budget {
                    Some(own) => own,
                    None => budget,
                },
                parent_id: Some(run_id),
            },
            child_id,
            now,
        );
        proof {
            assert(child@ == child_run(run@, all[i as int], ids@[2 * i], now));
        }
        let mut born: Vec<Change> = plan_creation(child, ids[2 * i + 1], now);
        let ghost made = r@;
        let ghost added = born@;
        r.append(&mut born);
        let ghost named = listed@;
        let name: Json = Json::String(child_id.text());
        listed.push(name);
        proof {
            assert(listed@.last().model() == JsonView::String(
                crate::ids::uuid_hyphenated(ids@[2 * i]),
            ));
            assert(views(r@) =~= views(made) + views(added));
            assert(all.take(i + 1).drop_last() =~= all.take(i as int));
            assert(listed@.drop_last() =~= named);
            assert(items_view(listed@) =~= Seq::new(
                (i + 1) as nat,
                |j: int| JsonView::String(crate::ids::uuid_hyphenated(ids@[2 * j])),
            ));
        }
        i = i + 1;
    }
    let ghost children = views(r@);
    let parked: Run = run.into_parked(
        RunStatus::WaitingSignal,
        Wait::ChildJoin { mode: join },
        now,
    );
    r.push(Change::UpdateRun(parked));
    r.push(
        Change::Append {
            run_id,
            kind: EventKind::ChildRunSpawned,
            payload: Json::object().with("children", Json::Array(listed)),
            at: now,
        },
    );
    proof {
        assert(all.take(n as int) =~= all);
        assert(views(r@) =~= spawning(run@, all, join, ids@, now));
    }
    r
}

/// The changes that settle an advance of `run`, and whether they bring the run
/// into a final state.
pub fn plan_settling(
    run: Run,
    advance: Advance,
    arrived: bool,
    now: Timestamp,
    fresh: &FreshIds,
) -> (r: (Vec<Change>, bool))
    requires
        fresh.children@.len() == child_ids_needed(advance@),
    ensures
        views(r.0@) == settling(run@, advance@, arrived, now, fresh.entry, fresh.children@),
        r.1 == finishes(run@, advance@),
{
    match advance {
        Advance::Continue => (plan_waking(run, fresh.entry, now), false),
        Advance::Complete { output } => (plan_completing(run, output, now), true),
        Advance::Fail { error, retry } => {
            if retry {
                (plan_waking(run, fresh.entry, now), false)
            } else {
                (plan_failing(run, error, now), true)
            }
        },
        Advance::WaitForApproval { request } => {
            if arrived {
                (plan_waking(run, fresh.entry, now), false)
            } else {
                (plan_asking(run, request.to_payload(), now), false)
            }
        },
        Advance::WaitForSignal { name, timeout } => {
            if arrived {
                (plan_waking(run, fresh.entry, now), false)
            } else {
                (plan_listening(run, name, timeout, fresh.entry, now), false)
            }
        },
        Advance::Sleep { until } => (plan_sleeping(run, until, fresh.entry, now), false),
        Advance::SpawnChildren { specs, join } => {
            let mut usage: BudgetUsage = run.usage;
            usage.add(
                &BudgetUsage { children: specs.len() as u64, ..BudgetUsage::default() },
            );
            let counted = Run { usage, ..run };
            match counted.budget.check(&counted.usage) {
                Err(report) => {
                    let message: String = Budget::exceeded_text(report.as_str());
                    (plan_failing(counted, message, now), true)
                },
                Ok(_) => (plan_spawning(counted, specs, join, &fresh.children, now), false),
            }
        },
    }
}

} // verus!
